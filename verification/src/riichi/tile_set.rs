use vstd::prelude::*;

use super::tile::{
    kind_is_five, kind_suit, suit_index, Rank, Suit, Tile, TileId, TileKind, KIND_COUNT,
};

verus! {

broadcast use {TileKind::lemma_view_injective, TileKind::lemma_spec_at};

const COPIES_PER_KIND: u8 = 4;

const YONMA_TILE_COUNT: usize = 136;

const SANMA_TILE_COUNT: usize = 108;

/// The number of players at a table.
#[derive(Clone, Copy, Debug, PartialEq, Eq, Structural, Hash)]
pub struct SeatCount(u8);

impl View for SeatCount {
    type V = u8;

    closed spec fn view(&self) -> u8 {
        self.0
    }
}

impl SeatCount {
    #[must_use]
    pub fn value(self) -> (r: u8)
        ensures
            r == self@,
    {
        self.0
    }
}

#[derive(Clone, Copy, Debug, PartialEq, Eq, Structural, Hash)]
pub enum RiichiVariant {
    Yonma,
    Sanma,
}

/// Players at the table: four in yonma, three in sanma.
pub open spec fn seat_count_of(variant: RiichiVariant) -> u8 {
    match variant {
        RiichiVariant::Yonma => 4,
        RiichiVariant::Sanma => 3,
    }
}

/// Tiles in a full set: 136 in yonma, 108 in sanma.
pub open spec fn tile_count_of(variant: RiichiVariant) -> nat {
    match variant {
        RiichiVariant::Yonma => 136,
        RiichiVariant::Sanma => 108,
    }
}

/// Whether a kind is played in the variant: sanma drops two- to eight-man.
pub open spec fn variant_includes(variant: RiichiVariant, index: int) -> bool {
    variant == RiichiVariant::Yonma || !(1 <= index <= 7)
}

/// The `position`-th kind (in index order) played in the variant.
pub open spec fn included_kind(variant: RiichiVariant, position: int) -> int {
    match variant {
        RiichiVariant::Yonma => position,
        RiichiVariant::Sanma => if position == 0 {
            0
        } else if position == 1 {
            8
        } else {
            position + 7
        },
    }
}

impl RiichiVariant {
    #[must_use]
    pub fn seat_count(self) -> (r: SeatCount)
        ensures
            r@ == seat_count_of(self),
    {
        match self {
            RiichiVariant::Yonma => SeatCount(4),
            RiichiVariant::Sanma => SeatCount(3),
        }
    }

    #[must_use]
    pub fn tile_count(self) -> (r: usize)
        ensures
            r == tile_count_of(self),
    {
        match self {
            RiichiVariant::Yonma => YONMA_TILE_COUNT,
            RiichiVariant::Sanma => SANMA_TILE_COUNT,
        }
    }

    #[must_use]
    pub fn default_red_fives(self) -> (r: RedFives)
        ensures
            r.man() == (if self == RiichiVariant::Yonma {
                1u8
            } else {
                0u8
            }),
            r.pin() == 1,
            r.sou() == 1,
    {
        match self {
            RiichiVariant::Yonma => RedFives::new_unchecked(1, 1, 1),
            RiichiVariant::Sanma => RedFives::new_unchecked(0, 1, 1),
        }
    }

    #[must_use]
    pub fn includes(self, kind: TileKind) -> (r: bool)
        ensures
            r == variant_includes(self, kind@ as int),
    {
        if self == RiichiVariant::Yonma {
            return true;
        }
        match (kind.suit(), kind.rank()) {
            (Some(Suit::Man), Some(rank)) => rank.value() == 1 || rank.value() == 9,
            _ => true,
        }
    }
}

/// How many red fives a tile set holds in each suit. A count above four, which rule
/// validation reports, makes every five of that suit red.
#[derive(Clone, Copy, Debug, PartialEq, Eq, Structural, Hash)]
pub struct RedFives {
    man: u8,
    pin: u8,
    sou: u8,
}

/// The red count configured for a suit.
pub open spec fn red_for_suit(red_fives: RedFives, suit: Suit) -> u8 {
    match suit {
        Suit::Man => red_fives.man(),
        Suit::Pin => red_fives.pin(),
        Suit::Sou => red_fives.sou(),
    }
}

impl RedFives {
    pub closed spec fn man(self) -> u8 {
        self.man
    }

    pub closed spec fn pin(self) -> u8 {
        self.pin
    }

    pub closed spec fn sou(self) -> u8 {
        self.sou
    }

    pub fn new(man: u8, pin: u8, sou: u8) -> (r: Result<RedFives, TileSetError>)
        ensures
            man > 4 ==> r == Err::<RedFives, TileSetError>(
                TileSetError::TooManyRedFives { suit: Suit::Man, count: man },
            ),
            man <= 4 && pin > 4 ==> r == Err::<RedFives, TileSetError>(
                TileSetError::TooManyRedFives { suit: Suit::Pin, count: pin },
            ),
            man <= 4 && pin <= 4 && sou > 4 ==> r == Err::<RedFives, TileSetError>(
                TileSetError::TooManyRedFives { suit: Suit::Sou, count: sou },
            ),
            man <= 4 && pin <= 4 && sou <= 4 ==> (r matches Ok(red) && red.man() == man
                && red.pin() == pin && red.sou() == sou),
    {
        if man > COPIES_PER_KIND {
            return Err(TileSetError::TooManyRedFives { suit: Suit::Man, count: man });
        }
        if pin > COPIES_PER_KIND {
            return Err(TileSetError::TooManyRedFives { suit: Suit::Pin, count: pin });
        }
        if sou > COPIES_PER_KIND {
            return Err(TileSetError::TooManyRedFives { suit: Suit::Sou, count: sou });
        }
        Ok(Self::new_unchecked(man, pin, sou))
    }

    pub(crate) fn new_unchecked(man: u8, pin: u8, sou: u8) -> (r: RedFives)
        ensures
            r.man() == man,
            r.pin() == pin,
            r.sou() == sou,
    {
        RedFives { man, pin, sou }
    }

    #[must_use]
    pub fn for_suit(self, suit: Suit) -> (r: u8)
        ensures
            r == red_for_suit(self, suit),
    {
        match suit {
            Suit::Man => self.man,
            Suit::Pin => self.pin,
            Suit::Sou => self.sou,
        }
    }

    #[must_use]
    pub fn total(self) -> (r: u8)
        requires
            self.man() + self.pin() + self.sou() <= u8::MAX,
        ensures
            r == self.man() + self.pin() + self.sou(),
    {
        self.man + self.pin + self.sou
    }
}

/// How many of the four copies of the kind at `index` are red.
pub open spec fn red_copies(red_fives: RedFives, index: int) -> int {
    if kind_is_five(index) {
        red_for_suit(red_fives, kind_suit(index).unwrap()) as int
    } else {
        0
    }
}

/// Whether `tiles` is the full set of the variant, in canonical order: four copies of each
/// played kind in index order, ids counting up from zero, and the configured number of red
/// copies first among each five.
pub open spec fn is_canonical_set(
    variant: RiichiVariant,
    red_fives: RedFives,
    tiles: Seq<Tile>,
) -> bool {
    &&& tiles.len() == tile_count_of(variant)
    &&& forall|i: int|
        0 <= i < tiles.len() ==> {
            &&& (#[trigger] tiles[i]).spec_id()@ == i
            &&& tiles[i].spec_kind()@ == included_kind(variant, i / 4)
            &&& tiles[i].spec_red() == (i % 4 < red_copies(red_fives, included_kind(variant, i / 4)))
        }
}

/// How many tiles in `tiles` have the kind at `index`.
pub open spec fn count_kind(tiles: Seq<Tile>, index: int) -> nat
    decreases tiles.len(),
{
    if tiles.len() == 0 {
        0
    } else {
        count_kind(tiles.drop_last(), index) + if tiles.last().spec_kind()@ == index {
            1nat
        } else {
            0nat
        }
    }
}

/// How many tiles in `tiles` are red fives of the given suit.
pub open spec fn count_red(tiles: Seq<Tile>, suit: Suit) -> nat
    decreases tiles.len(),
{
    if tiles.len() == 0 {
        0
    } else {
        count_red(tiles.drop_last(), suit) + if tiles.last().spec_red() && kind_suit(
            tiles.last().spec_kind()@ as int,
        ) == Some(suit) {
            1nat
        } else {
            0nat
        }
    }
}

/// A complete physical tile set of one variant.
#[derive(Debug, PartialEq, Eq)]
pub struct TileSet {
    variant: RiichiVariant,
    red_fives: RedFives,
    tiles: Vec<Tile>,
}

impl TileSet {
    pub closed spec fn spec_variant(&self) -> RiichiVariant {
        self.variant
    }

    pub closed spec fn spec_red_fives(&self) -> RedFives {
        self.red_fives
    }

    pub closed spec fn spec_tiles(&self) -> Seq<Tile> {
        self.tiles@
    }

    #[verifier::type_invariant]
    spec fn inv(self) -> bool {
        &&& is_canonical_set(self.variant, self.red_fives, self.tiles@)
        &&& (self.variant == RiichiVariant::Sanma ==> self.red_fives.man() == 0)
    }

    pub fn new(variant: RiichiVariant, red_fives: RedFives) -> (r: Result<TileSet, TileSetError>)
        ensures
            variant == RiichiVariant::Sanma && red_fives.man() != 0 ==> r == Err::<
                TileSet,
                TileSetError,
            >(TileSetError::SanmaCannotContainRedManFive),
            !(variant == RiichiVariant::Sanma && red_fives.man() != 0) ==> (r matches Ok(set)
                && set.spec_variant() == variant && set.spec_red_fives() == red_fives
                && is_canonical_set(variant, red_fives, set.spec_tiles())),
    {
        if variant == RiichiVariant::Sanma && red_fives.for_suit(Suit::Man) != 0 {
            return Err(TileSetError::SanmaCannotContainRedManFive);
        }
        let mut tiles: Vec<Tile> = Vec::with_capacity(variant.tile_count());
        let mut index: u8 = 0;
        let mut position: usize = 0;
        while (index as usize) < KIND_COUNT
            invariant
                index <= 34,
                position <= 34,
                tiles@.len() == 4 * position,
                position == (if variant == RiichiVariant::Yonma {
                    index as int
                } else if index == 0 {
                    0
                } else if index <= 8 {
                    1
                } else {
                    index - 7
                }),
                forall|i: int|
                    0 <= i < tiles@.len() ==> {
                        &&& (#[trigger] tiles@[i]).spec_id()@ == i
                        &&& tiles@[i].spec_kind()@ == included_kind(variant, i / 4)
                        &&& tiles@[i].spec_red() == (i % 4 < red_copies(
                            red_fives,
                            included_kind(variant, i / 4),
                        ))
                    },
            decreases 34 - index,
        {
            let kind = match TileKind::from_index(index) {
                Ok(kind) => kind,
                Err(_) => {
                    proof {
                        assert(false);
                    }
                    return Err(TileSetError::SanmaCannotContainRedManFive);
                },
            };
            if variant.includes(kind) {
                let red_count: u8 = match kind.suit() {
                    Some(suit) => match kind.rank() {
                        Some(rank) => if rank.value() == 5 {
                            red_fives.for_suit(suit)
                        } else {
                            0
                        },
                        None => 0,
                    },
                    None => 0,
                };
                assert(red_count == red_copies(red_fives, index as int));
                assert(included_kind(variant, position as int) == index);
                let mut copy: u8 = 0;
                while copy < COPIES_PER_KIND
                    invariant
                        copy <= 4,
                        position < 34,
                        kind@ == index,
                        index < 34,
                        red_count == red_copies(red_fives, index as int),
                        included_kind(variant, position as int) == index,
                        tiles@.len() == 4 * position + copy,
                        forall|i: int|
                            0 <= i < tiles@.len() ==> {
                                &&& (#[trigger] tiles@[i]).spec_id()@ == i
                                &&& tiles@[i].spec_kind()@ == included_kind(variant, i / 4)
                                &&& tiles@[i].spec_red() == (i % 4 < red_copies(
                                    red_fives,
                                    included_kind(variant, i / 4),
                                ))
                            },
                    decreases 4 - copy,
                {
                    let id = TileId::new(tiles.len() as u16);
                    let red = copy < red_count;
                    let tile = match Tile::new(id, kind, red) {
                        Ok(tile) => tile,
                        Err(_) => {
                            proof {
                                assert(false);
                            }
                            return Err(TileSetError::SanmaCannotContainRedManFive);
                        },
                    };
                    let ghost len = tiles@.len() as int;
                    assert(len / 4 == position as int);
                    assert(len % 4 == copy as int);
                    tiles.push(tile);
                    copy = copy + 1;
                }
                position = position + 1;
            }
            index = index + 1;
        }
        proof {
            assert(tiles@.len() == tile_count_of(variant));
        }
        Ok(TileSet { variant, red_fives, tiles })
    }

    pub fn standard(variant: RiichiVariant) -> (r: TileSet)
        ensures
            r.spec_variant() == variant,
            r.spec_red_fives().man() == (if variant == RiichiVariant::Yonma {
                1u8
            } else {
                0u8
            }),
            r.spec_red_fives().pin() == 1,
            r.spec_red_fives().sou() == 1,
            is_canonical_set(variant, r.spec_red_fives(), r.spec_tiles()),
    {
        match Self::new(variant, variant.default_red_fives()) {
            Ok(set) => set,
            Err(_) => vstd::pervasive::unreached(),
        }
    }

    #[must_use]
    pub fn variant(&self) -> (r: RiichiVariant)
        ensures
            r == self.spec_variant(),
    {
        self.variant
    }

    #[must_use]
    pub fn red_fives(&self) -> (r: RedFives)
        ensures
            r == self.spec_red_fives(),
    {
        self.red_fives
    }

    #[must_use]
    pub fn tiles(&self) -> (r: &[Tile])
        ensures
            r@ == self.spec_tiles(),
    {
        self.tiles.as_slice()
    }

    #[must_use]
    pub fn len(&self) -> (r: usize)
        ensures
            r == self.spec_tiles().len(),
            r == tile_count_of(self.spec_variant()),
    {
        proof {
            use_type_invariant(self);
        }
        self.tiles.len()
    }

    #[must_use]
    pub fn is_empty(&self) -> (r: bool)
        ensures
            r == (self.spec_tiles().len() == 0),
    {
        self.tiles.len() == 0
    }

    #[must_use]
    pub fn kind_count(&self, kind: TileKind) -> (r: usize)
        ensures
            r == count_kind(self.spec_tiles(), kind@ as int),
    {
        let mut count: usize = 0;
        let mut i: usize = 0;
        while i < self.tiles.len()
            invariant
                i <= self.tiles@.len(),
                count <= i,
                count == count_kind(self.tiles@.take(i as int), kind@ as int),
            decreases self.tiles@.len() - i,
        {
            assert(self.tiles@.take(i + 1).drop_last() =~= self.tiles@.take(i as int));
            if self.tiles[i].kind() == kind {
                count = count + 1;
            }
            i = i + 1;
        }
        assert(self.tiles@.take(i as int) =~= self.tiles@);
        count
    }

    #[must_use]
    pub fn red_count(&self, suit: Suit) -> (r: usize)
        ensures
            r == count_red(self.spec_tiles(), suit),
    {
        let mut count: usize = 0;
        let mut i: usize = 0;
        while i < self.tiles.len()
            invariant
                i <= self.tiles@.len(),
                count <= i,
                count == count_red(self.tiles@.take(i as int), suit),
            decreases self.tiles@.len() - i,
        {
            assert(self.tiles@.take(i + 1).drop_last() =~= self.tiles@.take(i as int));
            let tile = self.tiles[i];
            if tile.is_red() && tile.kind().suit() == Some(suit) {
                count = count + 1;
            }
            i = i + 1;
        }
        assert(self.tiles@.take(i as int) =~= self.tiles@);
        count
    }

    #[must_use]
    pub fn into_tiles(self) -> (r: Vec<Tile>)
        ensures
            r@ == self.spec_tiles(),
            is_canonical_set(self.spec_variant(), self.spec_red_fives(), r@),
    {
        proof {
            use_type_invariant(&self);
        }
        self.tiles
    }
}

impl Clone for TileSet {
    fn clone(&self) -> (r: TileSet)
        ensures
            r.spec_variant() == self.spec_variant(),
            r.spec_red_fives() == self.spec_red_fives(),
            r.spec_tiles() == self.spec_tiles(),
    {
        proof {
            use_type_invariant(self);
        }
        let tiles = self.tiles.clone();
        assert(tiles@ =~= self.tiles@);
        TileSet { variant: self.variant, red_fives: self.red_fives, tiles }
    }
}

#[derive(Clone, Copy, Debug, PartialEq, Eq, Structural)]
pub enum TileSetError {
    TooManyRedFives { suit: Suit, count: u8 },
    SanmaCannotContainRedManFive,
}

} // verus!
