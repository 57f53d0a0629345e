//! Sichuan tiles: the three suits only, four copies of each kind, no red fives. Kinds,
//! ranks and codes are shared with the riichi set.

use vstd::prelude::*;

pub use crate::riichi::tile::{Honor, Rank, Suit, TileError, TileId, TileKind};

verus! {

/// Number of suited kinds (nine ranks in each of three suits).
pub const SUITED_KIND_COUNT: usize = 27;

/// One physical tile: its identity and its kind.
#[derive(Clone, Copy, Debug, PartialEq, Eq, Structural, Hash, PartialOrd, Ord)]
pub struct Tile {
    id: TileId,
    kind: TileKind,
}

impl Tile {
    pub closed spec fn spec_id(self) -> TileId {
        self.id
    }

    pub closed spec fn spec_kind(self) -> TileKind {
        self.kind
    }

    #[must_use]
    pub fn new(id: TileId, kind: TileKind) -> (r: Tile)
        ensures
            r.spec_id() == id,
            r.spec_kind() == kind,
    {
        Tile { id, kind }
    }

    #[must_use]
    pub fn id(self) -> (r: TileId)
        ensures
            r == self.spec_id(),
    {
        self.id
    }

    #[must_use]
    pub fn kind(self) -> (r: TileKind)
        ensures
            r == self.spec_kind(),
    {
        self.kind
    }

    /// The code of the tile's kind, such as `5p`.
    #[must_use]
    pub fn to_string(&self) -> (r: String)
        ensures
            r@.len() == 2,
            r@[0] as int == crate::riichi::tile::kind_code_digit(self.spec_kind()@ as int),
            r@[1] as int == crate::riichi::tile::kind_code_family(self.spec_kind()@ as int),
    {
        self.kind.to_string()
    }
}

/// The tile at position `i` of the full set: identity `i`, kind `i / 4`.
pub open spec fn set_tile_at(tiles: Seq<Tile>, i: int) -> bool {
    &&& tiles[i].spec_id()@ == i
    &&& tiles[i].spec_kind()@ == i / 4
}

/// The full set: 27 suited kinds, four copies each, 108 tiles in kind order, with the
/// position as identity.
#[must_use]
pub fn full_tile_set() -> (r: Vec<Tile>)
    ensures
        r@.len() == 108,
        forall|i: int| 0 <= i < 108 ==> #[trigger] set_tile_at(r@, i),
{
    let mut tiles: Vec<Tile> = Vec::new();
    let mut index: u8 = 0;
    while index < 27
        invariant
            index <= 27,
            tiles@.len() == 4 * index,
            forall|i: int| 0 <= i < tiles@.len() ==> #[trigger] set_tile_at(tiles@, i),
        decreases 27 - index,
    {
        let kind = match TileKind::from_index(index) {
            Ok(kind) => kind,
            Err(_) => {
                assert(false);
                return tiles;
            },
        };
        let mut copy: u16 = 0;
        while copy < 4
            invariant
                index < 27,
                copy <= 4,
                kind@ == index,
                tiles@.len() == 4 * index + copy,
                forall|i: int| 0 <= i < tiles@.len() ==> #[trigger] set_tile_at(tiles@, i),
            decreases 4 - copy,
        {
            let id = TileId::new(index as u16 * 4 + copy);
            let tile = Tile::new(id, kind);
            let ghost before = tiles@;
            tiles.push(tile);
            proof {
                let n = tiles@.len() - 1;
                assert(n == 4 * index + copy);
                assert((4 * index + copy) / 4 == index) by (nonlinear_arith)
                    requires
                        copy < 4,
                        index < 27,
                ;
                assert forall|i: int| 0 <= i < tiles@.len() implies #[trigger] set_tile_at(tiles@, i) by {
                    if i < n {
                        assert(tiles@[i] == before[i]);
                        assert(set_tile_at(before, i));
                    }
                }
            }
            copy = copy + 1;
        }
        index = index + 1;
    }
    tiles
}

} // verus!
