use vstd::prelude::*;

use crate::random::{fill_from_os, fisher_yates_shuffle, seeded_random, shuffled};

use super::tile::{Tile, TileId};
use super::tile_set::{is_canonical_set, tile_count_of, RedFives, RiichiVariant, TileSet};

verus! {

const DEAD_WALL_SIZE: usize = 14;

const MAX_RINSHAN_DRAWS: u8 = 4;

const MAX_DORA_INDICATORS: u8 = 5;

/// Dead-wall offset of the `n`-th replacement (rinshan) tile.
pub open spec fn rinshan_offset(n: int) -> int {
    13 - n
}

/// Dead-wall offset of the `n`-th dora indicator.
pub open spec fn dora_offset(n: int) -> int {
    8 - 2 * n
}

/// Dead-wall offset of the `n`-th ura-dora indicator, paired with the `n`-th dora indicator.
pub open spec fn ura_dora_offset(n: int) -> int {
    9 - 2 * n
}

/// The 32 secret bytes that determine a wall's shuffle.
#[derive(PartialEq, Eq)]
pub struct WallSeed([u8; 32]);

impl View for WallSeed {
    type V = Seq<u8>;

    closed spec fn view(&self) -> Seq<u8> {
        self.0@
    }
}

impl WallSeed {
    /// A seed of fresh bytes from the operating system's random source.
    pub fn generate() -> (r: Result<WallSeed, SeedGenerationError>)
        ensures
            r matches Ok(seed) ==> seed@.len() == 32,
    {
        let mut bytes = [0u8; 32];
        match fill_from_os(&mut bytes) {
            Ok(()) => Ok(WallSeed(bytes)),
            Err(error) => Err(SeedGenerationError(error)),
        }
    }

    #[must_use]
    pub fn from_bytes(bytes: [u8; 32]) -> (r: WallSeed)
        ensures
            r@ == bytes@,
    {
        WallSeed(bytes)
    }

    #[must_use]
    pub fn expose_bytes(&self) -> (r: &[u8; 32])
        ensures
            r@ == self@,
    {
        &self.0
    }

    /// What a debug rendering of a seed shows: never the secret bytes.
    #[must_use]
    pub fn redacted(&self) -> (r: &'static str)
        ensures
            r@ == "WallSeed([REDACTED])"@,
    {
        "WallSeed([REDACTED])"
    }
}

impl Clone for WallSeed {
    fn clone(&self) -> (r: WallSeed)
        ensures
            r@ == self@,
    {
        WallSeed(self.0)
    }
}

/// The operating system could not supply random bytes.
#[derive(Debug)]
pub struct SeedGenerationError(getrandom::Error);

/// A shuffled wall: the live wall is drawn from the front, and the last 14 tiles form the dead
/// wall (rinshan tiles and dora indicators). Each rinshan draw shortens the live wall by one.
#[derive(Debug, PartialEq, Eq)]
pub struct Wall {
    variant: RiichiVariant,
    tiles: Vec<Tile>,
    live_draw_index: usize,
    live_end: usize,
    rinshan_draws: u8,
    revealed_dora_count: u8,
}

impl Wall {
    #[verifier::type_invariant]
    spec fn inv(self) -> bool {
        &&& self.live_end + 14 == self.tiles@.len()
        &&& self.live_draw_index + self.rinshan_draws <= self.live_end
        &&& self.rinshan_draws <= 4
        &&& 1 <= self.revealed_dora_count <= 5
    }

    pub closed spec fn spec_variant(&self) -> RiichiVariant {
        self.variant
    }

    /// The wall's tiles in shuffled order, live wall first.
    pub closed spec fn spec_tiles(&self) -> Seq<Tile> {
        self.tiles@
    }

    /// How many tiles have been drawn from the live wall.
    pub closed spec fn spec_live_draws(&self) -> nat {
        self.live_draw_index as nat
    }

    /// Where the dead wall starts.
    pub closed spec fn spec_live_end(&self) -> nat {
        self.live_end as nat
    }

    pub closed spec fn spec_rinshan_draws(&self) -> nat {
        self.rinshan_draws as nat
    }

    pub closed spec fn spec_revealed_dora(&self) -> nat {
        self.revealed_dora_count as nat
    }

    /// Live draws still possible: the live wall shrinks by each rinshan draw.
    pub open spec fn spec_remaining(&self) -> int {
        self.spec_live_end() - self.spec_live_draws() - self.spec_rinshan_draws()
    }

    /// The dead-wall tile at `offset`.
    pub open spec fn spec_dead_tile(&self, offset: int) -> Tile {
        self.spec_tiles()[self.spec_live_end() + offset]
    }

    /// The wall's structural invariant, as callers may rely on it.
    pub open spec fn wf(&self) -> bool {
        &&& self.spec_live_end() + 14 == self.spec_tiles().len()
        &&& self.spec_live_draws() + self.spec_rinshan_draws() <= self.spec_live_end()
        &&& self.spec_rinshan_draws() <= 4
        &&& 1 <= self.spec_revealed_dora() <= 5
    }

    /// Every wall satisfies `wf`.
    pub fn lemma_wf(&self)
        ensures
            self.wf(),
    {
        proof {
            use_type_invariant(self);
        }
    }

    #[must_use]
    pub fn new(tile_set: TileSet, seed: &WallSeed) -> (r: Wall)
        ensures
            r.wf(),
            r.spec_variant() == tile_set.spec_variant(),
            r.spec_tiles().to_multiset() == tile_set.spec_tiles().to_multiset(),
            r.spec_tiles().len() == tile_count_of(tile_set.spec_variant()),
            r.spec_live_draws() == 0,
            r.spec_rinshan_draws() == 0,
            r.spec_revealed_dora() == 1,
            r.spec_tiles() == shuffled(tile_set.spec_tiles(), seed@, 0, tile_set.spec_tiles().len() - 1).0,
    {
        let variant = tile_set.variant();
        let mut tiles = tile_set.into_tiles();
        let mut random = seeded_random(seed.0);
        fisher_yates_shuffle(&mut tiles, &mut random);
        let live_end = tiles.len() - DEAD_WALL_SIZE;
        Wall {
            variant,
            tiles,
            live_draw_index: 0,
            live_end,
            rinshan_draws: 0,
            revealed_dora_count: 1,
        }
    }

    #[must_use]
    pub fn variant(&self) -> (r: RiichiVariant)
        ensures
            r == self.spec_variant(),
    {
        self.variant
    }

    #[must_use]
    pub fn tile_count(&self) -> (r: usize)
        ensures
            r == self.spec_tiles().len(),
    {
        self.tiles.len()
    }

    #[must_use]
    pub fn remaining_live_draws(&self) -> (r: usize)
        ensures
            r == self.spec_remaining(),
    {
        proof {
            use_type_invariant(self);
        }
        self.live_end - self.live_draw_index - self.rinshan_draws as usize
    }

    /// The wall hands no position out twice: every live draw so far, and every live draw
    /// still possible, lies before the dead wall; the rinshan tiles, the dora indicators and
    /// the ura-dora indicators occupy distinct slots of the dead wall.
    pub proof fn lemma_positions_distinct(self)
        requires
            self.wf(),
        ensures
            self.spec_live_draws() + self.spec_remaining() + self.spec_rinshan_draws() == self.spec_live_end(),
            forall|n: int| 0 <= n < 4 ==> 10 <= #[trigger] rinshan_offset(n) < 14,
            forall|n: int| 0 <= n < 5 ==> 0 <= #[trigger] dora_offset(n) <= 8 && dora_offset(n) % 2 == 0,
            forall|n: int| 0 <= n < 5 ==> 1 <= #[trigger] ura_dora_offset(n) <= 9 && ura_dora_offset(n) % 2 == 1,
            forall|n: int, m: int| 0 <= n < 4 && 0 <= m < 4 && n != m ==> #[trigger] rinshan_offset(n) != #[trigger] rinshan_offset(m),
            forall|n: int, m: int| 0 <= n < 5 && 0 <= m < 5 && n != m ==> #[trigger] dora_offset(n) != #[trigger] dora_offset(m),
            forall|n: int, m: int| 0 <= n < 5 && 0 <= m < 5 && n != m ==> #[trigger] ura_dora_offset(n) != #[trigger] ura_dora_offset(m),
    {
    }

    /// A wall shuffled from a full tile set holds every tile identity once: no two of its
    /// positions hold tiles with the same id, so no tile is handed out twice.
    pub proof fn lemma_ids_distinct(tiles: Seq<Tile>, variant: RiichiVariant, red_fives: RedFives, set: Seq<Tile>)
        requires
            is_canonical_set(variant, red_fives, set),
            tiles.to_multiset() == set.to_multiset(),
        ensures
            forall|i: int, j: int| 0 <= i < j < tiles.len() ==> #[trigger] tiles[i].spec_id() != #[trigger] tiles[j].spec_id(),
    {
        broadcast use vstd::seq_lib::group_to_multiset_ensures;

        assert(set.no_duplicates()) by {
            assert forall|p: int, q: int| 0 <= p < set.len() && 0 <= q < set.len() && p != q implies set[p] != set[q] by {
                assert(set[p].spec_id()@ == p);
                assert(set[q].spec_id()@ == q);
            }
        }
        set.lemma_multiset_has_no_duplicates();
        tiles.lemma_multiset_has_no_duplicates_conv();
        assert forall|i: int, j: int| 0 <= i < j < tiles.len() implies #[trigger] tiles[i].spec_id() != #[trigger] tiles[j].spec_id() by {
            if tiles[i].spec_id() == tiles[j].spec_id() {
                assert(tiles.contains(tiles[i]));
                assert(tiles.contains(tiles[j]));
                assert(tiles.to_multiset().count(tiles[i]) > 0);
                assert(tiles.to_multiset().count(tiles[j]) > 0);
                assert(set.to_multiset().count(tiles[i]) > 0);
                assert(set.to_multiset().count(tiles[j]) > 0);
                assert(set.contains(tiles[i]));
                assert(set.contains(tiles[j]));
                let p = choose|p: int| 0 <= p < set.len() && set[p] == tiles[i];
                let q = choose|q: int| 0 <= q < set.len() && set[q] == tiles[j];
                assert(set[p].spec_id()@ == p);
                assert(set[q].spec_id()@ == q);
                assert(p == q);
                assert(tiles[i] == tiles[j]);
            }
        }
    }

    pub fn draw_live(&mut self) -> (r: Option<Tile>)
        ensures
            old(self).spec_remaining() == 0 ==> r is None && *final(self) == *old(self),
            old(self).spec_remaining() > 0 ==> {
                &&& r == Some(old(self).spec_tiles()[old(self).spec_live_draws() as int])
                &&& final(self).spec_live_draws() == old(self).spec_live_draws() + 1
                &&& final(self).spec_tiles() == old(self).spec_tiles()
                &&& final(self).spec_variant() == old(self).spec_variant()
                &&& final(self).spec_live_end() == old(self).spec_live_end()
                &&& final(self).spec_rinshan_draws() == old(self).spec_rinshan_draws()
                &&& final(self).spec_revealed_dora() == old(self).spec_revealed_dora()
            },
    {
        proof {
            use_type_invariant(&*self);
        }
        if self.remaining_live_draws() == 0 {
            return None;
        }
        let tile = self.tiles[self.live_draw_index];
        self.live_draw_index = self.live_draw_index + 1;
        Some(tile)
    }

    pub fn draw_rinshan(&mut self) -> (r: Result<Tile, WallError>)
        ensures
            old(self).spec_rinshan_draws() >= 4 ==> r == Err::<Tile, WallError>(
                WallError::RinshanExhausted,
            ) && *final(self) == *old(self),
            old(self).spec_rinshan_draws() < 4 && old(self).spec_remaining() == 0 ==> r == Err::<
                Tile,
                WallError,
            >(WallError::LiveWallExhausted) && *final(self) == *old(self),
            old(self).spec_rinshan_draws() < 4 && old(self).spec_remaining() > 0 ==> {
                &&& r == Ok::<Tile, WallError>(
                    old(self).spec_dead_tile(rinshan_offset(old(self).spec_rinshan_draws() as int)),
                )
                &&& final(self).spec_rinshan_draws() == old(self).spec_rinshan_draws() + 1
                &&& final(self).spec_tiles() == old(self).spec_tiles()
                &&& final(self).spec_variant() == old(self).spec_variant()
                &&& final(self).spec_live_end() == old(self).spec_live_end()
                &&& final(self).spec_live_draws() == old(self).spec_live_draws()
                &&& final(self).spec_revealed_dora() == old(self).spec_revealed_dora()
            },
    {
        proof {
            use_type_invariant(&*self);
        }
        if self.rinshan_draws >= MAX_RINSHAN_DRAWS {
            return Err(WallError::RinshanExhausted);
        }
        if self.remaining_live_draws() == 0 {
            return Err(WallError::LiveWallExhausted);
        }
        let offset = 13 - self.rinshan_draws as usize;
        let tile = self.dead_wall_tile(offset);
        self.rinshan_draws = self.rinshan_draws + 1;
        Ok(tile)
    }

    #[must_use]
    pub fn rinshan_draw_count(&self) -> (r: u8)
        ensures
            r == self.spec_rinshan_draws(),
    {
        self.rinshan_draws
    }

    #[must_use]
    pub fn revealed_dora_count(&self) -> (r: u8)
        ensures
            r == self.spec_revealed_dora(),
    {
        self.revealed_dora_count
    }

    #[must_use]
    pub fn live_draw_count(&self) -> (r: usize)
        ensures
            r == self.spec_live_draws(),
    {
        self.live_draw_index
    }

    /// Where the dead wall starts in `ordered_tiles`.
    #[must_use]
    pub fn live_end(&self) -> (r: usize)
        ensures
            r == self.spec_live_end(),
    {
        self.live_end
    }

    /// The shuffled order of the whole wall.
    #[must_use]
    pub fn ordered_tiles(&self) -> (r: &[Tile])
        ensures
            r@ == self.spec_tiles(),
    {
        self.tiles.as_slice()
    }

    /// The first tile of the wall with the given id.
    #[must_use]
    pub fn tile_by_id(&self, tile_id: TileId) -> (r: Option<Tile>)
        ensures
            r is None ==> forall|i: int|
                0 <= i < self.spec_tiles().len() ==> (#[trigger] self.spec_tiles()[i]).spec_id()
                    != tile_id,
            r matches Some(tile) ==> tile.spec_id() == tile_id && self.spec_tiles().contains(
                tile,
            ),
    {
        let mut i: usize = 0;
        while i < self.tiles.len()
            invariant
                i <= self.tiles@.len(),
                forall|j: int| 0 <= j < i ==> (#[trigger] self.tiles@[j]).spec_id() != tile_id,
            decreases self.tiles@.len() - i,
        {
            if self.tiles[i].id() == tile_id {
                assert(self.tiles@[i as int] == self.tiles@[i as int]);
                return Some(self.tiles[i]);
            }
            i = i + 1;
        }
        None
    }

    /// The revealed dora indicators, oldest first.
    #[must_use]
    pub fn current_dora_indicators(&self) -> (r: Vec<Tile>)
        ensures
            r@.len() == self.spec_revealed_dora(),
            forall|n: int|
                0 <= n < r@.len() ==> #[trigger] r@[n] == self.spec_dead_tile(dora_offset(n)),
    {
        proof {
            use_type_invariant(self);
        }
        let mut indicators: Vec<Tile> = Vec::new();
        let mut n: u8 = 0;
        while n < self.revealed_dora_count
            invariant
                n <= self.revealed_dora_count,
                self.revealed_dora_count <= 5,
                self.live_end + 14 == self.tiles@.len(),
                indicators@.len() == n,
                forall|k: int|
                    0 <= k < n ==> #[trigger] indicators@[k] == self.spec_dead_tile(dora_offset(k)),
            decreases self.revealed_dora_count - n,
        {
            indicators.push(self.dead_wall_tile(8 - 2 * n as usize));
            n = n + 1;
        }
        indicators
    }

    pub fn reveal_next_dora(&mut self) -> (r: Result<Tile, WallError>)
        ensures
            old(self).spec_revealed_dora() >= 5 ==> r == Err::<Tile, WallError>(
                WallError::DoraIndicatorsExhausted,
            ) && *final(self) == *old(self),
            old(self).spec_revealed_dora() < 5 ==> {
                &&& r == Ok::<Tile, WallError>(
                    old(self).spec_dead_tile(dora_offset(old(self).spec_revealed_dora() as int)),
                )
                &&& final(self).spec_revealed_dora() == old(self).spec_revealed_dora() + 1
                &&& final(self).spec_tiles() == old(self).spec_tiles()
                &&& final(self).spec_variant() == old(self).spec_variant()
                &&& final(self).spec_live_end() == old(self).spec_live_end()
                &&& final(self).spec_live_draws() == old(self).spec_live_draws()
                &&& final(self).spec_rinshan_draws() == old(self).spec_rinshan_draws()
            },
    {
        proof {
            use_type_invariant(&*self);
        }
        if self.revealed_dora_count >= MAX_DORA_INDICATORS {
            return Err(WallError::DoraIndicatorsExhausted);
        }
        let offset = 8 - 2 * self.revealed_dora_count as usize;
        self.revealed_dora_count = self.revealed_dora_count + 1;
        Ok(self.dead_wall_tile(offset))
    }

    /// The ura-dora indicators beneath the revealed dora indicators.
    #[must_use]
    pub fn matching_ura_dora_indicators(&self) -> (r: Vec<Tile>)
        ensures
            r@.len() == self.spec_revealed_dora(),
            forall|n: int|
                0 <= n < r@.len() ==> #[trigger] r@[n] == self.spec_dead_tile(ura_dora_offset(n)),
    {
        proof {
            use_type_invariant(self);
        }
        let mut indicators: Vec<Tile> = Vec::new();
        let mut n: u8 = 0;
        while n < self.revealed_dora_count
            invariant
                n <= self.revealed_dora_count,
                self.revealed_dora_count <= 5,
                self.live_end + 14 == self.tiles@.len(),
                indicators@.len() == n,
                forall|k: int|
                    0 <= k < n ==> #[trigger] indicators@[k] == self.spec_dead_tile(
                        ura_dora_offset(k),
                    ),
            decreases self.revealed_dora_count - n,
        {
            indicators.push(self.dead_wall_tile(9 - 2 * n as usize));
            n = n + 1;
        }
        indicators
    }

    fn dead_wall_tile(&self, offset: usize) -> (r: Tile)
        requires
            offset < 14,
            self.spec_live_end() + 14 == self.spec_tiles().len(),
        ensures
            r == self.spec_dead_tile(offset as int),
    {
        let len = self.tiles.len();
        assert(self.live_end + offset < len);
        self.tiles[self.live_end + offset]
    }
}

impl Clone for Wall {
    fn clone(&self) -> (r: Wall)
        ensures
            r.spec_variant() == self.spec_variant(),
            r.spec_tiles() == self.spec_tiles(),
            r.spec_live_draws() == self.spec_live_draws(),
            r.spec_live_end() == self.spec_live_end(),
            r.spec_rinshan_draws() == self.spec_rinshan_draws(),
            r.spec_revealed_dora() == self.spec_revealed_dora(),
    {
        proof {
            use_type_invariant(self);
        }
        let tiles = self.tiles.clone();
        assert(tiles@ =~= self.tiles@);
        Wall {
            variant: self.variant,
            tiles,
            live_draw_index: self.live_draw_index,
            live_end: self.live_end,
            rinshan_draws: self.rinshan_draws,
            revealed_dora_count: self.revealed_dora_count,
        }
    }
}

#[derive(Clone, Copy, Debug, PartialEq, Eq, Structural)]
pub enum WallError {
    RinshanExhausted,
    DoraIndicatorsExhausted,
    LiveWallExhausted,
}

} // verus!
