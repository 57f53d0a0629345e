use vstd::prelude::*;

use crate::riichi::tile::{Tile, TileKind};
use crate::riichi::tile_set::count_kind;

verus! {

broadcast use {TileKind::lemma_view_injective, TileKind::lemma_spec_at};

/// The sum of the first `n` entries.
pub open spec fn prefix_sum(values: Seq<u8>, n: int) -> int
    decreases n,
{
    if n <= 0 {
        0
    } else {
        prefix_sum(values, n - 1) + values[n - 1]
    }
}

/// The sum of all entries.
pub open spec fn total_of(values: Seq<u8>) -> int {
    prefix_sum(values, values.len() as int)
}

/// Changing one entry changes every prefix sum that covers it by the same amount.
pub proof fn lemma_prefix_sum_update(values: Seq<u8>, i: int, v: u8, n: int)
    requires
        0 <= i < values.len(),
        0 <= n <= values.len(),
    ensures
        prefix_sum(values.update(i, v), n) == prefix_sum(values, n) + (if i < n {
            v - values[i]
        } else {
            0
        }),
    decreases n,
{
    if n > 0 {
        lemma_prefix_sum_update(values, i, v, n - 1);
    }
}

/// Every entry of a sequence of small counts is bounded by its total.
pub proof fn lemma_prefix_sum_bounds(values: Seq<u8>, n: int)
    requires
        0 <= n <= values.len(),
    ensures
        prefix_sum(values, n) >= 0,
        forall|j: int| 0 <= j < n ==> values[j] <= prefix_sum(values, n),
        prefix_sum(values, n) == 0 ==> forall|j: int| 0 <= j < n ==> values[j] == 0,
    decreases n,
{
    if n > 0 {
        lemma_prefix_sum_bounds(values, n - 1);
    }
}

/// How many tiles of each of the 34 kinds a hand holds, at most four of each.
#[derive(Debug, PartialEq, Eq)]
pub struct TileCounts {
    pub values: Vec<u8>,
    pub total: u8,
}

/// The per-kind counts of a sequence of tiles.
pub open spec fn counts_of_tiles(tiles: Seq<Tile>) -> Seq<u8> {
    Seq::new(34, |k: int| count_kind(tiles, k) as u8)
}

impl TileCounts {
    /// The counts' invariant: 34 entries of at most four, and a matching total.
    pub open spec fn wf(&self) -> bool {
        &&& self.values@.len() == 34
        &&& forall|k: int| 0 <= k < 34 ==> #[trigger] self.values@[k] <= 4
        &&& self.total == total_of(self.values@)
    }

    /// The count of each kind, by kind index.
    pub open spec fn spec_values(&self) -> Seq<u8> {
        self.values@
    }

    /// What every count value satisfies.
    pub open spec fn spec_wf(values: Seq<u8>) -> bool {
        &&& values.len() == 34
        &&& forall|k: int| 0 <= k < 34 ==> #[trigger] values[k] <= 4
    }

    pub proof fn lemma_wf(&self)
        requires
            self.wf(),
        ensures
            Self::spec_wf(self.spec_values()),
            total_of(self.spec_values()) <= 136,
    {
        lemma_total_bound(self.values@, 34);
    }

    pub fn empty() -> (r: TileCounts)
        ensures
            r.wf(),
            r.spec_values() == Seq::new(34, |k: int| 0u8),
    {
        let mut values: Vec<u8> = Vec::new();
        let mut i: usize = 0;
        while i < 34
            invariant
                i <= 34,
                values@ == Seq::new(i as nat, |k: int| 0u8),
            decreases 34 - i,
        {
            values.push(0);
            i = i + 1;
            assert(values@ =~= Seq::new(i as nat, |k: int| 0u8));
        }
        proof {
            lemma_zero_total(values@, 34);
        }
        TileCounts { values, total: 0 }
    }

    /// Counts the kinds of `tiles`; fails as soon as a fifth copy of a kind turns up.
    pub fn from_tiles(tiles: &[Tile]) -> (r: Result<TileCounts, CountError>)
        ensures
            (r is Ok) == (forall|k: int| 0 <= k < 34 ==> #[trigger] count_kind(tiles@, k) <= 4),
            r matches Ok(counts) ==> counts.wf() && counts.spec_values() == counts_of_tiles(tiles@),
            r matches Err(CountError::TooManyCopies { kind }) ==> count_kind(tiles@, kind@ as int)
                > 4,
    {
        let mut counts = TileCounts::empty();
        let mut i: usize = 0;
        while i < tiles.len()
            invariant
                i <= tiles@.len(),
                counts.wf(),
                counts.spec_values() == counts_of_tiles(tiles@.take(i as int)),
                forall|k: int| 0 <= k < 34 ==> #[trigger] count_kind(tiles@.take(i as int), k) <= 4,
            decreases tiles@.len() - i,
        {
            let kind = tiles[i].kind();
            let index = kind.index();
            proof {
                assert(tiles@.take(i + 1).drop_last() =~= tiles@.take(i as int));
                lemma_count_kind_small(tiles@.take(i as int));
            }
            let ghost before = tiles@.take(i as int);
            match counts.add(kind) {
                Ok(()) => {},
                Err(error) => {
                    proof {
                        lemma_count_kind_prefix(tiles@, i as int + 1, kind@ as int);
                        assert(count_kind(tiles@.take(i + 1), kind@ as int) == count_kind(before, kind@ as int) + 1);
                        lemma_count_kind_monotone(tiles@, i as int + 1, kind@ as int);
                        assert(count_kind(tiles@, kind@ as int) > 4);
                    }
                    return Err(error);
                },
            }
            i = i + 1;
            proof {
                assert forall|k: int| 0 <= k < 34 implies #[trigger] count_kind(tiles@.take(i as int), k)
                    <= 4 by {
                    assert(count_kind(tiles@.take(i as int), k) == count_kind(before, k) + if tiles@[i - 1].spec_kind()@ == k { 1int } else { 0int });
                }
                assert(counts.spec_values() =~= counts_of_tiles(tiles@.take(i as int)));
            }
        }
        proof {
            assert(tiles@.take(i as int) =~= tiles@);
        }
        Ok(counts)
    }

    pub fn add(&mut self, kind: TileKind) -> (r: Result<(), CountError>)
        requires
            old(self).wf(),
        ensures
            final(self).wf(),
            old(self).spec_values()[kind@ as int] >= 4 ==> r == Err::<(), CountError>(
                CountError::TooManyCopies { kind },
            ) && final(self).spec_values() == old(self).spec_values(),
            old(self).spec_values()[kind@ as int] < 4 ==> r is Ok && final(self).spec_values()
                == old(self).spec_values().update(
                kind@ as int,
                (old(self).spec_values()[kind@ as int] + 1) as u8,
            ),
            kind@ < 34,
    {
        let index = kind.index();
        let value = self.values[index];
        if value >= 4 {
            return Err(CountError::TooManyCopies { kind });
        }
        proof {
            lemma_prefix_sum_update(self.values@, index as int, (value + 1) as u8, 34);
            lemma_total_bound(self.values@, 34);
        }
        self.values.set(index, value + 1);
        self.total = self.total + 1;
        Ok(())
    }

    pub fn remove(&mut self, kind: TileKind) -> (r: bool)
        requires
            old(self).wf(),
        ensures
            final(self).wf(),
            r == (old(self).spec_values()[kind@ as int] > 0),
            r ==> final(self).spec_values() == old(self).spec_values().update(
                kind@ as int,
                (old(self).spec_values()[kind@ as int] - 1) as u8,
            ),
            !r ==> final(self).spec_values() == old(self).spec_values(),
            kind@ < 34,
    {
        let index = kind.index();
        let value = self.values[index];
        if value == 0 {
            return false;
        }
        proof {
            lemma_prefix_sum_update(self.values@, index as int, (value - 1) as u8, 34);
            lemma_prefix_sum_bounds(self.values@, 34);
        }
        self.values.set(index, value - 1);
        self.total = self.total - 1;
        true
    }

    pub fn get(&self, kind: TileKind) -> (r: u8)
        requires
            self.wf(),
        ensures
            r == self.spec_values()[kind@ as int],
            r <= 4,
            kind@ < 34,
    {
        self.values[kind.index()]
    }

    pub fn get_index(&self, index: usize) -> (r: u8)
        requires
            self.wf(),
            index < 34,
        ensures
            r == self.spec_values()[index as int],
            r <= 4,
    {
        self.values[index]
    }

    pub fn total(&self) -> (r: u8)
        requires
            self.wf(),
        ensures
            r == total_of(self.spec_values()),
    {
        self.total
    }

    /// The lowest kind the hand holds, if any.
    pub fn first_present(&self) -> (r: Option<TileKind>)
        requires
            self.wf(),
        ensures
            r is None ==> forall|k: int| 0 <= k < 34 ==> #[trigger] self.spec_values()[k] == 0,
            r matches Some(kind) ==> kind@ < 34 && self.spec_values()[kind@ as int] > 0 && forall|
                k: int,
            |
                0 <= k < kind@ ==> #[trigger] self.spec_values()[k] == 0,
    {
        let mut i: usize = 0;
        while i < 34
            invariant
                i <= 34,
                self.values@.len() == 34,
                forall|k: int| 0 <= k < i ==> #[trigger] self.values@[k] == 0,
            decreases 34 - i,
        {
            if self.values[i] > 0 {
                return match TileKind::from_index(i as u8) {
                    Ok(kind) => Some(kind),
                    Err(_) => None,
                };
            }
            i = i + 1;
        }
        None
    }
}

impl TileCounts {
    /// A copy of the counts.
    pub fn duplicate(&self) -> (r: TileCounts)
        requires
            self.wf(),
        ensures
            r.wf(),
            r.spec_values() == self.spec_values(),
            r.total == self.total,
    {
        let values = self.values.clone();
        assert(values@ =~= self.values@);
        TileCounts { values, total: self.total }
    }
}

/// All-zero counts sum to zero.
proof fn lemma_zero_total(values: Seq<u8>, n: int)
    requires
        0 <= n <= values.len(),
        forall|k: int| 0 <= k < values.len() ==> values[k] == 0,
    ensures
        prefix_sum(values, n) == 0,
    decreases n,
{
    if n > 0 {
        lemma_zero_total(values, n - 1);
    }
}

/// Counts of at most four sum to at most four per entry.
proof fn lemma_total_bound(values: Seq<u8>, n: int)
    requires
        0 <= n <= values.len(),
        forall|k: int| 0 <= k < values.len() ==> #[trigger] values[k] <= 4,
    ensures
        prefix_sum(values, n) <= 4 * n,
    decreases n,
{
    if n > 0 {
        lemma_total_bound(values, n - 1);
    }
}

/// A count of tiles never exceeds the number of tiles.
proof fn lemma_count_kind_small(tiles: Seq<Tile>)
    ensures
        forall|k: int| #[trigger] count_kind(tiles, k) <= tiles.len(),
    decreases tiles.len(),
{
    if tiles.len() > 0 {
        lemma_count_kind_small(tiles.drop_last());
        assert forall|k: int| #[trigger] count_kind(tiles, k) <= tiles.len() by {
            assert(count_kind(tiles.drop_last(), k) <= tiles.drop_last().len());
        }
    }
}

/// A prefix holds no more copies of a kind than the whole sequence.
proof fn lemma_count_kind_monotone(tiles: Seq<Tile>, n: int, k: int)
    requires
        0 <= n <= tiles.len(),
    ensures
        count_kind(tiles.take(n), k) <= count_kind(tiles, k),
    decreases tiles.len(),
{
    if n == tiles.len() {
        assert(tiles.take(n) =~= tiles);
    } else {
        assert(tiles.drop_last().take(n) =~= tiles.take(n));
        lemma_count_kind_monotone(tiles.drop_last(), n, k);
    }
}

/// Extending a prefix by one tile adds that tile to its count.
proof fn lemma_count_kind_prefix(tiles: Seq<Tile>, n: int, k: int)
    requires
        0 < n <= tiles.len(),
    ensures
        count_kind(tiles.take(n), k) == count_kind(tiles.take(n - 1), k) + if tiles[n
            - 1].spec_kind()@ == k {
            1int
        } else {
            0int
        },
{
    assert(tiles.take(n).drop_last() =~= tiles.take(n - 1));
}

#[derive(Clone, Copy, Debug, PartialEq, Eq, Structural)]
pub enum CountError {
    TooManyCopies { kind: TileKind },
}

} // verus!
