//! Winning shapes, read from the number of tiles of each kind. Wild tiles are accepted for
//! the shape functions' sake; Sichuan itself always passes none.

use vstd::prelude::*;

use crate::riichi::scoring::counts::{prefix_sum, total_of};

verus! {

/// Kinds counted: 34, of which only the 27 suited ones occur in Sichuan.
pub const KIND_COUNT: usize = 34;

/// The first kind at or after `k` that has a tile, or the length when none has.
pub open spec fn first_present(c: Seq<u8>, k: int) -> int
    decreases c.len() - k,
{
    if k >= c.len() {
        c.len() as int
    } else if c[k] > 0 {
        k
    } else {
        first_present(c, k + 1)
    }
}

/// Tiles that `sets` groups and, when `pair`, one pair hold.
pub open spec fn group_tiles(sets: int, pair: bool) -> int {
    3 * sets + if pair {
        2int
    } else {
        0int
    }
}

/// `c` with one kind's count lowered by `by`.
pub open spec fn lowered(c: Seq<u8>, i: int, by: int) -> Seq<u8> {
    c.update(i, (c[i] - by) as u8)
}

/// The tiles split into `sets` groups and, when `pair`, one pair, with `jokers` wild tiles
/// filling gaps. The lowest kind present must sit in the pair, in a triplet, or at the bottom
/// of a run (runs only within a suit and only when `runs` holds); a wild tile may stand for
/// the second tile of the pair, for up to two tiles of a triplet, and for the upper tiles
/// of a run.
pub open spec fn splits(c: Seq<u8>, jokers: int, sets: int, pair: bool, runs: bool) -> bool
    decreases sets, (if pair {
        1int
    } else {
        0int
    }),
{
    let i = first_present(c, 0);
    if i < 0 || i >= c.len() {
        jokers == group_tiles(sets, pair)
    } else {
        let n = c[i] as int;
        let by_pair = pair && ((n >= 2 && splits(lowered(c, i, 2), jokers, sets, false, runs)) || (n >= 1 && jokers
            >= 1 && splits(lowered(c, i, 1), jokers - 1, sets, false, runs)));
        let by_triplet = sets > 0 && ((n >= 3 && splits(lowered(c, i, 3), jokers, sets - 1, pair, runs)) || (n >= 2
            && jokers >= 1 && splits(lowered(c, i, 2), jokers - 1, sets - 1, pair, runs)) || (n >= 1 && jokers >= 2
            && splits(lowered(c, i, 1), jokers - 2, sets - 1, pair, runs)));
        let run_ok = sets > 0 && runs && i < 27 && i % 9 <= 6 && c.len() == 34;
        let base = lowered(c, i, 1);
        let by_run = run_ok && ((c[i + 1] > 0 && c[i + 2] > 0 && splits(
            lowered(lowered(base, i + 1, 1), i + 2, 1),
            jokers,
            sets - 1,
            pair,
            runs,
        )) || (c[i + 1] > 0 && jokers >= 1 && splits(lowered(base, i + 1, 1), jokers - 1, sets - 1, pair, runs))
            || (c[i + 2] > 0 && jokers >= 1 && splits(lowered(base, i + 2, 1), jokers - 1, sets - 1, pair, runs))
            || (jokers >= 2 && splits(base, jokers - 2, sets - 1, pair, runs)));
        by_pair || by_triplet || by_run
    }
}

/// A standard shape: exactly the tiles of `sets` groups and the pair, and a split into them.
pub open spec fn standard_shape(c: Seq<u8>, jokers: int, sets: int, pair: bool, runs: bool) -> bool {
    &&& total_of(c) + jokers == group_tiles(sets, pair)
    &&& splits(c, jokers, sets, pair, runs)
}

/// Sum of the counts.
pub fn total(counts: &[u8]) -> (r: u32)
    requires
        counts@.len() <= 34,
    ensures
        r == total_of(counts@),
        r <= 255 * counts@.len(),
{
    let mut sum: u32 = 0;
    let mut k: usize = 0;
    while k < counts.len()
        invariant
            k <= counts@.len() <= 34,
            sum == prefix_sum(counts@, k as int),
            sum <= 255 * k,
        decreases counts@.len() - k,
    {
        sum = sum + counts[k] as u32;
        k = k + 1;
    }
    sum
}

fn lowest_present(counts: &Vec<u8>) -> (r: usize)
    ensures
        r == first_present(counts@, 0),
{
    let mut k: usize = 0;
    while k < counts.len()
        invariant
            k <= counts@.len(),
            first_present(counts@, 0) == first_present(counts@, k as int),
        decreases counts@.len() - k,
    {
        if counts[k] > 0 {
            return k;
        }
        k = k + 1;
    }
    k
}

fn lower(counts: &Vec<u8>, i: usize, by: u8) -> (r: Vec<u8>)
    requires
        i < counts@.len(),
        counts@[i as int] >= by,
    ensures
        r@ == lowered(counts@, i as int, by as int),
{
    let mut next = counts.clone();
    assert(next@ == counts@);
    let value = counts[i] - by;
    next.set(i, value);
    next
}

fn decompose(counts: &Vec<u8>, jokers: u8, sets: u8, pair: bool, runs: bool) -> (r: bool)
    requires
        counts@.len() == 34,
    ensures
        r == splits(counts@, jokers as int, sets as int, pair, runs),
    decreases sets, (if pair {
        1int
    } else {
        0int
    }),
{
    let i = lowest_present(counts);
    if i >= counts.len() {
        return jokers as u32 == sets as u32 * 3 + if pair {
            2
        } else {
            0
        };
    }
    proof {
        let c = counts@;
        assert(c[i as int] > 0) by {
            lemma_first_present_has_tile(c, 0);
        }
    }
    let n = counts[i];
    if pair {
        if n >= 2 && decompose(&lower(counts, i, 2), jokers, sets, false, runs) {
            return true;
        }
        if jokers >= 1 && decompose(&lower(counts, i, 1), jokers - 1, sets, false, runs) {
            return true;
        }
    }
    if sets == 0 {
        return false;
    }
    if n >= 3 && decompose(&lower(counts, i, 3), jokers, sets - 1, pair, runs) {
        return true;
    }
    if n >= 2 && jokers >= 1 && decompose(&lower(counts, i, 2), jokers - 1, sets - 1, pair, runs) {
        return true;
    }
    if jokers >= 2 && decompose(&lower(counts, i, 1), jokers - 2, sets - 1, pair, runs) {
        return true;
    }
    if runs && i < 27 && i % 9 <= 6 {
        let base = lower(counts, i, 1);
        if counts[i + 1] > 0 && counts[i + 2] > 0 {
            let step = lower(&base, i + 1, 1);
            if decompose(&lower(&step, i + 2, 1), jokers, sets - 1, pair, runs) {
                return true;
            }
        }
        if counts[i + 1] > 0 && jokers >= 1 && decompose(&lower(&base, i + 1, 1), jokers - 1, sets - 1, pair, runs) {
            return true;
        }
        if counts[i + 2] > 0 && jokers >= 1 && decompose(&lower(&base, i + 2, 1), jokers - 1, sets - 1, pair, runs) {
            return true;
        }
        if jokers >= 2 && decompose(&base, jokers - 2, sets - 1, pair, runs) {
            return true;
        }
    }
    false
}

/// The kind that `first_present` finds holds a tile.
proof fn lemma_first_present_has_tile(c: Seq<u8>, k: int)
    requires
        0 <= k,
        first_present(c, k) < c.len(),
    ensures
        k <= first_present(c, k),
        c[first_present(c, k)] > 0,
    decreases c.len() - k,
{
    if k < c.len() && c[k] == 0 {
        lemma_first_present_has_tile(c, k + 1);
    }
}

/// Whether the counts, with `jokers` wild tiles, are `sets_needed` groups and (when
/// `need_pair`) a pair; with `runs_allowed` false only triplets count, which is how all
/// triplets is judged.
pub fn standard(counts: &[u8], jokers: u8, sets_needed: u8, need_pair: bool, runs_allowed: bool) -> (r: bool)
    requires
        counts@.len() == 34,
    ensures
        r == standard_shape(counts@, jokers as int, sets_needed as int, need_pair, runs_allowed),
{
    let expected: u32 = sets_needed as u32 * 3 + if need_pair {
        2
    } else {
        0
    };
    if total(counts) + jokers as u32 != expected {
        return false;
    }
    let mut working: Vec<u8> = Vec::new();
    let mut k: usize = 0;
    while k < counts.len()
        invariant
            k <= counts@.len(),
            working@ == counts@.take(k as int),
        decreases counts@.len() - k,
    {
        working.push(counts[k]);
        k = k + 1;
        assert(working@ == counts@.take(k as int));
    }
    assert(working@ == counts@);
    decompose(&working, jokers, sets_needed, need_pair, runs_allowed)
}

/// Pairs the tiles make: two of a kind each, four of a kind as two, and wild tiles first
/// completing single tiles, then pairing among themselves.
pub open spec fn natural_pairs(c: Seq<u8>, n: int) -> int
    decreases n,
{
    if n <= 0 {
        0
    } else {
        natural_pairs(c, n - 1) + c[n - 1] / 2
    }
}

/// Kinds among the first `n` with an odd count.
pub open spec fn odd_kinds(c: Seq<u8>, n: int) -> int
    decreases n,
{
    if n <= 0 {
        0
    } else {
        odd_kinds(c, n - 1) + if c[n - 1] % 2 == 1 {
            1int
        } else {
            0int
        }
    }
}

/// The most pairs the tiles and wild tiles can make.
pub open spec fn max_pairs_of(c: Seq<u8>, jokers: int) -> int {
    let singles = odd_kinds(c, c.len() as int);
    let matched = if singles < jokers {
        singles
    } else {
        jokers
    };
    natural_pairs(c, c.len() as int) + matched + (jokers - matched) / 2
}

/// The seven-pairs family: exactly `pairs_needed` pairs and `filler` other tiles' worth of
/// tiles, with enough pairs among them.
pub open spec fn pairs_shape_of(c: Seq<u8>, jokers: int, pairs_needed: int, filler: int) -> bool {
    &&& total_of(c) + jokers == 2 * pairs_needed + filler
    &&& max_pairs_of(c, jokers) >= pairs_needed
}

fn max_pairs(counts: &[u8], jokers: u8) -> (r: u32)
    requires
        counts@.len() <= 34,
    ensures
        r == max_pairs_of(counts@, jokers as int),
{
    let mut natural: u32 = 0;
    let mut singles: u32 = 0;
    let mut k: usize = 0;
    while k < counts.len()
        invariant
            k <= counts@.len() <= 34,
            natural == natural_pairs(counts@, k as int),
            singles == odd_kinds(counts@, k as int),
            natural <= 128 * k,
            singles <= k,
        decreases counts@.len() - k,
    {
        natural = natural + (counts[k] / 2) as u32;
        if counts[k] % 2 == 1 {
            singles = singles + 1;
        }
        k = k + 1;
    }
    let matched: u32 = if singles < jokers as u32 {
        singles
    } else {
        jokers as u32
    };
    natural + matched + (jokers as u32 - matched) / 2
}

/// Whether the counts are `pairs_needed` pairs plus `filler` tiles (seven pairs is seven and
/// none; four of a kind counts as two pairs).
pub fn pairs_shape(counts: &[u8], jokers: u8, pairs_needed: u8, filler: u8) -> (r: bool)
    requires
        counts@.len() == 34,
    ensures
        r == pairs_shape_of(counts@, jokers as int, pairs_needed as int, filler as int),
{
    let expected: u32 = pairs_needed as u32 * 2 + filler as u32;
    if total(counts) + jokers as u32 != expected {
        return false;
    }
    max_pairs(counts, jokers) >= pairs_needed as u32
}

} // verus!
