use vstd::prelude::*;

use crate::riichi::tile::{Tile, TileKind};
use crate::riichi::tile_set::count_kind;

use super::counts::{TileCounts, counts_of_tiles, prefix_sum, total_of, lemma_prefix_sum_bounds, lemma_prefix_sum_update};

verus! {

broadcast use {TileKind::lemma_view_injective, TileKind::lemma_spec_at};

/// A complete group of three tiles inside a hand.
#[derive(Clone, Copy, Debug, PartialEq, Eq, Structural)]
pub enum Group {
    Sequence(TileKind),
    Triplet(TileKind),
}

/// The position of a group in the order groups are listed: sequences before triplets, each by
/// kind.
pub open spec fn group_key(g: Group) -> int {
    match g {
        Group::Sequence(start) => start@ as int,
        Group::Triplet(kind) => 34 + kind@,
    }
}

/// How many tiles of the kind at `k` a group uses.
pub open spec fn group_count(g: Group, k: int) -> int {
    match g {
        Group::Sequence(start) => if start@ <= k <= start@ + 2 {
            1
        } else {
            0
        },
        Group::Triplet(kind) => if kind@ == k {
            3
        } else {
            0
        },
    }
}

/// A sequence must start at rank seven or below of a suit.
pub open spec fn valid_group(g: Group) -> bool {
    match g {
        Group::Sequence(start) => start@ < 27 && start@ % 9 <= 6,
        Group::Triplet(kind) => kind@ < 34,
    }
}

/// How many tiles of the kind at `k` a list of groups uses.
pub open spec fn groups_count(gs: Seq<Group>, k: int) -> int
    decreases gs.len(),
{
    if gs.len() == 0 {
        0
    } else {
        groups_count(gs.drop_last(), k) + group_count(gs.last(), k)
    }
}

/// Whether every group of the list is valid.
pub open spec fn all_valid(gs: Seq<Group>) -> bool {
    forall|i: int| 0 <= i < gs.len() ==> valid_group(#[trigger] gs[i])
}

/// Whether `gs` are `n` valid groups that use exactly the tiles counted in `c`.
pub open spec fn decomposes(c: Seq<u8>, n: int, gs: Seq<Group>) -> bool {
    &&& gs.len() == n
    &&& all_valid(gs)
    &&& forall|k: int| 0 <= k < 34 ==> #[trigger] groups_count(gs, k) == c[k]
}

/// Whether the groups are listed in key order.
pub open spec fn groups_sorted(gs: Seq<Group>) -> bool {
    forall|i: int, j: int| 0 <= i < j < gs.len() ==> group_key(#[trigger] gs[i]) <= group_key(
        #[trigger] gs[j],
    )
}

/// Appending a group adds its tiles.
proof fn lemma_groups_count_push(gs: Seq<Group>, g: Group, k: int)
    ensures
        groups_count(gs.push(g), k) == groups_count(gs, k) + group_count(g, k),
{
    assert(gs.push(g).drop_last() =~= gs);
}

/// Group counts are never negative.
proof fn lemma_group_count_nonneg(g: Group, k: int)
    ensures
        group_count(g, k) >= 0,
{
}

/// Removing one group removes its tiles.
proof fn lemma_groups_count_remove(gs: Seq<Group>, j: int, k: int)
    requires
        0 <= j < gs.len(),
    ensures
        groups_count(gs, k) == groups_count(gs.remove(j), k) + group_count(gs[j], k),
    decreases gs.len(),
{
    if j == gs.len() - 1 {
        assert(gs.remove(j) =~= gs.drop_last());
    } else {
        lemma_groups_count_remove(gs.drop_last(), j, k);
        assert(gs.remove(j).drop_last() =~= gs.drop_last().remove(j));
        assert(gs.remove(j).last() == gs.last());
    }
}

/// Every group's tiles are part of the list's tiles.
proof fn lemma_groups_count_ge(gs: Seq<Group>, j: int, k: int)
    requires
        0 <= j < gs.len(),
    ensures
        groups_count(gs, k) >= group_count(gs[j], k),
{
    lemma_groups_count_remove(gs, j, k);
    lemma_groups_count_nonneg(gs.remove(j), k);
}

/// Group list counts are never negative.
proof fn lemma_groups_count_nonneg(gs: Seq<Group>, k: int)
    ensures
        groups_count(gs, k) >= 0,
    decreases gs.len(),
{
    if gs.len() > 0 {
        lemma_groups_count_nonneg(gs.drop_last(), k);
    }
}

/// If a list uses some tile of a kind, one of its groups does.
proof fn lemma_groups_count_witness(gs: Seq<Group>, k: int) -> (j: int)
    requires
        groups_count(gs, k) > 0,
    ensures
        0 <= j < gs.len(),
        group_count(gs[j], k) > 0,
    decreases gs.len(),
{
    if group_count(gs.last(), k) > 0 {
        (gs.len() - 1) as int
    } else {
        lemma_groups_count_witness(gs.drop_last(), k)
    }
}

/// Lists with the same groups use the same tiles, whatever their order.
proof fn lemma_groups_count_multiset(a: Seq<Group>, b: Seq<Group>, k: int)
    requires
        a.to_multiset() == b.to_multiset(),
    ensures
        groups_count(a, k) == groups_count(b, k),
    decreases a.len(),
{
    broadcast use {
        vstd::seq_lib::to_multiset_remove,
        vstd::seq_lib::to_multiset_contains,
        vstd::seq_lib::to_multiset_len,
        vstd::multiset::group_multiset_axioms,
    };

    if a.len() == 0 {
        assert(b.to_multiset().len() == 0);
        assert(b.len() == 0);
    } else {
        let x = a.last();
        assert(a.contains(x));
        assert(a.to_multiset().count(x) > 0);
        assert(b.to_multiset().count(x) > 0);
        assert(b.contains(x));
        let j = choose|j: int| 0 <= j < b.len() && b[j] == x;
        assert(a.remove(a.len() - 1) =~= a.drop_last());
        assert(a.drop_last().to_multiset() == a.to_multiset().remove(x));
        assert(b.remove(j).to_multiset() == b.to_multiset().remove(x));
        lemma_groups_count_multiset(a.drop_last(), b.remove(j), k);
        lemma_groups_count_remove(b, j, k);
    }
}

/// Sorts groups into key order by insertion.
fn sort_groups(groups: &Vec<Group>) -> (r: Vec<Group>)
    requires
        all_valid(groups@),
    ensures
        groups_sorted(r@),
        r@.to_multiset() == groups@.to_multiset(),
        all_valid(r@),
        r@.len() == groups@.len(),
{
    broadcast use {
        vstd::seq_lib::to_multiset_insert,
        vstd::seq_lib::to_multiset_len,
        vstd::seq_lib::to_multiset_build,
    };

    let mut sorted: Vec<Group> = Vec::new();
    let mut i: usize = 0;
    assert(groups@.take(0) =~= sorted@);
    while i < groups.len()
        invariant
            i <= groups@.len(),
            all_valid(groups@),
            groups_sorted(sorted@),
            all_valid(sorted@),
            sorted@.len() == i,
            sorted@.to_multiset() == groups@.take(i as int).to_multiset(),
        decreases groups@.len() - i,
    {
        let g = groups[i];
        let key = group_key_exec(g);
        let mut position: usize = 0;
        while position < sorted.len() && group_key_exec(sorted[position]) <= key
            invariant
                position <= sorted@.len(),
                key == group_key(g),
                forall|j: int| 0 <= j < position ==> group_key(#[trigger] sorted@[j]) <= key,
            decreases sorted@.len() - position,
        {
            position = position + 1;
        }
        proof {
            assert forall|j: int| position <= j < sorted@.len() implies key < group_key(#[trigger] sorted@[j]) by {
                assert(group_key(sorted@[position as int]) > key);
                if j > position {
                    assert(group_key(sorted@[position as int]) <= group_key(sorted@[j]));
                }
            }
        }
        let ghost before = sorted@;
        sorted.insert(position, g);
        proof {
            vstd::seq_lib::to_multiset_insert(before, position as int, g);
            vstd::seq_lib::to_multiset_build(groups@.take(i as int), g);
            assert(sorted@ == before.insert(position as int, g));
            assert(groups@.take(i + 1) =~= groups@.take(i as int).push(g));
            assert(groups@.take(i as int).push(g) =~= groups@.take(i as int).insert(i as int, g));
            assert forall|a: int, b: int| 0 <= a < b < sorted@.len() implies group_key(
                #[trigger] sorted@[a],
            ) <= group_key(#[trigger] sorted@[b]) by {
                if a < position && b < position {
                } else if a < position && b == position {
                } else if a < position {
                    assert(sorted@[b] == before[b - 1]);
                } else if a == position {
                    assert(sorted@[b] == before[b - 1]);
                } else {
                    assert(sorted@[a] == before[a - 1]);
                    assert(sorted@[b] == before[b - 1]);
                }
            }
        }
        i = i + 1;
    }
    proof {
        assert(groups@.take(i as int) =~= groups@);
    }
    sorted
}

fn group_key_exec(g: Group) -> (r: u8)
    ensures
        r == group_key(g),
{
    match g {
        Group::Sequence(start) => start.index() as u8,
        Group::Triplet(kind) => 34 + kind.index() as u8,
    }
}

/// A winning arrangement of four groups and a pair.
#[derive(Debug, PartialEq, Eq)]
pub struct StandardShape {
    pub pair: TileKind,
    pub groups: Vec<Group>,
}

#[derive(Debug, PartialEq, Eq)]
pub enum WinningShape {
    Standard(StandardShape),
    SevenPairs,
    ThirteenOrphans,
}

/// Whether a collected shape uses the pair `pair`, lists its groups in key order, and together
/// with the groups already chosen (`stack`) and `n` more valid groups uses exactly the tiles `c`.
pub open spec fn entry_sound(e: WinningShape, pair: TileKind, stack: Seq<Group>, c: Seq<u8>, n: int) -> bool {
    match e {
        WinningShape::Standard(shape) => {
            &&& shape.pair == pair
            &&& groups_sorted(shape.groups@)
            &&& all_valid(shape.groups@)
            &&& shape.groups@.len() == stack.len() + n
            &&& forall|k: int| 0 <= k < 34 ==> #[trigger] groups_count(shape.groups@, k) == groups_count(stack, k) + c[k]
        },
        _ => false,
    }
}

/// Whether a collected shape has the pair `pair` and exactly the groups `gs`, in any order.
pub open spec fn entry_has(e: WinningShape, pair: TileKind, gs: Seq<Group>) -> bool {
    match e {
        WinningShape::Standard(shape) => shape.pair == pair && shape.groups@.to_multiset() == gs.to_multiset(),
        _ => false,
    }
}

/// Collects every way to split `counts` into `groups_left` groups, each listed after `groups`.
fn collect_groups(
    counts: &mut TileCounts,
    groups_left: usize,
    groups: &mut Vec<Group>,
    pair: TileKind,
    results: &mut Vec<WinningShape>,
)
    requires
        old(counts).wf(),
        groups_left <= 4,
        all_valid(old(groups)@),
    ensures
        final(counts).wf(),
        final(counts).spec_values() == old(counts).spec_values(),
        final(groups)@ == old(groups)@,
        final(results)@.len() >= old(results)@.len(),
        forall|i: int| 0 <= i < old(results)@.len() ==> #[trigger] final(results)@[i] == old(results)@[i],
        forall|i: int|
            old(results)@.len() <= i < final(results)@.len() ==> entry_sound(
                #[trigger] final(results)@[i],
                pair,
                old(groups)@,
                old(counts).spec_values(),
                groups_left as int,
            ),
        forall|rest: Seq<Group>|
            decomposes(old(counts).spec_values(), groups_left as int, rest) ==> exists|i: int|
                old(results)@.len() <= i < final(results)@.len() && entry_has(
                    #[trigger] final(results)@[i],
                    pair,
                    old(groups)@ + rest,
                ),
    decreases groups_left,
{
    let ghost c = counts.spec_values();
    let ghost stack = groups@;
    let ghost start_len = results@.len();
    proof {
        counts.lemma_wf();
        lemma_prefix_sum_bounds(c, 34);
    }
    if groups_left == 0 {
        if counts.total() == 0 {
            let stable_groups = sort_groups(groups);
            proof {
                assert forall|k: int| 0 <= k < 34 implies #[trigger] groups_count(stable_groups@, k) == groups_count(stack, k) + c[k] by {
                    lemma_groups_count_multiset(stable_groups@, stack, k);
                }
            }
            results.push(WinningShape::Standard(StandardShape { pair, groups: stable_groups }));
            proof {
                assert forall|rest: Seq<Group>| decomposes(c, 0, rest) implies exists|i: int|
                    start_len <= i < results@.len() && entry_has(#[trigger] results@[i], pair, stack + rest) by {
                    assert(rest =~= Seq::<Group>::empty());
                    assert(stack + rest =~= stack);
                    assert(entry_has(results@[start_len as int], pair, stack + rest));
                }
            }
        } else {
            proof {
                assert forall|rest: Seq<Group>| decomposes(c, 0, rest) implies false by {
                    assert(rest.len() == 0);
                    assert forall|k: int| 0 <= k < 34 implies c[k] == 0 by {
                        assert(groups_count(rest, k) == c[k]);
                    }
                    lemma_total_zero(c, 34);
                }
            }
        }
        return;
    }
    let first = match counts.first_present() {
        Some(first) => first,
        None => {
            proof {
                assert forall|rest: Seq<Group>| decomposes(c, groups_left as int, rest) implies false by {
                    let g = rest[0];
                    let k = match g {
                        Group::Sequence(s) => s@ as int,
                        Group::Triplet(t) => t@ as int,
                    };
                    lemma_groups_count_ge(rest, 0, k);
                    assert(groups_count(rest, k) == c[k]);
                }
            }
            return;
        },
    };
    let f = first.index();
    let ghost fk = f as int;
    proof {
        // Every split of the counts has a group covering the lowest present kind, and that group
        // is a triplet of that kind or a sequence starting at it.
        assert forall|rest: Seq<Group>| decomposes(c, groups_left as int, rest) implies
            exists|j: int| 0 <= j < rest.len() && (#[trigger] rest[j] == Group::Triplet(first)
                || rest[j] == Group::Sequence(first)) by {
            assert(groups_count(rest, fk) == c[fk]);
            let j = lemma_groups_count_witness(rest, fk);
            match rest[j] {
                Group::Triplet(t) => {
                    assert(t@ == fk);
                    assert(rest[j] == Group::Triplet(first));
                },
                Group::Sequence(s) => {
                    if s@ < fk {
                        lemma_groups_count_ge(rest, j, s@ as int);
                        assert(groups_count(rest, s@ as int) == c[s@ as int]);
                    }
                    assert(s@ == fk);
                    assert(rest[j] == Group::Sequence(first));
                },
            }
        }
    }
    let ghost mid_len: nat = start_len;
    if counts.get(first) >= 3 {
        counts.remove(first);
        counts.remove(first);
        counts.remove(first);
        let ghost c1 = counts.spec_values();
        assert(c1 == c.update(fk, (c[fk] - 3) as u8));
        groups.push(Group::Triplet(first));
        collect_groups(counts, groups_left - 1, groups, pair, results);
        groups.pop();
        proof {
            assert(groups@ =~= stack);
        }
        add_back(counts, first);
        add_back(counts, first);
        add_back(counts, first);
        proof {
            assert(counts.spec_values() =~= c);
            let tstack = stack.push(Group::Triplet(first));
            assert forall|i: int| start_len <= i < results@.len() implies entry_sound(
                #[trigger] results@[i], pair, stack, c, groups_left as int) by {
                assert(entry_sound(results@[i], pair, tstack, c1, groups_left - 1));
                if let WinningShape::Standard(shape) = results@[i] {
                    assert forall|k: int| 0 <= k < 34 implies #[trigger] groups_count(shape.groups@, k) == groups_count(stack, k) + c[k] by {
                        lemma_groups_count_push(stack, Group::Triplet(first), k);
                        assert(groups_count(shape.groups@, k) == groups_count(tstack, k) + c1[k]);
                    }
                }
            }
            assert forall|rest: Seq<Group>| decomposes(c, groups_left as int, rest) && (exists|j: int| 0 <= j < rest.len() && #[trigger] rest[j] == Group::Triplet(first))
                implies exists|i: int| start_len <= i < results@.len() && entry_has(#[trigger] results@[i], pair, stack + rest) by {
                let j = choose|j: int| 0 <= j < rest.len() && #[trigger] rest[j] == Group::Triplet(first);
                let rest1 = rest.remove(j);
                assert forall|k: int| 0 <= k < 34 implies #[trigger] groups_count(rest1, k) == c1[k] by {
                    lemma_groups_count_remove(rest, j, k);
                }
                assert(all_valid(rest1));
                assert(decomposes(c1, groups_left - 1, rest1));
                let i = choose|i: int| start_len <= i < results@.len() && entry_has(#[trigger] results@[i], pair, tstack + rest1);
                lemma_multiset_split(stack, rest, j);
                assert(entry_has(results@[i], pair, stack + rest));
            }
        }
    }
    proof {
        if c[fk] < 3 {
            assert forall|rest: Seq<Group>| decomposes(c, groups_left as int, rest) && (exists|j: int| 0 <= j < rest.len() && #[trigger] rest[j] == Group::Triplet(first))
                implies exists|i: int| start_len <= i < results@.len() && entry_has(#[trigger] results@[i], pair, stack + rest) by {
                let j = choose|j: int| 0 <= j < rest.len() && #[trigger] rest[j] == Group::Triplet(first);
                lemma_groups_count_ge(rest, j, fk);
                assert(groups_count(rest, fk) == c[fk]);
            }
        }
    }
    let ghost after_triplet = results@;
    let ghost triplet_end = results@.len();
    let suit = match first.suit() {
        Some(suit) => suit,
        None => {
            proof {
                lemma_no_sequence(c, groups_left as int, first, stack, pair, results@, start_len as int);
            }
            return;
        },
    };
    if f % 9 > 6 {
        proof {
            lemma_no_sequence(c, groups_left as int, first, stack, pair, results@, start_len as int);
        }
        return;
    }
    let second = match TileKind::from_index((f + 1) as u8) {
        Ok(kind) => kind,
        Err(_) => vstd::pervasive::unreached(),
    };
    let third = match TileKind::from_index((f + 2) as u8) {
        Ok(kind) => kind,
        Err(_) => vstd::pervasive::unreached(),
    };
    if counts.get(second) == 0 || counts.get(third) == 0 {
        proof {
            lemma_no_sequence(c, groups_left as int, first, stack, pair, results@, start_len as int);
        }
        return;
    }
    counts.remove(first);
    counts.remove(second);
    counts.remove(third);
    let ghost c2 = counts.spec_values();
    proof {
        assert(c2 =~= c.update(fk, (c[fk] - 1) as u8).update(fk + 1, (c[fk + 1] - 1) as u8).update(fk + 2, (c[fk + 2] - 1) as u8));
        assert forall|k: int| 0 <= k < 34 implies #[trigger] c2[k] == c[k] - group_count(Group::Sequence(first), k) by {}
    }
    groups.push(Group::Sequence(first));
    collect_groups(counts, groups_left - 1, groups, pair, results);
    groups.pop();
    proof {
        assert(groups@ =~= stack);
    }
    add_back(counts, first);
    add_back(counts, second);
    add_back(counts, third);
    proof {
        assert(counts.spec_values() =~= c);
        let sstack = stack.push(Group::Sequence(first));
        assert forall|i: int| start_len <= i < results@.len() implies entry_sound(
            #[trigger] results@[i], pair, stack, c, groups_left as int) by {
            if i >= triplet_end {
                assert(entry_sound(results@[i], pair, sstack, c2, groups_left - 1));
                if let WinningShape::Standard(shape) = results@[i] {
                    assert forall|k: int| 0 <= k < 34 implies #[trigger] groups_count(shape.groups@, k) == groups_count(stack, k) + c[k] by {
                        lemma_groups_count_push(stack, Group::Sequence(first), k);
                        assert(groups_count(shape.groups@, k) == groups_count(sstack, k) + c2[k]);
                    }
                }
            } else {
                assert(results@[i] == after_triplet[i]);
            }
        }
        assert forall|rest: Seq<Group>| decomposes(c, groups_left as int, rest)
            implies exists|i: int| start_len <= i < results@.len() && entry_has(#[trigger] results@[i], pair, stack + rest) by {
            if exists|j: int| 0 <= j < rest.len() && #[trigger] rest[j] == Group::Triplet(first) {
                let i = choose|i: int| start_len <= i < after_triplet.len() && entry_has(#[trigger] after_triplet[i], pair, stack + rest);
                assert(results@[i] == after_triplet[i]);
            } else {
                let j = choose|j: int| 0 <= j < rest.len() && #[trigger] rest[j] == Group::Sequence(first);
                let rest1 = rest.remove(j);
                assert forall|k: int| 0 <= k < 34 implies #[trigger] groups_count(rest1, k) == c2[k] by {
                    lemma_groups_count_remove(rest, j, k);
                }
                assert(all_valid(rest1));
                assert(decomposes(c2, groups_left - 1, rest1));
                let i = choose|i: int| triplet_end <= i < results@.len() && entry_has(#[trigger] results@[i], pair, sstack + rest1);
                lemma_multiset_split(stack, rest, j);
                assert(entry_has(results@[i], pair, stack + rest));
            }
        }
    }
}

/// `stack + rest` holds the same groups as `stack`, `rest[j]`, then the rest of `rest`.
proof fn lemma_multiset_split(stack: Seq<Group>, rest: Seq<Group>, j: int)
    requires
        0 <= j < rest.len(),
    ensures
        (stack.push(rest[j]) + rest.remove(j)).to_multiset() == (stack + rest).to_multiset(),
{
    broadcast use {
        vstd::seq_lib::to_multiset_remove,
        vstd::seq_lib::to_multiset_insert,
        vstd::seq_lib::lemma_seq_union_to_multiset_commutative,
        vstd::seq_lib::lemma_multiset_commutative,
        vstd::multiset::group_multiset_axioms,
    };

    let x = rest[j];
    let r1 = rest.remove(j);
    assert(r1.insert(j, x) =~= rest);
    vstd::seq_lib::lemma_multiset_commutative(stack.push(x), r1);
    vstd::seq_lib::lemma_multiset_commutative(stack, rest);
    vstd::seq_lib::lemma_multiset_commutative(stack, r1);
    assert(stack.push(x) =~= stack.insert(stack.len() as int, x));
    assert((stack.push(x) + r1).to_multiset() =~= (stack + rest).to_multiset());
}

/// Without a sequence starting at the lowest present kind, the only splits are the ones
/// with a triplet of it, already collected.
proof fn lemma_no_sequence(
    c: Seq<u8>,
    n: int,
    first: TileKind,
    stack: Seq<Group>,
    pair: TileKind,
    results: Seq<WinningShape>,
    start_len: int,
)
    requires
        c.len() == 34,
        first@ < 34,
        !(first@ < 27 && first@ % 9 <= 6) || c[first@ + 1] == 0 || c[first@ + 2] == 0,
        forall|rest: Seq<Group>| decomposes(c, n, rest) ==> exists|j: int| 0 <= j < rest.len() && (#[trigger] rest[j] == Group::Triplet(first) || rest[j] == Group::Sequence(first)),
        forall|rest: Seq<Group>| decomposes(c, n, rest) && (exists|j: int| 0 <= j < rest.len() && #[trigger] rest[j] == Group::Triplet(first))
            ==> exists|i: int| start_len <= i < results.len() && entry_has(#[trigger] results[i], pair, stack + rest),
    ensures
        forall|rest: Seq<Group>| decomposes(c, n, rest) ==> exists|i: int| start_len <= i < results.len() && entry_has(#[trigger] results[i], pair, stack + rest),
{
    assert forall|rest: Seq<Group>| decomposes(c, n, rest) implies exists|i: int| start_len <= i < results.len() && entry_has(#[trigger] results[i], pair, stack + rest) by {
        let j = choose|j: int| 0 <= j < rest.len() && (#[trigger] rest[j] == Group::Triplet(first) || rest[j] == Group::Sequence(first));
        if rest[j] == Group::Sequence(first) {
            assert(valid_group(rest[j]));
            lemma_groups_count_ge(rest, j, first@ + 1);
            lemma_groups_count_ge(rest, j, first@ + 2);
            assert(groups_count(rest, first@ + 1) == c[first@ + 1]);
            assert(groups_count(rest, first@ + 2) == c[first@ + 2]);
        }
    }
}

/// Counts that sum to zero are all zero, and the other way round.
proof fn lemma_total_zero(c: Seq<u8>, n: int)
    requires
        0 <= n <= c.len(),
        forall|k: int| 0 <= k < n ==> c[k] == 0,
    ensures
        prefix_sum(c, n) == 0,
    decreases n,
{
    if n > 0 {
        lemma_total_zero(c, n - 1);
    }
}

/// Puts back one tile that was taken out.
fn add_back(counts: &mut TileCounts, kind: TileKind)
    requires
        old(counts).wf(),
        old(counts).spec_values()[kind@ as int] < 4,
    ensures
        final(counts).wf(),
        final(counts).spec_values() == old(counts).spec_values().update(
            kind@ as int,
            (old(counts).spec_values()[kind@ as int] + 1) as u8,
        ),
{
    match counts.add(kind) {
        Ok(()) => {},
        Err(_) => {},
    }
}

/// Whether the kind at index `k` is a terminal or an honor.
pub open spec fn is_orphan_index(k: int) -> bool {
    (0 <= k < 27 && (k % 9 == 0 || k % 9 == 8)) || (27 <= k < 34)
}

/// How many of the first `n` kinds are held exactly twice.
pub open spec fn pair_kind_count(c: Seq<u8>, n: int) -> int
    decreases n,
{
    if n <= 0 {
        0
    } else {
        pair_kind_count(c, n - 1) + if c[n - 1] == 2 {
            1int
        } else {
            0int
        }
    }
}

/// Seven different pairs and nothing else.
pub open spec fn is_seven_pairs_counts(c: Seq<u8>) -> bool {
    &&& pair_kind_count(c, 34) == 7
    &&& forall|k: int| 0 <= k < 34 ==> #[trigger] c[k] == 0 || c[k] == 2
}

/// One of each terminal and honor, one of them twice, and nothing else.
pub open spec fn is_thirteen_orphans_counts(c: Seq<u8>) -> bool {
    &&& forall|k: int|
        0 <= k < 34 ==> (is_orphan_index(k) ==> #[trigger] c[k] >= 1) && (!is_orphan_index(k) ==> c[k]
            == 0)
    &&& exists|k: int| 0 <= k < 34 && is_orphan_index(k) && #[trigger] c[k] == 2
}

/// A pair of the kind at `pair` and the groups `gs` use exactly the tiles counted in `c`.
pub open spec fn standard_split(c: Seq<u8>, n: int, pair: TileKind, gs: Seq<Group>) -> bool {
    &&& pair@ < 34
    &&& c[pair@ as int] >= 2
    &&& decomposes(c.update(pair@ as int, (c[pair@ as int] - 2) as u8), n, gs)
}

/// Whether a shape is a correct reading of the counts `c` with `n` concealed groups.
pub open spec fn shape_valid(e: WinningShape, c: Seq<u8>, n: int) -> bool {
    match e {
        WinningShape::Standard(s) => standard_split(c, n, s.pair, s.groups@)
            && groups_sorted(s.groups@),
        WinningShape::SevenPairs => n == 4 && is_seven_pairs_counts(c),
        WinningShape::ThirteenOrphans => n == 4 && is_thirteen_orphans_counts(c),
    }
}

/// How many groups a complete hand holds in its concealed tiles when `declared` groups were
/// called.
pub open spec fn concealed_groups(declared: int) -> int {
    4 - declared
}

/// Whether the counts `c`, with `declared` groups already called, form a complete hand.
pub open spec fn has_winning_shape(c: Seq<u8>, declared: int) -> bool {
    &&& 0 <= declared <= 4
    &&& total_of(c) == (4 - declared) * 3 + 2
    &&& {
        ||| exists|p: TileKind, gs: Seq<Group>| standard_split(c, concealed_groups(declared), p, gs)
        ||| declared == 0 && is_seven_pairs_counts(c)
        ||| declared == 0 && is_thirteen_orphans_counts(c)
    }
}

/// Two shapes that read the hand the same way.
pub open spec fn same_shape(a: WinningShape, b: WinningShape) -> bool {
    match (a, b) {
        (WinningShape::Standard(x), WinningShape::Standard(y)) => x.pair == y.pair && x.groups@
            == y.groups@,
        (WinningShape::SevenPairs, WinningShape::SevenPairs) => true,
        (WinningShape::ThirteenOrphans, WinningShape::ThirteenOrphans) => true,
        _ => false,
    }
}

fn shapes_equal(a: &WinningShape, b: &WinningShape) -> (r: bool)
    ensures
        r == same_shape(*a, *b),
{
    match (a, b) {
        (WinningShape::Standard(x), WinningShape::Standard(y)) => {
            if x.pair.index() != y.pair.index() {
                return false;
            }
            if x.groups.len() != y.groups.len() {
                return false;
            }
            let mut i: usize = 0;
            while i < x.groups.len()
                invariant
                    *a == WinningShape::Standard(*x),
                    *b == WinningShape::Standard(*y),
                    x.pair == y.pair,
                    i <= x.groups@.len(),
                    x.groups@.len() == y.groups@.len(),
                    forall|j: int| 0 <= j < i ==> x.groups@[j] == y.groups@[j],
                decreases x.groups@.len() - i,
            {
                if x.groups[i] != y.groups[i] {
                    assert(x.groups@[i as int] != y.groups@[i as int]);
                    return false;
                }
                i = i + 1;
            }
            assert(x.groups@ =~= y.groups@);
            true
        },
        (WinningShape::SevenPairs, WinningShape::SevenPairs) => true,
        (WinningShape::ThirteenOrphans, WinningShape::ThirteenOrphans) => true,
        _ => false,
    }
}

/// Where a shape's kind stands in the listing: standard, then seven pairs, then thirteen
/// orphans.
pub open spec fn rank_of_shape(a: WinningShape) -> int {
    match a {
        WinningShape::Standard(_) => 0,
        WinningShape::SevenPairs => 1,
        WinningShape::ThirteenOrphans => 2,
    }
}

/// Group lists in dictionary order of their group keys, a proper prefix first.
pub open spec fn groups_precede(x: Seq<Group>, y: Seq<Group>) -> bool
    decreases x.len(),
{
    if x.len() == 0 {
        y.len() > 0
    } else if y.len() == 0 {
        false
    } else if group_key(x[0]) != group_key(y[0]) {
        group_key(x[0]) < group_key(y[0])
    } else {
        groups_precede(x.drop_first(), y.drop_first())
    }
}

/// The listing order of shapes: by kind, then a standard shape by its pair and its groups.
pub open spec fn shape_before(a: WinningShape, b: WinningShape) -> bool {
    if rank_of_shape(a) != rank_of_shape(b) {
        rank_of_shape(a) < rank_of_shape(b)
    } else {
        match (a, b) {
            (WinningShape::Standard(x), WinningShape::Standard(y)) => if x.pair@ != y.pair@ {
                x.pair@ < y.pair@
            } else {
                groups_precede(x.groups@, y.groups@)
            },
            _ => false,
        }
    }
}

fn shape_rank(a: &WinningShape) -> (r: u8)
    ensures
        r == rank_of_shape(*a),
{
    match a {
        WinningShape::Standard(_) => 0,
        WinningShape::SevenPairs => 1,
        WinningShape::ThirteenOrphans => 2,
    }
}

/// Whether `a` is listed before `b`: standard shapes first, by pair and then by groups.
fn shape_precedes(a: &WinningShape, b: &WinningShape) -> (r: bool)
    ensures
        r == shape_before(*a, *b),
{
    let ra = shape_rank(a);
    let rb = shape_rank(b);
    if ra != rb {
        return ra < rb;
    }
    match (a, b) {
        (WinningShape::Standard(x), WinningShape::Standard(y)) => {
            let px = x.pair.index();
            let py = y.pair.index();
            if px != py {
                return px < py;
            }
            let mut i: usize = 0;
            proof {
                assert(x.groups@.skip(0) =~= x.groups@);
                assert(y.groups@.skip(0) =~= y.groups@);
            }
            while i < x.groups.len() && i < y.groups.len()
                invariant
                    shape_before(*a, *b) == groups_precede(x.groups@, y.groups@),
                    i <= x.groups@.len(),
                    i <= y.groups@.len(),
                    groups_precede(x.groups@, y.groups@) == groups_precede(
                        x.groups@.skip(i as int),
                        y.groups@.skip(i as int),
                    ),
                decreases x.groups@.len() - i,
            {
                let kx = group_key_exec(x.groups[i]);
                let ky = group_key_exec(y.groups[i]);
                proof {
                    assert(x.groups@.skip(i as int)[0] == x.groups@[i as int]);
                    assert(y.groups@.skip(i as int)[0] == y.groups@[i as int]);
                    assert(x.groups@.skip(i as int).drop_first() =~= x.groups@.skip(i as int + 1));
                    assert(y.groups@.skip(i as int).drop_first() =~= y.groups@.skip(i as int + 1));
                }
                if kx != ky {
                    return kx < ky;
                }
                i = i + 1;
            }
            proof {
                assert(x.groups@.skip(i as int).len() == x.groups@.len() - i);
            }
            x.groups.len() < y.groups.len()
        },
        _ => false,
    }
}

/// No two entries read the hand the same way.
pub open spec fn no_repeats(s: Seq<WinningShape>) -> bool {
    forall|i: int, j: int| 0 <= i < j < s.len() ==> !same_shape(s[i], s[j])
}

/// Some entry reads the hand as `e` does.
pub open spec fn covers(s: Seq<WinningShape>, e: WinningShape) -> bool {
    exists|i: int| 0 <= i < s.len() && same_shape(s[i], e)
}

/// Adds `shape` in its place unless an equal shape is already there.
fn insert_shape(
    out: &mut Vec<WinningShape>,
    shape: WinningShape,
    Ghost(c): Ghost<Seq<u8>>,
    Ghost(n): Ghost<int>,
)
    requires
        no_repeats(old(out)@),
        forall|i: int| 0 <= i < old(out)@.len() ==> shape_valid(#[trigger] old(out)@[i], c, n),
        shape_valid(shape, c, n),
    ensures
        no_repeats(final(out)@),
        forall|i: int| 0 <= i < final(out)@.len() ==> shape_valid(#[trigger] final(out)@[i], c, n),
        forall|e: WinningShape| #[trigger] covers(old(out)@, e) ==> covers(final(out)@, e),
        covers(final(out)@, shape),
{
    let ghost before = out@;
    let mut j: usize = 0;
    while j < out.len()
        invariant
            j <= out@.len(),
            out@ == before,
            no_repeats(before),
            forall|k: int| 0 <= k < before.len() ==> shape_valid(#[trigger] before[k], c, n),
            forall|k: int| 0 <= k < j ==> !same_shape(#[trigger] out@[k], shape),
        decreases out@.len() - j,
    {
        if shapes_equal(&out[j], &shape) {
            return;
        }
        j = j + 1;
    }
    let mut position: usize = 0;
    while position < out.len() && shape_precedes(&out[position], &shape)
        invariant
            position <= out@.len(),
            out@ == before,
        decreases out@.len() - position,
    {
        position = position + 1;
    }
    out.insert(position, shape);
    proof {
        assert(out@ == before.insert(position as int, shape));
        assert forall|i: int| 0 <= i < out@.len() implies shape_valid(#[trigger] out@[i], c, n) by {
            if i < position {
                assert(out@[i] == before[i]);
            } else if i > position {
                assert(out@[i] == before[i - 1]);
            }
        }
        assert forall|e: WinningShape| #[trigger] covers(before, e) implies covers(out@, e) by {
            let k = choose|k: int| 0 <= k < before.len() && same_shape(before[k], e);
            if k < position {
                assert(out@[k] == before[k]);
            } else {
                assert(out@[k + 1] == before[k]);
            }
        }
        assert(same_shape(out@[position as int], shape)) by {
            lemma_same_shape_refl(shape);
        }
        assert forall|a: int, b: int| 0 <= a < b < out@.len() implies !same_shape(out@[a], out@[b]) by {
            if a == position {
                assert(out@[b] == before[b - 1]);
                lemma_same_shape_sym(shape, before[b - 1]);
            } else if b == position {
                assert(out@[a] == before[a]);
            } else {
                let a0 = if a < position { a } else { a - 1 };
                let b0 = if b < position { b } else { b - 1 };
                assert(out@[a] == before[a0]);
                assert(out@[b] == before[b0]);
            }
        }
    }
}

proof fn lemma_same_shape_refl(a: WinningShape)
    ensures
        same_shape(a, a),
{
}

proof fn lemma_same_shape_sym(a: WinningShape, b: WinningShape)
    ensures
        same_shape(a, b) == same_shape(b, a),
{
}

/// Every split of the counts into a pair and `n` groups, each listed once per pair.
fn standard_shapes(counts: &TileCounts, n: usize) -> (r: Vec<WinningShape>)
    requires
        counts.wf(),
        n <= 4,
    ensures
        forall|i: int| 0 <= i < r@.len() ==> shape_valid(#[trigger] r@[i], counts.spec_values(), n as int)
            && r@[i] is Standard,
        forall|p: TileKind, gs: Seq<Group>|
            standard_split(counts.spec_values(), n as int, p, gs) ==> exists|i: int|
                0 <= i < r@.len() && entry_has(#[trigger] r@[i], p, gs),
{
    let ghost c = counts.spec_values();
    let mut results: Vec<WinningShape> = Vec::new();
    let mut index: usize = 0;
    while index < 34
        invariant
            counts.wf(),
            c == counts.spec_values(),
            n <= 4,
            index <= 34,
            forall|i: int| 0 <= i < results@.len() ==> shape_valid(#[trigger] results@[i], c, n as int)
                && results@[i] is Standard,
            forall|p: TileKind, gs: Seq<Group>|
                p@ < index && standard_split(c, n as int, p, gs) ==> exists|i: int|
                    0 <= i < results@.len() && entry_has(#[trigger] results@[i], p, gs),
        decreases 34 - index,
    {
        let pair = match TileKind::from_index(index as u8) {
            Ok(kind) => kind,
            Err(_) => vstd::pervasive::unreached(),
        };
        let ghost before = results@;
        if counts.get(pair) >= 2 {
            let mut remaining = counts.duplicate();
            remaining.remove(pair);
            remaining.remove(pair);
            let ghost c1 = remaining.spec_values();
            assert(c1 =~= c.update(index as int, (c[index as int] - 2) as u8));
            let mut groups: Vec<Group> = Vec::new();
            collect_groups(&mut remaining, n, &mut groups, pair, &mut results);
            proof {
                let empty = Seq::<Group>::empty();
                assert(groups@ =~= empty);
                assert forall|i: int| 0 <= i < results@.len() implies shape_valid(#[trigger] results@[i], c, n as int)
                    && results@[i] is Standard by {
                    if i >= before.len() {
                        assert(entry_sound(results@[i], pair, empty, c1, n as int));
                        if let WinningShape::Standard(s) = results@[i] {
                            assert forall|k: int| 0 <= k < 34 implies #[trigger] groups_count(s.groups@, k) == c1[k] by {
                                assert(groups_count(empty, k) == 0);
                            }
                        }
                    } else {
                        assert(results@[i] == before[i]);
                    }
                }
                assert forall|p: TileKind, gs: Seq<Group>|
                    p@ < index + 1 && standard_split(c, n as int, p, gs) implies exists|i: int|
                        0 <= i < results@.len() && entry_has(#[trigger] results@[i], p, gs) by {
                    if p@ < index {
                        let i = choose|i: int| 0 <= i < before.len() && entry_has(#[trigger] before[i], p, gs);
                        assert(results@[i] == before[i]);
                    } else {
                        assert(p == pair);
                        assert(decomposes(c1, n as int, gs));
                        assert(empty + gs =~= gs);
                    }
                }
            }
        }
        index = index + 1;
    }
    results
}

/// Whether the counts are seven different pairs.
fn is_seven_pairs(counts: &TileCounts) -> (r: bool)
    requires
        counts.wf(),
    ensures
        r == is_seven_pairs_counts(counts.spec_values()),
{
    let ghost c = counts.spec_values();
    let mut pairs: usize = 0;
    let mut only_pairs = true;
    let mut i: usize = 0;
    while i < 34
        invariant
            counts.wf(),
            c == counts.spec_values(),
            i <= 34,
            pairs == pair_kind_count(c, i as int),
            pairs <= i,
            only_pairs == (forall|k: int| 0 <= k < i ==> #[trigger] c[k] == 0 || c[k] == 2),
        decreases 34 - i,
    {
        let count = counts.get_index(i);
        if count == 2 {
            pairs = pairs + 1;
        }
        if count != 0 && count != 2 {
            only_pairs = false;
        }
        i = i + 1;
    }
    pairs == 7 && only_pairs
}

fn is_orphan(index: usize) -> (r: bool)
    ensures
        r == is_orphan_index(index as int),
{
    (index < 27 && (index % 9 == 0 || index % 9 == 8)) || (27 <= index && index < 34)
}

/// Whether the counts are one of each terminal and honor plus a pair of one of them.
fn is_thirteen_orphans(counts: &TileCounts) -> (r: bool)
    requires
        counts.wf(),
    ensures
        r == is_thirteen_orphans_counts(counts.spec_values()),
{
    let ghost c = counts.spec_values();
    let mut all_fit = true;
    let mut has_pair = false;
    let mut i: usize = 0;
    while i < 34
        invariant
            counts.wf(),
            c == counts.spec_values(),
            i <= 34,
            all_fit == (forall|k: int|
                0 <= k < i ==> (is_orphan_index(k) ==> #[trigger] c[k] >= 1) && (!is_orphan_index(k)
                    ==> c[k] == 0)),
            has_pair == (exists|k: int| 0 <= k < i && is_orphan_index(k) && #[trigger] c[k] == 2),
        decreases 34 - i,
    {
        let count = counts.get_index(i);
        let orphan = is_orphan(i);
        if orphan && count < 1 {
            all_fit = false;
        }
        if !orphan && count != 0 {
            all_fit = false;
        }
        if orphan && count == 2 {
            has_pair = true;
        }
        i = i + 1;
    }
    all_fit && has_pair
}

/// Every reading of the counts as a complete hand with `declared` groups already called, each
/// listed once.
pub fn winning_shapes(counts: &TileCounts, declared: usize) -> (r: Vec<WinningShape>)
    requires
        counts.wf(),
    ensures
        (r@.len() > 0) == has_winning_shape(counts.spec_values(), declared as int),
        declared <= 4 ==> forall|i: int|
            0 <= i < r@.len() ==> shape_valid(#[trigger] r@[i], counts.spec_values(), 4 - declared),
        declared <= 4 && total_of(counts.spec_values()) == (4 - declared) * 3 + 2 ==> forall|
            p: TileKind,
            gs: Seq<Group>,
        |
            standard_split(counts.spec_values(), concealed_groups(declared as int), p, gs) ==> exists|i: int|
                0 <= i < r@.len() && entry_has(#[trigger] r@[i], p, gs),
        declared == 0 && total_of(counts.spec_values()) == 14 && is_seven_pairs_counts(counts.spec_values())
            ==> covers(r@, WinningShape::SevenPairs),
        declared == 0 && total_of(counts.spec_values()) == 14 && is_thirteen_orphans_counts(counts.spec_values())
            ==> covers(r@, WinningShape::ThirteenOrphans),
        no_repeats(r@),
{
    let ghost c = counts.spec_values();
    if declared > 4 {
        return Vec::new();
    }
    let n = 4 - declared;
    if counts.total() as usize != n * 3 + 2 {
        return Vec::new();
    }
    let mut found = standard_shapes(counts, n);
    let ghost all_found = found@;
    let mut shapes: Vec<WinningShape> = Vec::new();
    while found.len() > 0
        invariant
            found@ == all_found.take(found@.len() as int),
            found@.len() <= all_found.len(),
            forall|i: int| 0 <= i < all_found.len() ==> shape_valid(#[trigger] all_found[i], c, n as int),
            no_repeats(shapes@),
            forall|i: int| 0 <= i < shapes@.len() ==> shape_valid(#[trigger] shapes@[i], c, n as int),
            forall|j: int|
                #![trigger all_found[j]]
                found@.len() <= j < all_found.len() ==> covers(shapes@, all_found[j]),
        decreases found@.len(),
    {
        let ghost len = found@.len();
        let shape = match found.pop() {
            Some(shape) => shape,
            None => vstd::pervasive::unreached(),
        };
        assert(shape == all_found[len - 1]);
        assert(found@ =~= all_found.take(found@.len() as int));
        insert_shape(&mut shapes, shape, Ghost(c), Ghost(n as int));
    }
    if declared == 0 && is_seven_pairs(counts) {
        insert_shape(&mut shapes, WinningShape::SevenPairs, Ghost(c), Ghost(n as int));
    }
    let ghost pairs_checked = shapes@;
    if declared == 0 && is_thirteen_orphans(counts) {
        insert_shape(&mut shapes, WinningShape::ThirteenOrphans, Ghost(c), Ghost(n as int));
    }
    proof {
        let nn = n as int;
        assert(concealed_groups(declared as int) == nn);
        if declared == 0 && is_seven_pairs_counts(c) {
            assert(covers(pairs_checked, WinningShape::SevenPairs));
        }
        assert forall|p: TileKind, gs: Seq<Group>| standard_split(c, nn, p, gs) implies exists|i: int|
            0 <= i < shapes@.len() && entry_has(#[trigger] shapes@[i], p, gs) by {
            let j = choose|j: int| 0 <= j < all_found.len() && entry_has(#[trigger] all_found[j], p, gs);
            assert(covers(shapes@, all_found[j]));
            let i = choose|i: int| 0 <= i < shapes@.len() && same_shape(shapes@[i], all_found[j]);
            assert(entry_has(shapes@[i], p, gs));
        }
        if has_winning_shape(c, declared as int) {
            if exists|p: TileKind, gs: Seq<Group>| standard_split(c, nn, p, gs) {
                let (p, gs) = choose|p: TileKind, gs: Seq<Group>| standard_split(c, nn, p, gs);
                let i = choose|i: int| 0 <= i < shapes@.len() && entry_has(#[trigger] shapes@[i], p, gs);
            } else if declared == 0 && is_seven_pairs_counts(c) {
                assert(covers(pairs_checked, WinningShape::SevenPairs));
                assert(covers(shapes@, WinningShape::SevenPairs));
            } else {
                assert(covers(shapes@, WinningShape::ThirteenOrphans));
            }
        }
        if shapes@.len() > 0 {
            let e = shapes@[0];
            assert(shape_valid(e, c, nn));
            if let WinningShape::Standard(s) = e {
                assert(standard_split(c, nn, s.pair, s.groups@));
            }
        }
    }
    shapes
}

/// The kinds that would complete a hand, in kind order.
#[derive(Clone, Debug, PartialEq, Eq)]
pub struct WaitingTiles {
    kinds: Vec<TileKind>,
}

/// Whether one more tile of the kind at `k` completes the counts `c`.
pub open spec fn is_wait(c: Seq<u8>, declared: int, k: int) -> bool {
    c[k] < 4 && has_winning_shape(c.update(k, (c[k] + 1) as u8), declared)
}

/// Whether `kinds` lists, in kind order, exactly the kinds that complete `tiles` with
/// `declared` groups already called; nothing when the tiles hold a fifth copy of a kind.
pub open spec fn waits_of(kinds: Seq<TileKind>, tiles: Seq<Tile>, declared: int) -> bool {
    &&& forall|i: int| 0 <= i < kinds.len() ==> #[trigger] kinds[i]@ < 34
    &&& forall|i: int, j: int| 0 <= i < j < kinds.len() ==> #[trigger] kinds[i]@ < #[trigger] kinds[j]@
    &&& forall|k: int|
        #![trigger kind_listed(kinds, k)]
        #![trigger is_wait(counts_of_tiles(tiles), declared, k)]
        0 <= k < 34 ==> (kind_listed(kinds, k) <==> ((forall|m: int|
            0 <= m < 34 ==> #[trigger] count_kind(tiles, m) <= 4) && is_wait(
            counts_of_tiles(tiles),
            declared,
            k,
        )))
}

/// Some entry of `kinds` is the kind at `k`.
pub open spec fn kind_listed(kinds: Seq<TileKind>, k: int) -> bool {
    exists|i: int| 0 <= i < kinds.len() && #[trigger] kinds[i]@ == k
}

impl WaitingTiles {
    pub closed spec fn spec_kinds(&self) -> Seq<TileKind> {
        self.kinds@
    }

    pub fn kinds(&self) -> (r: &[TileKind])
        ensures
            r@ == self.spec_kinds(),
    {
        self.kinds.as_slice()
    }

    pub fn contains(&self, kind: TileKind) -> (r: bool)
        ensures
            r == self.spec_kinds().contains(kind),
    {
        let mut i: usize = 0;
        while i < self.kinds.len()
            invariant
                i <= self.kinds@.len(),
                forall|j: int| 0 <= j < i ==> self.kinds@[j] != kind,
            decreases self.kinds@.len() - i,
        {
            if self.kinds[i].index() == kind.index() {
                assert(self.kinds@[i as int] == kind);
                return true;
            }
            i = i + 1;
        }
        false
    }

    pub fn is_empty(&self) -> (r: bool)
        ensures
            r == (self.spec_kinds().len() == 0),
    {
        self.kinds.len() == 0
    }

    /// Whether both list the same kinds.
    pub fn same_as(&self, other: &WaitingTiles) -> (r: bool)
        ensures
            r == (self.spec_kinds() == other.spec_kinds()),
    {
        if self.kinds.len() != other.kinds.len() {
            return false;
        }
        let mut i: usize = 0;
        while i < self.kinds.len()
            invariant
                i <= self.kinds@.len(),
                self.kinds@.len() == other.kinds@.len(),
                forall|j: int| 0 <= j < i ==> self.kinds@[j] == other.kinds@[j],
            decreases self.kinds@.len() - i,
        {
            if self.kinds[i].index() != other.kinds[i].index() {
                return false;
            }
            i = i + 1;
        }
        assert(self.kinds@ =~= other.kinds@);
        true
    }
}

/// The kinds that would complete `concealed` with `declared` groups already called.
pub fn waiting_tiles(concealed: &[Tile], declared: usize) -> (r: WaitingTiles)
    ensures
        waits_of(r.spec_kinds(), concealed@, declared as int),
{
    let mut counts = match TileCounts::from_tiles(concealed) {
        Ok(counts) => counts,
        Err(_) => {
            let r = WaitingTiles { kinds: Vec::new() };
            return r;
        },
    };
    let ghost c = counts.spec_values();
    let mut kinds: Vec<TileKind> = Vec::new();
    let mut index: usize = 0;
    while index < 34
        invariant
            counts.wf(),
            counts.spec_values() == c,
            c == counts_of_tiles(concealed@),
            index <= 34,
            forall|i: int, j: int| 0 <= i < j < kinds@.len() ==> #[trigger] kinds@[i]@ < #[trigger] kinds@[j]@,
            forall|i: int| 0 <= i < kinds@.len() ==> #[trigger] kinds@[i]@ < index,
            forall|k: int|
                0 <= k < index ==> ((exists|i: int| 0 <= i < kinds@.len() && #[trigger] kinds@[i]@ == k)
                    <==> is_wait(c, declared as int, k)),
        decreases 34 - index,
    {
        let kind = match TileKind::from_index(index as u8) {
            Ok(kind) => kind,
            Err(_) => vstd::pervasive::unreached(),
        };
        let ghost before = kinds@;
        if counts.get(kind) < 4 {
            match counts.add(kind) {
                Ok(()) => {},
                Err(_) => vstd::pervasive::unreached(),
            }
            let found = winning_shapes(&counts, declared);
            if found.len() > 0 {
                kinds.push(kind);
            }
            counts.remove(kind);
            assert(counts.spec_values() =~= c);
        }
        proof {
            assert forall|k: int| 0 <= k < index + 1 implies ((exists|i: int| 0 <= i < kinds@.len() && #[trigger] kinds@[i]@ == k)
                <==> is_wait(c, declared as int, k)) by {
                if k < index {
                    if exists|i: int| 0 <= i < kinds@.len() && #[trigger] kinds@[i]@ == k {
                        let i = choose|i: int| 0 <= i < kinds@.len() && #[trigger] kinds@[i]@ == k;
                        assert(i < before.len());
                        assert(before[i]@ == k);
                    }
                    if exists|i: int| 0 <= i < before.len() && #[trigger] before[i]@ == k {
                        let i = choose|i: int| 0 <= i < before.len() && #[trigger] before[i]@ == k;
                        assert(kinds@[i] == before[i]);
                    }
                } else {
                    if kinds@.len() > before.len() {
                        assert(kinds@[before.len() as int]@ == k);
                    } else {
                        assert forall|i: int| 0 <= i < kinds@.len() implies #[trigger] kinds@[i]@ != k by {
                            assert(before[i]@ < index);
                        }
                    }
                }
            }
        }
        index = index + 1;
    }
    WaitingTiles { kinds }
}

/// The tiles that a list of groups uses among the first `m` kinds.
pub open spec fn groups_sum(gs: Seq<Group>, m: int) -> int
    decreases m,
{
    if m <= 0 {
        0
    } else {
        groups_sum(gs, m - 1) + groups_count(gs, m - 1)
    }
}

/// The tiles that one group uses among the first `m` kinds.
pub open spec fn group_sum(g: Group, m: int) -> int
    decreases m,
{
    if m <= 0 {
        0
    } else {
        group_sum(g, m - 1) + group_count(g, m - 1)
    }
}

proof fn lemma_group_sum(g: Group, m: int)
    requires
        valid_group(g),
        0 <= m,
    ensures
        group_sum(g, m) == match g {
            Group::Sequence(s) => if m <= s@ {
                0
            } else if m >= s@ + 3 {
                3
            } else {
                m - s@
            },
            Group::Triplet(k) => if m <= k@ {
                0
            } else {
                3int
            },
        },
    decreases m,
{
    if m > 0 {
        lemma_group_sum(g, m - 1);
    }
}

proof fn lemma_groups_sum_split(gs: Seq<Group>, m: int)
    requires
        gs.len() > 0,
    ensures
        groups_sum(gs, m) == groups_sum(gs.drop_last(), m) + group_sum(gs.last(), m),
    decreases m,
{
    if m > 0 {
        lemma_groups_sum_split(gs, m - 1);
    }
}

proof fn lemma_groups_sum_total(gs: Seq<Group>)
    requires
        all_valid(gs),
    ensures
        groups_sum(gs, 34) == 3 * gs.len(),
    decreases gs.len(),
{
    if gs.len() == 0 {
        lemma_groups_sum_empty(gs, 34);
    } else {
        assert(valid_group(gs[gs.len() - 1]));
        assert(all_valid(gs.drop_last()));
        lemma_groups_sum_total(gs.drop_last());
        lemma_groups_sum_split(gs, 34);
        lemma_group_sum(gs.last(), 34);
    }
}

proof fn lemma_groups_sum_empty(gs: Seq<Group>, m: int)
    requires
        gs.len() == 0,
    ensures
        groups_sum(gs, m) == 0,
    decreases m,
{
    if m > 0 {
        lemma_groups_sum_empty(gs, m - 1);
    }
}

proof fn lemma_prefix_matches(c: Seq<u8>, n: int, gs: Seq<Group>, m: int)
    requires
        decomposes(c, n, gs),
        0 <= m <= 34,
    ensures
        prefix_sum(c, m) == groups_sum(gs, m),
    decreases m,
{
    if m > 0 {
        lemma_prefix_matches(c, n, gs, m - 1);
        assert(groups_count(gs, m - 1) == c[m - 1]);
    }
}

/// `n` groups use three tiles each.
pub proof fn lemma_decomposes_total(c: Seq<u8>, n: int, gs: Seq<Group>)
    requires
        decomposes(c, n, gs),
        c.len() == 34,
    ensures
        0 <= n,
        total_of(c) == 3 * n,
{
    lemma_prefix_matches(c, n, gs, 34);
    lemma_groups_sum_total(gs);
}

} // verus!
