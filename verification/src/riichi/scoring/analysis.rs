use vstd::prelude::*;

use crate::riichi::hand::{Meld, MeldKind, WinQuery, WinSource};
use crate::riichi::tile::{Tile, TileKind};
use crate::riichi::tile_set::count_kind;

use super::counts::{TileCounts, counts_of_tiles, total_of};
use super::result::{HandShape, WaitKind};
use super::shape::{
    Group, StandardShape, WinningShape, concealed_groups, covers, entry_has, group_key, groups_sorted,
    is_orphan_index, is_seven_pairs_counts, is_thirteen_orphans_counts, same_shape, shape_valid,
    standard_split, winning_shapes,
};

verus! {

broadcast use {TileKind::lemma_view_injective, TileKind::lemma_spec_at};

#[derive(Clone, Copy, Debug, PartialEq, Eq, Structural)]
pub(crate) enum CompleteGroupKind {
    Sequence(TileKind),
    Triplet(TileKind),
    Kan(TileKind),
}

/// A finished group of a winning hand, concealed or open.
#[derive(Clone, Copy, Debug, PartialEq, Eq, Structural)]
pub(crate) struct CompleteGroup {
    pub(crate) kind: CompleteGroupKind,
    pub(crate) open: bool,
}

/// One way to read a winning hand: its shape, how the winning tile completed it, and its
/// groups, with the tile counts the patterns are judged on.
pub(crate) struct Interpretation {
    pub(crate) shape: HandShape,
    pub(crate) wait: WaitKind,
    pub(crate) pair: Option<TileKind>,
    pub(crate) groups: Vec<CompleteGroup>,
    pub(crate) all_tiles: Vec<Tile>,
    pub(crate) pre_win_counts: TileCounts,
    pub(crate) concealed_counts: TileCounts,
}

/// The concealed tiles of the winner once the winning tile is in the hand.
pub(crate) open spec fn hand_tiles(q: WinQuery) -> Seq<Tile> {
    let concealed = q.spec_player().spec_concealed();
    if q.spec_source() is Tsumo {
        concealed
    } else {
        concealed.push(q.spec_winning_tile())
    }
}

/// The tiles of the declared melds, meld by meld.
pub(crate) open spec fn meld_tiles(melds: Seq<Meld>) -> Seq<Tile>
    decreases melds.len(),
{
    if melds.len() == 0 {
        Seq::empty()
    } else {
        meld_tiles(melds.drop_last()) + melds.last().spec_tiles()
    }
}

/// Every meld holds at least one tile.
pub(crate) open spec fn melds_nonempty(melds: Seq<Meld>) -> bool {
    forall|i: int| 0 <= i < melds.len() ==> #[trigger] melds[i].spec_tiles().len() > 0
}

/// The lowest kind index among the tiles.
pub(crate) open spec fn lowest_kind(tiles: Seq<Tile>) -> int
    decreases tiles.len(),
{
    if tiles.len() <= 1 {
        tiles[0].spec_kind()@ as int
    } else {
        let rest = lowest_kind(tiles.drop_last());
        let last = tiles.last().spec_kind()@ as int;
        if last < rest {
            last
        } else {
            rest
        }
    }
}

/// The group a meld stands for: a chi is a sequence from its lowest tile, a pon a triplet and
/// every kan a kan; all but a concealed kan are open.
pub(crate) open spec fn declared_group(m: Meld) -> CompleteGroup {
    CompleteGroup {
        kind: match m.spec_kind() {
            MeldKind::Chi => CompleteGroupKind::Sequence(TileKind::spec_at(lowest_kind(m.spec_tiles()))),
            MeldKind::Pon => CompleteGroupKind::Triplet(m.spec_tiles()[0].spec_kind()),
            _ => CompleteGroupKind::Kan(m.spec_tiles()[0].spec_kind()),
        },
        open: m.spec_kind() != MeldKind::ConcealedKan,
    }
}

pub(crate) open spec fn declared_groups(melds: Seq<Meld>) -> Seq<CompleteGroup> {
    melds.map_values(|m: Meld| declared_group(m))
}

pub(crate) open spec fn to_complete(g: Group, open: bool) -> CompleteGroup {
    CompleteGroup {
        kind: match g {
            Group::Sequence(start) => CompleteGroupKind::Sequence(start),
            Group::Triplet(kind) => CompleteGroupKind::Triplet(kind),
        },
        open,
    }
}

/// The concealed groups, only the one at `opened` counted as open.
pub(crate) open spec fn complete_groups(gs: Seq<Group>, opened: int) -> Seq<CompleteGroup> {
    Seq::new(gs.len(), |i: int| to_complete(gs[i], i == opened))
}

/// The wait a sequence from `start` had when the kind `winning` completed it.
pub(crate) open spec fn sequence_wait(start: int, winning: int) -> WaitKind {
    if winning == start + 1 {
        WaitKind::Closed
    } else if (start % 9 == 0 && winning == start + 2) || (start % 9 == 6 && winning == start) {
        WaitKind::Edge
    } else {
        WaitKind::TwoSided
    }
}

/// The wait of a suited sequence: the middle tile is a closed wait; otherwise the two held
/// tiles are neighbours, and the wait is two-sided when both the kind below the lower and the
/// kind above the higher exist in the suit, and an edge wait when one of them falls outside it
/// (1-2 waiting on 3, 8-9 waiting on 7). So 7-8-9 completed by its 7 and 1-2-3 completed by its
/// 3 are edge waits, and 4-5-6 completed by its 4 or its 6 is two-sided.
pub(crate) proof fn law_sequence_wait(start: int, winning: int)
    requires
        0 <= start < 27,
        start % 9 <= 6,
        start <= winning <= start + 2,
    ensures
        winning == start + 1 ==> sequence_wait(start, winning) == WaitKind::Closed,
        winning != start + 1 ==> {
            let low = if winning == start { start + 1 } else { start };
            let below_in_suit = low % 9 >= 1;
            let above_in_suit = (low + 1) % 9 <= 7;
            sequence_wait(start, winning) == (if below_in_suit && above_in_suit {
                WaitKind::TwoSided
            } else {
                WaitKind::Edge
            })
        },
        start % 9 == 6 && winning == start ==> sequence_wait(start, winning) == WaitKind::Edge,
        start % 9 == 0 && winning == start + 2 ==> sequence_wait(start, winning) == WaitKind::Edge,
{
}

/// Whether the winning kind can be the tile that completed the pair (`pos == -1`) or the
/// group at `pos`.
pub(crate) open spec fn reading_fits(gs: Seq<Group>, pair: TileKind, winning: TileKind, pos: int) -> bool {
    if pos == -1 {
        pair == winning
    } else {
        0 <= pos < gs.len() && match gs[pos] {
            Group::Triplet(kind) => kind == winning,
            Group::Sequence(start) => start@ <= winning@ <= start@ + 2,
        }
    }
}

pub(crate) open spec fn reading_wait(gs: Seq<Group>, winning: TileKind, pos: int) -> WaitKind {
    if pos == -1 {
        WaitKind::Pair
    } else {
        match gs[pos] {
            Group::Triplet(_) => WaitKind::DoublePair,
            Group::Sequence(start) => sequence_wait(start@ as int, winning@ as int),
        }
    }
}

/// A triplet completed by a discard counts as open.
pub(crate) open spec fn reading_opened(gs: Seq<Group>, pos: int, ron: bool) -> int {
    if pos >= 0 && ron && gs[pos] is Triplet {
        pos
    } else {
        -1
    }
}

pub(crate) open spec fn winning_kind(q: WinQuery) -> TileKind {
    q.spec_winning_tile().spec_kind()
}

pub(crate) open spec fn hand_counts(q: WinQuery) -> Seq<u8> {
    counts_of_tiles(hand_tiles(q))
}

/// What every reading of the winner's hand shares: all its tiles and its counts.
pub(crate) open spec fn shared_parts(it: Interpretation, q: WinQuery) -> bool {
    let c = hand_counts(q);
    let w = winning_kind(q)@ as int;
    &&& it.all_tiles@ == hand_tiles(q) + meld_tiles(q.spec_player().spec_melds())
    &&& forall|k: int| 0 <= k < 34 ==> #[trigger] count_kind(hand_tiles(q), k) <= 4
    &&& it.concealed_counts.wf()
    &&& it.concealed_counts.spec_values() == c
    &&& c[w] > 0
    &&& it.pre_win_counts.wf()
    &&& it.pre_win_counts.spec_values() == c.update(w, (c[w] - 1) as u8)
}

/// A standard reading from the pair `pair`, the concealed groups `gs` and the place `pos`
/// of the winning tile.
pub(crate) open spec fn standard_reading(it: Interpretation, q: WinQuery, gs: Seq<Group>, pos: int) -> bool {
    let melds = q.spec_player().spec_melds();
    let w = winning_kind(q);
    let ron = !(q.spec_source() is Tsumo);
    &&& it.shape == HandShape::Standard
    &&& it.pair is Some
    &&& standard_split(hand_counts(q), concealed_groups(melds.len() as int), it.pair->0, gs)
    &&& groups_sorted(gs)
    &&& reading_fits(gs, it.pair->0, w, pos)
    &&& it.wait == reading_wait(gs, w, pos)
    &&& it.groups@ == complete_groups(gs, reading_opened(gs, pos, ron)) + declared_groups(melds)
}

/// Every terminal and honor was held once before the winning tile.
pub(crate) open spec fn thirteen_sided(pre: Seq<u8>) -> bool {
    forall|k: int| 0 <= k < 34 && is_orphan_index(k) ==> #[trigger] pre[k] == 1
}

/// Whether `it` is a correct reading of the winner's hand.
pub(crate) open spec fn is_reading(it: Interpretation, q: WinQuery) -> bool {
    let melds = q.spec_player().spec_melds();
    let c = hand_counts(q);
    &&& shared_parts(it, q)
    &&& match it.shape {
        HandShape::Standard => exists|gs: Seq<Group>, pos: int| standard_reading(it, q, gs, pos),
        HandShape::SevenPairs => {
            &&& it.wait == WaitKind::Pair
            &&& it.pair is None
            &&& it.groups@.len() == 0
            &&& melds.len() == 0
            &&& total_of(c) == 14
            &&& is_seven_pairs_counts(c)
        },
        HandShape::ThirteenOrphans => {
            &&& it.wait == (if thirteen_sided(it.pre_win_counts.spec_values()) {
                WaitKind::ThirteenSided
            } else {
                WaitKind::Pair
            })
            &&& it.pair is None
            &&& it.groups@.len() == 0
            &&& melds.len() == 0
            &&& total_of(c) == 14
            &&& is_thirteen_orphans_counts(c)
        },
    }
}

/// Two readings that agree on everything the scoring looks at.
pub(crate) open spec fn same_reading(a: Interpretation, b: Interpretation) -> bool {
    &&& a.shape == b.shape
    &&& a.wait == b.wait
    &&& a.pair == b.pair
    &&& a.groups@ == b.groups@
    &&& a.all_tiles@ == b.all_tiles@
    &&& a.pre_win_counts.spec_values() == b.pre_win_counts.spec_values()
    &&& a.concealed_counts.spec_values() == b.concealed_counts.spec_values()
}

/// Two group lists in key order with the same groups are equal.
proof fn lemma_sorted_unique(a: Seq<Group>, b: Seq<Group>)
    requires
        super::shape::all_valid(a),
        super::shape::all_valid(b),
        groups_sorted(a),
        groups_sorted(b),
        a.to_multiset() == b.to_multiset(),
    ensures
        a == b,
    decreases a.len(),
{
    broadcast use {
        vstd::seq_lib::to_multiset_remove,
        vstd::seq_lib::to_multiset_contains,
        vstd::seq_lib::to_multiset_len,
        vstd::multiset::group_multiset_axioms,
    };

    if a.len() == 0 {
        assert(b.to_multiset().len() == 0);
        assert(b =~= a);
    } else {
        assert(a.to_multiset().len() == a.len());
        assert(b.to_multiset().len() == b.len());
        assert(b.len() == a.len());
        assert(a.contains(a[0]));
        assert(a.to_multiset().count(a[0]) > 0);
        assert(b.to_multiset().count(a[0]) > 0);
        assert(b.contains(a[0]));
        assert(b.contains(b[0]));
        assert(b.to_multiset().count(b[0]) > 0);
        assert(a.to_multiset().count(b[0]) > 0);
        assert(a.contains(b[0]));
        let i = choose|i: int| 0 <= i < b.len() && b[i] == a[0];
        let j = choose|j: int| 0 <= j < a.len() && a[j] == b[0];
        assert(group_key(b[0]) <= group_key(b[i]));
        assert(group_key(a[0]) <= group_key(a[j]));
        assert(super::shape::valid_group(a[0]));
        assert(super::shape::valid_group(b[0]));
        assert(group_key(a[0]) == group_key(b[0]));
        assert(a[0] == b[0]) by {
            match (a[0], b[0]) {
                (Group::Sequence(x), Group::Sequence(y)) => {},
                (Group::Triplet(x), Group::Triplet(y)) => {},
                (Group::Sequence(x), Group::Triplet(y)) => {},
                (Group::Triplet(x), Group::Sequence(y)) => {},
            }
        }
        assert(a.remove(0) =~= a.drop_first());
        assert(b.remove(0) =~= b.drop_first());
        assert(super::shape::all_valid(a.drop_first()));
        assert(super::shape::all_valid(b.drop_first()));
        lemma_sorted_unique(a.drop_first(), b.drop_first());
        assert(a =~= seq![a[0]] + a.drop_first());
        assert(b =~= seq![b[0]] + b.drop_first());
    }
}

/// The group a declared meld stands for.
fn declared_group_of(m: &Meld) -> (r: CompleteGroup)
    requires
        m.spec_tiles().len() > 0,
    ensures
        r == declared_group(*m),
{
    match m.kind() {
        MeldKind::Chi => {
            let tiles = m.tiles();
            let mut low = tiles[0].kind();
            let mut i: usize = 1;
            while i < tiles.len()
                invariant
                    1 <= i <= tiles@.len(),
                    tiles@ == m.spec_tiles(),
                    low@ == lowest_kind(tiles@.take(i as int)),
                decreases tiles@.len() - i,
            {
                let kind = tiles[i].kind();
                assert(tiles@.take(i + 1).drop_last() =~= tiles@.take(i as int));
                if kind.index() < low.index() {
                    low = kind;
                }
                i = i + 1;
            }
            assert(tiles@.take(i as int) =~= tiles@);
            assert(TileKind::spec_at(low@ as int)@ == low@);
            assert(TileKind::spec_at(low@ as int) == low);
            CompleteGroup { kind: CompleteGroupKind::Sequence(low), open: true }
        },
        MeldKind::Pon => CompleteGroup { kind: CompleteGroupKind::Triplet(m.tile_kind()), open: true },
        MeldKind::ConcealedKan => CompleteGroup {
            kind: CompleteGroupKind::Kan(m.tile_kind()),
            open: false,
        },
        _ => CompleteGroup { kind: CompleteGroupKind::Kan(m.tile_kind()), open: true },
    }
}

pub(crate) fn copy_tiles(tiles: &[Tile]) -> (r: Vec<Tile>)
    ensures
        r@ == tiles@,
{
    let mut out: Vec<Tile> = Vec::new();
    let mut i: usize = 0;
    while i < tiles.len()
        invariant
            i <= tiles@.len(),
            out@ == tiles@.take(i as int),
        decreases tiles@.len() - i,
    {
        out.push(tiles[i]);
        i = i + 1;
        assert(out@ =~= tiles@.take(i as int));
    }
    assert(tiles@.take(i as int) =~= tiles@);
    out
}

/// The parts of a reading that come from the hand rather than from the shape.
pub(crate) open spec fn entry_parts(it: Interpretation, all_tiles: Seq<Tile>, pre: Seq<u8>, conc: Seq<u8>) -> bool {
    &&& it.all_tiles@ == all_tiles
    &&& it.pre_win_counts.wf()
    &&& it.pre_win_counts.spec_values() == pre
    &&& it.concealed_counts.wf()
    &&& it.concealed_counts.spec_values() == conc
}

/// The reading of a standard shape with the winning tile at `pos`.
pub(crate) open spec fn entry_reads(
    it: Interpretation,
    st: StandardShape,
    winning: TileKind,
    pos: int,
    ron: bool,
    declared: Seq<CompleteGroup>,
) -> bool {
    &&& it.shape == HandShape::Standard
    &&& it.pair == Some(st.pair)
    &&& it.wait == reading_wait(st.groups@, winning, pos)
    &&& it.groups@ == complete_groups(st.groups@, reading_opened(st.groups@, pos, ron)) + declared
}

/// Builds one standard reading from a shape.
fn push_standard(
    results: &mut Vec<Interpretation>,
    standard: &StandardShape,
    declared: &Vec<CompleteGroup>,
    all_tiles: &Vec<Tile>,
    pre_win_counts: &TileCounts,
    concealed_counts: &TileCounts,
    wait: WaitKind,
    opened: Option<usize>,
)
    requires
        pre_win_counts.wf(),
        concealed_counts.wf(),
    ensures
        final(results)@.len() == old(results)@.len() + 1,
        final(results)@.drop_last() == old(results)@,
        ({
            let it = final(results)@.last();
            &&& it.shape == HandShape::Standard
            &&& it.wait == wait
            &&& it.pair == Some(standard.pair)
            &&& it.groups@ == complete_groups(
                standard.groups@,
                match opened {
                    Some(index) => index as int,
                    None => -1,
                },
            ) + declared@
            &&& it.all_tiles@ == all_tiles@
            &&& it.pre_win_counts.wf()
            &&& it.pre_win_counts.spec_values() == pre_win_counts.spec_values()
            &&& it.concealed_counts.wf()
            &&& it.concealed_counts.spec_values() == concealed_counts.spec_values()
        }),
{
    let ghost open_at: int = match opened {
        Some(index) => index as int,
        None => -1,
    };
    let mut groups: Vec<CompleteGroup> = Vec::new();
    let mut i: usize = 0;
    while i < standard.groups.len()
        invariant
            i <= standard.groups@.len(),
            open_at == (match opened {
                Some(index) => index as int,
                None => -1,
            }),
            groups@ == complete_groups(standard.groups@, open_at).take(i as int),
        decreases standard.groups@.len() - i,
    {
        let open = match opened {
            Some(index) => index == i,
            None => false,
        };
        let group = standard.groups[i];
        let kind = match group {
            Group::Sequence(start) => CompleteGroupKind::Sequence(start),
            Group::Triplet(kind) => CompleteGroupKind::Triplet(kind),
        };
        groups.push(CompleteGroup { kind, open });
        i = i + 1;
        assert(groups@ =~= complete_groups(standard.groups@, open_at).take(i as int));
    }
    let ghost concealed_part = groups@;
    assert(concealed_part =~= complete_groups(standard.groups@, open_at));
    let mut j: usize = 0;
    while j < declared.len()
        invariant
            j <= declared@.len(),
            groups@ == concealed_part + declared@.take(j as int),
        decreases declared@.len() - j,
    {
        groups.push(declared[j]);
        j = j + 1;
        assert(groups@ =~= concealed_part + declared@.take(j as int));
    }
    assert(declared@.take(j as int) =~= declared@);
    let tiles = copy_tiles(all_tiles.as_slice());
    results.push(
        Interpretation {
            shape: HandShape::Standard,
            wait,
            pair: Some(standard.pair),
            groups,
            all_tiles: tiles,
            pre_win_counts: pre_win_counts.duplicate(),
            concealed_counts: concealed_counts.duplicate(),
        },
    );
    assert(results@.drop_last() =~= old(results)@);
}

fn sequence_wait_of(start: TileKind, winning: TileKind) -> (r: WaitKind)
    ensures
        r == sequence_wait(start@ as int, winning@ as int),
{
    let s = start.index();
    let w = winning.index();
    if w == s + 1 {
        WaitKind::Closed
    } else if (s % 9 == 0 && w == s + 2) || (s % 9 == 6 && w == s) {
        WaitKind::Edge
    } else {
        WaitKind::TwoSided
    }
}

/// Adds every reading of one standard shape: the winning tile in the pair, or in any group
/// that holds its kind.
#[verifier::rlimit(40)]
fn append_standard_interpretations(
    results: &mut Vec<Interpretation>,
    standard: &StandardShape,
    declared: &Vec<CompleteGroup>,
    all_tiles: &Vec<Tile>,
    pre_win_counts: &TileCounts,
    concealed_counts: &TileCounts,
    winning: TileKind,
    ron: bool,
)
    requires
        pre_win_counts.wf(),
        concealed_counts.wf(),
    ensures
        final(results)@.len() >= old(results)@.len(),
        forall|i: int| 0 <= i < old(results)@.len() ==> #[trigger] final(results)@[i] == old(results)@[i],
        forall|i: int|
            old(results)@.len() <= i < final(results)@.len() ==> entry_parts(
                #[trigger] final(results)@[i],
                all_tiles@,
                pre_win_counts.spec_values(),
                concealed_counts.spec_values(),
            ) && exists|pos: int|
                reading_fits(standard.groups@, standard.pair, winning, pos) && #[trigger] entry_reads(
                    final(results)@[i],
                    *standard,
                    winning,
                    pos,
                    ron,
                    declared@,
                ),
        forall|pos: int|
            #[trigger] reading_fits(standard.groups@, standard.pair, winning, pos) ==> exists|i: int|
                old(results)@.len() <= i < final(results)@.len() && #[trigger] entry_reads(
                    final(results)@[i],
                    *standard,
                    winning,
                    pos,
                    ron,
                    declared@,
                ),
{
    let ghost gs = standard.groups@;
    let ghost st = *standard;
    let ghost start = results@.len();
    let ghost initial = results@;
    if standard.pair.index() == winning.index() {
        push_standard(
            results,
            standard,
            declared,
            all_tiles,
            pre_win_counts,
            concealed_counts,
            WaitKind::Pair,
            None,
        );
        proof {
            assert(results@[start as int] == results@.last());
            assert(reading_fits(gs, st.pair, winning, -1));
            assert(entry_reads(results@[start as int], st, winning, -1, ron, declared@));
        }
    }
    let mut index: usize = 0;
    while index < standard.groups.len()
        invariant
            pre_win_counts.wf(),
            concealed_counts.wf(),
            gs == standard.groups@,
            st == *standard,
            index <= gs.len(),
            results@.len() >= start,
            start == initial.len(),
            forall|i: int| 0 <= i < start ==> #[trigger] results@[i] == initial[i],
            forall|i: int|
                start <= i < results@.len() ==> entry_parts(
                    #[trigger] results@[i],
                    all_tiles@,
                    pre_win_counts.spec_values(),
                    concealed_counts.spec_values(),
                ) && exists|pos: int|
                    reading_fits(gs, st.pair, winning, pos) && #[trigger] entry_reads(
                        results@[i],
                        st,
                        winning,
                        pos,
                        ron,
                        declared@,
                    ),
            forall|pos: int|
                pos < index && #[trigger] reading_fits(gs, st.pair, winning, pos) ==> exists|i: int|
                    start <= i < results@.len() && #[trigger] entry_reads(
                        results@[i],
                        st,
                        winning,
                        pos,
                        ron,
                        declared@,
                    ),
        decreases gs.len() - index,
    {
        let ghost before = results@;
        let group = standard.groups[index];
        let ghost pos = index as int;
        let mut pushed = false;
        match group {
            Group::Triplet(kind) => {
                if kind.index() == winning.index() {
                    push_standard(
                        results,
                        standard,
                        declared,
                        all_tiles,
                        pre_win_counts,
                        concealed_counts,
                        WaitKind::DoublePair,
                        if ron {
                            Some(index)
                        } else {
                            None
                        },
                    );
                    pushed = true;
                }
            },
            Group::Sequence(first) => {
                let s = first.index();
                let w = winning.index();
                if s <= w && w <= s + 2 {
                    let wait = sequence_wait_of(first, winning);
                    push_standard(
                        results,
                        standard,
                        declared,
                        all_tiles,
                        pre_win_counts,
                        concealed_counts,
                        wait,
                        None,
                    );
                    pushed = true;
                }
            },
        }
        proof {
            assert(pushed == reading_fits(gs, st.pair, winning, pos));
            if pushed {
                let last = before.len() as int;
                assert(results@[last] == results@.last());
                assert(entry_reads(results@[last], st, winning, pos, ron, declared@));
                assert forall|i: int| 0 <= i < before.len() implies #[trigger] results@[i] == before[i] by {
                    assert(results@.drop_last()[i] == results@[i]);
                }
            } else {
                assert(results@ == before);
            }
        }
        index = index + 1;
    }
}

/// Every reading of the winner's hand with the winning tile, as the patterns judge it.
#[verifier::rlimit(100)]
#[verifier::spinoff_prover]
pub(crate) fn interpretations(q: WinQuery) -> (r: Vec<Interpretation>)
    requires
        melds_nonempty(q.spec_player().spec_melds()),
    ensures
        forall|i: int| 0 <= i < r@.len() ==> is_reading(#[trigger] r@[i], q),
        forall|it: Interpretation| #[trigger] is_reading(it, q) ==> exists|i: int|
            0 <= i < r@.len() && same_reading(#[trigger] r@[i], it),
{
    let player = q.player();
    let melds = player.melds();
    let winning_tile = q.winning_tile();
    let winning = winning_tile.kind();
    let ron = match q.source() {
        WinSource::Tsumo(_) => false,
        _ => true,
    };
    let mut concealed = copy_tiles(player.concealed());
    if ron {
        concealed.push(winning_tile);
    }
    assert(concealed@ == hand_tiles(q));
    let concealed_counts = match TileCounts::from_tiles(concealed.as_slice()) {
        Ok(counts) => counts,
        Err(_) => {
            return Vec::new();
        },
    };
    let ghost c = concealed_counts.spec_values();
    let mut pre_win_counts = concealed_counts.duplicate();
    if !pre_win_counts.remove(winning) {
        return Vec::new();
    }
    let mut all_tiles = copy_tiles(concealed.as_slice());
    let mut declared: Vec<CompleteGroup> = Vec::new();
    let mut m: usize = 0;
    while m < melds.len()
        invariant
            m <= melds@.len(),
            melds@ == q.spec_player().spec_melds(),
            melds_nonempty(melds@),
            all_tiles@ == hand_tiles(q) + meld_tiles(melds@.take(m as int)),
            declared@ == declared_groups(melds@.take(m as int)),
        decreases melds@.len() - m,
    {
        let meld = &melds[m];
        let tiles = meld.tiles();
        let ghost before = all_tiles@;
        let mut t: usize = 0;
        while t < tiles.len()
            invariant
                t <= tiles@.len(),
                all_tiles@ == before + tiles@.take(t as int),
            decreases tiles@.len() - t,
        {
            all_tiles.push(tiles[t]);
            t = t + 1;
            assert(all_tiles@ =~= before + tiles@.take(t as int));
        }
        assert(tiles@.take(t as int) =~= tiles@);
        assert(melds@.take(m + 1).drop_last() =~= melds@.take(m as int));
        assert(melds@.take(m + 1).last() == melds@[m as int]);
        declared.push(declared_group_of(meld));
        m = m + 1;
        assert(all_tiles@ =~= hand_tiles(q) + meld_tiles(melds@.take(m as int)));
        assert(declared@ =~= declared_groups(melds@.take(m as int)));
    }
    assert(melds@.take(m as int) =~= melds@);
    let ghost n = concealed_groups(melds@.len() as int);
    let shapes = winning_shapes(&concealed_counts, melds.len());
    let mut results: Vec<Interpretation> = Vec::new();
    let mut s: usize = 0;
    while s < shapes.len()
        invariant
            s <= shapes@.len(),
            concealed_counts.wf(),
            pre_win_counts.wf(),
            concealed_counts.spec_values() == c,
            c == hand_counts(q),
            c[winning@ as int] > 0,
            forall|k: int| 0 <= k < 34 ==> #[trigger] count_kind(hand_tiles(q), k) <= 4,
            pre_win_counts.spec_values() == c.update(winning@ as int, (c[winning@ as int] - 1) as u8),
            all_tiles@ == hand_tiles(q) + meld_tiles(q.spec_player().spec_melds()),
            declared@ == declared_groups(q.spec_player().spec_melds()),
            melds@ == q.spec_player().spec_melds(),
            winning == winning_kind(q),
            ron == !(q.spec_source() is Tsumo),
            melds@.len() <= 4 ==> forall|i: int| 0 <= i < shapes@.len() ==> shape_valid(#[trigger] shapes@[i], c, 4 - melds@.len()),
            (shapes@.len() > 0) == super::shape::has_winning_shape(c, melds@.len() as int),
            forall|i: int| 0 <= i < results@.len() ==> is_reading(#[trigger] results@[i], q),
            forall|j: int, pos: int|
                0 <= j < s && shapes@[j] is Standard && #[trigger] reading_fits(
                    shapes@[j]->0.groups@,
                    shapes@[j]->0.pair,
                    winning,
                    pos,
                ) ==> exists|i: int|
                    0 <= i < results@.len() && #[trigger] entry_reads(results@[i], shapes@[j]->0, winning, pos, ron, declared@),
            forall|j: int| 0 <= j < s && #[trigger] shapes@[j] == WinningShape::SevenPairs ==> exists|i: int|
                0 <= i < results@.len() && (#[trigger] results@[i]).shape == HandShape::SevenPairs,
            forall|j: int| 0 <= j < s && #[trigger] shapes@[j] == WinningShape::ThirteenOrphans ==> exists|i: int|
                0 <= i < results@.len() && (#[trigger] results@[i]).shape == HandShape::ThirteenOrphans,
        decreases shapes@.len() - s,
    {
        let ghost before = results@;
        proof {
            assert(shapes@.len() > 0);
            assert(melds@.len() <= 4);
            assert(total_of(c) == (4 - melds@.len()) * 3 + 2);
            assert(shape_valid(shapes@[s as int], c, 4 - melds@.len()));
        }
        add_readings(
            &mut results,
            &shapes[s],
            &declared,
            &all_tiles,
            &pre_win_counts,
            &concealed_counts,
            winning,
            ron,
            Ghost(q),
        );
        proof {
            assert forall|i: int| 0 <= i < before.len() implies #[trigger] results@[i] == before[i] by {}
            assert forall|j: int, pos: int|
                0 <= j < s + 1 && shapes@[j] is Standard && #[trigger] reading_fits(
                    shapes@[j]->0.groups@,
                    shapes@[j]->0.pair,
                    winning,
                    pos,
                ) implies exists|i: int|
                    0 <= i < results@.len() && #[trigger] entry_reads(results@[i], shapes@[j]->0, winning, pos, ron, declared@) by {
                if j < s {
                    let i = choose|i: int|
                        0 <= i < before.len() && #[trigger] entry_reads(before[i], shapes@[j]->0, winning, pos, ron, declared@);
                    assert(results@[i] == before[i]);
                }
            }
            assert forall|j: int| 0 <= j < s + 1 && #[trigger] shapes@[j] == WinningShape::SevenPairs implies exists|i: int|
                0 <= i < results@.len() && (#[trigger] results@[i]).shape == HandShape::SevenPairs by {
                if j < s {
                    let i = choose|i: int| 0 <= i < before.len() && (#[trigger] before[i]).shape == HandShape::SevenPairs;
                    assert(results@[i] == before[i]);
                }
            }
            assert forall|j: int| 0 <= j < s + 1 && #[trigger] shapes@[j] == WinningShape::ThirteenOrphans implies exists|i: int|
                0 <= i < results@.len() && (#[trigger] results@[i]).shape == HandShape::ThirteenOrphans by {
                if j < s {
                    let i = choose|i: int| 0 <= i < before.len() && (#[trigger] before[i]).shape == HandShape::ThirteenOrphans;
                    assert(results@[i] == before[i]);
                }
            }
        }
        s = s + 1;
    }
    proof {
        assert forall|it: Interpretation| #[trigger] is_reading(it, q) implies exists|i: int|
            0 <= i < results@.len() && same_reading(#[trigger] results@[i], it) by {
            lemma_reading_covered(it, q, shapes@, results@, declared@, winning, ron, c);
        }
    }
    results
}

/// Adds the readings of one winning shape.
#[verifier::rlimit(40)]
fn add_readings(
    results: &mut Vec<Interpretation>,
    shape: &WinningShape,
    declared: &Vec<CompleteGroup>,
    all_tiles: &Vec<Tile>,
    pre_win_counts: &TileCounts,
    concealed_counts: &TileCounts,
    winning: TileKind,
    ron: bool,
    Ghost(q): Ghost<WinQuery>,
)
    requires
        concealed_counts.wf(),
        pre_win_counts.wf(),
        concealed_counts.spec_values() == hand_counts(q),
        hand_counts(q)[winning@ as int] > 0,
        forall|k: int| 0 <= k < 34 ==> #[trigger] count_kind(hand_tiles(q), k) <= 4,
        pre_win_counts.spec_values() == hand_counts(q).update(
            winning@ as int,
            (hand_counts(q)[winning@ as int] - 1) as u8,
        ),
        all_tiles@ == hand_tiles(q) + meld_tiles(q.spec_player().spec_melds()),
        declared@ == declared_groups(q.spec_player().spec_melds()),
        winning == winning_kind(q),
        ron == !(q.spec_source() is Tsumo),
        q.spec_player().spec_melds().len() <= 4,
        total_of(hand_counts(q)) == (4 - q.spec_player().spec_melds().len()) * 3 + 2,
        shape_valid(*shape, hand_counts(q), 4 - q.spec_player().spec_melds().len()),
    ensures
        final(results)@.len() >= old(results)@.len(),
        forall|i: int| 0 <= i < old(results)@.len() ==> #[trigger] final(results)@[i] == old(results)@[i],
        forall|i: int| old(results)@.len() <= i < final(results)@.len() ==> is_reading(#[trigger] final(results)@[i], q),
        shape is Standard ==> forall|pos: int|
            #[trigger] reading_fits(shape->0.groups@, shape->0.pair, winning, pos) ==> exists|i: int|
                old(results)@.len() <= i < final(results)@.len() && #[trigger] entry_reads(
                    final(results)@[i],
                    shape->0,
                    winning,
                    pos,
                    ron,
                    declared@,
                ),
        *shape == WinningShape::SevenPairs ==> exists|i: int|
            old(results)@.len() <= i < final(results)@.len() && (#[trigger] final(results)@[i]).shape == HandShape::SevenPairs,
        *shape == WinningShape::ThirteenOrphans ==> exists|i: int|
            old(results)@.len() <= i < final(results)@.len() && (#[trigger] final(results)@[i]).shape == HandShape::ThirteenOrphans,
{
    let ghost before = results@;
    match shape {
        WinningShape::Standard(standard) => {
            append_standard_interpretations(
                results,
                standard,
                declared,
                all_tiles,
                pre_win_counts,
                concealed_counts,
                winning,
                ron,
            );
            proof {
                assert forall|i: int| before.len() <= i < results@.len() implies is_reading(#[trigger] results@[i], q) by {
                    let pos = choose|pos: int|
                        reading_fits(standard.groups@, standard.pair, winning, pos) && #[trigger] entry_reads(
                            results@[i],
                            *standard,
                            winning,
                            pos,
                            ron,
                            declared@,
                        );
                    assert(standard_reading(results@[i], q, standard.groups@, pos));
                }
            }
        },
        WinningShape::SevenPairs => {
            results.push(
                Interpretation {
                    shape: HandShape::SevenPairs,
                    wait: WaitKind::Pair,
                    pair: None,
                    groups: Vec::new(),
                    all_tiles: copy_tiles(all_tiles.as_slice()),
                    pre_win_counts: pre_win_counts.duplicate(),
                    concealed_counts: concealed_counts.duplicate(),
                },
            );
            proof {
                assert(results@[before.len() as int].shape == HandShape::SevenPairs);
                assert(is_reading(results@[before.len() as int], q));
            }
        },
        WinningShape::ThirteenOrphans => {
            let mut all_single = true;
            let mut k: usize = 0;
            while k < 34
                invariant
                    k <= 34,
                    pre_win_counts.wf(),
                    all_single == (forall|x: int|
                        0 <= x < k && is_orphan_index(x) ==> #[trigger] pre_win_counts.spec_values()[x] == 1),
                decreases 34 - k,
            {
                let orphan = (k < 27 && (k % 9 == 0 || k % 9 == 8)) || k >= 27;
                if orphan && pre_win_counts.get_index(k) != 1 {
                    all_single = false;
                }
                k = k + 1;
            }
            results.push(
                Interpretation {
                    shape: HandShape::ThirteenOrphans,
                    wait: if all_single {
                        WaitKind::ThirteenSided
                    } else {
                        WaitKind::Pair
                    },
                    pair: None,
                    groups: Vec::new(),
                    all_tiles: copy_tiles(all_tiles.as_slice()),
                    pre_win_counts: pre_win_counts.duplicate(),
                    concealed_counts: concealed_counts.duplicate(),
                },
            );
            proof {
                assert(results@[before.len() as int].shape == HandShape::ThirteenOrphans);
                assert(is_reading(results@[before.len() as int], q));
            }
        },
    }
}

proof fn lemma_reading_covered(
    it: Interpretation,
    q: WinQuery,
    shapes: Seq<WinningShape>,
    results: Seq<Interpretation>,
    declared: Seq<CompleteGroup>,
    winning: TileKind,
    ron: bool,
    c: Seq<u8>,
)
    requires
        is_reading(it, q),
        c == hand_counts(q),
        winning == winning_kind(q),
        ron == !(q.spec_source() is Tsumo),
        declared == declared_groups(q.spec_player().spec_melds()),
        forall|i: int| 0 <= i < results.len() ==> is_reading(#[trigger] results[i], q),
        q.spec_player().spec_melds().len() <= 4 && total_of(c) == (4 - q.spec_player().spec_melds().len()) * 3 + 2 ==> forall|
            p: TileKind,
            gs: Seq<Group>,
        |
            standard_split(c, concealed_groups(q.spec_player().spec_melds().len() as int), p, gs) ==> exists|i: int|
                0 <= i < shapes.len() && entry_has(#[trigger] shapes[i], p, gs),
        q.spec_player().spec_melds().len() <= 4 ==> forall|i: int| 0 <= i < shapes.len() ==> shape_valid(#[trigger] shapes[i], c, 4 - q.spec_player().spec_melds().len()),
        q.spec_player().spec_melds().len() == 0 && total_of(c) == 14 && is_seven_pairs_counts(c)
            ==> covers(shapes, WinningShape::SevenPairs),
        q.spec_player().spec_melds().len() == 0 && total_of(c) == 14 && is_thirteen_orphans_counts(c)
            ==> covers(shapes, WinningShape::ThirteenOrphans),
        forall|j: int, pos: int|
            0 <= j < shapes.len() && shapes[j] is Standard && #[trigger] reading_fits(
                shapes[j]->0.groups@,
                shapes[j]->0.pair,
                winning,
                pos,
            ) ==> exists|i: int|
                0 <= i < results.len() && #[trigger] entry_reads(results[i], shapes[j]->0, winning, pos, ron, declared),
        forall|j: int| 0 <= j < shapes.len() && #[trigger] shapes[j] == WinningShape::SevenPairs ==> exists|i: int|
            0 <= i < results.len() && (#[trigger] results[i]).shape == HandShape::SevenPairs,
        forall|j: int| 0 <= j < shapes.len() && #[trigger] shapes[j] == WinningShape::ThirteenOrphans ==> exists|i: int|
            0 <= i < results.len() && (#[trigger] results[i]).shape == HandShape::ThirteenOrphans,
    ensures
        exists|i: int| 0 <= i < results.len() && same_reading(#[trigger] results[i], it),
{
    let melds = q.spec_player().spec_melds();
    match it.shape {
        HandShape::Standard => {
            let (gs, pos) = choose|gs: Seq<Group>, pos: int| standard_reading(it, q, gs, pos);
            let p = it.pair->0;
            let n = concealed_groups(melds.len() as int);
            assert(standard_split(c, n, p, gs));
            lemma_split_total(c, n, p, gs);
            let j = choose|j: int| 0 <= j < shapes.len() && entry_has(#[trigger] shapes[j], p, gs);
            assert(shape_valid(shapes[j], c, 4 - melds.len()));
            if let WinningShape::Standard(st) = shapes[j] {
                lemma_sorted_unique(st.groups@, gs);
                assert(reading_fits(st.groups@, st.pair, winning, pos));
                let i = choose|i: int|
                    0 <= i < results.len() && #[trigger] entry_reads(results[i], st, winning, pos, ron, declared);
                assert(is_reading(results[i], q));
                assert(same_reading(results[i], it));
            }
        },
        HandShape::SevenPairs => {
            assert(covers(shapes, WinningShape::SevenPairs));
            let j = choose|j: int| 0 <= j < shapes.len() && same_shape(shapes[j], WinningShape::SevenPairs);
            assert(shapes[j] == WinningShape::SevenPairs);
            let i = choose|i: int| 0 <= i < results.len() && (#[trigger] results[i]).shape == HandShape::SevenPairs;
            assert(is_reading(results[i], q));
            assert(results[i].groups@ =~= it.groups@);
            assert(same_reading(results[i], it));
        },
        HandShape::ThirteenOrphans => {
            assert(covers(shapes, WinningShape::ThirteenOrphans));
            let j = choose|j: int| 0 <= j < shapes.len() && same_shape(shapes[j], WinningShape::ThirteenOrphans);
            assert(shapes[j] == WinningShape::ThirteenOrphans);
            let i = choose|i: int| 0 <= i < results.len() && (#[trigger] results[i]).shape == HandShape::ThirteenOrphans;
            assert(is_reading(results[i], q));
            assert(results[i].groups@ =~= it.groups@);
            assert(same_reading(results[i], it));
        },
    }
}

/// A pair and `n` groups use `3n + 2` tiles.
proof fn lemma_split_total(c: Seq<u8>, n: int, p: TileKind, gs: Seq<Group>)
    requires
        standard_split(c, n, p, gs),
        c.len() == 34,
    ensures
        0 <= n,
        total_of(c) == n * 3 + 2,
{
    super::shape::lemma_decomposes_total(c.update(p@ as int, (c[p@ as int] - 2) as u8), n, gs);
    super::counts::lemma_prefix_sum_update(c, p@ as int, (c[p@ as int] - 2) as u8, 34);
}

} // verus!
