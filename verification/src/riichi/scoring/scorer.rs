use vstd::prelude::*;

use crate::riichi::config::RiichiRules;
use crate::riichi::hand::{
    Discard, HandJudge, KanQuery, Meld, PlayerHand, RiichiQuery, WinQuery, WinSource,
};
use crate::riichi::progress::Seat;
use crate::riichi::tile::{Tile, TileId, TileKind};
use crate::riichi::tile_set::count_kind;

use super::analysis::{
    Interpretation, copy_tiles, hand_tiles, interpretations, is_reading, meld_tiles, melds_nonempty, same_reading,
};
use super::counts::{TileCounts, counts_of_tiles};
use super::evaluate::{best_evaluation, evaluate, hand_ok, scores};
use super::result::{HandShape, WinEvaluation};
use super::shape::{WaitingTiles, is_wait, kind_listed, waiting_tiles, waits_of};

verus! {

broadcast use {TileKind::lemma_view_injective, TileKind::lemma_spec_at, TileId::lemma_view_injective};

/// The scorer of riichi hands: waits, wins and their evaluation.
#[derive(Clone, Copy, Debug, Default, PartialEq, Eq)]
pub struct RiichiScorer;

/// One more tile of the kind at `k` completes `tiles` with `declared` groups already called;
/// never for tiles that hold a fifth copy of a kind.
pub open spec fn completes(tiles: Seq<Tile>, declared: int, k: int) -> bool {
    (forall|m: int| 0 <= m < 34 ==> #[trigger] count_kind(tiles, m) <= 4) && is_wait(
        counts_of_tiles(tiles),
        declared,
        k,
    )
}

/// `kinds` lists, in kind order, exactly the kinds that complete `tiles`.
pub open spec fn lists_waits(kinds: Seq<TileKind>, tiles: Seq<Tile>, declared: int) -> bool {
    waits_of(kinds, tiles, declared)
}

/// A hand the scorer can judge: melds of one to four tiles, at most fourteen concealed tiles
/// and no kind more than four times among them, the winning tile and the melds.
pub closed spec fn scorable(q: WinQuery) -> bool {
    hand_ok(q)
}

/// The concealed tiles with the winning tile (already among them on a self-draw).
pub open spec fn with_winning_tile(q: WinQuery) -> Seq<Tile> {
    let concealed = q.spec_player().spec_concealed();
    if q.spec_source() is Tsumo {
        concealed
    } else {
        concealed.push(q.spec_winning_tile())
    }
}

/// What makes a hand one the scorer can judge, stated over the query.
pub proof fn lemma_scorable(q: WinQuery)
    ensures
        scorable(q) <==> {
            let melds = q.spec_player().spec_melds();
            &&& forall|i: int| 0 <= i < melds.len() ==> 0 < (#[trigger] melds[i]).spec_tiles().len() <= 4
            &&& q.spec_player().spec_concealed().len() <= 14
            &&& forall|k: int|
                0 <= k < 34 ==> #[trigger] count_kind(with_winning_tile(q) + meld_tiles_of(melds), k) <= 4
        },
{
    let melds = q.spec_player().spec_melds();
    assert(with_winning_tile(q) == hand_tiles(q));
    assert(meld_tiles_of(melds) == meld_tiles(melds));
    assert((melds_nonempty(melds) && forall|i: int| 0 <= i < melds.len() ==> #[trigger] melds[i].spec_tiles().len() <= 4)
        <==> forall|i: int| 0 <= i < melds.len() ==> 0 < (#[trigger] melds[i]).spec_tiles().len() <= 4);
}

/// No reading of the hand with the winning tile earns a pattern.
pub closed spec fn no_scoring_reading(q: WinQuery) -> bool {
    forall|it: Interpretation| #[trigger] is_reading(it, q) ==> !scores(q, it)
}

/// The hand with the winning tile has a reading as thirteen orphans.
pub closed spec fn reads_as_orphans(q: WinQuery) -> bool {
    exists|it: Interpretation| #[trigger] is_reading(it, q) && it.shape == HandShape::ThirteenOrphans
}

/// A win on the tile of another player's concealed kan is open only to thirteen orphans,
/// and only where the rules allow it; other sources are not restricted here.
pub open spec fn kan_robbery_allowed(q: WinQuery) -> bool {
    q.spec_source() is ConcealedKan ==> q.spec_rules().scoring.kokushi_ankan_chankan && reads_as_orphans(q)
}

/// `e` is the evaluation of a scoring reading of the hand that no other scoring reading
/// outranks by points received, yakuman multiple, han and fu, in that order.
pub closed spec fn is_best_evaluation(e: WinEvaluation, q: WinQuery) -> bool {
    best_evaluation(e, q)
}

/// The tiles of `tiles` whose identity is not among `ids`, in order.
pub open spec fn without_ids(tiles: Seq<Tile>, ids: Seq<TileId>) -> Seq<Tile>
    decreases tiles.len(),
{
    if tiles.len() == 0 {
        Seq::empty()
    } else {
        let rest = without_ids(tiles.drop_last(), ids);
        if ids.contains(tiles.last().spec_id()) {
            rest
        } else {
            rest.push(tiles.last())
        }
    }
}

/// How many discards of the pond are of the kind at `k`.
pub open spec fn discards_of_kind(discards: Seq<Discard>, k: int) -> int
    decreases discards.len(),
{
    if discards.len() == 0 {
        0
    } else {
        discards_of_kind(discards.drop_last(), k) + if discards.last().spec_tile().spec_kind()@ == k {
            1int
        } else {
            0int
        }
    }
}

/// The copies of the kind at `k` that the player can see in their hand, melds and pond.
pub open spec fn known_count(player: PlayerHand, k: int) -> int {
    count_kind(player.spec_concealed(), k) + count_kind(meld_tiles_of(player.spec_melds()), k)
        + discards_of_kind(player.spec_discards(), k)
}

/// The tiles of the melds, meld by meld.
pub closed spec fn meld_tiles_of(melds: Seq<Meld>) -> Seq<Tile> {
    meld_tiles(melds)
}

/// A riichi on `discard` leaves a hand that waits on some kind with a copy still unseen.
pub open spec fn riichi_allowed(player: PlayerHand, discard: Tile) -> bool {
    let remaining = without_ids(player.spec_concealed(), seq![discard.spec_id()]);
    let declared = player.spec_melds().len() as int;
    &&& remaining.len() + 1 == player.spec_concealed().len()
    &&& exists|k: int| 0 <= k < 34 && #[trigger] completes(remaining, declared, k) && known_count(player, k) < 4
}

/// A concealed kan after riichi keeps exactly the waits the hand had before its drawn tile.
pub open spec fn kan_keeps_waits(player: PlayerHand, tile_ids: Seq<TileId>) -> bool {
    let declared = player.spec_melds().len() as int;
    &&& player.spec_drawn_tile() is Some
    &&& {
        let before = without_ids(player.spec_concealed(), seq![player.spec_drawn_tile()->0]);
        let after = without_ids(player.spec_concealed(), tile_ids);
        &&& before.len() + 1 == player.spec_concealed().len()
        &&& after.len() + 4 == player.spec_concealed().len()
        &&& forall|k: int| 0 <= k < 34 ==> #[trigger] completes(before, declared, k) == completes(after, declared + 1, k)
    }
}

/// A ron is refused when the player discarded a tile they now wait on, or is furiten
/// otherwise.
pub open spec fn furiten(player: PlayerHand) -> bool {
    let declared = player.spec_melds().len() as int;
    ||| player.spec_temporary_furiten()
    ||| player.spec_riichi_furiten()
    ||| exists|i: int|
        0 <= i < player.spec_discards().len() && completes(
            player.spec_concealed(),
            declared,
            #[trigger] player.spec_discards()[i].spec_tile().spec_kind()@ as int,
        )
}

/// The player waits on some kind and is furiten.
pub open spec fn waiting_and_furiten(player: PlayerHand) -> bool {
    let declared = player.spec_melds().len() as int;
    &&& exists|k: int| 0 <= k < 34 && #[trigger] completes(player.spec_concealed(), declared, k)
    &&& furiten(player)
}

/// Whether the player waits on some kind and is furiten: temporarily, after declining a win in
/// riichi, or because a kind they wait on lies among their own discards.
pub fn player_furiten(player: &PlayerHand) -> (r: bool)
    ensures
        r == waiting_and_furiten(*player),
{
    let declared = player.melds().len();
    let waits = waiting_tiles(player.concealed(), declared);
    let ghost tiles = player.spec_concealed();
    let ghost d = declared as int;
    if waits.is_empty() {
        proof {
            assert forall|k: int| 0 <= k < 34 implies !#[trigger] completes(tiles, d, k) by {
                if completes(tiles, d, k) {
                    assert(kind_listed(waits.spec_kinds(), k));
                }
            }
        }
        return false;
    }
    proof {
        let k0 = waits.spec_kinds()[0]@ as int;
        assert(kind_listed(waits.spec_kinds(), k0));
        assert(completes(tiles, d, k0));
    }
    if player.is_temporary_furiten() || player.is_riichi_furiten() {
        return true;
    }
    let discards = player.discards();
    let mut i: usize = 0;
    while i < discards.len()
        invariant
            i <= discards@.len(),
            tiles == player.spec_concealed(),
            d == player.spec_melds().len() as int,
            discards@ == player.spec_discards(),
            waits_of(waits.spec_kinds(), tiles, d),
            forall|j: int| 0 <= j < i ==> !completes(tiles, d, #[trigger] discards@[j].spec_tile().spec_kind()@ as int),
        decreases discards@.len() - i,
    {
        let kind = discards[i].tile().kind();
        let kind_index = kind.index();
        if waits.contains(kind) {
            proof {
                let kinds = waits.spec_kinds();
                assert(kinds.contains(kind));
                let x = choose|x: int| 0 <= x < kinds.len() && kinds[x] == kind;
                assert(0 <= x < kinds.len());
                assert(kinds[x]@ == kind@ as int);
                assert(kind_listed(kinds, kind@ as int));
                assert(completes(tiles, d, kind@ as int));
                assert(discards@[i as int].spec_tile().spec_kind()@ == kind@);
            }
            return true;
        }
        proof {
            if completes(tiles, d, kind@ as int) {
                assert(is_wait(counts_of_tiles(tiles), d, kind@ as int));
                assert(0 <= kind@ < 34);
                assert(kind_listed(waits.spec_kinds(), kind@ as int));
                let x = choose|x: int| 0 <= x < waits.spec_kinds().len() && #[trigger] waits.spec_kinds()[x]@ == kind@;
                assert(waits.spec_kinds()[x] == kind);
                assert(waits.spec_kinds().contains(kind));
            }
        }
        i = i + 1;
    }
    false
}

fn without_ids_exec(tiles: &[Tile], ids: &[TileId]) -> (r: Vec<Tile>)
    ensures
        r@ == without_ids(tiles@, ids@),
        r@.len() <= tiles@.len(),
{
    let mut out: Vec<Tile> = Vec::new();
    let mut i: usize = 0;
    while i < tiles.len()
        invariant
            i <= tiles@.len(),
            out@ == without_ids(tiles@.take(i as int), ids@),
            out@.len() <= i,
        decreases tiles@.len() - i,
    {
        assert(tiles@.take(i + 1).drop_last() =~= tiles@.take(i as int));
        let tile = tiles[i];
        let mut listed = false;
        let mut j: usize = 0;
        while j < ids.len()
            invariant
                j <= ids@.len(),
                listed == (exists|x: int| 0 <= x < j && ids@[x] == tile.spec_id()),
            decreases ids@.len() - j,
        {
            if ids[j].value() == tile.id().value() {
                listed = true;
            }
            j = j + 1;
        }
        assert(listed == ids@.contains(tile.spec_id()));
        if !listed {
            out.push(tile);
        }
        i = i + 1;
    }
    assert(tiles@.take(i as int) =~= tiles@);
    out
}

fn count_kind_in(tiles: &[Tile], k: usize) -> (r: usize)
    ensures
        r == count_kind(tiles@, k as int),
        r <= tiles@.len(),
{
    let mut n: usize = 0;
    let mut i: usize = 0;
    while i < tiles.len()
        invariant
            i <= tiles@.len(),
            n <= i,
            n == count_kind(tiles@.take(i as int), k as int),
        decreases tiles@.len() - i,
    {
        assert(tiles@.take(i + 1).drop_last() =~= tiles@.take(i as int));
        if tiles[i].kind().index() == k {
            n = n + 1;
        }
        i = i + 1;
    }
    assert(tiles@.take(i as int) =~= tiles@);
    n
}

fn all_meld_tiles(melds: &[Meld]) -> (r: Vec<Tile>)
    ensures
        r@ == meld_tiles(melds@),
{
    let mut out: Vec<Tile> = Vec::new();
    let mut m: usize = 0;
    while m < melds.len()
        invariant
            m <= melds@.len(),
            out@ == meld_tiles(melds@.take(m as int)),
        decreases melds@.len() - m,
    {
        let tiles = melds[m].tiles();
        let ghost before = out@;
        let mut t: usize = 0;
        while t < tiles.len()
            invariant
                t <= tiles@.len(),
                out@ == before + tiles@.take(t as int),
            decreases tiles@.len() - t,
        {
            out.push(tiles[t]);
            t = t + 1;
            assert(out@ =~= before + tiles@.take(t as int));
        }
        assert(tiles@.take(t as int) =~= tiles@);
        assert(melds@.take(m + 1).drop_last() =~= melds@.take(m as int));
        assert(melds@.take(m + 1).last() == melds@[m as int]);
        m = m + 1;
    }
    assert(melds@.take(m as int) =~= melds@);
    out
}

fn discards_of_kind_exec(discards: &[Discard], k: usize) -> (r: usize)
    ensures
        r == discards_of_kind(discards@, k as int),
        r <= discards@.len(),
{
    let mut n: usize = 0;
    let mut i: usize = 0;
    while i < discards.len()
        invariant
            i <= discards@.len(),
            n <= i,
            n == discards_of_kind(discards@.take(i as int), k as int),
        decreases discards@.len() - i,
    {
        assert(discards@.take(i + 1).drop_last() =~= discards@.take(i as int));
        if discards[i].tile().kind().index() == k {
            n = n + 1;
        }
        i = i + 1;
    }
    assert(discards@.take(i as int) =~= discards@);
    n
}

/// Whether a hand meets what the scorer needs to judge it.
fn has_orphans_reading(q: WinQuery) -> (r: bool)
    requires
        hand_ok(q),
    ensures
        r == reads_as_orphans(q),
{
    let readings = interpretations(q);
    let mut i: usize = 0;
    while i < readings.len()
        invariant
            i <= readings@.len(),
            forall|j: int| 0 <= j < readings@.len() ==> is_reading(#[trigger] readings@[j], q),
            forall|j: int| 0 <= j < i ==> (#[trigger] readings@[j]).shape != HandShape::ThirteenOrphans,
        decreases readings@.len() - i,
    {
        if matches!(readings[i].shape, HandShape::ThirteenOrphans) {
            assert(is_reading(readings@[i as int], q));
            return true;
        }
        i = i + 1;
    }
    assert forall|it: Interpretation| #[trigger] is_reading(it, q) implies it.shape != HandShape::ThirteenOrphans by {
        let j = choose|j: int| 0 <= j < readings@.len() && same_reading(#[trigger] readings@[j], it);
        assert(readings@[j].shape != HandShape::ThirteenOrphans);
    }
    false
}

/// Whether the scorer can judge the hand of `q`.
pub fn scorable_query(q: WinQuery) -> (r: bool)
    ensures
        r == scorable(q),
{
    hand_ok_exec(q)
}

fn hand_ok_exec(q: WinQuery) -> (r: bool)
    ensures
        r == hand_ok(q),
{
    let player = q.player();
    let melds = player.melds();
    let mut m: usize = 0;
    while m < melds.len()
        invariant
            m <= melds@.len(),
            melds@ == q.spec_player().spec_melds(),
            forall|j: int| 0 <= j < m ==> 0 < #[trigger] melds@[j].spec_tiles().len() <= 4,
        decreases melds@.len() - m,
    {
        let n = melds[m].tiles().len();
        if n == 0 || n > 4 {
            return false;
        }
        m = m + 1;
    }
    if player.concealed().len() > 14 {
        return false;
    }
    let mut all = copy_tiles(player.concealed());
    if !matches!(q.source(), WinSource::Tsumo(_)) {
        all.push(q.winning_tile());
    }
    let meld_part = all_meld_tiles(melds);
    let ghost head = all@;
    let mut t: usize = 0;
    while t < meld_part.len()
        invariant
            t <= meld_part@.len(),
            all@ == head + meld_part@.take(t as int),
        decreases meld_part@.len() - t,
    {
        all.push(meld_part[t]);
        t = t + 1;
        assert(all@ =~= head + meld_part@.take(t as int));
    }
    assert(meld_part@.take(t as int) =~= meld_part@);
    assert(all@ == hand_tiles(q) + meld_tiles(q.spec_player().spec_melds()));
    match TileCounts::from_tiles(all.as_slice()) {
        Ok(_) => true,
        Err(_) => false,
    }
}

proof fn lemma_without_nothing(tiles: Seq<Tile>)
    ensures
        without_ids(tiles, Seq::<TileId>::empty()) == tiles,
    decreases tiles.len(),
{
    if tiles.len() > 0 {
        lemma_without_nothing(tiles.drop_last());
        assert(tiles.drop_last().push(tiles.last()) =~= tiles);
    }
}

/// Two kind lists in strict kind order with the same members are equal.
proof fn lemma_same_members(a: Seq<TileKind>, b: Seq<TileKind>)
    requires
        forall|i: int, j: int| 0 <= i < j < a.len() ==> #[trigger] a[i]@ < #[trigger] a[j]@,
        forall|i: int, j: int| 0 <= i < j < b.len() ==> #[trigger] b[i]@ < #[trigger] b[j]@,
        forall|x: TileKind| a.contains(x) <==> b.contains(x),
    ensures
        a == b,
    decreases a.len(),
{
    if a.len() == 0 {
        if b.len() > 0 {
            assert(b.contains(b[0]));
        }
        assert(a =~= b);
    } else {
        assert(a.contains(a[0]));
        assert(b.len() > 0);
        assert(b.contains(b[0]));
        let i = choose|i: int| 0 <= i < b.len() && b[i] == a[0];
        let j = choose|j: int| 0 <= j < a.len() && a[j] == b[0];
        if i > 0 {
            assert(b[0]@ < b[i]@);
        }
        if j > 0 {
            assert(a[0]@ < a[j]@);
        }
        assert(a[0] == b[0]);
        assert forall|x: TileKind| a.drop_first().contains(x) <==> b.drop_first().contains(x) by {
            if a.drop_first().contains(x) {
                let k = choose|k: int| 0 <= k < a.drop_first().len() && a.drop_first()[k] == x;
                assert(a[k + 1] == x);
                assert(a[0]@ < x@);
                assert(b.contains(x));
                let l = choose|l: int| 0 <= l < b.len() && b[l] == x;
                assert(l != 0);
                assert(b.drop_first()[l - 1] == x);
            }
            if b.drop_first().contains(x) {
                let k = choose|k: int| 0 <= k < b.drop_first().len() && b.drop_first()[k] == x;
                assert(b[k + 1] == x);
                assert(b[0]@ < x@);
                assert(a.contains(x));
                let l = choose|l: int| 0 <= l < a.len() && a[l] == x;
                assert(l != 0);
                assert(a.drop_first()[l - 1] == x);
            }
        }
        lemma_same_members(a.drop_first(), b.drop_first());
        assert(a =~= seq![a[0]] + a.drop_first());
        assert(b =~= seq![b[0]] + b.drop_first());
    }
}

impl RiichiScorer {
    /// The kinds that complete the player's concealed tiles, in kind order.
    #[must_use]
    pub fn waiting_tiles(self, player: &PlayerHand) -> (r: WaitingTiles)
        ensures
            lists_waits(r.spec_kinds(), player.spec_concealed(), player.spec_melds().len() as int),
    {
        waiting_tiles(player.concealed(), player.melds().len())
    }

    /// The best evaluation of a win, or `None` when no reading of the hand earns a pattern.
    pub fn evaluate(self, query: WinQuery) -> (r: Option<WinEvaluation>)
        requires
            scorable(query),
        ensures
            (r is None) == no_scoring_reading(query),
            r matches Some(e) ==> is_best_evaluation(e, query),
    {
        evaluate(query)
    }
}

impl HandJudge for RiichiScorer {
    /// A win needs a pattern; a win on another player's tile is refused when furiten. A hand
    /// the scorer cannot judge is refused.
    fn can_win(&self, query: WinQuery) -> (r: bool)
        ensures
            r == (scorable(query) && !no_scoring_reading(query) && kan_robbery_allowed(query) && (
            query.spec_source() is Tsumo || !furiten(query.spec_player()))),
    {
        if !hand_ok_exec(query) {
            return false;
        }
        if evaluate(query).is_none() {
            return false;
        }
        if matches!(query.source(), WinSource::ConcealedKan { .. }) {
            if !query.rules().scoring.kokushi_ankan_chankan || !has_orphans_reading(query) {
                return false;
            }
        }
        if matches!(query.source(), WinSource::Tsumo(_)) {
            return true;
        }
        let player = query.player();
        if player.is_temporary_furiten() || player.is_riichi_furiten() {
            return false;
        }
        let waits = waiting_tiles(player.concealed(), player.melds().len());
        let discards = player.discards();
        let mut i: usize = 0;
        while i < discards.len()
            invariant
                i <= discards@.len(),
                *player == query.spec_player(),
                hand_ok(query),
                !no_scoring_reading(query),
                !(query.spec_source() is Tsumo),
                !player.spec_temporary_furiten() && !player.spec_riichi_furiten(),
                discards@ == player.spec_discards(),
                waits_of(waits.spec_kinds(), player.spec_concealed(), player.spec_melds().len() as int),
                forall|j: int|
                    0 <= j < i ==> !completes(
                        player.spec_concealed(),
                        player.spec_melds().len() as int,
                        #[trigger] discards@[j].spec_tile().spec_kind()@ as int,
                    ),
            decreases discards@.len() - i,
        {
            let kind = discards[i].tile().kind();
            let kind_index = kind.index();
            if waits.contains(kind) {
                proof {
                    let x = choose|x: int| 0 <= x < waits.spec_kinds().len() && waits.spec_kinds()[x] == kind;
                    assert(waits.spec_kinds()[x]@ == kind@);
                    assert(kind_listed(waits.spec_kinds(), kind@ as int));
                    assert(completes(player.spec_concealed(), player.spec_melds().len() as int, kind@ as int));
                    assert(discards@[i as int].spec_tile().spec_kind()@ == kind@);
                    assert(furiten(*player));
                }
                return false;
            }
            proof {
                if completes(player.spec_concealed(), player.spec_melds().len() as int, kind@ as int) {
                    assert(kind_listed(waits.spec_kinds(), kind@ as int));
                    let x = choose|x: int| 0 <= x < waits.spec_kinds().len() && #[trigger] waits.spec_kinds()[x]@ == kind@;
                    assert(waits.spec_kinds()[x] == kind);
                    assert(waits.spec_kinds().contains(kind));
                }
            }
            i = i + 1;
        }
        true
    }

    /// Riichi is allowed when the hand without the declaration tile waits on a kind with a
    /// copy the player has not seen.
    fn can_riichi(&self, query: RiichiQuery) -> (r: bool)
        ensures
            r == riichi_allowed(query.spec_player(), query.spec_discard_tile()),
    {
        let player = query.player();
        let discard = query.discard_tile();
        let ids = [discard.id()];
        let remaining = without_ids_exec(player.concealed(), &ids);
        assert(ids@ == seq![discard.spec_id()]);
        if player.concealed().len() == 0 || remaining.len() != player.concealed().len() - 1 {
            return false;
        }
        let waits = waiting_tiles(remaining.as_slice(), player.melds().len());
        let meld_part = all_meld_tiles(player.melds());
        let kinds = waits.kinds();
        let mut i: usize = 0;
        while i < kinds.len()
            invariant
                i <= kinds@.len(),
                *player == query.spec_player(),
                discard == query.spec_discard_tile(),
                remaining@ == without_ids(player.spec_concealed(), seq![discard.spec_id()]),
                remaining@.len() + 1 == player.spec_concealed().len(),
                kinds@ == waits.spec_kinds(),
                meld_part@ == meld_tiles(player.spec_melds()),
                waits_of(kinds@, remaining@, player.spec_melds().len() as int),
                forall|j: int| 0 <= j < i ==> known_count(*player, #[trigger] kinds@[j]@ as int) >= 4,
            decreases kinds@.len() - i,
        {
            let k = kinds[i].index();
            let in_hand = count_kind_in(player.concealed(), k);
            let in_melds = count_kind_in(meld_part.as_slice(), k);
            let in_pond = discards_of_kind_exec(player.discards(), k);
            if in_hand < 4 && in_melds < 4 && in_pond < 4 && in_hand + in_melds + in_pond < 4 {
                proof {
                    assert(kinds@[i as int]@ == k);
                    assert(kind_listed(kinds@, k as int));
                    assert(completes(remaining@, player.spec_melds().len() as int, k as int));
                }
                return true;
            }
            i = i + 1;
        }
        proof {
            assert forall|k: int| 0 <= k < 34 && #[trigger] completes(remaining@, player.spec_melds().len() as int, k) implies known_count(*player, k) >= 4 by {
                assert(kind_listed(kinds@, k));
                let x = choose|x: int| 0 <= x < kinds@.len() && #[trigger] kinds@[x]@ == k;
            }
        }
        false
    }

    /// A concealed kan after riichi must leave the waits of the hand unchanged.
    fn can_concealed_kan_after_riichi(&self, query: KanQuery) -> (r: bool)
        ensures
            r == kan_keeps_waits(query.spec_player(), query.spec_tile_ids()),
    {
        let player = query.player();
        let drawn = match player.drawn_tile_id() {
            Some(id) => id,
            None => {
                return false;
            },
        };
        let drawn_ids = [drawn];
        let before = without_ids_exec(player.concealed(), &drawn_ids);
        assert(drawn_ids@ == seq![drawn]);
        let kan_ids = query.tile_ids();
        let after = without_ids_exec(player.concealed(), &kan_ids);
        let held = player.concealed().len();
        if held < 4 || before.len() != held - 1 || after.len() != held - 4 {
            return false;
        }
        let declared = player.melds().len();
        if declared > 4 {
            proof {
                assert forall|k: int| 0 <= k < 34 implies #[trigger] completes(before@, declared as int, k) == completes(after@, declared + 1, k) by {}
            }
            return true;
        }
        let waits_before = waiting_tiles(before.as_slice(), declared);
        let waits_after = waiting_tiles(after.as_slice(), declared + 1);
        let same = waits_before.same_as(&waits_after);
        proof {
            let a = waits_before.spec_kinds();
            let b = waits_after.spec_kinds();
            let d = declared as int;
            if same {
                assert forall|k: int| 0 <= k < 34 implies #[trigger] completes(before@, d, k) == completes(after@, d + 1, k) by {
                    assert(kind_listed(a, k) == kind_listed(b, k));
                }
            } else if forall|k: int| 0 <= k < 34 ==> #[trigger] completes(before@, d, k) == completes(after@, d + 1, k) {
                assert forall|x: TileKind| a.contains(x) <==> b.contains(x) by {
                    if a.contains(x) {
                        let i = choose|i: int| 0 <= i < a.len() && a[i] == x;
                        assert(a[i]@ == x@);
                        assert(kind_listed(a, x@ as int));
                        assert(completes(before@, d, x@ as int));
                        assert(kind_listed(b, x@ as int));
                        let j = choose|j: int| 0 <= j < b.len() && #[trigger] b[j]@ == x@;
                        assert(b[j] == x);
                    }
                    if b.contains(x) {
                        let i = choose|i: int| 0 <= i < b.len() && b[i] == x;
                        assert(b[i]@ == x@);
                        assert(kind_listed(b, x@ as int));
                        assert(completes(after@, d + 1, x@ as int));
                        assert(completes(before@, d, x@ as int));
                        assert(kind_listed(a, x@ as int));
                        let j = choose|j: int| 0 <= j < a.len() && #[trigger] a[j]@ == x@;
                        assert(a[j] == x);
                    }
                }
                lemma_same_members(a, b);
            }
        }
        same
    }

    /// A player is tenpai when some kind completes their concealed tiles.
    fn is_tenpai(&self, rules: &RiichiRules, player: &PlayerHand, seat: Seat) -> (r: bool)
        ensures
            r == exists|k: int| 0 <= k < 34 && #[trigger] completes(player.spec_concealed(), player.spec_melds().len() as int, k),
    {
        let waits = waiting_tiles(player.concealed(), player.melds().len());
        proof {
            if exists|k: int| 0 <= k < 34 && #[trigger] completes(player.spec_concealed(), player.spec_melds().len() as int, k) {
                let k = choose|k: int| 0 <= k < 34 && #[trigger] completes(player.spec_concealed(), player.spec_melds().len() as int, k);
                assert(kind_listed(waits.spec_kinds(), k));
            }
            if waits.spec_kinds().len() > 0 {
                let k = waits.spec_kinds()[0]@ as int;
                assert(kind_listed(waits.spec_kinds(), k));
                assert(completes(player.spec_concealed(), player.spec_melds().len() as int, k));
            }
        }
        !waits.is_empty()
    }
}

} // verus!
