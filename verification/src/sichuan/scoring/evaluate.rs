//! Fan of a winning hand: the melds, the concealed tiles with the winning tile, and how the
//! hand was won. The highest base pattern counts alone, the extras add up, and the score
//! caps at [`MAX_FAN`].

use vstd::prelude::*;

use crate::riichi::tile::kind_suit;

use super::super::hand::model::{meld_is_kan, MeldKind};
use super::super::tile::{Suit, TileKind};
use super::shape::{pairs_shape, pairs_shape_of, standard, standard_shape};
use super::yaku::{yaku_fan, Yaku, YakuValue};

verus! {

/// The cap: six fan, 32000 points.
pub const MAX_FAN: u32 = 6;

/// The value of one fan: 1000 points.
pub const BASE_POINTS: u32 = 1000;

/// A called or declared group, as scoring sees it.
#[derive(Clone, Debug, PartialEq, Eq)]
pub struct MeldSummary {
    kind: MeldKind,
    tiles: Vec<TileKind>,
}

impl MeldSummary {
    pub closed spec fn spec_kind(&self) -> MeldKind {
        self.kind
    }

    pub closed spec fn spec_tiles(&self) -> Seq<TileKind> {
        self.tiles@
    }

    #[must_use]
    pub fn new(kind: MeldKind, tiles: Vec<TileKind>) -> (r: MeldSummary)
        ensures
            r.spec_kind() == kind,
            r.spec_tiles() == tiles@,
    {
        MeldSummary { kind, tiles }
    }

    #[must_use]
    pub fn kind(&self) -> (r: MeldKind)
        ensures
            r == self.spec_kind(),
    {
        self.kind
    }

    #[must_use]
    pub fn tiles(&self) -> (r: &[TileKind])
        ensures
            r@ == self.spec_tiles(),
    {
        self.tiles.as_slice()
    }
}

/// A win to score: the concealed tiles (with the winning tile), the melds, and how it was won.
#[derive(Clone, Debug)]
pub struct WinContext<'a> {
    pub concealed: &'a [TileKind],
    pub melds: &'a [MeldSummary],
    pub is_tsumo: bool,
    pub rinshan: bool,
    pub gang_pao: bool,
    pub chankan: bool,
    pub is_last_tile: bool,
    pub blessing: bool,
}

/// Which winning shapes a hand has; they overlap (all triplets is also standard).
#[derive(Clone, Copy, Debug, PartialEq, Eq, Structural)]
pub struct HandShapes {
    standard: bool,
    all_triplets: bool,
    seven_pairs: bool,
}

impl HandShapes {
    pub closed spec fn spec_standard(self) -> bool {
        self.standard
    }

    pub closed spec fn spec_all_triplets(self) -> bool {
        self.all_triplets
    }

    pub closed spec fn spec_seven_pairs(self) -> bool {
        self.seven_pairs
    }

    #[must_use]
    pub fn is_winning(self) -> (r: bool)
        ensures
            r == (self.spec_standard() || self.spec_seven_pairs()),
    {
        self.standard || self.seven_pairs
    }

    #[must_use]
    pub fn all_triplets(self) -> (r: bool)
        ensures
            r == self.spec_all_triplets(),
    {
        self.all_triplets
    }

    #[must_use]
    pub fn seven_pairs(self) -> (r: bool)
        ensures
            r == self.spec_seven_pairs(),
    {
        self.seven_pairs
    }
}

/// The scored win: fan, points, the patterns counted, and the shapes found.
#[derive(Clone, Debug, PartialEq, Eq)]
pub struct WinEvaluation {
    fan: u32,
    score: u32,
    yaku: Vec<YakuValue>,
    shapes: HandShapes,
}

impl WinEvaluation {
    pub closed spec fn spec_fan(&self) -> u32 {
        self.fan
    }

    pub closed spec fn spec_score(&self) -> u32 {
        self.score
    }

    pub closed spec fn spec_yaku(&self) -> Seq<YakuValue> {
        self.yaku@
    }

    pub closed spec fn spec_shapes(&self) -> HandShapes {
        self.shapes
    }

    #[must_use]
    pub fn fan(&self) -> (r: u32)
        ensures
            r == self.spec_fan(),
    {
        self.fan
    }

    #[must_use]
    pub fn score(&self) -> (r: u32)
        ensures
            r == self.spec_score(),
    {
        self.score
    }

    #[must_use]
    pub fn yaku(&self) -> (r: &[YakuValue])
        ensures
            r@ == self.spec_yaku(),
    {
        self.yaku.as_slice()
    }

    #[must_use]
    pub fn shapes(&self) -> (r: HandShapes)
        ensures
            r == self.spec_shapes(),
    {
        self.shapes
    }

    /// A result given outright, with a standard shape, as a settled hand records one.
    #[must_use]
    pub fn for_test(fan: u32, score: u32, yaku: Vec<YakuValue>) -> (r: WinEvaluation)
        ensures
            r.spec_fan() == fan,
            r.spec_score() == score,
            r.spec_yaku() == yaku@,
            r.spec_shapes().spec_standard(),
            !r.spec_shapes().spec_all_triplets(),
            !r.spec_shapes().spec_seven_pairs(),
    {
        WinEvaluation {
            fan,
            score,
            yaku,
            shapes: HandShapes { standard: true, all_triplets: false, seven_pairs: false },
        }
    }
}

/// How many of `kinds` are of kind index `k`.
pub open spec fn count_of(kinds: Seq<TileKind>, k: int) -> int
    decreases kinds.len(),
{
    if kinds.len() == 0 {
        0
    } else {
        count_of(kinds.drop_last(), k) + if kinds.last()@ == k {
            1int
        } else {
            0int
        }
    }
}

/// Tiles of each of the 34 kinds.
pub open spec fn kind_counts(kinds: Seq<TileKind>) -> Seq<u8> {
    Seq::new(34, |k: int| count_of(kinds, k) as u8)
}

/// Kinds among the first `n` that hold all four of their tiles.
pub open spec fn fours(c: Seq<u8>, n: int) -> int
    decreases n,
{
    if n <= 0 {
        0
    } else {
        fours(c, n - 1) + if c[n - 1] == 4 {
            1int
        } else {
            0int
        }
    }
}

/// The tiles of the melds, meld after meld.
pub open spec fn meld_kinds(melds: Seq<MeldSummary>) -> Seq<TileKind>
    decreases melds.len(),
{
    if melds.len() == 0 {
        Seq::empty()
    } else {
        meld_kinds(melds.drop_last()) + melds.last().spec_tiles()
    }
}

/// Melds among the first `n` that are kans.
pub open spec fn kan_count(melds: Seq<MeldSummary>, n: int) -> int
    decreases n,
{
    if n <= 0 {
        0
    } else {
        kan_count(melds, n - 1) + if meld_is_kan(melds[n - 1].spec_kind()) {
            1int
        } else {
            0int
        }
    }
}

/// Every tile of the hand, concealed and melded, is of one suit (and there is a tile).
pub open spec fn is_flush(kinds: Seq<TileKind>) -> bool {
    &&& kinds.len() > 0
    &&& kind_suit(kinds[0]@ as int) is Some
    &&& forall|i: int| 0 <= i < kinds.len() ==> #[trigger] kind_suit(kinds[i]@ as int) == kind_suit(kinds[0]@ as int)
}

/// The base pattern: a blessing hand first, then the seven-pairs family, then all triplets,
/// then a flush, then a plain hand.
pub open spec fn base_yaku_of(seven_pairs: bool, all_triplets: bool, flush: bool, has_four: bool, blessing: bool) -> Yaku {
    if blessing {
        Yaku::TianHuDiHu
    } else if seven_pairs {
        if flush {
            Yaku::QingQiDui
        } else if has_four {
            Yaku::LongQiDui
        } else {
            Yaku::QiDui
        }
    } else if all_triplets {
        if flush {
            Yaku::QingDui
        } else {
            Yaku::DuiDuiHu
        }
    } else if flush {
        Yaku::QingYiSe
    } else {
        Yaku::PingHu
    }
}

/// The hand has a standard shape with its melds.
pub open spec fn standard_of(ctx: WinContext) -> bool {
    standard_shape(kind_counts(ctx.concealed@), 0, 4 - ctx.melds@.len(), true, true)
}

/// The hand is all triplets with its melds.
pub open spec fn triplets_of(ctx: WinContext) -> bool {
    standard_shape(kind_counts(ctx.concealed@), 0, 4 - ctx.melds@.len(), true, false)
}

/// The hand is seven pairs, with no meld.
pub open spec fn pairs_of(ctx: WinContext) -> bool {
    ctx.melds@.len() == 0 && pairs_shape_of(kind_counts(ctx.concealed@), 0, 7, 0)
}

/// A pattern appended when its condition holds.
pub open spec fn extra(list: Seq<(Yaku, u32)>, holds: bool, yaku: Yaku, count: u32) -> Seq<(Yaku, u32)> {
    if holds {
        list.push((yaku, count))
    } else {
        list
    }
}

/// The patterns a winning hand counts, in order, with their counts: the base pattern, then
/// self-draw, gen (one per kan meld), win on a kan replacement, win on a discard after a
/// kan, robbing a kan, the golden hook (four melds and a single wait), and the last tile.
pub open spec fn yaku_list(ctx: WinContext) -> Seq<(Yaku, u32)> {
    let kinds = ctx.concealed@ + meld_kinds(ctx.melds@);
    let kans = kan_count(ctx.melds@, ctx.melds@.len() as int);
    let base = base_yaku_of(
        pairs_of(ctx),
        triplets_of(ctx),
        is_flush(kinds),
        fours(kind_counts(ctx.concealed@), 34) >= 1,
        ctx.blessing,
    );
    let l0 = seq![(base, 1u32)];
    let l1 = extra(l0, ctx.is_tsumo, Yaku::ZiMo, 1);
    let l2 = extra(l1, kans > 0, Yaku::Gen, kans as u32);
    let l3 = extra(l2, ctx.rinshan, Yaku::GangShangHua, 1);
    let l4 = extra(l3, ctx.gang_pao, Yaku::GangShangPao, 1);
    let l5 = extra(l4, ctx.chankan, Yaku::QiangGangHu, 1);
    let l6 = extra(l5, ctx.melds@.len() == 4 && ctx.concealed@.len() == 2, Yaku::JinGouDiao, 1);
    extra(l6, ctx.is_last_tile, Yaku::HaiDi, 1)
}

/// The fan of a list of counted patterns.
pub open spec fn fan_total(list: Seq<(Yaku, u32)>) -> int
    decreases list.len(),
{
    if list.len() == 0 {
        0
    } else {
        fan_total(list.drop_last()) + yaku_fan(list.last().0) * list.last().1
    }
}

/// Each counted value as a pattern and its count.
pub open spec fn as_pairs(values: Seq<YakuValue>) -> Seq<(Yaku, u32)> {
    values.map_values(|v: YakuValue| (v.spec_yaku(), v.spec_count()))
}

/// Points for a fan count: 1000 × 2^(fan − 1), the fan capped at six, and 1000 for none.
pub open spec fn score_of(fan: u32) -> u32 {
    if fan <= 1 {
        1000
    } else if fan == 2 {
        2000
    } else if fan == 3 {
        4000
    } else if fan == 4 {
        8000
    } else if fan == 5 {
        16000
    } else {
        32000
    }
}

/// What scoring reads of each meld: its kind and the kinds of its tiles.
pub open spec fn meld_info(melds: Seq<MeldSummary>) -> Seq<(MeldKind, Seq<TileKind>)> {
    melds.map_values(|m: MeldSummary| (m.spec_kind(), m.spec_tiles()))
}

/// The tiles of the melds, meld after meld.
pub open spec fn info_kinds(info: Seq<(MeldKind, Seq<TileKind>)>) -> Seq<TileKind>
    decreases info.len(),
{
    if info.len() == 0 {
        Seq::empty()
    } else {
        info_kinds(info.drop_last()) + info.last().1
    }
}

/// Melds among the first `n` that are kans.
pub open spec fn info_kans(info: Seq<(MeldKind, Seq<TileKind>)>, n: int) -> int
    decreases n,
{
    if n <= 0 {
        0
    } else {
        info_kans(info, n - 1) + if meld_is_kan(info[n - 1].0) {
            1int
        } else {
            0int
        }
    }
}

/// `meld_kinds` and `kan_count` read only the melds' kinds and tiles.
pub proof fn lemma_meld_info(melds: Seq<MeldSummary>)
    ensures
        meld_kinds(melds) == info_kinds(meld_info(melds)),
        forall|n: int| 0 <= n <= melds.len() ==> #[trigger] kan_count(melds, n) == info_kans(meld_info(melds), n),
    decreases melds.len(),
{
    if melds.len() > 0 {
        lemma_meld_info(melds.drop_last());
        assert(meld_info(melds.drop_last()) =~= meld_info(melds).drop_last());
    }
    assert forall|n: int| 0 <= n <= melds.len() implies #[trigger] kan_count(melds, n) == info_kans(meld_info(melds), n) by {
        lemma_kans_info(melds, n);
    }
}

proof fn lemma_kans_info(melds: Seq<MeldSummary>, n: int)
    requires
        0 <= n <= melds.len(),
    ensures
        kan_count(melds, n) == info_kans(meld_info(melds), n),
    decreases n,
{
    if n > 0 {
        lemma_kans_info(melds, n - 1);
    }
}

/// The hand (concealed kinds, with `declared` melds) has a standard shape.
pub open spec fn standard_parts(concealed: Seq<TileKind>, declared: int) -> bool {
    standard_shape(kind_counts(concealed), 0, 4 - declared, true, true)
}

/// The hand is all triplets.
pub open spec fn triplets_parts(concealed: Seq<TileKind>, declared: int) -> bool {
    standard_shape(kind_counts(concealed), 0, 4 - declared, true, false)
}

/// The hand is seven pairs, with no meld.
pub open spec fn pairs_parts(concealed: Seq<TileKind>, declared: int) -> bool {
    declared == 0 && pairs_shape_of(kind_counts(concealed), 0, 7, 0)
}

/// The circumstances of a win: self-draw, kan replacement, discard after a kan, robbed kan,
/// last tile, blessing.
pub open spec fn context_flags(ctx: WinContext) -> (bool, bool, bool, bool, bool, bool) {
    (ctx.is_tsumo, ctx.rinshan, ctx.gang_pao, ctx.chankan, ctx.is_last_tile, ctx.blessing)
}

/// The counted patterns of a win, as `yaku_list` gives them, from its parts.
pub open spec fn yaku_parts(
    concealed: Seq<TileKind>,
    info: Seq<(MeldKind, Seq<TileKind>)>,
    flags: (bool, bool, bool, bool, bool, bool),
) -> Seq<(Yaku, u32)> {
    let declared = info.len() as int;
    let kinds = concealed + info_kinds(info);
    let kans = info_kans(info, declared);
    let base = base_yaku_of(
        pairs_parts(concealed, declared),
        triplets_parts(concealed, declared),
        is_flush(kinds),
        fours(kind_counts(concealed), 34) >= 1,
        flags.5,
    );
    let l0 = seq![(base, 1u32)];
    let l1 = extra(l0, flags.0, Yaku::ZiMo, 1);
    let l2 = extra(l1, kans > 0, Yaku::Gen, kans as u32);
    let l3 = extra(l2, flags.1, Yaku::GangShangHua, 1);
    let l4 = extra(l3, flags.2, Yaku::GangShangPao, 1);
    let l5 = extra(l4, flags.3, Yaku::QiangGangHu, 1);
    let l6 = extra(l5, declared == 4 && concealed.len() == 2, Yaku::JinGouDiao, 1);
    extra(l6, flags.4, Yaku::HaiDi, 1)
}

/// The hand wins: at most four melds and a standard or seven-pairs shape.
pub open spec fn wins_with(concealed: Seq<TileKind>, info: Seq<(MeldKind, Seq<TileKind>)>) -> bool {
    info.len() <= 4 && (standard_parts(concealed, info.len() as int) || pairs_parts(concealed, info.len() as int))
}

/// `r` is the scoring of a win with these parts: `None` exactly when the hand does not win,
/// otherwise its patterns, fan, points and shapes.
pub open spec fn win_outcome(
    concealed: Seq<TileKind>,
    info: Seq<(MeldKind, Seq<TileKind>)>,
    flags: (bool, bool, bool, bool, bool, bool),
    r: Option<WinEvaluation>,
) -> bool {
    &&& (r is Some <==> wins_with(concealed, info))
    &&& r matches Some(e) ==> {
        &&& as_pairs(e.spec_yaku()) == yaku_parts(concealed, info, flags)
        &&& e.spec_fan() == fan_total(yaku_parts(concealed, info, flags))
        &&& e.spec_score() == score_of(e.spec_fan())
        &&& e.spec_shapes().spec_standard() == standard_parts(concealed, info.len() as int)
        &&& e.spec_shapes().spec_all_triplets() == triplets_parts(concealed, info.len() as int)
        &&& e.spec_shapes().spec_seven_pairs() == pairs_parts(concealed, info.len() as int)
    }
}

/// Each fan doubles the points up to the cap of six fan; from six fan on the points stay at
/// 32000.
pub proof fn score_doubles_until_the_cap(fan: u32)
    ensures
        1 <= fan < 6 ==> score_of((fan + 1) as u32) == 2 * score_of(fan),
        fan >= 6 ==> score_of(fan) == 32000,
        score_of(fan) <= 32000,
{
}

/// Points for a fan count.
#[must_use]
pub fn score_for(fan: u32) -> (r: u32)
    ensures
        r == score_of(fan),
{
    if fan <= 1 {
        1000
    } else if fan == 2 {
        2000
    } else if fan == 3 {
        4000
    } else if fan == 4 {
        8000
    } else if fan == 5 {
        16000
    } else {
        32000
    }
}

fn count_kinds(concealed: &[TileKind]) -> (r: Vec<u8>)
    requires
        concealed@.len() <= 255,
    ensures
        r@ == kind_counts(concealed@),
{
    let mut counts: Vec<u8> = Vec::new();
    let mut k: usize = 0;
    while k < 34
        invariant
            k <= 34,
            counts@.len() == k,
            forall|j: int| 0 <= j < k ==> counts@[j] == 0,
        decreases 34 - k,
    {
        counts.push(0);
        k = k + 1;
    }
    let mut i: usize = 0;
    while i < concealed.len()
        invariant
            i <= concealed@.len() <= 255,
            counts@.len() == 34,
            forall|j: int| 0 <= j < 34 ==> #[trigger] counts@[j] == count_of(concealed@.take(i as int), j),
            forall|j: int| 0 <= j < 34 ==> #[trigger] counts@[j] <= i,
        decreases concealed@.len() - i,
    {
        let index = concealed[i].index();
        assert(counts@[index as int] == count_of(concealed@.take(i as int), index as int));
        let value = counts[index] + 1;
        counts.set(index, value);
        i = i + 1;
        proof {
            let prev = concealed@.take(i - 1);
            assert(concealed@.take(i as int).drop_last() == prev);
            assert forall|j: int| 0 <= j < 34 implies #[trigger] counts@[j] == count_of(concealed@.take(i as int), j)
                && counts@[j] <= i by {
                if j != index {
                    assert(counts@[j] == count_of(prev, j));
                }
            }
        }
    }
    assert(concealed@.take(concealed@.len() as int) == concealed@);
    assert(counts@ == kind_counts(concealed@));
    counts
}

fn all_kinds(context: &WinContext) -> (r: Vec<TileKind>)
    ensures
        r@ == context.concealed@ + meld_kinds(context.melds@),
{
    let mut kinds: Vec<TileKind> = Vec::new();
    let mut i: usize = 0;
    while i < context.concealed.len()
        invariant
            i <= context.concealed@.len(),
            kinds@ == context.concealed@.take(i as int),
        decreases context.concealed@.len() - i,
    {
        kinds.push(context.concealed[i]);
        i = i + 1;
        assert(kinds@ == context.concealed@.take(i as int));
    }
    assert(context.concealed@.take(i as int) == context.concealed@);
    let melds = context.melds;
    let mut m: usize = 0;
    while m < melds.len()
        invariant
            m <= melds@.len(),
            kinds@ == context.concealed@ + meld_kinds(melds@.take(m as int)),
        decreases melds@.len() - m,
    {
        let tiles = melds[m].tiles();
        let ghost before = kinds@;
        let mut t: usize = 0;
        while t < tiles.len()
            invariant
                t <= tiles@.len(),
                kinds@ == before + tiles@.take(t as int),
            decreases tiles@.len() - t,
        {
            kinds.push(tiles[t]);
            t = t + 1;
            assert(kinds@ == before + tiles@.take(t as int));
        }
        proof {
            let next = melds@.take(m + 1);
            assert(next.drop_last() == melds@.take(m as int));
            assert(tiles@.take(t as int) == tiles@);
            assert(meld_kinds(next) == meld_kinds(melds@.take(m as int)) + melds@[m as int].spec_tiles());
            assert(kinds@ == context.concealed@ + meld_kinds(next));
        }
        m = m + 1;
    }
    assert(melds@.take(m as int) == melds@);
    kinds
}

fn flush(kinds: &Vec<TileKind>) -> (r: bool)
    ensures
        r == is_flush(kinds@),
{
    if kinds.len() == 0 {
        return false;
    }
    let suit: Suit = match kinds[0].suit() {
        Some(suit) => suit,
        None => {
            return false;
        },
    };
    let mut i: usize = 0;
    while i < kinds.len()
        invariant
            i <= kinds@.len(),
            kinds@.len() > 0,
            kind_suit(kinds@[0]@ as int) == Some(suit),
            forall|j: int| 0 <= j < i ==> #[trigger] kind_suit(kinds@[j]@ as int) == Some(suit),
        decreases kinds@.len() - i,
    {
        match kinds[i].suit() {
            Some(found) => {
                if found != suit {
                    return false;
                }
            },
            None => {
                return false;
            },
        }
        i = i + 1;
    }
    true
}

fn concealed_gen(counts: &Vec<u8>) -> (r: u8)
    requires
        counts@.len() == 34,
    ensures
        r == fours(counts@, 34),
{
    let mut found: u8 = 0;
    let mut k: usize = 0;
    while k < 34
        invariant
            k <= 34,
            counts@.len() == 34,
            found == fours(counts@, k as int),
            found <= k,
        decreases 34 - k,
    {
        if counts[k] == 4 {
            found = found + 1;
        }
        k = k + 1;
    }
    found
}

fn kan_melds(melds: &[MeldSummary]) -> (r: u32)
    requires
        melds@.len() <= 4,
    ensures
        r == kan_count(melds@, melds@.len() as int),
        r <= melds@.len(),
{
    let mut found: u32 = 0;
    let mut m: usize = 0;
    while m < melds.len()
        invariant
            m <= melds@.len() <= 4,
            found == kan_count(melds@, m as int),
            found <= m,
        decreases melds@.len() - m,
    {
        if melds[m].kind().is_kan() {
            found = found + 1;
        }
        m = m + 1;
    }
    found
}

fn base_yaku(seven_pairs: bool, all_triplets: bool, flush: bool, has_four: bool, blessing: bool) -> (r: Yaku)
    ensures
        r == base_yaku_of(seven_pairs, all_triplets, flush, has_four, blessing),
{
    if blessing {
        Yaku::TianHuDiHu
    } else if seven_pairs {
        if flush {
            Yaku::QingQiDui
        } else if has_four {
            Yaku::LongQiDui
        } else {
            Yaku::QiDui
        }
    } else if all_triplets {
        if flush {
            Yaku::QingDui
        } else {
            Yaku::DuiDuiHu
        }
    } else if flush {
        Yaku::QingYiSe
    } else {
        Yaku::PingHu
    }
}

fn add_if(yaku: &mut Vec<YakuValue>, fan: &mut u32, holds: bool, name: Yaku, count: u32)
    requires
        *old(fan) + 6 * count <= 1000,
        *old(fan) == fan_total(as_pairs(old(yaku)@)),
    ensures
        as_pairs(final(yaku)@) == extra(as_pairs(old(yaku)@), holds, name, count),
        *final(fan) == fan_total(as_pairs(final(yaku)@)),
        *final(fan) <= *old(fan) + 6 * count,
{
    if holds {
        let value = YakuValue::new(name, count);
        let ghost before = yaku@;
        assert(yaku_fan(name) <= 6);
        assert(yaku_fan(name) * count <= 6 * count) by (nonlinear_arith)
            requires
                yaku_fan(name) <= 6,
        ;
        *fan = *fan + value.fan();
        yaku.push(value);
        assert(as_pairs(yaku@).drop_last() == as_pairs(before));
        assert(as_pairs(yaku@) == as_pairs(before).push((name, count)));
    }
}

/// Scores a win, or `None` when the hand has more than four melds or no winning shape.
#[must_use]
#[verifier::rlimit(40)]
#[verifier::spinoff_prover]
pub fn evaluate(context: &WinContext) -> (r: Option<WinEvaluation>)
    requires
        context.melds@.len() <= 4 ==> context.concealed@.len() <= 255,
    ensures
        context.melds@.len() > 4 ==> r is None,
        context.melds@.len() <= 4 ==> (r is Some <==> (standard_of(*context) || pairs_of(*context))),
        win_outcome(context.concealed@, meld_info(context.melds@), context_flags(*context), r),
        r matches Some(e) ==> {
            &&& as_pairs(e.spec_yaku()) == yaku_list(*context)
            &&& e.spec_fan() == fan_total(yaku_list(*context))
            &&& e.spec_score() == score_of(e.spec_fan())
            &&& e.spec_shapes().spec_standard() == standard_of(*context)
            &&& e.spec_shapes().spec_all_triplets() == triplets_of(*context)
            &&& e.spec_shapes().spec_seven_pairs() == pairs_of(*context)
        },
{
    proof {
        lemma_meld_info(context.melds@);
        assert(yaku_list(*context) == yaku_parts(context.concealed@, meld_info(context.melds@), context_flags(*context)));
    }
    if context.melds.len() > 4 {
        return None;
    }
    let counts = count_kinds(context.concealed);
    let sets_needed = 4 - context.melds.len() as u8;
    let shapes = HandShapes {
        standard: standard(counts.as_slice(), 0, sets_needed, true, true),
        all_triplets: standard(counts.as_slice(), 0, sets_needed, true, false),
        seven_pairs: context.melds.len() == 0 && pairs_shape(counts.as_slice(), 0, 7, 0),
    };
    if !shapes.is_winning() {
        return None;
    }
    let kinds = all_kinds(context);
    let is_flush = flush(&kinds);
    let gen = concealed_gen(&counts);
    let kans = kan_melds(context.melds);
    let base = base_yaku(shapes.seven_pairs, shapes.all_triplets, is_flush, gen >= 1, context.blessing);
    let mut yaku: Vec<YakuValue> = Vec::new();
    let mut fan: u32 = 0;
    assert(as_pairs(yaku@) == Seq::<(Yaku, u32)>::empty());
    add_if(&mut yaku, &mut fan, true, base, 1);
    assert(as_pairs(yaku@) == seq![(base, 1u32)]);
    add_if(&mut yaku, &mut fan, context.is_tsumo, Yaku::ZiMo, 1);
    add_if(&mut yaku, &mut fan, kans > 0, Yaku::Gen, kans);
    add_if(&mut yaku, &mut fan, context.rinshan, Yaku::GangShangHua, 1);
    add_if(&mut yaku, &mut fan, context.gang_pao, Yaku::GangShangPao, 1);
    add_if(&mut yaku, &mut fan, context.chankan, Yaku::QiangGangHu, 1);
    let gold_hook = context.melds.len() == 4 && context.concealed.len() == 2;
    add_if(&mut yaku, &mut fan, gold_hook, Yaku::JinGouDiao, 1);
    add_if(&mut yaku, &mut fan, context.is_last_tile, Yaku::HaiDi, 1);
    let score = score_for(fan);
    Some(WinEvaluation { fan, score, yaku, shapes })
}

/// The base pattern of a win: a blessing hand is TianHuDiHu whatever its shape. Otherwise a
/// seven-pairs hand of one suit is QingQiDui (whether or not it holds four of a kind), a mixed
/// seven-pairs hand with four of a kind is LongQiDui and without one QiDui; an all-triplets
/// hand is QingDui in one suit and DuiDuiHu otherwise; any other one-suit hand is QingYiSe and
/// the rest PingHu. Their fan are 6, 5, 5, 3, 4, 2, 3 and 1.
pub proof fn law_base_pattern(seven_pairs: bool, all_triplets: bool, flush: bool, has_four: bool, blessing: bool)
    ensures
        blessing ==> base_yaku_of(seven_pairs, all_triplets, flush, has_four, blessing) == Yaku::TianHuDiHu,
        !blessing && seven_pairs && flush ==> base_yaku_of(seven_pairs, all_triplets, flush, has_four, blessing)
            == Yaku::QingQiDui,
        !blessing && seven_pairs && !flush && has_four ==> base_yaku_of(seven_pairs, all_triplets, flush, has_four, blessing)
            == Yaku::LongQiDui,
        !blessing && seven_pairs && !flush && !has_four ==> base_yaku_of(seven_pairs, all_triplets, flush, has_four, blessing)
            == Yaku::QiDui,
        !blessing && !seven_pairs && all_triplets && flush ==> base_yaku_of(seven_pairs, all_triplets, flush, has_four, blessing)
            == Yaku::QingDui,
        !blessing && !seven_pairs && all_triplets && !flush ==> base_yaku_of(seven_pairs, all_triplets, flush, has_four, blessing)
            == Yaku::DuiDuiHu,
        !blessing && !seven_pairs && !all_triplets && flush ==> base_yaku_of(seven_pairs, all_triplets, flush, has_four, blessing)
            == Yaku::QingYiSe,
        !blessing && !seven_pairs && !all_triplets && !flush ==> base_yaku_of(seven_pairs, all_triplets, flush, has_four, blessing)
            == Yaku::PingHu,
        yaku_fan(Yaku::TianHuDiHu) == 6 && yaku_fan(Yaku::QingQiDui) == 5 && yaku_fan(Yaku::LongQiDui) == 5
            && yaku_fan(Yaku::QiDui) == 3 && yaku_fan(Yaku::QingDui) == 4 && yaku_fan(Yaku::DuiDuiHu) == 2
            && yaku_fan(Yaku::QingYiSe) == 3 && yaku_fan(Yaku::PingHu) == 1,
{
}

/// A winning seven-pairs hand without melds whose tiles are all of one suit, and that is no
/// blessing hand, counts QingQiDui (5 fan) as its base pattern, with or without four of a kind.
pub proof fn law_one_suit_seven_pairs(ctx: WinContext)
    requires
        pairs_of(ctx),
        is_flush(ctx.concealed@ + meld_kinds(ctx.melds@)),
        !ctx.blessing,
    ensures
        yaku_list(ctx)[0] == (Yaku::QingQiDui, 1u32),
{
    law_base_pattern(true, triplets_of(ctx), true, fours(kind_counts(ctx.concealed@), 34) >= 1, false);
    let kinds = ctx.concealed@ + meld_kinds(ctx.melds@);
    let kans = kan_count(ctx.melds@, ctx.melds@.len() as int);
    let l0 = seq![(Yaku::QingQiDui, 1u32)];
    assert(extra(l0, ctx.is_tsumo, Yaku::ZiMo, 1)[0] == (Yaku::QingQiDui, 1u32));
    let l1 = extra(l0, ctx.is_tsumo, Yaku::ZiMo, 1);
    let l2 = extra(l1, kans > 0, Yaku::Gen, kans as u32);
    assert(l2[0] == l1[0]);
    let l3 = extra(l2, ctx.rinshan, Yaku::GangShangHua, 1);
    assert(l3[0] == l2[0]);
    let l4 = extra(l3, ctx.gang_pao, Yaku::GangShangPao, 1);
    assert(l4[0] == l3[0]);
    let l5 = extra(l4, ctx.chankan, Yaku::QiangGangHu, 1);
    assert(l5[0] == l4[0]);
    let l6 = extra(l5, ctx.melds@.len() == 4 && ctx.concealed@.len() == 2, Yaku::JinGouDiao, 1);
    assert(l6[0] == l5[0]);
    assert(extra(l6, ctx.is_last_tile, Yaku::HaiDi, 1)[0] == l6[0]);
}

} // verus!
