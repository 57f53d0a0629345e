use vstd::prelude::*;

use crate::riichi::config::YakumanValue;
use crate::riichi::hand::{DrawSource, Meld, MeldKind, RiichiStatus, WinQuery, WinSource};
use crate::riichi::progress::{Seat, Wind, spec_seat_distance, wind_at};
use crate::riichi::tile::{Tile, TileKind};
use crate::riichi::tile_set::{count_kind, seat_count_of};
use crate::riichi::wall::{Wall, dora_offset, ura_dora_offset};

use super::analysis::{CompleteGroup, CompleteGroupKind, Interpretation, winning_kind};
use super::result::{BonusHan, HandShape, WaitKind, Yaku, YakuValue};

verus! {

broadcast use {TileKind::lemma_view_injective, TileKind::lemma_spec_at};

pub(crate) open spec fn opt(c: bool, v: YakuValue) -> Seq<YakuValue> {
    if c {
        seq![v]
    } else {
        Seq::empty()
    }
}

pub(crate) open spec fn han_value(yaku: Yaku, value: u8) -> YakuValue {
    YakuValue { yaku, value, yakuman: false }
}

pub(crate) open spec fn yakuman_value(yaku: Yaku, multiplier: u8) -> YakuValue {
    YakuValue { yaku, value: multiplier, yakuman: true }
}

/// Every meld of the winner is a concealed kan.
pub(crate) open spec fn closed_hand(q: WinQuery) -> bool {
    let melds = q.spec_player().spec_melds();
    forall|i: int| 0 <= i < melds.len() ==> #[trigger] melds[i].spec_kind() == MeldKind::ConcealedKan
}

pub(crate) open spec fn is_tsumo(q: WinQuery) -> bool {
    q.spec_source() is Tsumo
}

pub(crate) open spec fn winner_is_dealer(q: WinQuery) -> bool {
    q.spec_seat() == q.spec_progress().spec_dealer()
}

/// No call was made and the winner has not discarded yet.
pub(crate) open spec fn first_uninterrupted(q: WinQuery) -> bool {
    !q.spec_calls_occurred() && q.spec_player().spec_discards().len() == 0
}

pub(crate) open spec fn double_variants(q: WinQuery) -> bool {
    q.spec_rules().scoring.yakuman_value == YakumanValue::DoubleVariantsAndStacked
}

pub(crate) open spec fn wind_index(wind: Wind) -> int {
    match wind {
        Wind::East => 0,
        Wind::South => 1,
        Wind::West => 2,
        Wind::North => 3,
    }
}

/// The wind of the winner's seat, for a seat at the table.
pub(crate) open spec fn seat_wind_of(q: WinQuery) -> Option<Wind> {
    let progress = q.spec_progress();
    let count = seat_count_of(progress.spec_variant());
    if q.spec_seat()@ < count {
        Some(wind_at(spec_seat_distance(progress.spec_dealer()@, q.spec_seat()@, count)))
    } else {
        None
    }
}

pub(crate) open spec fn is_dragon_index(k: int) -> bool {
    31 <= k <= 33
}

pub(crate) open spec fn is_wind_index(k: int) -> bool {
    27 <= k <= 30
}

/// A pair that earns fu: dragons, the round wind and the winner's seat wind.
pub(crate) open spec fn is_value_pair(q: WinQuery, pair: int) -> bool {
    ||| is_dragon_index(pair)
    ||| pair == 27 + wind_index(q.spec_progress().spec_round_wind())
    ||| seat_wind_of(q) matches Some(w) && pair == 27 + wind_index(w)
}

pub(crate) open spec fn group_tile_index(g: CompleteGroup) -> Option<int> {
    match g.kind {
        CompleteGroupKind::Triplet(kind) => Some(kind@ as int),
        CompleteGroupKind::Kan(kind) => Some(kind@ as int),
        CompleteGroupKind::Sequence(_) => None,
    }
}

/// The group classes that the patterns count: concealed triplets or kans (0), dragon
/// triplets (1), wind triplets (2), kans (3) and sequences (4).
pub(crate) open spec fn group_has(g: CompleteGroup, tag: int) -> bool {
    if tag == 0 {
        !(g.kind is Sequence) && !g.open
    } else if tag == 1 {
        group_tile_index(g) matches Some(k) && is_dragon_index(k)
    } else if tag == 2 {
        group_tile_index(g) matches Some(k) && is_wind_index(k)
    } else if tag == 3 {
        g.kind is Kan
    } else {
        g.kind is Sequence
    }
}

pub(crate) open spec fn count_groups(gs: Seq<CompleteGroup>, tag: int) -> int
    decreases gs.len(),
{
    if gs.len() == 0 {
        0
    } else {
        count_groups(gs.drop_last(), tag) + if group_has(gs.last(), tag) {
            1int
        } else {
            0int
        }
    }
}

/// Some triplet or kan of the kind at `k`.
pub(crate) open spec fn has_triplet_of(gs: Seq<CompleteGroup>, k: int) -> bool {
    exists|i: int| 0 <= i < gs.len() && #[trigger] group_tile_index(gs[i]) == Some(k)
}

pub(crate) open spec fn sequence_start(g: CompleteGroup) -> Option<int> {
    match g.kind {
        CompleteGroupKind::Sequence(s) => Some(s@ as int),
        _ => None,
    }
}

/// Some sequence starting at the kind at `k`.
pub(crate) open spec fn has_sequence_at(gs: Seq<CompleteGroup>, k: int) -> bool {
    exists|i: int| 0 <= i < gs.len() && #[trigger] sequence_start(gs[i]) == Some(k)
}

pub(crate) open spec fn sequence_count_at(gs: Seq<CompleteGroup>, k: int) -> int
    decreases gs.len(),
{
    if gs.len() == 0 {
        0
    } else {
        sequence_count_at(gs.drop_last(), k) + if sequence_start(gs.last()) == Some(k) {
            1int
        } else {
            0int
        }
    }
}

/// How many pairs of identical sequences the first `m` kinds start.
pub(crate) open spec fn twin_sequences(gs: Seq<CompleteGroup>, m: int) -> int
    decreases m,
{
    if m <= 0 {
        0
    } else {
        twin_sequences(gs, m - 1) + sequence_count_at(gs, m - 1) / 2
    }
}

pub(crate) open spec fn sanshoku_sequences(gs: Seq<CompleteGroup>) -> bool {
    exists|r: int| 0 <= r < 7 && #[trigger] has_sequence_at(gs, r) && has_sequence_at(gs, 9 + r) && has_sequence_at(gs, 18 + r)
}

pub(crate) open spec fn sanshoku_triplets(gs: Seq<CompleteGroup>) -> bool {
    exists|r: int| 0 <= r < 9 && #[trigger] has_triplet_of(gs, r) && has_triplet_of(gs, 9 + r) && has_triplet_of(gs, 18 + r)
}

pub(crate) open spec fn ittsu(gs: Seq<CompleteGroup>) -> bool {
    exists|s: int| 0 <= s < 3 && #[trigger] has_sequence_at(gs, 9 * s) && has_sequence_at(gs, 9 * s + 3) && has_sequence_at(gs, 9 * s + 6)
}

pub(crate) open spec fn kind_of(t: Tile) -> int {
    t.spec_kind()@ as int
}

pub(crate) open spec fn is_terminal_index(k: int) -> bool {
    0 <= k < 27 && (k % 9 == 0 || k % 9 == 8)
}

pub(crate) open spec fn is_terminal_or_honor_index(k: int) -> bool {
    is_terminal_index(k) || k >= 27
}

pub(crate) open spec fn is_green_index(k: int) -> bool {
    k == 32 || k == 19 || k == 20 || k == 21 || k == 23 || k == 25
}

pub(crate) open spec fn all_tiles_are(tiles: Seq<Tile>, tag: int) -> bool {
    forall|i: int| 0 <= i < tiles.len() ==> #[trigger] tile_is(tiles[i], tag)
}

/// Tile classes: honor (0), terminal (1), green (2), terminal or honor (3), simple (4).
pub(crate) open spec fn tile_is(t: Tile, tag: int) -> bool {
    let k = kind_of(t);
    if tag == 0 {
        k >= 27
    } else if tag == 1 {
        is_terminal_index(k)
    } else if tag == 2 {
        is_green_index(k)
    } else if tag == 3 {
        is_terminal_or_honor_index(k)
    } else {
        !is_terminal_or_honor_index(k)
    }
}

pub(crate) open spec fn has_honor_tile(tiles: Seq<Tile>) -> bool {
    exists|i: int| 0 <= i < tiles.len() && #[trigger] kind_of(tiles[i]) >= 27
}

/// Every suited tile is of the suit `s`, and there is at least one.
pub(crate) open spec fn one_suit(tiles: Seq<Tile>, s: int) -> bool {
    &&& exists|i: int| 0 <= i < tiles.len() && #[trigger] kind_of(tiles[i]) < 27
    &&& forall|i: int| 0 <= i < tiles.len() && #[trigger] kind_of(tiles[i]) < 27 ==> kind_of(tiles[i]) / 9 == s
}

pub(crate) open spec fn is_flush(tiles: Seq<Tile>) -> bool {
    exists|s: int| 0 <= s < 3 && #[trigger] one_suit(tiles, s)
}

/// The pair and every group hold a terminal or an honor, with at least one sequence.
pub(crate) open spec fn outside_hand(it: Interpretation) -> bool {
    let gs = it.groups@;
    &&& count_groups(gs, 4) > 0
    &&& it.pair matches Some(p) && is_terminal_or_honor_index(p@ as int)
    &&& forall|i: int| 0 <= i < gs.len() ==> #[trigger] group_outside(gs[i])
}

pub(crate) open spec fn group_outside(g: CompleteGroup) -> bool {
    match g.kind {
        CompleteGroupKind::Sequence(s) => s@ < 27 && (s@ % 9 == 0 || s@ % 9 == 6),
        CompleteGroupKind::Triplet(k) => is_terminal_or_honor_index(k@ as int),
        CompleteGroupKind::Kan(k) => is_terminal_or_honor_index(k@ as int),
    }
}

pub(crate) open spec fn gates_pattern(offset: int) -> int {
    if offset == 0 || offset == 8 {
        3
    } else {
        1
    }
}

/// All tiles are suited tiles of the suit of the first one.
pub(crate) open spec fn single_suit_of_first(tiles: Seq<Tile>) -> bool {
    &&& tiles.len() > 0
    &&& kind_of(tiles[0]) < 27
    &&& forall|i: int| 0 <= i < tiles.len() ==> #[trigger] kind_of(tiles[i]) < 27 && kind_of(tiles[i]) / 9 == kind_of(tiles[0]) / 9
}

/// Nine gates: one suit with at least 1112345678999; pure when those thirteen were held
/// before the winning tile of the suit.
pub(crate) open spec fn nine_gates(it: Interpretation, winning: int) -> Option<bool> {
    let tiles = it.all_tiles@;
    let conc = it.concealed_counts.spec_values();
    let pre = it.pre_win_counts.spec_values();
    if !single_suit_of_first(tiles) {
        None
    } else {
        let base = (kind_of(tiles[0]) / 9) * 9;
        if !(forall|o: int| 0 <= o < 9 ==> #[trigger] conc[base + o] >= gates_pattern(o)) {
            None
        } else {
            Some(
                (forall|o: int| 0 <= o < 9 ==> #[trigger] pre[base + o] == gates_pattern(o))
                    && winning < 27 && winning / 9 == kind_of(tiles[0]) / 9,
            )
        }
    }
}

/// The wheel pattern of seven pairs from two to eight of one suit.
pub(crate) open spec fn wheel_yaku(it: Interpretation) -> Option<Yaku> {
    let tiles = it.all_tiles@;
    let conc = it.concealed_counts.spec_values();
    if !single_suit_of_first(tiles) {
        None
    } else {
        let suit = kind_of(tiles[0]) / 9;
        if forall|o: int| 1 <= o <= 7 ==> #[trigger] conc[suit * 9 + o] == 2 {
            Some(
                if suit == 0 {
                    Yaku::Daisuurin
                } else if suit == 1 {
                    Yaku::Daisharin
                } else {
                    Yaku::Daichikurin
                },
            )
        } else {
            None
        }
    }
}

/// The yakuman of a reading, in table order.
pub(crate) open spec fn yakuman_list(q: WinQuery, it: Interpretation) -> Seq<YakuValue> {
    let dv = double_variants(q);
    let tsumo = is_tsumo(q);
    let first = first_uninterrupted(q);
    let dealer = winner_is_dealer(q);
    let standard = it.shape == HandShape::Standard;
    let thirteen = it.shape == HandShape::ThirteenOrphans;
    let sided = it.wait == WaitKind::ThirteenSided;
    let gs = it.groups@;
    let concealed_triplets = count_groups(gs, 0);
    let tanki = it.wait == WaitKind::Pair;
    let winds = count_groups(gs, 2);
    let gates = if closed_hand(q) {
        nine_gates(it, winning_kind(q)@ as int)
    } else {
        None
    };
    let old = q.spec_rules().scoring.old_yaku;
    let wheel = if old && it.shape == HandShape::SevenPairs {
        wheel_yaku(it)
    } else {
        None
    };
    let tiles = it.all_tiles@;
    opt(tsumo && first && dealer, yakuman_value(Yaku::Tenhou, 1)) + opt(
        tsumo && first && !dealer,
        yakuman_value(Yaku::Chiihou, 1),
    ) + opt(thirteen && !sided, yakuman_value(Yaku::ThirteenOrphans, 1)) + opt(
        thirteen && sided,
        yakuman_value(
            Yaku::ThirteenWaitOrphans,
            if dv {
                2
            } else {
                1
            },
        ),
    ) + opt(standard && concealed_triplets == 4 && !tanki && tsumo, yakuman_value(Yaku::Suuankou, 1))
        + opt(
        standard && concealed_triplets == 4 && tanki,
        yakuman_value(
            Yaku::SuuankouTanki,
            if dv {
                2
            } else {
                1
            },
        ),
    ) + opt(standard && count_groups(gs, 1) == 3, yakuman_value(Yaku::Daisangen, 1)) + opt(
        all_tiles_are(tiles, 2),
        yakuman_value(Yaku::Ryuuiisou, 1),
    ) + opt(all_tiles_are(tiles, 0), yakuman_value(Yaku::Tsuuiisou, 1)) + opt(
        standard && winds == 3 && (it.pair matches Some(p) && is_wind_index(p@ as int)),
        yakuman_value(Yaku::Shousuushi, 1),
    ) + opt(
        standard && winds == 4,
        yakuman_value(
            Yaku::Daisuushi,
            if dv {
                2
            } else {
                1
            },
        ),
    ) + opt(all_tiles_are(tiles, 1), yakuman_value(Yaku::Chinroutou, 1)) + opt(
        standard && count_groups(gs, 3) == 4,
        yakuman_value(Yaku::Suukantsu, 1),
    ) + opt(gates == Some(false), yakuman_value(Yaku::ChuurenPoutou, 1)) + opt(
        gates == Some(true),
        yakuman_value(
            Yaku::PureChuurenPoutou,
            if dv {
                2
            } else {
                1
            },
        ),
    ) + opt(
        old && !dealer && first && q.spec_source() is Discard,
        yakuman_value(Yaku::Renhou, 1),
    ) + opt(wheel == Some(Yaku::Daisharin), yakuman_value(Yaku::Daisharin, 1)) + opt(
        wheel == Some(Yaku::Daichikurin),
        yakuman_value(Yaku::Daichikurin, 1),
    ) + opt(wheel == Some(Yaku::Daisuurin), yakuman_value(Yaku::Daisuurin, 1))
}

/// The patterns that do not depend on the groups: riichi, the way of winning and the last
/// tile of the wall.
pub(crate) open spec fn context_list(q: WinQuery, closed: bool) -> Seq<YakuValue> {
    let player = q.spec_player();
    let riichi = closed && player.spec_riichi() == RiichiStatus::Established;
    let double = player.spec_double_riichi();
    let last_tile = q.spec_wall().spec_remaining() == 0;
    opt(is_tsumo(q) && closed, han_value(Yaku::MenzenTsumo, 1)) + opt(
        riichi && !double,
        han_value(Yaku::Riichi, 1),
    ) + opt(riichi && double, han_value(Yaku::DoubleRiichi, 2)) + opt(
        riichi && player.spec_ippatsu(),
        han_value(Yaku::Ippatsu, 1),
    )
}

pub(crate) open spec fn value_tile_list(q: WinQuery, gs: Seq<CompleteGroup>, standard: bool) -> Seq<YakuValue> {
    opt(
        standard && (seat_wind_of(q) matches Some(w) && has_triplet_of(gs, 27 + wind_index(w))),
        han_value(Yaku::SeatWind, 1),
    ) + opt(
        standard && has_triplet_of(gs, 27 + wind_index(q.spec_progress().spec_round_wind())),
        han_value(Yaku::RoundWind, 1),
    ) + opt(standard && has_triplet_of(gs, 31), han_value(Yaku::WhiteDragon, 1)) + opt(
        standard && has_triplet_of(gs, 32),
        han_value(Yaku::GreenDragon, 1),
    ) + opt(standard && has_triplet_of(gs, 33), han_value(Yaku::RedDragon, 1))
}

pub(crate) open spec fn last_tile_list(q: WinQuery) -> Seq<YakuValue> {
    let last_tile = q.spec_wall().spec_remaining() == 0;
    opt(
        q.spec_source() == WinSource::Tsumo(DrawSource::LiveWall) && last_tile,
        han_value(Yaku::Haitei, 1),
    ) + opt(q.spec_source() is Discard && last_tile, han_value(Yaku::Houtei, 1)) + opt(
        q.spec_source() is AddedKan || q.spec_source() is ConcealedKan,
        han_value(Yaku::Chankan, 1),
    ) + opt(q.spec_source() == WinSource::Tsumo(DrawSource::Rinshan), han_value(Yaku::Rinshan, 1))
}

pub(crate) open spec fn closed_value(closed: bool, when_closed: u8, when_open: u8) -> u8 {
    if closed {
        when_closed
    } else {
        when_open
    }
}

/// Pinfu, tanyao and iipeikou.
pub(crate) open spec fn early_list(q: WinQuery, it: Interpretation, closed: bool) -> Seq<YakuValue> {
    let standard = it.shape == HandShape::Standard;
    let gs = it.groups@;
    opt(
        standard && closed && count_groups(gs, 4) == 4 && (it.pair matches Some(p) && !is_value_pair(
            q,
            p@ as int,
        )) && it.wait == WaitKind::TwoSided,
        han_value(Yaku::Pinfu, 1),
    ) + opt(
        (closed || q.spec_rules().calls.kuitan) && all_tiles_are(it.all_tiles@, 4),
        han_value(Yaku::Tanyao, 1),
    ) + opt(standard && closed && twin_sequences(gs, 34) == 1, han_value(Yaku::Iipeikou, 1))
}

/// Seven pairs through honroutou.
pub(crate) open spec fn middle_list(it: Interpretation) -> Seq<YakuValue> {
    let standard = it.shape == HandShape::Standard;
    let seven = it.shape == HandShape::SevenPairs;
    let gs = it.groups@;
    opt(seven, han_value(Yaku::SevenPairs, 2)) + opt(
        standard && count_groups(gs, 4) == 0,
        han_value(Yaku::Toitoi, 2),
    ) + opt(standard && count_groups(gs, 0) >= 3, han_value(Yaku::Sanankou, 2)) + opt(
        standard && sanshoku_triplets(gs),
        han_value(Yaku::SanshokuDoukou, 2),
    ) + opt(standard && count_groups(gs, 3) >= 3, han_value(Yaku::Sankantsu, 2)) + opt(
        standard && count_groups(gs, 1) == 2 && (it.pair matches Some(p) && is_dragon_index(p@ as int)),
        han_value(Yaku::Shousangen, 2),
    ) + opt((standard || seven) && all_tiles_are(it.all_tiles@, 3), han_value(Yaku::Honroutou, 2))
}

/// Sanshoku doujun through chinitsu.
pub(crate) open spec fn late_list(it: Interpretation, closed: bool) -> Seq<YakuValue> {
    let standard = it.shape == HandShape::Standard;
    let gs = it.groups@;
    let tiles = it.all_tiles@;
    let honor = has_honor_tile(tiles);
    let outside = standard && outside_hand(it);
    let flush = is_flush(tiles);
    opt(standard && sanshoku_sequences(gs), han_value(Yaku::SanshokuDoujun, closed_value(closed, 2, 1)))
        + opt(standard && ittsu(gs), han_value(Yaku::Ittsu, closed_value(closed, 2, 1))) + opt(
        outside && honor,
        han_value(Yaku::Chanta, closed_value(closed, 2, 1)),
    ) + opt(standard && closed && twin_sequences(gs, 34) >= 2, han_value(Yaku::Ryanpeikou, 3)) + opt(
        flush && honor,
        han_value(Yaku::Honitsu, closed_value(closed, 3, 2)),
    ) + opt(outside && !honor, han_value(Yaku::Junchan, closed_value(closed, 3, 2))) + opt(
        flush && !honor,
        han_value(Yaku::Chinitsu, closed_value(closed, 6, 5)),
    )
}

/// The ordinary patterns of a reading, in table order.
pub(crate) open spec fn regular_list(q: WinQuery, it: Interpretation) -> Seq<YakuValue> {
    let closed = closed_hand(q);
    context_list(q, closed) + value_tile_list(q, it.groups@, it.shape == HandShape::Standard)
        + early_list(q, it, closed) + last_tile_list(q) + middle_list(it) + late_list(it, closed)
}

/// The dora a bonus indicator points at: the next rank, the next wind, the next dragon.
pub(crate) open spec fn dora_after(k: int) -> int {
    if k < 27 {
        if k % 9 == 8 {
            k - 8
        } else {
            k + 1
        }
    } else if k <= 30 {
        if k == 30 {
            27
        } else {
            k + 1
        }
    } else if k == 33 {
        31
    } else {
        k + 1
    }
}

/// How many of `tiles` the first `n` indicators make dora.
pub(crate) open spec fn dora_hits(indicators: Seq<Tile>, tiles: Seq<Tile>, n: int) -> int
    decreases n,
{
    if n <= 0 {
        0
    } else {
        dora_hits(indicators, tiles, n - 1) + count_kind(tiles, dora_after(kind_of(indicators[n - 1])))
    }
}

pub(crate) open spec fn dora_indicators(wall: Wall) -> Seq<Tile> {
    Seq::new(wall.spec_revealed_dora(), |n: int| wall.spec_dead_tile(dora_offset(n)))
}

pub(crate) open spec fn ura_indicators(wall: Wall) -> Seq<Tile> {
    Seq::new(wall.spec_revealed_dora(), |n: int| wall.spec_dead_tile(ura_dora_offset(n)))
}

pub(crate) open spec fn red_tiles(tiles: Seq<Tile>) -> int
    decreases tiles.len(),
{
    if tiles.len() == 0 {
        0
    } else {
        red_tiles(tiles.drop_last()) + if tiles.last().spec_red() {
            1int
        } else {
            0int
        }
    }
}

pub(crate) open spec fn ura_counts(q: WinQuery) -> bool {
    q.spec_rules().bonuses.ura_dora && q.spec_player().spec_riichi() == RiichiStatus::Established
}

/// The bonus han of a reading.
pub(crate) open spec fn bonus_of(q: WinQuery, it: Interpretation) -> BonusHan {
    let tiles = it.all_tiles@;
    let dora = dora_hits(dora_indicators(q.spec_wall()), tiles, q.spec_wall().spec_revealed_dora() as int);
    let ura = if ura_counts(q) {
        dora_hits(ura_indicators(q.spec_wall()), tiles, q.spec_wall().spec_revealed_dora() as int)
    } else {
        0
    };
    BonusHan { dora: dora as u8, ura_dora: ura as u8, red_dora: red_tiles(tiles) as u8 }
}

/// A hand of real tiles: at most four of a kind among its concealed and declared tiles.
pub(crate) open spec fn physical_tiles(tiles: Seq<Tile>) -> bool {
    forall|k: int| 0 <= k < 34 ==> #[trigger] count_kind(tiles, k) <= 4
}

pub(crate) fn is_closed(q: WinQuery) -> (r: bool)
    ensures
        r == closed_hand(q),
{
    let melds = q.player().melds();
    let mut i: usize = 0;
    while i < melds.len()
        invariant
            i <= melds@.len(),
            melds@ == q.spec_player().spec_melds(),
            forall|j: int| 0 <= j < i ==> #[trigger] melds@[j].spec_kind() == MeldKind::ConcealedKan,
        decreases melds@.len() - i,
    {
        match melds[i].kind() {
            MeldKind::ConcealedKan => {},
            _ => {
                return false;
            },
        }
        i = i + 1;
    }
    true
}

fn wind_kind_index(wind: Wind) -> (r: usize)
    ensures
        r == 27 + wind_index(wind),
{
    match wind {
        Wind::East => 27,
        Wind::South => 28,
        Wind::West => 29,
        Wind::North => 30,
    }
}

fn seat_wind_index(q: WinQuery) -> (r: Option<usize>)
    ensures
        r == (match seat_wind_of(q) {
            Some(w) => Some((27 + wind_index(w)) as usize),
            None => None::<usize>,
        }),
{
    match q.progress().seat_wind(q.seat()) {
        Ok(wind) => Some(wind_kind_index(wind)),
        Err(_) => None,
    }
}

pub(crate) fn is_value_pair_exec(q: WinQuery, pair: TileKind) -> (r: bool)
    ensures
        r == is_value_pair(q, pair@ as int),
{
    let k = pair.index();
    if 31 <= k && k <= 33 {
        return true;
    }
    if k == wind_kind_index(q.progress().round_wind()) {
        return true;
    }
    match seat_wind_index(q) {
        Some(seat) => k == seat,
        None => false,
    }
}

fn group_tile_index_exec(g: CompleteGroup) -> (r: Option<usize>)
    ensures
        r == (match group_tile_index(g) {
            Some(k) => Some(k as usize),
            None => None::<usize>,
        }),
{
    match g.kind {
        CompleteGroupKind::Triplet(kind) => Some(kind.index()),
        CompleteGroupKind::Kan(kind) => Some(kind.index()),
        CompleteGroupKind::Sequence(_) => None,
    }
}

fn group_has_exec(g: CompleteGroup, tag: u8) -> (r: bool)
    ensures
        r == group_has(g, tag as int),
{
    if tag == 0 {
        !matches!(g.kind, CompleteGroupKind::Sequence(_)) && !g.open
    } else if tag == 1 {
        match group_tile_index_exec(g) {
            Some(k) => 31 <= k && k <= 33,
            None => false,
        }
    } else if tag == 2 {
        match group_tile_index_exec(g) {
            Some(k) => 27 <= k && k <= 30,
            None => false,
        }
    } else if tag == 3 {
        matches!(g.kind, CompleteGroupKind::Kan(_))
    } else {
        matches!(g.kind, CompleteGroupKind::Sequence(_))
    }
}

pub(crate) fn count_groups_exec(gs: &Vec<CompleteGroup>, tag: u8) -> (r: usize)
    ensures
        r == count_groups(gs@, tag as int),
        r <= gs@.len(),
{
    let mut n: usize = 0;
    let mut i: usize = 0;
    while i < gs.len()
        invariant
            i <= gs@.len(),
            n <= i,
            n == count_groups(gs@.take(i as int), tag as int),
        decreases gs@.len() - i,
    {
        assert(gs@.take(i + 1).drop_last() =~= gs@.take(i as int));
        if group_has_exec(gs[i], tag) {
            n = n + 1;
        }
        i = i + 1;
    }
    assert(gs@.take(i as int) =~= gs@);
    n
}

fn has_triplet_of_exec(gs: &Vec<CompleteGroup>, k: usize) -> (r: bool)
    ensures
        r == has_triplet_of(gs@, k as int),
{
    let mut i: usize = 0;
    while i < gs.len()
        invariant
            i <= gs@.len(),
            forall|j: int| 0 <= j < i ==> #[trigger] group_tile_index(gs@[j]) != Some(k as int),
        decreases gs@.len() - i,
    {
        match group_tile_index_exec(gs[i]) {
            Some(t) => {
                if t == k {
                    return true;
                }
            },
            None => {},
        }
        i = i + 1;
    }
    false
}

fn has_sequence_at_exec(gs: &Vec<CompleteGroup>, k: usize) -> (r: bool)
    ensures
        r == has_sequence_at(gs@, k as int),
{
    let mut i: usize = 0;
    while i < gs.len()
        invariant
            i <= gs@.len(),
            forall|j: int| 0 <= j < i ==> #[trigger] sequence_start(gs@[j]) != Some(k as int),
        decreases gs@.len() - i,
    {
        match gs[i].kind {
            CompleteGroupKind::Sequence(s) => {
                if s.index() == k {
                    assert(sequence_start(gs@[i as int]) == Some(k as int));
                    return true;
                }
            },
            _ => {},
        }
        i = i + 1;
    }
    false
}

fn sequence_count_at_exec(gs: &Vec<CompleteGroup>, k: usize) -> (r: usize)
    ensures
        r == sequence_count_at(gs@, k as int),
        r <= gs@.len(),
{
    let mut n: usize = 0;
    let mut i: usize = 0;
    while i < gs.len()
        invariant
            i <= gs@.len(),
            n <= i,
            n == sequence_count_at(gs@.take(i as int), k as int),
        decreases gs@.len() - i,
    {
        assert(gs@.take(i + 1).drop_last() =~= gs@.take(i as int));
        match gs[i].kind {
            CompleteGroupKind::Sequence(s) => {
                if s.index() == k {
                    n = n + 1;
                }
            },
            _ => {},
        }
        i = i + 1;
    }
    assert(gs@.take(i as int) =~= gs@);
    n
}

fn twin_sequences_exec(gs: &Vec<CompleteGroup>) -> (r: usize)
    requires
        gs@.len() <= 8,
    ensures
        r == twin_sequences(gs@, 34),
{
    let mut total: usize = 0;
    let mut k: usize = 0;
    while k < 34
        invariant
            k <= 34,
            gs@.len() <= 8,
            total == twin_sequences(gs@, k as int),
            total <= 8 * k,
        decreases 34 - k,
    {
        let count = sequence_count_at_exec(gs, k);
        total = total + count / 2;
        k = k + 1;
    }
    total
}

fn sanshoku_sequences_exec(gs: &Vec<CompleteGroup>) -> (r: bool)
    ensures
        r == sanshoku_sequences(gs@),
{
    let mut r: usize = 0;
    while r < 7
        invariant
            r <= 7,
            forall|x: int| 0 <= x < r ==> !(#[trigger] has_sequence_at(gs@, x) && has_sequence_at(gs@, 9 + x) && has_sequence_at(gs@, 18 + x)),
        decreases 7 - r,
    {
        if has_sequence_at_exec(gs, r) && has_sequence_at_exec(gs, 9 + r) && has_sequence_at_exec(gs, 18 + r) {
            return true;
        }
        r = r + 1;
    }
    false
}

fn sanshoku_triplets_exec(gs: &Vec<CompleteGroup>) -> (r: bool)
    ensures
        r == sanshoku_triplets(gs@),
{
    let mut r: usize = 0;
    while r < 9
        invariant
            r <= 9,
            forall|x: int| 0 <= x < r ==> !(#[trigger] has_triplet_of(gs@, x) && has_triplet_of(gs@, 9 + x) && has_triplet_of(gs@, 18 + x)),
        decreases 9 - r,
    {
        if has_triplet_of_exec(gs, r) && has_triplet_of_exec(gs, 9 + r) && has_triplet_of_exec(gs, 18 + r) {
            return true;
        }
        r = r + 1;
    }
    false
}

fn ittsu_exec(gs: &Vec<CompleteGroup>) -> (r: bool)
    ensures
        r == ittsu(gs@),
{
    let mut s: usize = 0;
    while s < 3
        invariant
            s <= 3,
            forall|x: int| 0 <= x < s ==> !(#[trigger] has_sequence_at(gs@, 9 * x) && has_sequence_at(gs@, 9 * x + 3) && has_sequence_at(gs@, 9 * x + 6)),
        decreases 3 - s,
    {
        if has_sequence_at_exec(gs, 9 * s) && has_sequence_at_exec(gs, 9 * s + 3) && has_sequence_at_exec(gs, 9 * s + 6) {
            return true;
        }
        s = s + 1;
    }
    false
}

fn tile_is_exec(t: Tile, tag: u8) -> (r: bool)
    ensures
        r == tile_is(t, tag as int),
{
    let k = t.kind().index();
    let terminal = k < 27 && (k % 9 == 0 || k % 9 == 8);
    if tag == 0 {
        k >= 27
    } else if tag == 1 {
        terminal
    } else if tag == 2 {
        k == 32 || k == 19 || k == 20 || k == 21 || k == 23 || k == 25
    } else if tag == 3 {
        terminal || k >= 27
    } else {
        !(terminal || k >= 27)
    }
}

pub(crate) fn all_tiles_are_exec(tiles: &Vec<Tile>, tag: u8) -> (r: bool)
    ensures
        r == all_tiles_are(tiles@, tag as int),
{
    let mut i: usize = 0;
    while i < tiles.len()
        invariant
            i <= tiles@.len(),
            forall|j: int| 0 <= j < i ==> #[trigger] tile_is(tiles@[j], tag as int),
        decreases tiles@.len() - i,
    {
        if !tile_is_exec(tiles[i], tag) {
            return false;
        }
        i = i + 1;
    }
    true
}

fn has_honor_tile_exec(tiles: &Vec<Tile>) -> (r: bool)
    ensures
        r == has_honor_tile(tiles@),
{
    let mut i: usize = 0;
    while i < tiles.len()
        invariant
            i <= tiles@.len(),
            forall|j: int| 0 <= j < i ==> #[trigger] kind_of(tiles@[j]) < 27,
        decreases tiles@.len() - i,
    {
        if tiles[i].kind().index() >= 27 {
            assert(kind_of(tiles@[i as int]) >= 27);
            return true;
        }
        i = i + 1;
    }
    false
}

fn is_flush_exec(tiles: &Vec<Tile>) -> (r: bool)
    ensures
        r == is_flush(tiles@),
{
    let mut i: usize = 0;
    while i < tiles.len() && tiles[i].kind().index() >= 27
        invariant
            i <= tiles@.len(),
            forall|j: int| 0 <= j < i ==> #[trigger] kind_of(tiles@[j]) >= 27,
        decreases tiles@.len() - i,
    {
        i = i + 1;
    }
    if i == tiles.len() {
        proof {
            assert forall|s: int| 0 <= s < 3 implies !#[trigger] one_suit(tiles@, s) by {}
        }
        return false;
    }
    let first = i;
    let suit = tiles[first].kind().index() / 9;
    let mut j: usize = 0;
    while j < tiles.len()
        invariant
            j <= tiles@.len(),
            first < tiles@.len(),
            kind_of(tiles@[first as int]) < 27,
            suit == kind_of(tiles@[first as int]) / 9,
            forall|x: int| 0 <= x < j && #[trigger] kind_of(tiles@[x]) < 27 ==> kind_of(tiles@[x]) / 9 == suit,
        decreases tiles@.len() - j,
    {
        let k = tiles[j].kind().index();
        if k < 27 && k / 9 != suit {
            proof {
                assert forall|s: int| 0 <= s < 3 implies !#[trigger] one_suit(tiles@, s) by {
                    if one_suit(tiles@, s) {
                        assert(kind_of(tiles@[first as int]) / 9 == s);
                        assert(kind_of(tiles@[j as int]) / 9 == s);
                    }
                }
            }
            return false;
        }
        j = j + 1;
    }
    proof {
        assert(one_suit(tiles@, suit as int));
    }
    true
}

fn group_outside_exec(g: CompleteGroup) -> (r: bool)
    ensures
        r == group_outside(g),
{
    match g.kind {
        CompleteGroupKind::Sequence(s) => {
            let k = s.index();
            k < 27 && (k % 9 == 0 || k % 9 == 6)
        },
        CompleteGroupKind::Triplet(kind) => kind.is_terminal_or_honor(),
        CompleteGroupKind::Kan(kind) => kind.is_terminal_or_honor(),
    }
}

fn outside_hand_exec(it: &Interpretation) -> (r: bool)
    ensures
        r == outside_hand(*it),
{
    if count_groups_exec(&it.groups, 4) == 0 {
        return false;
    }
    match it.pair {
        Some(p) => {
            if !p.is_terminal_or_honor() {
                return false;
            }
        },
        None => {
            return false;
        },
    }
    let mut i: usize = 0;
    while i < it.groups.len()
        invariant
            i <= it.groups@.len(),
            forall|j: int| 0 <= j < i ==> #[trigger] group_outside(it.groups@[j]),
        decreases it.groups@.len() - i,
    {
        if !group_outside_exec(it.groups[i]) {
            return false;
        }
        i = i + 1;
    }
    true
}

fn single_suit_of_first_exec(tiles: &Vec<Tile>) -> (r: bool)
    ensures
        r == single_suit_of_first(tiles@),
{
    if tiles.len() == 0 {
        return false;
    }
    let first = tiles[0].kind().index();
    if first >= 27 {
        return false;
    }
    let mut i: usize = 0;
    while i < tiles.len()
        invariant
            i <= tiles@.len(),
            tiles@.len() > 0,
            first == kind_of(tiles@[0]),
            first < 27,
            forall|j: int| 0 <= j < i ==> #[trigger] kind_of(tiles@[j]) < 27 && kind_of(tiles@[j]) / 9 == first / 9,
        decreases tiles@.len() - i,
    {
        let k = tiles[i].kind().index();
        if !(k < 27 && k / 9 == first / 9) {
            assert(!(kind_of(tiles@[i as int]) < 27 && kind_of(tiles@[i as int]) / 9 == kind_of(tiles@[0]) / 9));
            return false;
        }
        i = i + 1;
    }
    true
}

fn gates_pattern_exec(offset: usize) -> (r: u8)
    ensures
        r == gates_pattern(offset as int),
{
    if offset == 0 || offset == 8 {
        3
    } else {
        1
    }
}

fn nine_gates_exec(it: &Interpretation, winning: TileKind) -> (r: Option<bool>)
    requires
        it.concealed_counts.wf(),
        it.pre_win_counts.wf(),
    ensures
        r == nine_gates(*it, winning@ as int),
{
    if !single_suit_of_first_exec(&it.all_tiles) {
        return None;
    }
    let first = it.all_tiles[0].kind().index();
    let base = (first / 9) * 9;
    let mut o: usize = 0;
    while o < 9
        invariant
            o <= 9,
            base == (kind_of(it.all_tiles@[0]) / 9) * 9,
            base <= 18,
            it.concealed_counts.wf(),
            forall|x: int| 0 <= x < o ==> #[trigger] it.concealed_counts.spec_values()[base + x] >= gates_pattern(x),
        decreases 9 - o,
    {
        if it.concealed_counts.get_index(base + o) < gates_pattern_exec(o) {
            return None;
        }
        o = o + 1;
    }
    let mut pure = true;
    let mut p: usize = 0;
    while p < 9
        invariant
            p <= 9,
            base <= 18,
            it.pre_win_counts.wf(),
            pure == (forall|x: int| 0 <= x < p ==> #[trigger] it.pre_win_counts.spec_values()[base + x] == gates_pattern(x)),
        decreases 9 - p,
    {
        if it.pre_win_counts.get_index(base + p) != gates_pattern_exec(p) {
            pure = false;
        }
        p = p + 1;
    }
    let w = winning.index();
    Some(pure && w < 27 && w / 9 == first / 9)
}

fn wheel_yaku_exec(it: &Interpretation) -> (r: Option<Yaku>)
    requires
        it.concealed_counts.wf(),
    ensures
        r == wheel_yaku(*it),
{
    if !single_suit_of_first_exec(&it.all_tiles) {
        return None;
    }
    let suit = it.all_tiles[0].kind().index() / 9;
    let mut o: usize = 1;
    while o <= 7
        invariant
            1 <= o <= 8,
            suit == kind_of(it.all_tiles@[0]) / 9,
            suit <= 2,
            it.concealed_counts.wf(),
            forall|x: int| 1 <= x < o ==> #[trigger] it.concealed_counts.spec_values()[suit * 9 + x] == 2,
        decreases 8 - o,
    {
        if it.concealed_counts.get_index(suit * 9 + o) != 2 {
            return None;
        }
        o = o + 1;
    }
    Some(
        if suit == 0 {
            Yaku::Daisuurin
        } else if suit == 1 {
            Yaku::Daisharin
        } else {
            Yaku::Daichikurin
        },
    )
}

/// The han or yakuman multiples of a list, added up.
pub(crate) open spec fn sum_values(values: Seq<YakuValue>) -> int
    decreases values.len(),
{
    if values.len() == 0 {
        0
    } else {
        sum_values(values.drop_last()) + values.last().value
    }
}

fn push_if(values: &mut Vec<YakuValue>, condition: bool, value: YakuValue)
    ensures
        final(values)@ == old(values)@ + opt(condition, value),
        sum_values(final(values)@) == sum_values(old(values)@) + (if condition {
            value.value as int
        } else {
            0int
        }),
{
    let ghost before = values@;
    if condition {
        values.push(value);
        assert(values@.drop_last() =~= before);
    }
    assert(values@ =~= before + opt(condition, value));
}

/// The yakuman of a reading, in table order.
#[verifier::rlimit(100)]
pub(crate) fn yakuman(q: WinQuery, it: &Interpretation) -> (r: Vec<YakuValue>)
    requires
        it.concealed_counts.wf(),
        it.pre_win_counts.wf(),
        it.groups@.len() <= 8,
    ensures
        r@ == yakuman_list(q, *it),
        sum_values(r@) <= 38,
{
    let double_variants = match q.rules().scoring.yakuman_value {
        YakumanValue::DoubleVariantsAndStacked => true,
        _ => false,
    };
    let dv: u8 = if double_variants {
        2
    } else {
        1
    };
    let tsumo = match q.source() {
        WinSource::Tsumo(_) => true,
        _ => false,
    };
    let discard = match q.source() {
        WinSource::Discard { .. } => true,
        _ => false,
    };
    let first = !q.calls_occurred() && q.player().discards().len() == 0;
    let dealer = q.seat().index() == q.progress().dealer().index();
    proof {
        crate::riichi::progress::Seat::lemma_view_injective(q.spec_seat(), q.spec_progress().spec_dealer());
    }
    let standard = matches!(it.shape, HandShape::Standard);
    let thirteen = matches!(it.shape, HandShape::ThirteenOrphans);
    let sided = matches!(it.wait, WaitKind::ThirteenSided);
    let concealed_triplets = count_groups_exec(&it.groups, 0);
    let tanki = matches!(it.wait, WaitKind::Pair);
    let winds = count_groups_exec(&it.groups, 2);
    let dragons = count_groups_exec(&it.groups, 1);
    let kans = count_groups_exec(&it.groups, 3);
    let gates = if is_closed(q) {
        nine_gates_exec(it, q.winning_tile().kind())
    } else {
        None
    };
    let old = q.rules().scoring.old_yaku;
    let wheel = if old && matches!(it.shape, HandShape::SevenPairs) {
        wheel_yaku_exec(it)
    } else {
        None
    };
    let wind_pair = match it.pair {
        Some(p) => {
            let k = p.index();
            27 <= k && k <= 30
        },
        None => false,
    };
    let mut values: Vec<YakuValue> = Vec::new();
    push_if(&mut values, tsumo && first && dealer, YakuValue::yakuman(Yaku::Tenhou, 1));
    push_if(&mut values, tsumo && first && !dealer, YakuValue::yakuman(Yaku::Chiihou, 1));
    push_if(&mut values, thirteen && !sided, YakuValue::yakuman(Yaku::ThirteenOrphans, 1));
    push_if(
        &mut values,
        thirteen && sided,
        YakuValue::yakuman(Yaku::ThirteenWaitOrphans, dv),
    );
    push_if(
        &mut values,
        standard && concealed_triplets == 4 && !tanki && tsumo,
        YakuValue::yakuman(Yaku::Suuankou, 1),
    );
    push_if(
        &mut values,
        standard && concealed_triplets == 4 && tanki,
        YakuValue::yakuman(Yaku::SuuankouTanki, dv),
    );
    push_if(&mut values, standard && dragons == 3, YakuValue::yakuman(Yaku::Daisangen, 1));
    push_if(&mut values, all_tiles_are_exec(&it.all_tiles, 2), YakuValue::yakuman(Yaku::Ryuuiisou, 1));
    push_if(&mut values, all_tiles_are_exec(&it.all_tiles, 0), YakuValue::yakuman(Yaku::Tsuuiisou, 1));
    push_if(
        &mut values,
        standard && winds == 3 && wind_pair,
        YakuValue::yakuman(Yaku::Shousuushi, 1),
    );
    push_if(&mut values, standard && winds == 4, YakuValue::yakuman(Yaku::Daisuushi, dv));
    push_if(&mut values, all_tiles_are_exec(&it.all_tiles, 1), YakuValue::yakuman(Yaku::Chinroutou, 1));
    push_if(&mut values, standard && kans == 4, YakuValue::yakuman(Yaku::Suukantsu, 1));
    push_if(&mut values, gates == Some(false), YakuValue::yakuman(Yaku::ChuurenPoutou, 1));
    push_if(&mut values, gates == Some(true), YakuValue::yakuman(Yaku::PureChuurenPoutou, dv));
    push_if(
        &mut values,
        old && !dealer && first && discard,
        YakuValue::yakuman(Yaku::Renhou, 1),
    );
    push_if(&mut values, wheel == Some(Yaku::Daisharin), YakuValue::yakuman(Yaku::Daisharin, 1));
    push_if(&mut values, wheel == Some(Yaku::Daichikurin), YakuValue::yakuman(Yaku::Daichikurin, 1));
    push_if(&mut values, wheel == Some(Yaku::Daisuurin), YakuValue::yakuman(Yaku::Daisuurin, 1));
    proof {
        assert(values@ == yakuman_list(q, *it));
    }
    values
}

#[verifier::rlimit(60)]
fn push_context(values: &mut Vec<YakuValue>, q: WinQuery, closed: bool)
    requires
        closed == closed_hand(q),
    ensures
        sum_values(final(values)@) <= sum_values(old(values)@) + 6,
        final(values)@ == old(values)@ + context_list(q, closed),
{
    let ghost start = values@;
    let player = q.player();
    let riichi = closed && matches!(player.riichi_status(), RiichiStatus::Established);
    let double = player.is_double_riichi();
    let tsumo = matches!(q.source(), WinSource::Tsumo(_));
    push_if(values, tsumo && closed, YakuValue::han(Yaku::MenzenTsumo, 1));
    push_if(values, riichi && !double, YakuValue::han(Yaku::Riichi, 1));
    push_if(values, riichi && double, YakuValue::han(Yaku::DoubleRiichi, 2));
    push_if(values, riichi && player.is_ippatsu_eligible(), YakuValue::han(Yaku::Ippatsu, 1));
    assert(values@ == start + context_list(q, closed));
}

#[verifier::rlimit(60)]
fn push_value_tiles(values: &mut Vec<YakuValue>, q: WinQuery, gs: &Vec<CompleteGroup>, standard: bool)
    ensures
        sum_values(final(values)@) <= sum_values(old(values)@) + 6,
        final(values)@ == old(values)@ + value_tile_list(q, gs@, standard),
{
    let ghost start = values@;
    let round_kind = wind_kind_index(q.progress().round_wind());
    let seat_triplet = match seat_wind_index(q) {
        Some(k) => has_triplet_of_exec(gs, k),
        None => false,
    };
    push_if(values, standard && seat_triplet, YakuValue::han(Yaku::SeatWind, 1));
    push_if(values, standard && has_triplet_of_exec(gs, round_kind), YakuValue::han(Yaku::RoundWind, 1));
    push_if(values, standard && has_triplet_of_exec(gs, 31), YakuValue::han(Yaku::WhiteDragon, 1));
    push_if(values, standard && has_triplet_of_exec(gs, 32), YakuValue::han(Yaku::GreenDragon, 1));
    push_if(values, standard && has_triplet_of_exec(gs, 33), YakuValue::han(Yaku::RedDragon, 1));
    assert(values@ == start + value_tile_list(q, gs@, standard));
}

#[verifier::rlimit(60)]
fn push_last_tile(values: &mut Vec<YakuValue>, q: WinQuery)
    ensures
        sum_values(final(values)@) <= sum_values(old(values)@) + 6,
        final(values)@ == old(values)@ + last_tile_list(q),
{
    let ghost start = values@;
    let source = q.source();
    let last_tile = q.wall().remaining_live_draws() == 0;
    push_if(
        values,
        matches!(source, WinSource::Tsumo(DrawSource::LiveWall)) && last_tile,
        YakuValue::han(Yaku::Haitei, 1),
    );
    push_if(values, matches!(source, WinSource::Discard { .. }) && last_tile, YakuValue::han(Yaku::Houtei, 1));
    push_if(
        values,
        matches!(source, WinSource::AddedKan { .. }) || matches!(source, WinSource::ConcealedKan { .. }),
        YakuValue::han(Yaku::Chankan, 1),
    );
    push_if(values, matches!(source, WinSource::Tsumo(DrawSource::Rinshan)), YakuValue::han(Yaku::Rinshan, 1));
    assert(values@ == start + last_tile_list(q));
}

#[verifier::rlimit(60)]
fn push_early(values: &mut Vec<YakuValue>, q: WinQuery, it: &Interpretation, closed: bool)
    requires
        it.groups@.len() <= 8,
    ensures
        final(values)@ == old(values)@ + early_list(q, *it, closed),
        sum_values(final(values)@) <= sum_values(old(values)@) + 3,
{
    let ghost start = values@;
    let standard = matches!(it.shape, HandShape::Standard);
    let gs = &it.groups;
    let twins = twin_sequences_exec(gs);
    let pinfu_pair = match it.pair {
        Some(p) => !is_value_pair_exec(q, p),
        None => false,
    };
    push_if(
        values,
        standard && closed && count_groups_exec(gs, 4) == 4 && pinfu_pair && matches!(it.wait, WaitKind::TwoSided),
        YakuValue::han(Yaku::Pinfu, 1),
    );
    push_if(
        values,
        (closed || q.rules().calls.kuitan) && all_tiles_are_exec(&it.all_tiles, 4),
        YakuValue::han(Yaku::Tanyao, 1),
    );
    push_if(values, standard && closed && twins == 1, YakuValue::han(Yaku::Iipeikou, 1));
    assert(values@ == start + early_list(q, *it, closed));
}

#[verifier::rlimit(60)]
fn push_middle(values: &mut Vec<YakuValue>, it: &Interpretation)
    ensures
        final(values)@ == old(values)@ + middle_list(*it),
        sum_values(final(values)@) <= sum_values(old(values)@) + 14,
{
    let ghost start = values@;
    let standard = matches!(it.shape, HandShape::Standard);
    let seven = matches!(it.shape, HandShape::SevenPairs);
    let gs = &it.groups;
    let dragon_pair = match it.pair {
        Some(p) => {
            let k = p.index();
            31 <= k && k <= 33
        },
        None => false,
    };
    push_if(values, seven, YakuValue::han(Yaku::SevenPairs, 2));
    push_if(values, standard && count_groups_exec(gs, 4) == 0, YakuValue::han(Yaku::Toitoi, 2));
    push_if(values, standard && count_groups_exec(gs, 0) >= 3, YakuValue::han(Yaku::Sanankou, 2));
    push_if(values, standard && sanshoku_triplets_exec(gs), YakuValue::han(Yaku::SanshokuDoukou, 2));
    push_if(values, standard && count_groups_exec(gs, 3) >= 3, YakuValue::han(Yaku::Sankantsu, 2));
    push_if(
        values,
        standard && count_groups_exec(gs, 1) == 2 && dragon_pair,
        YakuValue::han(Yaku::Shousangen, 2),
    );
    push_if(
        values,
        (standard || seven) && all_tiles_are_exec(&it.all_tiles, 3),
        YakuValue::han(Yaku::Honroutou, 2),
    );
    assert(values@ == start + middle_list(*it));
}

fn closed_value_exec(closed: bool, when_closed: u8, when_open: u8) -> (r: u8)
    ensures
        r == closed_value(closed, when_closed, when_open),
{
    if closed {
        when_closed
    } else {
        when_open
    }
}

#[verifier::rlimit(60)]
fn push_late(values: &mut Vec<YakuValue>, it: &Interpretation, closed: bool)
    requires
        it.groups@.len() <= 8,
    ensures
        final(values)@ == old(values)@ + late_list(*it, closed),
        sum_values(final(values)@) <= sum_values(old(values)@) + 22,
{
    let ghost start = values@;
    let standard = matches!(it.shape, HandShape::Standard);
    let gs = &it.groups;
    let honor = has_honor_tile_exec(&it.all_tiles);
    let outside = standard && outside_hand_exec(it);
    let flush = is_flush_exec(&it.all_tiles);
    let twins = twin_sequences_exec(gs);
    push_if(
        values,
        standard && sanshoku_sequences_exec(gs),
        YakuValue::han(Yaku::SanshokuDoujun, closed_value_exec(closed, 2, 1)),
    );
    push_if(values, standard && ittsu_exec(gs), YakuValue::han(Yaku::Ittsu, closed_value_exec(closed, 2, 1)));
    push_if(values, outside && honor, YakuValue::han(Yaku::Chanta, closed_value_exec(closed, 2, 1)));
    push_if(values, standard && closed && twins >= 2, YakuValue::han(Yaku::Ryanpeikou, 3));
    push_if(values, flush && honor, YakuValue::han(Yaku::Honitsu, closed_value_exec(closed, 3, 2)));
    push_if(values, outside && !honor, YakuValue::han(Yaku::Junchan, closed_value_exec(closed, 3, 2)));
    push_if(values, flush && !honor, YakuValue::han(Yaku::Chinitsu, closed_value_exec(closed, 6, 5)));
    assert(values@ == start + late_list(*it, closed));
}

/// The ordinary patterns of a reading, in table order.
pub(crate) fn regular_yaku(q: WinQuery, it: &Interpretation) -> (r: Vec<YakuValue>)
    requires
        it.groups@.len() <= 8,
    ensures
        r@ == regular_list(q, *it),
        sum_values(r@) <= 60,
{
    let closed = is_closed(q);
    let standard = matches!(it.shape, HandShape::Standard);
    let mut values: Vec<YakuValue> = Vec::new();
    push_context(&mut values, q, closed);
    push_value_tiles(&mut values, q, &it.groups, standard);
    push_early(&mut values, q, it, closed);
    push_last_tile(&mut values, q);
    push_middle(&mut values, it);
    push_late(&mut values, it, closed);
    values
}

fn dora_after_exec(k: usize) -> (r: usize)
    requires
        k < 34,
    ensures
        r == dora_after(k as int),
        r < 34,
{
    if k < 27 {
        if k % 9 == 8 {
            k - 8
        } else {
            k + 1
        }
    } else if k <= 30 {
        if k == 30 {
            27
        } else {
            k + 1
        }
    } else if k == 33 {
        31
    } else {
        k + 1
    }
}

fn count_kind_exec(tiles: &Vec<Tile>, k: usize) -> (r: usize)
    ensures
        r == count_kind(tiles@, k as int),
        r <= tiles@.len(),
{
    let mut n: usize = 0;
    let mut i: usize = 0;
    while i < tiles.len()
        invariant
            i <= tiles@.len(),
            n <= i,
            n == count_kind(tiles@.take(i as int), k as int),
        decreases tiles@.len() - i,
    {
        assert(tiles@.take(i + 1).drop_last() =~= tiles@.take(i as int));
        if tiles[i].kind().index() == k {
            n = n + 1;
        }
        i = i + 1;
    }
    assert(tiles@.take(i as int) =~= tiles@);
    n
}

fn dora_hits_exec(indicators: &Vec<Tile>, tiles: &Vec<Tile>) -> (r: u8)
    requires
        indicators@.len() <= 5,
        physical_tiles(tiles@),
    ensures
        r == dora_hits(indicators@, tiles@, indicators@.len() as int),
        r <= 20,
{
    let mut total: u8 = 0;
    let mut i: usize = 0;
    while i < indicators.len()
        invariant
            i <= indicators@.len(),
            indicators@.len() <= 5,
            physical_tiles(tiles@),
            total == dora_hits(indicators@, tiles@, i as int),
            total <= 4 * i,
        decreases indicators@.len() - i,
    {
        let target = dora_after_exec(indicators[i].kind().index());
        let hits = count_kind_exec(tiles, target);
        assert(hits <= 4);
        total = total + hits as u8;
        i = i + 1;
    }
    total
}

fn red_tiles_exec(tiles: &Vec<Tile>) -> (r: usize)
    ensures
        r == red_tiles(tiles@),
        r <= tiles@.len(),
{
    let mut n: usize = 0;
    let mut i: usize = 0;
    while i < tiles.len()
        invariant
            i <= tiles@.len(),
            n <= i,
            n == red_tiles(tiles@.take(i as int)),
        decreases tiles@.len() - i,
    {
        assert(tiles@.take(i + 1).drop_last() =~= tiles@.take(i as int));
        if tiles[i].is_red() {
            n = n + 1;
        }
        i = i + 1;
    }
    assert(tiles@.take(i as int) =~= tiles@);
    n
}

/// Dora, ura dora (only for an established riichi where the rules count it) and red fives.
pub(crate) fn bonus_han(q: WinQuery, it: &Interpretation) -> (r: BonusHan)
    requires
        physical_tiles(it.all_tiles@),
        it.all_tiles@.len() <= 40,
    ensures
        r == bonus_of(q, *it),
        r.dora as int + r.ura_dora as int + r.red_dora as int <= 80,
{
    let wall = q.wall();
    wall.lemma_wf();
    let indicators = wall.current_dora_indicators();
    assert(indicators@ =~= dora_indicators(q.spec_wall()));
    let dora = dora_hits_exec(&indicators, &it.all_tiles);
    let ura = if q.rules().bonuses.ura_dora && matches!(q.player().riichi_status(), RiichiStatus::Established) {
        let ura = wall.matching_ura_dora_indicators();
        assert(ura@ =~= ura_indicators(q.spec_wall()));
        dora_hits_exec(&ura, &it.all_tiles)
    } else {
        0
    };
    let red = red_tiles_exec(&it.all_tiles);
    BonusHan::new(dora, ura, red as u8)
}

/// The dora cycle: a suited indicator points at the next rank of its own suit, a nine at the
/// one; a wind indicator at the next wind, East after South after ... after North after East;
/// a dragon indicator at the next dragon, White after Red. So North points at East, Red at
/// White, and every indicator points at a kind of its own family.
pub(crate) proof fn law_dora_cycle(k: int)
    requires
        0 <= k < 34,
    ensures
        0 <= dora_after(k) < 34,
        k < 27 ==> dora_after(k) / 9 == k / 9 && dora_after(k) % 9 == (k % 9 + 1) % 9,
        27 <= k <= 30 ==> 27 <= dora_after(k) <= 30 && dora_after(k) - 27 == (k - 27 + 1) % 4,
        31 <= k <= 33 ==> 31 <= dora_after(k) <= 33 && dora_after(k) - 31 == (k - 31 + 1) % 3,
        k == 30 ==> dora_after(k) == 27,
        k == 33 ==> dora_after(k) == 31,
{
}

} // verus!
