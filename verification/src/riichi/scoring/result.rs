use vstd::prelude::*;

verus! {

/// The scoring patterns, in the order in which a result lists them.
#[derive(Clone, Copy, Debug, PartialEq, Eq, Structural, Hash, PartialOrd, Ord)]
pub enum Yaku {
    MenzenTsumo,
    Riichi,
    DoubleRiichi,
    Ippatsu,
    SeatWind,
    RoundWind,
    WhiteDragon,
    GreenDragon,
    RedDragon,
    Pinfu,
    Tanyao,
    Iipeikou,
    Haitei,
    Houtei,
    Chankan,
    Rinshan,
    SevenPairs,
    Toitoi,
    Sanankou,
    SanshokuDoukou,
    Sankantsu,
    Shousangen,
    Honroutou,
    SanshokuDoujun,
    Ittsu,
    Chanta,
    Ryanpeikou,
    Honitsu,
    Junchan,
    Chinitsu,
    Tenhou,
    Chiihou,
    ThirteenOrphans,
    ThirteenWaitOrphans,
    Suuankou,
    SuuankouTanki,
    Daisangen,
    Ryuuiisou,
    Tsuuiisou,
    Shousuushi,
    Daisuushi,
    Chinroutou,
    Suukantsu,
    ChuurenPoutou,
    PureChuurenPoutou,
    Renhou,
    Daisharin,
    Daichikurin,
    Daisuurin,
}

/// A pattern that a hand scored, with its han, or its multiple of a yakuman.
#[derive(Clone, Copy, Debug, PartialEq, Eq, Structural)]
pub struct YakuValue {
    pub(crate) yaku: Yaku,
    pub(crate) value: u8,
    pub(crate) yakuman: bool,
}

impl YakuValue {
    pub closed spec fn spec_yaku(self) -> Yaku {
        self.yaku
    }

    pub closed spec fn spec_value(self) -> u8 {
        self.value
    }

    pub closed spec fn spec_is_yakuman(self) -> bool {
        self.yakuman
    }

    pub(crate) fn han(yaku: Yaku, value: u8) -> (r: YakuValue)
        ensures
            r == (YakuValue { yaku, value, yakuman: false }),
    {
        YakuValue { yaku, value, yakuman: false }
    }

    pub(crate) fn yakuman(yaku: Yaku, multiplier: u8) -> (r: YakuValue)
        ensures
            r == (YakuValue { yaku, value: multiplier, yakuman: true }),
    {
        YakuValue { yaku, value: multiplier, yakuman: true }
    }

    #[must_use]
    pub fn yaku(self) -> (r: Yaku)
        ensures
            r == self.spec_yaku(),
    {
        self.yaku
    }

    #[must_use]
    pub fn value(self) -> (r: u8)
        ensures
            r == self.spec_value(),
    {
        self.value
    }

    #[must_use]
    pub fn is_yakuman(self) -> (r: bool)
        ensures
            r == self.spec_is_yakuman(),
    {
        self.yakuman
    }
}

/// The han a hand earns from dora, ura dora and red fives, on top of its patterns.
#[derive(Clone, Copy, Debug, PartialEq, Eq, Structural)]
pub struct BonusHan {
    pub(crate) dora: u8,
    pub(crate) ura_dora: u8,
    pub(crate) red_dora: u8,
}

impl BonusHan {
    pub closed spec fn spec_dora(self) -> u8 {
        self.dora
    }

    pub closed spec fn spec_ura_dora(self) -> u8 {
        self.ura_dora
    }

    pub closed spec fn spec_red_dora(self) -> u8 {
        self.red_dora
    }

    pub(crate) fn new(dora: u8, ura_dora: u8, red_dora: u8) -> (r: BonusHan)
        ensures
            r == (BonusHan { dora, ura_dora, red_dora }),
    {
        BonusHan { dora, ura_dora, red_dora }
    }

    #[must_use]
    pub fn dora(self) -> (r: u8)
        ensures
            r == self.spec_dora(),
    {
        self.dora
    }

    #[must_use]
    pub fn ura_dora(self) -> (r: u8)
        ensures
            r == self.spec_ura_dora(),
    {
        self.ura_dora
    }

    #[must_use]
    pub fn red_dora(self) -> (r: u8)
        ensures
            r == self.spec_red_dora(),
    {
        self.red_dora
    }

    /// All bonus han together.
    #[must_use]
    pub fn total(self) -> (r: u8)
        requires
            self.spec_dora() + self.spec_ura_dora() + self.spec_red_dora() <= u8::MAX,
        ensures
            r == self.spec_dora() + self.spec_ura_dora() + self.spec_red_dora(),
    {
        self.dora + self.ura_dora + self.red_dora
    }
}

impl Default for BonusHan {
    /// No bonus han at all.
    fn default() -> (r: BonusHan)
        ensures
            r.spec_dora() == 0 && r.spec_ura_dora() == 0 && r.spec_red_dora() == 0,
    {
        BonusHan { dora: 0, ura_dora: 0, red_dora: 0 }
    }
}

/// How the winning hand is built.
#[derive(Clone, Copy, Debug, PartialEq, Eq, Structural, PartialOrd, Ord)]
pub enum HandShape {
    Standard,
    SevenPairs,
    ThirteenOrphans,
}

/// How the winning tile completed the hand.
#[derive(Clone, Copy, Debug, PartialEq, Eq, Structural, PartialOrd, Ord)]
pub enum WaitKind {
    TwoSided,
    Edge,
    Closed,
    Pair,
    DoublePair,
    ThirteenSided,
}

/// The limit that capped a hand's base points, if any.
#[derive(Clone, Copy, Debug, PartialEq, Eq, Structural, PartialOrd, Ord)]
pub enum Limit {
    NoLimit,
    Mangan,
    Haneman,
    Baiman,
    Sanbaiman,
    KazoeYakuman,
    Yakuman(u8),
}

/// What the other players pay the winner.
#[derive(Clone, Copy, Debug, PartialEq, Eq, Structural)]
pub enum Payment {
    Ron { points: u32 },
    Tsumo { dealer_payment: u32, other_payment: u32 },
}

/// What a winner receives in all from a payment at a table of `player_count` players.
pub open spec fn payment_total(payment: Payment, player_count: int, winner_is_dealer: bool) -> int {
    match payment {
        Payment::Ron { points } => points as int,
        Payment::Tsumo { dealer_payment, other_payment } => if winner_is_dealer {
            other_payment * (player_count - 1)
        } else {
            dealer_payment + other_payment * (player_count - 2)
        },
    }
}

impl Payment {
    /// What the winner receives in all; a dealer's tsumo is paid by every other player alike.
    #[must_use]
    pub fn total_received(self, player_count: u8, winner_is_dealer: bool) -> (r: u32)
        requires
            player_count >= 2,
            payment_total(self, player_count as int, winner_is_dealer) <= u32::MAX,
        ensures
            r == payment_total(self, player_count as int, winner_is_dealer),
    {
        match self {
            Payment::Ron { points } => points,
            Payment::Tsumo { dealer_payment, other_payment } => {
                if winner_is_dealer {
                    let payers = player_count as u32 - 1;
                    assert(other_payment * payers <= u32::MAX);
                    other_payment * payers
                } else {
                    let payers = player_count as u32 - 2;
                    proof {
                        vstd::arithmetic::mul::lemma_mul_nonnegative(other_payment as int, payers as int);
                    }
                    assert(other_payment * payers <= u32::MAX);
                    dealer_payment + other_payment * payers
                }
            },
        }
    }
}

/// The scored reading of a winning hand.
#[derive(Clone, Debug, PartialEq, Eq)]
pub struct WinEvaluation {
    pub(crate) shape: HandShape,
    pub(crate) wait: WaitKind,
    pub(crate) yaku: Vec<YakuValue>,
    pub(crate) bonuses: BonusHan,
    pub(crate) han: u8,
    pub(crate) fu: u16,
    pub(crate) yakuman_multiplier: u8,
    pub(crate) base_points: u32,
    pub(crate) limit: Limit,
    pub(crate) payment: Payment,
}

impl WinEvaluation {
    pub closed spec fn spec_shape(&self) -> HandShape {
        self.shape
    }

    pub closed spec fn spec_wait(&self) -> WaitKind {
        self.wait
    }

    pub closed spec fn spec_yaku(&self) -> Seq<YakuValue> {
        self.yaku@
    }

    pub closed spec fn spec_bonuses(&self) -> BonusHan {
        self.bonuses
    }

    pub closed spec fn spec_han(&self) -> u8 {
        self.han
    }

    pub closed spec fn spec_fu(&self) -> u16 {
        self.fu
    }

    pub closed spec fn spec_yakuman_multiplier(&self) -> u8 {
        self.yakuman_multiplier
    }

    pub closed spec fn spec_base_points(&self) -> u32 {
        self.base_points
    }

    pub closed spec fn spec_limit(&self) -> Limit {
        self.limit
    }

    pub closed spec fn spec_payment(&self) -> Payment {
        self.payment
    }

    /// An evaluation made of its parts, as the scorer assembles one.
    pub fn new(
        shape: HandShape,
        wait: WaitKind,
        yaku: Vec<YakuValue>,
        bonuses: BonusHan,
        han: u8,
        fu: u16,
        yakuman_multiplier: u8,
        base_points: u32,
        limit: Limit,
        payment: Payment,
    ) -> (r: WinEvaluation)
        ensures
            r.spec_shape() == shape,
            r.spec_wait() == wait,
            r.spec_yaku() == yaku@,
            r.spec_bonuses() == bonuses,
            r.spec_han() == han,
            r.spec_fu() == fu,
            r.spec_yakuman_multiplier() == yakuman_multiplier,
            r.spec_base_points() == base_points,
            r.spec_limit() == limit,
            r.spec_payment() == payment,
    {
        WinEvaluation { shape, wait, yaku, bonuses, han, fu, yakuman_multiplier, base_points, limit, payment }
    }

    #[must_use]
    pub fn shape(&self) -> (r: HandShape)
        ensures
            r == self.spec_shape(),
    {
        self.shape
    }

    #[must_use]
    pub fn wait(&self) -> (r: WaitKind)
        ensures
            r == self.spec_wait(),
    {
        self.wait
    }

    #[must_use]
    pub fn yaku(&self) -> (r: &[YakuValue])
        ensures
            r@ == self.spec_yaku(),
    {
        self.yaku.as_slice()
    }

    #[must_use]
    pub fn bonuses(&self) -> (r: BonusHan)
        ensures
            r == self.spec_bonuses(),
    {
        self.bonuses
    }

    #[must_use]
    pub fn han(&self) -> (r: u8)
        ensures
            r == self.spec_han(),
    {
        self.han
    }

    #[must_use]
    pub fn fu(&self) -> (r: u16)
        ensures
            r == self.spec_fu(),
    {
        self.fu
    }

    #[must_use]
    pub fn yakuman_multiplier(&self) -> (r: u8)
        ensures
            r == self.spec_yakuman_multiplier(),
    {
        self.yakuman_multiplier
    }

    #[must_use]
    pub fn base_points(&self) -> (r: u32)
        ensures
            r == self.spec_base_points(),
    {
        self.base_points
    }

    #[must_use]
    pub fn limit(&self) -> (r: Limit)
        ensures
            r == self.spec_limit(),
    {
        self.limit
    }

    #[must_use]
    pub fn payment(&self) -> (r: Payment)
        ensures
            r == self.spec_payment(),
    {
        self.payment
    }
}

} // verus!
