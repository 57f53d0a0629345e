use vstd::prelude::*;

use super::tile_set::{seat_count_of, RiichiVariant};

verus! {

#[derive(Clone, Copy, Debug, PartialEq, Eq, Structural, Hash, PartialOrd, Ord)]
pub enum Wind {
    East,
    South,
    West,
    North,
}

/// The wind at a given distance counter-clockwise from the dealer.
pub open spec fn wind_at(offset: int) -> Wind {
    if offset == 0 {
        Wind::East
    } else if offset == 1 {
        Wind::South
    } else if offset == 2 {
        Wind::West
    } else {
        Wind::North
    }
}

/// The wind that follows `wind` in the East, South, West, North cycle.
pub open spec fn spec_next_wind(wind: Wind) -> Wind {
    match wind {
        Wind::East => Wind::South,
        Wind::South => Wind::West,
        Wind::West => Wind::North,
        Wind::North => Wind::East,
    }
}

impl Wind {
    pub(crate) fn from_offset(offset: u8) -> (r: Option<Wind>)
        ensures
            offset < 4 ==> r == Some(wind_at(offset as int)),
            offset >= 4 ==> r is None,
    {
        match offset {
            0 => Some(Wind::East),
            1 => Some(Wind::South),
            2 => Some(Wind::West),
            3 => Some(Wind::North),
            _ => None,
        }
    }

    /// The wind that follows in the East, South, West, North cycle.
    pub fn next(self) -> (r: Wind)
        ensures
            r == spec_next_wind(self),
    {
        match self {
            Wind::East => Wind::South,
            Wind::South => Wind::West,
            Wind::West => Wind::North,
            Wind::North => Wind::East,
        }
    }
}

/// A seat at the table, counted from zero.
#[derive(Clone, Copy, Debug, PartialEq, Eq, Structural, Hash, PartialOrd, Ord)]
pub struct Seat(u8);

impl View for Seat {
    type V = u8;

    closed spec fn view(&self) -> u8 {
        self.0
    }
}

impl Seat {
    #[verifier::type_invariant]
    spec fn inv(self) -> bool {
        self.0 < 4
    }

    /// Two seats with the same index are the same seat.
    pub broadcast proof fn lemma_view_injective(a: Seat, b: Seat)
        ensures
            #[trigger] a@ == #[trigger] b@ ==> a == b,
    {
    }

    pub fn new(variant: RiichiVariant, index: u8) -> (r: Result<Seat, ProgressError>)
        ensures
            index < seat_count_of(variant) ==> (r matches Ok(seat) && seat@ == index),
            index >= seat_count_of(variant) ==> r == Err::<Seat, ProgressError>(
                ProgressError::InvalidSeat { index, seat_count: seat_count_of(variant) },
            ),
    {
        let seat_count = variant.seat_count().value();
        if index < seat_count {
            Ok(Seat(index))
        } else {
            Err(ProgressError::InvalidSeat { index, seat_count })
        }
    }

    #[must_use]
    pub fn index(self) -> (r: u8)
        ensures
            r == self@,
            r < 4,
    {
        proof {
            use_type_invariant(&self);
        }
        self.0
    }
}

/// The hand number within a round wind, from one up to the number of seats.
#[derive(Clone, Copy, Debug, PartialEq, Eq, Structural, Hash, PartialOrd, Ord)]
pub struct RoundNumber(u8);

impl View for RoundNumber {
    type V = u8;

    closed spec fn view(&self) -> u8 {
        self.0
    }
}

impl RoundNumber {
    #[verifier::type_invariant]
    spec fn inv(self) -> bool {
        1 <= self.0 <= 4
    }

    pub fn new(variant: RiichiVariant, value: u8) -> (r: Result<RoundNumber, ProgressError>)
        ensures
            1 <= value <= seat_count_of(variant) ==> (r matches Ok(round) && round@ == value),
            !(1 <= value <= seat_count_of(variant)) ==> r == Err::<RoundNumber, ProgressError>(
                ProgressError::InvalidRoundNumber { value, maximum: seat_count_of(variant) },
            ),
    {
        let maximum = variant.seat_count().value();
        if value >= 1 && value <= maximum {
            Ok(RoundNumber(value))
        } else {
            Err(ProgressError::InvalidRoundNumber { value, maximum })
        }
    }

    #[must_use]
    pub fn value(self) -> (r: u8)
        ensures
            r == self@,
            1 <= r <= 4,
    {
        proof {
            use_type_invariant(&self);
        }
        self.0
    }
}

/// The repeat counter of the current hand.
#[derive(Clone, Copy, Debug, Default, PartialEq, Eq, Structural, Hash, PartialOrd, Ord)]
pub struct Honba(u32);

impl View for Honba {
    type V = u32;

    closed spec fn view(&self) -> u32 {
        self.0
    }
}

impl Honba {
    /// No repeats.
    #[must_use]
    pub fn zero() -> (r: Honba)
        ensures
            r@ == 0,
    {
        Honba(0)
    }

    #[must_use]
    pub fn new(value: u32) -> (r: Honba)
        ensures
            r@ == value,
    {
        Honba(value)
    }

    #[must_use]
    pub fn value(self) -> (r: u32)
        ensures
            r == self@,
    {
        self.0
    }

    pub fn checked_increment(self) -> (r: Result<Honba, ProgressError>)
        ensures
            self@ < u32::MAX ==> (r matches Ok(next) && next@ == self@ + 1),
            self@ == u32::MAX ==> (r matches Err(ProgressError::CounterOverflow { counter })
                && counter@ == "honba"@),
    {
        match self.0.checked_add(1) {
            Some(value) => Ok(Honba(value)),
            None => Err(ProgressError::CounterOverflow { counter: "honba" }),
        }
    }
}

/// Riichi deposits waiting on the table.
#[derive(Clone, Copy, Debug, Default, PartialEq, Eq, Structural, Hash, PartialOrd, Ord)]
pub struct RiichiSticks(u32);

impl View for RiichiSticks {
    type V = u32;

    closed spec fn view(&self) -> u32 {
        self.0
    }
}

impl RiichiSticks {
    /// No deposits.
    #[must_use]
    pub fn zero() -> (r: RiichiSticks)
        ensures
            r@ == 0,
    {
        RiichiSticks(0)
    }

    #[must_use]
    pub fn new(value: u32) -> (r: RiichiSticks)
        ensures
            r@ == value,
    {
        RiichiSticks(value)
    }

    #[must_use]
    pub fn value(self) -> (r: u32)
        ensures
            r == self@,
    {
        self.0
    }

    pub fn checked_deposit(self) -> (r: Result<RiichiSticks, ProgressError>)
        ensures
            self@ < u32::MAX ==> (r matches Ok(next) && next@ == self@ + 1),
            self@ == u32::MAX ==> (r matches Err(ProgressError::CounterOverflow { counter })
                && counter@ == "riichi sticks"@),
    {
        match self.0.checked_add(1) {
            Some(value) => Ok(RiichiSticks(value)),
            None => Err(ProgressError::CounterOverflow { counter: "riichi sticks" }),
        }
    }

    #[must_use]
    pub fn cleared(self) -> (r: RiichiSticks)
        ensures
            r@ == 0,
    {
        RiichiSticks(0)
    }
}

/// Where the table stands: round wind and number, dealer, and the two counters.
#[derive(Clone, Copy, Debug, PartialEq, Eq, Structural)]
pub struct TableProgress {
    variant: RiichiVariant,
    round_wind: Wind,
    round_number: RoundNumber,
    dealer: Seat,
    honba: Honba,
    riichi_sticks: RiichiSticks,
}

impl TableProgress {
    #[verifier::type_invariant]
    spec fn inv(self) -> bool {
        &&& self.dealer@ < seat_count_of(self.variant)
        &&& 1 <= self.round_number@ <= seat_count_of(self.variant)
    }

    pub closed spec fn spec_variant(self) -> RiichiVariant {
        self.variant
    }

    pub closed spec fn spec_round_wind(self) -> Wind {
        self.round_wind
    }

    pub closed spec fn spec_round_number(self) -> RoundNumber {
        self.round_number
    }

    pub closed spec fn spec_dealer(self) -> Seat {
        self.dealer
    }

    pub closed spec fn spec_honba(self) -> Honba {
        self.honba
    }

    pub closed spec fn spec_riichi_sticks(self) -> RiichiSticks {
        self.riichi_sticks
    }

    /// The same table with one more riichi stick on it.
    pub closed spec fn spec_deposited(self) -> TableProgress {
        TableProgress { riichi_sticks: RiichiSticks((self.riichi_sticks.0 + 1) as u32), ..self }
    }

    /// Puts one more riichi stick on the table, unless the counter is full.
    pub(crate) fn deposit_riichi_stick(self) -> (r: Result<TableProgress, ProgressError>)
        ensures
            self.spec_riichi_sticks()@ < u32::MAX ==> r == Ok::<TableProgress, ProgressError>(
                self.spec_deposited(),
            ),
            self.spec_riichi_sticks()@ == u32::MAX ==> r is Err,
            self.spec_deposited().spec_variant() == self.spec_variant(),
            self.spec_deposited().spec_dealer() == self.spec_dealer(),
            self.spec_deposited().spec_riichi_sticks()@ == self.spec_riichi_sticks()@ + 1
                || self.spec_riichi_sticks()@ == u32::MAX,
    {
        proof {
            use_type_invariant(&self);
        }
        match self.riichi_sticks.checked_deposit() {
            Ok(sticks) => Ok(TableProgress { riichi_sticks: sticks, ..self }),
            Err(error) => Err(error),
        }
    }

    /// The invariant every progress value keeps, as callers may rely on it.
    pub open spec fn wf(self) -> bool {
        &&& self.spec_dealer()@ < seat_count_of(self.spec_variant())
        &&& 1 <= self.spec_round_number()@ <= seat_count_of(self.spec_variant())
    }

    /// Every progress value satisfies `wf`.
    pub fn lemma_wf(self)
        ensures
            self.wf(),
    {
        proof {
            use_type_invariant(&self);
        }
    }

    /// Whether a progress with these parts is valid.
    pub open spec fn spec_valid(
        variant: RiichiVariant,
        round_number: RoundNumber,
        dealer: Seat,
    ) -> bool {
        dealer@ < seat_count_of(variant) && 1 <= round_number@ <= seat_count_of(variant)
    }

    pub fn new(
        variant: RiichiVariant,
        round_wind: Wind,
        round_number: RoundNumber,
        dealer: Seat,
        honba: Honba,
        riichi_sticks: RiichiSticks,
    ) -> (r: Result<TableProgress, ProgressError>)
        ensures
            dealer@ >= seat_count_of(variant) ==> r == Err::<TableProgress, ProgressError>(
                ProgressError::InvalidSeat { index: dealer@, seat_count: seat_count_of(variant) },
            ),
            dealer@ < seat_count_of(variant) && !(1 <= round_number@ <= seat_count_of(variant))
                ==> r == Err::<TableProgress, ProgressError>(
                ProgressError::InvalidRoundNumber {
                    value: round_number@,
                    maximum: seat_count_of(variant),
                },
            ),
            Self::spec_valid(variant, round_number, dealer) ==> (r matches Ok(progress)
                && progress.spec_variant() == variant && progress.spec_round_wind() == round_wind
                && progress.spec_round_number() == round_number && progress.spec_dealer()
                == dealer && progress.spec_honba() == honba && progress.spec_riichi_sticks()
                == riichi_sticks),
    {
        let seat_count = variant.seat_count().value();
        if dealer.index() >= seat_count {
            return Err(ProgressError::InvalidSeat { index: dealer.index(), seat_count });
        }
        if round_number.value() == 0 || round_number.value() > seat_count {
            return Err(
                ProgressError::InvalidRoundNumber { value: round_number.value(), maximum: seat_count },
            );
        }
        Ok(TableProgress { variant, round_wind, round_number, dealer, honba, riichi_sticks })
    }

    pub fn east_one(variant: RiichiVariant, dealer: Seat) -> (r: Result<TableProgress, ProgressError>)
        ensures
            dealer@ >= seat_count_of(variant) ==> r == Err::<TableProgress, ProgressError>(
                ProgressError::InvalidSeat { index: dealer@, seat_count: seat_count_of(variant) },
            ),
            dealer@ < seat_count_of(variant) ==> (r matches Ok(progress)
                && progress.spec_variant() == variant && progress.spec_round_wind() == Wind::East
                && progress.spec_round_number()@ == 1 && progress.spec_dealer() == dealer
                && progress.spec_honba()@ == 0 && progress.spec_riichi_sticks()@ == 0),
    {
        let round = match RoundNumber::new(variant, 1) {
            Ok(round) => round,
            Err(error) => return Err(error),
        };
        Self::new(variant, Wind::East, round, dealer, Honba::zero(), RiichiSticks::zero())
    }

    #[must_use]
    pub fn variant(self) -> (r: RiichiVariant)
        ensures
            r == self.spec_variant(),
    {
        self.variant
    }

    #[must_use]
    pub fn round_wind(self) -> (r: Wind)
        ensures
            r == self.spec_round_wind(),
    {
        self.round_wind
    }

    #[must_use]
    pub fn round_number(self) -> (r: RoundNumber)
        ensures
            r == self.spec_round_number(),
            1 <= r@ <= seat_count_of(self.spec_variant()),
    {
        proof {
            use_type_invariant(&self);
        }
        self.round_number
    }

    #[must_use]
    pub fn dealer(self) -> (r: Seat)
        ensures
            r == self.spec_dealer(),
            r@ < seat_count_of(self.spec_variant()),
    {
        proof {
            use_type_invariant(&self);
        }
        self.dealer
    }

    #[must_use]
    pub fn honba(self) -> (r: Honba)
        ensures
            r == self.spec_honba(),
    {
        self.honba
    }

    #[must_use]
    pub fn riichi_sticks(self) -> (r: RiichiSticks)
        ensures
            r == self.spec_riichi_sticks(),
    {
        self.riichi_sticks
    }

    /// The wind of `seat`: the dealer sits East and winds follow counter-clockwise.
    pub fn seat_wind(self, seat: Seat) -> (r: Result<Wind, ProgressError>)
        ensures
            seat@ >= seat_count_of(self.spec_variant()) ==> r == Err::<Wind, ProgressError>(
                ProgressError::InvalidSeat {
                    index: seat@,
                    seat_count: seat_count_of(self.spec_variant()),
                },
            ),
            seat@ < seat_count_of(self.spec_variant()) ==> r == Ok::<Wind, ProgressError>(
                wind_at(spec_seat_distance(self.spec_dealer()@, seat@, seat_count_of(self.spec_variant()))),
            ),
    {
        proof {
            use_type_invariant(&self);
        }
        let seat_count = self.variant.seat_count().value();
        if seat.index() >= seat_count {
            return Err(ProgressError::InvalidSeat { index: seat.index(), seat_count });
        }
        let offset = (seat.index() + seat_count - self.dealer.index()) % seat_count;
        match Wind::from_offset(offset) {
            Some(wind) => Ok(wind),
            None => Err(ProgressError::InvalidSeat { index: seat.index(), seat_count }),
        }
    }
}

/// How many seats counter-clockwise `seat` sits from `start`.
pub open spec fn spec_seat_distance(start: u8, seat: u8, seat_count: u8) -> int {
    (seat + seat_count - start) % (seat_count as int)
}

#[derive(Clone, Copy, Debug, PartialEq, Eq)]
pub enum ProgressError {
    InvalidSeat { index: u8, seat_count: u8 },
    InvalidRoundNumber { value: u8, maximum: u8 },
    CounterOverflow { counter: &'static str },
}

} // verus!
