//! Table progress: which of the four hands is being played and who deals it. The first
//! hand is dealt by East; each later hand by the first winner of the hand before.

use vstd::prelude::*;

use crate::text::with_number;

use super::config::HAND_COUNT;

verus! {

/// A seat at the four-player table, counted from zero counter-clockwise.
#[derive(Clone, Copy, Debug, PartialEq, Eq, Structural, Hash, PartialOrd, Ord)]
pub struct Seat(pub(crate) u8);

impl View for Seat {
    type V = u8;

    closed spec fn view(&self) -> u8 {
        self.0
    }
}

impl Seat {
    #[verifier::type_invariant]
    spec fn inv(self) -> bool {
        self.0 < 4
    }

    pub const COUNT: u8 = 4;

    /// Two seats with the same index are the same seat.
    pub broadcast proof fn lemma_view_injective(a: Seat, b: Seat)
        ensures
            #[trigger] a@ == #[trigger] b@ ==> a == b,
    {
    }

    pub fn new(index: u8) -> (r: Result<Seat, ProgressError>)
        ensures
            index < 4 ==> (r matches Ok(seat) && seat@ == index),
            index >= 4 ==> r == Err::<Seat, ProgressError>(ProgressError::InvalidSeat { index }),
    {
        if index < 4 {
            Ok(Seat(index))
        } else {
            Err(ProgressError::InvalidSeat { index })
        }
    }

    /// The seat with index `index` (meaningful for 0 to 3).
    pub closed spec fn spec_at(index: int) -> Seat {
        Seat(index as u8)
    }

    /// `spec_at` gives the seat of that index.
    pub proof fn lemma_spec_at(index: int)
        requires
            0 <= index < 4,
        ensures
            Seat::spec_at(index)@ == index,
    {
    }

    /// The seat with a known-valid index.
    pub(crate) fn at(index: u8) -> (r: Seat)
        requires
            index < 4,
        ensures
            r@ == index,
            r == Seat::spec_at(index as int),
    {
        Seat(index)
    }

    #[must_use]
    pub fn index(self) -> (r: u8)
        ensures
            r == self@,
            r < 4,
    {
        proof {
            use_type_invariant(self);
        }
        self.0
    }

    /// The next seat counter-clockwise.
    #[must_use]
    pub fn next(self) -> (r: Seat)
        ensures
            r@ == (self@ + 1) % 4,
    {
        proof {
            use_type_invariant(self);
        }
        Seat((self.0 + 1) % 4)
    }

    /// The seat `offset` places after this one.
    #[must_use]
    pub fn offset_by(self, offset: u8) -> (r: Seat)
        ensures
            r@ == (self@ + offset) % 4,
    {
        proof {
            use_type_invariant(self);
            assert((self@ + offset % 4) % 4 == (self@ + offset) % 4) by (nonlinear_arith);
        }
        Seat((self.0 + offset % 4) % 4)
    }

    /// How many places `other` lies after this seat (zero for the same seat).
    #[must_use]
    pub fn distance_to(self, other: Seat) -> (r: u8)
        ensures
            r == (other@ + 4 - self@) % 4,
            self.spec_offset(r as int) == other,
    {
        proof {
            use_type_invariant(self);
            use_type_invariant(other);
        }
        (other.0 + 4 - self.0) % 4
    }

    /// The seat `offset` places after this one, as a value.
    pub closed spec fn spec_offset(self, offset: int) -> Seat {
        Seat(((self@ + offset) % 4) as u8)
    }

    /// The four seats in index order.
    #[must_use]
    pub fn all() -> (r: [Seat; 4])
        ensures
            forall|i: int| 0 <= i < 4 ==> (#[trigger] r@[i])@ == i,
    {
        [Seat(0), Seat(1), Seat(2), Seat(3)]
    }
}

/// Which hand of the match is being played, and who deals it.
#[derive(Clone, Copy, Debug, PartialEq, Eq, Structural)]
pub struct TableProgress {
    hand_index: u8,
    dealer: Seat,
}

impl TableProgress {
    pub closed spec fn spec_hand_index(self) -> u8 {
        self.hand_index
    }

    pub closed spec fn spec_dealer(self) -> Seat {
        self.dealer
    }

    /// The first hand, dealt by East (seat zero).
    #[must_use]
    pub fn opening() -> (r: TableProgress)
        ensures
            r.spec_hand_index() == 0,
            r.spec_dealer()@ == 0,
    {
        TableProgress { hand_index: 0, dealer: Seat(0) }
    }

    #[must_use]
    pub fn hand_index(self) -> (r: u8)
        ensures
            r == self.spec_hand_index(),
    {
        self.hand_index
    }

    #[must_use]
    pub fn dealer(self) -> (r: Seat)
        ensures
            r == self.spec_dealer(),
    {
        self.dealer
    }

    /// The fourth hand is the last.
    #[must_use]
    pub fn is_final_hand(self) -> (r: bool)
        ensures
            r == (self.spec_hand_index() + 1 >= HAND_COUNT),
    {
        self.hand_index as u16 + 1 >= HAND_COUNT as u16
    }

    /// Moves to the next hand: the first winner of the hand just played deals it, and the
    /// dealer stays when nobody won. Refused once all four hands have been played.
    pub fn advance(&mut self, first_winner: Option<Seat>) -> (r: Result<(), ProgressError>)
        ensures
            old(self).spec_hand_index() >= HAND_COUNT ==> r == Err::<(), ProgressError>(
                ProgressError::CounterOverflow { counter: "hand index" },
            ) && *final(self) == *old(self),
            old(self).spec_hand_index() < HAND_COUNT ==> r is Ok && final(self).spec_hand_index()
                == old(self).spec_hand_index() + 1 && final(self).spec_dealer() == (match first_winner {
                Some(winner) => winner,
                None => old(self).spec_dealer(),
            }),
    {
        if self.hand_index >= HAND_COUNT {
            return Err(ProgressError::CounterOverflow { counter: "hand index" });
        }
        self.hand_index = self.hand_index + 1;
        if let Some(winner) = first_winner {
            self.dealer = winner;
        }
        Ok(())
    }
}

#[derive(Clone, Copy, Debug, PartialEq, Eq)]
pub enum ProgressError {
    InvalidSeat { index: u8 },
    CounterOverflow { counter: &'static str },
}

impl ProgressError {
    /// A one-line explanation of the error.
    #[must_use]
    pub fn message(&self) -> (r: String)
        ensures
            self matches ProgressError::InvalidSeat { index } ==> r@ == "seat index "@ + crate::text::decimal_chars(
                index as nat,
            ) + " is outside a 4-player table"@,
            self matches ProgressError::CounterOverflow { counter } ==> r@ == counter@ + " counter overflow"@,
    {
        match self {
            ProgressError::InvalidSeat { index } => {
                let mut text = with_number("seat index ", *index as u64);
                text.append(" is outside a 4-player table");
                text
            },
            ProgressError::CounterOverflow { counter } => {
                let mut text = String::from_str(counter);
                text.append(" counter overflow");
                text
            },
        }
    }
}

} // verus!
