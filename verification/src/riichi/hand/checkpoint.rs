use vstd::prelude::*;

use super::state::RiichiHand;

verus! {

/// The checkpoint layout that this library writes and reads back.
pub const HAND_CHECKPOINT_SCHEMA_VERSION: u16 = 1;

/// The structural invariant of a hand that a state breaks, named by a short code.
#[derive(Clone, Copy, Debug, PartialEq, Eq)]
pub struct HandInvariantError {
    code: &'static str,
}

impl HandInvariantError {
    pub closed spec fn spec_code(self) -> Seq<char> {
        self.code@
    }

    pub(crate) fn new(code: &'static str) -> (r: HandInvariantError)
        ensures
            r.spec_code() == code@,
    {
        HandInvariantError { code }
    }

    #[must_use]
    pub fn code(self) -> (r: &'static str)
        ensures
            r@ == self.spec_code(),
    {
        self.code
    }
}

/// Why a checkpoint cannot be restored.
#[derive(Clone, Copy, Debug, PartialEq, Eq)]
pub enum HandCheckpointError {
    UnsupportedSchema { actual: u16, supported: u16 },
    InvalidState(HandInvariantError),
}

/// A hand's state together with the sequence number of the last event it produced.
#[derive(Clone, PartialEq, Eq)]
pub struct RiichiHandCheckpoint {
    schema_version: u16,
    last_event_sequence: u64,
    state: RiichiHand,
}

impl RiichiHandCheckpoint {
    pub closed spec fn spec_schema_version(&self) -> u16 {
        self.schema_version
    }

    pub closed spec fn spec_last_event_sequence(&self) -> u64 {
        self.last_event_sequence
    }

    pub closed spec fn spec_state(&self) -> RiichiHand {
        self.state
    }

    pub(crate) fn new(state: RiichiHand, last_event_sequence: u64) -> (r: RiichiHandCheckpoint)
        ensures
            r.spec_schema_version() == HAND_CHECKPOINT_SCHEMA_VERSION,
            r.spec_last_event_sequence() == last_event_sequence,
            r.spec_state() == state,
    {
        RiichiHandCheckpoint { schema_version: HAND_CHECKPOINT_SCHEMA_VERSION, last_event_sequence, state }
    }

    #[must_use]
    pub fn schema_version(&self) -> (r: u16)
        ensures
            r == self.spec_schema_version(),
    {
        self.schema_version
    }

    #[must_use]
    pub fn last_event_sequence(&self) -> (r: u64)
        ensures
            r == self.spec_last_event_sequence(),
    {
        self.last_event_sequence
    }

    /// Gives back the hand and the last event's sequence number: a checkpoint of another
    /// layout is refused, and so is a state that breaks the hand's structural invariant.
    pub fn restore(self) -> (r: Result<(RiichiHand, u64), HandCheckpointError>)
        ensures
            self.spec_schema_version() != HAND_CHECKPOINT_SCHEMA_VERSION ==> r == Err::<(RiichiHand, u64), HandCheckpointError>(
                HandCheckpointError::UnsupportedSchema {
                    actual: self.spec_schema_version(),
                    supported: HAND_CHECKPOINT_SCHEMA_VERSION,
                },
            ),
            self.spec_schema_version() == HAND_CHECKPOINT_SCHEMA_VERSION ==> (r is Ok <==> self.spec_state().wf()),
            self.spec_schema_version() == HAND_CHECKPOINT_SCHEMA_VERSION && !self.spec_state().wf() ==> r matches Err(
                HandCheckpointError::InvalidState(_),
            ),
            r matches Ok((hand, sequence)) ==> hand == self.spec_state() && hand.wf() && sequence
                == self.spec_last_event_sequence(),
    {
        if self.schema_version != HAND_CHECKPOINT_SCHEMA_VERSION {
            return Err(
                HandCheckpointError::UnsupportedSchema {
                    actual: self.schema_version,
                    supported: HAND_CHECKPOINT_SCHEMA_VERSION,
                },
            );
        }
        match self.state.validate_invariants() {
            Ok(()) => Ok((self.state, self.last_event_sequence)),
            Err(error) => Err(HandCheckpointError::InvalidState(error)),
        }
    }
}

} // verus!
