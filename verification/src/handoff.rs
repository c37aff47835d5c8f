//! One-shot deferred value handoff.
//!
//! A single logical slot passes a value computed by a later pipeline stage
//! (a signature, produced once headers are final) back into a stream that an
//! earlier stage already constructed. The producer side fulfills the slot
//! exactly once, or abandons it by dropping out; the consumer side takes the
//! value exactly once. Both one-shot disciplines are preconditions here, so
//! a double use is unrepresentable in verified callers; a host that shares
//! the slot between two threads guards it and checks the state before each
//! transition, failing loudly on a repeated use as the contract demands.

use vstd::prelude::*;

verus! {

/// The state a handoff slot is in.
pub enum HandoffState {
    /// No value yet: the producer has neither fulfilled nor abandoned.
    Empty,
    /// The producer delivered this value; the consumer has not taken it yet.
    Fulfilled(Seq<u8>),
    /// The producer went away without delivering a value.
    Abandoned,
    /// The consumer has taken the outcome; the slot is spent.
    Taken,
}

/// Error returned to a consumer whose producer never delivered.
#[derive(Clone, Copy, Debug, PartialEq, Eq, Structural)]
pub enum HandoffError {
    /// The producer side was dropped before fulfilling the slot.
    Abandoned,
}

#[derive(Debug)]
enum Slot {
    Empty,
    Fulfilled(Vec<u8>),
    Abandoned,
    Taken,
}

/// A one-shot, single-producer/single-consumer value slot.
#[derive(Debug)]
pub struct DeferredHandoff {
    slot: Slot,
}

impl View for DeferredHandoff {
    type V = HandoffState;

    closed spec fn view(&self) -> HandoffState {
        match self.slot {
            Slot::Empty => HandoffState::Empty,
            Slot::Fulfilled(v) => HandoffState::Fulfilled(v@),
            Slot::Abandoned => HandoffState::Abandoned,
            Slot::Taken => HandoffState::Taken,
        }
    }
}

impl DeferredHandoff {
    /// Creates an empty slot, ready for one fulfillment and one take.
    pub fn new() -> (h: Self)
        ensures
            h@ is Empty,
    {
        DeferredHandoff { slot: Slot::Empty }
    }

    /// The producer delivers its value. One-shot: only an empty slot can be
    /// fulfilled.
    pub fn fulfill(&mut self, value: Vec<u8>)
        requires
            old(self)@ is Empty,
        ensures
            final(self)@ == HandoffState::Fulfilled(value@),
    {
        self.slot = Slot::Fulfilled(value);
    }

    /// The producer goes away without delivering: a consumer waiting on the
    /// slot must fail rather than hang forever.
    pub fn abandon(&mut self)
        requires
            old(self)@ is Empty,
        ensures
            final(self)@ is Abandoned,
    {
        self.slot = Slot::Abandoned;
    }

    /// The consumer takes the outcome: the delivered value, or an error when
    /// the producer abandoned the slot. One-shot: the slot must already be
    /// resolved (a host that can suspend waits for that first) and may not
    /// have been taken before.
    pub fn take(&mut self) -> (r: Result<Vec<u8>, HandoffError>)
        requires
            old(self)@ is Fulfilled || old(self)@ is Abandoned,
        ensures
            final(self)@ is Taken,
            old(self)@ matches HandoffState::Fulfilled(v) ==> (r matches Ok(out) && out@ == v),
            old(self)@ is Abandoned ==> r == Result::<Vec<u8>, HandoffError>::Err(
                HandoffError::Abandoned,
            ),
    {
        let r: Result<Vec<u8>, HandoffError> = match &self.slot {
            Slot::Fulfilled(v) => {
                let out = v.clone();
                proof {
                    assert(out@ =~= v@);
                }
                Ok(out)
            },
            _ => Err(HandoffError::Abandoned),
        };
        self.slot = Slot::Taken;
        r
    }

    /// Whether the slot still awaits its producer.
    pub fn is_empty(&self) -> (r: bool)
        ensures
            r == (self@ is Empty),
    {
        matches!(self.slot, Slot::Empty)
    }

    /// Whether the producer has delivered a value that was not yet taken.
    pub fn is_fulfilled(&self) -> (r: bool)
        ensures
            r == (self@ is Fulfilled),
    {
        matches!(self.slot, Slot::Fulfilled(_))
    }

    /// Whether the producer abandoned the slot.
    pub fn is_abandoned(&self) -> (r: bool)
        ensures
            r == (self@ is Abandoned),
    {
        matches!(self.slot, Slot::Abandoned)
    }
}

} // verus!
