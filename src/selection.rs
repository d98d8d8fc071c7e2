//! The selection protocol: device indices arrive one message at a time from
//! the control loop, the input device's index first and then the output
//! device's. An index out of range of the list it selects from is reported
//! with the list's size and waited past; selection ends once both devices are
//! bound.
use vstd::prelude::*;

verus! {

/// Where the protocol stands.
#[derive(Clone, Copy, Debug, PartialEq, Eq, Structural)]
pub enum SelectionState {
    AwaitingInputIndex,
    AwaitingOutputIndex { input: usize },
    Ready { input: usize, output: usize },
}

/// What the session does after a message.
#[derive(Clone, Copy, Debug, PartialEq, Eq, Structural)]
pub enum SelectionReply {
    /// The input device at `input` is bound; the output devices are listed next.
    InputBound { input: usize },
    /// Both devices are bound; the streams are opened next.
    OutputBound { input: usize, output: usize },
    /// The index was out of range: the valid indices are `0..available`.
    OutOfRange { available: usize },
    /// Selection had already ended; the message is ignored.
    AlreadyReady,
}

/// How far the protocol has come: 0, 1 or 2 devices bound.
pub open spec fn stage(s: SelectionState) -> nat {
    match s {
        SelectionState::AwaitingInputIndex => 0,
        SelectionState::AwaitingOutputIndex { .. } => 1,
        SelectionState::Ready { .. } => 2,
    }
}

/// The protocol's transition on a message `index`, where `available` is the
/// size of the device list that the awaited index selects from.
pub open spec fn next(s: SelectionState, index: usize, available: usize) -> (
    SelectionState,
    SelectionReply,
) {
    match s {
        SelectionState::Ready { .. } => (s, SelectionReply::AlreadyReady),
        _ => if index >= available {
            (s, SelectionReply::OutOfRange { available })
        } else {
            match s {
                SelectionState::AwaitingInputIndex => (
                    SelectionState::AwaitingOutputIndex { input: index },
                    SelectionReply::InputBound { input: index },
                ),
                SelectionState::AwaitingOutputIndex { input } => (
                    SelectionState::Ready { input, output: index },
                    SelectionReply::OutputBound { input, output: index },
                ),
                SelectionState::Ready { .. } => (s, SelectionReply::AlreadyReady),
            }
        },
    }
}

/// The protocol's state, owned by the session.
pub struct Selection {
    pub state: SelectionState,
}

impl Selection {
    /// A protocol awaiting the input device's index.
    pub fn new() -> (s: Selection)
        ensures
            s.state == SelectionState::AwaitingInputIndex,
    {
        Selection { state: SelectionState::AwaitingInputIndex }
    }

    /// Takes one message: `index` selects from a list of `available`
    /// devices, the input list while the input index is awaited and the
    /// output list after that.
    pub fn offer(&mut self, index: usize, available: usize) -> (r: SelectionReply)
        ensures
            (final(self).state, r) == next(old(self).state, index, available),
    {
        match self.state {
            SelectionState::Ready { .. } => SelectionReply::AlreadyReady,
            SelectionState::AwaitingInputIndex => {
                if index >= available {
                    SelectionReply::OutOfRange { available }
                } else {
                    self.state = SelectionState::AwaitingOutputIndex { input: index };
                    SelectionReply::InputBound { input: index }
                }
            },
            SelectionState::AwaitingOutputIndex { input } => {
                if index >= available {
                    SelectionReply::OutOfRange { available }
                } else {
                    self.state = SelectionState::Ready { input, output: index };
                    SelectionReply::OutputBound { input, output: index }
                }
            },
        }
    }

    /// Whether both devices are bound.
    pub fn is_ready(&self) -> (r: bool)
        ensures
            r == (self.state is Ready),
    {
        match self.state {
            SelectionState::Ready { .. } => true,
            _ => false,
        }
    }
}

/// While selection is under way, an out-of-range index leaves the state
/// unchanged, and the next valid index after it advances exactly one state,
/// binding the device at that index.
pub proof fn lemma_out_of_range_then_valid(
    s: SelectionState,
    bad: usize,
    bad_available: usize,
    good: usize,
    available: usize,
)
    requires
        !(s is Ready),
        bad >= bad_available,
        good < available,
    ensures
        next(s, bad, bad_available).0 == s,
        next(s, bad, bad_available).1 == (SelectionReply::OutOfRange { available: bad_available }),
        stage(next(next(s, bad, bad_available).0, good, available).0) == stage(s) + 1,
        s is AwaitingInputIndex ==> next(next(s, bad, bad_available).0, good, available).0
            == (SelectionState::AwaitingOutputIndex { input: good }),
        s is AwaitingOutputIndex ==> next(next(s, bad, bad_available).0, good, available).0
            == (SelectionState::Ready { input: s->AwaitingOutputIndex_input, output: good }),
{
}

/// Once both devices are bound, selection does not repeat: every message
/// leaves the state unchanged.
pub proof fn lemma_ready_is_terminal(s: SelectionState, index: usize, available: usize)
    requires
        s is Ready,
    ensures
        next(s, index, available) == (s, SelectionReply::AlreadyReady),
{
}

} // verus!
