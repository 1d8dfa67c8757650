//! The connection slot. At most one reader is live: the slot is idle or
//! holds the handle of the one active reader.

use vstd::prelude::*;
use crate::reader::{level_text, Level, StatusEvent};

verus! {

/// The state of the connection: idle, or active with the handle `H` of the
/// background reader. The handle stands for whatever cancels the reader and
/// waits for its exit.
pub struct SerialState<H> {
    pub reader: Option<H>,
}

impl<H> SerialState<H> {
    /// Whether a reader is live.
    pub open spec fn is_active(self) -> bool {
        self.reader is Some
    }

    /// The state that a disconnect leaves: idle.
    pub open spec fn disconnected(self) -> SerialState<H> {
        SerialState { reader: None }
    }

    /// The reader that a disconnect stops.
    pub open spec fn released(self) -> Option<H> {
        self.reader
    }

    /// The idle state.
    pub fn new() -> (s: SerialState<H>)
        ensures
            !s.is_active(),
    {
        SerialState { reader: None }
    }

    /// Whether a reader is live.
    pub fn active(&self) -> (b: bool)
        ensures
            b == self.is_active(),
    {
        self.reader.is_some()
    }
}

/// Ends the connection. The reader that is live, if any, is taken out of the
/// slot and handed to `stop`, which cancels it and waits for its exit. With
/// no reader, nothing is stopped and nothing changes.
pub fn disconnect<H, S: FnOnce(H)>(state: &mut SerialState<H>, stop: S)
    requires
        old(state).released() matches Some(h) ==> call_requires(stop, (h,)),
    ensures
        *final(state) == old(state).disconnected(),
        !final(state).is_active(),
        old(state).released() matches Some(h) ==> call_ensures(stop, (h,), ()),
{
    let mut taken: Option<H> = None;
    std::mem::swap(&mut state.reader, &mut taken);
    match taken {
        Some(reader) => {
            stop(reader);
        },
        None => {},
    }
}

/// What a connect leaves for an outcome of opening the device. Where the
/// device was opened, its reader is the live one and nothing is reported.
/// Where it could not be opened, the slot is idle and the failure is
/// reported as a status notification, with the platform's message.
pub open spec fn connected_as<H>(
    outcome: Result<H, String>,
    reader: Option<H>,
    report: Option<StatusEvent>,
) -> bool {
    match outcome {
        Ok(h) => reader == Some(h) && report is None,
        Err(detail) => {
            &&& reader is None
            &&& report matches Some(e)
            &&& e.level@ == level_text(Level::Error)
            &&& e.message@ == "open error: "@ + detail@
        },
    }
}

/// Establishes a connection. A reader that is still live is stopped first;
/// only then does `open` open the device and start the new reader: a device
/// cannot be opened twice. A failure to open is no failure of the call: it
/// comes back as the status notification to send, and the slot stays idle.
pub fn connect<H, S: FnOnce(H), O: FnOnce() -> Result<H, String>>(
    state: &mut SerialState<H>,
    stop: S,
    open: O,
) -> (report: Option<StatusEvent>)
    requires
        old(state).released() matches Some(h) ==> call_requires(stop, (h,)),
        call_requires(open, ()),
    ensures
        old(state).released() matches Some(h) ==> call_ensures(stop, (h,), ()),
        exists|outcome: Result<H, String>|
            call_ensures(open, (), outcome) && #[trigger] connected_as(
                outcome,
                final(state).reader,
                report,
            ),
{
    disconnect(state, stop);
    let outcome = open();
    let ghost seen = outcome;
    let report = match outcome {
        Ok(reader) => {
            state.reader = Some(reader);
            None
        },
        Err(detail) => Some(StatusEvent::open_error(detail.as_str())),
    };
    assert(connected_as(seen, state.reader, report));
    report
}

/// To disconnect twice is to disconnect once: the second call finds the slot
/// idle, stops no reader and leaves the slot as it is. The same holds of a
/// disconnect with no connection.
pub proof fn lemma_disconnect_idempotent<H>(state: SerialState<H>)
    ensures
        !state.disconnected().is_active(),
        state.disconnected().released() is None,
        state.disconnected().disconnected() == state.disconnected(),
        !state.is_active() ==> state.disconnected() == state && state.released() is None,
{
}

} // verus!
