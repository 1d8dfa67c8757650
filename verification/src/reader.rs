//! The decisions of the background reader. The loop that reads the device
//! asks here whether to read again, and hands in what each read returned.

use vstd::prelude::*;
use vstd::string::StringExecFns;
use crate::framing::{decoded, line_texts, pending, records, LineReader};

verus! {

/// The weight of a status notification.
#[derive(Clone, Copy, Debug, PartialEq, Eq)]
pub enum Level {
    Info,
    Success,
    Error,
}

/// A status notification.
#[derive(Clone, Debug, PartialEq, Eq)]
pub struct StatusEvent {
    pub level: String,
    pub message: String,
}

/// What one read of the device returned.
#[derive(Clone, Debug, PartialEq, Eq)]
pub enum ReadEvent {
    /// The bytes that were read.
    Data(Vec<u8>),
    /// The read timed out: the steady state of a silent device.
    TimedOut,
    /// The device failed for good, with the platform's message.
    Failed(String),
}

/// What the loop has to do after a read: emit the lines, in order, and send
/// the status if there is one.
#[derive(Clone, Debug, PartialEq, Eq)]
pub struct Reaction {
    pub lines: Vec<String>,
    pub status: Option<StatusEvent>,
}

/// The text of a level.
pub open spec fn level_text(level: Level) -> Seq<char> {
    match level {
        Level::Info => "info"@,
        Level::Success => "success"@,
        Level::Error => "error"@,
    }
}

impl Level {
    /// The text under which the level is reported.
    pub fn text(&self) -> (s: String)
        ensures
            s@ == level_text(*self),
    {
        match self {
            Level::Info => "info".to_owned(),
            Level::Success => "success".to_owned(),
            Level::Error => "error".to_owned(),
        }
    }
}

impl StatusEvent {
    /// A notification of the given level.
    pub fn new(level: Level, message: String) -> (e: StatusEvent)
        ensures
            e.level@ == level_text(level),
            e.message == message,
    {
        StatusEvent { level: level.text(), message }
    }

    /// The notification that the device could not be opened.
    pub fn open_error(detail: &str) -> (e: StatusEvent)
        ensures
            e.level@ == level_text(Level::Error),
            e.message@ == "open error: "@ + detail@,
    {
        StatusEvent { level: Level::Error.text(), message: "open error: ".to_owned().concat(detail) }
    }

    /// The notification that the device failed while it was read.
    pub fn read_error(detail: &str) -> (e: StatusEvent)
        ensures
            e.level@ == level_text(Level::Error),
            e.message@ == "read error: "@ + detail@,
    {
        StatusEvent { level: Level::Error.text(), message: "read error: ".to_owned().concat(detail) }
    }
}

/// The state of a reader loop: the line buffer, and whether the loop goes on.
pub struct ReaderLoop {
    framer: LineReader,
    running: bool,
}

/// Whether a loop goes on after it has looked at the cancellation flag.
pub open spec fn goes_on(running: bool, cancelled: bool) -> bool {
    running && !cancelled
}

/// Cancellation is final: once the flag was seen set, the loop asks for no
/// further read, whatever the flag says later. A read that was in flight
/// when the flag was set is the last one.
pub proof fn lemma_cancellation_is_final(running: bool, later: bool)
    ensures
        !goes_on(running, true),
        !goes_on(goes_on(running, true), later),
{
}

impl ReaderLoop {
    /// The bytes of the record that is still open.
    pub closed spec fn buffered(&self) -> Seq<u8> {
        self.framer@
    }

    /// Whether the loop goes on.
    pub closed spec fn is_running(&self) -> bool {
        self.running
    }

    /// A loop that runs and has received nothing.
    pub fn new() -> (r: ReaderLoop)
        ensures
            r.is_running(),
            r.buffered() == Seq::<u8>::empty(),
    {
        ReaderLoop { framer: LineReader::new(), running: true }
    }

    /// Decides, once per iteration and before the read, whether to read
    /// again. `cancelled` is the cancellation flag as it was just seen. Once
    /// the flag was seen set, or the device has failed, the answer stays no.
    pub fn keep_reading(&mut self, cancelled: bool) -> (go_on: bool)
        ensures
            go_on == goes_on(old(self).is_running(), cancelled),
            final(self).is_running() == go_on,
            final(self).buffered() == old(self).buffered(),
    {
        if cancelled {
            self.running = false;
        }
        self.running
    }

    /// Takes in what a read returned. Data completes lines, which are handed
    /// out in the order of their line feeds; a timeout changes nothing and
    /// reports nothing; a failure ends the loop and is reported once. A loop
    /// that has ended takes nothing in.
    pub fn on_read(&mut self, event: ReadEvent) -> (r: Reaction)
        ensures
            !old(self).is_running() ==> {
                &&& r.lines@.len() == 0
                &&& r.status is None
                &&& !final(self).is_running()
                &&& final(self).buffered() == old(self).buffered()
            },
            old(self).is_running() ==> match event {
                ReadEvent::Data(bytes) => {
                    &&& line_texts(r.lines@) == decoded(records(old(self).buffered() + bytes@))
                    &&& final(self).buffered() == pending(old(self).buffered() + bytes@)
                    &&& r.status is None
                    &&& final(self).is_running()
                },
                ReadEvent::TimedOut => {
                    &&& r.lines@.len() == 0
                    &&& r.status is None
                    &&& final(self).is_running()
                    &&& final(self).buffered() == old(self).buffered()
                },
                ReadEvent::Failed(detail) => {
                    &&& r.lines@.len() == 0
                    &&& r.status matches Some(e) && e.level@ == level_text(Level::Error)
                        && e.message@ == "read error: "@ + detail@
                    &&& !final(self).is_running()
                    &&& final(self).buffered() == old(self).buffered()
                },
            },
    {
        if !self.running {
            return Reaction { lines: Vec::new(), status: None };
        }
        match event {
            ReadEvent::Data(bytes) => {
                let lines = self.framer.feed_lines(bytes.as_slice());
                Reaction { lines, status: None }
            },
            ReadEvent::TimedOut => Reaction { lines: Vec::new(), status: None },
            ReadEvent::Failed(detail) => {
                self.running = false;
                Reaction { lines: Vec::new(), status: Some(StatusEvent::read_error(detail.as_str())) }
            },
        }
    }
}

} // verus!
