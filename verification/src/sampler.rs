//! The sample window: the bytes collected from one port at one baud rate
//! over a bounded time.

use vstd::prelude::*;
use vstd::utf8::{decode_utf8, valid_utf8};
use crate::decode::{decode, lossy_text};

verus! {

/// The bytes received during one trial, in the order of arrival.
pub struct SampleWindow {
    bytes: Vec<u8>,
}

impl View for SampleWindow {
    type V = Seq<u8>;

    closed spec fn view(&self) -> Seq<u8> {
        self.bytes@
    }
}

impl SampleWindow {
    /// A window that has received nothing.
    pub fn new() -> (w: SampleWindow)
        ensures
            w@ == Seq::<u8>::empty(),
    {
        SampleWindow { bytes: Vec::new() }
    }

    /// Appends what one read returned.
    pub fn absorb(&mut self, chunk: &[u8])
        ensures
            final(self)@ == old(self)@ + chunk@,
    {
        self.bytes.extend_from_slice(chunk);
    }

    /// The number of bytes received.
    pub fn len(&self) -> (n: usize)
        ensures
            n == self@.len(),
    {
        self.bytes.len()
    }
}

/// The text of a sample window, or `None` where the device sent nothing
/// while the window was open.
pub fn read_sample(window: &SampleWindow) -> (text: Option<String>)
    ensures
        text is None <==> window@.len() == 0,
        text matches Some(s) ==> s@ == lossy_text(window@) && (valid_utf8(window@) ==> s@
            == decode_utf8(window@)),
{
    if window.bytes.len() == 0 {
        None
    } else {
        Some(decode(window.bytes.as_slice()))
    }
}

} // verus!
