//! Line framing of a byte stream. Bytes arrive in chunks of any size; a
//! record is complete when its line feed arrives, and is handed out without
//! the line feed and without one carriage return before it.

use vstd::prelude::*;
use crate::decode::{decode, lossy_text};

verus! {

pub const LINE_FEED: u8 = 10;

pub const CARRIAGE_RETURN: u8 = 13;

/// A record without the carriage return at its end, if it has one.
pub open spec fn without_cr(record: Seq<u8>) -> Seq<u8> {
    if record.len() > 0 && record.last() == CARRIAGE_RETURN {
        record.drop_last()
    } else {
        record
    }
}

/// The bytes of `stream` after its last line feed: the record that is still
/// open.
pub open spec fn pending(stream: Seq<u8>) -> Seq<u8>
    decreases stream.len(),
{
    if stream.len() == 0 || stream.last() == LINE_FEED {
        Seq::<u8>::empty()
    } else {
        pending(stream.drop_last()).push(stream.last())
    }
}

/// The records that `stream` completes, in the order of their line feeds.
pub open spec fn records(stream: Seq<u8>) -> Seq<Seq<u8>>
    decreases stream.len(),
{
    if stream.len() == 0 {
        Seq::<Seq<u8>>::empty()
    } else if stream.last() == LINE_FEED {
        records(stream.drop_last()).push(without_cr(pending(stream.drop_last())))
    } else {
        records(stream.drop_last())
    }
}

/// The bytes of each record.
pub open spec fn record_bytes(out: Seq<Vec<u8>>) -> Seq<Seq<u8>> {
    Seq::new(out.len(), |i: int| out[i]@)
}

/// The text of each line.
pub open spec fn line_texts(lines: Seq<String>) -> Seq<Seq<char>> {
    Seq::new(lines.len(), |i: int| lines[i]@)
}

/// The decoded text of each record.
pub open spec fn decoded(recs: Seq<Seq<u8>>) -> Seq<Seq<char>> {
    Seq::new(recs.len(), |i: int| lossy_text(recs[i]))
}

/// Whether `bytes` holds no line feed.
pub open spec fn is_open(bytes: Seq<u8>) -> bool {
    forall|i: int| 0 <= i < bytes.len() ==> bytes[i] != LINE_FEED
}

/// Bytes without a line feed complete nothing, and all of them are pending.
pub proof fn lemma_open_record(bytes: Seq<u8>)
    requires
        is_open(bytes),
    ensures
        records(bytes) == Seq::<Seq<u8>>::empty(),
        pending(bytes) == bytes,
    decreases bytes.len(),
{
    if bytes.len() > 0 {
        lemma_open_record(bytes.drop_last());
        assert(bytes.drop_last().push(bytes.last()) =~= bytes);
    }
}

/// What is pending holds no line feed.
pub proof fn lemma_pending_is_open(stream: Seq<u8>)
    ensures
        is_open(pending(stream)),
    decreases stream.len(),
{
    if stream.len() > 0 && stream.last() != LINE_FEED {
        lemma_pending_is_open(stream.drop_last());
    }
}

/// Framing does not depend on where the stream is cut into chunks: to feed
/// `first` and then `second` gives the records, and leaves the open record,
/// that feeding both at once gives.
pub proof fn lemma_framing_ignores_chunking(first: Seq<u8>, second: Seq<u8>)
    ensures
        records(first + second) == records(first) + records(pending(first) + second),
        pending(first + second) == pending(pending(first) + second),
    decreases second.len(),
{
    if second.len() == 0 {
        assert(first + second =~= first);
        assert(pending(first) + second =~= pending(first));
        lemma_pending_is_open(first);
        lemma_open_record(pending(first));
        assert(records(first) + Seq::<Seq<u8>>::empty() =~= records(first));
    } else {
        let shorter = second.drop_last();
        lemma_framing_ignores_chunking(first, shorter);
        assert((first + second).drop_last() =~= first + shorter);
        assert((pending(first) + second).drop_last() =~= pending(first) + shorter);
        assert((first + second).last() == second.last());
        assert((pending(first) + second).last() == second.last());
        if second.last() == LINE_FEED {
            let r = without_cr(pending(first + shorter));
            assert((records(first) + records(pending(first) + shorter)).push(r) =~= records(first)
                + records(pending(first) + shorter).push(r));
        }
    }
}

/// The accumulation buffer of a line reader: the bytes of the record that is
/// still open.
pub struct LineReader {
    acc: Vec<u8>,
}

impl View for LineReader {
    type V = Seq<u8>;

    closed spec fn view(&self) -> Seq<u8> {
        self.acc@
    }
}

impl LineReader {
    /// The buffer never holds a line feed.
    #[verifier::type_invariant]
    spec fn holds_open_record(self) -> bool {
        is_open(self.acc@)
    }

    /// A reader that has received nothing.
    pub fn new() -> (r: LineReader)
        ensures
            r@ == Seq::<u8>::empty(),
    {
        LineReader { acc: Vec::new() }
    }

    /// The number of bytes of the open record.
    pub fn pending_len(&self) -> (n: usize)
        ensures
            n == self@.len(),
    {
        self.acc.len()
    }

    /// Takes in a chunk and hands out the records that it completes, in
    /// order. What follows the last line feed stays in the buffer.
    pub fn feed(&mut self, chunk: &[u8]) -> (out: Vec<Vec<u8>>)
        ensures
            record_bytes(out@) == records(old(self)@ + chunk@),
            final(self)@ == pending(old(self)@ + chunk@),
    {
        proof {
            use_type_invariant(&*self);
        }
        let ghost start = self.acc@;
        let mut acc: Vec<u8> = Vec::new();
        std::mem::swap(&mut self.acc, &mut acc);
        let mut out: Vec<Vec<u8>> = Vec::new();
        let mut i: usize = 0;
        proof {
            assert(start + chunk@.take(0) =~= start);
            lemma_open_record(start);
            assert(record_bytes(out@) =~= records(start));
        }
        while i < chunk.len()
            invariant
                i <= chunk.len(),
                record_bytes(out@) == records(start + chunk@.take(i as int)),
                acc@ == pending(start + chunk@.take(i as int)),
            decreases chunk.len() - i,
        {
            let b: u8 = chunk[i];
            proof {
                let seen = start + chunk@.take(i as int);
                assert(start + chunk@.take(i + 1) =~= seen.push(b));
                assert(seen.push(b).drop_last() =~= seen);
            }
            if b == LINE_FEED {
                let mut record: Vec<u8> = Vec::new();
                std::mem::swap(&mut acc, &mut record);
                let n: usize = record.len();
                if n > 0 && record[n - 1] == CARRIAGE_RETURN {
                    record.pop();
                }
                let ghost before = out@;
                out.push(record);
                assert(record_bytes(out@) =~= record_bytes(before).push(record@));
            } else {
                acc.push(b);
            }
            i += 1;
        }
        proof {
            assert(chunk@.take(chunk.len() as int) =~= chunk@);
            lemma_pending_is_open(start + chunk@);
        }
        self.acc = acc;
        out
    }

    /// Takes in a chunk and hands out the lines that it completes, decoded
    /// permissively, in the order in which their line feeds arrived.
    pub fn feed_lines(&mut self, chunk: &[u8]) -> (lines: Vec<String>)
        ensures
            line_texts(lines@) == decoded(records(old(self)@ + chunk@)),
            final(self)@ == pending(old(self)@ + chunk@),
    {
        let recs = self.feed(chunk);
        let mut lines: Vec<String> = Vec::new();
        let mut i: usize = 0;
        while i < recs.len()
            invariant
                i <= recs.len(),
                lines.len() == i,
                forall|j: int| 0 <= j < i ==> lines[j]@ == lossy_text(recs[j]@),
            decreases recs.len() - i,
        {
            lines.push(decode(recs[i].as_slice()));
            i += 1;
        }
        assert(line_texts(lines@) =~= decoded(record_bytes(recs@)));
        lines
    }
}

} // verus!
