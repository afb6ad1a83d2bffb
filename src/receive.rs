use vstd::prelude::*;
use crate::text::{clear_text, decode_lossy, lossy_of, push_text};

verus! {

/// The text that one read adds to the receive buffer: nothing for an empty
/// read, the lossy decoding of its bytes otherwise.
pub open spec fn chunk_text(b: Seq<u8>) -> Seq<char> {
    if b.len() == 0 {
        Seq::<char>::empty()
    } else {
        lossy_of(b)
    }
}

/// The text that a sequence of reads adds to the receive buffer, in read order.
pub open spec fn received_text(reads: Seq<Seq<u8>>) -> Seq<char>
    decreases reads.len(),
{
    if reads.len() == 0 {
        Seq::<char>::empty()
    } else {
        received_text(reads.drop_last()) + chunk_text(reads.last())
    }
}

/// The text of two runs of reads is the text of the first run followed by
/// the text of the second.
pub proof fn lemma_received_concat(a: Seq<Seq<u8>>, b: Seq<Seq<u8>>)
    ensures
        received_text(a + b) == received_text(a) + received_text(b),
    decreases b.len(),
{
    if b.len() == 0 {
        assert(a + b =~= a);
        assert(received_text(a) + received_text(b) =~= received_text(a));
    } else {
        lemma_received_concat(a, b.drop_last());
        assert((a + b).drop_last() =~= a + b.drop_last());
        assert((a + b).last() == b.last());
        assert(received_text(a) + received_text(b.drop_last()) + chunk_text(b.last()) =~= received_text(a)
            + (received_text(b.drop_last()) + chunk_text(b.last())));
    }
}

/// The text of each read stands in the received text whole and in read
/// order: after the text of the reads before it, and before the text of the
/// reads after it.
pub proof fn lemma_read_contiguous(reads: Seq<Seq<u8>>, k: int)
    requires
        0 <= k < reads.len(),
    ensures
        received_text(reads) == received_text(reads.take(k)) + chunk_text(reads[k]) + received_text(
            reads.skip(k + 1),
        ),
{
    let before = reads.take(k);
    let one = seq![reads[k]];
    let after = reads.skip(k + 1);
    assert(reads =~= before + one + after);
    lemma_received_concat(before + one, after);
    lemma_received_concat(before, one);
    assert(one.drop_last() =~= Seq::<Seq<u8>>::empty());
    assert(received_text(Seq::<Seq<u8>>::empty()) == Seq::<char>::empty());
    assert(received_text(one) =~= chunk_text(reads[k]));
}

/// An operation on the receive buffer: the text of one read appended, or a clear.
pub enum BufferOp {
    Read(Seq<u8>),
    Clear,
}

/// The buffer's text after a sequence of operations, starting from `start`.
pub open spec fn buffer_after(start: Seq<char>, ops: Seq<BufferOp>) -> Seq<char>
    decreases ops.len(),
{
    if ops.len() == 0 {
        start
    } else {
        match ops.last() {
            BufferOp::Read(b) => buffer_after(start, ops.drop_last()) + chunk_text(b),
            BufferOp::Clear => Seq::<char>::empty(),
        }
    }
}

/// One read operation for each read of `reads`, in order.
pub open spec fn read_ops(reads: Seq<Seq<u8>>) -> Seq<BufferOp> {
    reads.map_values(|b: Seq<u8>| BufferOp::Read(b))
}

/// Whatever came before a clear, the buffer afterwards holds exactly the
/// text of the reads made since, whole and in order: empty, or empty followed
/// by newly received text.
pub proof fn lemma_clear_then_reads(start: Seq<char>, before: Seq<BufferOp>, reads: Seq<Seq<u8>>)
    ensures
        buffer_after(start, before.push(BufferOp::Clear) + read_ops(reads)) == received_text(reads),
    decreases reads.len(),
{
    let cleared = before.push(BufferOp::Clear);
    if reads.len() == 0 {
        assert(cleared + read_ops(reads) =~= cleared);
    } else {
        lemma_clear_then_reads(start, before, reads.drop_last());
        assert((cleared + read_ops(reads)).drop_last() =~= cleared + read_ops(reads.drop_last()));
        assert((cleared + read_ops(reads)).last() == BufferOp::Read(reads.last()));
    }
}

/// Text received from the device, appended by the reader and shown (and
/// cleared) by the presentation loop.
pub struct ReceiveBuffer {
    text: String,
}

impl ReceiveBuffer {
    pub closed spec fn spec_text(&self) -> Seq<char> {
        self.text@
    }

    pub fn new() -> (r: Self)
        ensures
            r.spec_text() == Seq::<char>::empty(),
    {
        ReceiveBuffer { text: String::new() }
    }

    pub fn as_str(&self) -> (r: &str)
        ensures
            r@ == self.spec_text(),
    {
        self.text.as_str()
    }

    /// Appends the text of one read, as a whole, at the end.
    pub fn append_bytes(&mut self, bytes: &[u8])
        ensures
            final(self).spec_text() == old(self).spec_text() + chunk_text(bytes@),
    {
        if bytes.len() > 0 {
            let t = decode_lossy(bytes);
            push_text(&mut self.text, t.as_str());
        } else {
            assert(old(self).spec_text() + chunk_text(bytes@) =~= old(self).spec_text());
        }
    }

    /// Empties the buffer.
    pub fn clear(&mut self)
        ensures
            final(self).spec_text() == Seq::<char>::empty(),
    {
        clear_text(&mut self.text);
    }
}

/// What one timed read of the device gave.
pub enum ReadOutcome {
    /// The bytes read; none where the read returned empty.
    Data(Vec<u8>),
    /// The read timed out: no data, which is expected.
    TimedOut,
    /// Any other I/O error.
    Failed,
}

/// What the reader does next.
#[derive(Clone, Copy, Debug, PartialEq, Eq, Structural)]
pub enum ReaderAction {
    /// Read again at once.
    Poll,
    /// Release the device, sleep a short fixed interval, then read again.
    Backoff,
    /// Stop: the connection was cancelled.
    Cancelled,
    /// Stop: the device failed, and the connection is lost.
    Lost,
}

/// The reader's decision after a read: a failure ends the connection; else a
/// cancellation stops the reader; else it reads again at once after data, and
/// after a short sleep where there was none.
pub open spec fn next_action(cancelled: bool, outcome: ReadOutcome) -> ReaderAction {
    match outcome {
        ReadOutcome::Failed => ReaderAction::Lost,
        ReadOutcome::Data(b) => if cancelled {
            ReaderAction::Cancelled
        } else if b@.len() > 0 {
            ReaderAction::Poll
        } else {
            ReaderAction::Backoff
        },
        ReadOutcome::TimedOut => if cancelled {
            ReaderAction::Cancelled
        } else {
            ReaderAction::Backoff
        },
    }
}

/// The text that a read adds to the buffer.
pub open spec fn outcome_text(outcome: ReadOutcome) -> Seq<char> {
    match outcome {
        ReadOutcome::Data(b) => chunk_text(b@),
        _ => Seq::<char>::empty(),
    }
}

/// One step of the reader: appends what was read, whole, to the buffer
/// (bytes already read are kept even when the reader is cancelled), and says
/// what to do next.
pub fn reader_step(buffer: &mut ReceiveBuffer, cancelled: bool, outcome: ReadOutcome) -> (r: ReaderAction)
    ensures
        final(buffer).spec_text() == old(buffer).spec_text() + outcome_text(outcome),
        r == next_action(cancelled, outcome),
{
    match outcome {
        ReadOutcome::Data(b) => {
            buffer.append_bytes(b.as_slice());
            if cancelled {
                ReaderAction::Cancelled
            } else if b.len() > 0 {
                ReaderAction::Poll
            } else {
                ReaderAction::Backoff
            }
        },
        ReadOutcome::TimedOut => {
            assert(old(buffer).spec_text() + outcome_text(outcome) =~= old(buffer).spec_text());
            if cancelled {
                ReaderAction::Cancelled
            } else {
                ReaderAction::Backoff
            }
        },
        ReadOutcome::Failed => {
            assert(old(buffer).spec_text() + outcome_text(outcome) =~= old(buffer).spec_text());
            ReaderAction::Lost
        },
    }
}

} // verus!
