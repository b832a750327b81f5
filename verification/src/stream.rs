//! The result stream: a single-producer/single-consumer, unbounded,
//! order-preserving queue of per-tick records.
//!
//! `push` appends at the tail and never blocks; it fails only when the
//! receiving side is gone, which is an expected shutdown signal. `try_pop`
//! takes the head and never blocks; an empty stream is reported as
//! [`PopOutcome::Empty`] while the producer is still attached and as
//! [`PopOutcome::Ended`] once it is not, so a consumer can tell a quiet
//! producer from a finished one.

use vstd::prelude::*;

verus! {

/// One per-tick result: the measured, estimated and true positions at a
/// simulation time, all in fixed point.
#[derive(Clone, Copy, PartialEq, Eq, Structural, Debug)]
pub struct ResultRecord {
    /// Simulation time of the tick.
    pub time: i64,
    /// Noisy measurement, horizontal component.
    pub measured_x: i64,
    /// Noisy measurement, vertical component.
    pub measured_y: i64,
    /// Filtered estimate, horizontal component.
    pub estimated_x: i64,
    /// Filtered estimate, vertical component.
    pub estimated_y: i64,
    /// Ground truth, horizontal component.
    pub true_x: i64,
    /// Ground truth, vertical component.
    pub true_y: i64,
}

/// What a non-blocking poll of the stream found.
#[derive(Clone, Copy, PartialEq, Eq, Structural, Debug)]
pub enum PopOutcome {
    /// The oldest queued record.
    Item(ResultRecord),
    /// Nothing queued yet; the producer is still attached.
    Empty,
    /// Nothing queued and the producer is gone: the stream is exhausted.
    Ended,
}

/// The error `push` reports once the receiving side is gone.
#[derive(Clone, Copy, PartialEq, Eq, Structural, Debug)]
pub struct ReceiverDisconnected;

/// The queue with its two attachment flags. Its model is the sequence of
/// queued records, oldest first.
pub struct ResultStream {
    /// Queued records, oldest first.
    pub records: Vec<ResultRecord>,
    /// Whether the consuming side is still attached.
    pub receiver_open: bool,
    /// Whether the producing side is still attached.
    pub sender_open: bool,
}

impl View for ResultStream {
    type V = Seq<ResultRecord>;

    open spec fn view(&self) -> Seq<ResultRecord> {
        self.records@
    }
}

impl ResultStream {
    /// A fresh stream: empty, both sides attached.
    pub fn new() -> (s: ResultStream)
        ensures
            s@ == Seq::<ResultRecord>::empty(),
            s.receiver_open,
            s.sender_open,
    {
        ResultStream { records: Vec::new(), receiver_open: true, sender_open: true }
    }

    /// Number of queued records.
    pub fn len(&self) -> (n: usize)
        ensures
            n == self@.len(),
    {
        self.records.len()
    }

    /// Appends a record at the tail; never blocks. Fails exactly when the
    /// receiving side is gone, leaving the queue untouched.
    pub fn push(&mut self, r: ResultRecord) -> (res: Result<(), ReceiverDisconnected>)
        ensures
            final(self).receiver_open == old(self).receiver_open,
            final(self).sender_open == old(self).sender_open,
            old(self).receiver_open ==> res is Ok && final(self)@ == old(self)@.push(r),
            !old(self).receiver_open ==> res is Err && final(self)@ == old(self)@,
    {
        if !self.receiver_open {
            return Err(ReceiverDisconnected);
        }
        self.records.push(r);
        Ok(())
    }

    /// Takes the oldest record, if any; never blocks. An empty stream
    /// reports whether the producer is still attached.
    pub fn try_pop(&mut self) -> (res: PopOutcome)
        ensures
            final(self).receiver_open == old(self).receiver_open,
            final(self).sender_open == old(self).sender_open,
            old(self)@.len() > 0 ==> res == PopOutcome::Item(old(self)@[0]) && final(self)@ == old(
                self,
            )@.subrange(1, old(self)@.len() as int),
            old(self)@.len() == 0 ==> final(self)@ == old(self)@ && res == (if old(self).sender_open {
                PopOutcome::Empty
            } else {
                PopOutcome::Ended
            }),
    {
        if self.records.len() > 0 {
            let r = self.records.remove(0);
            proof {
                assert(self@ =~= old(self)@.subrange(1, old(self)@.len() as int));
            }
            PopOutcome::Item(r)
        } else if self.sender_open {
            PopOutcome::Empty
        } else {
            PopOutcome::Ended
        }
    }

    /// The consumer lets go of its end; later pushes fail.
    pub fn close_receiver(&mut self)
        ensures
            !final(self).receiver_open,
            final(self).sender_open == old(self).sender_open,
            final(self)@ == old(self)@,
    {
        self.receiver_open = false;
    }

    /// The producer lets go of its end; once drained, polls report
    /// the stream exhausted.
    pub fn close_sender(&mut self)
        ensures
            !final(self).sender_open,
            final(self).receiver_open == old(self).receiver_open,
            final(self)@ == old(self)@,
    {
        self.sender_open = false;
    }
}

/// First in, first out, stated over the stream's model: a push leaves
/// every queued record in place and adds the new one at the tail, and a
/// pop takes exactly the oldest. So records come out in the order they
/// went in, none lost, none duplicated.
pub proof fn lemma_fifo(q: Seq<ResultRecord>, r: ResultRecord, k: int)
    requires
        0 <= k < q.len(),
    ensures
        q.push(r)[k] == q[k],
        q.push(r)[q.len() as int] == r,
        q.push(r).subrange(1, q.push(r).len() as int)[q.len() - 1] == r,
        k >= 1 ==> q.subrange(1, q.len() as int)[k - 1] == q[k],
{
    assert(q.push(r).subrange(1, q.push(r).len() as int)[q.len() - 1] == q.push(r)[q.len() as int]);
}

} // verus!
