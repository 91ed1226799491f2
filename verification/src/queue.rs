//! Bounded delivery queue between the capture side and the display side.
//!
//! Lines are appended in arrival order and handed out, all at once, by a
//! non-blocking drain. The queue has a fixed capacity; a push against a full
//! queue is refused and leaves the queue unchanged, so a producer that wants
//! the line delivered retries once room has been made — a bounded-blocking
//! backpressure policy in which no line is ever silently dropped. Once the
//! consumer side closes the queue, every further push is refused.

use vstd::prelude::*;

verus! {

/// Fixed number of lines the queue may hold at once.
pub const QUEUE_CAPACITY: usize = 1000;

/// Why a push was refused: the queue is at capacity (retry after a drain),
/// or the consumer side is gone (terminal for the producer).
#[derive(Clone, Copy, Debug, PartialEq, Eq, Structural)]
pub enum PushError {
    Full,
    Closed,
}

/// Ordered bounded hand-off of captured lines from producers to the one
/// consumer.
pub struct DeliveryQueue {
    items: Vec<String>,
    closed: bool,
}

/// One push under the bounded policy: appended when there is room, refused —
/// queue unchanged — when the queue is at capacity.
pub open spec fn queue_push_model(c: Seq<Seq<char>>, line: Seq<char>) -> Seq<Seq<char>> {
    if c.len() < QUEUE_CAPACITY {
        c.push(line)
    } else {
        c
    }
}

/// A whole sequence of pushes under the bounded policy, oldest first.
pub open spec fn queue_push_all_model(c: Seq<Seq<char>>, lines: Seq<Seq<char>>) -> Seq<Seq<char>>
    decreases lines.len(),
{
    if lines.len() == 0 {
        c
    } else {
        queue_push_model(queue_push_all_model(c, lines.drop_last()), lines.last())
    }
}

impl DeliveryQueue {
    /// The queued lines, oldest first.
    pub closed spec fn lines(&self) -> Seq<Seq<char>> {
        self.items.deep_view()
    }

    /// Whether the consumer side has closed the queue.
    pub closed spec fn closed(&self) -> bool {
        self.closed
    }

    /// The capacity bound every queue observes.
    pub open spec fn wf(&self) -> bool {
        self.lines().len() <= QUEUE_CAPACITY
    }

    /// A fresh, open, empty queue.
    pub fn new() -> (q: DeliveryQueue)
        ensures
            q.lines() == Seq::<Seq<char>>::empty(),
            !q.closed(),
            q.wf(),
    {
        let q = DeliveryQueue { items: Vec::new(), closed: false };
        proof {
            assert(q.lines() =~= Seq::<Seq<char>>::empty());
        }
        q
    }

    /// Producer side: append one line, under the bounded policy. Refused with
    /// `Full` when at capacity and with `Closed` once the consumer is gone;
    /// a refused push leaves the queue exactly as it was.
    pub fn push(&mut self, line: String) -> (r: Result<(), PushError>)
        requires
            old(self).wf(),
        ensures
            final(self).wf(),
            final(self).closed() == old(self).closed(),
            old(self).closed() ==> r == Err::<(), PushError>(PushError::Closed)
                && final(self).lines() == old(self).lines(),
            !old(self).closed() ==> final(self).lines() == queue_push_model(
                old(self).lines(),
                line@,
            ),
            !old(self).closed() && old(self).lines().len() < QUEUE_CAPACITY ==> r == Ok::<
                (),
                PushError,
            >(()),
            !old(self).closed() && old(self).lines().len() >= QUEUE_CAPACITY ==> r == Err::<
                (),
                PushError,
            >(PushError::Full),
    {
        if self.closed {
            Err(PushError::Closed)
        } else if self.items.len() < QUEUE_CAPACITY {
            let ghost before: Seq<Seq<char>> = self.items.deep_view();
            self.items.push(line);
            proof {
                assert(self.items.deep_view() =~= before.push(line@));
            }
            Ok(())
        } else {
            Err(PushError::Full)
        }
    }

    /// Consumer side: remove and return everything currently buffered, oldest
    /// first, without ever waiting for new arrivals. An empty queue yields an
    /// empty sequence.
    pub fn drain_all(&mut self) -> (r: Vec<String>)
        ensures
            r.deep_view() == old(self).lines(),
            final(self).lines() == Seq::<Seq<char>>::empty(),
            final(self).closed() == old(self).closed(),
            final(self).wf(),
    {
        let mut out: Vec<String> = Vec::new();
        core::mem::swap(&mut out, &mut self.items);
        proof {
            assert(self.items.deep_view() =~= Seq::<Seq<char>>::empty());
        }
        out
    }

    /// Consumer side: refuse all further pushes. The buffered lines stay
    /// available for a last drain.
    pub fn close(&mut self)
        ensures
            final(self).closed(),
            final(self).lines() == old(self).lines(),
    {
        self.closed = true;
    }
}

/// Backpressure bound: starting within capacity, no sequence of pushes under
/// the bounded policy ever drives the queue past its capacity.
pub proof fn lemma_pushes_stay_bounded(c: Seq<Seq<char>>, lines: Seq<Seq<char>>)
    requires
        c.len() <= QUEUE_CAPACITY,
    ensures
        queue_push_all_model(c, lines).len() <= QUEUE_CAPACITY,
    decreases lines.len(),
{
    if lines.len() > 0 {
        lemma_pushes_stay_bounded(c, lines.drop_last());
    }
}

/// The bounded policy exactly: a sequence of pushes fills the queue up to
/// its capacity with the earliest lines, in push order, and refuses the
/// rest — nothing already queued is ever displaced.
pub proof fn lemma_pushes_policy_exact(c: Seq<Seq<char>>, lines: Seq<Seq<char>>)
    requires
        c.len() <= QUEUE_CAPACITY,
    ensures
        queue_push_all_model(c, lines) == c + lines.take(
            vstd::math::min(QUEUE_CAPACITY - c.len(), lines.len() as int),
        ),
    decreases lines.len(),
{
    let k = vstd::math::min(QUEUE_CAPACITY - c.len(), lines.len() as int);
    if lines.len() == 0 {
        assert(queue_push_all_model(c, lines) =~= c + lines.take(k));
    } else {
        lemma_pushes_policy_exact(c, lines.drop_last());
        let k0 = vstd::math::min(QUEUE_CAPACITY - c.len(), lines.len() - 1);
        let m = queue_push_all_model(c, lines.drop_last());
        assert(m == c + lines.drop_last().take(k0));
        assert(lines.drop_last().take(k0) =~= lines.take(k0));
        if m.len() < QUEUE_CAPACITY {
            assert(k == k0 + 1);
            assert(m.push(lines.last()) =~= c + lines.take(k));
        } else {
            assert(k == k0);
            assert(m =~= c + lines.take(k));
        }
    }
}

/// No loss below the bound: as long as everything fits within capacity, the
/// pushes all succeed and the queue holds exactly the old contents followed
/// by the new lines, in push order.
pub proof fn lemma_pushes_in_capacity_kept(c: Seq<Seq<char>>, lines: Seq<Seq<char>>)
    requires
        c.len() + lines.len() <= QUEUE_CAPACITY,
    ensures
        queue_push_all_model(c, lines) == c + lines,
    decreases lines.len(),
{
    if lines.len() == 0 {
        assert(queue_push_all_model(c, lines) =~= c + lines);
    } else {
        lemma_pushes_in_capacity_kept(c, lines.drop_last());
        assert(queue_push_all_model(c, lines) =~= c + lines);
    }
}

} // verus!
