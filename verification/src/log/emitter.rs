//! The delivery queue of a file emitter.
//!
//! Producers hand rendered lines to a bounded queue and return at once; one
//! worker takes the lines out in the order they came in and writes them. When
//! the queue is full the incoming line is dropped and counted: the lines that
//! wait are never displaced. Closing the queue refuses further lines; the
//! worker may stop only when the queue is closed and empty, so every line
//! that was accepted is written first.

use vstd::prelude::*;
use std::collections::VecDeque;

verus! {

/// Mathematical form of a queue.
pub struct QueueView {
    /// How many lines may wait at once.
    pub capacity: nat,
    /// The waiting lines, oldest first.
    pub pending: Seq<Seq<char>>,
    /// How many lines were dropped so far, counted up to `u64::MAX`.
    pub dropped: nat,
    /// Whether the queue refuses further lines.
    pub closed: bool,
}

impl QueueView {
    /// Whether the next line would be accepted.
    pub open spec fn has_room(self) -> bool {
        !self.closed && self.pending.len() < self.capacity
    }

    /// The queue after one more line was handed in: the line waits behind
    /// the others where there is room, else it is dropped and counted.
    pub open spec fn enqueue(self, line: Seq<char>) -> QueueView {
        if self.has_room() {
            QueueView { pending: self.pending.push(line), ..self }
        } else {
            QueueView {
                dropped: if self.dropped < u64::MAX {
                    self.dropped + 1
                } else {
                    self.dropped
                },
                ..self
            }
        }
    }

    /// The queue after the lines of `lines` were handed in, one after the
    /// other.
    pub open spec fn enqueue_all(self, lines: Seq<Seq<char>>) -> QueueView
        decreases lines.len(),
    {
        if lines.len() == 0 {
            self
        } else {
            self.enqueue_all(lines.drop_last()).enqueue(lines.last())
        }
    }

    /// No more lines wait than may wait at once. A new queue is within its
    /// capacity, and every operation keeps it so.
    pub open spec fn within_capacity(self) -> bool {
        self.pending.len() <= self.capacity
    }

    /// How many more lines can wait.
    pub open spec fn room(self) -> nat {
        if self.closed || self.pending.len() >= self.capacity {
            0
        } else {
            (self.capacity - self.pending.len()) as nat
        }
    }
}

/// What the worker does next.
#[derive(Debug, Clone, PartialEq, Eq)]
pub enum WorkerStep {
    /// Write this line, the oldest one that waited.
    Write(String),
    /// Nothing waits and the queue is open: wait for a line.
    Wait,
    /// Nothing waits and the queue is closed: stop.
    Stop,
}

/// A bounded queue of rendered lines.
pub struct LineQueue {
    capacity: usize,
    pending: VecDeque<String>,
    dropped: u64,
    closed: bool,
}

impl View for LineQueue {
    type V = QueueView;

    closed spec fn view(&self) -> QueueView {
        QueueView {
            capacity: self.capacity as nat,
            pending: self.pending.deep_view(),
            dropped: self.dropped as nat,
            closed: self.closed,
        }
    }
}

impl LineQueue {
    /// An open, empty queue in which `capacity` lines can wait.
    pub fn new(capacity: usize) -> (queue: LineQueue)
        ensures
            queue@ == (QueueView {
                capacity: capacity as nat,
                pending: Seq::empty(),
                dropped: 0,
                closed: false,
            }),
    {
        let queue = LineQueue { capacity, pending: VecDeque::new(), dropped: 0, closed: false };
        proof {
            assert(queue.pending.deep_view() =~= Seq::<Seq<char>>::empty());
        }
        queue
    }

    /// Hands in one line. Returns whether it was accepted; a line that was
    /// not is dropped and counted. Never waits.
    pub fn enqueue(&mut self, line: String) -> (accepted: bool)
        ensures
            accepted == old(self)@.has_room(),
            final(self)@ == old(self)@.enqueue(line@),
    {
        if !self.closed && self.pending.len() < self.capacity {
            let ghost before = self.pending.deep_view();
            self.pending.push_back(line);
            proof {
                assert(self.pending.deep_view() =~= before.push(line@));
            }
            true
        } else {
            if self.dropped < u64::MAX {
                self.dropped = self.dropped + 1;
            }
            false
        }
    }

    /// The next step of the worker. A line that is handed out has left the
    /// queue.
    pub fn next_step(&mut self) -> (step: WorkerStep)
        ensures
            match step {
                WorkerStep::Write(line) => {
                    &&& old(self)@.pending.len() > 0
                    &&& line@ == old(self)@.pending[0]
                    &&& final(self)@ == (QueueView {
                        pending: old(self)@.pending.drop_first(),
                        ..old(self)@
                    })
                },
                WorkerStep::Wait => {
                    &&& old(self)@.pending.len() == 0
                    &&& !old(self)@.closed
                    &&& final(self)@ == old(self)@
                },
                WorkerStep::Stop => {
                    &&& old(self)@.pending.len() == 0
                    &&& old(self)@.closed
                    &&& final(self)@ == old(self)@
                },
            },
    {
        let ghost before = self.pending.deep_view();
        match self.pending.pop_front() {
            Some(line) => {
                proof {
                    assert(self.pending.deep_view() =~= before.drop_first());
                }
                WorkerStep::Write(line)
            },
            None => {
                proof {
                    assert(self.pending.deep_view() =~= before);
                }
                if self.closed {
                    WorkerStep::Stop
                } else {
                    WorkerStep::Wait
                }
            },
        }
    }

    /// Closes the queue: the lines that wait stay, further lines are refused.
    pub fn close(&mut self)
        ensures
            final(self)@ == (QueueView { closed: true, ..old(self)@ }),
    {
        self.closed = true;
    }

    /// Takes out every waiting line, oldest first.
    pub fn drain(&mut self) -> (lines: Vec<String>)
        ensures
            lines.deep_view() == old(self)@.pending,
            final(self)@ == (QueueView { pending: Seq::empty(), ..old(self)@ }),
    {
        let ghost all = self.pending.deep_view();
        let mut lines: Vec<String> = Vec::new();
        proof {
            assert(lines.deep_view() + self.pending.deep_view() =~= all);
        }
        while self.pending.len() > 0
            invariant
                self.capacity == old(self).capacity,
                self.dropped == old(self).dropped,
                self.closed == old(self).closed,
                lines.deep_view() + self.pending.deep_view() == all,
            decreases self.pending@.len(),
        {
            let ghost taken = lines.deep_view();
            let ghost waiting = self.pending.deep_view();
            match self.pending.pop_front() {
                Some(line) => {
                    lines.push(line);
                    proof {
                        assert(lines.deep_view() =~= taken.push(waiting[0]));
                        assert(self.pending.deep_view() =~= waiting.drop_first());
                        assert(lines.deep_view() + self.pending.deep_view() =~= taken + waiting);
                    }
                },
                None => {},
            }
        }
        proof {
            assert(self.pending.deep_view() =~= Seq::<Seq<char>>::empty());
            assert(lines.deep_view() =~= all);
        }
        lines
    }

    /// How many lines wait.
    pub fn len(&self) -> (n: usize)
        ensures
            n == self@.pending.len(),
    {
        self.pending.len()
    }

    /// How many lines may wait at once.
    pub fn capacity(&self) -> (n: usize)
        ensures
            n == self@.capacity,
    {
        self.capacity
    }

    /// How many lines were dropped so far.
    pub fn dropped(&self) -> (n: u64)
        ensures
            n == self@.dropped,
    {
        self.dropped
    }

    /// Whether the queue refuses further lines.
    pub fn is_closed(&self) -> (closed: bool)
        ensures
            closed == self@.closed,
    {
        self.closed
    }
}

/// Handing in a line keeps the queue within its capacity.
pub proof fn law_queue_stays_within_capacity(queue: QueueView, line: Seq<char>)
    requires
        queue.within_capacity(),
    ensures
        queue.enqueue(line).within_capacity(),
{
}

/// Lines leave in the order in which they came: where lines are handed to an
/// open queue with nothing taken out in between, the queue holds what waited
/// before, followed by the first of the new lines, as many as there was room
/// for. The others are dropped, and each of them is counted.
pub proof fn law_queue_keeps_order(queue: QueueView, lines: Seq<Seq<char>>)
    requires
        queue.within_capacity(),
    ensures
        queue.enqueue_all(lines).pending == queue.pending + lines.take(
            if lines.len() <= queue.room() {
                lines.len() as int
            } else {
                queue.room() as int
            },
        ),
        queue.enqueue_all(lines).capacity == queue.capacity,
        queue.enqueue_all(lines).closed == queue.closed,
        queue.dropped + lines.len() <= u64::MAX ==> queue.enqueue_all(lines).dropped
            == queue.dropped + if lines.len() <= queue.room() {
            0
        } else {
            lines.len() - queue.room()
        },
    decreases lines.len(),
{
    if lines.len() == 0 {
        assert(queue.pending + lines.take(0) =~= queue.pending);
    } else {
        let front = lines.drop_last();
        law_queue_keeps_order(queue, front);
        let kept = if lines.len() <= queue.room() {
            lines.len() as int
        } else {
            queue.room() as int
        };
        let kept_front = if front.len() <= queue.room() {
            front.len() as int
        } else {
            queue.room() as int
        };
        assert(front.take(kept_front) =~= lines.take(kept_front));
        if lines.len() <= queue.room() {
            assert(lines.take(kept) =~= lines.take(kept_front).push(lines.last()));
        }
        assert(queue.enqueue_all(lines).pending =~= queue.pending + lines.take(kept));
    }
}

/// A full or closed queue lets nothing in and loses nothing that waits.
pub proof fn law_full_queue_drops_newest(queue: QueueView, line: Seq<char>)
    requires
        !queue.has_room(),
    ensures
        queue.enqueue(line).pending == queue.pending,
        queue.dropped < u64::MAX ==> queue.enqueue(line).dropped == queue.dropped + 1,
{
}

} // verus!
