use crate::error::PoolError;
use std::collections::VecDeque;
use vstd::prelude::*;

verus! {

/// What one attempt to take a job from the queue observes.
#[derive(Debug)]
pub enum Received<T> {
    /// The oldest buffered job, now owned by the one receiver that took it.
    Job(T),
    /// Nothing is buffered and the queue is still open: the receiver waits.
    Empty,
    /// The queue is closed and drained: the end of the stream.
    Closed,
}

/// The abstract state of a job queue: the jobs accepted and not yet taken,
/// oldest first, and whether the producing side has been closed.
pub struct QueueModel<T> {
    pub pending: Seq<T>,
    pub closed: bool,
}

impl<T> QueueModel<T> {
    /// A queue that has accepted nothing and is open.
    pub open spec fn empty() -> QueueModel<T> {
        QueueModel { pending: Seq::empty(), closed: false }
    }

    /// Sending appends to the back while the queue is open and is refused
    /// once it is closed.
    pub open spec fn send(self, job: T) -> QueueModel<T> {
        if self.closed {
            self
        } else {
            QueueModel { pending: self.pending.push(job), closed: false }
        }
    }

    /// What a receive observes: buffered jobs go out first, even after
    /// closing; only a closed and drained queue reports the end of stream.
    pub open spec fn received(self) -> Received<T> {
        if self.pending.len() > 0 {
            Received::Job(self.pending[0])
        } else if self.closed {
            Received::Closed
        } else {
            Received::Empty
        }
    }

    /// The state after a receive: a delivered job leaves the queue.
    pub open spec fn after_receive(self) -> QueueModel<T> {
        if self.pending.len() > 0 {
            QueueModel { pending: self.pending.drop_first(), closed: self.closed }
        } else {
            self
        }
    }

    /// Closing keeps what is buffered and stops further sends.
    pub open spec fn close(self) -> QueueModel<T> {
        QueueModel { pending: self.pending, closed: true }
    }

    /// The state after sending `jobs` one after another.
    pub open spec fn send_all(self, jobs: Seq<T>) -> QueueModel<T>
        decreases jobs.len(),
    {
        if jobs.len() == 0 {
            self
        } else {
            self.send_all(jobs.drop_last()).send(jobs.last())
        }
    }

    /// What `n` receives in a row observe.
    pub open spec fn outcomes(self, n: nat) -> Seq<Received<T>>
        decreases n,
    {
        if n == 0 {
            Seq::empty()
        } else {
            seq![self.received()] + self.after_receive().outcomes((n - 1) as nat)
        }
    }

    /// The state after `n` receives in a row.
    pub open spec fn after_receives(self, n: nat) -> QueueModel<T>
        decreases n,
    {
        if n == 0 {
            self
        } else {
            self.after_receive().after_receives((n - 1) as nat)
        }
    }
}

/// An unbounded FIFO of jobs with an explicit closed flag.
///
/// Any number of consumers may share one queue behind a lock; each
/// successful receive removes the job it returns, so every accepted job is
/// delivered to exactly one consumer, in the order it was accepted.
pub struct JobQueue<T> {
    pending: VecDeque<T>,
    closed: bool,
}

impl<T> View for JobQueue<T> {
    type V = QueueModel<T>;

    closed spec fn view(&self) -> QueueModel<T> {
        QueueModel { pending: self.pending@, closed: self.closed }
    }
}

impl<T> JobQueue<T> {
    /// An open queue holding no job.
    pub fn new() -> (r: JobQueue<T>)
        ensures
            r@ == QueueModel::<T>::empty(),
    {
        JobQueue { pending: VecDeque::new(), closed: false }
    }

    /// Enqueues `job` behind every job accepted before it. Fails, dropping
    /// the job, exactly when the queue has been closed.
    pub fn send(&mut self, job: T) -> (r: Result<(), PoolError>)
        ensures
            final(self)@ == old(self)@.send(job),
            r is Err <==> old(self)@.closed,
            r is Err ==> r == Err::<(), PoolError>(PoolError::QueueDisconnected),
    {
        if self.closed {
            Err(PoolError::QueueDisconnected)
        } else {
            self.pending.push_back(job);
            Ok(())
        }
    }

    /// Takes the oldest buffered job, or reports that the caller must wait
    /// (open and empty) or that the stream has ended (closed and empty).
    pub fn receive(&mut self) -> (r: Received<T>)
        ensures
            r == old(self)@.received(),
            final(self)@ == old(self)@.after_receive(),
    {
        match self.pending.pop_front() {
            Some(job) => Received::Job(job),
            None => {
                if self.closed {
                    Received::Closed
                } else {
                    Received::Empty
                }
            },
        }
    }

    /// Closes the producing side. Returns whether this call did the closing,
    /// which is true for the first call only.
    pub fn close(&mut self) -> (r: bool)
        ensures
            final(self)@ == old(self)@.close(),
            r == !old(self)@.closed,
    {
        let was_open = !self.closed;
        self.closed = true;
        was_open
    }

    /// Whether the producing side has been closed.
    pub fn is_closed(&self) -> (r: bool)
        ensures
            r == self@.closed,
    {
        self.closed
    }

    /// How many accepted jobs wait to be taken.
    pub fn len(&self) -> (r: usize)
        ensures
            r == self@.pending.len(),
    {
        self.pending.len()
    }
}

/// Each job of `jobs`, as the receive that hands it out observes it.
pub open spec fn jobs_delivered<T>(jobs: Seq<T>) -> Seq<Received<T>> {
    jobs.map_values(|j: T| Received::Job(j))
}

proof fn lemma_send_all_open<T>(m: QueueModel<T>, jobs: Seq<T>)
    requires
        !m.closed,
    ensures
        m.send_all(jobs) == (QueueModel { pending: m.pending + jobs, closed: false }),
    decreases jobs.len(),
{
    if jobs.len() > 0 {
        lemma_send_all_open(m, jobs.drop_last());
        assert(m.pending + jobs.drop_last().push(jobs.last()) =~= m.pending + jobs);
        assert(jobs.drop_last().push(jobs.last()) =~= jobs);
    } else {
        assert(m.pending + jobs =~= m.pending);
    }
}

proof fn lemma_take_buffered<T>(m: QueueModel<T>, n: nat)
    requires
        n <= m.pending.len(),
    ensures
        m.outcomes(n) == jobs_delivered(m.pending.take(n as int)),
        m.after_receives(n) == (QueueModel { pending: m.pending.skip(n as int), closed: m.closed }),
    decreases n,
{
    if n == 0 {
        assert(m.pending.take(0) =~= Seq::<T>::empty());
        assert(jobs_delivered(m.pending.take(0)) =~= Seq::<Received<T>>::empty());
        assert(m.pending.skip(0) =~= m.pending);
    } else {
        let rest = m.after_receive();
        lemma_take_buffered(rest, (n - 1) as nat);
        assert(rest.pending =~= m.pending.drop_first());
        assert(rest.pending.take(n - 1) =~= m.pending.take(n as int).drop_first());
        assert(rest.pending.skip(n - 1) =~= m.pending.skip(n as int));
        assert(seq![m.received()] + jobs_delivered(rest.pending.take(n - 1)) =~= jobs_delivered(
            m.pending.take(n as int),
        ));
    }
}

proof fn lemma_outcomes_split<T>(m: QueueModel<T>, a: nat, b: nat)
    ensures
        m.outcomes(a + b) == m.outcomes(a) + m.after_receives(a).outcomes(b),
    decreases a,
{
    if a == 0 {
        assert(m.outcomes(b) =~= Seq::<Received<T>>::empty() + m.outcomes(b));
    } else {
        lemma_outcomes_split(m.after_receive(), (a - 1) as nat, b);
        assert((a + b - 1) as nat == ((a - 1) as nat + b) as nat);
        assert(m.outcomes(a + b) =~= seq![m.received()] + m.after_receive().outcomes(
            ((a - 1) as nat + b) as nat,
        ));
        assert(m.outcomes(a + b) =~= m.outcomes(a) + m.after_receives(a).outcomes(b));
    }
}

/// Jobs sent one after another to an open queue are delivered one per
/// receive, each exactly once, behind what was already buffered and in the
/// order they were sent; once they are all taken nothing is left.
pub proof fn law_delivery_in_order<T>(m: QueueModel<T>, jobs: Seq<T>)
    requires
        !m.closed,
    ensures
        m.send_all(jobs).outcomes(m.pending.len() + jobs.len()) == jobs_delivered(
            m.pending + jobs,
        ),
        m.send_all(jobs).after_receives(m.pending.len() + jobs.len()).pending.len() == 0,
{
    lemma_send_all_open(m, jobs);
    let q = m.send_all(jobs);
    let n = m.pending.len() + jobs.len();
    lemma_take_buffered(q, n);
    assert(q.pending.take(n as int) =~= q.pending);
}

/// A receive reports the end of the stream exactly when the queue is closed
/// and drained, and a closed queue never makes a receiver wait.
pub proof fn law_end_of_stream_only_when_drained<T>(m: QueueModel<T>)
    ensures
        m.received() is Closed <==> (m.closed && m.pending.len() == 0),
        m.closed ==> !(m.received() is Empty),
{
}

/// Closing a queue loses nothing: every buffered job is still delivered, in
/// order, and the receive after the last one reports the end of the stream,
/// as does every receive after that. With nothing buffered the very first
/// receive does.
pub proof fn law_close_drains<T>(m: QueueModel<T>, extra: nat)
    ensures
        m.close().outcomes(m.pending.len() + 1) == jobs_delivered(m.pending).push(
            Received::Closed,
        ),
        m.close().after_receives(m.pending.len()).after_receives(extra).received() is Closed,
{
    let c = m.close();
    let n = m.pending.len();
    lemma_take_buffered(c, n);
    lemma_outcomes_split(c, n, 1);
    assert(c.pending.take(n as int) =~= c.pending);
    let d = c.after_receives(n);
    assert(d.pending.len() == 0);
    assert(d.after_receive().outcomes(0) =~= Seq::<Received<T>>::empty());
    assert(d.outcomes(1) =~= seq![Received::<T>::Closed]);
    assert(c.outcomes(n + 1) =~= jobs_delivered(m.pending).push(Received::Closed));
    lemma_drained_stays_closed(d, extra);
}

proof fn lemma_drained_stays_closed<T>(d: QueueModel<T>, k: nat)
    requires
        d.closed,
        d.pending.len() == 0,
    ensures
        d.after_receives(k) == d,
    decreases k,
{
    if k > 0 {
        lemma_drained_stays_closed(d, (k - 1) as nat);
    }
}

/// Once closed, a queue refuses every further job and stays as it was.
pub proof fn law_closed_refuses<T>(m: QueueModel<T>, job: T)
    requires
        m.closed,
    ensures
        m.send(job) == m,
{
}

} // verus!
