use crate::error::PoolError;
use crate::queue::JobQueue;
use vstd::prelude::*;

verus! {

/// The abstract state of a pool: how many workers it spawned, whether it
/// still holds the queue's sending side, how many workers teardown has
/// joined so far, and how many of those had ended by a fault.
pub struct PoolModel {
    pub size: nat,
    pub accepting: bool,
    pub joined: nat,
    pub faulted: nat,
}

/// The worker ids of a pool of `size` workers: `0` up to `size - 1`.
pub open spec fn worker_id_seq(size: nat) -> Seq<usize> {
    Seq::new(size, |i: int| i as usize)
}

/// What constructing a pool of `size` workers yields.
pub open spec fn new_model(size: nat) -> Result<PoolModel, PoolError> {
    if size == 0 {
        Err(PoolError::InvalidConfiguration)
    } else {
        Ok(PoolModel { size, accepting: true, joined: 0, faulted: 0 })
    }
}

impl PoolModel {
    /// A pool has at least one worker, joins no more workers than it has,
    /// and joins none while it still accepts jobs.
    pub open spec fn wf(self) -> bool {
        &&& self.size > 0
        &&& self.joined <= self.size
        &&& self.faulted <= self.joined
        &&& self.accepting ==> self.joined == 0
    }

    /// Teardown starts by giving up the sending side, once.
    pub open spec fn begin_teardown(self) -> PoolModel {
        PoolModel { accepting: false, ..self }
    }

    /// The worker that teardown waits for next, in id order, once the
    /// sending side is gone.
    pub open spec fn next_join(self) -> Option<nat> {
        if !self.accepting && self.joined < self.size {
            Some(self.joined)
        } else {
            None
        }
    }

    /// Teardown has waited for that worker, which exited cleanly or not.
    pub open spec fn record_join(self, exited_cleanly: bool) -> PoolModel {
        if self.next_join() is Some {
            PoolModel {
                joined: self.joined + 1,
                faulted: if exited_cleanly {
                    self.faulted
                } else {
                    self.faulted + 1
                },
                ..self
            }
        } else {
            self
        }
    }

    /// Every worker has been joined.
    pub open spec fn torn_down(self) -> bool {
        !self.accepting && self.joined == self.size
    }

    /// The state after teardown joined one worker per entry of `outcomes`,
    /// each entry saying whether that worker exited cleanly.
    pub open spec fn joins(self, outcomes: Seq<bool>) -> PoolModel
        decreases outcomes.len(),
    {
        if outcomes.len() == 0 {
            self
        } else {
            self.joins(outcomes.drop_last()).record_join(outcomes.last())
        }
    }
}

/// The bookkeeping of a fixed-size pool: its size, whether it still accepts
/// jobs, and how far teardown has got in joining its workers.
pub struct Pool {
    size: usize,
    accepting: bool,
    joined: usize,
    faulted: usize,
}

impl View for Pool {
    type V = PoolModel;

    closed spec fn view(&self) -> PoolModel {
        PoolModel {
            size: self.size as nat,
            accepting: self.accepting,
            joined: self.joined as nat,
            faulted: self.faulted as nat,
        }
    }
}

impl Pool {
    #[verifier::type_invariant]
    spec fn inv(&self) -> bool {
        self@.wf()
    }

    /// Plans a pool of `size` workers. Fails with `InvalidConfiguration`
    /// exactly when `size` is zero, before anything is spawned.
    pub fn new(size: usize) -> (r: Result<Pool, PoolError>)
        ensures
            r is Err <==> size == 0,
            r matches Err(e) ==> e == PoolError::InvalidConfiguration && new_model(size as nat)
                == Err::<PoolModel, PoolError>(e),
            r matches Ok(p) ==> new_model(size as nat) == Ok::<PoolModel, PoolError>(p@)
                && p@.wf(),
    {
        if size == 0 {
            Err(PoolError::InvalidConfiguration)
        } else {
            Ok(Pool { size, accepting: true, joined: 0, faulted: 0 })
        }
    }

    /// The number of workers.
    pub fn size(&self) -> (r: usize)
        ensures
            r == self@.size,
    {
        self.size
    }

    /// The ids of the workers to spawn, one per worker, in order.
    pub fn worker_ids(&self) -> (r: Vec<usize>)
        ensures
            r@ == worker_id_seq(self@.size),
    {
        let mut ids: Vec<usize> = Vec::new();
        let mut id: usize = 0;
        while id < self.size
            invariant
                id <= self.size,
                ids@ == worker_id_seq(id as nat),
            decreases self.size - id,
        {
            ids.push(id);
            id = id + 1;
            assert(ids@ =~= worker_id_seq(id as nat));
        }
        ids
    }

    /// Whether jobs may still be submitted.
    pub fn is_accepting(&self) -> (r: bool)
        ensures
            r == self@.accepting,
    {
        self.accepting
    }

    /// Hands `job` to `queue` for some worker to run. Accepted exactly when
    /// the pool still accepts jobs and the queue is open; otherwise the job is
    /// dropped and the queue left as it was.
    pub fn submit<T>(&self, queue: &mut JobQueue<T>, job: T) -> (r: Result<(), PoolError>)
        ensures
            r is Ok <==> self@.accepting && !old(queue)@.closed,
            r is Ok ==> final(queue)@ == old(queue)@.send(job),
            r is Err ==> final(queue)@ == old(queue)@ && r == Err::<(), PoolError>(
                PoolError::QueueDisconnected,
            ),
    {
        if self.accepting {
            queue.send(job)
        } else {
            Err(PoolError::QueueDisconnected)
        }
    }

    /// Starts teardown: closes `queue`, the pool's sending side, and stops
    /// accepting jobs. Returns whether this call did so, which only the
    /// first call does.
    pub fn begin_teardown<T>(&mut self, queue: &mut JobQueue<T>) -> (r: bool)
        ensures
            final(self)@ == old(self)@.begin_teardown(),
            final(self)@.wf(),
            final(queue)@ == old(queue)@.close(),
            r == old(self)@.accepting,
    {
        proof {
            use_type_invariant(&*self);
        }
        let first = self.accepting;
        self.accepting = false;
        queue.close();
        first
    }

    /// The id of the worker that teardown waits for next, or `None` while
    /// the pool still accepts jobs or once every worker is joined.
    pub fn next_join(&self) -> (r: Option<usize>)
        ensures
            r matches Some(id) ==> self@.next_join() == Some(id as nat),
            r is None ==> self@.next_join() is None,
    {
        if !self.accepting && self.joined < self.size {
            Some(self.joined)
        } else {
            None
        }
    }

    /// Records that the worker `next_join` named has been waited for and
    /// whether it exited cleanly. A worker that ended by a fault is counted
    /// and teardown goes on. With no worker to wait for, nothing changes.
    pub fn record_join(&mut self, exited_cleanly: bool)
        ensures
            final(self)@ == old(self)@.record_join(exited_cleanly),
            final(self)@.wf(),
    {
        proof {
            use_type_invariant(&*self);
        }
        if !self.accepting && self.joined < self.size {
            self.joined = self.joined + 1;
            if !exited_cleanly {
                self.faulted = self.faulted + 1;
            }
        }
    }

    /// Whether every worker has been joined.
    pub fn is_torn_down(&self) -> (r: bool)
        ensures
            r == self@.torn_down(),
    {
        !self.accepting && self.joined == self.size
    }

    /// How many joined workers had ended by a fault.
    pub fn faulted_workers(&self) -> (r: usize)
        ensures
            r == self@.faulted,
    {
        self.faulted
    }
}

/// A pool of `size > 0` workers is always constructed, with exactly `size`
/// distinct worker ids `0` up to `size - 1`; a pool of zero workers is
/// never constructed and fails with `InvalidConfiguration`.
pub proof fn law_new_spawns_size_workers(size: usize)
    ensures
        size > 0 ==> new_model(size as nat) is Ok && new_model(size as nat)->Ok_0.size == size
            && new_model(size as nat)->Ok_0.wf(),
        size == 0 ==> new_model(size as nat) == Err::<PoolModel, PoolError>(
            PoolError::InvalidConfiguration,
        ),
        worker_id_seq(size as nat).len() == size,
        forall|i: int| 0 <= i < size ==> worker_id_seq(size as nat)[i] as int == i,
        worker_id_seq(size as nat).no_duplicates(),
{
}

proof fn lemma_joins_prefix(q: PoolModel, outcomes: Seq<bool>, i: nat)
    requires
        q.wf(),
        !q.accepting,
        q.joined == 0,
        outcomes.len() == q.size,
        i <= q.size,
    ensures
        q.joins(outcomes.take(i as int)) == (PoolModel {
            joined: i,
            faulted: q.joins(outcomes.take(i as int)).faulted,
            ..q
        }),
        q.joins(outcomes.take(i as int)).wf(),
    decreases i,
{
    if i == 0 {
        assert(outcomes.take(0).len() == 0);
    } else {
        lemma_joins_prefix(q, outcomes, (i - 1) as nat);
        assert(outcomes.take(i as int).drop_last() =~= outcomes.take(i - 1));
    }
}

/// While the pool accepts jobs no worker is joined. Once teardown has
/// begun it waits for every worker in id order, `0` first, and is finished
/// only after the last one; a worker that ended by a fault does not stop
/// it, so teardown completes whatever the workers' outcomes.
pub proof fn law_teardown_joins_every_worker(p: PoolModel, outcomes: Seq<bool>)
    requires
        p.wf(),
        p.accepting,
        outcomes.len() == p.size,
    ensures
        p.next_join() is None,
        !p.torn_down(),
        forall|i: int|
            0 <= i < p.size ==> p.begin_teardown().joins(outcomes.take(i)).next_join() == Some(
                i as nat,
            ) && !p.begin_teardown().joins(outcomes.take(i)).torn_down(),
        p.begin_teardown().joins(outcomes).torn_down(),
        p.begin_teardown().joins(outcomes).next_join() is None,
        p.begin_teardown().joins(outcomes).wf(),
{
    let q = p.begin_teardown();
    assert forall|i: int| 0 <= i < p.size implies q.joins(outcomes.take(i)).next_join() == Some(
        i as nat,
    ) && !q.joins(outcomes.take(i)).torn_down() by {
        lemma_joins_prefix(q, outcomes, i as nat);
    }
    lemma_joins_prefix(q, outcomes, p.size);
    assert(outcomes.take(p.size as int) =~= outcomes);
}

} // verus!
