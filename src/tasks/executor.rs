//! The cooperative scheduler: a table of live tasks, the shared ready queue,
//! and a cache of the tasks' wakers.
use std::collections::BTreeMap;
use std::sync::Arc;

use crossbeam_queue::SegQueue;
use rand_chacha::ChaCha20Rng;

use vstd::prelude::*;

use crate::tasks::{
    be_value, new_ready_queue, pop_ready, push_ready, ready_is_empty, ready_len, uuid_v4_bytes, Task,
    TaskBody, TaskId, TaskPoll,
};
use crate::waker::TaskWaker;

verus! {

broadcast use vstd::std_specs::btree::group_btree_axioms;

/// Why a task could not be spawned.
#[derive(Clone, Copy, Debug, PartialEq, Eq, Structural)]
pub enum SpawnError {
    /// A live task already has this identifier; identifiers are random, so
    /// this signals corruption rather than bad luck.
    DuplicateTaskId(TaskId),
}

/// What happened to an identifier taken off the ready queue.
#[derive(Clone, Copy, Debug, PartialEq, Eq, Structural)]
pub enum TaskOutcome {
    /// No live task has this identifier (it completed before): ignored.
    Discarded,
    /// The task was polled and suspended again.
    Pending,
    /// The task was polled and completed; it is gone from the executor.
    Completed,
}

pub struct TaskExecutor<T> {
    tasks: BTreeMap<u128, Task<T>>,
    task_queue: Arc<SegQueue<TaskId>>,
    waker_cache: BTreeMap<u128, TaskWaker>,
}

impl<T: TaskBody> TaskExecutor<T> {
    /// The live tasks' bodies, by identifier.
    pub closed spec fn tasks(&self) -> Map<u128, T> {
        self.tasks@.map_values(|t: Task<T>| t.spec_body())
    }

    /// The cached waker handles, by identifier.
    pub closed spec fn wakers(&self) -> Map<u128, TaskWaker> {
        self.waker_cache@
    }

    /// The identifiers whose waker is cached.
    pub open spec fn cached_wakers(&self) -> Set<u128> {
        self.wakers().dom()
    }

    /// Each task is filed under its own identifier, and a waker is cached
    /// only for a live task, which it wakes.
    pub closed spec fn wf(&self) -> bool {
        &&& forall|k: u128| #[trigger]
            self.tasks@.contains_key(k) ==> self.tasks@[k].spec_id().value() == k
        &&& forall|k: u128| #[trigger]
            self.waker_cache@.contains_key(k) ==> self.tasks@.contains_key(k)
                && self.waker_cache@[k].spec_task_id().value() == k
    }

    /// The state while the task `id` is out of the table to be polled: as
    /// `wf`, except that the waker of `id` may stay cached.
    pub closed spec fn wf_without(&self, id: u128) -> bool {
        &&& !self.tasks@.contains_key(id)
        &&& forall|k: u128| #[trigger]
            self.tasks@.contains_key(k) ==> self.tasks@[k].spec_id().value() == k
        &&& forall|k: u128| #[trigger]
            self.waker_cache@.contains_key(k) ==> (self.tasks@.contains_key(k) || k == id)
                && self.waker_cache@[k].spec_task_id().value() == k
    }

    /// Every cached waker belongs to a live task, and wakes that task.
    pub proof fn lemma_wakers_of_live_tasks(&self)
        requires
            self.wf(),
        ensures
            forall|k: u128| #[trigger]
                self.wakers().contains_key(k) ==> self.tasks().contains_key(k)
                    && self.wakers()[k].spec_task_id().value() == k,
    {
    }

    /// A well-formed executor without task `id` is in the state that
    /// `finish_poll` takes for `id`.
    pub proof fn lemma_wf_without(&self, id: u128)
        requires
            self.wf(),
            !self.tasks().contains_key(id),
        ensures
            self.wf_without(id),
    {
    }

    /// An executor with no task and an empty ready queue.
    pub fn new() -> (res: Self)
        ensures
            res.wf(),
            res.tasks() == Map::<u128, T>::empty(),
            res.wakers() == Map::<u128, TaskWaker>::empty(),
    {
        let res = TaskExecutor {
            tasks: BTreeMap::new(),
            task_queue: Arc::new(new_ready_queue()),
            waker_cache: BTreeMap::new(),
        };
        proof {
            assert(res.tasks() =~= Map::<u128, T>::empty());
        }
        res
    }

    /// Files `task` under its identifier and queues it to run. The identifier
    /// must be new: a collision is a corrupted state, not an error to handle.
    pub fn spawn_task(&mut self, task: Task<T>)
        requires
            old(self).wf(),
            !old(self).tasks().contains_key(task.spec_id().value()),
        ensures
            final(self).wf(),
            final(self).wakers() == old(self).wakers(),
            final(self).tasks() == old(self).tasks().insert(task.spec_id().value(), task.spec_body()),
    {
        let id = task.id();
        let k = id.as_u128();
        let ghost body = task.spec_body();
        self.tasks.insert(k, task);
        proof {
            assert(self.tasks() =~= old(self).tasks().insert(k, body));
        }
        push_ready(&self.task_queue, id);
    }

    /// Spawns `body` as a new task under an identifier drawn from `rng`, and
    /// returns that identifier. A drawn identifier that a live task already
    /// has is reported, with nothing spawned, for the caller to stop on.
    pub fn spawn(&mut self, body: T, rng: &mut ChaCha20Rng) -> (res: Result<TaskId, SpawnError>)
        requires
            old(self).wf(),
        ensures
            final(self).wf(),
            final(self).wakers() == old(self).wakers(),
            match res {
                Ok(id) => {
                    &&& !old(self).tasks().contains_key(id.value())
                    &&& final(self).tasks() == old(self).tasks().insert(id.value(), body)
                    &&& exists|b: Seq<u8>| b.len() == 16 && id.value() == be_value(uuid_v4_bytes(b))
                },
                Err(SpawnError::DuplicateTaskId(id)) => {
                    &&& old(self).tasks().contains_key(id.value())
                    &&& final(self).tasks() == old(self).tasks()
                },
            },
    {
        let task = Task::new(body, rng);
        let id = task.id();
        if self.contains_task(id) {
            return Err(SpawnError::DuplicateTaskId(id));
        }
        self.spawn_task(task);
        Ok(id)
    }

    /// Files the outcome of polling `task`, which was taken out of the table
    /// for the poll: a `Ready` poll completes it, dropping its cached waker;
    /// a `Pending` poll puts it back, keeping the waker.
    pub fn finish_poll(&mut self, task: Task<T>, poll: TaskPoll) -> (res: TaskOutcome)
        requires
            old(self).wf_without(task.spec_id().value()),
        ensures
            final(self).wf(),
            poll == TaskPoll::Ready ==> {
                &&& res == TaskOutcome::Completed
                &&& final(self).tasks() == old(self).tasks()
                &&& final(self).wakers() == old(self).wakers().remove(task.spec_id().value())
            },
            poll == TaskPoll::Pending ==> {
                &&& res == TaskOutcome::Pending
                &&& final(self).tasks() == old(self).tasks().insert(
                    task.spec_id().value(),
                    task.spec_body(),
                )
                &&& final(self).wakers() == old(self).wakers()
            },
    {
        let k = task.id().as_u128();
        match poll {
            TaskPoll::Ready => {
                self.waker_cache.remove(&k);
                proof {
                    assert(self.tasks() =~= old(self).tasks());
                }
                TaskOutcome::Completed
            },
            TaskPoll::Pending => {
                let ghost body = task.spec_body();
                self.tasks.insert(k, task);
                proof {
                    assert(self.tasks() =~= old(self).tasks().insert(k, body));
                }
                TaskOutcome::Pending
            },
        }
    }

    /// Handles one identifier taken off the ready queue: an unknown one is
    /// ignored; a live task is polled with its cached waker (made on its first
    /// poll and kept for later ones), and `finish_poll` files the result.
    pub fn poll_task(&mut self, id: TaskId) -> (res: TaskOutcome)
        requires
            old(self).wf(),
        ensures
            final(self).wf(),
            !old(self).tasks().contains_key(id.value()) ==> {
                &&& res == TaskOutcome::Discarded
                &&& final(self).tasks() == old(self).tasks()
                &&& final(self).wakers() == old(self).wakers()
            },
            old(self).tasks().contains_key(id.value()) ==> res != TaskOutcome::Discarded,
            res == TaskOutcome::Completed ==> {
                &&& final(self).tasks() == old(self).tasks().remove(id.value())
                &&& final(self).wakers() == old(self).wakers().remove(id.value())
            },
            res == TaskOutcome::Pending ==> {
                &&& final(self).tasks().dom() == old(self).tasks().dom()
                &&& forall|k: u128| k != id.value() && #[trigger] old(self).tasks().contains_key(k)
                    ==> final(self).tasks()[k] == old(self).tasks()[k]
                &&& final(self).wakers().remove(id.value()) == old(self).wakers().remove(id.value())
                &&& final(self).wakers().contains_key(id.value())
                &&& final(self).wakers()[id.value()].spec_task_id() == id
                &&& old(self).wakers().contains_key(id.value()) ==> final(self).wakers()[id.value()]
                    == old(self).wakers()[id.value()]
            },
    {
        let k = id.as_u128();
        let mut task = match self.tasks.remove(&k) {
            Some(t) => t,
            None => {
                return TaskOutcome::Discarded;
            },
        };
        if !self.waker_cache.contains_key(&k) {
            let waker = TaskWaker::new(id, self.task_queue.clone());
            self.waker_cache.insert(k, waker);
        }
        let ghost cached = self.waker_cache@;
        let poll = match self.waker_cache.get(&k) {
            Some(waker) => task.poll(waker),
            None => {
                proof {
                    assert(false);
                }
                TaskPoll::Pending
            },
        };
        let ghost tasks_now = self.tasks@;
        proof {
            assert(cached.remove(k) =~= old(self).wakers().remove(k));
        }
        let res = self.finish_poll(task, poll);
        proof {
            if res == TaskOutcome::Completed {
                assert(self.tasks() =~= old(self).tasks().remove(k));
                assert(self.wakers() =~= old(self).wakers().remove(k));
            } else {
                assert(self.tasks().dom() =~= old(self).tasks().dom());
                assert forall|j: u128|
                    j != k && #[trigger] old(self).tasks().contains_key(j) implies self.tasks()[j]
                    == old(self).tasks()[j] by {
                    assert(tasks_now.contains_key(j));
                }
            }
        }
        res
    }

    /// One drain pass: takes off the ready queue as many identifiers as it
    /// held when the pass began, and handles each with `poll_task`. Tasks
    /// woken meanwhile wait for the next pass. No task is ever added.
    pub fn run_ready_tasks(&mut self)
        requires
            old(self).wf(),
        ensures
            final(self).wf(),
            final(self).tasks().dom().subset_of(old(self).tasks().dom()),
            final(self).cached_wakers().subset_of(final(self).tasks().dom()),
    {
        let n = ready_len(&self.task_queue);
        let mut i: usize = 0;
        while i < n
            invariant
                self.wf(),
                self.tasks().dom().subset_of(old(self).tasks().dom()),
            decreases n - i,
        {
            match pop_ready(&self.task_queue) {
                Some(id) => {
                    self.poll_task(id);
                },
                None => {
                    break ;
                },
            }
            i = i + 1;
        }
        proof {
            self.lemma_wakers_of_live_tasks();
        }
    }

    /// Whether the ready queue looked empty, so that the CPU may sleep until
    /// the next interrupt. Another context may push right after.
    pub fn is_idle(&self) -> bool {
        ready_is_empty(&self.task_queue)
    }

    /// Number of live tasks.
    pub fn task_count(&self) -> (res: usize)
        ensures
            res == self.tasks().len(),
    {
        proof {
            assert(self.tasks().dom() =~= self.tasks@.dom());
        }
        self.tasks.len()
    }

    /// Whether a live task has identifier `id`.
    pub fn contains_task(&self, id: TaskId) -> (res: bool)
        ensures
            res == self.tasks().contains_key(id.value()),
    {
        self.tasks.contains_key(&id.as_u128())
    }
}

} // verus!
