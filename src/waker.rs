//! Wakers: handles that put a task's identifier back on the ready queue.
use std::sync::Arc;

use crossbeam_queue::SegQueue;

use vstd::prelude::*;

use crate::tasks::{push_ready, TaskId};

verus! {

/// Wakes one task by pushing its identifier onto the shared ready queue. The
/// push is lock-free, so any context may do it, an interrupt handler too.
#[derive(Clone)]
pub struct TaskWaker {
    task_id: TaskId,
    task_queue: Arc<SegQueue<TaskId>>,
}

impl TaskWaker {
    pub closed spec fn spec_task_id(&self) -> TaskId {
        self.task_id
    }

    pub fn new(task_id: TaskId, task_queue: Arc<SegQueue<TaskId>>) -> (res: Self)
        ensures
            res.spec_task_id() == task_id,
    {
        TaskWaker { task_id, task_queue }
    }

    /// The task that this waker wakes.
    pub fn task_id(&self) -> (res: TaskId)
        ensures
            res == self.spec_task_id(),
    {
        self.task_id
    }

    /// Puts the task back on the ready queue.
    pub fn wake_task(&self) {
        push_ready(&self.task_queue, self.task_id)
    }

    /// Wakes the task, giving this handle up.
    pub fn wake(self) {
        self.wake_task()
    }

    /// Wakes the task and keeps the handle.
    pub fn wake_by_ref(&self) {
        self.wake_task()
    }
}

} // verus!
