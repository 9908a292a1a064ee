//! Suspension points for task bodies.
use vstd::prelude::*;

use crate::tasks::{TaskBody, TaskPoll};
use crate::waker::TaskWaker;

verus! {

/// Gives other tasks a turn: the first poll wakes the task at once and
/// suspends it, so that it goes to the back of the ready queue; the second
/// poll completes.
pub struct YieldNow {
    inner: bool,
}

impl YieldNow {
    /// Whether the yield already happened.
    pub closed spec fn yielded(&self) -> bool {
        self.inner
    }

    pub fn new() -> (res: Self)
        ensures
            !res.yielded(),
    {
        YieldNow { inner: false }
    }

    /// What one poll does: the first time, mark the yield and ask for an
    /// immediate wake, suspending; from then on, complete without a wake and
    /// without change.
    pub fn step(&mut self) -> (res: (TaskPoll, bool))
        ensures
            final(self).yielded(),
            !old(self).yielded() ==> res == (TaskPoll::Pending, true),
            old(self).yielded() ==> res == (TaskPoll::Ready, false) && *final(self) == *old(self),
    {
        if !self.inner {
            self.inner = true;
            (TaskPoll::Pending, true)
        } else {
            (TaskPoll::Ready, false)
        }
    }

    /// One poll: does what `step` decides, waking the task through `waker`
    /// (once) where it asks for a wake.
    pub fn resume(&mut self, waker: &TaskWaker) -> (res: TaskPoll)
        ensures
            final(self).yielded(),
            !old(self).yielded() ==> res == TaskPoll::Pending,
            old(self).yielded() ==> res == TaskPoll::Ready && *final(self) == *old(self),
    {
        let (poll, wake) = self.step();
        if wake {
            waker.wake_by_ref();
        }
        poll
    }
}

impl TaskBody for YieldNow {
    fn poll(&mut self, waker: &TaskWaker) -> TaskPoll {
        self.resume(waker)
    }
}

/// A task body that yields once and then completes.
pub fn yield_now() -> (res: YieldNow)
    ensures
        !res.yielded(),
{
    YieldNow::new()
}

} // verus!
