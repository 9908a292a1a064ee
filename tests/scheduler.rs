use std::cell::{Cell, RefCell};
use std::rc::Rc;

use etheryal_kernel::tasks::executor::{SpawnError, TaskExecutor, TaskOutcome};
use etheryal_kernel::tasks::park::{yield_now, YieldNow};
use etheryal_kernel::tasks::{Task, TaskBody, TaskId, TaskPoll};
use etheryal_kernel::waker::TaskWaker;
use rand_chacha::ChaCha20Rng;
use rand_core::SeedableRng;

/// Increments a shared counter on its single poll.
struct CountOnce(Rc<Cell<usize>>);

impl TaskBody for CountOnce {
    fn poll(&mut self, _waker: &TaskWaker) -> TaskPoll {
        self.0.set(self.0.get() + 1);
        TaskPoll::Ready
    }
}

/// Yields once, counting its polls.
struct CountedYield {
    inner: YieldNow,
    polls: Rc<Cell<usize>>,
}

impl TaskBody for CountedYield {
    fn poll(&mut self, waker: &TaskWaker) -> TaskPoll {
        self.polls.set(self.polls.get() + 1);
        self.inner.resume(waker)
    }
}

/// Keeps its waker where a test (or an interrupt) can reach it, wakes the
/// wakers in `to_wake` when polled, and completes after `rounds` polls.
struct Parked {
    slot: Rc<RefCell<Option<TaskWaker>>>,
    to_wake: Vec<Rc<RefCell<Option<TaskWaker>>>>,
    polls: Rc<Cell<usize>>,
    rounds: usize,
}

impl TaskBody for Parked {
    fn poll(&mut self, waker: &TaskWaker) -> TaskPoll {
        self.polls.set(self.polls.get() + 1);
        *self.slot.borrow_mut() = Some(waker.clone());
        for other in &self.to_wake {
            if let Some(w) = other.borrow().as_ref() {
                w.wake_by_ref();
            }
        }
        if self.polls.get() >= self.rounds {
            TaskPoll::Ready
        } else {
            TaskPoll::Pending
        }
    }
}

fn rng() -> ChaCha20Rng {
    ChaCha20Rng::from_seed([7u8; 32])
}

fn run_until_idle<T: TaskBody>(ex: &mut TaskExecutor<T>) {
    let mut passes = 0;
    while !ex.is_idle() {
        ex.run_ready_tasks();
        passes += 1;
        assert!(passes < 1000);
    }
}

#[test]
fn task_id_is_a_random_uuid() {
    assert_eq!(TaskId::from_random_bytes([0u8; 16]).as_u128(), 0x0000_0000_0000_4000_8000_0000_0000_0000);
    assert_eq!(TaskId::from_random_bytes([0xffu8; 16]).as_u128(), 0xffff_ffff_ffff_4fff_bfff_ffff_ffff_ffff);
    let bytes: [u8; 16] = [1, 2, 3, 4, 5, 6, 7, 8, 9, 10, 11, 12, 13, 14, 15, 16];
    assert_eq!(TaskId::from_random_bytes(bytes).as_u128(), 0x0102_0304_0506_4708_890a_0b0c_0d0e_0f10);
}

#[test]
fn drawn_task_ids_differ() {
    let mut r = rng();
    let a = TaskId::new(&mut r);
    let b = TaskId::new(&mut r);
    assert_ne!(a, b);
    assert_eq!((a.as_u128() >> 76) & 0xf, 4);
}

#[test]
fn n_counting_tasks_run_once_each() {
    let counter = Rc::new(Cell::new(0));
    let mut ex = TaskExecutor::new();
    let mut r = rng();
    for _ in 0..5 {
        ex.spawn(CountOnce(counter.clone()), &mut r).unwrap();
    }
    assert_eq!(ex.task_count(), 5);
    run_until_idle(&mut ex);
    assert_eq!(counter.get(), 5);
    assert_eq!(ex.task_count(), 0);
}

#[test]
fn yielding_task_is_polled_twice() {
    let polls = Rc::new(Cell::new(0));
    let mut ex = TaskExecutor::new();
    let id = TaskId::from_random_bytes([9u8; 16]);
    let body = CountedYield { inner: yield_now(), polls: polls.clone() };
    ex.spawn_task(Task::with_id(id, body));
    assert_eq!(ex.poll_task(id), TaskOutcome::Pending);
    assert_eq!(polls.get(), 1);
    assert!(!ex.is_idle());
    run_until_idle(&mut ex);
    assert_eq!(polls.get(), 2);
    assert!(!ex.contains_task(id));
}

#[test]
fn yield_now_is_pending_then_ready() {
    let mut ex: TaskExecutor<YieldNow> = TaskExecutor::new();
    let id = TaskId::from_random_bytes([3u8; 16]);
    ex.spawn_task(Task::with_id(id, YieldNow::new()));
    ex.run_ready_tasks();
    assert!(ex.contains_task(id));
    ex.run_ready_tasks();
    assert!(!ex.contains_task(id));
    assert!(ex.is_idle());
}

#[test]
fn waking_a_finished_task_changes_nothing() {
    let slot = Rc::new(RefCell::new(None));
    let polls = Rc::new(Cell::new(0));
    let mut ex = TaskExecutor::new();
    let id = TaskId::from_random_bytes([5u8; 16]);
    let body = Parked { slot: slot.clone(), to_wake: Vec::new(), polls: polls.clone(), rounds: 1 };
    ex.spawn_task(Task::with_id(id, body));
    run_until_idle(&mut ex);
    assert_eq!(ex.task_count(), 0);
    let waker = slot.borrow_mut().take().unwrap();
    assert_eq!(waker.task_id(), id);
    waker.wake();
    assert!(!ex.is_idle());
    run_until_idle(&mut ex);
    assert_eq!(ex.task_count(), 0);
    assert_eq!(polls.get(), 1);
    assert_eq!(ex.poll_task(id), TaskOutcome::Discarded);
}

#[test]
fn wakes_during_a_poll_are_not_lost() {
    let mut ex = TaskExecutor::new();
    let slots: Vec<_> = (0..3).map(|_| Rc::new(RefCell::new(None))).collect();
    let polls: Vec<_> = (0..3).map(|_| Rc::new(Cell::new(0))).collect();
    // two sleepers park after their first poll
    for i in 0..2 {
        let id = TaskId::from_random_bytes([i as u8 + 20; 16]);
        let body = Parked { slot: slots[i].clone(), to_wake: Vec::new(), polls: polls[i].clone(), rounds: 2 };
        ex.spawn_task(Task::with_id(id, body));
    }
    run_until_idle(&mut ex);
    assert_eq!(polls[0].get(), 1);
    assert_eq!(polls[1].get(), 1);
    // a third task wakes both sleepers in the middle of its poll
    let id = TaskId::from_random_bytes([30u8; 16]);
    let body = Parked {
        slot: slots[2].clone(),
        to_wake: vec![slots[0].clone(), slots[1].clone()],
        polls: polls[2].clone(),
        rounds: 1,
    };
    ex.spawn_task(Task::with_id(id, body));
    run_until_idle(&mut ex);
    assert_eq!(polls[0].get(), 2);
    assert_eq!(polls[1].get(), 2);
    assert_eq!(ex.task_count(), 0);
}

#[test]
fn duplicate_task_id_is_refused() {
    let mut ex: TaskExecutor<YieldNow> = TaskExecutor::new();
    let mut first = rng();
    let mut second = first.clone();
    let id = TaskId::new(&mut first);
    ex.spawn_task(Task::with_id(id, YieldNow::new()));
    assert_eq!(ex.spawn(YieldNow::new(), &mut second), Err(SpawnError::DuplicateTaskId(id)));
    assert_eq!(ex.task_count(), 1);
    assert!(ex.spawn(YieldNow::new(), &mut second).is_ok());
    assert_eq!(ex.task_count(), 2);
}

#[test]
fn finish_poll_files_the_outcome() {
    let mut ex: TaskExecutor<YieldNow> = TaskExecutor::new();
    let id = TaskId::from_random_bytes([4u8; 16]);
    assert_eq!(ex.finish_poll(Task::with_id(id, YieldNow::new()), TaskPoll::Pending), TaskOutcome::Pending);
    assert!(ex.contains_task(id));
    assert!(ex.is_idle());
    assert_eq!(ex.poll_task(id), TaskOutcome::Pending);
    assert_eq!(ex.poll_task(id), TaskOutcome::Completed);
    assert_eq!(ex.task_count(), 0);
    let other = TaskId::from_random_bytes([6u8; 16]);
    assert_eq!(ex.finish_poll(Task::with_id(other, YieldNow::new()), TaskPoll::Ready), TaskOutcome::Completed);
    assert_eq!(ex.task_count(), 0);
}

#[test]
fn yield_step_wakes_only_first() {
    let mut y = YieldNow::new();
    assert_eq!(y.step(), (TaskPoll::Pending, true));
    assert_eq!(y.step(), (TaskPoll::Ready, false));
    assert_eq!(y.step(), (TaskPoll::Ready, false));
}

#[test]
fn unknown_id_is_discarded() {
    let mut ex: TaskExecutor<YieldNow> = TaskExecutor::new();
    assert_eq!(ex.poll_task(TaskId::from_random_bytes([2u8; 16])), TaskOutcome::Discarded);
    assert!(ex.is_idle());
}
