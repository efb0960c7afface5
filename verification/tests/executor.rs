use simple_future_playground::{
    new_executor_and_spawner, Executor, Poll, RunOutcome, SendError, TimerFuture, Turn,
    UnitOfWork, WakeHandle, MAX_QUEUE_TASKS,
};
use std::cell::RefCell;
use std::rc::Rc;
use std::time::Duration;

/// Work that suspends `left` times and then finishes. Each step writes the
/// work's name and the handle it was given into a shared journal.
struct Countdown {
    name: u32,
    left: u32,
    journal: Rc<RefCell<Vec<(u32, WakeHandle)>>>,
}

impl UnitOfWork for Countdown {
    fn step(&mut self, waker: WakeHandle) -> Poll {
        self.journal.borrow_mut().push((self.name, waker));
        if self.left == 0 {
            Poll::Ready
        } else {
            self.left -= 1;
            Poll::Pending
        }
    }
}

fn journal() -> Rc<RefCell<Vec<(u32, WakeHandle)>>> {
    Rc::new(RefCell::new(Vec::new()))
}

fn countdown(name: u32, left: u32, journal: &Rc<RefCell<Vec<(u32, WakeHandle)>>>) -> Countdown {
    Countdown { name, left, journal: journal.clone() }
}

fn names(journal: &Rc<RefCell<Vec<(u32, WakeHandle)>>>) -> Vec<u32> {
    journal.borrow().iter().map(|entry| entry.0).collect()
}

#[test]
fn new_pair_is_empty_and_open() {
    let (executor, _spawner): (Executor<Countdown>, _) = new_executor_and_spawner();
    assert!(!executor.is_stopped());
    assert_eq!(executor.queued(), 0);
    assert_eq!(executor.pending(), 0);
    assert_eq!(executor.spawners(), 1);
}

#[test]
fn capacity_is_ten_thousand() {
    assert_eq!(MAX_QUEUE_TASKS, 10_000);
}

#[test]
fn spawn_queues_a_new_record() {
    let log = journal();
    let (mut executor, spawner) = new_executor_and_spawner();
    assert_eq!(spawner.spawn(&mut executor, countdown(1, 0, &log)), Ok(()));
    assert_eq!(executor.queued(), 1);
    assert_eq!(executor.pending(), 1);
    assert!(log.borrow().is_empty());
}

#[test]
fn run_with_a_spawner_left_goes_idle() {
    let log = journal();
    let (mut executor, spawner) = new_executor_and_spawner();
    spawner.spawn(&mut executor, countdown(1, 0, &log)).unwrap();
    assert_eq!(executor.run(), RunOutcome::Idle);
    assert_eq!(names(&log), vec![1]);
    assert_eq!(executor.pending(), 0);
    assert!(!executor.is_stopped());
    executor.release(spawner);
    assert_eq!(executor.run(), RunOutcome::Stopped);
    assert!(executor.is_stopped());
}

#[test]
fn run_without_tasks_or_spawners_stops_at_once() {
    let (mut executor, spawner): (Executor<Countdown>, _) = new_executor_and_spawner();
    executor.release(spawner);
    assert_eq!(executor.run(), RunOutcome::Stopped);
    assert_eq!(executor.run(), RunOutcome::Stopped);
    assert_eq!(executor.turn(), Turn::Stopped);
}

#[test]
fn records_are_polled_in_the_order_they_were_sent() {
    let log = journal();
    let (mut executor, spawner) = new_executor_and_spawner();
    for name in 0..5u32 {
        spawner.spawn(&mut executor, countdown(name, 1, &log)).unwrap();
    }
    assert_eq!(executor.run(), RunOutcome::Idle);
    assert_eq!(names(&log), vec![0, 1, 2, 3, 4]);
    executor.wake(WakeHandle { task: 3 }).unwrap();
    executor.wake(WakeHandle { task: 1 }).unwrap();
    executor.wake(WakeHandle { task: 4 }).unwrap();
    assert_eq!(executor.run(), RunOutcome::Idle);
    assert_eq!(names(&log), vec![0, 1, 2, 3, 4, 3, 1, 4]);
    assert_eq!(executor.pending(), 2);
}

#[test]
fn each_record_is_stepped_with_its_own_handle() {
    let log = journal();
    let (mut executor, spawner) = new_executor_and_spawner();
    for name in 0..3u32 {
        spawner.spawn(&mut executor, countdown(name + 100, 0, &log)).unwrap();
    }
    executor.run();
    assert_eq!(
        *log.borrow(),
        vec![
            (100, WakeHandle { task: 0 }),
            (101, WakeHandle { task: 1 }),
            (102, WakeHandle { task: 2 }),
        ]
    );
}

#[test]
fn turn_reports_what_it_did() {
    let log = journal();
    let (mut executor, spawner) = new_executor_and_spawner();
    spawner.spawn(&mut executor, countdown(0, 1, &log)).unwrap();
    spawner.spawn(&mut executor, countdown(1, 0, &log)).unwrap();
    assert_eq!(executor.turn(), Turn::Stepped(Poll::Pending));
    assert_eq!(executor.queued(), 1);
    assert_eq!(executor.turn(), Turn::Stepped(Poll::Ready));
    assert_eq!(executor.turn(), Turn::Idle);
    executor.wake(WakeHandle { task: 1 }).unwrap();
    assert_eq!(executor.turn(), Turn::Skipped);
    executor.wake(WakeHandle { task: 0 }).unwrap();
    assert_eq!(executor.turn(), Turn::Stepped(Poll::Ready));
    executor.release(spawner);
    assert_eq!(executor.turn(), Turn::Stopped);
    assert!(executor.is_stopped());
}

#[test]
fn one_wake_gives_one_step() {
    let log = journal();
    let (mut executor, spawner) = new_executor_and_spawner();
    spawner.spawn(&mut executor, countdown(0, 10, &log)).unwrap();
    executor.run();
    assert_eq!(log.borrow().len(), 1);
    executor.wake(WakeHandle { task: 0 }).unwrap();
    executor.run();
    assert_eq!(log.borrow().len(), 2);
    executor.run();
    assert_eq!(log.borrow().len(), 2);
}

#[test]
fn duplicate_wakes_step_pending_work_again() {
    let log = journal();
    let (mut executor, spawner) = new_executor_and_spawner();
    spawner.spawn(&mut executor, countdown(0, 1, &log)).unwrap();
    executor.wake(WakeHandle { task: 0 }).unwrap();
    executor.wake(WakeHandle { task: 0 }).unwrap();
    assert_eq!(executor.queued(), 3);
    // The first step suspends, the second finishes, the third finds nothing.
    assert_eq!(executor.turn(), Turn::Stepped(Poll::Pending));
    assert_eq!(executor.turn(), Turn::Stepped(Poll::Ready));
    assert_eq!(executor.turn(), Turn::Skipped);
    assert_eq!(log.borrow().len(), 2);
}

#[test]
fn wake_of_a_finished_record_is_a_no_op() {
    let log = journal();
    let (mut executor, spawner) = new_executor_and_spawner();
    spawner.spawn(&mut executor, countdown(0, 0, &log)).unwrap();
    executor.run();
    assert_eq!(executor.pending(), 0);
    assert_eq!(executor.wake(WakeHandle { task: 0 }), Ok(()));
    assert_eq!(executor.queued(), 1);
    assert_eq!(executor.turn(), Turn::Skipped);
    assert_eq!(log.borrow().len(), 1);
    assert_eq!(executor.pending(), 0);
}

#[test]
fn wake_with_a_handle_of_no_record_is_a_no_op() {
    let log = journal();
    let (mut executor, spawner) = new_executor_and_spawner();
    spawner.spawn(&mut executor, countdown(0, 3, &log)).unwrap();
    executor.run();
    assert_eq!(executor.wake(WakeHandle { task: 55 }), Ok(()));
    assert_eq!(executor.turn(), Turn::Skipped);
    assert_eq!(log.borrow().len(), 1);
    assert_eq!(executor.pending(), 1);
}

#[test]
fn suspended_record_without_a_wake_never_runs_again() {
    let log = journal();
    let (mut executor, spawner) = new_executor_and_spawner();
    spawner.spawn(&mut executor, countdown(0, 1, &log)).unwrap();
    executor.release(spawner);
    for _ in 0..20 {
        assert_eq!(executor.run(), RunOutcome::Idle);
    }
    assert_eq!(log.borrow().len(), 1);
    assert_eq!(executor.pending(), 1);
    assert!(!executor.is_stopped());
}

#[test]
fn unwoken_record_is_untouched_while_others_run() {
    let log = journal();
    let (mut executor, spawner) = new_executor_and_spawner();
    spawner.spawn(&mut executor, countdown(0, 5, &log)).unwrap();
    spawner.spawn(&mut executor, countdown(1, 5, &log)).unwrap();
    executor.run();
    for _ in 0..5 {
        executor.wake(WakeHandle { task: 1 }).unwrap();
        executor.run();
    }
    assert_eq!(names(&log), vec![0, 1, 1, 1, 1, 1, 1]);
    assert_eq!(executor.pending(), 1);
}

#[test]
fn timer_that_never_elapses_never_finishes() {
    let (mut executor, spawner) = new_executor_and_spawner();
    let timer: TimerFuture<WakeHandle> = TimerFuture::new(Duration::new(3600, 0));
    spawner.spawn(&mut executor, timer).unwrap();
    executor.release(spawner);
    assert_eq!(executor.turn(), Turn::Stepped(Poll::Pending));
    assert_eq!(executor.run(), RunOutcome::Idle);
    executor.wake(WakeHandle { task: 0 }).unwrap();
    assert_eq!(executor.turn(), Turn::Stepped(Poll::Pending));
    assert_eq!(executor.run(), RunOutcome::Idle);
    assert_eq!(executor.pending(), 1);
}

#[test]
fn spawn_beyond_capacity_fails() {
    let log = journal();
    let (mut executor, spawner) = new_executor_and_spawner();
    for name in 0..MAX_QUEUE_TASKS {
        assert_eq!(spawner.spawn(&mut executor, countdown(name as u32, 0, &log)), Ok(()));
    }
    assert_eq!(executor.queued(), MAX_QUEUE_TASKS);
    for name in 0..25u32 {
        assert_eq!(
            spawner.spawn(&mut executor, countdown(name, 0, &log)),
            Err(SendError::CapacityExceeded)
        );
    }
    assert_eq!(executor.queued(), MAX_QUEUE_TASKS);
    assert_eq!(executor.pending(), MAX_QUEUE_TASKS);
    assert!(log.borrow().is_empty());
}

#[test]
fn spawn_succeeds_again_once_a_record_was_received() {
    let log = journal();
    let (mut executor, spawner) = new_executor_and_spawner();
    for name in 0..MAX_QUEUE_TASKS {
        spawner.spawn(&mut executor, countdown(name as u32, 0, &log)).unwrap();
    }
    assert_eq!(
        spawner.spawn(&mut executor, countdown(0, 0, &log)),
        Err(SendError::CapacityExceeded)
    );
    assert_eq!(executor.turn(), Turn::Stepped(Poll::Ready));
    assert_eq!(spawner.spawn(&mut executor, countdown(77, 0, &log)), Ok(()));
    assert_eq!(
        spawner.spawn(&mut executor, countdown(0, 0, &log)),
        Err(SendError::CapacityExceeded)
    );
    assert_eq!(executor.run(), RunOutcome::Idle);
    assert_eq!(log.borrow().len(), MAX_QUEUE_TASKS + 1);
    assert_eq!(log.borrow().last().unwrap().0, 77);
    assert_eq!(log.borrow().last().unwrap().1, WakeHandle { task: MAX_QUEUE_TASKS });
}

#[test]
fn wake_on_a_full_channel_fails() {
    let log = journal();
    let (mut executor, spawner) = new_executor_and_spawner();
    spawner.spawn(&mut executor, countdown(0, 1, &log)).unwrap();
    for _ in 1..MAX_QUEUE_TASKS {
        assert_eq!(executor.wake(WakeHandle { task: 0 }), Ok(()));
    }
    assert_eq!(executor.wake(WakeHandle { task: 0 }), Err(SendError::CapacityExceeded));
    assert_eq!(executor.queued(), MAX_QUEUE_TASKS);
}

#[test]
fn spawn_after_disconnect_fails() {
    let log = journal();
    let (mut executor, spawner) = new_executor_and_spawner();
    spawner.spawn(&mut executor, countdown(0, 0, &log)).unwrap();
    executor.disconnect();
    assert!(executor.is_stopped());
    assert_eq!(executor.queued(), 0);
    assert_eq!(
        spawner.spawn(&mut executor, countdown(1, 0, &log)),
        Err(SendError::ChannelClosed)
    );
    assert_eq!(executor.wake(WakeHandle { task: 0 }), Err(SendError::ChannelClosed));
    assert_eq!(executor.run(), RunOutcome::Stopped);
    assert!(log.borrow().is_empty());
    assert_eq!(executor.pending(), 1);
}

#[test]
fn wake_after_the_run_has_stopped_fails() {
    let log = journal();
    let (mut executor, spawner) = new_executor_and_spawner();
    spawner.spawn(&mut executor, countdown(0, 0, &log)).unwrap();
    executor.release(spawner);
    assert_eq!(executor.run(), RunOutcome::Stopped);
    assert_eq!(executor.wake(WakeHandle { task: 0 }), Err(SendError::ChannelClosed));
    assert_eq!(executor.queued(), 0);
}

#[test]
fn closed_takes_precedence_over_full() {
    let log = journal();
    let (mut executor, spawner) = new_executor_and_spawner();
    for name in 0..MAX_QUEUE_TASKS {
        spawner.spawn(&mut executor, countdown(name as u32, 0, &log)).unwrap();
    }
    executor.disconnect();
    assert_eq!(
        spawner.spawn(&mut executor, countdown(0, 0, &log)),
        Err(SendError::ChannelClosed)
    );
}

#[test]
fn executor_waits_for_every_spawner() {
    let (mut executor, first): (Executor<Countdown>, _) = new_executor_and_spawner();
    let second = first.duplicate(&mut executor);
    let third = second.duplicate(&mut executor);
    assert_eq!(executor.spawners(), 3);
    executor.release(first);
    assert_eq!(executor.run(), RunOutcome::Idle);
    executor.release(third);
    assert_eq!(executor.run(), RunOutcome::Idle);
    executor.release(second);
    assert_eq!(executor.spawners(), 0);
    assert_eq!(executor.run(), RunOutcome::Stopped);
}

#[test]
fn duplicate_spawner_spawns_too() {
    let log = journal();
    let (mut executor, first) = new_executor_and_spawner();
    let second = first.duplicate(&mut executor);
    first.spawn(&mut executor, countdown(1, 0, &log)).unwrap();
    executor.release(first);
    second.spawn(&mut executor, countdown(2, 0, &log)).unwrap();
    assert_eq!(executor.run(), RunOutcome::Idle);
    assert_eq!(names(&log), vec![1, 2]);
    executor.release(second);
    assert_eq!(executor.run(), RunOutcome::Stopped);
}

#[test]
fn release_without_a_counted_spawner_changes_nothing() {
    let (mut executor, spawner): (Executor<Countdown>, _) = new_executor_and_spawner();
    let (_other, foreign): (Executor<Countdown>, _) = new_executor_and_spawner();
    executor.release(spawner);
    assert_eq!(executor.spawners(), 0);
    executor.release(foreign);
    assert_eq!(executor.spawners(), 0);
}

#[test]
fn run_stops_only_after_every_task_has_finished() {
    let log = journal();
    let (mut executor, spawner) = new_executor_and_spawner();
    spawner.spawn(&mut executor, countdown(0, 2, &log)).unwrap();
    spawner.spawn(&mut executor, countdown(1, 1, &log)).unwrap();
    executor.release(spawner);
    assert_eq!(executor.run(), RunOutcome::Idle);
    executor.wake(WakeHandle { task: 1 }).unwrap();
    assert_eq!(executor.run(), RunOutcome::Idle);
    assert_eq!(executor.pending(), 1);
    executor.wake(WakeHandle { task: 0 }).unwrap();
    assert_eq!(executor.run(), RunOutcome::Idle);
    executor.wake(WakeHandle { task: 0 }).unwrap();
    assert_eq!(executor.run(), RunOutcome::Stopped);
    assert_eq!(executor.pending(), 0);
    assert_eq!(names(&log), vec![0, 1, 1, 0, 0]);
}
