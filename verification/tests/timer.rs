use simple_future_playground::{Poll, TimerFuture, UnitOfWork, WakeHandle};
use std::time::Duration;

#[test]
fn new_timer_is_not_completed() {
    let timer: TimerFuture<u32> = TimerFuture::new(Duration::new(2, 0));
    assert!(!timer.is_completed());
}

#[test]
fn timer_keeps_its_duration() {
    let timer: TimerFuture<u32> = TimerFuture::new(Duration::new(2, 500));
    assert_eq!(timer.duration(), Duration::new(2, 500));
    let zero: TimerFuture<u32> = TimerFuture::new(Duration::new(0, 0));
    assert_eq!(zero.duration(), Duration::ZERO);
}

#[test]
fn poll_before_completion_is_pending() {
    let mut timer: TimerFuture<u32> = TimerFuture::new(Duration::new(1, 0));
    assert_eq!(timer.poll(7), Poll::Pending);
    assert!(!timer.is_completed());
    assert_eq!(timer.poll(7), Poll::Pending);
}

#[test]
fn complete_hands_out_the_stored_handle() {
    let mut timer: TimerFuture<u32> = TimerFuture::new(Duration::new(1, 0));
    assert_eq!(timer.poll(7), Poll::Pending);
    assert_eq!(timer.complete(), Some(7));
    assert!(timer.is_completed());
}

#[test]
fn latest_poller_replaces_the_stored_handle() {
    let mut timer: TimerFuture<u32> = TimerFuture::new(Duration::new(1, 0));
    assert_eq!(timer.poll(1), Poll::Pending);
    assert_eq!(timer.poll(2), Poll::Pending);
    assert_eq!(timer.poll(3), Poll::Pending);
    assert_eq!(timer.complete(), Some(3));
}

#[test]
fn complete_without_a_poller_fires_nothing() {
    let mut timer: TimerFuture<u32> = TimerFuture::new(Duration::new(0, 0));
    assert_eq!(timer.complete(), None);
    assert!(timer.is_completed());
    assert_eq!(timer.poll(5), Poll::Ready);
}

#[test]
fn handle_is_fired_only_once() {
    let mut timer: TimerFuture<u32> = TimerFuture::new(Duration::new(1, 0));
    assert_eq!(timer.poll(9), Poll::Pending);
    assert_eq!(timer.complete(), Some(9));
    assert_eq!(timer.complete(), None);
    assert_eq!(timer.complete(), None);
}

#[test]
fn poll_after_completion_is_ready() {
    let mut timer: TimerFuture<u32> = TimerFuture::new(Duration::new(1, 0));
    assert_eq!(timer.poll(4), Poll::Pending);
    assert_eq!(timer.complete(), Some(4));
    assert_eq!(timer.poll(4), Poll::Ready);
}

#[test]
fn finished_timer_stays_finished() {
    let mut timer: TimerFuture<u32> = TimerFuture::new(Duration::new(1, 0));
    timer.complete();
    for round in 0..10u32 {
        assert_eq!(timer.poll(round), Poll::Ready);
        if round % 3 == 0 {
            assert_eq!(timer.complete(), None);
        }
        assert!(timer.is_completed());
    }
}

#[test]
fn ready_poll_does_not_store_the_handle() {
    let mut timer: TimerFuture<u32> = TimerFuture::new(Duration::new(1, 0));
    timer.complete();
    assert_eq!(timer.poll(11), Poll::Ready);
    assert_eq!(timer.complete(), None);
}

#[test]
fn polls_alone_never_complete_a_timer() {
    let mut timer: TimerFuture<u32> = TimerFuture::new(Duration::new(0, 0));
    for round in 0..100u32 {
        assert_eq!(timer.poll(round), Poll::Pending);
    }
    assert!(!timer.is_completed());
    assert_eq!(timer.complete(), Some(99));
}

#[test]
fn timer_steps_as_a_unit_of_work() {
    let mut timer: TimerFuture<WakeHandle> = TimerFuture::new(Duration::new(1, 0));
    assert_eq!(timer.step(WakeHandle { task: 3 }), Poll::Pending);
    assert_eq!(timer.complete(), Some(WakeHandle { task: 3 }));
    assert_eq!(timer.step(WakeHandle { task: 3 }), Poll::Ready);
    assert_eq!(timer.step(WakeHandle { task: 8 }), Poll::Ready);
}
