use starry_wait::timerfd::{
    nanos_to_timespec, parse_timerfd_flags, timespec_to_nanos, TFD_CLOEXEC, TFD_NONBLOCK, ClockKind, ITimerSpec, TimeSpec, TimerFd, TimerWait,
    CLOCK_MONOTONIC, CLOCK_REALTIME,
};
use starry_wait::{SysError, POLLIN, POLLRDNORM};

const MS: u64 = 1_000_000;

fn ts(sec: i64, nsec: i64) -> TimeSpec {
    TimeSpec { tv_sec: sec, tv_nsec: nsec }
}

fn spec(interval: TimeSpec, value: TimeSpec) -> ITimerSpec {
    ITimerSpec { it_interval: interval, it_value: value }
}

fn zero() -> ITimerSpec {
    spec(ts(0, 0), ts(0, 0))
}

#[test]
fn clock_selection() {
    let m = TimerFd::new(CLOCK_MONOTONIC, 0).unwrap();
    assert_eq!(m.clock(), ClockKind::Monotonic);
    assert_eq!(m.current_time(10, 20), 10);
    let r = TimerFd::new(CLOCK_REALTIME, 0).unwrap();
    assert_eq!(r.clock(), ClockKind::Realtime);
    assert_eq!(r.current_time(10, 20), 20);
    let other = TimerFd::new(42, 0).unwrap();
    assert_eq!(other.clock(), ClockKind::Monotonic);
}

#[test]
fn blocking_mode() {
    let mut t = TimerFd::new(CLOCK_MONOTONIC, 0).unwrap();
    assert!(!t.nonblocking());
    assert_eq!(t.set_nonblocking(true), Ok(()));
    assert!(t.nonblocking());
}

#[test]
fn timespec_conversions() {
    assert_eq!(timespec_to_nanos(&ts(1, 5)), Ok(1_000_000_005));
    assert_eq!(timespec_to_nanos(&ts(-1, 0)), Err(SysError::InvalidInput));
    assert_eq!(timespec_to_nanos(&ts(0, 1_000_000_000)), Err(SysError::InvalidInput));
    assert_eq!(timespec_to_nanos(&ts(0, -1)), Err(SysError::InvalidInput));
    assert_eq!(nanos_to_timespec(2_500_000_000), ts(2, 500_000_000));
    assert_eq!(nanos_to_timespec(u128::MAX), ts(i64::MAX, 999_999_999));
}

#[test]
fn one_shot_expires_once() {
    let mut t = TimerFd::new(CLOCK_MONOTONIC, 0).unwrap();
    let t0 = 1_000u64;
    let d = 1_500 * MS;
    assert_eq!(t.set_time(0, &spec(ts(0, 0), ts(1, 500_000_000)), t0), Ok(zero()));
    let deadline = (t0 + d) as u128;
    assert_eq!(t.next_wait(t0), TimerWait::Sleep { target: deadline, delta: d as u128 });
    assert_eq!(t.next_wait(t0 + d - 1), TimerWait::Sleep { target: deadline, delta: 1 });
    assert_eq!(t.poll(), 0);
    assert_eq!(t.next_wait(t0 + d), TimerWait::Expired(deadline));
    assert!(t.expire(deadline, t0 + d));
    assert_eq!(t.poll(), POLLIN | POLLRDNORM);
    assert_eq!(t.next_wait(t0 + 10 * d), TimerWait::Idle);
    assert_eq!(t.read(8), Ok(1));
    assert_eq!(t.read(8), Err(SysError::WouldBlock));
}

#[test]
fn periodic_timer_accumulates_ticks() {
    let mut t = TimerFd::new(CLOCK_MONOTONIC, 0).unwrap();
    let i = 100 * MS;
    t.set_time(0, &spec(ts(0, 100_000_000), ts(0, 100_000_000)), 0).unwrap();
    let mut fired = 0u64;
    let mut now = 0u64;
    while now <= 3 * i {
        if let TimerWait::Expired(target) = t.next_wait(now) {
            assert!(t.expire(target, now));
            fired += 1;
        }
        now += MS;
    }
    assert_eq!(fired, 3);
    assert_eq!(t.read(8), Ok(3));
    // A late firing re-arms one interval after it.
    assert!(t.expire(400 * MS as u128, 410 * MS));
    assert_eq!(t.next_wait(410 * MS), TimerWait::Sleep { target: 510 * MS as u128, delta: i as u128 });
}

#[test]
fn periodic_timer_with_reads_between_waits() {
    let mut t = TimerFd::new(CLOCK_MONOTONIC, 0).unwrap();
    let i = 10 * MS;
    t.set_time(0, &spec(ts(0, 10_000_000), ts(0, 10_000_000)), 0).unwrap();
    let mut total = 0u64;
    for k in 1..=3u64 {
        if let TimerWait::Expired(target) = t.next_wait(k * i + 1) {
            t.expire(target, k * i + 1);
        }
        if let Ok(n) = t.read(8) {
            total += n;
        }
    }
    assert!((2..=3).contains(&total));
}

#[test]
fn read_without_ticks_would_block() {
    let mut t = TimerFd::new(CLOCK_MONOTONIC, 0).unwrap();
    t.set_nonblocking(true).unwrap();
    assert_eq!(t.read(8), Err(SysError::WouldBlock));
    assert_eq!(t.read(4), Err(SysError::InvalidInput));
}

#[test]
fn short_buffer_keeps_ticks() {
    let mut t = TimerFd::new(CLOCK_MONOTONIC, 0).unwrap();
    t.set_time(1, &spec(ts(0, 0), ts(0, 5)), 0).unwrap();
    assert!(t.expire(5, 5));
    assert_eq!(t.read(7), Err(SysError::InvalidInput));
    assert_eq!(t.read(8), Ok(1));
}

#[test]
fn query_after_relative_arm() {
    let mut t = TimerFd::new(CLOCK_MONOTONIC, 0).unwrap();
    t.set_time(0, &spec(ts(0, 0), ts(2, 0)), 500).unwrap();
    assert_eq!(t.query(500), spec(ts(0, 0), ts(2, 0)));
    let later = t.query(500 + 1_500 * MS);
    assert_eq!(later, spec(ts(0, 0), ts(0, 500_000_000)));
    let mut out = zero();
    t.get_time(&mut out, 500 + 3_000 * MS);
    assert_eq!(out, zero());
}

#[test]
fn arm_reports_previous_setting() {
    let mut t = TimerFd::new(CLOCK_MONOTONIC, 0).unwrap();
    assert_eq!(t.set_time(0, &spec(ts(1, 0), ts(10, 0)), 0), Ok(zero()));
    let old = t.set_time(0, &spec(ts(0, 0), ts(0, 0)), 4_000 * MS).unwrap();
    assert_eq!(old, spec(ts(1, 0), ts(6, 0)));
    // Now disarmed: the previous setting reads as zero, interval included.
    assert_eq!(t.set_time(0, &spec(ts(0, 0), ts(1, 0)), 0), Ok(zero()));
}

#[test]
fn absolute_deadline() {
    let mut t = TimerFd::new(CLOCK_REALTIME, 0).unwrap();
    t.set_time(1, &spec(ts(0, 0), ts(5, 0)), 2_000 * MS).unwrap();
    assert_eq!(t.query(2_000 * MS), spec(ts(0, 0), ts(3, 0)));
    assert_eq!(t.next_wait(6_000 * MS), TimerWait::Expired(5_000 * MS as u128));
}

#[test]
fn invalid_setting_changes_nothing() {
    let mut t = TimerFd::new(CLOCK_MONOTONIC, 0).unwrap();
    t.set_time(0, &spec(ts(0, 0), ts(1, 0)), 0).unwrap();
    assert_eq!(
        t.set_time(0, &spec(ts(0, 0), ts(0, 1_000_000_000)), 0),
        Err(SysError::InvalidInput)
    );
    assert_eq!(t.set_time(0, &spec(ts(-1, 0), ts(1, 0)), 0), Err(SysError::InvalidInput));
    assert_eq!(t.query(0), spec(ts(0, 0), ts(1, 0)));
}

#[test]
fn rearm_cancels_stale_firing() {
    let mut t = TimerFd::new(CLOCK_MONOTONIC, 0).unwrap();
    t.set_time(0, &spec(ts(0, 0), ts(1, 0)), 0).unwrap();
    let stale = 1_000 * MS as u128;
    t.set_time(0, &spec(ts(0, 0), ts(5, 0)), 0).unwrap();
    assert!(!t.expire(stale, 1_000 * MS));
    assert_eq!(t.read(8), Err(SysError::WouldBlock));
    assert_eq!(t.next_wait(1_000 * MS), TimerWait::Sleep { target: 5_000 * MS as u128, delta: 4_000 * MS as u128 });
}

#[test]
fn zero_value_disarms() {
    let mut t = TimerFd::new(CLOCK_MONOTONIC, 0).unwrap();
    t.set_time(0, &spec(ts(1, 0), ts(1, 0)), 0).unwrap();
    t.set_time(0, &spec(ts(1, 0), ts(0, 0)), 0).unwrap();
    assert_eq!(t.next_wait(u64::MAX), TimerWait::Idle);
    assert_eq!(t.query(0), spec(ts(1, 0), ts(0, 0)));
}

#[test]
fn creation_flags() {
    assert_eq!(parse_timerfd_flags(0), Ok((false, false)));
    assert_eq!(parse_timerfd_flags(TFD_NONBLOCK), Ok((true, false)));
    assert_eq!(parse_timerfd_flags(TFD_NONBLOCK | TFD_CLOEXEC), Ok((true, true)));
    assert_eq!(parse_timerfd_flags(1), Err(SysError::InvalidInput));
}
