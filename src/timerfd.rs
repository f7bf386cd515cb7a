//! A timer readable as a file: arming, querying, consuming expirations, and
//! the decisions of the background task that records them.
use vstd::prelude::*;

use crate::{SysError, POLLIN, POLLRDNORM};

verus! {

/// Nanoseconds in one second.
pub const NSEC_PER_SEC: u64 = 1_000_000_000;

/// Clock selector of the wall clock.
pub const CLOCK_REALTIME: i32 = 0;

/// Clock selector of the monotonic clock.
pub const CLOCK_MONOTONIC: i32 = 1;

/// Creation flag: reads fail instead of waiting.
pub const TFD_NONBLOCK: u32 = 0x800;

/// Creation flag: the descriptor is closed on exec.
pub const TFD_CLOEXEC: u32 = 0x80000;

/// The creation flags as (non-blocking, close-on-exec); any other bit is refused.
pub fn parse_timerfd_flags(flags: u32) -> (r: Result<(bool, bool), SysError>)
    ensures
        flags & !(TFD_NONBLOCK | TFD_CLOEXEC) != 0 ==> r == Err::<(bool, bool), SysError>(
            SysError::InvalidInput,
        ),
        flags & !(TFD_NONBLOCK | TFD_CLOEXEC) == 0 ==> r == Ok::<(bool, bool), SysError>(
            (flags & TFD_NONBLOCK != 0, flags & TFD_CLOEXEC != 0),
        ),
{
    if flags & !(TFD_NONBLOCK | TFD_CLOEXEC) != 0 {
        return Err(SysError::InvalidInput);
    }
    Ok((flags & TFD_NONBLOCK != 0, flags & TFD_CLOEXEC != 0))
}

/// The largest number of nanoseconds that a time specification can express.
pub open spec fn max_ts_nanos() -> int {
    i64::MAX as int * NSEC_PER_SEC as int + (NSEC_PER_SEC as int - 1)
}

/// A time specification in seconds and nanoseconds, as user memory holds it.
#[derive(Debug, Clone, Copy, PartialEq, Eq, Structural)]
pub struct TimeSpec {
    pub tv_sec: i64,
    pub tv_nsec: i64,
}

/// A timer setting: the re-arm interval and the initial expiration.
#[derive(Debug, Clone, Copy, PartialEq, Eq, Structural)]
pub struct ITimerSpec {
    pub it_interval: TimeSpec,
    pub it_value: TimeSpec,
}

/// A time specification that denotes a duration: no negative part, and fewer
/// nanoseconds than a second.
pub open spec fn ts_valid(ts: TimeSpec) -> bool {
    ts.tv_sec >= 0 && 0 <= ts.tv_nsec < NSEC_PER_SEC
}

/// The duration that a time specification denotes, in nanoseconds.
pub open spec fn ts_nanos(ts: TimeSpec) -> int {
    ts.tv_sec * NSEC_PER_SEC + ts.tv_nsec
}

/// A valid time specification of `n` nanoseconds, saturated at the largest
/// expressible duration.
pub open spec fn ts_of(n: int) -> TimeSpec {
    if n > max_ts_nanos() {
        TimeSpec { tv_sec: i64::MAX, tv_nsec: (NSEC_PER_SEC - 1) as i64 }
    } else {
        TimeSpec { tv_sec: (n / NSEC_PER_SEC as int) as i64, tv_nsec: (n % NSEC_PER_SEC as int) as i64 }
    }
}

/// The duration of a valid time specification in nanoseconds.
pub fn timespec_to_nanos(ts: &TimeSpec) -> (r: Result<u128, SysError>)
    ensures
        ts_valid(*ts) ==> r == Ok::<u128, SysError>(ts_nanos(*ts) as u128),
        !ts_valid(*ts) ==> r == Err::<u128, SysError>(SysError::InvalidInput),
{
    if ts.tv_sec < 0 || ts.tv_nsec < 0 || ts.tv_nsec >= NSEC_PER_SEC as i64 {
        return Err(SysError::InvalidInput);
    }
    assert(ts.tv_sec * NSEC_PER_SEC <= i64::MAX * NSEC_PER_SEC) by (nonlinear_arith)
        requires
            0 <= ts.tv_sec <= i64::MAX,
    ;
    Ok(ts.tv_sec as u128 * NSEC_PER_SEC as u128 + ts.tv_nsec as u128)
}

/// A duration in nanoseconds as a time specification, saturated at the
/// largest expressible one.
pub fn nanos_to_timespec(n: u128) -> (r: TimeSpec)
    ensures
        r == ts_of(n as int),
        ts_valid(r),
        ts_nanos(r) == if n > max_ts_nanos() {
            max_ts_nanos()
        } else {
            n as int
        },
{
    if n > i64::MAX as u128 * NSEC_PER_SEC as u128 + (NSEC_PER_SEC as u128 - 1) {
        return TimeSpec { tv_sec: i64::MAX, tv_nsec: (NSEC_PER_SEC - 1) as i64 };
    }
    let sec = n / NSEC_PER_SEC as u128;
    let nsec = n % NSEC_PER_SEC as u128;
    assert(sec <= i64::MAX) by (nonlinear_arith)
        requires
            sec == n / 1_000_000_000,
            n <= i64::MAX * 1_000_000_000 + 999_999_999,
    ;
    TimeSpec { tv_sec: sec as i64, tv_nsec: nsec as i64 }
}

/// The clock on which a timer measures its deadlines.
#[derive(Debug, Clone, Copy, PartialEq, Eq, Structural)]
pub enum ClockKind {
    Monotonic,
    Realtime,
}

/// The clock that a selector names; any selector but the wall clock's means
/// the monotonic clock.
pub open spec fn clock_kind_of(clockid: i32) -> ClockKind {
    if clockid == CLOCK_REALTIME {
        ClockKind::Realtime
    } else {
        ClockKind::Monotonic
    }
}

/// Expiration bookkeeping of one timer. Times are nanoseconds on the timer's clock.
#[derive(Debug, Clone, Copy, PartialEq, Eq, Structural)]
pub struct TimerState {
    /// Expirations not yet consumed by a read.
    pub ticks: u64,
    /// Re-arm interval; zero for a one-shot timer.
    pub interval: u128,
    /// Absolute deadline of the next expiration; `None` while disarmed.
    pub next_expiration: Option<u128>,
}

/// Bounds that keep every deadline computation in range: intervals come from
/// a time specification, and deadlines from a clock reading plus one.
pub open spec fn timer_state_wf(s: TimerState) -> bool {
    &&& s.interval <= max_ts_nanos()
    &&& s.next_expiration matches Some(t) ==> t <= u64::MAX + max_ts_nanos()
}

/// Time left until the next expiration at `now`; zero when disarmed or due.
pub open spec fn remaining_of(s: TimerState, now: u64) -> int {
    match s.next_expiration {
        Some(t) => if t > now {
            t - now
        } else {
            0
        },
        None => 0,
    }
}

/// What a query at `now` reports: time left and interval.
pub open spec fn query_of(s: TimerState, now: u64) -> ITimerSpec {
    ITimerSpec { it_interval: ts_of(s.interval as int), it_value: ts_of(remaining_of(s, now)) }
}

/// The all-zero setting.
pub open spec fn zero_itimerspec() -> ITimerSpec {
    ITimerSpec {
        it_interval: TimeSpec { tv_sec: 0, tv_nsec: 0 },
        it_value: TimeSpec { tv_sec: 0, tv_nsec: 0 },
    }
}

/// The previous setting that arming reports: zero for a disarmed timer.
pub open spec fn previous_setting_of(s: TimerState, now: u64) -> ITimerSpec {
    if s.next_expiration is None {
        zero_itimerspec()
    } else {
        query_of(s, now)
    }
}

/// Whether arming flags ask for an absolute deadline.
pub open spec fn is_absolute(flags: i32) -> bool {
    flags & 1 != 0
}

/// The state after arming at `now` with an interval and initial value in nanoseconds.
pub open spec fn armed_state(s: TimerState, flags: i32, interval: int, value: int, now: u64) -> TimerState {
    TimerState {
        ticks: s.ticks,
        interval: interval as u128,
        next_expiration: if value == 0 {
            None
        } else if is_absolute(flags) {
            Some(value as u128)
        } else {
            Some((now + value) as u128)
        },
    }
}

/// What the background task does next at `now`.
#[derive(Debug, Clone, Copy, PartialEq, Eq, Structural)]
pub enum TimerWait {
    /// The deadline has passed: fire it.
    Expired(u128),
    /// Sleep for `delta` nanoseconds or until the setting changes.
    Sleep { target: u128, delta: u128 },
    /// Disarmed: sleep until the setting changes.
    Idle,
}

/// The background task's decision at `now`.
pub open spec fn wait_of(s: TimerState, now: u64) -> TimerWait {
    match s.next_expiration {
        None => TimerWait::Idle,
        Some(t) => if t <= now {
            TimerWait::Expired(t)
        } else {
            TimerWait::Sleep { target: t, delta: (t - now) as u128 }
        },
    }
}

/// The state after firing the deadline `target` at `now`: when `target` is
/// still the armed deadline, one more expiration is counted (saturating) and a
/// periodic timer is re-armed one interval after `now`; otherwise nothing changes.
pub open spec fn fired_state(s: TimerState, target: u128, now: u64) -> TimerState {
    if s.next_expiration == Some(target) {
        TimerState {
            ticks: if s.ticks == u64::MAX { u64::MAX } else { (s.ticks + 1) as u64 },
            interval: s.interval,
            next_expiration: if s.interval != 0 {
                Some((now + s.interval) as u128)
            } else {
                None
            },
        }
    } else {
        s
    }
}

/// Readiness events of a timer: readable exactly while expirations are pending.
pub open spec fn timer_events_of(s: TimerState) -> u32 {
    if s.ticks > 0 {
        POLLIN | POLLRDNORM
    } else {
        0
    }
}

/// Mathematical view of a timer.
pub struct TimerView {
    pub clock: ClockKind,
    pub state: TimerState,
    pub non_blocking: bool,
}

/// A timer: its clock, its expiration state and its blocking mode.
pub struct TimerFd {
    clockid: i32,
    state: TimerState,
    non_blocking: bool,
}

impl View for TimerFd {
    type V = TimerView;

    closed spec fn view(&self) -> TimerView {
        TimerView {
            clock: clock_kind_of(self.clockid),
            state: self.state,
            non_blocking: self.non_blocking,
        }
    }
}

impl TimerFd {
    /// The well-formedness of a timer.
    pub open spec fn wf(&self) -> bool {
        timer_state_wf(self@.state)
    }

    /// A disarmed timer on the clock that `clockid` selects, in blocking mode.
    pub fn new(clockid: i32, flags: i32) -> (r: Result<TimerFd, SysError>)
        ensures
            r matches Ok(t) && t.wf() && t@ == (TimerView {
                clock: clock_kind_of(clockid),
                state: TimerState { ticks: 0, interval: 0, next_expiration: None },
                non_blocking: false,
            }),
    {
        Ok(
            TimerFd {
                clockid,
                state: TimerState { ticks: 0, interval: 0, next_expiration: None },
                non_blocking: false,
            },
        )
    }

    /// The clock of this timer.
    pub fn clock(&self) -> (r: ClockKind)
        ensures
            r == self@.clock,
    {
        if self.clockid == CLOCK_REALTIME {
            ClockKind::Realtime
        } else {
            ClockKind::Monotonic
        }
    }

    /// The current time on this timer's clock, from readings of both clocks.
    pub fn current_time(&self, monotonic_now: u64, wall_now: u64) -> (r: u64)
        ensures
            r == (if self@.clock == ClockKind::Realtime {
                wall_now
            } else {
                monotonic_now
            }),
    {
        match self.clock() {
            ClockKind::Realtime => wall_now,
            ClockKind::Monotonic => monotonic_now,
        }
    }

    /// Whether reads fail instead of waiting.
    pub fn nonblocking(&self) -> (r: bool)
        ensures
            r == self@.non_blocking,
    {
        self.non_blocking
    }

    /// Sets the blocking mode.
    pub fn set_nonblocking(&mut self, flag: bool) -> (r: Result<(), SysError>)
        ensures
            r is Ok,
            final(self)@ == (TimerView { non_blocking: flag, ..old(self)@ }),
    {
        self.non_blocking = flag;
        Ok(())
    }

    /// Arms or disarms the timer at time `now` on its clock, and returns the
    /// setting it had before (all zero if it was disarmed). A zero initial value
    /// disarms; otherwise bit 0 of `flags` makes the initial value an absolute
    /// deadline, and without it the deadline is `now` plus the value. A setting
    /// with a negative part or a nanosecond field of a second or more is refused
    /// and changes nothing.
    pub fn set_time(&mut self, flags: i32, new_value: &ITimerSpec, now: u64) -> (r: Result<
        ITimerSpec,
        SysError,
    >)
        requires
            old(self).wf(),
        ensures
            final(self).wf(),
            final(self)@.clock == old(self)@.clock,
            final(self)@.non_blocking == old(self)@.non_blocking,
            ts_valid(new_value.it_interval) && ts_valid(new_value.it_value) ==> {
                &&& r == Ok::<ITimerSpec, SysError>(previous_setting_of(old(self)@.state, now))
                &&& final(self)@.state == armed_state(
                    old(self)@.state,
                    flags,
                    ts_nanos(new_value.it_interval),
                    ts_nanos(new_value.it_value),
                    now,
                )
            },
            !(ts_valid(new_value.it_interval) && ts_valid(new_value.it_value)) ==> {
                &&& r == Err::<ITimerSpec, SysError>(SysError::InvalidInput)
                &&& final(self)@ == old(self)@
            },
    {
        let interval = match timespec_to_nanos(&new_value.it_interval) {
            Ok(n) => n,
            Err(e) => return Err(e),
        };
        let value = match timespec_to_nanos(&new_value.it_value) {
            Ok(n) => n,
            Err(e) => return Err(e),
        };
        let previous = match self.state.next_expiration {
            Some(_) => self.query(now),
            None => ITimerSpec {
                it_interval: TimeSpec { tv_sec: 0, tv_nsec: 0 },
                it_value: TimeSpec { tv_sec: 0, tv_nsec: 0 },
            },
        };
        self.state.interval = interval;
        if value == 0 {
            self.state.next_expiration = None;
        } else if flags & 1 != 0 {
            self.state.next_expiration = Some(value);
        } else {
            self.state.next_expiration = Some(now as u128 + value);
        }
        Ok(previous)
    }

    /// The time left until the next expiration at `now` (zero when disarmed)
    /// and the interval.
    pub fn query(&self, now: u64) -> (r: ITimerSpec)
        requires
            self.wf(),
        ensures
            r == query_of(self@.state, now),
    {
        let remaining = match self.state.next_expiration {
            Some(t) => t.saturating_sub(now as u128),
            None => 0,
        };
        ITimerSpec {
            it_interval: nanos_to_timespec(self.state.interval),
            it_value: nanos_to_timespec(remaining),
        }
    }

    /// Writes the current setting at `now` into `curr_value`.
    pub fn get_time(&self, curr_value: &mut ITimerSpec, now: u64)
        requires
            self.wf(),
        ensures
            *final(curr_value) == query_of(self@.state, now),
    {
        *curr_value = self.query(now);
    }

    /// Consumes the pending expirations into a destination of `buf_len`
    /// bytes: the count is returned and reset to zero. A destination shorter
    /// than the 8 bytes of the count is refused; with nothing pending the read
    /// would block.
    pub fn read(&mut self, buf_len: usize) -> (r: Result<u64, SysError>)
        ensures
            final(self)@.clock == old(self)@.clock,
            final(self)@.non_blocking == old(self)@.non_blocking,
            final(self)@.state.interval == old(self)@.state.interval,
            final(self)@.state.next_expiration == old(self)@.state.next_expiration,
            buf_len < 8 ==> r == Err::<u64, SysError>(SysError::InvalidInput) && final(self)@
                == old(self)@,
            buf_len >= 8 && old(self)@.state.ticks == 0 ==> r == Err::<u64, SysError>(
                SysError::WouldBlock,
            ) && final(self)@ == old(self)@,
            buf_len >= 8 && old(self)@.state.ticks > 0 ==> r == Ok::<u64, SysError>(
                old(self)@.state.ticks,
            ) && final(self)@.state.ticks == 0,
    {
        if buf_len < 8 {
            return Err(SysError::InvalidInput);
        }
        if self.state.ticks > 0 {
            let ticks = self.state.ticks;
            self.state.ticks = 0;
            Ok(ticks)
        } else {
            Err(SysError::WouldBlock)
        }
    }

    /// The readiness events of the timer.
    pub fn poll(&self) -> (r: u32)
        ensures
            r == timer_events_of(self@.state),
    {
        if self.state.ticks > 0 {
            POLLIN | POLLRDNORM
        } else {
            0
        }
    }

    /// What the background task does next at `now` on the timer's clock.
    pub fn next_wait(&self, now: u64) -> (r: TimerWait)
        ensures
            r == wait_of(self@.state, now),
    {
        match self.state.next_expiration {
            None => TimerWait::Idle,
            Some(t) => if t <= now as u128 {
                TimerWait::Expired(t)
            } else {
                TimerWait::Sleep { target: t, delta: t - now as u128 }
            },
        }
    }

    /// Fires the deadline `target` that the background task found due at
    /// `now`, unless the timer was re-armed meanwhile. Returns whether an
    /// expiration was recorded, so that blocked readers are woken.
    pub fn expire(&mut self, target: u128, now: u64) -> (r: bool)
        requires
            old(self).wf(),
        ensures
            final(self).wf(),
            r == (old(self)@.state.next_expiration == Some(target)),
            final(self)@ == (TimerView {
                state: fired_state(old(self)@.state, target, now),
                ..old(self)@
            }),
    {
        if self.state.next_expiration == Some(target) {
            self.state.ticks = self.state.ticks.saturating_add(1);
            if self.state.interval != 0 {
                self.state.next_expiration = Some(now as u128 + self.state.interval);
            } else {
                self.state.next_expiration = None;
            }
            true
        } else {
            false
        }
    }
}

proof fn lemma_ts_of_nanos(n: int)
    requires
        0 <= n <= max_ts_nanos(),
    ensures
        ts_nanos(ts_of(n)) == n,
{
    assert(n / 1_000_000_000 * 1_000_000_000 + n % 1_000_000_000 == n) by (nonlinear_arith);
    assert(n / 1_000_000_000 <= i64::MAX) by (nonlinear_arith)
        requires
            0 <= n <= i64::MAX * 1_000_000_000 + 999_999_999,
    ;
}

/// A one-shot timer armed at `t0` for a relative duration `d`: before `t0 + d`
/// its background task only sleeps; from `t0 + d` on it finds that deadline due,
/// and firing it records exactly one expiration and disarms the timer, so that
/// no later expiration follows.
pub proof fn lemma_one_shot_expires_once(
    s: TimerState,
    flags: i32,
    d: int,
    t0: u64,
    t: u64,
    later: u64,
)
    requires
        !is_absolute(flags),
        0 < d <= max_ts_nanos(),
        s.ticks < u64::MAX,
    ensures
        t < t0 + d ==> wait_of(armed_state(s, flags, 0, d, t0), t) is Sleep,
        t >= t0 + d ==> wait_of(armed_state(s, flags, 0, d, t0), t) == TimerWait::Expired(
            (t0 + d) as u128,
        ),
        fired_state(armed_state(s, flags, 0, d, t0), (t0 + d) as u128, t).ticks == s.ticks + 1,
        wait_of(fired_state(armed_state(s, flags, 0, d, t0), (t0 + d) as u128, t), later)
            == TimerWait::Idle,
{
}

/// The background task run at the successive instants `times`: the state it
/// leaves and the number of expirations it records.
pub open spec fn run_background(s: TimerState, times: Seq<u64>) -> (TimerState, nat)
    decreases times.len(),
{
    if times.len() == 0 {
        (s, 0)
    } else {
        let prev = run_background(s, times.drop_last());
        let t = times.last();
        match wait_of(prev.0, t) {
            TimerWait::Expired(target) => (fired_state(prev.0, target, t), prev.1 + 1),
            _ => prev,
        }
    }
}

proof fn lemma_periodic_run(s: TimerState, flags: i32, i: int, t0: u64, times: Seq<u64>, m: nat)
    requires
        !is_absolute(flags),
        0 < i <= max_ts_nanos(),
        forall|j: int| 0 <= j < times.len() ==> #[trigger] times[j] <= t0 + m * i,
    ensures
        run_background(armed_state(s, flags, i, i, t0), times).1 <= m,
        run_background(armed_state(s, flags, i, i, t0), times).0.interval == i,
        run_background(armed_state(s, flags, i, i, t0), times).0.next_expiration is Some,
        run_background(armed_state(s, flags, i, i, t0), times).0.next_expiration->Some_0 >= t0
            + (run_background(armed_state(s, flags, i, i, t0), times).1 + 1) * i,
    decreases times.len(),
{
    let a = armed_state(s, flags, i, i, t0);
    if times.len() == 0 {
        assert(t0 + (0 + 1) * i == t0 + i) by (nonlinear_arith);
        assert(0 <= m) by (nonlinear_arith);
    } else {
        let init = times.drop_last();
        assert forall|j: int| 0 <= j < init.len() implies #[trigger] init[j] <= t0 + m * i by {
            assert(init[j] == times[j]);
        }
        lemma_periodic_run(s, flags, i, t0, init, m);
        let prev = run_background(a, init);
        let t = times.last();
        assert(t <= t0 + m * i);
        let k = prev.1;
        let dl = prev.0.next_expiration->Some_0;
        if dl <= t {
            assert((k + 1) * i <= m * i);
            assert(k + 1 <= m) by (nonlinear_arith)
                requires
                    (k + 1) * i <= m * i,
                    i > 0,
            ;
            assert(t0 + (k + 2) * i <= t + i) by (nonlinear_arith)
                requires
                    dl >= t0 + (k + 1) * i,
                    dl <= t,
            ;
        }
    }
}

/// A periodic timer armed at `t0` with interval and initial value `i` records
/// at most `m` expirations while its background task runs only up to `t0 + m * i`,
/// however often it runs: each expiration re-arms one full interval after the
/// instant it was found due.
pub proof fn lemma_periodic_at_most_one_per_interval(
    s: TimerState,
    flags: i32,
    i: int,
    t0: u64,
    times: Seq<u64>,
    m: nat,
)
    requires
        !is_absolute(flags),
        0 < i <= max_ts_nanos(),
        forall|j: int| 0 <= j < times.len() ==> #[trigger] times[j] <= t0 + m * i,
    ensures
        run_background(armed_state(s, flags, i, i, t0), times).1 <= m,
{
    lemma_periodic_run(s, flags, i, t0, times, m);
}

proof fn lemma_periodic_on_schedule_run(s: TimerState, flags: i32, i: int, t0: u64, times: Seq<u64>)
    requires
        !is_absolute(flags),
        0 < i <= max_ts_nanos(),
        times.len() > 0 ==> times[0] >= t0 + i,
        forall|j: int| 0 < j < times.len() ==> #[trigger] times[j] >= times[j - 1] + i,
    ensures
        run_background(armed_state(s, flags, i, i, t0), times).1 == times.len(),
        run_background(armed_state(s, flags, i, i, t0), times).0.interval == i,
        run_background(armed_state(s, flags, i, i, t0), times).0.next_expiration == Some(
            (if times.len() == 0 {
                t0 + i
            } else {
                times.last() + i
            }) as u128,
        ),
    decreases times.len(),
{
    if times.len() > 0 {
        let init = times.drop_last();
        assert forall|j: int| 0 < j < init.len() implies #[trigger] init[j] >= init[j - 1] + i by {
            assert(init[j] == times[j] && init[j - 1] == times[j - 1]);
        }
        if init.len() > 0 {
            assert(init[0] == times[0]);
            assert(times[times.len() - 1] >= times[times.len() - 2] + i);
        }
        lemma_periodic_on_schedule_run(s, flags, i, t0, init);
    }
}

/// A periodic timer armed at `t0` with interval and initial value `i` records
/// an expiration on every run of its background task that comes at least one
/// interval after arming and after the previous run.
pub proof fn lemma_periodic_fires_on_schedule(
    s: TimerState,
    flags: i32,
    i: int,
    t0: u64,
    times: Seq<u64>,
)
    requires
        !is_absolute(flags),
        0 < i <= max_ts_nanos(),
        times.len() > 0 ==> times[0] >= t0 + i,
        forall|j: int| 0 < j < times.len() ==> #[trigger] times[j] >= times[j - 1] + i,
    ensures
        run_background(armed_state(s, flags, i, i, t0), times).1 == times.len(),
{
    lemma_periodic_on_schedule_run(s, flags, i, t0, times);
}

/// A query at `t` after arming at `t0 <= t` for a relative duration `d` with no
/// interval reports a zero interval and a remaining time of at most `d`: exactly
/// `d` at `t0`, and more than zero before the deadline.
pub proof fn lemma_query_after_relative_arm(s: TimerState, flags: i32, d: int, t0: u64, t: u64)
    requires
        !is_absolute(flags),
        0 < d <= max_ts_nanos(),
        t0 <= t,
    ensures
        query_of(armed_state(s, flags, 0, d, t0), t).it_interval == (TimeSpec {
            tv_sec: 0,
            tv_nsec: 0,
        }),
        ts_nanos(query_of(armed_state(s, flags, 0, d, t0), t).it_value) <= d,
        t < t0 + d ==> ts_nanos(query_of(armed_state(s, flags, 0, d, t0), t).it_value) > 0,
        t == t0 ==> ts_nanos(query_of(armed_state(s, flags, 0, d, t0), t).it_value) == d,
{
    let a = armed_state(s, flags, 0, d, t0);
    let rem = remaining_of(a, t);
    assert(0 <= rem <= d);
    lemma_ts_of_nanos(rem);
    lemma_ts_of_nanos(0);
}

/// Arming a disarmed timer reports an all-zero previous setting.
pub proof fn lemma_arm_disarmed_reports_zero(s: TimerState, now: u64)
    requires
        s.next_expiration is None,
    ensures
        previous_setting_of(s, now) == zero_itimerspec(),
{
}

} // verus!
