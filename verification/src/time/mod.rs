//! Time on the console: converting between timer ticks and nanoseconds, points of the
//! system clock, and calendar dates.
pub mod datetime;

use vstd::prelude::*;

pub use datetime::{CalendarTime, DateTime};

verus! {

/// The frequency of the system timer, a quarter of the bus clock speed.
pub fn timer_clock_speed(bus_clock_speed: u32) -> (r: u32)
    ensures
        r == bus_clock_speed / 4,
{
    bus_clock_speed / 4
}

/// The timer ticks in `nanos` nanoseconds at `clock` ticks per second, rounded down in
/// two steps: `nanos * clock / 31_250 / 32_000`.
pub open spec fn ticks_of(nanos: int, clock: int) -> int {
    (nanos * clock / 31_250) / 32_000
}

/// The nanoseconds in `ticks` timer ticks at `clock` ticks per second:
/// `ticks * 32_000 / (clock / 31_250)`.
pub open spec fn nanos_of(ticks: int, clock: int) -> int {
    (ticks * 32_000) / (clock / 31_250)
}

/// Converts nanoseconds to timer ticks at `clock` ticks per second, see [`ticks_of`].
pub fn nanos_to_ticks(nanos: u64, clock: u32) -> (r: u64)
    requires
        nanos * clock <= u64::MAX,
    ensures
        r == ticks_of(nanos as int, clock as int),
{
    (nanos * (clock as u64) / 31_250) / 32_000
}

/// Converts timer ticks to nanoseconds at `clock` ticks per second, see [`nanos_of`]; the
/// clock must be at least 31 250 ticks per second.
pub fn ticks_to_nanos(ticks: u64, clock: u32) -> (r: u64)
    requires
        clock >= 31_250,
        ticks * 32_000 <= u64::MAX,
    ensures
        r == nanos_of(ticks as int, clock as int),
{
    let per = (clock as u64) / 31_250;
    assert((ticks * 32_000) / (per as int) <= ticks * 32_000) by (nonlinear_arith)
        requires
            per >= 1,
            ticks * 32_000 >= 0,
    ;
    (ticks * 32_000) / per
}

/// A point of the system clock, in timer ticks since 2000-01-01 00:00:00.
#[derive(Debug, Clone, Copy, PartialEq, Eq, Structural)]
pub struct SystemTime {
    ticks: i64,
}

impl View for SystemTime {
    type V = i64;

    closed spec fn view(&self) -> i64 {
        self.ticks
    }
}

impl SystemTime {
    /// The point `ticks` timer ticks after the epoch.
    pub fn from_ticks(ticks: i64) -> (r: SystemTime)
        ensures
            r@ == ticks,
    {
        SystemTime { ticks }
    }

    /// The timer ticks since the epoch.
    pub fn ticks(&self) -> (r: i64)
        ensures
            r == self@,
    {
        self.ticks
    }

    /// The nanoseconds from `earlier` to `self` at `clock` ticks per second; an error if
    /// `earlier` is later.
    pub fn duration_since(&self, earlier: SystemTime, clock: u32) -> (r: Result<u64, ()>)
        requires
            i64::MIN <= self@ - earlier@ <= i64::MAX,
            self@ >= earlier@ ==> clock >= 31_250 && (self@ - earlier@) * 32_000 <= u64::MAX,
        ensures
            self@ < earlier@ ==> r is Err,
            self@ >= earlier@ ==> r == Ok::<u64, ()>(
                nanos_of(self@ - earlier@, clock as int) as u64,
            ),
    {
        let delta = self.ticks - earlier.ticks;
        if delta >= 0 {
            let n = ticks_to_nanos(delta as u64, clock);
            Ok(n)
        } else {
            Err(())
        }
    }

    /// The nanoseconds from `self` to `now` at `clock` ticks per second; an error if `self`
    /// is later than `now`.
    pub fn elapsed(&self, now: SystemTime, clock: u32) -> (r: Result<u64, ()>)
        requires
            i64::MIN <= now@ - self@ <= i64::MAX,
            now@ >= self@ ==> clock >= 31_250 && (now@ - self@) * 32_000 <= u64::MAX,
        ensures
            now@ < self@ ==> r is Err,
            now@ >= self@ ==> r == Ok::<u64, ()>(nanos_of(now@ - self@, clock as int) as u64),
    {
        now.duration_since(*self, clock)
    }

    /// The point `nanos` nanoseconds later, at `clock` ticks per second.
    pub fn add_nanos(self, nanos: u64, clock: u32) -> (r: SystemTime)
        requires
            nanos * clock <= u64::MAX,
            self@ + ticks_of(nanos as int, clock as int) <= i64::MAX,
        ensures
            r@ == self@ + ticks_of(nanos as int, clock as int),
    {
        let t = nanos_to_ticks(nanos, clock);
        proof {
            lemma_ticks_fit(nanos, clock);
        }
        SystemTime { ticks: self.ticks + t as i64 }
    }

    /// The point `nanos` nanoseconds earlier, at `clock` ticks per second.
    pub fn sub_nanos(self, nanos: u64, clock: u32) -> (r: SystemTime)
        requires
            nanos * clock <= u64::MAX,
            self@ - ticks_of(nanos as int, clock as int) >= i64::MIN,
        ensures
            r@ == self@ - ticks_of(nanos as int, clock as int),
    {
        let t = nanos_to_ticks(nanos, clock);
        proof {
            lemma_ticks_fit(nanos, clock);
        }
        SystemTime { ticks: self.ticks - t as i64 }
    }
}

/// A tick count from a nanosecond count fits in an `i64`.
proof fn lemma_ticks_fit(nanos: u64, clock: u32)
    requires
        nanos * clock <= u64::MAX,
    ensures
        0 <= ticks_of(nanos as int, clock as int) <= i64::MAX,
{
    let p = nanos * clock;
    assert(0 <= p) by (nonlinear_arith)
        requires
            p == nanos * clock,
    ;
    assert(p / 31_250 / 32_000 <= p);
}

/// The ticks in a span of nanoseconds are the whole ticks it holds: `ticks` ticks take
/// `ticks * 10^9 / clock` nanoseconds, so `ticks_of` is the largest count whose span is not
/// longer than `nanos`.
pub proof fn law_ticks_are_whole_ticks(nanos: int, clock: int)
    requires
        nanos >= 0,
        clock >= 0,
    ensures
        ticks_of(nanos, clock) * 1_000_000_000 <= nanos * clock,
        nanos * clock < (ticks_of(nanos, clock) + 1) * 1_000_000_000,
{
    let x = nanos * clock;
    assert(x >= 0) by (nonlinear_arith)
        requires
            x == nanos * clock,
            nanos >= 0,
            clock >= 0,
    ;
    vstd::arithmetic::div_mod::lemma_div_denominator(x, 31_250, 32_000);
    vstd::arithmetic::div_mod::lemma_fundamental_div_mod(x, 1_000_000_000);
    vstd::arithmetic::div_mod::lemma_mod_pos_bound(x, 1_000_000_000);
    assert(ticks_of(nanos, clock) == x / 1_000_000_000);
}

/// For a clock that runs a whole number of times 31 250 ticks per second (as the console's
/// does), the nanoseconds in a count of ticks are the whole nanoseconds that those ticks
/// take: `nanos_of` is the largest count `n` with `n * clock <= ticks * 10^9`.
pub proof fn law_nanos_are_whole_nanos(ticks: int, clock: int)
    requires
        ticks >= 0,
        clock >= 31_250,
        clock % 31_250 == 0,
    ensures
        nanos_of(ticks, clock) * clock <= ticks * 1_000_000_000,
        ticks * 1_000_000_000 < (nanos_of(ticks, clock) + 1) * clock,
{
    let k = clock / 31_250;
    let y = ticks * 32_000;
    let q = nanos_of(ticks, clock);
    vstd::arithmetic::div_mod::lemma_fundamental_div_mod(clock, 31_250);
    assert(clock == 31_250 * k);
    assert(k >= 1);
    vstd::arithmetic::div_mod::lemma_fundamental_div_mod(y, k);
    vstd::arithmetic::div_mod::lemma_mod_pos_bound(y, k);
    assert(q == y / k);
    assert(q * k <= y && y < (q + 1) * k) by (nonlinear_arith)
        requires
            y == k * q + y % k,
            0 <= y % k < k,
    ;
    assert(q * clock <= ticks * 1_000_000_000 && ticks * 1_000_000_000 < (q + 1) * clock)
        by (nonlinear_arith)
        requires
            q * k <= y,
            y < (q + 1) * k,
            y == ticks * 32_000,
            clock == 31_250 * k,
    ;
}

} // verus!
