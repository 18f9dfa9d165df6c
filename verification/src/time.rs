//! Points in time and spans of time, counted in ticks of the clock of `embassy_time`.
use vstd::prelude::*;

verus! {

/// The number of ticks in `secs` seconds, as `embassy_time::Duration::from_secs` counts them.
/// How many ticks make a second is fixed when `embassy_time` is built, by its features.
pub uninterp spec fn ticks_of_secs(secs: u64) -> u64;

/// Reads the clock, with `embassy_time::Instant::now` and `Instant::as_ticks`.
///
/// Nothing is claimed of the result: it is the time that the clock shows.
#[verifier::external_body]
fn clock_ticks() -> (ticks: u64) {
    embassy_time::Instant::now().as_ticks()
}

/// Counts the ticks in `secs` seconds, with `embassy_time::Duration::from_secs` and
/// `Duration::as_ticks`.
///
/// It is trusted that this is `secs` times the ticks of one second, and that a second has at
/// least one tick, as it has at every rate that the clock can be built for. The outside function
/// multiplies without a check, and with the fastest clock that `embassy_time` can be built for
/// the product fits for every number of seconds that is admitted here.
#[verifier::external_body]
fn secs_to_ticks(secs: u64) -> (ticks: u64)
    requires
        secs <= 1_000_000_000,
    ensures
        ticks == ticks_of_secs(secs),
        ticks == secs * ticks_of_secs(1),
        ticks >= secs,
{
    embassy_time::Duration::from_secs(secs).as_ticks()
}

/// Adds a span to a point in time, with `embassy_time::Instant::checked_add`.
///
/// It is trusted that the result is the sum of the ticks, and `None` where the sum does not fit.
#[verifier::external_body]
fn checked_add_ticks(instant: u64, duration: u64) -> (sum: Option<u64>)
    ensures
        instant + duration <= u64::MAX ==> sum == Some((instant + duration) as u64),
        instant + duration > u64::MAX ==> sum is None,
{
    embassy_time::Instant::from_ticks(instant).checked_add(
        embassy_time::Duration::from_ticks(duration),
    ).map(|sum| sum.as_ticks())
}

/// Counts the ticks between two points in time, with
/// `embassy_time::Instant::checked_duration_since`.
///
/// It is trusted that the result is the difference of the ticks, and `None` where `earlier` lies
/// after `instant`.
#[verifier::external_body]
fn checked_ticks_since(instant: u64, earlier: u64) -> (span: Option<u64>)
    ensures
        earlier <= instant ==> span == Some((instant - earlier) as u64),
        earlier > instant ==> span is None,
{
    embassy_time::Instant::from_ticks(instant).checked_duration_since(
        embassy_time::Instant::from_ticks(earlier),
    ).map(|span| span.as_ticks())
}

/// A span of time.
#[derive(Debug, Clone, Copy, PartialEq, Eq, PartialOrd, Ord, Hash)]
pub struct Duration {
    /// The number of clock ticks in the span.
    pub ticks: u64,
}

impl Duration {
    /// The span of `secs` seconds.
    pub open spec fn of_secs(secs: u64) -> Duration {
        Duration { ticks: ticks_of_secs(secs) }
    }

    /// Create a duration from a number of clock ticks.
    pub fn from_ticks(ticks: u64) -> (duration: Duration)
        ensures
            duration == (Duration { ticks }),
    {
        Duration { ticks }
    }

    /// Create a duration from a number of seconds.
    pub fn from_secs(secs: u64) -> (duration: Duration)
        requires
            secs <= 1_000_000_000,
        ensures
            duration == Duration::of_secs(secs),
            duration.ticks == secs * Duration::of_secs(1).ticks,
            duration.ticks >= secs,
    {
        Duration { ticks: secs_to_ticks(secs) }
    }
}

/// A point in time.
#[derive(Debug, Clone, Copy, PartialEq, Eq, PartialOrd, Ord, Hash)]
pub struct Instant {
    /// The number of clock ticks since the clock was started.
    pub ticks: u64,
}

impl Instant {
    /// The instant that lies `duration` later, or the last one there is if that lies earlier.
    pub open spec fn plus(self, duration: Duration) -> Instant {
        Instant {
            ticks: if self.ticks + duration.ticks <= u64::MAX {
                (self.ticks + duration.ticks) as u64
            } else {
                u64::MAX
            },
        }
    }

    /// Whether at least `duration` lies between `earlier` and this instant.
    pub open spec fn elapsed(self, earlier: Instant, duration: Duration) -> bool {
        earlier.ticks + duration.ticks <= self.ticks
    }

    /// Whether the clock has shown this instant when it was read. This is known of no instant but
    /// of one that a reading of the clock gave.
    pub closed spec fn shown_by_clock(self) -> bool {
        call_ensures(clock_ticks, (), self.ticks)
    }

    /// Create an instant from a number of clock ticks.
    pub fn from_ticks(ticks: u64) -> (instant: Instant)
        ensures
            instant == (Instant { ticks }),
    {
        Instant { ticks }
    }

    /// Return the current time.
    ///
    /// It is whatever the clock shows. The contract does not say what that is, only that it is
    /// what a reading of the clock gave.
    pub fn now() -> (now: Instant)
        ensures
            now.shown_by_clock(),
    {
        Instant { ticks: clock_ticks() }
    }

    /// Return the instant that lies `duration` after this one. An instant that cannot be
    /// represented is replaced by the last one that can.
    pub fn after(self, duration: Duration) -> (later: Instant)
        ensures
            later == self.plus(duration),
    {
        match checked_add_ticks(self.ticks, duration.ticks) {
            Some(ticks) => Instant { ticks },
            None => Instant { ticks: u64::MAX },
        }
    }

    /// Return the time between `earlier` and this instant, or `None` if `earlier` lies after
    /// this instant.
    pub fn checked_duration_since(self, earlier: Instant) -> (span: Option<Duration>)
        ensures
            earlier.ticks <= self.ticks ==> span == Some(
                Duration { ticks: (self.ticks - earlier.ticks) as u64 },
            ),
            earlier.ticks > self.ticks ==> span is None,
    {
        match checked_ticks_since(self.ticks, earlier.ticks) {
            Some(ticks) => Some(Duration { ticks }),
            None => None,
        }
    }

    /// Return whether at least `duration` lies between `earlier` and this instant.
    pub fn has_elapsed(self, earlier: Instant, duration: Duration) -> (b: bool)
        ensures
            b == self.elapsed(earlier, duration),
    {
        match self.checked_duration_since(earlier) {
            Some(span) => span.ticks >= duration.ticks,
            None => false,
        }
    }
}

/// An instant is shown by the clock exactly if reading the clock can give its ticks.
proof fn law_shown_is_read(instant: Instant)
    ensures
        instant.shown_by_clock() <==> call_ensures(clock_ticks, (), instant.ticks),
{
}

/// What has elapsed stays elapsed as time goes on.
pub proof fn law_elapsed_is_monotone(
    now: Instant,
    later: Instant,
    earlier: Instant,
    duration: Duration,
)
    requires
        now.ticks <= later.ticks,
        now.elapsed(earlier, duration),
    ensures
        later.elapsed(earlier, duration),
{
}

/// The instant that lies `duration` after `start` is exactly that far away, as long as there is
/// such an instant; otherwise it is the last one. From then on, and not a tick earlier, the
/// duration has elapsed.
pub proof fn law_later_is_when_it_has_elapsed(start: Instant, duration: Duration, now: Instant)
    ensures
        start.ticks + duration.ticks <= u64::MAX ==> start.plus(duration).ticks - start.ticks
            == duration.ticks,
        start.ticks + duration.ticks > u64::MAX ==> start.plus(duration).ticks == u64::MAX,
        now.elapsed(start, duration) <==> now.ticks - start.ticks >= duration.ticks,
        start.ticks + duration.ticks <= u64::MAX ==> (now.elapsed(start, duration) <==> now.ticks
            >= start.plus(duration).ticks),
{
}

/// A span of seconds has as many ticks as the clock counts in them.
pub proof fn law_seconds_are_counted_in_ticks(secs: u64)
    ensures
        Duration::of_secs(secs).ticks == ticks_of_secs(secs),
{
}

} // verus!
