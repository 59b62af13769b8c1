//! Instants and durations as plain nanosecond counts, with the range of instants that the store
//! can write down.

use vstd::prelude::*;

verus! {

/// Nanoseconds in a second.
pub const NANOS_PER_SECOND: i128 = 1_000_000_000;

/// Nanoseconds of the earliest instant, 9999 years before the common era.
pub const MIN_NANOS: i128 = -377_705_023_201_000_000_000;

/// Nanoseconds of the latest instant, at the end of the year 9999.
pub const MAX_NANOS: i128 = 253_402_207_200_999_999_999;

/// Whether a nanosecond count names an instant.
pub open spec fn in_range(nanos: int) -> bool {
    MIN_NANOS <= nanos <= MAX_NANOS
}

/// An instant: nanoseconds since the start of 1970, UTC.
#[derive(Clone, Copy, Debug, PartialEq, Eq, PartialOrd, Ord, Hash, Structural)]
pub struct Timestamp {
    pub nanos: i128,
}

/// A span of time in nanoseconds.
#[derive(Clone, Copy, Debug, PartialEq, Eq, PartialOrd, Ord, Hash, Structural)]
pub struct Duration {
    pub nanos: u128,
}

/// Quotient rounded toward zero.
pub open spec fn truncated(value: int, unit: int) -> int
    recommends
        unit > 0,
{
    if value >= 0 {
        value / unit
    } else {
        -((-value) / unit)
    }
}

/// Divides and rounds toward zero.
fn truncate(value: i128, unit: i128) -> (quotient: i128)
    requires
        in_range(value as int),
        unit > 0,
    ensures
        quotient == truncated(value as int, unit as int),
{
    if value >= 0 {
        value / unit
    } else {
        let size: i128 = (-value) / unit;
        proof {
            assert(size <= -value) by (nonlinear_arith)
                requires
                    size == (-value) / (unit as int),
                    unit > 0,
                    -value > 0,
            ;
        }
        -size
    }
}

/// Instant reached by moving `nanos` by `by`, if there is one.
pub open spec fn moved(nanos: int, by: int) -> Option<Timestamp> {
    if in_range(nanos + by) {
        Some(Timestamp { nanos: (nanos + by) as i128 })
    } else {
        None
    }
}

impl Duration {
    /// A duration of whole seconds.
    pub fn from_secs(seconds: u64) -> (duration: Duration)
        ensures
            duration.nanos == seconds * 1_000_000_000,
    {
        Duration { nanos: seconds as u128 * 1_000_000_000 }
    }

    /// A duration of whole milliseconds.
    pub fn from_millis(millis: u64) -> (duration: Duration)
        ensures
            duration.nanos == millis * 1_000_000,
    {
        Duration { nanos: millis as u128 * 1_000_000 }
    }

    /// Whether nothing elapses.
    pub fn is_zero(&self) -> (zero: bool)
        ensures
            zero <==> self.nanos == 0,
    {
        self.nanos == 0
    }

    /// The shorter of two durations.
    pub fn min(self, other: Duration) -> (shorter: Duration)
        ensures
            shorter == if self.nanos <= other.nanos {
                self
            } else {
                other
            },
    {
        if self.nanos <= other.nanos {
            self
        } else {
            other
        }
    }
}

impl Timestamp {
    /// Whether the count is in the range of instants.
    pub open spec fn valid(self) -> bool {
        in_range(self.nanos as int)
    }

    /// The start of 1970.
    pub fn epoch() -> (epoch: Timestamp)
        ensures
            epoch.nanos == 0,
            epoch.valid(),
    {
        Timestamp { nanos: 0 }
    }

    /// The latest instant.
    pub fn latest() -> (latest: Timestamp)
        ensures
            latest.nanos == MAX_NANOS,
            latest.valid(),
    {
        Timestamp { nanos: MAX_NANOS }
    }

    /// The earliest instant.
    pub fn earliest() -> (earliest: Timestamp)
        ensures
            earliest.nanos == MIN_NANOS,
            earliest.valid(),
    {
        Timestamp { nanos: MIN_NANOS }
    }

    /// The instant of a nanosecond count.
    pub fn from_nanosecond(nanos: i128) -> (instant: Option<Timestamp>)
        ensures
            instant == if in_range(nanos as int) {
                Some(Timestamp { nanos })
            } else {
                None
            },
    {
        if MIN_NANOS <= nanos && nanos <= MAX_NANOS {
            Some(Timestamp { nanos })
        } else {
            None
        }
    }

    /// The instant of a second count.
    pub fn from_second(second: i64) -> (instant: Option<Timestamp>)
        ensures
            instant == if in_range(second * 1_000_000_000) {
                Some(Timestamp { nanos: (second * 1_000_000_000) as i128 })
            } else {
                None
            },
    {
        Timestamp::from_nanosecond(second as i128 * 1_000_000_000)
    }

    /// The instant of a millisecond count.
    pub fn from_millisecond(millis: i64) -> (instant: Option<Timestamp>)
        ensures
            instant == if in_range(millis * 1_000_000) {
                Some(Timestamp { nanos: (millis * 1_000_000) as i128 })
            } else {
                None
            },
    {
        Timestamp::from_nanosecond(millis as i128 * 1_000_000)
    }

    /// The second that the instant lies in, counted from the start of 1970.
    pub fn second_begun(&self) -> (second: i64)
        requires
            MIN_NANOS - 1 <= self.nanos <= MAX_NANOS,
        ensures
            second == self.nanos as int / 1_000_000_000,
    {
        if self.nanos >= 0 {
            (self.nanos / 1_000_000_000) as i64
        } else {
            let whole: i128 = (-self.nanos - 1) / 1_000_000_000;
            (-whole - 1) as i64
        }
    }

    /// Whole seconds since the start of 1970, rounded toward it.
    pub fn as_second(&self) -> (second: i64)
        requires
            self.valid(),
        ensures
            second == truncated(self.nanos as int, 1_000_000_000),
    {
        truncate(self.nanos, 1_000_000_000) as i64
    }

    /// Whole milliseconds since the start of 1970, rounded toward it.
    pub fn as_millisecond(&self) -> (millis: i64)
        requires
            self.valid(),
        ensures
            millis == truncated(self.nanos as int, 1_000_000),
    {
        truncate(self.nanos, 1_000_000) as i64
    }

    /// Nanoseconds beyond [`Timestamp::as_second`], with the sign of the instant.
    pub fn subsec_nanosecond(&self) -> (nanos: i32)
        requires
            self.valid(),
        ensures
            nanos == self.nanos - truncated(self.nanos as int, 1_000_000_000) * 1_000_000_000,
    {
        let second: i128 = truncate(self.nanos, 1_000_000_000);
        (self.nanos - second * 1_000_000_000) as i32
    }

    /// The instant `by` later, if it is in range.
    pub fn checked_add(&self, by: Duration) -> (later: Option<Timestamp>)
        ensures
            later == moved(self.nanos as int, by.nanos as int),
    {
        if by.nanos > i128::MAX as u128 {
            if self.nanos >= 0 {
                return None;
            }
            let behind: u128 = (-(self.nanos + 1)) as u128 + 1;
            if by.nanos < behind || by.nanos - behind > MAX_NANOS as u128 {
                return None;
            }
            return Some(Timestamp { nanos: (by.nanos - behind) as i128 });
        }
        match self.nanos.checked_add(by.nanos as i128) {
            Some(nanos) => Timestamp::from_nanosecond(nanos),
            None => None,
        }
    }

    /// The instant `by` earlier, if it is in range.
    pub fn checked_sub(&self, by: Duration) -> (earlier: Option<Timestamp>)
        ensures
            earlier == moved(self.nanos as int, -by.nanos),
    {
        if by.nanos > i128::MAX as u128 {
            if self.nanos < 0 {
                return None;
            }
            let beyond: u128 = by.nanos - self.nanos as u128;
            if beyond > (-MIN_NANOS) as u128 {
                return None;
            }
            return Some(Timestamp { nanos: -(beyond as i128) });
        }
        match self.nanos.checked_sub(by.nanos as i128) {
            Some(nanos) => Timestamp::from_nanosecond(nanos),
            None => None,
        }
    }

    /// The earlier of two instants.
    pub fn min(self, other: Timestamp) -> (earlier: Timestamp)
        ensures
            earlier == if self.nanos <= other.nanos {
                self
            } else {
                other
            },
    {
        if self.nanos <= other.nanos {
            self
        } else {
            other
        }
    }

    /// The later of two instants.
    pub fn max(self, other: Timestamp) -> (later: Timestamp)
        ensures
            later == if self.nanos >= other.nanos {
                self
            } else {
                other
            },
    {
        if self.nanos >= other.nanos {
            self
        } else {
            other
        }
    }
}

/// The seconds and leftover nanoseconds of an instant give the instant back.
pub proof fn second_and_rest(instant: Timestamp)
    requires
        instant.valid(),
    ensures
        ({
            let second = truncated(instant.nanos as int, 1_000_000_000);
            let rest = instant.nanos - second * 1_000_000_000;
            second * 1_000_000_000 + rest == instant.nanos && -1_000_000_000 < rest < 1_000_000_000
        }),
{
}

/// Lengths of time are counted in nanoseconds: a thousand million to the second, a million to the
/// millisecond.
pub proof fn lengths_are_in_nanoseconds(seconds: u64, millis: u64, a: Duration, b: Duration, zero: bool)
    requires
        call_ensures(Duration::from_secs, (seconds,), a),
        call_ensures(Duration::from_millis, (millis,), b),
        call_ensures(Duration::is_zero, (&a,), zero),
    ensures
        a.nanos == seconds * 1_000_000_000,
        b.nanos == millis * 1_000_000,
        millis == 1_000 * seconds ==> a.nanos == b.nanos,
        zero <==> seconds == 0,
{
}

/// The shorter of two lengths is one of them and no longer than either.
pub proof fn the_shorter_length_is_chosen(left: Duration, right: Duration, shorter: Duration)
    requires
        call_ensures(Duration::min, (left, right), shorter),
    ensures
        shorter == left || shorter == right,
        shorter.nanos <= left.nanos && shorter.nanos <= right.nanos,
{
}

/// Going a length of time forward and the same length back leads to where one began.
pub proof fn moments_move_there_and_back(at: Timestamp, by: Duration, later: Option<Timestamp>, back: Option<Timestamp>)
    requires
        at.valid(),
        call_ensures(Timestamp::checked_add, (&at, by), later),
        later is Some,
        call_ensures(Timestamp::checked_sub, (&later->0, by), back),
    ensures
        back == Some(at),
        later->0.nanos - at.nanos == by.nanos,
        later->0.valid(),
{
}

/// A step forward fails exactly where it leads beyond the last moment.
pub proof fn moments_end(at: Timestamp, by: Duration, later: Option<Timestamp>, earlier: Option<Timestamp>)
    requires
        at.valid(),
        call_ensures(Timestamp::checked_add, (&at, by), later),
        call_ensures(Timestamp::checked_sub, (&at, by), earlier),
    ensures
        later is None <==> at.nanos + by.nanos > MAX_NANOS,
        earlier is None <==> at.nanos - by.nanos < MIN_NANOS,
        earlier matches Some(before) ==> at.nanos - before.nanos == by.nanos,
{
}

/// The earlier and the later of two moments are the two moments, in order.
pub proof fn moments_are_put_in_order(left: Timestamp, right: Timestamp, earlier: Timestamp, later: Timestamp)
    requires
        call_ensures(Timestamp::min, (left, right), earlier),
        call_ensures(Timestamp::max, (left, right), later),
    ensures
        earlier.nanos <= later.nanos,
        earlier == left && later == right || earlier == right && later == left || left.nanos == right.nanos,
        earlier.nanos + later.nanos == left.nanos + right.nanos,
{
}

/// A moment that is made of whole seconds, or of whole milliseconds, is read back as that number.
pub proof fn whole_numbers_are_read_back(
    second: i64,
    millis: i64,
    from_second: Option<Timestamp>,
    from_millis: Option<Timestamp>,
    seconds_read: i64,
    begun: i64,
    millis_read: i64,
    rest: i32,
)
    requires
        call_ensures(Timestamp::from_second, (second,), from_second),
        from_second is Some,
        call_ensures(Timestamp::as_second, (&from_second->0,), seconds_read),
        call_ensures(Timestamp::second_begun, (&from_second->0,), begun),
        call_ensures(Timestamp::subsec_nanosecond, (&from_second->0,), rest),
        call_ensures(Timestamp::from_millisecond, (millis,), from_millis),
        from_millis is Some,
        call_ensures(Timestamp::as_millisecond, (&from_millis->0,), millis_read),
    ensures
        seconds_read == second && begun == second && rest == 0,
        millis_read == millis,
        from_second->0.nanos == second * 1_000_000_000,
        from_millis->0.nanos == millis * 1_000_000,
{
}

/// A moment is its second and the rest; the second that began is never after it.
pub proof fn moments_are_seconds_and_rest(at: Timestamp, second: i64, begun: i64, rest: i32)
    requires
        at.valid(),
        call_ensures(Timestamp::as_second, (&at,), second),
        call_ensures(Timestamp::second_begun, (&at,), begun),
        call_ensures(Timestamp::subsec_nanosecond, (&at,), rest),
    ensures
        second * 1_000_000_000 + rest == at.nanos,
        -1_000_000_000 < rest < 1_000_000_000,
        at.nanos >= 0 ==> rest >= 0,
        at.nanos <= 0 ==> rest <= 0,
        begun * 1_000_000_000 <= at.nanos < (begun + 1) * 1_000_000_000,
{
}

/// Every moment between the earliest and the latest can be made, and no other.
pub proof fn moments_have_a_range(nanos: i128, found: Option<Timestamp>, first: Timestamp, last: Timestamp, epoch: Timestamp)
    requires
        call_ensures(Timestamp::from_nanosecond, (nanos,), found),
        call_ensures(Timestamp::earliest, (), first),
        call_ensures(Timestamp::latest, (), last),
        call_ensures(Timestamp::epoch, (), epoch),
    ensures
        found is Some <==> first.nanos <= nanos <= last.nanos,
        found matches Some(at) ==> at.nanos == nanos,
        first.nanos < epoch.nanos < last.nanos && epoch.nanos == 0,
{
}

} // verus!
