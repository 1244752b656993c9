use core::time::Duration;
use vstd::prelude::*;

verus! {

/// The length of a span of time, in nanoseconds: what `Duration::as_nanos`
/// of std returns for it.
pub uninterp spec fn nanoseconds(d: Duration) -> nat;

/// `Duration::from_millis` of std, taken on trust: the span of time that
/// lasts the given number of milliseconds.
pub assume_specification[ Duration::from_millis ](millis: u64) -> (r: Duration)
    ensures
        nanoseconds(r) == millis * 1_000_000,
;

/// `Duration::from_micros` of std, taken on trust: the span of time that
/// lasts the given number of microseconds.
pub assume_specification[ Duration::from_micros ](micros: u64) -> (r: Duration)
    ensures
        nanoseconds(r) == micros * 1_000,
;

/// Turns a number into a span of time, for timers that count in
/// [`Duration`].
pub trait IntoDuration {
    /// As many milliseconds.
    fn ms(self) -> Duration;

    /// As many microseconds.
    fn us(self) -> Duration;
}

impl IntoDuration for u64 {
    fn ms(self) -> (r: Duration)
        ensures
            nanoseconds(r) == self * 1_000_000,
    {
        Duration::from_millis(self)
    }

    fn us(self) -> (r: Duration)
        ensures
            nanoseconds(r) == self * 1_000,
    {
        Duration::from_micros(self)
    }
}

} // verus!
