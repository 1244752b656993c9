use crate::CountDown;
use core::task::Poll;
use core::time::Duration;
use vstd::prelude::*;

verus! {

/// A timer that has always run out: with it every wait ends at the first
/// poll that finds the device not ready.
pub struct NoOpTimer;

impl CountDown for NoOpTimer {
    type Time = Duration;

    fn start<T>(&mut self, count: T) where T: Into<Duration> {
    }

    fn wait(&mut self) -> (r: Poll<()>)
        ensures
            r == Poll::Ready(()),
    {
        Poll::Ready(())
    }
}

/// A span of time in microseconds.
#[derive(Debug, PartialEq, PartialOrd, Clone, Copy)]
pub struct MicroSecond(pub u32);

/// Turns a number of milliseconds into microseconds.
pub trait U32Ext {
    /// As many milliseconds, in microseconds; the longest span that the
    /// type can hold where the number is too large.
    fn ms(self) -> MicroSecond;
}

impl U32Ext for u32 {
    fn ms(self) -> (r: MicroSecond)
        ensures
            r.0 == if self * 1_000 <= u32::MAX {
                self * 1_000
            } else {
                u32::MAX as int
            },
    {
        if self <= u32::MAX / 1_000 {
            MicroSecond(self * 1_000)
        } else {
            MicroSecond(u32::MAX)
        }
    }
}

} // verus!
