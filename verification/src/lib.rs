//! Driver for the PN532 NFC controller: the frame codec, the exchange of a
//! request for its acknowledgement and response, and what each of the three
//! serial links (SPI, I2C, HSU) has to decide.
//!
//! The device is reached through the [`Interface`] trait, and time through
//! the [`CountDown`] trait; both are for the user of the driver to
//! implement. [`Pn532`] runs an exchange over them, step by step as
//! [`transaction::Transaction`] says, in a buffer of fixed size.
//!
//! Every function here is verified against its contract. The contracts
//! speak of frames as sequences of octets ([`frame::frame`],
//! [`frame::response_payload`]), of an exchange as a run of reports
//! ([`transaction::run_actions`]), and of what the driver asks of its link
//! and hears from it ([`record::ran_exchange`]).

use core::fmt::Debug;
use core::task::Poll;
use vstd::prelude::*;

pub mod doc_test_helper;
pub mod duration;
pub mod error_code;
pub mod frame;
pub mod i2c;
pub mod protocol;
pub mod record;
pub mod requests;
pub mod serialport;
pub mod spi;
pub mod transaction;

pub use crate::duration::IntoDuration;
pub use crate::error_code::ErrorCode;
pub use crate::protocol::{Error, Pn532};
pub use crate::requests::Request;

verus! {

/// `core::task::Poll`, made known to the verifier as core defines it: a
/// readiness report that is either `Pending` or `Ready` with a value.
/// Nothing is claimed of it beyond its two variants.
#[verifier::external_type_specification]
#[verifier::reject_recursive_types(T)]
pub struct ExPoll<T>(Poll<T>);

/// A serial link to the device: SPI, I2C or HSU.
///
/// What a link answers is its own affair: the driver's contracts hold
/// whatever it is. The one thing asked of an implementation is that a read
/// leaves the buffer as long as it was, which no safe code can fail to do.
pub trait Interface {
    /// The error of the link.
    type Error: Debug;

    /// Writes a frame to the device.
    fn write(&mut self, frame: &[u8]) -> Result<(), Self::Error>;

    /// Asks whether the device has data to be read.
    fn wait_ready(&mut self) -> Poll<Result<(), Self::Error>>;

    /// Reads from the device until `buf` is full.
    fn read(&mut self, buf: &mut [u8]) -> (r: Result<(), Self::Error>)
        ensures
            final(buf)@.len() == old(buf)@.len(),
    ;

    /// Wakes the device, on a link that has to. On other links there is
    /// nothing to do: unless a link says otherwise, waking up succeeds at
    /// once and leaves the link as it was.
    fn wake_up(&mut self) -> (r: Result<(), Self::Error>)
        default_ensures
            r is Ok,
            &*final(self) == &*old(self),
    {
        Ok(())
    }
}

/// A borrowed link is a link: each call is handed on to the link that is
/// borrowed, with the same arguments, and what comes back is what that
/// link gave. Whatever the link's own contract says of a call therefore
/// holds of the call through the borrow, of the result and of the state in
/// which the link is left.
impl<I: Interface> Interface for &mut I {
    type Error = I::Error;

    fn write(&mut self, frame: &[u8]) -> (r: Result<(), Self::Error>)
        ensures
            exists|link: &mut I|
                *link == **old(self) && *final(link) == **final(self) && #[trigger] call_ensures(
                    I::write,
                    (link, frame),
                    r,
                ),
    {
        I::write(self, frame)
    }

    fn wait_ready(&mut self) -> (r: Poll<Result<(), Self::Error>>)
        ensures
            exists|link: &mut I|
                *link == **old(self) && *final(link) == **final(self) && #[trigger] call_ensures(
                    I::wait_ready,
                    (link,),
                    r,
                ),
    {
        I::wait_ready(self)
    }

    fn read(&mut self, buf: &mut [u8]) -> (r: Result<(), Self::Error>)
        ensures
            exists|link: &mut I, into: &mut [u8]|
                *link == **old(self) && *final(link) == **final(self) && into@ == old(buf)@
                    && final(into)@ == final(buf)@ && #[trigger] call_ensures(
                    I::read,
                    (link, into),
                    r,
                ),
    {
        I::read(self, buf)
    }

    fn wake_up(&mut self) -> (r: Result<(), Self::Error>)
        ensures
            exists|link: &mut I|
                *link == **old(self) && *final(link) == **final(self) && #[trigger] call_ensures(
                    I::wake_up,
                    (link,),
                    r,
                ),
    {
        I::wake_up(self)
    }
}

/// A timer that counts down from a given time.
pub trait CountDown {
    /// The unit of time of the timer.
    type Time;

    /// Starts a new count down.
    fn start<T>(&mut self, count: T) where T: Into<Self::Time>;

    /// Asks, without blocking, whether the count down has finished: ready
    /// once it has, pending before.
    fn wait(&mut self) -> Poll<()>;
}

} // verus!
