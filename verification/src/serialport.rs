use core::task::Poll;
use vstd::prelude::*;

verus! {

/// The speed of the serial line, in bits per second.
pub const BAUD_RATE: u32 = 115200;

/// The octets that wake the device after a power down, and before the
/// first exchange with a device that was just powered.
pub const WAKEUP_MESSAGE: [u8; 16] = [
    0x55,
    0x55,
    0x00,
    0x00,
    0x00,
    0x00,
    0x00,
    0x00,
    0x00,
    0x00,
    0x00,
    0x00,
    0x00,
    0x00,
    0x00,
    0x00,
];

/// What the count of octets that wait to be read says: the link's failure,
/// or ready exactly when at least one octet waits.
pub open spec fn spec_poll_from_available<E>(available: Result<u32, E>) -> Poll<Result<(), E>> {
    match available {
        Err(e) => Poll::Ready(Err(e)),
        Ok(count) => if count > 0 {
            Poll::Ready(Ok(()))
        } else {
            Poll::Pending
        },
    }
}

/// Decides from the count of octets that wait to be read whether the
/// device is ready.
pub fn poll_from_available<E>(available: Result<u32, E>) -> (r: Poll<Result<(), E>>)
    ensures
        r == spec_poll_from_available(available),
{
    match available {
        Err(e) => Poll::Ready(Err(e)),
        Ok(count) => {
            if count > 0 {
                Poll::Ready(Ok(()))
            } else {
                Poll::Pending
            }
        },
    }
}

} // verus!
