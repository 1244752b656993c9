use core::task::Poll;
use vstd::prelude::*;

verus! {

/// The octet that a device with data to be read puts in front of it.
pub const PN532_I2C_READY: u8 = 0x01;

/// The address of the device on the bus.
pub const I2C_ADDRESS: u8 = 0x24;

/// Which part of a transfer went without acknowledgement.
#[derive(Copy, Clone, PartialEq, Eq, Debug)]
pub enum NoAcknowledgeSource {
    /// The address.
    Address,
    /// An octet of data.
    Data,
    /// The bus does not tell which.
    Unknown,
}

/// The kind of a failure of the bus.
#[derive(Copy, Clone, PartialEq, Eq, Debug)]
pub enum ErrorKind {
    /// A bus operation was not correctly performed.
    Bus,
    /// Arbitration was lost to another master.
    ArbitrationLoss,
    /// The device did not acknowledge.
    NoAcknowledge(NoAcknowledgeSource),
    /// Data was lost in the peripheral.
    Overrun,
    /// Any other failure.
    Other,
}

/// What a read of one octet says: while the device is busy it does not
/// acknowledge, which is no failure; any other failure is the link's; and
/// an octet that came is the ready octet or not.
pub open spec fn spec_poll_from_read<E>(read: Result<u8, (ErrorKind, E)>) -> Poll<Result<(), E>> {
    match read {
        Ok(octet) => if octet == PN532_I2C_READY {
            Poll::Ready(Ok(()))
        } else {
            Poll::Pending
        },
        Err((ErrorKind::NoAcknowledge(_), _)) => Poll::Pending,
        Err((_, e)) => Poll::Ready(Err(e)),
    }
}

/// Decides from a read of one octet whether the device is ready. A failed
/// read comes with its kind.
pub fn poll_from_read<E>(read: Result<u8, (ErrorKind, E)>) -> (r: Poll<Result<(), E>>)
    ensures
        r == spec_poll_from_read(read),
{
    match read {
        Ok(octet) => {
            if octet == PN532_I2C_READY {
                Poll::Ready(Ok(()))
            } else {
                Poll::Pending
            }
        },
        Err((ErrorKind::NoAcknowledge(_), _)) => Poll::Pending,
        Err((_, e)) => Poll::Ready(Err(e)),
    }
}

/// What the IRQ line says: the device is ready exactly when the line is
/// low.
pub fn poll_from_pin<E>(is_low: bool) -> (r: Poll<Result<(), E>>)
    ensures
        is_low ==> r == Poll::<Result<(), E>>::Ready(Ok(())),
        !is_low ==> r == Poll::<Result<(), E>>::Pending,
{
    if is_low {
        Poll::Ready(Ok(()))
    } else {
        Poll::Pending
    }
}

} // verus!
