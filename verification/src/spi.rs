use core::task::Poll;
use vstd::prelude::*;

verus! {

/// Asks the device for its status. The logical octet: on the wire it goes
/// through [`as_lsb`].
pub const PN532_SPI_STATREAD: u8 = 0x02;

/// Opens a write of a frame to the device.
pub const PN532_SPI_DATAWRITE: u8 = 0x01;

/// Opens a read of a frame from the device.
pub const PN532_SPI_DATAREAD: u8 = 0x03;

/// The status of a device that has data to be read.
pub const PN532_SPI_READY: u8 = 0x01;

/// For how long chip select is held low to wake the device, in nanoseconds.
pub const WAKE_UP_DELAY_NS: u32 = 2_000_000;

/// The order in which the peripheral puts the bits of an octet on the wire.
/// The device wants the least significant bit first.
#[derive(Copy, Clone, PartialEq, Eq, Debug)]
pub enum BitOrder {
    /// The peripheral sends the least significant bit first: octets go out
    /// as they are.
    LsbFirst,
    /// The peripheral sends the most significant bit first: every octet is
    /// reversed before it goes out and after it comes in.
    MsbFirst,
}

/// Whether bit `i` of `byte` is set.
pub open spec fn bit(byte: u8, i: u8) -> bool {
    (byte >> i) & 1 == 1
}

/// `byte` with its two halves exchanged.
pub open spec fn swap_halves(byte: u8) -> u8 {
    ((byte & 0xF0) >> 4) | ((byte & 0x0F) << 4)
}

/// `byte` with the two pairs of bits of each half exchanged.
pub open spec fn swap_pairs(byte: u8) -> u8 {
    ((byte & 0xCC) >> 2) | ((byte & 0x33) << 2)
}

/// `byte` with the two bits of each pair exchanged.
pub open spec fn swap_neighbours(byte: u8) -> u8 {
    ((byte & 0xAA) >> 1) | ((byte & 0x55) << 1)
}

/// The octet with the bits of `byte` in reverse order.
pub open spec fn reversed(byte: u8) -> u8 {
    swap_neighbours(swap_pairs(swap_halves(byte)))
}

/// Bit `i` of the reversed octet is bit `7 - i` of the octet.
pub proof fn lemma_reversed_bits(byte: u8, i: u8)
    requires
        i < 8,
    ensures
        bit(reversed(byte), i) == bit(byte, (7 - i) as u8),
{
    let h = swap_halves(byte);
    let p = swap_pairs(h);
    let r = swap_neighbours(p);
    let j: u8 = (7 - i) as u8;
    assert(((r >> i) & 1 == 1) == ((byte >> j) & 1 == 1)) by (bit_vector)
        requires
            i < 8,
            j == 7 - i,
            h == ((byte & 0xF0) >> 4) | ((byte & 0x0F) << 4),
            p == ((h & 0xCC) >> 2) | ((h & 0x33) << 2),
            r == ((p & 0xAA) >> 1) | ((p & 0x55) << 1),
    ;
}

/// Reversing twice gives the octet back.
pub proof fn lemma_reversed_twice(byte: u8)
    ensures
        reversed(reversed(byte)) == byte,
{
    let h = swap_halves(byte);
    let p = swap_pairs(h);
    let r = swap_neighbours(p);
    let back_h = swap_halves(r);
    let back_p = swap_pairs(back_h);
    let back_r = swap_neighbours(back_p);
    assert(back_r == byte) by (bit_vector)
        requires
            h == ((byte & 0xF0) >> 4) | ((byte & 0x0F) << 4),
            p == ((h & 0xCC) >> 2) | ((h & 0x33) << 2),
            r == ((p & 0xAA) >> 1) | ((p & 0x55) << 1),
            back_h == ((r & 0xF0) >> 4) | ((r & 0x0F) << 4),
            back_p == ((back_h & 0xCC) >> 2) | ((back_h & 0x33) << 2),
            back_r == ((back_p & 0xAA) >> 1) | ((back_p & 0x55) << 1),
    ;
}

/// Reverses the order of the bits of an octet.
pub fn reverse_bits(byte: u8) -> (r: u8)
    ensures
        r == reversed(byte),
{
    let b: u8 = ((byte & 0xF0) >> 4) | ((byte & 0x0F) << 4);
    let b: u8 = ((b & 0xCC) >> 2) | ((b & 0x33) << 2);
    ((b & 0xAA) >> 1) | ((b & 0x55) << 1)
}

/// An octet as the peripheral has to be given it, so that the device sees
/// its least significant bit first; and, the other way, an octet of the
/// device as the peripheral hands it over.
pub open spec fn spec_as_lsb(byte: u8, order: BitOrder) -> u8 {
    match order {
        BitOrder::LsbFirst => byte,
        BitOrder::MsbFirst => reversed(byte),
    }
}

/// An octet as the peripheral has to be given it, so that the device sees
/// its least significant bit first.
pub fn as_lsb(byte: u8, order: BitOrder) -> (r: u8)
    ensures
        r == spec_as_lsb(byte, order),
{
    match order {
        BitOrder::LsbFirst => byte,
        BitOrder::MsbFirst => reverse_bits(byte),
    }
}

/// What goes out and comes back is what was sent: converting twice gives
/// the octet back, in either order of bits.
pub proof fn lemma_as_lsb_twice(byte: u8, order: BitOrder)
    ensures
        spec_as_lsb(spec_as_lsb(byte, order), order) == byte,
{
    lemma_reversed_twice(byte);
}

/// Converts every octet of `buf` between its logical value and its value
/// on the wire, in place.
pub fn convert_octets(buf: &mut [u8], order: BitOrder)
    ensures
        final(buf)@.len() == old(buf)@.len(),
        forall|k: int|
            0 <= k < old(buf)@.len() ==> #[trigger] final(buf)@[k] == spec_as_lsb(
                old(buf)@[k],
                order,
            ),
{
    let len: usize = buf.len();
    let mut i: usize = 0;
    while i < len
        invariant
            len == buf@.len(),
            buf@.len() == old(buf)@.len(),
            i <= len,
            forall|k: int| 0 <= k < i ==> #[trigger] buf@[k] == spec_as_lsb(old(buf)@[k], order),
            forall|k: int| i <= k < len ==> #[trigger] buf@[k] == old(buf)@[k],
        decreases len - i,
    {
        let octet: u8 = buf[i];
        buf[i] = as_lsb(octet, order);
        i += 1;
    }
}

/// The two octets of a status read: the request, and a place for the
/// device's answer.
pub fn status_request(order: BitOrder) -> (r: [u8; 2])
    ensures
        r@ == seq![spec_as_lsb(PN532_SPI_STATREAD, order), 0x00u8],
{
    let r: [u8; 2] = [as_lsb(PN532_SPI_STATREAD, order), 0x00];
    assert(r@ =~= seq![spec_as_lsb(PN532_SPI_STATREAD, order), 0x00u8]);
    r
}

/// What a status read says: the link's failure, or ready exactly when the
/// second octet that came back is the ready status.
pub open spec fn spec_poll_from_status<E>(transfer: Result<[u8; 2], E>, order: BitOrder) -> Poll<
    Result<(), E>,
> {
    match transfer {
        Err(e) => Poll::Ready(Err(e)),
        Ok(octets) => if octets@[1] == spec_as_lsb(PN532_SPI_READY, order) {
            Poll::Ready(Ok(()))
        } else {
            Poll::Pending
        },
    }
}

/// Decides from a status read whether the device is ready.
pub fn poll_from_status<E>(transfer: Result<[u8; 2], E>, order: BitOrder) -> (r: Poll<
    Result<(), E>,
>)
    ensures
        r == spec_poll_from_status(transfer, order),
{
    match transfer {
        Err(e) => Poll::Ready(Err(e)),
        Ok(octets) => {
            if octets[1] == as_lsb(PN532_SPI_READY, order) {
                Poll::Ready(Ok(()))
            } else {
                Poll::Pending
            }
        },
    }
}

/// What the IRQ line says: the device is ready when the line is low. A
/// line that cannot be read counts as ready, so that the read that follows
/// shows what is wrong.
pub open spec fn spec_poll_from_irq<P, E>(is_low: Result<bool, P>) -> Poll<Result<(), E>> {
    match is_low {
        Ok(false) => Poll::Pending,
        _ => Poll::Ready(Ok(())),
    }
}

/// Decides from the IRQ line whether the device is ready.
pub fn poll_from_irq<P, E>(is_low: Result<bool, P>) -> (r: Poll<Result<(), E>>)
    ensures
        r == spec_poll_from_irq::<P, E>(is_low),
{
    match is_low {
        Ok(false) => Poll::Pending,
        _ => Poll::Ready(Ok(())),
    }
}

} // verus!
