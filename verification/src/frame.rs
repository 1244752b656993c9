use crate::protocol::Error;
use vstd::prelude::*;
use vstd::slice::slice_subrange;

verus! {

/// The three octets that open every frame.
pub const PREAMBLE: [u8; 3] = [0x00, 0x00, 0xFF];

/// The octet that closes every frame.
pub const POSTAMBLE: u8 = 0x00;

/// The frame by which the device confirms that it received a command.
pub const ACK: [u8; 6] = [0x00, 0x00, 0xFF, 0x00, 0xFF, 0x00];

/// Direction octet of a frame from the host to the device.
pub const HOST_TO_PN532: u8 = 0xD4;

/// Direction octet of a frame from the device to the host.
pub const PN532_TO_HOST: u8 = 0xD5;

/// Octets that a frame adds round its payload.
pub const FRAME_OVERHEAD: usize = 9;

/// The longest payload whose length octet still fits.
pub const MAX_PAYLOAD: usize = 253;

/// The sum of the octets of `s`, modulo 256.
pub open spec fn octet_sum(s: Seq<u8>) -> int
    decreases s.len(),
{
    if s.len() == 0 {
        0
    } else {
        (octet_sum(s.drop_last()) + s.last() as int) % 256
    }
}

/// The octet that brings `sum` to zero modulo 256: its two's complement.
pub open spec fn checksum(sum: int) -> u8 {
    ((256 - sum % 256) % 256) as u8
}

/// Two's complement of an octet.
pub fn to_checksum(sum: u8) -> (r: u8)
    ensures
        r == checksum(sum as int),
        (sum + r) % 256 == 0,
{
    let r: u8 = (!sum).wrapping_add(1);
    assert(r == (((256 - (sum as int) % 256) % 256) as u8)) by {
        assert(!sum == (255 - sum) as u8) by (bit_vector);
    }
    r
}

/// A frame on the wire: preamble, length, length checksum, direction,
/// command, payload, data checksum, postamble.
pub open spec fn frame(direction: u8, command: u8, payload: Seq<u8>) -> Seq<u8>
    recommends
        payload.len() <= MAX_PAYLOAD,
{
    seq![
        0x00u8,
        0x00u8,
        0xFFu8,
        (payload.len() + 2) as u8,
        checksum(payload.len() as int + 2),
        direction,
        command,
    ] + payload + seq![checksum(direction + command + octet_sum(payload)), 0x00u8]
}

/// The frame that carries a command from the host to the device.
pub open spec fn request_frame(command: u8, payload: Seq<u8>) -> Seq<u8> {
    frame(HOST_TO_PN532, command, payload)
}

/// Sum of the octets of a slice, modulo 256.
pub fn sum_octets(data: &[u8]) -> (r: u8)
    ensures
        r == octet_sum(data@),
{
    let mut sum: u8 = 0;
    let mut i: usize = 0;
    while i < data.len()
        invariant
            i <= data@.len(),
            sum == octet_sum(data@.subrange(0, i as int)),
        decreases data@.len() - i,
    {
        proof {
            let next = data@.subrange(0, i + 1);
            assert(next.drop_last() == data@.subrange(0, i as int));
        }
        sum = sum.wrapping_add(data[i]);
        i += 1;
    }
    assert(data@.subrange(0, i as int) == data@);
    sum
}

/// The octets of a frame, place by place.
pub proof fn lemma_frame_layout(direction: u8, command: u8, payload: Seq<u8>)
    requires
        payload.len() <= MAX_PAYLOAD,
    ensures
        frame(direction, command, payload).len() == payload.len() + FRAME_OVERHEAD,
        frame(direction, command, payload)[0] == 0x00,
        frame(direction, command, payload)[1] == 0x00,
        frame(direction, command, payload)[2] == 0xFF,
        frame(direction, command, payload)[3] == payload.len() + 2,
        frame(direction, command, payload)[4] == checksum(payload.len() as int + 2),
        frame(direction, command, payload)[5] == direction,
        frame(direction, command, payload)[6] == command,
        forall|k: int|
            7 <= k < 7 + payload.len() ==> #[trigger] frame(direction, command, payload)[k]
                == payload[k - 7],
        frame(direction, command, payload)[7 + payload.len() as int] == checksum(
            direction + command + octet_sum(payload),
        ),
        frame(direction, command, payload)[8 + payload.len() as int] == 0x00,
{
    let head = seq![
        0x00u8,
        0x00u8,
        0xFFu8,
        (payload.len() + 2) as u8,
        checksum(payload.len() as int + 2),
        direction,
        command,
    ];
    let tail = seq![checksum(direction + command + octet_sum(payload)), 0x00u8];
    let f = frame(direction, command, payload);
    assert(f == head + payload + tail);
    assert(head.len() == 7);
    assert(tail.len() == 2);
    assert forall|k: int| 7 <= k < 7 + payload.len() implies #[trigger] f[k] == payload[k - 7] by {
        assert((head + payload)[k] == payload[k - 7]);
    }
    assert(f[7 + payload.len() as int] == tail[0]);
    assert(f[8 + payload.len() as int] == tail[1]);
}

/// A buffer whose front holds, place by place, the octets of a request
/// frame, holds that frame.
pub proof fn lemma_request_frame_from_octets(buf: Seq<u8>, command: u8, data: Seq<u8>)
    requires
        data.len() <= MAX_PAYLOAD,
        buf.len() >= data.len() + FRAME_OVERHEAD,
        buf[0] == 0x00,
        buf[1] == 0x00,
        buf[2] == 0xFF,
        buf[3] == data.len() + 2,
        buf[4] == checksum(data.len() as int + 2),
        buf[5] == HOST_TO_PN532,
        buf[6] == command,
        forall|k: int| 7 <= k < 7 + data.len() ==> #[trigger] buf[k] == data[k - 7],
        buf[7 + data.len() as int] == checksum(HOST_TO_PN532 + command + octet_sum(data)),
        buf[8 + data.len() as int] == 0x00,
    ensures
        buf.subrange(0, data.len() + FRAME_OVERHEAD) == request_frame(command, data),
{
    lemma_frame_layout(HOST_TO_PN532, command, data);
    let built = buf.subrange(0, data.len() + FRAME_OVERHEAD);
    let wanted = request_frame(command, data);
    assert(built.len() == wanted.len());
    assert forall|k: int| 0 <= k < built.len() implies built[k] == wanted[k] by {
        assert(built[k] == buf[k]);
    }
    assert(built =~= wanted);
}

/// Copies `data` into `buf` from place `at` on.
pub fn copy_octets(buf: &mut [u8], at: usize, data: &[u8])
    requires
        at + data@.len() <= old(buf)@.len(),
    ensures
        final(buf)@.len() == old(buf)@.len(),
        forall|k: int|
            at <= k < at + data@.len() ==> #[trigger] final(buf)@[k] == data@[k - at],
        forall|k: int|
            0 <= k < old(buf)@.len() && !(at <= k < at + data@.len()) ==> #[trigger] final(buf)@[k]
                == old(buf)@[k],
{
    let room: usize = buf.len();
    let mut i: usize = 0;
    while i < data.len()
        invariant
            i <= data@.len(),
            room == buf@.len(),
            at + data@.len() <= buf@.len(),
            buf@.len() == old(buf)@.len(),
            forall|k: int| at <= k < at + i ==> #[trigger] buf@[k] == data@[k - at],
            forall|k: int|
                0 <= k < buf@.len() && !(at <= k < at + i) ==> #[trigger] buf@[k] == old(buf)@[k],
        decreases data@.len() - i,
    {
        buf[at + i] = data[i];
        i += 1;
    }
}

/// The checksum of a sum that was kept in one octet is the checksum of the
/// sum itself.
pub proof fn lemma_checksum_of_wrapped(direction: u8, command: u8, rest: int)
    requires
        0 <= rest < 256,
    ensures
        checksum(((direction + command) % 256 + rest) % 256) == checksum(
            direction + command + rest,
        ),
{
    lemma_mod_absorb(direction + command, rest);
    let reduced = (direction + command + rest) % 256;
    assert(reduced % 256 == reduced);
}

/// Writes the seven octets that open a request frame.
fn write_header(buf: &mut [u8], frame_len: u8, command: u8)
    requires
        old(buf)@.len() >= 7,
    ensures
        final(buf)@.len() == old(buf)@.len(),
        final(buf)@[0] == 0x00,
        final(buf)@[1] == 0x00,
        final(buf)@[2] == 0xFF,
        final(buf)@[3] == frame_len,
        final(buf)@[4] == checksum(frame_len as int),
        final(buf)@[5] == HOST_TO_PN532,
        final(buf)@[6] == command,
        forall|k: int| 7 <= k < old(buf)@.len() ==> #[trigger] final(buf)@[k] == old(buf)@[k],
{
    buf[0] = 0x00;
    buf[1] = 0x00;
    buf[2] = 0xFF;
    buf[3] = frame_len;
    buf[4] = to_checksum(frame_len);
    buf[5] = HOST_TO_PN532;
    buf[6] = command;
}

/// Writes the two octets that close a frame after `data_len` octets of payload.
fn write_trailer(buf: &mut [u8], data_len: usize, data_sum: u8)
    requires
        data_len <= MAX_PAYLOAD,
        old(buf)@.len() >= data_len + FRAME_OVERHEAD,
    ensures
        final(buf)@.len() == old(buf)@.len(),
        final(buf)@[7 + data_len] == checksum(data_sum as int),
        final(buf)@[8 + data_len] == 0x00,
        forall|k: int|
            0 <= k < old(buf)@.len() && k != 7 + data_len && k != 8 + data_len
                ==> #[trigger] final(buf)@[k] == old(buf)@[k],
{
    buf[7 + data_len] = to_checksum(data_sum);
    buf[8 + data_len] = POSTAMBLE;
}

/// Writes the frame of a command into the front of `buf`.
pub fn write_frame(buf: &mut [u8], command: u8, data: &[u8])
    requires
        data@.len() <= MAX_PAYLOAD,
        old(buf)@.len() >= data@.len() + FRAME_OVERHEAD,
    ensures
        final(buf)@.len() == old(buf)@.len(),
        final(buf)@.subrange(0, data@.len() + FRAME_OVERHEAD) == request_frame(command, data@),
        forall|k: int|
            data@.len() + FRAME_OVERHEAD <= k < old(buf)@.len() ==> #[trigger] final(buf)@[k]
                == old(buf)@[k],
{
    let data_len: usize = data.len();
    let frame_len: u8 = (data_len + 2) as u8;
    let data_sum: u8 = HOST_TO_PN532.wrapping_add(command).wrapping_add(sum_octets(data));
    proof {
        lemma_octet_sum_bounds(data@);
        lemma_checksum_of_wrapped(HOST_TO_PN532, command, octet_sum(data@));
    }
    write_header(buf, frame_len, command);
    copy_octets(buf, 7, data);
    write_trailer(buf, data_len, data_sum);
    proof {
        lemma_request_frame_from_octets(buf@, command, data@);
    }
}

/// What a response buffer holds: the payload of a well-formed answer to the
/// command that was sent, or the first fault that the checks meet, in the
/// order preamble, length checksum, length, postamble, direction and
/// command, data checksum.
pub open spec fn response_payload<E>(buf: Seq<u8>, expected_command: u8) -> Result<
    Seq<u8>,
    Error<E>,
>
    recommends
        buf.len() >= 5,
{
    let len = buf[3] as int;
    if buf[0] != 0x00 || buf[1] != 0x00 || buf[2] != 0xFF {
        Err(Error::BadResponseFrame)
    } else if (len + buf[4]) % 256 != 0 {
        Err(Error::CrcError)
    } else if len == 0 {
        Err(Error::BadResponseFrame)
    } else if len == 1 {
        Err(Error::Syntax)
    } else if buf.len() <= 6 + len {
        Err(Error::BufTooSmall)
    } else if buf[6 + len] != 0x00 {
        Err(Error::BadResponseFrame)
    } else if buf[5] != PN532_TO_HOST || buf[6] != expected_command {
        Err(Error::BadResponseFrame)
    } else if octet_sum(buf.subrange(5, 6 + len)) != 0 {
        Err(Error::CrcError)
    } else {
        Ok(buf.subrange(7, 5 + len))
    }
}

/// Checks a response frame and hands out its payload.
pub fn parse_response<E>(response_buf: &[u8], expected_response_command: u8) -> (r: Result<
    &[u8],
    Error<E>,
>)
    requires
        response_buf@.len() >= 5,
    ensures
        match r {
            Ok(payload) => response_payload::<E>(response_buf@, expected_response_command) == Ok::<
                Seq<u8>,
                Error<E>,
            >(payload@),
            Err(e) => response_payload::<E>(response_buf@, expected_response_command) == Err::<
                Seq<u8>,
                Error<E>,
            >(e),
        },
{
    if response_buf[0] != PREAMBLE[0] || response_buf[1] != PREAMBLE[1] || response_buf[2]
        != PREAMBLE[2] {
        return Err(Error::BadResponseFrame);
    }
    let frame_len: u8 = response_buf[3];
    if frame_len.wrapping_add(response_buf[4]) != 0 {
        return Err(Error::CrcError);
    }
    if frame_len == 0 {
        return Err(Error::BadResponseFrame);
    }
    if frame_len == 1 {
        return Err(Error::Syntax);
    }
    let end: usize = 5 + frame_len as usize + 1;
    if end >= response_buf.len() {
        return Err(Error::BufTooSmall);
    }
    if response_buf[end] != POSTAMBLE {
        return Err(Error::BadResponseFrame);
    }
    if response_buf[5] != PN532_TO_HOST || response_buf[6] != expected_response_command {
        return Err(Error::BadResponseFrame);
    }
    let checksum: u8 = sum_octets(slice_subrange(response_buf, 5, end));
    if checksum != 0 {
        return Err(Error::CrcError);
    }
    Ok(slice_subrange(response_buf, 7, 5 + frame_len as usize))
}

/// The octets of the acknowledgement frame.
pub open spec fn ack_frame() -> Seq<u8> {
    seq![0x00u8, 0x00u8, 0xFFu8, 0x00u8, 0xFFu8, 0x00u8]
}

/// Whether six octets are the acknowledgement frame.
pub open spec fn is_ack(octets: Seq<u8>) -> bool {
    octets == ack_frame()
}

/// Compares what was read with the acknowledgement frame.
pub fn check_ack<E>(ack_buf: &[u8; 6]) -> (r: Result<(), Error<E>>)
    ensures
        is_ack(ack_buf@) ==> r == Ok::<(), Error<E>>(()),
        !is_ack(ack_buf@) ==> r == Err::<(), Error<E>>(Error::BadAck),
{
    let mut i: usize = 0;
    while i < 6
        invariant
            i <= 6,
            forall|j: int| 0 <= j < i ==> ack_buf@[j] == ACK@[j],
        decreases 6 - i,
    {
        if ack_buf[i] != ACK[i] {
            return Err(Error::BadAck);
        }
        i += 1;
    }
    assert(ack_buf@ =~= ack_frame());
    Ok(())
}

/// Reducing one term of a sum modulo 256 does not change the sum modulo
/// 256.
pub proof fn lemma_mod_absorb(a: int, b: int)
    ensures
        ((a % 256) + b) % 256 == (a + b) % 256,
{
    vstd::arithmetic::div_mod::lemma_add_mod_noop(a, b, 256);
    vstd::arithmetic::div_mod::lemma_add_mod_noop(a % 256, b, 256);
    vstd::arithmetic::div_mod::lemma_mod_twice(a, 256);
}

/// A sum of octets modulo 256 is an octet.
pub proof fn lemma_octet_sum_bounds(s: Seq<u8>)
    ensures
        0 <= octet_sum(s) < 256,
    decreases s.len(),
{
    if s.len() > 0 {
        lemma_octet_sum_bounds(s.drop_last());
    }
}

/// The sum of two runs of octets put end to end is the sum of their sums.
pub proof fn lemma_octet_sum_concat(a: Seq<u8>, b: Seq<u8>)
    ensures
        octet_sum(a + b) == (octet_sum(a) + octet_sum(b)) % 256,
    decreases b.len(),
{
    lemma_octet_sum_bounds(a);
    if b.len() == 0 {
        assert(a + b =~= a);
    } else {
        let front = b.drop_last();
        let last = b.last() as int;
        lemma_octet_sum_concat(a, front);
        assert((a + b).drop_last() =~= a + front);
        assert((a + b).last() == b.last());
        assert(octet_sum(a + b) == (octet_sum(a + front) + last) % 256);
        lemma_mod_absorb(octet_sum(a) + octet_sum(front), last);
        assert(octet_sum(b) == (octet_sum(front) + last) % 256);
        lemma_mod_absorb(octet_sum(front) + last, octet_sum(a));
    }
}

/// The sum of a single octet is that octet.
pub proof fn lemma_octet_sum_single(x: u8)
    ensures
        octet_sum(seq![x]) == x,
{
    assert(seq![x].drop_last() =~= Seq::<u8>::empty());
    assert(octet_sum(Seq::<u8>::empty()) == 0);
    assert(seq![x].last() == x);
}

/// Changing one octet moves the sum by the difference of the two values.
pub proof fn lemma_octet_sum_update(s: Seq<u8>, k: int, v: u8)
    requires
        0 <= k < s.len(),
    ensures
        octet_sum(s.update(k, v)) == (octet_sum(s) - s[k] + v) % 256,
    decreases s.len(),
{
    let t = s.update(k, v);
    let front = octet_sum(s.drop_last());
    let last = s.last() as int;
    let x = s[k] as int;
    assert(octet_sum(s) == (front + last) % 256);
    assert(octet_sum(t) == (octet_sum(t.drop_last()) + t.last()) % 256);
    lemma_mod_absorb(front + last, v - x);
    if k == s.len() - 1 {
        assert(t.drop_last() =~= s.drop_last());
        assert(t.last() == v);
        assert(last == x);
        assert(front + last + (v - x) == front + v);
    } else {
        lemma_octet_sum_update(s.drop_last(), k, v);
        assert(t.drop_last() =~= s.drop_last().update(k, v));
        assert(t.last() == s.last());
        assert(s.drop_last()[k] == s[k]);
        lemma_mod_absorb(front - x + v, last);
        assert(front - x + v + last == front + last + (v - x));
    }
}

/// In every frame the length and its checksum add up to zero modulo 256.
pub proof fn lemma_length_checksum(direction: u8, command: u8, payload: Seq<u8>)
    requires
        payload.len() <= MAX_PAYLOAD,
    ensures
        (frame(direction, command, payload)[3] + frame(direction, command, payload)[4]) % 256
            == 0,
{
    lemma_frame_layout(direction, command, payload);
}

/// A sum and its checksum add up to zero modulo 256.
pub proof fn lemma_checksum_cancels(sum: int)
    ensures
        (sum % 256 + checksum(sum)) % 256 == 0,
{
    let r = sum % 256;
    assert(0 <= r < 256);
    assert(checksum(sum) == if r == 0 {
        0int
    } else {
        256 - r
    });
}

/// The direction, the command, the payload and the data checksum of a
/// frame add up to zero modulo 256.
pub proof fn lemma_covered_sum(direction: u8, command: u8, payload: Seq<u8>)
    ensures
        octet_sum(
            seq![direction] + seq![command] + payload + seq![
                checksum(direction + command + octet_sum(payload)),
            ],
        ) == 0,
{
    let total = direction + command + octet_sum(payload);
    let dcs = checksum(total);
    let start = seq![direction] + seq![command];
    lemma_octet_sum_single(direction);
    lemma_octet_sum_single(command);
    lemma_octet_sum_single(dcs);
    lemma_octet_sum_concat(seq![direction], seq![command]);
    lemma_octet_sum_concat(start, payload);
    lemma_octet_sum_concat(start + payload, seq![dcs]);
    let s1 = octet_sum(start);
    let s2 = octet_sum(start + payload);
    assert(s1 == (direction + command) % 256);
    assert(s2 == (s1 + octet_sum(payload)) % 256);
    lemma_mod_absorb(direction + command, octet_sum(payload));
    assert(s2 == total % 256);
    assert(octet_sum(start + payload + seq![dcs]) == (s2 + dcs) % 256);
    lemma_checksum_cancels(total);
}

/// In every frame the direction, the command, the payload and the data
/// checksum add up to zero modulo 256.
pub proof fn lemma_data_checksum(direction: u8, command: u8, payload: Seq<u8>)
    requires
        payload.len() <= MAX_PAYLOAD,
    ensures
        octet_sum(frame(direction, command, payload).subrange(5, 8 + payload.len() as int)) == 0,
{
    lemma_frame_layout(direction, command, payload);
    let f = frame(direction, command, payload);
    let dcs = checksum(direction + command + octet_sum(payload));
    let covered = f.subrange(5, 8 + payload.len() as int);
    let parts = seq![direction] + seq![command] + payload + seq![dcs];
    assert(covered.len() == parts.len());
    assert forall|k: int| 0 <= k < covered.len() implies covered[k] == parts[k] by {
        assert(covered[k] == f[k + 5]);
    }
    assert(covered =~= parts);
    lemma_covered_sum(direction, command, payload);
}

/// A buffer that starts with the frame that the device builds for its answer
/// to `command` parses to that frame's payload, whatever follows the frame.
pub proof fn lemma_parse_frame<E>(buf: Seq<u8>, command: u8, payload: Seq<u8>)
    requires
        payload.len() <= MAX_PAYLOAD,
        buf.len() >= payload.len() + FRAME_OVERHEAD,
        buf.subrange(0, payload.len() + FRAME_OVERHEAD) == frame(PN532_TO_HOST, command, payload),
    ensures
        response_payload::<E>(buf, command) == Ok::<Seq<u8>, Error<E>>(payload),
{
    let f = frame(PN532_TO_HOST, command, payload);
    let d = payload.len() as int;
    lemma_frame_layout(PN532_TO_HOST, command, payload);
    lemma_data_checksum(PN532_TO_HOST, command, payload);
    assert forall|k: int| 0 <= k < d + 9 implies #[trigger] buf[k] == f[k] by {
        assert(buf.subrange(0, d + 9)[k] == buf[k]);
    }
    assert(buf[3] == d + 2);
    assert(buf.subrange(5, 6 + (d + 2)) =~= f.subrange(5, 8 + d));
    assert(buf.subrange(7, 5 + (d + 2)) =~= payload) by {
        assert forall|k: int| 0 <= k < d implies buf.subrange(7, 7 + d)[k] == payload[k] by {
            assert(buf[k + 7] == f[k + 7]);
        }
    }
}

/// Building the answer to a command and parsing it gives the payload back:
/// the frame with the direction of the device and the command's code plus
/// one parses to its payload.
pub proof fn lemma_round_trip<E>(command: u8, payload: Seq<u8>)
    requires
        payload.len() <= MAX_PAYLOAD,
        command < 0xFF,
    ensures
        response_payload::<E>(
            frame(PN532_TO_HOST, (command + 1) as u8, payload),
            (command + 1) as u8,
        ) == Ok::<Seq<u8>, Error<E>>(payload),
{
    let f = frame(PN532_TO_HOST, (command + 1) as u8, payload);
    lemma_frame_layout(PN532_TO_HOST, (command + 1) as u8, payload);
    assert(f.subrange(0, payload.len() + FRAME_OVERHEAD) =~= f);
    lemma_parse_frame::<E>(f, (command + 1) as u8, payload);
}

/// Whether a buffer holds a well-formed answer to `command`.
pub open spec fn is_valid_response<E>(buf: Seq<u8>, command: u8) -> bool {
    buf.len() >= 5 && response_payload::<E>(buf, command) is Ok
}

/// A well-formed response with one octet of its preamble changed is a bad
/// frame.
pub proof fn lemma_changed_preamble<E>(buf: Seq<u8>, command: u8, k: int, v: u8)
    requires
        is_valid_response::<E>(buf, command),
        0 <= k < 3,
        v != buf[k],
    ensures
        response_payload::<E>(buf.update(k, v), command) == Err::<Seq<u8>, Error<E>>(
            Error::BadResponseFrame,
        ),
{
}

/// A well-formed response with its length or its length checksum changed
/// fails the length checksum.
pub proof fn lemma_changed_length<E>(buf: Seq<u8>, command: u8, k: int, v: u8)
    requires
        is_valid_response::<E>(buf, command),
        k == 3 || k == 4,
        v != buf[k],
    ensures
        response_payload::<E>(buf.update(k, v), command) == Err::<Seq<u8>, Error<E>>(
            Error::CrcError,
        ),
{
}

/// A well-formed response with its direction or its command changed is a
/// bad frame.
pub proof fn lemma_changed_direction_or_command<E>(buf: Seq<u8>, command: u8, k: int, v: u8)
    requires
        is_valid_response::<E>(buf, command),
        k == 5 || k == 6,
        v != buf[k],
    ensures
        response_payload::<E>(buf.update(k, v), command) == Err::<Seq<u8>, Error<E>>(
            Error::BadResponseFrame,
        ),
{
}

/// A well-formed response with its postamble changed is a bad frame.
pub proof fn lemma_changed_postamble<E>(buf: Seq<u8>, command: u8, v: u8)
    requires
        is_valid_response::<E>(buf, command),
        v != 0x00,
    ensures
        response_payload::<E>(buf.update(6 + buf[3], v), command) == Err::<Seq<u8>, Error<E>>(
            Error::BadResponseFrame,
        ),
{
}

/// A well-formed response with one octet of its payload, or its data
/// checksum, changed fails the data checksum.
pub proof fn lemma_changed_data<E>(buf: Seq<u8>, command: u8, k: int, v: u8)
    requires
        is_valid_response::<E>(buf, command),
        7 <= k <= 5 + buf[3],
        v != buf[k],
    ensures
        response_payload::<E>(buf.update(k, v), command) == Err::<Seq<u8>, Error<E>>(
            Error::CrcError,
        ),
{
    let len = buf[3] as int;
    let covered = buf.subrange(5, 6 + len);
    let changed = buf.update(k, v);
    assert(changed.subrange(5, 6 + len) =~= covered.update(k - 5, v));
    lemma_octet_sum_update(covered, k - 5, v);
    assert(covered[k - 5] == buf[k]);
}

/// A well-formed response cut off before its postamble is too short.
pub proof fn lemma_truncated<E>(buf: Seq<u8>, command: u8, n: int)
    requires
        is_valid_response::<E>(buf, command),
        5 <= n <= 6 + buf[3],
    ensures
        response_payload::<E>(buf.subrange(0, n), command) == Err::<Seq<u8>, Error<E>>(
            Error::BufTooSmall,
        ),
{
    let cut = buf.subrange(0, n);
    assert(cut[0] == buf[0] && cut[1] == buf[1] && cut[2] == buf[2] && cut[3] == buf[3] && cut[4]
        == buf[4]);
}

/// No change of a single octet of a well-formed response, from its first
/// octet to its postamble, goes unnoticed: the changed buffer is a bad
/// frame or fails a checksum.
pub proof fn lemma_single_change_rejected<E>(buf: Seq<u8>, command: u8, k: int, v: u8)
    requires
        is_valid_response::<E>(buf, command),
        0 <= k <= 6 + buf[3],
        v != buf[k],
    ensures
        response_payload::<E>(buf.update(k, v), command) == Err::<Seq<u8>, Error<E>>(
            Error::BadResponseFrame,
        ) || response_payload::<E>(buf.update(k, v), command) == Err::<Seq<u8>, Error<E>>(
            Error::CrcError,
        ),
{
    if k < 3 {
        lemma_changed_preamble::<E>(buf, command, k, v);
    } else if k < 5 {
        lemma_changed_length::<E>(buf, command, k, v);
    } else if k < 7 {
        lemma_changed_direction_or_command::<E>(buf, command, k, v);
    } else if k == 6 + buf[3] {
        lemma_changed_postamble::<E>(buf, command, v);
    } else {
        lemma_changed_data::<E>(buf, command, k, v);
    }
}

/// A payload that was parsed lies inside the buffer, with the nine octets
/// of its frame round it, and is no longer than a length octet can say.
pub proof fn lemma_payload_fits<E>(buf: Seq<u8>, command: u8, payload: Seq<u8>)
    requires
        buf.len() >= 5,
        response_payload::<E>(buf, command) == Ok::<Seq<u8>, Error<E>>(payload),
    ensures
        payload.len() + FRAME_OVERHEAD <= buf.len(),
        payload.len() <= MAX_PAYLOAD,
        payload.len() + 2 == buf[3],
        payload == buf.subrange(7, 7 + payload.len() as int),
{
}

/// The frame by which the device reports a syntax error, with a length of
/// one and its checksum, is found to be that, whatever follows the length.
pub proof fn lemma_error_frame<E>(buf: Seq<u8>, command: u8)
    requires
        buf.len() >= 5,
        buf[0] == 0x00,
        buf[1] == 0x00,
        buf[2] == 0xFF,
        buf[3] == 0x01,
        buf[4] == 0xFF,
    ensures
        response_payload::<E>(buf, command) == Err::<Seq<u8>, Error<E>>(Error::Syntax),
{
}

/// The parser finds a payload or one of four faults: never a fault of the
/// acknowledgement, of the timer or of the link.
pub proof fn lemma_parser_faults<E>(buf: Seq<u8>, command: u8)
    ensures
        match response_payload::<E>(buf, command) {
            Ok(_) => true,
            Err(e) => e is BadResponseFrame || e is Syntax || e is CrcError || e is BufTooSmall,
        },
{
}

/// A request frame does not turn into a response by a change of its
/// direction and its command alone: the data checksum, which covers both,
/// no longer fits. The response to a command is a frame of its own, with
/// its own checksum.
pub proof fn lemma_patched_request_is_no_response<E>(command: u8, payload: Seq<u8>)
    requires
        payload.len() <= MAX_PAYLOAD,
        command < 0xFF,
    ensures
        response_payload::<E>(
            request_frame(command, payload).update(5, PN532_TO_HOST).update(
                6,
                (command + 1) as u8,
            ),
            (command + 1) as u8,
        ) == Err::<Seq<u8>, Error<E>>(Error::CrcError),
{
    let sent = request_frame(command, payload);
    let d = payload.len() as int;
    let answer = (command + 1) as u8;
    let turned = sent.update(5, PN532_TO_HOST);
    let patched = turned.update(6, answer);
    lemma_frame_layout(HOST_TO_PN532, command, payload);
    lemma_data_checksum(HOST_TO_PN532, command, payload);
    let covered = sent.subrange(5, 8 + d);
    assert(turned.subrange(5, 8 + d) =~= covered.update(0, PN532_TO_HOST));
    assert(patched.subrange(5, 8 + d) =~= covered.update(0, PN532_TO_HOST).update(1, answer));
    lemma_octet_sum_update(covered, 0, PN532_TO_HOST);
    lemma_octet_sum_update(covered.update(0, PN532_TO_HOST), 1, answer);
    assert(covered[0] == HOST_TO_PN532);
    assert(covered.update(0, PN532_TO_HOST)[1] == command);
    assert(octet_sum(covered.update(0, PN532_TO_HOST)) == 1);
    assert(octet_sum(patched.subrange(5, 8 + d)) == 2);
    assert(patched[3] == d + 2);
    assert(patched.subrange(5, 6 + (d + 2)) =~= patched.subrange(5, 8 + d));
}

} // verus!
