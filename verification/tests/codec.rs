use pn532::frame::{
    check_ack, copy_octets, parse_response, sum_octets, to_checksum, write_frame, ACK,
    FRAME_OVERHEAD, HOST_TO_PN532, MAX_PAYLOAD, PN532_TO_HOST, POSTAMBLE, PREAMBLE,
};
use pn532::protocol::fill_zero;
use pn532::Error;

type Parsed<'a> = Result<&'a [u8], Error<()>>;

const FIRMWARE_RESPONSE: [u8; 13] = [
    0x00, 0x00, 0xFF, 0x06, 0xFA, 0xD5, 0x03, 0x32, 0x01, 0x06, 0x07, 0xE8, 0x00,
];

/// The frame that the device would build for its answer to `command`.
fn response_frame(command: u8, payload: &[u8]) -> Vec<u8> {
    let mut buf = vec![0xAA; payload.len() + FRAME_OVERHEAD];
    write_frame(&mut buf, command, payload);
    let answer = command.wrapping_add(1);
    buf[5] = PN532_TO_HOST;
    buf[6] = answer;
    let sum = payload
        .iter()
        .fold(PN532_TO_HOST.wrapping_add(answer), |s, &b| s.wrapping_add(b));
    buf[7 + payload.len()] = to_checksum(sum);
    buf
}

#[test]
fn constants_of_the_frame() {
    assert_eq!(PREAMBLE, [0x00, 0x00, 0xFF]);
    assert_eq!(POSTAMBLE, 0x00);
    assert_eq!(ACK, [0x00, 0x00, 0xFF, 0x00, 0xFF, 0x00]);
    assert_eq!(HOST_TO_PN532, 0xD4);
    assert_eq!(PN532_TO_HOST, 0xD5);
    assert_eq!(FRAME_OVERHEAD, 9);
    assert_eq!(MAX_PAYLOAD, 253);
}

#[test]
fn checksum_is_the_twos_complement() {
    assert_eq!(to_checksum(0x00), 0x00);
    assert_eq!(to_checksum(0x01), 0xFF);
    assert_eq!(to_checksum(0x02), 0xFE);
    assert_eq!(to_checksum(0xD6), 0x2A);
    assert_eq!(to_checksum(0x80), 0x80);
    assert_eq!(to_checksum(0xFF), 0x01);
    for sum in 0..=255u8 {
        assert_eq!(sum.wrapping_add(to_checksum(sum)), 0);
        assert_eq!(to_checksum(sum), (!sum).wrapping_add(1));
    }
}

#[test]
fn sum_of_octets_wraps() {
    assert_eq!(sum_octets(&[]), 0);
    assert_eq!(sum_octets(&[0x01, 0x02, 0x03]), 0x06);
    assert_eq!(sum_octets(&[0xFF, 0x01]), 0x00);
    assert_eq!(sum_octets(&[0xD5, 0x03, 0x32, 0x01, 0x06, 0x07, 0xE8]), 0x00);
    assert_eq!(sum_octets(&[0x80; 3]), 0x80);
}

#[test]
fn frames_of_known_requests() {
    let mut buf = [0xAAu8; 16];
    write_frame(&mut buf, 0x02, &[]);
    assert_eq!(buf[..9], [0x00, 0x00, 0xFF, 0x02, 0xFE, 0xD4, 0x02, 0x2A, 0x00]);
    assert_eq!(buf[9..], [0xAA; 7]);

    let mut buf = [0xAAu8; 12];
    write_frame(&mut buf, 0x14, &[0x01, 0x00, 0x01]);
    assert_eq!(buf, [0x00, 0x00, 0xFF, 0x05, 0xFB, 0xD4, 0x14, 0x01, 0x00, 0x01, 0x16, 0x00]);

    let mut buf = [0xAAu8; 11];
    write_frame(&mut buf, 0x4A, &[0x01, 0x00]);
    assert_eq!(buf, [0x00, 0x00, 0xFF, 0x04, 0xFC, 0xD4, 0x4A, 0x01, 0x00, 0xE1, 0x00]);
}

#[test]
fn frame_of_the_longest_payload() {
    let payload = [0x5Au8; MAX_PAYLOAD];
    let mut buf = [0u8; MAX_PAYLOAD + FRAME_OVERHEAD];
    write_frame(&mut buf, 0x40, &payload);
    assert_eq!(buf[3], 0xFF);
    assert_eq!(buf[4], 0x01);
    assert_eq!(buf[7..7 + MAX_PAYLOAD], payload);
    assert_eq!(buf[8 + MAX_PAYLOAD], 0x00);
    assert_eq!(sum_octets(&buf[5..8 + MAX_PAYLOAD]), 0);
}

#[test]
fn checksums_of_every_frame_cancel() {
    for len in [0usize, 1, 2, 7, 100, 253] {
        for command in [0x00u8, 0x02, 0x4A, 0x94, 0xFE] {
            let payload: Vec<u8> = (0..len).map(|i| (i * 7 + 3) as u8).collect();
            let mut buf = vec![0u8; len + FRAME_OVERHEAD];
            write_frame(&mut buf, command, &payload);
            assert_eq!(buf[3].wrapping_add(buf[4]), 0);
            assert_eq!(sum_octets(&buf[5..8 + len]), 0);
            assert_eq!(buf[3] as usize, len + 2);
        }
    }
}

#[test]
fn firmware_response_parses_to_its_payload() {
    let parsed: Parsed = parse_response(&FIRMWARE_RESPONSE, 0x03);
    assert_eq!(parsed, Ok(&[0x32u8, 0x01, 0x06, 0x07][..]));
}

#[test]
fn round_trip_gives_the_payload_back() {
    for len in [0usize, 1, 2, 17, 253] {
        for command in [0x00u8, 0x02, 0x14, 0x4A, 0x94] {
            let payload: Vec<u8> = (0..len).map(|i| (i * 13 + 1) as u8).collect();
            let buf = response_frame(command, &payload);
            let parsed: Parsed = parse_response(&buf, command + 1);
            assert_eq!(parsed, Ok(&payload[..]));
            let mut longer = buf.clone();
            longer.extend_from_slice(&[0x00, 0x17, 0xFF]);
            let parsed: Parsed = parse_response(&longer, command + 1);
            assert_eq!(parsed, Ok(&payload[..]));
        }
    }
}

#[test]
fn request_frame_with_direction_and_command_patched_fails_the_data_checksum() {
    let mut buf = [0u8; 11];
    write_frame(&mut buf, 0x4A, &[0x01, 0x00]);
    buf[5] = PN532_TO_HOST;
    buf[6] = 0x4B;
    let parsed: Parsed = parse_response(&buf, 0x4B);
    assert_eq!(parsed, Err(Error::CrcError));
}

#[test]
fn every_flipped_bit_is_noticed() {
    let valid = FIRMWARE_RESPONSE;
    for position in 0..valid.len() {
        for bit in 0..8 {
            let mut buf = valid;
            buf[position] ^= 1 << bit;
            let parsed: Parsed = parse_response(&buf, 0x03);
            let expected = match position {
                0..=2 => Error::BadResponseFrame,
                3 | 4 => Error::CrcError,
                5 | 6 => Error::BadResponseFrame,
                12 => Error::BadResponseFrame,
                _ => Error::CrcError,
            };
            assert_eq!(parsed, Err(expected), "position {position}, bit {bit}");
        }
    }
}

#[test]
fn every_changed_octet_of_data_fails_the_checksum() {
    let valid = FIRMWARE_RESPONSE;
    for position in 7..12 {
        for value in 0..=255u8 {
            if value == valid[position] {
                continue;
            }
            let mut buf = valid;
            buf[position] = value;
            let parsed: Parsed = parse_response(&buf, 0x03);
            assert_eq!(parsed, Err(Error::CrcError));
        }
    }
}

#[test]
fn truncated_response_is_too_short() {
    for len in 5..FIRMWARE_RESPONSE.len() {
        let parsed: Parsed = parse_response(&FIRMWARE_RESPONSE[..len], 0x03);
        assert_eq!(parsed, Err(Error::BufTooSmall), "length {len}");
    }
}

#[test]
fn faults_come_in_the_order_of_the_checks() {
    // the preamble is looked at first
    let parsed: Parsed = parse_response(&[0x01, 0x00, 0xFF, 0x06, 0x00], 0x03);
    assert_eq!(parsed, Err(Error::BadResponseFrame));
    // then the length checksum
    let parsed: Parsed = parse_response(&[0x00, 0x00, 0xFF, 0x00, 0x01], 0x03);
    assert_eq!(parsed, Err(Error::CrcError));
    // a length of zero: the acknowledgement frame is no response
    let parsed: Parsed = parse_response(&[0x00, 0x00, 0xFF, 0x00, 0x00, 0x00], 0x03);
    assert_eq!(parsed, Err(Error::BadResponseFrame));
    let parsed: Parsed = parse_response(&ACK, 0x03);
    assert_eq!(parsed, Err(Error::CrcError));
    // a length of one: the error frame
    let parsed: Parsed =
        parse_response(&[0x00, 0x00, 0xFF, 0x01, 0xFF, 0x7F, 0x81, 0x00], 0x03);
    assert_eq!(parsed, Err(Error::Syntax));
    let parsed: Parsed = parse_response(&[0x00, 0x00, 0xFF, 0x01, 0xFF], 0x03);
    assert_eq!(parsed, Err(Error::Syntax));
    // the postamble is looked at before direction and command
    let parsed: Parsed = parse_response(&[0x00, 0x00, 0xFF, 0x02, 0xFE, 0xD4, 0x03, 0x29], 0x03);
    assert_eq!(parsed, Err(Error::BufTooSmall));
    let parsed: Parsed =
        parse_response(&[0x00, 0x00, 0xFF, 0x02, 0xFE, 0xD4, 0x03, 0x29, 0x01], 0x03);
    assert_eq!(parsed, Err(Error::BadResponseFrame));
    // direction, then command, before the data checksum
    let parsed: Parsed =
        parse_response(&[0x00, 0x00, 0xFF, 0x02, 0xFE, 0xD4, 0x03, 0x29, 0x00], 0x03);
    assert_eq!(parsed, Err(Error::BadResponseFrame));
    let parsed: Parsed =
        parse_response(&[0x00, 0x00, 0xFF, 0x02, 0xFE, 0xD5, 0x04, 0x27, 0x00], 0x03);
    assert_eq!(parsed, Err(Error::BadResponseFrame));
    let parsed: Parsed =
        parse_response(&[0x00, 0x00, 0xFF, 0x02, 0xFE, 0xD5, 0x03, 0x29, 0x00], 0x03);
    assert_eq!(parsed, Err(Error::CrcError));
    let parsed: Parsed =
        parse_response(&[0x00, 0x00, 0xFF, 0x02, 0xFE, 0xD5, 0x03, 0x28, 0x00], 0x03);
    assert_eq!(parsed, Ok(&[][..]));
}

#[test]
fn ack_frame_is_recognised() {
    assert_eq!(check_ack::<()>(&ACK), Ok(()));
    assert_eq!(check_ack::<()>(&[0x00, 0x00, 0xFF, 0xFF, 0x00, 0x00]), Err(Error::BadAck));
    assert_eq!(check_ack::<()>(&[0x00; 6]), Err(Error::BadAck));
    for position in 0..6 {
        for bit in 0..8 {
            let mut octets = ACK;
            octets[position] ^= 1 << bit;
            assert_eq!(check_ack::<()>(&octets), Err(Error::BadAck));
        }
    }
}

#[test]
fn copy_and_fill_touch_only_their_range() {
    let mut buf = [0xAAu8; 8];
    copy_octets(&mut buf, 2, &[1, 2, 3]);
    assert_eq!(buf, [0xAA, 0xAA, 1, 2, 3, 0xAA, 0xAA, 0xAA]);
    copy_octets(&mut buf, 8, &[]);
    copy_octets(&mut buf, 5, &[7, 8, 9]);
    assert_eq!(buf, [0xAA, 0xAA, 1, 2, 3, 7, 8, 9]);
    fill_zero(&mut buf[1..4]);
    assert_eq!(buf, [0xAA, 0, 0, 0, 3, 7, 8, 9]);
    fill_zero(&mut buf);
    assert_eq!(buf, [0; 8]);
}

#[test]
fn link_error_converts_into_the_driver_error() {
    let e: Error<u8> = Error::from(7u8);
    assert_eq!(e, Error::InterfaceError(7));
    let e: Error<&str> = "broken".into();
    assert_eq!(e, Error::InterfaceError("broken"));
}
