use pn532::ErrorCode;

const TABLE: [(u8, ErrorCode); 26] = [
    (0x01, ErrorCode::Timeout),
    (0x02, ErrorCode::CrcError),
    (0x03, ErrorCode::ParityError),
    (0x04, ErrorCode::WrongBitCountDuringAntiCollision),
    (0x05, ErrorCode::FramingError),
    (0x06, ErrorCode::AbnormalBitCollision),
    (0x07, ErrorCode::InsufficientCommunicationBuffer),
    (0x09, ErrorCode::RfBufferOverflow),
    (0x0A, ErrorCode::RfFieldHasNotBeenSwitchedOn),
    (0x0B, ErrorCode::RfProtocolError),
    (0x0D, ErrorCode::Overheating),
    (0x0E, ErrorCode::InternalBufferOverflow),
    (0x10, ErrorCode::InvalidParameter),
    (0x12, ErrorCode::CommandNotSupported),
    (0x13, ErrorCode::WrongDataFormat),
    (0x14, ErrorCode::AuthenticationError),
    (0x23, ErrorCode::WrongUidCheckByte),
    (0x25, ErrorCode::InvalidDeviceState),
    (0x26, ErrorCode::OperationNotAllowed),
    (0x27, ErrorCode::CommandNotAcceptable),
    (0x29, ErrorCode::TargetHasBeenReleased),
    (0x2A, ErrorCode::CardHasBeenExchanged),
    (0x2B, ErrorCode::CardHasDisappeared),
    (0x2C, ErrorCode::NfcId3InitiatorTargetMismatch),
    (0x2D, ErrorCode::OverCurrent),
    (0x2E, ErrorCode::NadMissing),
];

#[test]
fn every_status_octet_decodes_by_its_low_six_bits() {
    for status in 0..=255u8 {
        let expected = TABLE
            .iter()
            .find(|(code, _)| *code == status & 0x3F)
            .map(|(_, error)| *error)
            .ok_or(());
        assert_eq!(ErrorCode::try_from(status), expected, "status {status:#04x}");
    }
}

#[test]
fn error_codes_are_found_again_from_their_numbers() {
    for (code, error) in TABLE {
        assert_eq!(error.code(), code);
        assert_eq!(ErrorCode::try_from(code), Ok(error));
        assert_eq!(ErrorCode::try_from(code | 0x40), Ok(error));
        assert_eq!(ErrorCode::try_from(code | 0x80), Ok(error));
        assert_eq!(ErrorCode::try_from(code | 0xC0), Ok(error));
    }
}

#[test]
fn unknown_status_is_the_unit_error() {
    for status in [0x00u8, 0x08, 0x0C, 0x0F, 0x11, 0x15, 0x22, 0x24, 0x28, 0x2F, 0x3F, 0x40, 0xC0] {
        assert_eq!(ErrorCode::try_from(status), Err(()));
    }
    assert_eq!(ErrorCode::try_from(0x41), Ok(ErrorCode::Timeout));
    assert_eq!(ErrorCode::try_from(0x94), Ok(ErrorCode::AuthenticationError));
}
