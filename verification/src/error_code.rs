use vstd::prelude::*;
use vstd::std_specs::convert::TryFromSpecImpl;

verus! {

/// The failure that a status octet of the device reports.
#[derive(Copy, Clone, Eq, PartialEq, Debug)]
pub enum ErrorCode {
    /// Time out: the target has not answered.
    Timeout,
    /// A CRC error was detected by the CIU.
    CrcError,
    /// A parity error was detected by the CIU.
    ParityError,
    /// An erroneous bit count was detected during an anti-collision or select operation.
    WrongBitCountDuringAntiCollision,
    /// Framing error during a Mifare operation.
    FramingError,
    /// An abnormal bit collision was detected during bit-wise anti-collision at 106 kbps.
    AbnormalBitCollision,
    /// The communication buffer is too small.
    InsufficientCommunicationBuffer,
    /// RF buffer overflow detected by the CIU.
    RfBufferOverflow,
    /// In active communication mode, the counterpart did not switch its RF field on in time.
    RfFieldHasNotBeenSwitchedOn,
    /// RF protocol error.
    RfProtocolError,
    /// The temperature sensor detected overheating and switched the antenna drivers off.
    Overheating,
    /// Internal buffer overflow.
    InternalBufferOverflow,
    /// Invalid parameter.
    InvalidParameter,
    /// DEP protocol: the device in target mode does not support the command of the initiator.
    CommandNotSupported,
    /// The data format does not match the specification.
    WrongDataFormat,
    /// Mifare: authentication error.
    AuthenticationError,
    /// ISO/IEC14443-3: the UID check byte is wrong.
    WrongUidCheckByte,
    /// DEP protocol: the state of the device does not allow the operation.
    InvalidDeviceState,
    /// The operation is not allowed in this configuration.
    OperationNotAllowed,
    /// The command is not acceptable in the current context of the device.
    CommandNotAcceptable,
    /// The device as target has been released by its initiator.
    TargetHasBeenReleased,
    /// The card was exchanged for another one.
    CardHasBeenExchanged,
    /// The card that was activated has disappeared.
    CardHasDisappeared,
    /// The NFCID3 of initiator and target do not match.
    NfcId3InitiatorTargetMismatch,
    /// An over-current event was detected.
    OverCurrent,
    /// NAD missing in a DEP frame.
    NadMissing,
}

/// The bits of a status octet that hold the error code.
pub const ERROR_CODE_MASK: u8 = 0x3F;

impl ErrorCode {
    /// The number of the failure.
    pub open spec fn spec_code(self) -> u8 {
        match self {
            ErrorCode::Timeout => 0x01,
            ErrorCode::CrcError => 0x02,
            ErrorCode::ParityError => 0x03,
            ErrorCode::WrongBitCountDuringAntiCollision => 0x04,
            ErrorCode::FramingError => 0x05,
            ErrorCode::AbnormalBitCollision => 0x06,
            ErrorCode::InsufficientCommunicationBuffer => 0x07,
            ErrorCode::RfBufferOverflow => 0x09,
            ErrorCode::RfFieldHasNotBeenSwitchedOn => 0x0A,
            ErrorCode::RfProtocolError => 0x0B,
            ErrorCode::Overheating => 0x0D,
            ErrorCode::InternalBufferOverflow => 0x0E,
            ErrorCode::InvalidParameter => 0x10,
            ErrorCode::CommandNotSupported => 0x12,
            ErrorCode::WrongDataFormat => 0x13,
            ErrorCode::AuthenticationError => 0x14,
            ErrorCode::WrongUidCheckByte => 0x23,
            ErrorCode::InvalidDeviceState => 0x25,
            ErrorCode::OperationNotAllowed => 0x26,
            ErrorCode::CommandNotAcceptable => 0x27,
            ErrorCode::TargetHasBeenReleased => 0x29,
            ErrorCode::CardHasBeenExchanged => 0x2A,
            ErrorCode::CardHasDisappeared => 0x2B,
            ErrorCode::NfcId3InitiatorTargetMismatch => 0x2C,
            ErrorCode::OverCurrent => 0x2D,
            ErrorCode::NadMissing => 0x2E,
        }
    }

    /// The number of the failure.
    pub fn code(self) -> (r: u8)
        ensures
            r == self.spec_code(),
    {
        match self {
            ErrorCode::Timeout => 0x01,
            ErrorCode::CrcError => 0x02,
            ErrorCode::ParityError => 0x03,
            ErrorCode::WrongBitCountDuringAntiCollision => 0x04,
            ErrorCode::FramingError => 0x05,
            ErrorCode::AbnormalBitCollision => 0x06,
            ErrorCode::InsufficientCommunicationBuffer => 0x07,
            ErrorCode::RfBufferOverflow => 0x09,
            ErrorCode::RfFieldHasNotBeenSwitchedOn => 0x0A,
            ErrorCode::RfProtocolError => 0x0B,
            ErrorCode::Overheating => 0x0D,
            ErrorCode::InternalBufferOverflow => 0x0E,
            ErrorCode::InvalidParameter => 0x10,
            ErrorCode::CommandNotSupported => 0x12,
            ErrorCode::WrongDataFormat => 0x13,
            ErrorCode::AuthenticationError => 0x14,
            ErrorCode::WrongUidCheckByte => 0x23,
            ErrorCode::InvalidDeviceState => 0x25,
            ErrorCode::OperationNotAllowed => 0x26,
            ErrorCode::CommandNotAcceptable => 0x27,
            ErrorCode::TargetHasBeenReleased => 0x29,
            ErrorCode::CardHasBeenExchanged => 0x2A,
            ErrorCode::CardHasDisappeared => 0x2B,
            ErrorCode::NfcId3InitiatorTargetMismatch => 0x2C,
            ErrorCode::OverCurrent => 0x2D,
            ErrorCode::NadMissing => 0x2E,
        }
    }

    /// The failure with a given number, if the device knows one.
    pub open spec fn from_code(code: u8) -> Option<ErrorCode> {
        if code == 0x01 {
            Some(ErrorCode::Timeout)
        } else if code == 0x02 {
            Some(ErrorCode::CrcError)
        } else if code == 0x03 {
            Some(ErrorCode::ParityError)
        } else if code == 0x04 {
            Some(ErrorCode::WrongBitCountDuringAntiCollision)
        } else if code == 0x05 {
            Some(ErrorCode::FramingError)
        } else if code == 0x06 {
            Some(ErrorCode::AbnormalBitCollision)
        } else if code == 0x07 {
            Some(ErrorCode::InsufficientCommunicationBuffer)
        } else if code == 0x09 {
            Some(ErrorCode::RfBufferOverflow)
        } else if code == 0x0A {
            Some(ErrorCode::RfFieldHasNotBeenSwitchedOn)
        } else if code == 0x0B {
            Some(ErrorCode::RfProtocolError)
        } else if code == 0x0D {
            Some(ErrorCode::Overheating)
        } else if code == 0x0E {
            Some(ErrorCode::InternalBufferOverflow)
        } else if code == 0x10 {
            Some(ErrorCode::InvalidParameter)
        } else if code == 0x12 {
            Some(ErrorCode::CommandNotSupported)
        } else if code == 0x13 {
            Some(ErrorCode::WrongDataFormat)
        } else if code == 0x14 {
            Some(ErrorCode::AuthenticationError)
        } else if code == 0x23 {
            Some(ErrorCode::WrongUidCheckByte)
        } else if code == 0x25 {
            Some(ErrorCode::InvalidDeviceState)
        } else if code == 0x26 {
            Some(ErrorCode::OperationNotAllowed)
        } else if code == 0x27 {
            Some(ErrorCode::CommandNotAcceptable)
        } else if code == 0x29 {
            Some(ErrorCode::TargetHasBeenReleased)
        } else if code == 0x2A {
            Some(ErrorCode::CardHasBeenExchanged)
        } else if code == 0x2B {
            Some(ErrorCode::CardHasDisappeared)
        } else if code == 0x2C {
            Some(ErrorCode::NfcId3InitiatorTargetMismatch)
        } else if code == 0x2D {
            Some(ErrorCode::OverCurrent)
        } else if code == 0x2E {
            Some(ErrorCode::NadMissing)
        } else {
            None
        }
    }

    /// What a status octet reports: the failure numbered by its low six
    /// bits, if there is one with that number.
    pub open spec fn decode(status: u8) -> Option<ErrorCode> {
        Self::from_code(status & ERROR_CODE_MASK)
    }

    /// Every failure is found again from its number.
    pub proof fn lemma_code_round_trip(self)
        ensures
            Self::from_code(self.spec_code()) == Some(self),
            Self::decode(self.spec_code()) == Some(self),
            self.spec_code() != 0,
    {
        let c = self.spec_code();
        assert(c < 0x40);
        assert(c & 0x3F == c) by (bit_vector)
            requires
                c < 0x40,
        ;
    }

    /// The two high bits of a status octet do not change what it reports.
    pub proof fn lemma_high_bits_ignored(status: u8)
        ensures
            Self::decode(status) == Self::decode(status & ERROR_CODE_MASK),
    {
        assert((status & 0x3F) & 0x3F == status & 0x3F) by (bit_vector);
    }
}

impl TryFrom<u8> for ErrorCode {
    type Error = ();

    /// Decodes a status octet.
    fn try_from(value: u8) -> (r: Result<ErrorCode, ()>) {
        let value: u8 = value & ERROR_CODE_MASK;
        match value {
            0x01 => Ok(ErrorCode::Timeout),
            0x02 => Ok(ErrorCode::CrcError),
            0x03 => Ok(ErrorCode::ParityError),
            0x04 => Ok(ErrorCode::WrongBitCountDuringAntiCollision),
            0x05 => Ok(ErrorCode::FramingError),
            0x06 => Ok(ErrorCode::AbnormalBitCollision),
            0x07 => Ok(ErrorCode::InsufficientCommunicationBuffer),
            0x09 => Ok(ErrorCode::RfBufferOverflow),
            0x0A => Ok(ErrorCode::RfFieldHasNotBeenSwitchedOn),
            0x0B => Ok(ErrorCode::RfProtocolError),
            0x0D => Ok(ErrorCode::Overheating),
            0x0E => Ok(ErrorCode::InternalBufferOverflow),
            0x10 => Ok(ErrorCode::InvalidParameter),
            0x12 => Ok(ErrorCode::CommandNotSupported),
            0x13 => Ok(ErrorCode::WrongDataFormat),
            0x14 => Ok(ErrorCode::AuthenticationError),
            0x23 => Ok(ErrorCode::WrongUidCheckByte),
            0x25 => Ok(ErrorCode::InvalidDeviceState),
            0x26 => Ok(ErrorCode::OperationNotAllowed),
            0x27 => Ok(ErrorCode::CommandNotAcceptable),
            0x29 => Ok(ErrorCode::TargetHasBeenReleased),
            0x2A => Ok(ErrorCode::CardHasBeenExchanged),
            0x2B => Ok(ErrorCode::CardHasDisappeared),
            0x2C => Ok(ErrorCode::NfcId3InitiatorTargetMismatch),
            0x2D => Ok(ErrorCode::OverCurrent),
            0x2E => Ok(ErrorCode::NadMissing),
            _ => Err(()),
        }
    }
}

impl TryFromSpecImpl<u8> for ErrorCode {
    open spec fn obeys_try_from_spec() -> bool {
        true
    }

    open spec fn try_from_spec(value: u8) -> Result<ErrorCode, ()> {
        match ErrorCode::decode(value) {
            Some(code) => Ok(code),
            None => Err(()),
        }
    }
}

} // verus!
