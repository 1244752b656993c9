use vstd::prelude::*;

verus! {

/// Commands that the device understands.
#[derive(Copy, Clone, Eq, PartialEq, Debug)]
pub enum Command {
    /// Self-diagnosis of the device.
    Diagnose,
    /// Asks for the version of the embedded firmware.
    GetFirmwareVersion,
    /// Asks for the complete situation of the device.
    GetGeneralStatus,
    /// Reads one or several internal registers.
    ReadRegister,
    /// Overwrites one or several internal registers.
    WriteRegister,
    /// Reads the value of each GPIO port.
    ReadGPIO,
    /// Applies a value to each GPIO port.
    WriteGPIO,
    /// Selects the baud rate of the serial link.
    SetSerialBaudRate,
    /// Sets internal parameters of the device.
    SetParameters,
    /// Selects the data flow path by configuring the internal serial data switch.
    SAMConfiguration,
    /// Puts the device into power down mode.
    PowerDown,
    /// Configures the radio settings.
    RFConfiguration,
    /// Radio regulation test.
    RFRegulationTest,
    /// Activates a target for communication over DEP.
    InJumpForDEP,
    /// Activates a target for communication over PSL or DEP.
    InJumpForPSL,
    /// Detects as many targets as possible in passive mode.
    InListPassiveTarget,
    /// Launches an activation of a target in passive mode.
    InATR,
    /// Changes the defined bit rates with a target.
    InPSL,
    /// Protocol data exchange between the device as initiator and a target.
    InDataExchange,
    /// Basic data exchange between the device and a target.
    InCommunicateThru,
    /// Deselects the given targets.
    InDeselect,
    /// Releases the given targets.
    InRelease,
    /// Selects the given target.
    InSelect,
    /// Polls for targets of given types in the field.
    InAutoPoll,
    /// Configures the device as a target.
    TgInitAsTarget,
    /// Gives general bytes to the device.
    TgSetGeneralBytes,
    /// Gets the data that the device received from its initiator.
    TgGetData,
    /// Supplies the data that the device sends back to its initiator.
    TgSetData,
    /// Sends data that does not fit in one frame.
    TgSetMetaData,
    /// Gets a packet of data from an initiator.
    TgGetInitiatorCommand,
    /// Sends a response packet of data to an initiator.
    TgResponseToInitiator,
    /// Asks for the current state of the device as a target.
    TgGetTargetStatus,
}

impl Command {
    /// The octet that stands for this value on the wire.
    pub open spec fn spec_code(self) -> u8 {
        match self {
            Command::Diagnose => 0x00,
            Command::GetFirmwareVersion => 0x02,
            Command::GetGeneralStatus => 0x04,
            Command::ReadRegister => 0x06,
            Command::WriteRegister => 0x08,
            Command::ReadGPIO => 0x0C,
            Command::WriteGPIO => 0x0E,
            Command::SetSerialBaudRate => 0x10,
            Command::SetParameters => 0x12,
            Command::SAMConfiguration => 0x14,
            Command::PowerDown => 0x16,
            Command::RFConfiguration => 0x32,
            Command::RFRegulationTest => 0x58,
            Command::InJumpForDEP => 0x56,
            Command::InJumpForPSL => 0x46,
            Command::InListPassiveTarget => 0x4A,
            Command::InATR => 0x50,
            Command::InPSL => 0x4E,
            Command::InDataExchange => 0x40,
            Command::InCommunicateThru => 0x42,
            Command::InDeselect => 0x44,
            Command::InRelease => 0x52,
            Command::InSelect => 0x54,
            Command::InAutoPoll => 0x60,
            Command::TgInitAsTarget => 0x8C,
            Command::TgSetGeneralBytes => 0x92,
            Command::TgGetData => 0x86,
            Command::TgSetData => 0x8E,
            Command::TgSetMetaData => 0x94,
            Command::TgGetInitiatorCommand => 0x88,
            Command::TgResponseToInitiator => 0x90,
            Command::TgGetTargetStatus => 0x8A,
        }
    }

    /// The octet that stands for this value on the wire.
    pub fn code(self) -> (r: u8)
        ensures
            r == self.spec_code(),
    {
        match self {
            Command::Diagnose => 0x00,
            Command::GetFirmwareVersion => 0x02,
            Command::GetGeneralStatus => 0x04,
            Command::ReadRegister => 0x06,
            Command::WriteRegister => 0x08,
            Command::ReadGPIO => 0x0C,
            Command::WriteGPIO => 0x0E,
            Command::SetSerialBaudRate => 0x10,
            Command::SetParameters => 0x12,
            Command::SAMConfiguration => 0x14,
            Command::PowerDown => 0x16,
            Command::RFConfiguration => 0x32,
            Command::RFRegulationTest => 0x58,
            Command::InJumpForDEP => 0x56,
            Command::InJumpForPSL => 0x46,
            Command::InListPassiveTarget => 0x4A,
            Command::InATR => 0x50,
            Command::InPSL => 0x4E,
            Command::InDataExchange => 0x40,
            Command::InCommunicateThru => 0x42,
            Command::InDeselect => 0x44,
            Command::InRelease => 0x52,
            Command::InSelect => 0x54,
            Command::InAutoPoll => 0x60,
            Command::TgInitAsTarget => 0x8C,
            Command::TgSetGeneralBytes => 0x92,
            Command::TgGetData => 0x86,
            Command::TgSetData => 0x8E,
            Command::TgSetMetaData => 0x94,
            Command::TgGetInitiatorCommand => 0x88,
            Command::TgResponseToInitiator => 0x90,
            Command::TgGetTargetStatus => 0x8A,
        }
    }
}

/// Kind of card to look for when listing passive targets.
#[derive(Copy, Clone, Eq, PartialEq, Debug)]
pub enum CardType {
    /// 106 kbps type A (ISO/IEC14443 Type A).
    IsoTypeA,
    /// 212 kbps (FeliCa polling).
    FeliCa212kbps,
    /// 424 kbps (FeliCa polling).
    FeliCa424kbps,
    /// 106 kbps type B (ISO/IEC14443-3B).
    IsoTypeB,
    /// 106 kbps Innovision Jewel tag.
    Jewel,
}

impl CardType {
    /// The octet that stands for this value on the wire.
    pub open spec fn spec_code(self) -> u8 {
        match self {
            CardType::IsoTypeA => 0x00,
            CardType::FeliCa212kbps => 0x01,
            CardType::FeliCa424kbps => 0x02,
            CardType::IsoTypeB => 0x03,
            CardType::Jewel => 0x04,
        }
    }

    /// The octet that stands for this value on the wire.
    pub fn code(self) -> (r: u8)
        ensures
            r == self.spec_code(),
    {
        match self {
            CardType::IsoTypeA => 0x00,
            CardType::FeliCa212kbps => 0x01,
            CardType::FeliCa424kbps => 0x02,
            CardType::IsoTypeB => 0x03,
            CardType::Jewel => 0x04,
        }
    }
}

/// Bit rate of the radio regulation test.
#[derive(Copy, Clone, Eq, PartialEq, Debug)]
pub enum TxSpeed {
    /// 106 kbps.
    Tx106kbps,
    /// 212 kbps.
    Tx212kbps,
    /// 424 kbps.
    Tx424kbps,
    /// 848 kbps.
    Tx848kbps,
}

impl TxSpeed {
    /// The octet that stands for this value on the wire.
    pub open spec fn spec_code(self) -> u8 {
        match self {
            TxSpeed::Tx106kbps => 0x00,
            TxSpeed::Tx212kbps => 0x10,
            TxSpeed::Tx424kbps => 0x20,
            TxSpeed::Tx848kbps => 0x30,
        }
    }

    /// The octet that stands for this value on the wire.
    pub fn code(self) -> (r: u8)
        ensures
            r == self.spec_code(),
    {
        match self {
            TxSpeed::Tx106kbps => 0x00,
            TxSpeed::Tx212kbps => 0x10,
            TxSpeed::Tx424kbps => 0x20,
            TxSpeed::Tx848kbps => 0x30,
        }
    }
}

/// Modulation of the radio regulation test.
#[derive(Copy, Clone, Eq, PartialEq, Debug)]
pub enum TxFraming {
    /// Mifare framing.
    Mifare,
    /// FeliCa framing.
    FeliCa,
}

impl TxFraming {
    /// The octet that stands for this value on the wire.
    pub open spec fn spec_code(self) -> u8 {
        match self {
            TxFraming::Mifare => 0x00,
            TxFraming::FeliCa => 0x02,
        }
    }

    /// The octet that stands for this value on the wire.
    pub fn code(self) -> (r: u8)
        ensures
            r == self.spec_code(),
    {
        match self {
            TxFraming::Mifare => 0x00,
            TxFraming::FeliCa => 0x02,
        }
    }
}

/// Commands of NTAG cards.
#[derive(Copy, Clone, Eq, PartialEq, Debug)]
pub enum NTAGCommand {
    /// Asks for the version of the card.
    GetVersion,
    /// Reads four pages.
    Read,
    /// Reads a range of pages.
    FastRead,
    /// Writes one page.
    Write,
    /// Writes one page, in the compatibility form.
    CompWrite,
    /// Reads the counter.
    ReadCnt,
    /// Authenticates with a password.
    PwdAuth,
    /// Reads the signature.
    ReadSig,
}

impl NTAGCommand {
    /// The octet that stands for this value on the wire.
    pub open spec fn spec_code(self) -> u8 {
        match self {
            NTAGCommand::GetVersion => 0x60,
            NTAGCommand::Read => 0x30,
            NTAGCommand::FastRead => 0x3A,
            NTAGCommand::Write => 0xA2,
            NTAGCommand::CompWrite => 0xA0,
            NTAGCommand::ReadCnt => 0x39,
            NTAGCommand::PwdAuth => 0x1B,
            NTAGCommand::ReadSig => 0x3C,
        }
    }

    /// The octet that stands for this value on the wire.
    pub fn code(self) -> (r: u8)
        ensures
            r == self.spec_code(),
    {
        match self {
            NTAGCommand::GetVersion => 0x60,
            NTAGCommand::Read => 0x30,
            NTAGCommand::FastRead => 0x3A,
            NTAGCommand::Write => 0xA2,
            NTAGCommand::CompWrite => 0xA0,
            NTAGCommand::ReadCnt => 0x39,
            NTAGCommand::PwdAuth => 0x1B,
            NTAGCommand::ReadSig => 0x3C,
        }
    }
}

/// Commands of Mifare cards.
#[derive(Copy, Clone, Eq, PartialEq, Debug)]
pub enum MifareCommand {
    /// Authenticates with key A.
    AuthenticationWithKeyA,
    /// Authenticates with key B.
    AuthenticationWithKeyB,
    /// Personalizes the use of the UID.
    PersonalizeUIDUsage,
    /// Sets the modulation type.
    SetModType,
    /// Reads a block.
    Read,
    /// Writes a block.
    Write,
    /// Decrements a value block.
    Decrement,
    /// Increments a value block.
    Increment,
    /// Restores a value block.
    Restore,
    /// Transfers a value block.
    Transfer,
}

impl MifareCommand {
    /// The octet that stands for this value on the wire.
    pub open spec fn spec_code(self) -> u8 {
        match self {
            MifareCommand::AuthenticationWithKeyA => 0x60,
            MifareCommand::AuthenticationWithKeyB => 0x61,
            MifareCommand::PersonalizeUIDUsage => 0x40,
            MifareCommand::SetModType => 0x43,
            MifareCommand::Read => 0x30,
            MifareCommand::Write => 0xA0,
            MifareCommand::Decrement => 0xC0,
            MifareCommand::Increment => 0xC1,
            MifareCommand::Restore => 0xC2,
            MifareCommand::Transfer => 0xB0,
        }
    }

    /// The octet that stands for this value on the wire.
    pub fn code(self) -> (r: u8)
        ensures
            r == self.spec_code(),
    {
        match self {
            MifareCommand::AuthenticationWithKeyA => 0x60,
            MifareCommand::AuthenticationWithKeyB => 0x61,
            MifareCommand::PersonalizeUIDUsage => 0x40,
            MifareCommand::SetModType => 0x43,
            MifareCommand::Read => 0x30,
            MifareCommand::Write => 0xA0,
            MifareCommand::Decrement => 0xC0,
            MifareCommand::Increment => 0xC1,
            MifareCommand::Restore => 0xC2,
            MifareCommand::Transfer => 0xB0,
        }
    }
}

/// How the device uses its SAM companion chip.
#[derive(Copy, Clone, Eq, PartialEq, Debug)]
pub enum SAMMode {
    /// The SAM is not used.
    Normal,
    /// Device and SAM are seen as one contactless SAM card.
    VirtualCard {
        /// In multiples of 50 ms.
        timeout: u8,
    },
    /// The host reaches the SAM with standard reader commands.
    WiredCard,
    /// Device and SAM are seen as two separate targets.
    DualCard,
}

impl SAMMode {
    /// The octet that stands for the mode on the wire.
    pub open spec fn spec_code(self) -> u8 {
        match self {
            SAMMode::Normal => 1,
            SAMMode::VirtualCard { .. } => 2,
            SAMMode::WiredCard => 3,
            SAMMode::DualCard => 4,
        }
    }

    /// The timeout that goes with the mode, in units of 50 ms: zero but for
    /// the virtual card.
    pub open spec fn spec_timeout(self) -> u8 {
        match self {
            SAMMode::VirtualCard { timeout } => timeout,
            _ => 0,
        }
    }
}

/// A command with its payload.
#[derive(Clone, Eq, PartialEq, Debug)]
pub struct Request<const N: usize> {
    pub command: Command,
    pub data: [u8; N],
}

/// A command with a borrowed payload.
pub struct BorrowedRequest<'a> {
    pub command: Command,
    pub data: &'a [u8],
}

impl<const N: usize> Request<N> {
    /// The same request, with its payload borrowed.
    pub fn borrow(&self) -> (r: BorrowedRequest<'_>)
        ensures
            r.command == self.command,
            r.data@ == self.data@,
    {
        BorrowedRequest { command: self.command, data: &self.data }
    }

    /// A request made of a command and its payload.
    pub fn new(command: Command, data: [u8; N]) -> (r: Self)
        ensures
            r.command == command,
            r.data == data,
    {
        Request { command, data }
    }
}

impl Request<0> {
    /// Asks for the version of the firmware.
    pub fn get_firmware_version() -> (r: Request<0>)
        ensures
            r.command == Command::GetFirmwareVersion,
            r.data@ == Seq::<u8>::empty(),
    {
        let r = Request { command: Command::GetFirmwareVersion, data: [] };
        assert(r.data@ =~= Seq::<u8>::empty());
        r
    }

    /// Looks for one card of ISO/IEC14443 type A.
    pub fn inlist_one_iso_a_target() -> (r: Request<2>)
        ensures
            r.command == Command::InListPassiveTarget,
            r.data@ == seq![1u8, 0u8],
    {
        let r = Request { command: Command::InListPassiveTarget, data: [1, 0] };
        assert(r.data@ =~= seq![1u8, 0u8]);
        r
    }

    /// Selects the first target.
    pub fn select_tag_1() -> (r: Request<1>)
        ensures
            r.command == Command::InSelect,
            r.data@ == seq![1u8],
    {
        let r = Request { command: Command::InSelect, data: [1] };
        assert(r.data@ =~= seq![1u8]);
        r
    }

    /// Selects the second target.
    pub fn select_tag_2() -> (r: Request<1>)
        ensures
            r.command == Command::InSelect,
            r.data@ == seq![2u8],
    {
        let r = Request { command: Command::InSelect, data: [2] };
        assert(r.data@ =~= seq![2u8]);
        r
    }

    /// Deselects the first target.
    pub fn deselect_tag_1() -> (r: Request<1>)
        ensures
            r.command == Command::InDeselect,
            r.data@ == seq![1u8],
    {
        let r = Request { command: Command::InDeselect, data: [1] };
        assert(r.data@ =~= seq![1u8]);
        r
    }

    /// Deselects the second target.
    pub fn deselect_tag_2() -> (r: Request<1>)
        ensures
            r.command == Command::InDeselect,
            r.data@ == seq![2u8],
    {
        let r = Request { command: Command::InDeselect, data: [2] };
        assert(r.data@ =~= seq![2u8]);
        r
    }

    /// Releases the first target.
    pub fn release_tag_1() -> (r: Request<1>)
        ensures
            r.command == Command::InRelease,
            r.data@ == seq![1u8],
    {
        let r = Request { command: Command::InRelease, data: [1] };
        assert(r.data@ =~= seq![1u8]);
        r
    }

    /// Releases the second target.
    pub fn release_tag_2() -> (r: Request<1>)
        ensures
            r.command == Command::InRelease,
            r.data@ == seq![2u8],
    {
        let r = Request { command: Command::InRelease, data: [2] };
        assert(r.data@ =~= seq![2u8]);
        r
    }

    /// Configures the SAM: the mode, its timeout, and whether the IRQ pin is
    /// driven.
    pub fn sam_configuration(mode: SAMMode, use_irq_pin: bool) -> (r: Request<3>)
        ensures
            r.command == Command::SAMConfiguration,
            r.data@ == seq![
                mode.spec_code(),
                mode.spec_timeout(),
                if use_irq_pin {
                    1u8
                } else {
                    0u8
                },
            ],
    {
        let (mode, timeout): (u8, u8) = match mode {
            SAMMode::Normal => (1, 0),
            SAMMode::VirtualCard { timeout } => (2, timeout),
            SAMMode::WiredCard => (3, 0),
            SAMMode::DualCard => (4, 0),
        };
        let irq: u8 = if use_irq_pin { 1 } else { 0 };
        let r = Request { command: Command::SAMConfiguration, data: [mode, timeout, irq] };
        assert(r.data@ =~= seq![mode, timeout, irq]);
        r
    }

    /// Radio regulation test at a bit rate and a framing.
    pub fn rf_regulation_test(tx_speed: TxSpeed, tx_framing: TxFraming) -> (r: Request<1>)
        ensures
            r.command == Command::RFRegulationTest,
            r.data@ == seq![tx_speed.spec_code() | tx_framing.spec_code()],
    {
        let octet: u8 = tx_speed.code() | tx_framing.code();
        let r = Request { command: Command::RFRegulationTest, data: [octet] };
        assert(r.data@ =~= seq![octet]);
        r
    }

    /// Reads four pages of an NTAG card, from `page` on.
    pub fn ntag_read(page: u8) -> (r: Request<3>)
        ensures
            r.command == Command::InDataExchange,
            r.data@ == seq![0x01u8, NTAGCommand::Read.spec_code(), page],
    {
        let r = Request {
            command: Command::InDataExchange,
            data: [0x01, NTAGCommand::Read.code(), page],
        };
        assert(r.data@ =~= seq![0x01u8, 0x30u8, page]);
        r
    }

    /// Writes four octets to a page of an NTAG card.
    pub fn ntag_write(page: u8, bytes: &[u8; 4]) -> (r: Request<7>)
        ensures
            r.command == Command::InDataExchange,
            r.data@ == seq![0x01u8, NTAGCommand::Write.spec_code(), page] + bytes@,
    {
        let r = Request {
            command: Command::InDataExchange,
            data: [
                0x01,
                NTAGCommand::Write.code(),
                page,
                bytes[0],
                bytes[1],
                bytes[2],
                bytes[3],
            ],
        };
        assert(r.data@ =~= seq![0x01u8, 0xA2u8, page] + bytes@);
        r
    }

    /// Authenticates to an NTAG card with a password of four octets.
    pub fn ntag_pwd_auth(bytes: &[u8; 4]) -> (r: Request<5>)
        ensures
            r.command == Command::InCommunicateThru,
            r.data@ == seq![NTAGCommand::PwdAuth.spec_code()] + bytes@,
    {
        let r = Request {
            command: Command::InCommunicateThru,
            data: [NTAGCommand::PwdAuth.code(), bytes[0], bytes[1], bytes[2], bytes[3]],
        };
        assert(r.data@ =~= seq![0x1Bu8] + bytes@);
        r
    }
}

} // verus!
