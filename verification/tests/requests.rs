use pn532::requests::{
    CardType, Command, MifareCommand, NTAGCommand, SAMMode, TxFraming, TxSpeed,
};
use pn532::Request;

#[test]
fn command_codes() {
    let table = [
        (Command::Diagnose, 0x00u8),
        (Command::GetFirmwareVersion, 0x02),
        (Command::GetGeneralStatus, 0x04),
        (Command::ReadRegister, 0x06),
        (Command::WriteRegister, 0x08),
        (Command::ReadGPIO, 0x0C),
        (Command::WriteGPIO, 0x0E),
        (Command::SetSerialBaudRate, 0x10),
        (Command::SetParameters, 0x12),
        (Command::SAMConfiguration, 0x14),
        (Command::PowerDown, 0x16),
        (Command::RFConfiguration, 0x32),
        (Command::RFRegulationTest, 0x58),
        (Command::InJumpForDEP, 0x56),
        (Command::InJumpForPSL, 0x46),
        (Command::InListPassiveTarget, 0x4A),
        (Command::InATR, 0x50),
        (Command::InPSL, 0x4E),
        (Command::InDataExchange, 0x40),
        (Command::InCommunicateThru, 0x42),
        (Command::InDeselect, 0x44),
        (Command::InRelease, 0x52),
        (Command::InSelect, 0x54),
        (Command::InAutoPoll, 0x60),
        (Command::TgInitAsTarget, 0x8C),
        (Command::TgSetGeneralBytes, 0x92),
        (Command::TgGetData, 0x86),
        (Command::TgSetData, 0x8E),
        (Command::TgSetMetaData, 0x94),
        (Command::TgGetInitiatorCommand, 0x88),
        (Command::TgResponseToInitiator, 0x90),
        (Command::TgGetTargetStatus, 0x8A),
    ];
    for (command, code) in table {
        assert_eq!(command.code(), code, "{command:?}");
    }
    for (i, (_, a)) in table.iter().enumerate() {
        for (_, b) in &table[i + 1..] {
            assert_ne!(a, b);
        }
    }
}

#[test]
fn parameter_codes() {
    assert_eq!(CardType::IsoTypeA.code(), 0x00);
    assert_eq!(CardType::FeliCa212kbps.code(), 0x01);
    assert_eq!(CardType::FeliCa424kbps.code(), 0x02);
    assert_eq!(CardType::IsoTypeB.code(), 0x03);
    assert_eq!(CardType::Jewel.code(), 0x04);

    assert_eq!(TxSpeed::Tx106kbps.code(), 0b0000_0000);
    assert_eq!(TxSpeed::Tx212kbps.code(), 0b0001_0000);
    assert_eq!(TxSpeed::Tx424kbps.code(), 0b0010_0000);
    assert_eq!(TxSpeed::Tx848kbps.code(), 0b0011_0000);

    assert_eq!(TxFraming::Mifare.code(), 0b0000_0000);
    assert_eq!(TxFraming::FeliCa.code(), 0b0000_0010);

    assert_eq!(NTAGCommand::GetVersion.code(), 0x60);
    assert_eq!(NTAGCommand::Read.code(), 0x30);
    assert_eq!(NTAGCommand::FastRead.code(), 0x3A);
    assert_eq!(NTAGCommand::Write.code(), 0xA2);
    assert_eq!(NTAGCommand::CompWrite.code(), 0xA0);
    assert_eq!(NTAGCommand::ReadCnt.code(), 0x39);
    assert_eq!(NTAGCommand::PwdAuth.code(), 0x1B);
    assert_eq!(NTAGCommand::ReadSig.code(), 0x3C);

    assert_eq!(MifareCommand::AuthenticationWithKeyA.code(), 0x60);
    assert_eq!(MifareCommand::AuthenticationWithKeyB.code(), 0x61);
    assert_eq!(MifareCommand::PersonalizeUIDUsage.code(), 0x40);
    assert_eq!(MifareCommand::SetModType.code(), 0x43);
    assert_eq!(MifareCommand::Read.code(), 0x30);
    assert_eq!(MifareCommand::Write.code(), 0xA0);
    assert_eq!(MifareCommand::Decrement.code(), 0xC0);
    assert_eq!(MifareCommand::Increment.code(), 0xC1);
    assert_eq!(MifareCommand::Restore.code(), 0xC2);
    assert_eq!(MifareCommand::Transfer.code(), 0xB0);
}

#[test]
fn well_known_requests() {
    assert_eq!(Request::get_firmware_version(), Request::new(Command::GetFirmwareVersion, []));
    assert_eq!(
        Request::inlist_one_iso_a_target(),
        Request::new(Command::InListPassiveTarget, [1, CardType::IsoTypeA.code()])
    );
    assert_eq!(Request::select_tag_1(), Request::new(Command::InSelect, [1]));
    assert_eq!(Request::select_tag_2(), Request::new(Command::InSelect, [2]));
    assert_eq!(Request::deselect_tag_1(), Request::new(Command::InDeselect, [1]));
    assert_eq!(Request::deselect_tag_2(), Request::new(Command::InDeselect, [2]));
    assert_eq!(Request::release_tag_1(), Request::new(Command::InRelease, [1]));
    assert_eq!(Request::release_tag_2(), Request::new(Command::InRelease, [2]));
}

#[test]
fn new_keeps_command_and_payload() {
    let request = Request::new(Command::InDataExchange, [9, 8, 7, 6]);
    assert_eq!(request.command, Command::InDataExchange);
    assert_eq!(request.data, [9, 8, 7, 6]);
    let borrowed = request.borrow();
    assert_eq!(borrowed.command, Command::InDataExchange);
    assert_eq!(borrowed.data, &[9, 8, 7, 6]);
}

#[test]
fn sam_configuration_payloads() {
    assert_eq!(
        Request::sam_configuration(SAMMode::Normal, false),
        Request::new(Command::SAMConfiguration, [1, 0, 0])
    );
    assert_eq!(
        Request::sam_configuration(SAMMode::Normal, true),
        Request::new(Command::SAMConfiguration, [1, 0, 1])
    );
    assert_eq!(
        Request::sam_configuration(SAMMode::VirtualCard { timeout: 0x17 }, false),
        Request::new(Command::SAMConfiguration, [2, 0x17, 0])
    );
    assert_eq!(
        Request::sam_configuration(SAMMode::VirtualCard { timeout: 0xFF }, true),
        Request::new(Command::SAMConfiguration, [2, 0xFF, 1])
    );
    assert_eq!(
        Request::sam_configuration(SAMMode::WiredCard, true),
        Request::new(Command::SAMConfiguration, [3, 0, 1])
    );
    assert_eq!(
        Request::sam_configuration(SAMMode::DualCard, false),
        Request::new(Command::SAMConfiguration, [4, 0, 0])
    );
}

#[test]
fn rf_regulation_test_payloads() {
    assert_eq!(
        Request::rf_regulation_test(TxSpeed::Tx106kbps, TxFraming::Mifare),
        Request::new(Command::RFRegulationTest, [0b0000_0000])
    );
    assert_eq!(
        Request::rf_regulation_test(TxSpeed::Tx212kbps, TxFraming::FeliCa),
        Request::new(Command::RFRegulationTest, [0b0001_0010])
    );
    assert_eq!(
        Request::rf_regulation_test(TxSpeed::Tx424kbps, TxFraming::Mifare),
        Request::new(Command::RFRegulationTest, [0b0010_0000])
    );
    assert_eq!(
        Request::rf_regulation_test(TxSpeed::Tx848kbps, TxFraming::FeliCa),
        Request::new(Command::RFRegulationTest, [0b0011_0010])
    );
}

#[test]
fn ntag_payloads() {
    assert_eq!(
        Request::ntag_read(10),
        Request::new(Command::InDataExchange, [0x01, 0x30, 10])
    );
    assert_eq!(
        Request::ntag_write(4, &[0xDE, 0xAD, 0xBE, 0xEF]),
        Request::new(Command::InDataExchange, [0x01, 0xA2, 4, 0xDE, 0xAD, 0xBE, 0xEF])
    );
    assert_eq!(
        Request::ntag_pwd_auth(&[0x11, 0x22, 0x33, 0x44]),
        Request::new(Command::InCommunicateThru, [0x1B, 0x11, 0x22, 0x33, 0x44])
    );
}
