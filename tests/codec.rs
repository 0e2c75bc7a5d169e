use libosdp::commands::{CMD_BUZ, CMD_MFG};
use libosdp::events::{REPLY_FMT, REPLY_RAW};
use libosdp::{
    ConvertEndian, OsdpCardFormats, OsdpComSet, OsdpCommand, OsdpCommandBuzzer,
    OsdpCommandFileTx, OsdpCommandKeyset, OsdpCommandLed, OsdpCommandMfg, OsdpCommandOutput,
    OsdpCommandStatus, OsdpCommandText, OsdpError, OsdpEvent, OsdpEventCardRead,
    OsdpEventIO, OsdpEventKeyPress, OsdpEventMfgReply, OsdpEventStatus, OsdpLedColor, OsdpLedParams,
    OsdpStatusReport, OsdpStatusReportType,
};

#[test]
fn test_command_mfg() {
    let cmd = OsdpCommandMfg {
        vendor_code: (0x05, 0x07, 0x09),
        command: 0x47,
        data: vec![0x55, 0xAA],
    };
    let bytes = OsdpCommand::Mfg(cmd.clone()).encode();

    assert_eq!(cmd.vendor_code.as_le(), 0x90705);
    assert_eq!(bytes[0], CMD_MFG);
    assert_eq!(&bytes[1..4], &[0x05, 0x07, 0x09]);
    assert_eq!(bytes[4], 0x47);
    assert_eq!(bytes.len() - 5, 2);
    assert_eq!(bytes[5], 0x55);
    assert_eq!(bytes[6], 0xAA);

    assert_eq!(OsdpCommand::decode(&bytes), Ok(OsdpCommand::Mfg(cmd)));
}

#[test]
fn events_test_event_cardread() {
    let event = OsdpEventCardRead::new_ascii(vec![0x55, 0xAA]);
    let bytes = OsdpEvent::CardRead(event.clone()).encode();

    assert_eq!(bytes[0], REPLY_FMT);
    assert_eq!(bytes[3], 2);
    assert_eq!(bytes[2], 0);
    assert_eq!(bytes[4], 0x55);
    assert_eq!(bytes[5], 0xAA);
    assert_eq!(OsdpEvent::decode(&bytes), Ok(OsdpEvent::CardRead(event)));

    let event = OsdpEventCardRead::new_weigand(15, vec![0x55, 0xAA]).unwrap();
    let bytes = OsdpEvent::CardRead(event.clone()).encode();

    assert_eq!(bytes[0], REPLY_RAW);
    assert_eq!(u16::from_le_bytes([bytes[3], bytes[4]]), 15);
    assert_eq!(bytes[2], 1);
    assert_eq!(bytes[5], 0x55);
    assert_eq!(bytes[6], 0xAA);
    assert_eq!(OsdpEvent::decode(&bytes), Ok(OsdpEvent::CardRead(event)));
}

fn all_commands() -> Vec<OsdpCommand> {
    let temporary = OsdpLedParams {
        control_code: 2,
        on_count: 5,
        off_count: 5,
        on_color: OsdpLedColor::Red,
        off_color: OsdpLedColor::Cyan,
        timer_count: 0x1234,
    };
    let permanent = OsdpLedParams {
        control_code: 1,
        on_count: 1,
        off_count: 0,
        on_color: OsdpLedColor::Green,
        off_color: OsdpLedColor::NoColor,
        timer_count: 0,
    };
    vec![
        OsdpCommand::Led(OsdpCommandLed { reader: 0, led_number: 1, temporary, permanent }),
        OsdpCommand::Buzzer(OsdpCommandBuzzer {
            reader: 0,
            control_code: 2,
            on_count: 1,
            off_count: 1,
            rep_count: 3,
        }),
        OsdpCommand::Text(OsdpCommandText {
            reader: 0,
            control_code: 1,
            temp_time: 5,
            offset_row: 1,
            offset_col: 1,
            data: b"Hello".to_vec(),
        }),
        OsdpCommand::Output(OsdpCommandOutput { output_no: 1, control_code: 5, timer_count: 300 }),
        OsdpCommand::ComSet(OsdpComSet::new(12, 115200)),
        OsdpCommand::KeySet(OsdpCommandKeyset::new_scbk([7; 16])),
        OsdpCommand::Mfg(OsdpCommandMfg { vendor_code: (1, 2, 3), command: 9, data: vec![] }),
        OsdpCommand::FileTx(OsdpCommandFileTx::new(-5, 0)),
        OsdpCommand::Status(OsdpCommandStatus::Local),
        OsdpCommand::Status(OsdpCommandStatus::Input),
        OsdpCommand::Status(OsdpCommandStatus::Output),
    ]
}

#[test]
fn every_command_round_trips() {
    for c in all_commands() {
        let bytes = c.encode();
        assert_eq!(OsdpCommand::decode(&bytes), Ok(c));
    }
}

#[test]
fn buzzer_wire_layout() {
    let c = OsdpCommand::Buzzer(OsdpCommandBuzzer {
        reader: 0,
        control_code: 2,
        on_count: 1,
        off_count: 1,
        rep_count: 3,
    });
    assert_eq!(c.encode(), vec![CMD_BUZ, 0, 2, 1, 1, 3]);
}

#[test]
fn led_timer_is_little_endian_and_colors_coded() {
    let c = &all_commands()[0];
    let b = c.encode();
    assert_eq!(b.len(), 15);
    assert_eq!(b[6], 1);
    assert_eq!(b[7], 6);
    assert_eq!(b[8], 0x34);
    assert_eq!(b[9], 0x12);
}

#[test]
fn file_tx_cancel_bit_is_not_sent() {
    let c = OsdpCommand::FileTx(OsdpCommandFileTx::new(3, 0x8000_0001));
    let b = c.encode();
    assert_eq!(&b[5..9], &[1, 0, 0, 0]);
}

#[test]
fn text_too_long_is_not_encodable_and_bad_length_rejected() {
    let c = OsdpCommand::Text(OsdpCommandText {
        reader: 0,
        control_code: 1,
        temp_time: 0,
        offset_row: 1,
        offset_col: 1,
        data: vec![b'a'; 33],
    });
    assert!(!c.is_encodable());
    let mut b = all_commands()[2].encode();
    b[6] = 6;
    assert_eq!(OsdpCommand::decode(&b), Err(OsdpError::Command));
    assert_eq!(OsdpCommand::decode(&[0x99]), Err(OsdpError::Command));
    assert_eq!(OsdpCommand::decode(&[]), Err(OsdpError::Command));
}

#[test]
fn every_event_round_trips() {
    let events = vec![
        OsdpEvent::CardRead(OsdpEventCardRead::new_ascii(b"1234".to_vec())),
        OsdpEvent::CardRead(OsdpEventCardRead::new_weigand(26, vec![0x12, 0x34, 0x56, 0x78]).unwrap()),
        OsdpEvent::CardRead(OsdpEventCardRead {
            reader_no: 1,
            format: OsdpCardFormats::Unspecified,
            direction: false,
            nr_bits: 0,
            data: vec![1, 2, 3],
        }),
        OsdpEvent::KeyPress(OsdpEventKeyPress::new(vec![b'1', b'#'])),
        OsdpEvent::MfgReply(OsdpEventMfgReply { vendor_code: (0xA, 0xB, 0xC), reply: 1, data: vec![5] }),
        OsdpEvent::Status(OsdpStatusReport::new_input(4, 0b1010)),
        OsdpEvent::Status(OsdpStatusReport::new_output(32, 0xFFFF_0001)),
        OsdpEvent::Status(OsdpStatusReport {
            type_: OsdpStatusReportType::Local,
            nr_entries: 2,
            mask: 0b01,
        }),
    ];
    for e in events {
        assert!(e.is_encodable());
        let bytes = e.encode();
        assert_eq!(OsdpEvent::decode(&bytes), Ok(e));
    }
}

#[test]
fn status_report_sends_one_byte_per_entry() {
    let b = OsdpEvent::Status(OsdpStatusReport::new_input(4, 0b1010)).encode();
    assert_eq!(b, vec![0x49, 0, 1, 0, 1]);
}

#[test]
fn weigand_needs_enough_data() {
    assert_eq!(
        OsdpEventCardRead::new_weigand(17, vec![0x55, 0xAA]),
        Err(OsdpError::Command)
    );
    assert!(OsdpEventCardRead::new_weigand(16, vec![0x55, 0xAA]).is_ok());
}

#[test]
fn bad_event_bytes_are_rejected() {
    assert_eq!(OsdpEvent::decode(&[0x51, 0, 2, 5, 1]), Err(OsdpError::Event));
    assert_eq!(OsdpEvent::decode(&[0x77]), Err(OsdpError::Event));
    let mask_too_wide = OsdpEvent::Status(OsdpStatusReport::new_input(2, 0b100));
    assert!(!mask_too_wide.is_encodable());
}

#[test]
fn endian_conversions() {
    assert_eq!([1u8, 2, 3, 4].as_be(), 0x01020304);
    assert_eq!([1u8, 2, 3, 4].as_le(), 0x04030201);
    assert_eq!((1u8, 2u8, 3u8).as_be(), 0x01020300);
    assert_eq!((1u8, 2u8, 3u8).as_le(), 0x030201);
}

#[test]
fn io_and_tamper_events_become_status_reports() {

    let r = OsdpEventIO::new_output(0b101).to_status_report(3);
    assert_eq!(r, OsdpStatusReport::new_output(3, 0b101));
    let r = OsdpEventIO::new_input(0b1).to_status_report(1);
    assert_eq!(r, OsdpStatusReport::new_input(1, 1));
    let r = OsdpEventStatus { tamper: 1, power: 0 }.to_status_report();
    assert_eq!(r.mask, 1);
    assert_eq!(r.type_, OsdpStatusReportType::Local);
    let bytes = OsdpEvent::Status(OsdpEventStatus { tamper: 1, power: 1 }.to_status_report()).encode();
    assert_eq!(bytes, vec![0x48, 1, 1]);
}
