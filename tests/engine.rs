use libosdp::cp::{PdTimers, SC_RETRY_MS};
use libosdp::frame::{receive, OsdpPacket};
use libosdp::{
    ControlPanel, OsdpCommand, OsdpCommandBuzzer, OsdpError, OsdpEvent, OsdpEventCardRead,
    OsdpFlag, PdCapEntity, PdCapability, PdId, PdInfo, PeripheralDevice,
};

const RND_A: [u8; 8] = [0xA0, 0xA1, 0xA2, 0xA3, 0xA4, 0xA5, 0xA6, 0xA7];
const RND_B: [u8; 8] = [0xB0, 0xB1, 0xB2, 0xB3, 0xB4, 0xB5, 0xB6, 0xB7];

const KEY: [u8; 16] = [
    0x00, 0x01, 0x02, 0x03, 0x04, 0x05, 0x06, 0x07, 0x08, 0x09, 0x0a, 0x0b, 0x0c, 0x0d, 0x0e, 0x0f,
];

fn unframe(bytes: &[u8]) -> OsdpPacket {
    let (n, p) = receive(bytes);
    assert_eq!(n, bytes.len());
    p.expect("a frame")
}

fn setup(addresses: &[i32]) -> (ControlPanel, Vec<PeripheralDevice>) {
    let info = addresses
        .iter()
        .map(|a| PdInfo::for_cp(format!("PD {a}"), *a, 115200, OsdpFlag::empty(), 0, KEY))
        .collect();
    let cp = ControlPanel::new(info).unwrap();
    let pds = addresses
        .iter()
        .map(|a| {
            let caps = vec![PdCapability::AudibleOutput(PdCapEntity::new(1, 1))];
            PeripheralDevice::new(*a as u8, OsdpFlag::empty(), PdId::from_number(1), caps, KEY).unwrap()
        })
        .collect();
    (cp, pds)
}

/// One exchange between the CP and PD `i`; returns the command the PD got,
/// the event the CP got, and the reply frame.
fn exchange(
    cp: &mut ControlPanel,
    pds: &mut [PeripheralDevice],
    i: usize,
) -> (Option<OsdpCommand>, Option<OsdpEvent>, Vec<u8>) {
    let frame = cp.next_frame(i, RND_A).expect("a frame to send");
    let packet = unframe(&frame);
    let mut command = None;
    let mut reply = None;
    for pd in pds.iter_mut() {
        let out = pd.handle_packet(&packet, RND_B);
        if out.command.is_some() {
            command = out.command;
            if packet.address != 0x7F {
                reply = pd.reply_command(true, 0);
            }
        }
        if out.reply.is_some() {
            reply = out.reply;
        }
    }
    let reply = reply.expect("a reply");
    let event = cp.handle_packet(i, &unframe(&reply));
    (command, event, reply)
}

fn bring_online(cp: &mut ControlPanel, pds: &mut [PeripheralDevice], i: usize) {
    exchange(cp, pds, i);
    exchange(cp, pds, i);
    assert!(cp.is_online(i));
}

#[test]
fn plaintext_buzzer_round_trip() {
    let (mut cp, mut pds) = setup(&[101]);
    assert!(!cp.is_online(0));
    bring_online(&mut cp, &mut pds, 0);
    assert_eq!(cp.get_pd_id(0), Ok(PdId::from_number(1)));
    assert_eq!(cp.get_capability(0, 5), Ok(PdCapEntity::new(1, 1)));
    assert!(matches!(cp.get_capability(0, 4), Err(OsdpError::Query(_))));
    let buzzer = OsdpCommand::Buzzer(OsdpCommandBuzzer {
        reader: 0,
        control_code: 2,
        on_count: 1,
        off_count: 1,
        rep_count: 3,
    });
    cp.send_command(0, buzzer.clone()).unwrap();
    let (command, event, _) = exchange(&mut cp, &mut pds, 0);
    assert_eq!(command, Some(buzzer));
    assert_eq!(event, None);
    assert!(pds[0].is_online());
    assert!(!cp.is_sc_active(0));
    assert!(!pds[0].is_sc_active());
}

#[test]
fn card_read_event_reaches_the_cp() {
    let (mut cp, mut pds) = setup(&[101]);
    bring_online(&mut cp, &mut pds, 0);
    let read = OsdpEventCardRead::new_weigand(26, vec![0x12, 0x34, 0x56, 0x78]).unwrap();
    pds[0].notify_event(OsdpEvent::CardRead(read.clone())).unwrap();
    let (_, event, reply) = exchange(&mut cp, &mut pds, 0);
    assert_eq!(event, Some(OsdpEvent::CardRead(read)));
    let data = unframe(&reply).data;
    assert_eq!(data[0], 0x50);
    assert_eq!(u16::from_le_bytes([data[3], data[4]]), 26);
}

#[test]
fn events_surface_in_order() {
    let (mut cp, mut pds) = setup(&[101]);
    bring_online(&mut cp, &mut pds, 0);
    let a = OsdpEvent::CardRead(OsdpEventCardRead::new_ascii(vec![1]));
    let b = OsdpEvent::CardRead(OsdpEventCardRead::new_ascii(vec![2]));
    pds[0].notify_event(a.clone()).unwrap();
    pds[0].notify_event(b.clone()).unwrap();
    assert_eq!(exchange(&mut cp, &mut pds, 0).1, Some(a));
    assert_eq!(exchange(&mut cp, &mut pds, 0).1, Some(b));
    assert_eq!(exchange(&mut cp, &mut pds, 0).1, None);
}

#[test]
fn commands_are_delivered_in_order_and_queue_is_bounded() {
    let (mut cp, mut pds) = setup(&[101]);
    bring_online(&mut cp, &mut pds, 0);
    let mk = |n: u8| {
        OsdpCommand::Buzzer(OsdpCommandBuzzer {
            reader: 0,
            control_code: 2,
            on_count: n,
            off_count: 1,
            rep_count: 1,
        })
    };
    for n in 0..32 {
        cp.send_command(0, mk(n)).unwrap();
    }
    assert_eq!(cp.send_command(0, mk(99)), Err(OsdpError::Command));
    assert_eq!(cp.send_command(3, mk(0)), Err(OsdpError::Command));
    for n in 0..32 {
        assert_eq!(exchange(&mut cp, &mut pds, 0).0, Some(mk(n)));
    }
}

#[test]
fn broadcast_is_processed_without_reply() {
    let (cp, mut pds) = setup(&[101]);
    let buzzer = OsdpCommand::Buzzer(OsdpCommandBuzzer::default());
    let frame = cp.broadcast_frame(&buzzer).unwrap();
    let out = pds[0].handle_packet(&unframe(&frame), RND_B);
    assert_eq!(out.command, Some(buzzer));
    assert!(out.reply.is_none());
}

#[test]
fn pd_resends_last_reply_on_repeated_sequence() {
    let (mut cp, mut pds) = setup(&[101]);
    let frame = cp.next_frame(0, RND_A).unwrap();
    let packet = unframe(&frame);
    let first = pds[0].handle_packet(&packet, RND_B).reply.unwrap();
    let again = pds[0].handle_packet(&packet, RND_B).reply.unwrap();
    assert_eq!(first, again);
}

#[test]
fn frames_for_other_pds_are_ignored() {
    let (mut cp, mut pds) = setup(&[101, 102]);
    let frame = cp.next_frame(1, RND_A).unwrap();
    let out = pds[0].handle_packet(&unframe(&frame), RND_B);
    assert!(out.reply.is_none() && out.command.is_none());
    assert!(!pds[0].is_online());
}

#[test]
fn two_pds_on_one_channel_both_come_online() {
    let (mut cp, mut pds) = setup(&[101, 102]);
    for _ in 0..4 {
        let i = cp.next_pd();
        exchange(&mut cp, &mut pds, i);
    }
    assert!(cp.is_online(0));
    assert!(cp.is_online(1));
}

#[test]
fn timeout_takes_the_pd_offline_and_restarts_at_sequence_zero() {
    let (mut cp, mut pds) = setup(&[101]);
    bring_online(&mut cp, &mut pds, 0);
    let _ = cp.next_frame(0, RND_A).unwrap();
    assert!(cp.next_frame(0, RND_A).is_none());
    cp.timeout(0);
    assert!(!cp.is_online(0));
    let frame = cp.next_frame(0, RND_A).unwrap();
    assert_eq!(unframe(&frame).seq, 0);
}

#[test]
fn unknown_command_gets_a_nak() {
    let (_, mut pds) = setup(&[101]);
    let p = OsdpPacket { address: 101, seq: 0, use_crc: true, scb: vec![], data: vec![0x99], mac: vec![] };
    let reply = pds[0].handle_packet(&p, RND_B).reply.unwrap();
    assert_eq!(unframe(&reply).data, vec![0x41, 0x03]);
}

#[test]
fn three_naks_take_the_pd_offline() {
    let (mut cp, mut pds) = setup(&[101]);
    bring_online(&mut cp, &mut pds, 0);
    for k in 0..3 {
        let f = cp.next_frame(0, RND_A).unwrap();
        let p = unframe(&f);
        let nak = OsdpPacket {
            address: 101 | 0x80,
            seq: p.seq,
            use_crc: true,
            scb: vec![],
            data: vec![0x41, 1],
            mac: vec![],
        };
        cp.handle_packet(0, &nak);
        assert_eq!(cp.is_online(0), k < 2);
    }
}

#[test]
fn setup_errors() {
    assert!(matches!(ControlPanel::new(vec![]), Err(OsdpError::Setup)));
    let bad = vec![PdInfo::for_cp("x".into(), 0x7F, 9600, OsdpFlag::empty(), 0, KEY)];
    assert!(matches!(ControlPanel::new(bad), Err(OsdpError::PdInfo(_))));
    assert!(matches!(
        PeripheralDevice::new(0x7F, OsdpFlag::empty(), PdId::from_number(0), vec![], KEY),
        Err(OsdpError::PdInfo(_))
    ));
    let (mut cp, mut pds) = setup(&[1]);
    assert!(matches!(cp.set_flag(4, OsdpFlag::install_mode(), true), Err(OsdpError::Query(_))));
    assert!(matches!(cp.get_pd_id(0), Err(OsdpError::Query(_))));
    let too_big = OsdpEvent::CardRead(OsdpEventCardRead::new_ascii(vec![0; 65]));
    assert_eq!(pds[0].notify_event(too_big), Err(OsdpError::Event));
}

fn setup_secure(
    cp_flags: OsdpFlag,
    cp_key: [u8; 16],
    pd_flags: OsdpFlag,
    pd_key: [u8; 16],
) -> (ControlPanel, Vec<PeripheralDevice>) {
    let info = vec![PdInfo::for_cp("PD 101".into(), 101, 115200, cp_flags, 0, cp_key)];
    let cp = ControlPanel::new(info).unwrap();
    let caps = vec![
        PdCapability::CommunicationSecurity(PdCapEntity::new(1, 0)),
        PdCapability::AudibleOutput(PdCapEntity::new(1, 1)),
    ];
    let pd = PeripheralDevice::new(101, pd_flags, PdId::from_number(1), caps, pd_key).unwrap();
    (cp, vec![pd])
}

fn bring_up_secure(cp: &mut ControlPanel, pds: &mut [PeripheralDevice]) {
    for _ in 0..4 {
        exchange(cp, pds, 0);
    }
}

#[test]
fn secure_channel_bringup_with_default_key() {
    let mut flags = OsdpFlag::empty();
    flags.set(OsdpFlag::install_mode(), true);
    let (mut cp, mut pds) = setup_secure(flags, KEY, flags, KEY);
    bring_up_secure(&mut cp, &mut pds);
    assert!(cp.is_online(0));
    assert!(cp.is_sc_active(0));
    assert!(pds[0].is_sc_active());
    let poll = cp.next_frame(0, RND_A).unwrap();
    let p = unframe(&poll);
    assert_eq!(poll[4] & 0x08, 0x08);
    assert_eq!(p.scb, vec![2, 0x15]);
    assert_eq!(p.mac.len(), 4);
    assert_eq!(p.data, vec![0x60]);
    let out = pds[0].handle_packet(&p, RND_B);
    let reply = unframe(&out.reply.unwrap());
    assert_eq!(reply.scb, vec![2, 0x16]);
    assert_eq!(reply.mac.len(), 4);
    assert_eq!(cp.handle_packet(0, &reply), None);
    assert!(cp.is_sc_active(0));
}

#[test]
fn secure_channel_carries_commands_and_events() {
    let (mut cp, mut pds) = setup_secure(OsdpFlag::empty(), KEY, OsdpFlag::empty(), KEY);
    bring_up_secure(&mut cp, &mut pds);
    assert!(cp.is_sc_active(0));
    let buzzer = OsdpCommand::Buzzer(OsdpCommandBuzzer {
        reader: 0,
        control_code: 2,
        on_count: 1,
        off_count: 1,
        rep_count: 3,
    });
    cp.send_command(0, buzzer.clone()).unwrap();
    assert_eq!(exchange(&mut cp, &mut pds, 0).0, Some(buzzer));
    let read = OsdpEvent::CardRead(OsdpEventCardRead::new_ascii(vec![0x55, 0xAA]));
    pds[0].notify_event(read.clone()).unwrap();
    assert_eq!(exchange(&mut cp, &mut pds, 0).1, Some(read));
    assert!(cp.is_sc_active(0) && pds[0].is_sc_active());
}

#[test]
fn tampered_mac_ends_the_session() {
    let (mut cp, mut pds) = setup_secure(OsdpFlag::empty(), KEY, OsdpFlag::empty(), KEY);
    bring_up_secure(&mut cp, &mut pds);
    let mut p = unframe(&cp.next_frame(0, RND_A).unwrap());
    p.mac[0] ^= 1;
    let out = pds[0].handle_packet(&p, RND_B);
    assert!(!pds[0].is_sc_active());
    assert_eq!(unframe(&out.reply.unwrap()).data, vec![0x41, 0x06]);
}

#[test]
fn cryptogram_mismatch_takes_an_enforcing_pd_offline() {
    let mut pd_key = KEY;
    pd_key[15] ^= 0xFF;
    let (mut cp, mut pds) = setup_secure(OsdpFlag::enforce_secure(), KEY, OsdpFlag::empty(), pd_key);
    exchange(&mut cp, &mut pds, 0);
    exchange(&mut cp, &mut pds, 0);
    exchange(&mut cp, &mut pds, 0);
    assert!(!cp.is_sc_active(0));
    assert!(!cp.is_online(0));
    exchange(&mut cp, &mut pds, 0);
    assert!(!cp.is_sc_active(0));
    assert!(!cp.is_online(0));
    let (_, mut plain) = setup_secure(OsdpFlag::empty(), KEY, OsdpFlag::empty(), pd_key);
    let mut cp2 = ControlPanel::new(vec![PdInfo::for_cp("p".into(), 101, 9600, OsdpFlag::empty(), 0, KEY)])
        .unwrap();
    for _ in 0..3 {
        exchange(&mut cp2, &mut plain, 0);
    }
    assert!(cp2.is_online(0));
    assert!(!cp2.is_sc_active(0));
}

#[test]
fn pd_naks_a_wrong_server_cryptogram() {
    let (_, mut pds) = setup_secure(OsdpFlag::empty(), KEY, OsdpFlag::empty(), KEY);
    let mut chlng = vec![0x76];
    chlng.extend_from_slice(&RND_A);
    let p = OsdpPacket { address: 101, seq: 0, use_crc: true, scb: vec![3, 0x11, 1], data: chlng, mac: vec![] };
    let ccrypt = unframe(&pds[0].handle_packet(&p, RND_B).reply.unwrap());
    assert_eq!(ccrypt.scb, vec![3, 0x12, 1]);
    assert_eq!(ccrypt.data.len(), 33);
    let mut scrypt = vec![0x77];
    scrypt.extend_from_slice(&[0u8; 16]);
    let p = OsdpPacket { address: 101, seq: 1, use_crc: true, scb: vec![3, 0x13, 1], data: scrypt, mac: vec![] };
    let reply = unframe(&pds[0].handle_packet(&p, RND_B).reply.unwrap());
    assert_eq!(reply.data, vec![0x41, 0x06]);
    assert!(!pds[0].is_sc_active());
}

#[test]
fn keyset_rotation_rekeys_the_secure_channel() {
    let (mut cp, mut pds) = setup_secure(OsdpFlag::empty(), KEY, OsdpFlag::empty(), KEY);
    bring_up_secure(&mut cp, &mut pds);
    let new_key = [0x5A; 16];
    cp.send_command(0, OsdpCommand::KeySet(libosdp::OsdpCommandKeyset::new_scbk(new_key)))
        .unwrap();
    let (command, _, _) = exchange(&mut cp, &mut pds, 0);
    assert!(matches!(command, Some(OsdpCommand::KeySet(_))));
    assert_eq!(pds[0].scbk, new_key);
    assert!(!pds[0].is_sc_active());
    assert_eq!(cp.pds[0].scbk, new_key);
    exchange(&mut cp, &mut pds, 0);
    exchange(&mut cp, &mut pds, 0);
    assert!(cp.is_sc_active(0));
    assert!(pds[0].is_sc_active());
    // The old key no longer authenticates.
    let (mut old_cp, _) = setup_secure(OsdpFlag::enforce_secure(), KEY, OsdpFlag::empty(), KEY);
    for _ in 0..4 {
        exchange(&mut old_cp, &mut pds, 0);
    }
    assert!(!old_cp.is_sc_active(0));
}

#[test]
fn secure_commands_and_events_travel_encrypted() {
    let (mut cp, mut pds) = setup_secure(OsdpFlag::empty(), KEY, OsdpFlag::empty(), KEY);
    bring_up_secure(&mut cp, &mut pds);
    let buzzer = OsdpCommand::Buzzer(OsdpCommandBuzzer {
        reader: 0,
        control_code: 2,
        on_count: 1,
        off_count: 1,
        rep_count: 3,
    });
    cp.send_command(0, buzzer.clone()).unwrap();
    let p = unframe(&cp.next_frame(0, RND_A).unwrap());
    assert_eq!(p.scb, vec![2, 0x17]);
    assert_eq!(p.data[0], 0x6A);
    assert_eq!(p.data.len(), 17);
    assert_ne!(&p.data[1..6], &[0, 2, 1, 1, 3]);
    let out = pds[0].handle_packet(&p, RND_B);
    assert_eq!(out.command, Some(buzzer));
    assert!(out.reply.is_none());
    let reply = unframe(&pds[0].reply_command(true, 0).unwrap());
    assert_eq!(reply.scb, vec![2, 0x16]);
    assert_eq!(cp.handle_packet(0, &reply), None);

    let read = OsdpEvent::CardRead(OsdpEventCardRead::new_ascii(vec![0x31, 0x32]));
    pds[0].notify_event(read.clone()).unwrap();
    cp.send_command(0, OsdpCommand::Buzzer(OsdpCommandBuzzer::default())).unwrap();
    let (_, _, _) = exchange(&mut cp, &mut pds, 0);
    let p = unframe(&cp.next_frame(0, RND_A).unwrap());
    assert_eq!(p.scb, vec![2, 0x15]);
    let reply = unframe(&pds[0].handle_packet(&p, RND_B).reply.unwrap());
    assert_eq!(reply.scb, vec![2, 0x16]);
    assert_eq!(cp.handle_packet(0, &reply), Some(read));
    assert!(cp.is_sc_active(0) && pds[0].is_sc_active());
}

#[test]
fn test_commands() {
    let (mut cp, mut pds) = setup_secure(OsdpFlag::empty(), KEY, OsdpFlag::empty(), KEY);
    let mut rounds = 0;
    while !pds[0].is_sc_active() {
        exchange(&mut cp, &mut pds, 0);
        rounds += 1;
        assert!(rounds < 10, "Waiting for devices to establish a secure channel");
    }

    let command = OsdpCommand::Buzzer(OsdpCommandBuzzer::default());
    cp.send_command(0, command.clone()).unwrap();
    let (cmd_rx, _, _) = exchange(&mut cp, &mut pds, 0);
    assert_eq!(cmd_rx, Some(command), "Buzzer command check failed");

    let event = OsdpEvent::CardRead(OsdpEventCardRead::new_ascii(vec![0x55, 0xAA]));
    pds[0].notify_event(event.clone()).unwrap();
    let (_, event_rx, _) = exchange(&mut cp, &mut pds, 0);
    assert_eq!(event_rx, Some(event), "Cardread event check failed");
}

#[test]
fn failed_secure_channel_falls_back_to_plaintext_and_can_retry() {
    let mut pd_key = KEY;
    pd_key[0] ^= 1;
    let (mut cp, mut pds) = setup_secure(OsdpFlag::empty(), KEY, OsdpFlag::empty(), pd_key);
    for _ in 0..3 {
        exchange(&mut cp, &mut pds, 0);
    }
    assert!(cp.is_online(0));
    assert!(!cp.is_sc_active(0));
    pds[0].scbk = KEY;
    assert!(cp.retry_secure_channel(0));
    assert!(!cp.retry_secure_channel(0));
    exchange(&mut cp, &mut pds, 0);
    exchange(&mut cp, &mut pds, 0);
    assert!(cp.is_sc_active(0));
    assert!(pds[0].is_sc_active());
}

#[test]
fn shared_channel_waits_for_the_awaited_reply() {
    let (mut cp, mut pds) = setup(&[101, 102]);
    let first = cp.next_frame(0, RND_A).unwrap();
    assert!(cp.channel_busy(1));
    assert!(cp.next_frame(1, RND_A).is_none());
    let packet = unframe(&first);
    let reply = pds[0].handle_packet(&packet, RND_B).reply.unwrap();
    cp.handle_packet(0, &unframe(&reply));
    assert!(!cp.channel_busy(1));
    assert!(cp.next_frame(1, RND_A).is_some());
}

#[test]
fn separate_channels_do_not_wait() {
    let info = vec![
        PdInfo::for_cp("a".into(), 101, 9600, OsdpFlag::empty(), 1, KEY),
        PdInfo::for_cp("b".into(), 102, 9600, OsdpFlag::empty(), 2, KEY),
    ];
    let mut cp = ControlPanel::new(info).unwrap();
    assert!(cp.next_frame(0, RND_A).is_some());
    assert!(cp.next_frame(1, RND_A).is_some());
}

#[test]
fn too_many_pds_is_a_pd_info_error() {
    let info: Vec<PdInfo> = (0..127)
        .map(|a| PdInfo::for_cp(format!("PD {a}"), a % 0x7F, 9600, OsdpFlag::empty(), 0, KEY))
        .collect();
    assert!(matches!(ControlPanel::new(info), Err(OsdpError::PdInfo(_))));
    let info: Vec<PdInfo> = (0..126)
        .map(|a| PdInfo::for_cp(format!("PD {a}"), a, 9600, OsdpFlag::empty(), 0, KEY))
        .collect();
    assert!(ControlPanel::new(info).is_ok());
}

#[test]
fn broadcast_is_processed_past_the_first_frame() {
    let (mut cp, mut pds) = setup(&[101]);
    bring_online(&mut cp, &mut pds, 0);
    assert!(pds[0].is_online());
    let buzzer = OsdpCommand::Buzzer(OsdpCommandBuzzer::default());
    let frame = cp.broadcast_frame(&buzzer).unwrap();
    let last = pds[0].last_reply.clone();
    let out = pds[0].handle_packet(&unframe(&frame), RND_B);
    assert_eq!(out.command, Some(buzzer));
    assert!(out.reply.is_none());
    assert_eq!(pds[0].last_reply, last);
    // The link goes on as before.
    exchange(&mut cp, &mut pds, 0);
    assert!(cp.is_online(0));
}

#[test]
fn application_can_refuse_a_command() {
    let (mut cp, mut pds) = setup(&[101]);
    bring_online(&mut cp, &mut pds, 0);
    let buzzer = OsdpCommand::Buzzer(OsdpCommandBuzzer::default());
    cp.send_command(0, buzzer.clone()).unwrap();
    let p = unframe(&cp.next_frame(0, RND_A).unwrap());
    let out = pds[0].handle_packet(&p, RND_B);
    assert_eq!(out.command, Some(buzzer));
    assert!(out.reply.is_none());
    let reply = pds[0].reply_command(false, 0x05).unwrap();
    assert_eq!(unframe(&reply).data, vec![0x41, 0x05]);
    assert_eq!(pds[0].reply_command(true, 0), None);
    assert_eq!(cp.handle_packet(0, &unframe(&reply)), None);
    assert!(cp.is_online(0));
    // A repeated request brings the same NAK again.
    assert_eq!(pds[0].handle_packet(&p, RND_B).reply, Some(reply));
}

#[test]
fn refused_key_set_keeps_the_old_key() {
    let (mut cp, mut pds) = setup_secure(OsdpFlag::empty(), KEY, OsdpFlag::empty(), KEY);
    bring_up_secure(&mut cp, &mut pds);
    cp.send_command(0, OsdpCommand::KeySet(libosdp::OsdpCommandKeyset::new_scbk([0x77; 16])))
        .unwrap();
    let p = unframe(&cp.next_frame(0, RND_A).unwrap());
    let out = pds[0].handle_packet(&p, RND_B);
    assert!(matches!(out.command, Some(OsdpCommand::KeySet(_))));
    let reply = unframe(&pds[0].reply_command(false, 0x01).unwrap());
    assert_eq!(reply.scb[1], 0x18);
    assert_eq!(pds[0].scbk, KEY);
    assert!(pds[0].is_sc_active());
    cp.handle_packet(0, &reply);
    assert!(cp.is_sc_active(0));
    assert_eq!(cp.pds[0].scbk, KEY);
}

#[test]
fn silence_drops_the_link_and_sequence_zero_restarts_it() {
    let (mut cp, mut pds) = setup(&[101]);
    bring_online(&mut cp, &mut pds, 0);
    assert!(!pds[0].check_silence(100));
    assert!(pds[0].is_online());
    // The CP loses the link and restarts it with sequence 0.
    let _ = cp.next_frame(0, RND_A).unwrap();
    cp.timeout(0);
    let restart = unframe(&cp.next_frame(0, RND_A).unwrap());
    assert_eq!(restart.seq, 0);
    assert!(pds[0].handle_packet(&restart, RND_B).reply.unwrap() != vec![]);
    assert!(pds[0].check_silence(libosdp::pd::PD_SILENCE_TIMEOUT_MS));
    assert!(!pds[0].is_online());
    let reply = pds[0].handle_packet(&restart, RND_B).reply.unwrap();
    assert_eq!(unframe(&reply).seq, 0);
    cp.handle_packet(0, &unframe(&reply));
    exchange(&mut cp, &mut pds, 0);
    assert!(cp.is_online(0));
}

#[test]
fn timers_back_off_and_retry_the_secure_channel() {
    let mut t = PdTimers::new();
    assert!(t.may_send(0));
    t.sent(0);
    assert!(!t.reply_overdue(200));
    assert!(t.reply_overdue(201));
    t.failed(201);
    assert!(!t.may_send(500));
    assert!(t.may_send(501));
    t.failed(600);
    assert_eq!(t.retry_at_ms, 1200);
    t.observe(700, true, false, false);
    assert_eq!(t.failures, 0);
    assert!(!t.observe(1000, true, false, true));
    assert!(!t.observe(1000 + SC_RETRY_MS - 1, true, false, true));
    assert!(t.observe(1000 + SC_RETRY_MS, true, false, true));
    assert!(!t.observe(2000 + SC_RETRY_MS, true, true, true));
}
