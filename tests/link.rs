use libosdp::frame::{
    build_frame, compute_checksum, compute_crc16, parse_frame_at, receive, FrameError, OsdpPacket,
    MAX_FRAME_LEN, SOM,
};
use libosdp::sched::Scheduler;
use libosdp::sequence::{check_seq, classify_address, next_seq, AddressMatch, SeqCheck};
use libosdp::OsdpError;

fn packet(use_crc: bool, data: Vec<u8>) -> OsdpPacket {
    OsdpPacket { address: 101, seq: 1, use_crc, scb: vec![], data, mac: vec![] }
}

#[test]
fn crc16_matches_the_aug_ccitt_check_value() {
    assert_eq!(compute_crc16(b"123456789", 0, 9), 0xE5CC);
    assert_eq!(compute_crc16(b"", 0, 0), 0x1D0F);
}

#[test]
fn checksum_makes_the_sum_zero() {
    let b = [0x53u8, 0x65, 0x08, 0x00, 0x05, 0x60];
    let c = compute_checksum(&b, 0, b.len());
    let sum: u32 = b.iter().map(|x| *x as u32).sum::<u32>() + c as u32;
    assert_eq!(sum % 256, 0);
    assert_eq!(c, 0xDB);
}

#[test]
fn frames_round_trip_with_checksum_and_crc() {
    for use_crc in [false, true] {
        let p = packet(use_crc, vec![0x60]);
        let f = build_frame(&p).unwrap();
        assert_eq!(f[0], SOM);
        assert_eq!(f[1], 101);
        assert_eq!(u16::from_le_bytes([f[2], f[3]]) as usize, f.len());
        assert_eq!(f[4], 1 | if use_crc { 4 } else { 0 });
        let (q, n) = parse_frame_at(&f, 0).unwrap();
        assert_eq!(q, p);
        assert_eq!(n, f.len());
    }
}

#[test]
fn poll_frame_with_crc_is_bit_exact() {
    let f = build_frame(&OsdpPacket {
        address: 0x65,
        seq: 0,
        use_crc: true,
        scb: vec![],
        data: vec![0x60],
        mac: vec![],
    })
    .unwrap();
    let crc = compute_crc16(&f, 0, 6);
    assert_eq!(&f[..6], &[0x53, 0x65, 0x08, 0x00, 0x04, 0x60]);
    assert_eq!(f[6], (crc & 0xff) as u8);
    assert_eq!(f[7], (crc >> 8) as u8);
}

#[test]
fn largest_frame_passes_and_one_more_byte_fails() {
    let p = packet(true, vec![0x80; MAX_FRAME_LEN - 7]);
    let f = build_frame(&p).unwrap();
    assert_eq!(f.len(), MAX_FRAME_LEN);
    assert_eq!(parse_frame_at(&f, 0).unwrap().0, p);
    let p = packet(true, vec![0x80; MAX_FRAME_LEN - 6]);
    assert_eq!(build_frame(&p), Err(OsdpError::Frame));
    let mut g = f.clone();
    g[2] = 0x01;
    g[3] = 0x01;
    assert_eq!(parse_frame_at(&g, 0), Err(FrameError::TooLong));
}

#[test]
fn bad_frames_are_refused() {
    assert_eq!(build_frame(&packet(false, vec![])), Err(OsdpError::Frame));
    let mut f = build_frame(&packet(false, vec![0x60, 1, 2])).unwrap();
    assert_eq!(parse_frame_at(&f[..4], 0), Err(FrameError::Incomplete));
    assert_eq!(parse_frame_at(&f[..f.len() - 1], 0), Err(FrameError::Incomplete));
    let last = f.len() - 1;
    f[last] ^= 1;
    assert_eq!(parse_frame_at(&f, 0), Err(FrameError::BadCheck));
    assert_eq!(parse_frame_at(&[0x00, 1, 2, 3, 4, 5], 0), Err(FrameError::BadSom));
    assert_eq!(parse_frame_at(&[SOM, 1, 5, 0, 0, 0], 0), Err(FrameError::BadLength));
}

#[test]
fn receiver_skips_noise_and_keeps_partial_frames() {
    let f = build_frame(&packet(true, vec![0x60])).unwrap();
    let mut buf = vec![0xFF, 0x00];
    buf.extend_from_slice(&f);
    buf.push(0x11);
    let (drop, p) = receive(&buf);
    assert_eq!(drop, 2 + f.len());
    assert_eq!(p.unwrap().data, vec![0x60]);

    let (drop, p) = receive(&f[..5]);
    assert_eq!((drop, p), (0, None));

    let mut bad = f.clone();
    bad[6] ^= 0xFF;
    assert_eq!(receive(&bad), (1, None));
    assert_eq!(receive(&[1, 2, 3]), (3, None));
}

#[test]
fn sequence_numbers_skip_zero() {
    let mut s = 0u8;
    let mut seen = vec![];
    for _ in 0..7 {
        s = next_seq(s);
        seen.push(s);
    }
    assert_eq!(seen, vec![1, 2, 3, 1, 2, 3, 1]);
}

#[test]
fn sequence_zero_only_after_reset() {
    assert_eq!(check_seq(None, 0), SeqCheck::Accept);
    assert_eq!(check_seq(None, 1), SeqCheck::Reject);
    assert_eq!(check_seq(Some(0), 1), SeqCheck::Accept);
    assert_eq!(check_seq(Some(3), 1), SeqCheck::Accept);
    assert_eq!(check_seq(Some(3), 0), SeqCheck::Resend);
    assert_eq!(check_seq(Some(2), 2), SeqCheck::Resend);
}

#[test]
fn broadcast_address_is_processed_by_all() {
    assert_eq!(classify_address(101, 0x7F), AddressMatch::Broadcast);
    assert_eq!(classify_address(101, 101), AddressMatch::Mine);
    assert_eq!(classify_address(101, 102), AddressMatch::Other);
}

#[test]
fn multi_drop_fairness_two_pds_one_second() {
    let mut s = Scheduler::new(2);
    let mut polls = [0usize; 2];
    for _ in 0..(1000 / 50) {
        polls[s.tick()] += 1;
    }
    assert!(polls[0] >= 8);
    assert!(polls[1] >= 8);
}

#[test]
fn every_pd_is_served_within_n_ticks() {
    let mut s = Scheduler::new(5);
    s.tick();
    s.tick();
    let mut seen = [false; 5];
    for _ in 0..5 {
        seen[s.tick()] = true;
    }
    assert!(seen.iter().all(|x| *x));
}

#[test]
fn secure_blocks_and_macs_round_trip() {
    let p = OsdpPacket {
        address: 101,
        seq: 2,
        use_crc: true,
        scb: vec![2, 0x15],
        data: vec![0x60],
        mac: vec![1, 2, 3, 4],
    };
    let f = build_frame(&p).unwrap();
    assert_eq!(f[4] & 0x08, 0x08);
    assert_eq!(&f[5..7], &[2, 0x15]);
    assert_eq!(&f[8..12], &[1, 2, 3, 4]);
    assert_eq!(parse_frame_at(&f, 0).unwrap().0, p);
    let hs = OsdpPacket { scb: vec![3, 0x11, 1], mac: vec![], ..p.clone() };
    let f = build_frame(&hs).unwrap();
    assert_eq!(parse_frame_at(&f, 0).unwrap().0, hs);
    let missing_mac = OsdpPacket { mac: vec![], ..p.clone() };
    assert_eq!(build_frame(&missing_mac), Err(OsdpError::Frame));
    let bad_scb = OsdpPacket { scb: vec![5, 0x15], ..p };
    assert_eq!(build_frame(&bad_scb), Err(OsdpError::Frame));
}
