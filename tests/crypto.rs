use libosdp::aes::{aes128_decrypt, aes128_encrypt, gf_mul_exec, sbox_exec};
use libosdp::sc::{decrypt_payload, diversify_scbk, encrypt_payload};

fn hex16(s: &str) -> [u8; 16] {
    let mut out = [0u8; 16];
    for i in 0..16 {
        out[i] = u8::from_str_radix(&s[2 * i..2 * i + 2], 16).unwrap();
    }
    out
}

#[test]
fn aes128_fips197_vector() {
    let key = hex16("000102030405060708090a0b0c0d0e0f");
    let pt = hex16("00112233445566778899aabbccddeeff");
    assert_eq!(aes128_encrypt(&key, &pt), hex16("69c4e0d86a7b0430d8cdb78070b4c55a"));
}

#[test]
fn aes128_sp800_38a_ecb_vector() {
    let key = hex16("2b7e151628aed2a6abf7158809cf4f3c");
    let pt = hex16("6bc1bee22e409f96e93d7e117393172a");
    assert_eq!(aes128_encrypt(&key, &pt), hex16("3ad77bb40d7a3660a89ecaf32466ef97"));
}

#[test]
fn sbox_and_field_values() {
    assert_eq!(sbox_exec(0x00), 0x63);
    assert_eq!(sbox_exec(0x01), 0x7c);
    assert_eq!(sbox_exec(0x53), 0xed);
    assert_eq!(sbox_exec(0xff), 0x16);
    assert_eq!(gf_mul_exec(0x57, 0x83), 0xc1);
    assert_eq!(gf_mul_exec(0x57, 0x13), 0xfe);
}

use libosdp::sc::{
    cp_check_client_cryptogram, cp_check_initial_rmac, derive_session_keys, pd_answer_challenge,
    pd_check_server_cryptogram, scbk_default, select_scbk, SecureSession,
};
use libosdp::{OsdpError, OsdpFlag};

const RND_A: [u8; 8] = [0xA0, 0xA1, 0xA2, 0xA3, 0xA4, 0xA5, 0xA6, 0xA7];
const RND_B: [u8; 8] = [0xB0, 0xB1, 0xB2, 0xB3, 0xB4, 0xB5, 0xB6, 0xB7];
const CUID: [u8; 8] = [1, 2, 3, 4, 5, 6, 7, 8];

fn key_0_to_f() -> [u8; 16] {
    let mut k = [0u8; 16];
    for (i, b) in k.iter_mut().enumerate() {
        *b = i as u8;
    }
    k
}

/// Runs the four handshake steps; the PD holds `pd_key`, the CP `cp_key`.
fn handshake(cp_key: [u8; 16], pd_key: [u8; 16]) -> Result<(SecureSession, SecureSession), OsdpError> {
    let (pd_hs, scs12) = pd_answer_challenge(&pd_key, &RND_A, &RND_B, &CUID);
    assert_eq!(&scs12[..8], &CUID);
    assert_eq!(&scs12[8..16], &RND_B);
    let (cp_hs, scs13) = cp_check_client_cryptogram(&cp_key, &RND_A, &scs12)?;
    let (pd_session, scs14) = pd_check_server_cryptogram(&pd_hs, &scs13)?;
    let cp_session = cp_check_initial_rmac(&cp_hs, &scs14)?;
    Ok((cp_session, pd_session))
}

#[test]
fn secure_channel_handshake_with_default_key() {
    let mut flags = OsdpFlag::empty();
    flags.set(OsdpFlag::install_mode(), true);
    let key = select_scbk(flags, &key_0_to_f(), true).unwrap();
    assert_eq!(key, scbk_default());
    let (cp, pd) = handshake(key, key).unwrap();
    assert_eq!(cp, pd);
    assert_ne!(cp.keys.s_enc, cp.keys.s_mac1);
    assert_ne!(cp.keys.s_mac1, cp.keys.s_mac2);
}

#[test]
fn secure_channel_handshake_with_configured_key() {
    let key = select_scbk(OsdpFlag::empty(), &key_0_to_f(), false).unwrap();
    assert!(handshake(key, key).is_ok());
}

#[test]
fn default_key_refused_without_install_mode_or_under_enforce_secure() {
    assert_eq!(select_scbk(OsdpFlag::empty(), &key_0_to_f(), true), Err(OsdpError::Setup));
    let mut flags = OsdpFlag::install_mode();
    flags.set(OsdpFlag::enforce_secure(), true);
    assert_eq!(select_scbk(flags, &key_0_to_f(), true), Err(OsdpError::Setup));
}

#[test]
fn cryptogram_mismatch_fails_the_handshake() {
    let cp_key = key_0_to_f();
    let mut pd_key = cp_key;
    pd_key[15] ^= 1;
    // The CP sees a client cryptogram it cannot reproduce.
    assert_eq!(handshake(cp_key, pd_key), Err(OsdpError::Setup));
    // A PD that receives a wrong server cryptogram refuses it.
    let (pd_hs, _) = pd_answer_challenge(&pd_key, &RND_A, &RND_B, &CUID);
    let (_, scs12) = pd_answer_challenge(&cp_key, &RND_A, &RND_B, &CUID);
    let (_, scs13) = cp_check_client_cryptogram(&cp_key, &RND_A, &scs12).unwrap();
    assert_eq!(pd_check_server_cryptogram(&pd_hs, &scs13), Err(OsdpError::Setup));
}

#[test]
fn key_rotation_old_key_no_longer_authenticates() {
    let old_key = key_0_to_f();
    let new_key = [0x5Au8; 16];
    assert!(handshake(new_key, new_key).is_ok());
    assert!(handshake(new_key, old_key).is_err());
}

#[test]
fn rolling_macs_follow_the_messages() {
    let keys = derive_session_keys(&key_0_to_f(), &RND_A);
    let start = SecureSession { keys, c_mac: [0; 16], r_mac: [0; 16] };
    let msgs = vec![(true, vec![0x60]), (false, vec![0x40]), (true, vec![0x6A; 20])];
    let mut a = start;
    let mut b = start;
    a.mac_all(&msgs);
    b.mac_all(&msgs);
    assert_eq!(a, b);
    let mut c = start;
    let m1 = c.mac_command(&[0x60]);
    let m2 = c.mac_reply(&[0x40]);
    c.mac_command(&[0x6A; 20]);
    assert_eq!(c, a);
    assert_ne!(m1, m2);
    let mut d = start;
    d.mac_all(&vec![(true, vec![0x61]), (false, vec![0x40]), (true, vec![0x6A; 20])]);
    assert_ne!(d.c_mac, a.c_mac);
}

#[test]
fn aes128_inverse_cipher_vector() {
    let key = hex16("000102030405060708090a0b0c0d0e0f");
    let ct = hex16("69c4e0d86a7b0430d8cdb78070b4c55a");
    assert_eq!(aes128_decrypt(&key, &ct), hex16("00112233445566778899aabbccddeeff"));
    let key = hex16("2b7e151628aed2a6abf7158809cf4f3c");
    let block = [0x42u8; 16];
    assert_eq!(aes128_decrypt(&key, &aes128_encrypt(&key, &block)), block);
}

#[test]
fn payloads_round_trip_through_encryption() {
    let keys = derive_session_keys(&key_0_to_f(), &RND_A);
    let mac = [0x11u8; 16];
    for len in [0usize, 1, 15, 16, 17, 40] {
        let data: Vec<u8> = (0..len).map(|i| i as u8).collect();
        let c = encrypt_payload(&keys, &mac, &data);
        assert_eq!(c.len() % 16, 0);
        assert!(c.len() > len);
        if len > 0 {
            assert_ne!(&c[..len], &data[..]);
        }
        assert_eq!(decrypt_payload(&keys, &mac, &c), Ok(data.clone()));
        assert_ne!(decrypt_payload(&keys, &[0x12; 16], &c), Ok(data.clone()));
    }
    assert_eq!(decrypt_payload(&keys, &mac, &[0u8; 15]), Err(OsdpError::Setup));
    assert_eq!(decrypt_payload(&keys, &mac, &[]), Err(OsdpError::Setup));
}

#[test]
fn base_key_diversification() {
    let master = key_0_to_f();
    let a = diversify_scbk(&master, &CUID);
    let b = diversify_scbk(&master, &[8, 7, 6, 5, 4, 3, 2, 1]);
    assert_ne!(a, b);
    let mut block = [0u8; 16];
    block[..8].copy_from_slice(&CUID);
    for i in 0..8 {
        block[8 + i] = !CUID[i];
    }
    assert_eq!(a, aes128_encrypt(&master, &block));
}
