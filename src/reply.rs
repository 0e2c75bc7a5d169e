//! Opcodes of the link itself, and the frames that carry messages: in
//! plaintext, during the secure channel handshake, and MAC-protected (and
//! optionally encrypted) once a session is up.
use vstd::prelude::*;
use crate::frame::{
    build_frame, frame_bytes, frame_len, mac_input, mac_input_bytes, packet_wf, OsdpPacket, PacketView,
    MAX_FRAME_LEN, REPLY_ADDR_BIT,
};
use crate::error::OsdpError;
use crate::sc::{
    cbc_ciphertext, cbc_plaintext, complement16, decrypt_payload, encrypt_payload, mac_padding,
    message_mac, unpad, SecureSession, SessionKeys,
};

verus! {

/// Poll: the CP asks the PD for news.
pub const CMD_POLL: u8 = 0x60;
/// Identification request.
pub const CMD_ID: u8 = 0x61;
/// Capability request.
pub const CMD_CAP: u8 = 0x62;
/// Positive acknowledgement.
pub const REPLY_ACK: u8 = 0x40;
/// Negative acknowledgement; a reason byte follows.
pub const REPLY_NAK: u8 = 0x41;
/// NAK reason: the message could not be decoded.
pub const NAK_BAD_MESSAGE: u8 = 0x01;
/// NAK reason: the command is not known.
pub const NAK_UNKNOWN_COMMAND: u8 = 0x03;
/// Largest data that a frame built here carries.
pub const MAX_REPLY_DATA: usize = 200;

/// The packet of a reply from the PD at `address`.
pub open spec fn reply_packet(address: u8, seq: u8, use_crc: bool, data: Seq<u8>) -> PacketView {
    PacketView {
        address: (address | REPLY_ADDR_BIT) as u8,
        seq,
        use_crc,
        scb: Seq::empty(),
        data,
        mac: Seq::empty(),
    }
}

/// Builds the frame of a packet whose data is known to fit.
pub fn frame_of(address: u8, seq: u8, use_crc: bool, data: Vec<u8>) -> (r: Vec<u8>)
    requires
        seq <= 3,
        1 <= data@.len() <= MAX_REPLY_DATA,
    ensures
        r@ == frame_bytes(
            PacketView { address, seq, use_crc, scb: Seq::empty(), data: data@, mac: Seq::empty() },
        ),
{
    let p = OsdpPacket { address, seq, use_crc, scb: Vec::new(), data, mac: Vec::new() };
    assert(packet_wf(p@));
    match build_frame(&p) {
        Ok(v) => v,
        Err(_) => {
            assert(false);
            Vec::new()
        },
    }
}

/// Challenge (SCS_11): the CP's random.
pub const CMD_CHLNG: u8 = 0x76;
/// Server cryptogram (SCS_13).
pub const CMD_SCRYPT: u8 = 0x77;
/// Client id, random and client cryptogram (SCS_12).
pub const REPLY_CCRYPT: u8 = 0x76;
/// Initial R-MAC (SCS_14).
pub const REPLY_RMAC_I: u8 = 0x78;
/// Secure block type of the challenge.
pub const SCS_11: u8 = 0x11;
/// Secure block type of the client cryptogram.
pub const SCS_12: u8 = 0x12;
/// Secure block type of the server cryptogram.
pub const SCS_13: u8 = 0x13;
/// Secure block type of the initial R-MAC.
pub const SCS_14: u8 = 0x14;
/// Secure block type of a MAC-protected message from the CP.
pub const SCS_15: u8 = 0x15;
/// Secure block type of a MAC-protected message from the PD.
pub const SCS_16: u8 = 0x16;
/// Secure block type of an encrypted, MAC-protected message from the CP.
pub const SCS_17: u8 = 0x17;
/// Secure block type of an encrypted, MAC-protected message from the PD.
pub const SCS_18: u8 = 0x18;

/// The first four bytes of a MAC, which a frame carries.
pub open spec fn mac4(m: Seq<u8>) -> Seq<u8> {
    m.subrange(0, 4)
}

/// The packet of a handshake message: secure block `[3, scs, key]`.
pub open spec fn handshake_packet(address: u8, seq: u8, use_crc: bool, scs: u8, key: u8, data: Seq<u8>) -> PacketView {
    PacketView { address, seq, use_crc, scb: seq![3u8, scs, key], data, mac: Seq::empty() }
}

/// Builds the frame of a handshake message.
pub fn handshake_frame_of(address: u8, seq: u8, use_crc: bool, scs: u8, key: u8, data: Vec<u8>) -> (r: Vec<u8>)
    requires
        seq <= 3,
        scs < 0x15,
        1 <= data@.len() <= MAX_REPLY_DATA,
    ensures
        r@ == frame_bytes(handshake_packet(address, seq, use_crc, scs, key, data@)),
{
    let scb: Vec<u8> = vec![3u8, scs, key];
    let p = OsdpPacket { address, seq, use_crc, scb, data, mac: Vec::new() };
    assert(p@ == handshake_packet(address, seq, use_crc, scs, key, p.data@));
    assert(packet_wf(p@));
    match build_frame(&p) {
        Ok(v) => v,
        Err(_) => {
            assert(false);
            Vec::new()
        },
    }
}

/// The packet of a MAC-protected message with secure block `[2, scs]`.
pub open spec fn secure_packet(address: u8, seq: u8, use_crc: bool, scs: u8, data: Seq<u8>, mac: Seq<u8>) -> PacketView {
    PacketView { address, seq, use_crc, scb: seq![2u8, scs], data, mac }
}

/// Secure block type of a MAC-protected message.
pub open spec fn secure_type(from_cp: bool, encrypted: bool) -> u8 {
    if from_cp {
        if encrypted { SCS_17 } else { SCS_15 }
    } else {
        if encrypted { SCS_18 } else { SCS_16 }
    }
}

/// A message with its payload (what follows its code) encrypted: AES-CBC
/// under S-ENC from the complement of `last_mac`, over the padded payload.
pub open spec fn seal_spec(data: Seq<u8>, keys: SessionKeys, last_mac: Seq<u8>) -> Seq<u8> {
    let p = mac_padding(data.subrange(1, data.len() as int));
    seq![data[0]] + cbc_ciphertext(keys.s_enc@, complement16(last_mac), p, p.len() / 16)
}

/// The message that an encrypted message `data` holds: its code, then the
/// decrypted and unpadded payload; `None` when the payload is empty, not
/// whole blocks, badly padded, or not shorter than the message.
pub open spec fn open_spec(data: Seq<u8>, keys: SessionKeys, last_mac: Seq<u8>) -> Option<Seq<u8>> {
    let c = data.subrange(1, data.len() as int);
    if data.len() < 1 || c.len() % 16 != 0 || c.len() == 0 {
        None
    } else {
        match unpad(cbc_plaintext(keys.s_enc@, complement16(last_mac), c, c.len() / 16)) {
            Some(d) => if d.len() >= data.len() {
                None
            } else {
                Some(seq![data[0]] + d)
            },
            None => None,
        }
    }
}

/// Encrypts the payload of a message (what follows its code), from the
/// complement of `last_mac`; the code stays in clear.
pub fn seal_data(data: &Vec<u8>, keys: &SessionKeys, last_mac: &[u8; 16]) -> (r: Vec<u8>)
    requires
        1 <= data@.len() <= MAX_REPLY_DATA - 16,
    ensures
        r@ == seal_spec(data@, *keys, last_mac@),
        1 <= r@.len() <= data@.len() + 16,
{
    let payload = crate::bytes::copy_range(data.as_slice(), 1, data.len());
    let c = encrypt_payload(keys, last_mac, payload.as_slice());
    proof {
        lemma_padding_len(payload@.len());
    }
    let mut out: Vec<u8> = vec![data[0]];
    crate::bytes::extend_from(&mut out, c.as_slice(), 0, c.len());
    assert(c@.subrange(0, c@.len() as int) =~= c@);
    assert(out@ =~= seal_spec(data@, *keys, last_mac@));
    out
}

/// Padding adds 1 to 16 bytes.
proof fn lemma_padding_len(n: nat)
    ensures
        n + 1 <= ((n + 1 + 15) / 16) * 16 <= n + 16,
{
    assert(n + 1 <= ((n + 1 + 15) / 16) * 16 <= n + 16) by (nonlinear_arith);
}

/// Decrypts the payload of a message (see `seal_data`). Fails with
/// `OsdpError::Setup` on a bad length or padding.
pub fn open_data(data: &Vec<u8>, keys: &SessionKeys, last_mac: &[u8; 16]) -> (r: Result<Vec<u8>, OsdpError>)
    requires
        data@.len() <= MAX_FRAME_LEN,
    ensures
        match open_spec(data@, *keys, last_mac@) {
            Some(m) => r is Ok && r->Ok_0@ == m,
            None => r == Err::<Vec<u8>, OsdpError>(OsdpError::Setup),
        },
        r matches Ok(v) ==> v@.len() >= 1 && v@.len() <= data@.len() && v@[0] == data@[0],
{
    if data.len() < 1 {
        return Err(OsdpError::Setup);
    }
    let c = crate::bytes::copy_range(data.as_slice(), 1, data.len());
    let payload = decrypt_payload(keys, last_mac, c.as_slice())?;
    if payload.len() >= data.len() {
        return Err(OsdpError::Setup);
    }
    let mut out: Vec<u8> = vec![data[0]];
    crate::bytes::extend_from(&mut out, payload.as_slice(), 0, payload.len());
    assert(payload@.subrange(0, payload@.len() as int) =~= payload@);
    assert(out@ =~= seq![data@[0]] + payload@);
    Ok(out)
}

/// Builds a MAC-protected frame and moves the session's rolling MAC on: a
/// message from the CP (`SCS_15`) chains from the last R-MAC and becomes the
/// last C-MAC; one from the PD (`SCS_16`) the other way round.
pub fn secure_frame_of(
    address: u8,
    seq: u8,
    use_crc: bool,
    from_cp: bool,
    encrypted: bool,
    data: Vec<u8>,
    session: &mut SecureSession,
) -> (r: Vec<u8>)
    requires
        seq <= 3,
        1 <= data@.len() <= MAX_REPLY_DATA,
    ensures
        final(session).keys == old(session).keys,
        from_cp ==> final(session).r_mac == old(session).r_mac,
        !from_cp ==> final(session).c_mac == old(session).c_mac,
        ({
            let scs = secure_type(from_cp, encrypted);
            let input = mac_input(secure_packet(address, seq, use_crc, scs, data@, seq![0u8, 0u8, 0u8, 0u8]));
            let m = if from_cp {
                final(session).c_mac@
            } else {
                final(session).r_mac@
            };
            &&& m == message_mac(
                old(session).keys,
                if from_cp {
                    old(session).r_mac@
                } else {
                    old(session).c_mac@
                },
                input,
            )
            &&& r@ == frame_bytes(secure_packet(address, seq, use_crc, scs, data@, mac4(m)))
        }),
{
    let scs: u8 = if from_cp {
        if encrypted { SCS_17 } else { SCS_15 }
    } else {
        if encrypted { SCS_18 } else { SCS_16 }
    };
    let ghost d = data@;
    let mut p = OsdpPacket { address, seq, use_crc, scb: vec![2u8, scs], data, mac: vec![0u8, 0u8, 0u8, 0u8] };
    assert(frame_len(p@) <= MAX_FRAME_LEN);
    let input = mac_input_bytes(&p);
    let m = if from_cp {
        session.mac_command(input.as_slice())
    } else {
        session.mac_reply(input.as_slice())
    };
    p.mac = vec![m[0], m[1], m[2], m[3]];
    assert(p.mac@ =~= mac4(if from_cp { session.c_mac@ } else { session.r_mac@ }));
    assert(p@ == secure_packet(address, seq, use_crc, scs, d, p.mac@));
    assert(mac_input(p@) == input@);
    assert(packet_wf(p@));
    match build_frame(&p) {
        Ok(v) => v,
        Err(_) => {
            assert(false);
            Vec::new()
        },
    }
}

/// Checks the MAC of a received MAC-protected packet and, when it matches,
/// moves the session's rolling MAC on (see `secure_frame_of`).
pub fn check_secure_packet(p: &OsdpPacket, from_cp: bool, session: &mut SecureSession) -> (r: bool)
    requires
        packet_wf(p@),
    ensures
        final(session).keys == old(session).keys,
        ({
            let iv = if from_cp {
                old(session).r_mac@
            } else {
                old(session).c_mac@
            };
            let m = message_mac(old(session).keys, iv, mac_input(p@));
            &&& r == (p.mac@ == mac4(m))
            &&& r ==> (if from_cp {
                final(session).c_mac@ == m && final(session).r_mac == old(session).r_mac
            } else {
                final(session).r_mac@ == m && final(session).c_mac == old(session).c_mac
            })
            &&& !r ==> *final(session) == *old(session)
        }),
{
    let input = mac_input_bytes(p);
    let mut trial = *session;
    let m = if from_cp {
        trial.mac_command(input.as_slice())
    } else {
        trial.mac_reply(input.as_slice())
    };
    let ok = p.mac.len() == 4 && p.mac[0] == m[0] && p.mac[1] == m[1] && p.mac[2] == m[2]
        && p.mac[3] == m[3];
    proof {
        if ok {
            assert(p.mac@ =~= m@);
        } else if p.mac@.len() == 4 {
            assert(p.mac@ != m@ ==> exists|i: int| 0 <= i < 4 && p.mac@[i] != m@[i]);
        }
    }
    if ok {
        *session = trial;
    }
    ok
}

} // verus!
