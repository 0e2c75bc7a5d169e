//! Framing: `SOM | address | length (LE16) | control | data | check`.
//!
//! The length counts the whole frame. The check is a one-byte checksum, or
//! a CRC-16 (polynomial 0x1021, seed 0x1D0F, no reflection) sent least
//! significant byte first when the control byte asks for it. Under a secure
//! channel a secure block `length | type | data` precedes the data, and
//! for the message types that carry one a 4-byte MAC follows it.
use vstd::prelude::*;
use crate::bytes::{le16_at, push_u16_le, u16_le_bytes};
use crate::error::OsdpError;

verus! {

/// Start of message.
pub const SOM: u8 = 0x53;
/// Largest frame, in bytes.
pub const MAX_FRAME_LEN: usize = 256;
/// Address reserved for broadcast.
pub const BROADCAST_ADDR: u8 = 0x7F;
/// Bit set in the address of a reply from a PD.
pub const REPLY_ADDR_BIT: u8 = 0x80;
/// Control byte: sequence number bits.
pub const CTRL_SEQ_MASK: u8 = 0x03;
/// Control byte: a CRC-16 (not a checksum) ends the frame.
pub const CTRL_CRC: u8 = 0x04;
/// Control byte: a secure block follows the control byte.
pub const CTRL_SCB: u8 = 0x08;
/// Bytes before the data: SOM, address, two length bytes, control.
pub const HEADER_LEN: usize = 5;

/// A packet: what a frame carries.
#[derive(Clone, Debug, PartialEq, Eq)]
pub struct OsdpPacket {
    /// Address byte (PD address; replies also set `REPLY_ADDR_BIT`)
    pub address: u8,
    /// Sequence number, 0 to 3
    pub seq: u8,
    /// Whether the frame ends with a CRC-16 rather than a checksum
    pub use_crc: bool,
    /// Secure block (length, type, data); empty when there is none
    pub scb: Vec<u8>,
    /// Opcode or reply code, then payload
    pub data: Vec<u8>,
    /// MAC bytes; empty unless the secure block type carries a MAC
    pub mac: Vec<u8>,
}

/// What a packet holds.
pub struct PacketView {
    pub address: u8,
    pub seq: u8,
    pub use_crc: bool,
    pub scb: Seq<u8>,
    pub data: Seq<u8>,
    pub mac: Seq<u8>,
}

impl View for OsdpPacket {
    type V = PacketView;

    open spec fn view(&self) -> PacketView {
        PacketView {
            address: self.address,
            seq: self.seq,
            use_crc: self.use_crc,
            scb: self.scb@,
            data: self.data@,
            mac: self.mac@,
        }
    }
}

/// Why bytes are not a frame.
#[derive(Clone, Copy, Debug, PartialEq, Eq)]
pub enum FrameError {
    /// More bytes are needed
    Incomplete,
    /// The first byte is not SOM
    BadSom,
    /// The length field is too small for a frame
    BadLength,
    /// The length field exceeds `MAX_FRAME_LEN`
    TooLong,
    /// The checksum or CRC does not match
    BadCheck,
}

/// Length of the MAC that follows the data for a secure block: 4 bytes for
/// the types 0x15 to 0x18, none otherwise.
pub open spec fn mac_len_of(scb: Seq<u8>) -> nat {
    if scb.len() >= 2 && 0x15 <= scb[1] <= 0x18 {
        4
    } else {
        0
    }
}

/// Sum of bytes.
pub open spec fn byte_sum(s: Seq<u8>) -> nat
    decreases s.len(),
{
    if s.len() == 0 {
        0
    } else {
        byte_sum(s.drop_last()) + s.last() as nat
    }
}

/// Checksum byte: the bytes and it sum to zero modulo 256.
pub open spec fn checksum(s: Seq<u8>) -> u8 {
    ((256 - byte_sum(s) % 256) % 256) as u8
}

/// One bit step of the CRC.
pub open spec fn crc_bit(crc: u16) -> u16 {
    if crc & 0x8000u16 != 0 {
        ((crc << 1u16) ^ 0x1021u16) as u16
    } else {
        (crc << 1u16) as u16
    }
}

/// `k` bit steps of the CRC.
pub open spec fn crc_bits(crc: u16, k: nat) -> u16
    decreases k,
{
    if k == 0 {
        crc
    } else {
        crc_bit(crc_bits(crc, (k - 1) as nat))
    }
}

/// The CRC after one more byte.
pub open spec fn crc_byte(crc: u16, b: u8) -> u16 {
    crc_bits(crc ^ ((b as u16) << 8u16), 8)
}

/// CRC-16 of the bytes (polynomial 0x1021, seed 0x1D0F).
pub open spec fn crc16(s: Seq<u8>) -> u16
    decreases s.len(),
{
    if s.len() == 0 {
        0x1D0F
    } else {
        crc_byte(crc16(s.drop_last()), s.last())
    }
}

/// Length of the check at the end of a frame.
pub open spec fn check_len(use_crc: bool) -> nat {
    if use_crc {
        2
    } else {
        1
    }
}

/// Length of the frame that carries `p`.
pub open spec fn frame_len(p: PacketView) -> nat {
    (HEADER_LEN + p.scb.len() + p.data.len() + p.mac.len() + check_len(p.use_crc)) as nat
}

/// Control byte of the frame that carries `p`.
pub open spec fn ctrl_byte(p: PacketView) -> u8 {
    (p.seq + (if p.use_crc {
        CTRL_CRC
    } else {
        0
    }) + (if p.scb.len() > 0 {
        CTRL_SCB
    } else {
        0
    })) as u8
}

/// A packet that a frame can carry: its sequence number fits two bits, it
/// holds an opcode, its frame is at most `MAX_FRAME_LEN` bytes, a secure
/// block starts with its own length (at least 2), and the MAC has the
/// length its secure block type asks for.
pub open spec fn packet_wf(p: PacketView) -> bool {
    &&& p.seq <= 3
    &&& p.data.len() >= 1
    &&& frame_len(p) <= MAX_FRAME_LEN
    &&& (p.scb.len() == 0 || (p.scb.len() >= 2 && p.scb[0] == p.scb.len()))
    &&& p.mac.len() == mac_len_of(p.scb)
}

/// The check bytes for the frame bytes `body`.
pub open spec fn check_bytes(body: Seq<u8>, use_crc: bool) -> Seq<u8> {
    if use_crc {
        u16_le_bytes(crc16(body))
    } else {
        seq![checksum(body)]
    }
}

/// The frame bytes that a MAC covers: header, secure block and data.
pub open spec fn mac_input(p: PacketView) -> Seq<u8> {
    seq![SOM, p.address, (frame_len(p) % 256) as u8, (frame_len(p) / 256) as u8, ctrl_byte(p)]
        + p.scb + p.data
}

/// The frame bytes before the check.
pub open spec fn frame_body(p: PacketView) -> Seq<u8> {
    mac_input(p) + p.mac
}

/// The frame that carries `p`.
pub open spec fn frame_bytes(p: PacketView) -> Seq<u8> {
    frame_body(p) + check_bytes(frame_body(p), p.use_crc)
}

/// The packet in the frame at the start of `b`, or why there is none.
/// Bytes after the frame's length are not looked at.
pub open spec fn parse_frame(b: Seq<u8>) -> Result<PacketView, FrameError> {
    if b.len() < HEADER_LEN {
        Err(FrameError::Incomplete)
    } else if b[0] != SOM {
        Err(FrameError::BadSom)
    } else {
        let len = le16_at(b, 2) as nat;
        let ctrl = b[4];
        let use_crc = ctrl & CTRL_CRC != 0;
        let chk = check_len(use_crc);
        if len > MAX_FRAME_LEN {
            Err(FrameError::TooLong)
        } else if len < HEADER_LEN + 1 + chk {
            Err(FrameError::BadLength)
        } else if b.len() < len {
            Err(FrameError::Incomplete)
        } else {
            let body = b.subrange(0, len - chk);
            if b.subrange(len - chk, len as int) != check_bytes(body, use_crc) {
                Err(FrameError::BadCheck)
            } else if ctrl & CTRL_SCB == 0 {
                Ok(
                    PacketView {
                        address: b[1],
                        seq: ctrl & CTRL_SEQ_MASK,
                        use_crc,
                        scb: Seq::empty(),
                        data: b.subrange(HEADER_LEN as int, len - chk),
                        mac: Seq::empty(),
                    },
                )
            } else {
                let sl = b[5] as int;
                if sl < 2 || HEADER_LEN + sl + 1 + chk > len {
                    Err(FrameError::BadLength)
                } else {
                    let scb = b.subrange(5, 5 + sl);
                    let ml = mac_len_of(scb) as int;
                    if HEADER_LEN + sl + 1 + ml + chk > len {
                        Err(FrameError::BadLength)
                    } else {
                        Ok(
                            PacketView {
                                address: b[1],
                                seq: ctrl & CTRL_SEQ_MASK,
                                use_crc,
                                scb,
                                data: b.subrange(5 + sl, len - chk - ml),
                                mac: b.subrange(len - chk - ml, len - chk),
                            },
                        )
                    }
                }
            }
        }
    }
}

/// Checksum of `b[from..to]`.
pub fn compute_checksum(b: &[u8], from: usize, to: usize) -> (r: u8)
    requires
        from <= to <= b@.len(),
    ensures
        r == checksum(b@.subrange(from as int, to as int)),
{
    let mut acc: u8 = 0;
    let mut i = from;
    assert(b@.subrange(from as int, from as int).len() == 0);
    while i < to
        invariant
            from <= i <= to <= b@.len(),
            acc as nat == byte_sum(b@.subrange(from as int, i as int)) % 256,
        decreases to - i,
    {
        let ghost s = b@.subrange(from as int, i + 1);
        assert(s.drop_last() =~= b@.subrange(from as int, i as int));
        acc = ((acc as u16 + b[i] as u16) % 256) as u8;
        i += 1;
    }
    ((256 - acc as u16) % 256) as u8
}

/// The CRC after one more byte.
pub fn compute_crc_byte(crc: u16, b: u8) -> (r: u16)
    ensures
        r == crc_byte(crc, b),
{
    let start: u16 = crc ^ ((b as u16) << 8u16);
    let mut c: u16 = start;
    let mut j: usize = 0;
    while j < 8
        invariant
            j <= 8,
            c == crc_bits(start, j as nat),
        decreases 8 - j,
    {
        c = if c & 0x8000u16 != 0 {
            (c << 1u16) ^ 0x1021u16
        } else {
            c << 1u16
        };
        j += 1;
    }
    c
}

/// CRC-16 of `b[from..to]`.
pub fn compute_crc16(b: &[u8], from: usize, to: usize) -> (r: u16)
    requires
        from <= to <= b@.len(),
    ensures
        r == crc16(b@.subrange(from as int, to as int)),
{
    let mut acc: u16 = 0x1D0F;
    let mut i = from;
    assert(b@.subrange(from as int, from as int).len() == 0);
    while i < to
        invariant
            from <= i <= to <= b@.len(),
            acc == crc16(b@.subrange(from as int, i as int)),
        decreases to - i,
    {
        let ghost s = b@.subrange(from as int, i + 1);
        assert(s.drop_last() =~= b@.subrange(from as int, i as int));
        acc = compute_crc_byte(acc, b[i]);
        i += 1;
    }
    acc
}


/// Facts about the control byte of a well-formed packet.
proof fn lemma_ctrl_byte(p: PacketView)
    requires
        p.seq <= 3,
    ensures
        (ctrl_byte(p) & CTRL_CRC != 0) == p.use_crc,
        (ctrl_byte(p) & CTRL_SCB != 0) == (p.scb.len() > 0),
        ctrl_byte(p) & CTRL_SEQ_MASK == p.seq,
{
    let s = p.seq;
    let c: u8 = if p.use_crc { 4 } else { 0 };
    let k: u8 = if p.scb.len() > 0 { 8 } else { 0 };
    assert(((s + c + k) as u8) & 4u8 == c && ((s + c + k) as u8) & 8u8 == k && ((s + c + k) as u8)
        & 3u8 == s) by (bit_vector)
        requires
            s <= 3,
            c == 0 || c == 4,
            k == 0 || k == 8,
    ;
}

/// A frame that the framer builds parses back to its packet, whatever
/// bytes follow it.
pub proof fn lemma_frame_round_trip(p: PacketView, rest: Seq<u8>)
    requires
        packet_wf(p),
    ensures
        parse_frame(frame_bytes(p) + rest) == Ok::<PacketView, FrameError>(p),
{
    let body = frame_body(p);
    let f = frame_bytes(p);
    let b = f + rest;
    let len = frame_len(p);
    let chk = check_len(p.use_crc);
    lemma_ctrl_byte(p);
    assert(b.subrange(2, 4) =~= u16_le_bytes(len as u16));
    crate::bytes::lemma_u16_le_round_trip(len as u16, b, 2);
    assert(b[0] == SOM);
    assert(b[4] == ctrl_byte(p));
    assert(b.subrange(0, len - chk) =~= body);
    assert(b.subrange(len - chk, len as int) =~= check_bytes(body, p.use_crc));
    let sl = p.scb.len() as int;
    let ml = p.mac.len() as int;
    if sl > 0 {
        assert(b[5] == p.scb[0]);
        assert(b.subrange(5, 5 + sl) =~= p.scb);
    }
    assert(b.subrange(5 + sl, len - chk - ml) =~= p.data);
    assert(b.subrange(len - chk - ml, len - chk) =~= p.mac);
    if sl == 0 {
        assert(b.subrange(HEADER_LEN as int, len - chk) =~= p.data);
        assert(p.scb =~= Seq::<u8>::empty());
        assert(p.mac =~= Seq::<u8>::empty());
    }
}

/// Whether `p` is well formed (see `packet_wf`).
pub fn packet_is_wf(p: &OsdpPacket) -> (r: bool)
    ensures
        r == packet_wf(p@),
{
    let chk: usize = if p.use_crc { 2 } else { 1 };
    let sl = p.scb.len();
    let scb_ok = sl == 0 || (sl >= 2 && p.scb[0] as usize == sl);
    let ml: usize = if sl >= 2 && 0x15 <= p.scb[1] && p.scb[1] <= 0x18 { 4 } else { 0 };
    if p.seq > 3 || p.data.len() < 1 || !scb_ok || p.mac.len() != ml {
        return false;
    }
    if sl > MAX_FRAME_LEN || p.data.len() > MAX_FRAME_LEN || p.mac.len() > MAX_FRAME_LEN {
        return false;
    }
    HEADER_LEN + sl + p.data.len() + p.mac.len() + chk <= MAX_FRAME_LEN
}

/// The bytes that a MAC covers (see `mac_input`), for a packet whose frame
/// fits.
pub fn mac_input_bytes(p: &OsdpPacket) -> (r: Vec<u8>)
    requires
        p.seq <= 3,
        frame_len(p@) <= MAX_FRAME_LEN,
    ensures
        r@ == mac_input(p@),
{
    let chk: usize = if p.use_crc { 2 } else { 1 };
    let len: usize = HEADER_LEN + p.scb.len() + p.data.len() + p.mac.len() + chk;
    let ctrl: u8 = p.seq + (if p.use_crc { CTRL_CRC } else { 0 }) + (if p.scb.len() > 0 {
        CTRL_SCB
    } else {
        0
    });
    let mut out: Vec<u8> = Vec::new();
    out.push(SOM);
    out.push(p.address);
    push_u16_le(&mut out, len as u16);
    out.push(ctrl);
    crate::bytes::extend_from(&mut out, p.scb.as_slice(), 0, p.scb.len());
    crate::bytes::extend_from(&mut out, p.data.as_slice(), 0, p.data.len());
    assert(p.scb@.subrange(0, p.scb@.len() as int) =~= p.scb@);
    assert(p.data@.subrange(0, p.data@.len() as int) =~= p.data@);
    assert(out@ =~= mac_input(p@));
    out
}

/// Builds the frame that carries `p`. Fails with `OsdpError::Frame` exactly
/// when the packet is not well formed (see `packet_wf`): among others, when
/// its frame would exceed `MAX_FRAME_LEN` bytes.
pub fn build_frame(p: &OsdpPacket) -> (r: Result<Vec<u8>, OsdpError>)
    ensures
        match r {
            Ok(v) => packet_wf(p@) && v@ == frame_bytes(p@),
            Err(e) => !packet_wf(p@) && e == OsdpError::Frame,
        },
{
    if !packet_is_wf(p) {
        return Err(OsdpError::Frame);
    }
    let mut out = mac_input_bytes(p);
    crate::bytes::extend_from(&mut out, p.mac.as_slice(), 0, p.mac.len());
    assert(p.mac@.subrange(0, p.mac@.len() as int) =~= p.mac@);
    assert(out@ =~= frame_body(p@));
    let body_len = out.len();
    if p.use_crc {
        let crc = compute_crc16(out.as_slice(), 0, body_len);
        assert(out@.subrange(0, body_len as int) =~= frame_body(p@));
        push_u16_le(&mut out, crc);
    } else {
        let c = compute_checksum(out.as_slice(), 0, body_len);
        assert(out@.subrange(0, body_len as int) =~= frame_body(p@));
        out.push(c);
    }
    assert(out@ =~= frame_bytes(p@));
    Ok(out)
}

/// Parses the frame that starts at `b[off]`. On success returns the packet
/// and the frame's length.
pub fn parse_frame_at(b: &[u8], off: usize) -> (r: Result<(OsdpPacket, usize), FrameError>)
    requires
        off <= b@.len(),
    ensures
        match r {
            Ok((p, n)) => parse_frame(b@.subrange(off as int, b@.len() as int)) == Ok::<
                PacketView,
                FrameError,
            >(p@) && n == frame_len(p@),
            Err(e) => parse_frame(b@.subrange(off as int, b@.len() as int)) == Err::<
                PacketView,
                FrameError,
            >(e),
        },
{
    let ghost s = b@.subrange(off as int, b@.len() as int);
    let avail = b.len() - off;
    if avail < HEADER_LEN {
        return Err(FrameError::Incomplete);
    }
    if b[off] != SOM {
        return Err(FrameError::BadSom);
    }
    let len = crate::bytes::read_u16_le(b, off + 2) as usize;
    assert(len == le16_at(s, 2));
    let ctrl = b[off + 4];
    let use_crc = ctrl & CTRL_CRC != 0;
    let chk: usize = if use_crc { 2 } else { 1 };
    if len > MAX_FRAME_LEN {
        return Err(FrameError::TooLong);
    }
    if len < HEADER_LEN + 1 + chk {
        return Err(FrameError::BadLength);
    }
    if avail < len {
        return Err(FrameError::Incomplete);
    }
    let body_end = off + len - chk;
    assert(s.subrange(0, len - chk) =~= b@.subrange(off as int, body_end as int));
    let ghost body = s.subrange(0, len - chk);
    let ghost got = s.subrange(len - chk, len as int);
    let ok = if use_crc {
        let crc = compute_crc16(b, off, body_end);
        let lo = b[body_end];
        let hi = b[body_end + 1];
        assert(got =~= seq![lo, hi]);
        lo == (crc % 256) as u8 && hi == (crc / 256) as u8
    } else {
        let c = compute_checksum(b, off, body_end);
        let x = b[body_end];
        assert(got =~= seq![x]);
        x == c
    };
    if !ok {
        proof {
            if got == check_bytes(body, use_crc) {
                assert(got[0] == check_bytes(body, use_crc)[0]);
                if use_crc {
                    assert(got[1] == check_bytes(body, use_crc)[1]);
                }
            }
        }
        return Err(FrameError::BadCheck);
    }
    assert(got =~= check_bytes(body, use_crc));
    if ctrl & CTRL_SCB == 0 {
        let data = crate::bytes::copy_range(b, off + HEADER_LEN, body_end);
        assert(data@ =~= s.subrange(HEADER_LEN as int, len - chk));
        return Ok(
            (
                OsdpPacket {
                    address: b[off + 1],
                    seq: ctrl & CTRL_SEQ_MASK,
                    use_crc,
                    scb: Vec::new(),
                    data,
                    mac: Vec::new(),
                },
                len,
            ),
        );
    }
    let sl = b[off + 5] as usize;
    if sl < 2 || HEADER_LEN + sl + 1 + chk > len {
        return Err(FrameError::BadLength);
    }
    let scb = crate::bytes::copy_range(b, off + 5, off + 5 + sl);
    assert(scb@ =~= s.subrange(5, 5 + sl));
    let t = b[off + 6];
    assert(scb@[1] == t);
    let ml: usize = if 0x15 <= t && t <= 0x18 { 4 } else { 0 };
    if HEADER_LEN + sl + 1 + ml + chk > len {
        return Err(FrameError::BadLength);
    }
    let data = crate::bytes::copy_range(b, off + 5 + sl, body_end - ml);
    assert(data@ =~= s.subrange(5 + sl, len - chk - ml));
    let mac = crate::bytes::copy_range(b, body_end - ml, body_end);
    assert(mac@ =~= s.subrange(len - chk - ml, len - chk));
    Ok((OsdpPacket { address: b[off + 1], seq: ctrl & CTRL_SEQ_MASK, use_crc, scb, data, mac }, len))
}

/// Index of the first SOM at or after `from`, or the length of `b`.
pub open spec fn first_som(b: Seq<u8>, from: int) -> int
    decreases b.len() - from,
{
    if from >= b.len() {
        b.len() as int
    } else if b[from] == SOM {
        from
    } else {
        first_som(b, from + 1)
    }
}

/// Index of the first SOM at or after `from`, or the length of `b`.
pub fn find_som(b: &[u8], from: usize) -> (r: usize)
    requires
        from <= b@.len(),
    ensures
        r == first_som(b@, from as int),
{
    let mut i = from;
    while i < b.len()
        invariant
            from <= i <= b@.len(),
            first_som(b@, i as int) == first_som(b@, from as int),
        decreases b@.len() - i,
    {
        if b[i] == SOM {
            return i;
        }
        i += 1;
    }
    i
}

/// What the receiver does with its buffer: drop its first `drop` bytes and,
/// if a frame was found, hand its packet on.
pub open spec fn receive_spec(b: Seq<u8>) -> (int, Option<PacketView>) {
    let i = first_som(b, 0);
    if i >= b.len() {
        (b.len() as int, None)
    } else {
        match parse_frame(b.subrange(i, b.len() as int)) {
            Ok(p) => (i + frame_len(p), Some(p)),
            Err(FrameError::Incomplete) => (i, None),
            Err(_) => (i + 1, None),
        }
    }
}

/// One step of the receiver over its buffer `b`: bytes before the first SOM
/// are dropped; a complete frame is dropped and its packet returned; a
/// partial frame is kept; a bad frame loses its SOM so that the next scan
/// starts after it.
pub fn receive(b: &[u8]) -> (r: (usize, Option<OsdpPacket>))
    ensures
        r.0 as int == receive_spec(b@).0,
        match (r.1, receive_spec(b@).1) {
            (Some(p), Some(q)) => p@ == q,
            (None, None) => true,
            _ => false,
        },
        r.0 <= b@.len(),
{
    let i = find_som(b, 0);
    if i >= b.len() {
        return (b.len(), None);
    }
    match parse_frame_at(b, i) {
        Ok((p, n)) => {
            proof {
                let s = b@.subrange(i as int, b@.len() as int);
                assert(frame_len(p@) <= s.len());
            }
            (i + n, Some(p))
        },
        Err(FrameError::Incomplete) => (i, None),
        Err(_) => (i + 1, None),
    }
}

/// The frame size limit: a packet whose frame is exactly `MAX_FRAME_LEN`
/// bytes goes through, one byte more cannot be built, and a frame whose
/// length field is over the limit is refused.
pub proof fn lemma_frame_size_limit(p: PacketView, b: Seq<u8>)
    requires
        p.seq <= 3,
        p.data.len() >= 1,
        p.scb.len() == 0,
        p.mac.len() == 0,
    ensures
        frame_len(p) == MAX_FRAME_LEN ==> parse_frame(frame_bytes(p)) == Ok::<
            PacketView,
            FrameError,
        >(p),
        frame_len(p) == MAX_FRAME_LEN + 1 ==> !packet_wf(p),
        b.len() >= HEADER_LEN && b[0] == SOM && le16_at(b, 2) > MAX_FRAME_LEN ==> parse_frame(b)
            == Err::<PacketView, FrameError>(FrameError::TooLong),
{
    if frame_len(p) == MAX_FRAME_LEN {
        lemma_frame_round_trip(p, Seq::empty());
        assert(frame_bytes(p) + Seq::<u8>::empty() =~= frame_bytes(p));
    }
}

} // verus!
