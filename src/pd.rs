//! The PD role: answer the frames that the CP sends, in plaintext or
//! under a secure channel.
use vstd::prelude::*;
use crate::aes::aes128_encrypt_spec;
use crate::commands::{parse_command, OsdpCommand};
use crate::error::OsdpError;
use crate::events::{event_bytes, event_wf, OsdpEvent};
use crate::flags::OsdpFlag;
use crate::frame::{
    frame_bytes, mac_input, packet_is_wf, packet_wf, OsdpPacket, PacketView, BROADCAST_ADDR,
};
use crate::pdcap::{caps_bytes, encode_capabilities, PdCapability, REPLY_PDCAP};
use crate::pdid::PdId;
use crate::reply::{
    check_secure_packet, frame_of, handshake_frame_of, mac4, open_data, reply_packet, seal_data,
    secure_frame_of, CMD_CAP, CMD_CHLNG, CMD_ID, CMD_POLL, CMD_SCRYPT, MAX_REPLY_DATA,
    NAK_BAD_MESSAGE, NAK_UNKNOWN_COMMAND, REPLY_ACK, REPLY_CCRYPT, REPLY_NAK, REPLY_RMAC_I, SCS_11,
    SCS_12, SCS_13, SCS_14, SCS_15, SCS_17,
};
use crate::sc::{
    message_mac, pd_answer_challenge, pd_check_server_cryptogram, select_scbk, PdHandshake,
    SecureSession,
};
use crate::cp::new_base_key;
use crate::sequence::{
    check_seq, check_seq_spec, classify_address, classify_address_spec, AddressMatch, SeqCheck,
};

verus! {

/// Most events that wait for the CP's next poll.
pub const EVENT_QUEUE_MAX: usize = 32;
/// Time without frames from the CP after which a PD drops the link, in
/// milliseconds. It is longer than a CP's whole round of polls over its
/// PDs, so a live link never drops; a CP that lost the link backs off
/// (see `retry_delay_ms`) until the PD has dropped it too and accepts
/// sequence number 0 again.
pub const PD_SILENCE_TIMEOUT_MS: u64 = 8000;
/// Most capabilities a PD advertises.
pub const MAX_CAPS: usize = 32;

/// A peripheral device: its setup and the state of its link to the CP.
pub struct PeripheralDevice {
    /// Address on the bus (below the broadcast address)
    pub address: u8,
    /// Setup flags
    pub flags: OsdpFlag,
    /// Identification reported to the CP
    pub id: PdId,
    /// Capabilities reported to the CP
    pub caps: Vec<PdCapability>,
    /// Sequence number of the last frame accepted; `None` after a link reset
    pub last_seq: Option<u8>,
    /// The last reply frame sent
    pub last_reply: Vec<u8>,
    /// Events waiting for a poll, oldest first
    pub events: Vec<OsdpEvent>,
    /// Secure channel base key
    pub scbk: [u8; 16],
    /// Client id sent in the handshake
    pub cuid: [u8; 8],
    /// Secure channel state
    pub sc: PdSecure,
    /// A command handed to the application, waiting for its verdict
    pub pending: Option<PendingCommand>,
}

/// A command handed to the application, and what its reply needs.
#[derive(Clone, Copy, Debug)]
pub struct PendingCommand {
    /// Sequence number of the request
    pub seq: u8,
    /// Whether the request ended with a CRC
    pub use_crc: bool,
    /// Session that MACs the reply, after the request's MAC; `None` in
    /// plaintext
    pub session: Option<SecureSession>,
    /// Whether the request was encrypted
    pub encrypted: bool,
    /// Base key that the command installs once accepted
    pub new_key: Option<[u8; 16]>,
}

/// Where a PD's secure channel is.
#[derive(Clone, Copy, Debug)]
pub enum PdSecure {
    /// No session
    Off,
    /// Challenge answered; waiting for the server cryptogram
    Handshake(PdHandshake),
    /// Session up
    Active(SecureSession),
}

/// The server cryptogram that a PD in handshake state `sc` expects: S-ENC
/// applied to RND.B then RND.A.
pub open spec fn expected_server_cryptogram(sc: PdSecure) -> Seq<u8> {
    match sc {
        PdSecure::Handshake(hs) => aes128_encrypt_spec(hs.keys.s_enc@, hs.rnd_b@ + hs.rnd_a@),
        _ => Seq::empty(),
    }
}

/// The session of an active secure channel.
pub open spec fn pd_session(sc: PdSecure) -> SecureSession {
    match sc {
        PdSecure::Active(s) => s,
        _ => arbitrary(),
    }
}

/// The handshake in progress.
pub open spec fn pd_handshake(sc: PdSecure) -> PdHandshake {
    match sc {
        PdSecure::Handshake(h) => h,
        _ => arbitrary(),
    }
}

/// Whether `p` is a MAC-protected request (SCS_15, or SCS_17 encrypted)
/// whose MAC the active session of `pd` accepts.
pub open spec fn secure_request_ok(pd: PeripheralDevice, p: PacketView) -> bool {
    let ss = pd_session(pd.sc);
    pd.sc is Active && p.scb.len() >= 2 && (p.scb[1] == SCS_15 || p.scb[1] == SCS_17) && p.mac
        == mac4(message_mac(ss.keys, ss.r_mac@, mac_input(p)))
}

/// The message a secure request `p` carries: its data, decrypted for
/// SCS_17; `None` when decryption fails.
pub open spec fn secure_message(pd: PeripheralDevice, p: PacketView) -> Option<Seq<u8>> {
    let ss = pd_session(pd.sc);
    if p.scb[1] == SCS_17 {
        crate::reply::open_spec(p.data, ss.keys, ss.r_mac@)
    } else {
        Some(p.data)
    }
}

/// Whether the message `m` installs a new 16-byte base key.
pub open spec fn rotates_key(m: Seq<u8>) -> bool {
    parse_command(m) is Some && parse_command(m)->Some_0 is KeySet && parse_command(
        m,
    )->Some_0->KeySet_0.key_type == 1 && parse_command(m)->Some_0->KeySet_0.data.len() == 16
}

/// Whether `p` is a challenge (SCS_11) that the PD `pd` takes: with its
/// own key, or with the default key when install mode allows it.
pub open spec fn challenge_ok(pd: PeripheralDevice, p: PacketView) -> bool {
    p.scb.len() >= 2 && p.scb[1] == SCS_11 && p.data.len() == 9 && p.data[0] == CMD_CHLNG && (
    !uses_default_key(p) || (pd.flags.bits & crate::flags::FLAG_INSTALL_MODE != 0 && pd.flags.bits
        & crate::flags::FLAG_ENFORCE_SECURE == 0))
}

/// Whether a challenge asks for the default key.
pub open spec fn uses_default_key(p: PacketView) -> bool {
    p.scb.len() >= 3 && p.scb[2] == 0
}

/// Whether `p` is a server cryptogram (SCS_13) that the handshake of `pd`
/// accepts.
pub open spec fn scrypt_ok(pd: PeripheralDevice, p: PacketView) -> bool {
    p.scb.len() >= 2 && p.scb[1] == SCS_13 && p.data.len() == 17 && p.data[0] == CMD_SCRYPT
        && pd.sc is Handshake && p.data.subrange(1, 17) == expected_server_cryptogram(pd.sc)
}

/// What an accepted packet `p` does to the PD `s` (now `t`), the command
/// handed out and the reply frame: plaintext requests are answered as
/// `pd_reply` says and end any session; a taken challenge is answered with
/// the client id, RND.B and the client cryptogram; a good server
/// cryptogram brings the session up and is answered with the initial
/// R-MAC; a secure request with a good MAC is answered MAC-protected (and
/// encrypted when the request was), moving both rolling MACs on; any other
/// secure packet gets a NAK and ends the session. Decoded commands are
/// handed out; a new base key ends the session.
pub open spec fn pd_response(
    s: PeripheralDevice,
    t: PeripheralDevice,
    p: PacketView,
    rnd_b: [u8; 8],
    cmd: Option<OsdpCommand>,
    reply: Seq<u8>,
) -> bool {
    let raddr = (s.address | crate::frame::REPLY_ADDR_BIT) as u8;
    &&& p.scb.len() == 0 ==> {
        &&& t.events@ == pd_events_after(s, p.data)
        &&& t.sc is Off
        &&& match cmd {
            Some(c) => parse_command(p.data) == Some(c@) && t.pending == Some(
                PendingCommand {
                    seq: p.seq,
                    use_crc: p.use_crc,
                    session: None,
                    encrypted: false,
                    new_key: None,
                },
            ),
            None => parse_command(p.data) is None && t.pending is None && reply == frame_bytes(
                reply_packet(s.address, p.seq, p.use_crc, pd_reply(s, p.data)),
            ),
        }
    }
    &&& (p.scb.len() > 0 && challenge_ok(s, p)) ==> {
        let h = pd_handshake(t.sc);
        &&& t.sc is Handshake
        &&& h.rnd_a@ == p.data.subrange(1, 9)
        &&& h.rnd_b == rnd_b
        &&& crate::sc::keys_match(
            h.keys,
            if uses_default_key(p) {
                crate::sc::default_scbk()
            } else {
                s.scbk@
            },
            h.rnd_a@,
        )
        &&& reply == frame_bytes(
            crate::reply::handshake_packet(
                raddr,
                p.seq,
                p.use_crc,
                SCS_12,
                if uses_default_key(p) {
                    0
                } else {
                    1
                },
                seq![REPLY_CCRYPT] + s.cuid@ + rnd_b@ + aes128_encrypt_spec(
                    h.keys.s_enc@,
                    h.rnd_a@ + rnd_b@,
                ),
            ),
        )
        &&& cmd is None
        &&& t.pending is None
    }
    &&& (p.scb.len() > 0 && scrypt_ok(s, p)) ==> {
        let ss = pd_session(t.sc);
        &&& t.sc is Active
        &&& ss.keys == pd_handshake(s.sc).keys
        &&& ss.r_mac@ == crate::sc::initial_rmac_spec(ss.keys, p.data.subrange(1, 17))
        &&& ss.c_mac == ss.r_mac
        &&& reply == frame_bytes(
            crate::reply::handshake_packet(
                raddr,
                p.seq,
                p.use_crc,
                SCS_14,
                1,
                seq![REPLY_RMAC_I] + ss.r_mac@,
            ),
        )
        &&& cmd is None
        &&& t.pending is None
    }
    &&& (p.scb.len() > 0 && secure_request_ok(s, p) && secure_message(s, p) is Some) ==> {
        let m = secure_message(s, p)->Some_0;
        let ss = pd_session(s.sc);
        let c = message_mac(ss.keys, ss.r_mac@, mac_input(p));
        let rd = pd_reply(s, m);
        let seal = p.scb[1] == SCS_17 && rd.len() > 1;
        let out = if seal {
            crate::reply::seal_spec(rd, ss.keys, c)
        } else {
            rd
        };
        let scs = crate::reply::secure_type(false, seal);
        let rm = message_mac(
            ss.keys,
            c,
            mac_input(
                crate::reply::secure_packet(raddr, p.seq, p.use_crc, scs, out, seq![0u8, 0u8, 0u8, 0u8]),
            ),
        );
        let tp = t.pending->Some_0;
        &&& t.events@ == pd_events_after(s, m)
        &&& t.sc is Active
        &&& pd_session(t.sc).keys == ss.keys
        &&& pd_session(t.sc).c_mac@ == c
        &&& match cmd {
            Some(x) => {
                &&& parse_command(m) == Some(x@)
                &&& t.pending is Some
                &&& tp.seq == p.seq && tp.use_crc == p.use_crc
                &&& tp.encrypted == (p.scb[1] == SCS_17)
                &&& tp.session == Some(pd_session(t.sc))
                &&& pd_session(t.sc).r_mac == ss.r_mac
                &&& (tp.new_key is Some <==> rotates_key(m))
                &&& rotates_key(m) ==> tp.new_key->Some_0@ == parse_command(m)->Some_0->KeySet_0.data
            },
            None => {
                &&& parse_command(m) is None
                &&& t.pending is None
                &&& reply == frame_bytes(crate::reply::secure_packet(raddr, p.seq, p.use_crc, scs, out, mac4(rm)))
                &&& pd_session(t.sc).r_mac@ == rm
            },
        }
    }
    &&& (p.scb.len() > 0 && !challenge_ok(s, p) && !scrypt_ok(s, p) && !(secure_request_ok(s, p)
        && secure_message(s, p) is Some)) ==> {
        &&& reply == frame_bytes(reply_packet(s.address, p.seq, p.use_crc, seq![REPLY_NAK, NAK_SC_COND]))
        &&& t.sc is Off
        &&& cmd is None
        &&& t.pending is None
    }
}

/// NAK reason: the secure channel check failed.
pub const NAK_SC_COND: u8 = 0x06;

/// What a PD does with one packet.
pub struct PdOutput {
    /// A command for the application
    pub command: Option<OsdpCommand>,
    /// The reply frame to send
    pub reply: Option<Vec<u8>>,
}

/// Whether `op` is the opcode of a command that `OsdpCommand` holds.
pub open spec fn is_command_opcode(op: u8) -> bool {
    op == crate::commands::CMD_LED || op == crate::commands::CMD_BUZ || op
        == crate::commands::CMD_TEXT || op == crate::commands::CMD_OUT || op
        == crate::commands::CMD_COMSET || op == crate::commands::CMD_KEYSET || op
        == crate::commands::CMD_MFG || op == crate::commands::CMD_FILETRANSFER || op
        == crate::commands::CMD_LSTAT || op == crate::commands::CMD_ISTAT || op
        == crate::commands::CMD_OSTAT
}

/// The data of the reply that a PD in state `pd` gives to the message `m`.
pub open spec fn pd_reply(pd: PeripheralDevice, m: Seq<u8>) -> Seq<u8> {
    if m == seq![CMD_POLL] {
        if pd.events@.len() > 0 {
            event_bytes(pd.events@[0]@)
        } else {
            seq![REPLY_ACK]
        }
    } else if m == seq![CMD_ID] {
        pd.id.spec_bytes()
    } else if m == seq![CMD_CAP] {
        seq![REPLY_PDCAP] + caps_bytes(pd.caps@)
    } else if parse_command(m) is Some {
        seq![REPLY_ACK]
    } else if m.len() > 0 && is_command_opcode(m[0]) {
        seq![REPLY_NAK, NAK_BAD_MESSAGE]
    } else {
        seq![REPLY_NAK, NAK_UNKNOWN_COMMAND]
    }
}

/// The events left after a PD in state `pd` answered the message `m`.
pub open spec fn pd_events_after(pd: PeripheralDevice, m: Seq<u8>) -> Seq<OsdpEvent> {
    if m == seq![CMD_POLL] && pd.events@.len() > 0 {
        pd.events@.subrange(1, pd.events@.len() as int)
    } else {
        pd.events@
    }
}

impl PeripheralDevice {
    /// A PD is well formed when its address is a PD address, its
    /// identification fits the wire, its capabilities and events fit their
    /// limits, every queued event can be encoded, and its last sequence
    /// number fits two bits.
    pub open spec fn wf(&self) -> bool {
        &&& self.address < BROADCAST_ADDR
        &&& self.id.wf()
        &&& self.caps@.len() <= MAX_CAPS
        &&& self.events@.len() <= EVENT_QUEUE_MAX
        &&& forall|i: int| 0 <= i < self.events@.len() ==> event_wf(#[trigger] self.events@[i]@)
        &&& self.last_seq matches Some(l) ==> l <= 3
        &&& self.pending matches Some(pc) ==> pc.seq <= 3
    }

    /// A PD with the given setup and a freshly reset link. Fails with
    /// `OsdpError::PdInfo("PD address, id or capabilities")` when the address is not below the broadcast
    /// address, the identification does not fit the wire, or there are
    /// more than `MAX_CAPS` capabilities.
    pub fn new(address: u8, flags: OsdpFlag, id: PdId, caps: Vec<PdCapability>, scbk: [u8; 16]) -> (r: Result<
        Self,
        OsdpError,
    >)
        ensures
            (address < BROADCAST_ADDR && id.wf() && caps@.len() <= MAX_CAPS) <==> r is Ok,
            r is Err ==> (r is Err && r->Err_0 is PdInfo),
            r matches Ok(pd) ==> pd.wf() && pd.address == address && pd.flags == flags && pd.id
                == id && pd.caps@ == caps@ && pd.last_seq is None && pd.events@.len() == 0
                && pd.scbk == scbk && pd.sc is Off,
    {
        if address >= BROADCAST_ADDR || id.version < 0 || id.version >= 256 || id.model < 0
            || id.model >= 256 || caps.len() > MAX_CAPS {
            return Err(OsdpError::PdInfo("PD address, id or capabilities"));
        }
        Ok(
            PeripheralDevice {
                address,
                flags,
                id,
                caps,
                last_seq: None,
                last_reply: Vec::new(),
                events: Vec::new(),
                scbk,
                cuid: [
                    id.vendor_code.0,
                    id.vendor_code.1,
                    id.vendor_code.2,
                    id.model as u8,
                    id.serial_number[0],
                    id.serial_number[1],
                    id.serial_number[2],
                    id.serial_number[3],
                ],
                sc: PdSecure::Off,
                pending: None,
            },
        )
    }

    /// Queues an event for the CP's next poll. Fails with
    /// `OsdpError::Event` when the event cannot be encoded or the queue is
    /// full.
    pub fn notify_event(&mut self, event: OsdpEvent) -> (r: Result<(), OsdpError>)
        requires
            old(self).wf(),
        ensures
            final(self).wf(),
            (event_wf(event@) && old(self).events@.len() < EVENT_QUEUE_MAX) <==> r is Ok,
            r is Ok ==> final(self).events@ == old(self).events@.push(event),
            r is Err ==> r == Err::<(), OsdpError>(OsdpError::Event) && *final(self) == *old(self),
            final(self).address == old(self).address,
            final(self).last_seq == old(self).last_seq,
    {
        if !event.is_encodable() || self.events.len() >= EVENT_QUEUE_MAX {
            return Err(OsdpError::Event);
        }
        self.events.push(event);
        proof {
            assert forall|i: int| 0 <= i < self.events@.len() implies event_wf(
                #[trigger] self.events@[i]@,
            ) by {
                if i < old(self).events@.len() {
                    assert(self.events@[i] == old(self).events@[i]);
                }
            }
        }
        Ok(())
    }

    /// Drops every event waiting for a poll.
    pub fn flush_events(&mut self)
        requires
            old(self).wf(),
        ensures
            final(self).wf(),
            final(self).events@.len() == 0,
            final(self).address == old(self).address,
            final(self).last_seq == old(self).last_seq,
    {
        self.events = Vec::new();
    }

    /// Replaces the advertised capabilities; fails with `OsdpError::PdInfo("PD address, id or capabilities")`
    /// (and changes nothing) when there are more than `MAX_CAPS`.
    pub fn set_capabilities(&mut self, caps: Vec<PdCapability>) -> (r: Result<(), OsdpError>)
        requires
            old(self).wf(),
        ensures
            final(self).wf(),
            (caps@.len() <= MAX_CAPS) <==> r is Ok,
            r is Ok ==> final(self).caps@ == caps@,
            r is Err ==> *final(self) == *old(self),
            final(self).address == old(self).address,
            final(self).events == old(self).events,
            final(self).last_seq == old(self).last_seq,
    {
        if caps.len() > MAX_CAPS {
            return Err(OsdpError::PdInfo("PD address, id or capabilities"));
        }
        self.caps = caps;
        Ok(())
    }

    /// Whether the link to the CP is up: a frame was accepted since the
    /// last reset.
    pub fn is_online(&self) -> (r: bool)
        ensures
            r == self.last_seq is Some,
    {
        self.last_seq.is_some()
    }

    /// Whether a secure channel session is up.
    pub fn is_sc_active(&self) -> (r: bool)
        ensures
            r == self.sc is Active,
    {
        match self.sc {
            PdSecure::Active(_) => true,
            _ => false,
        }
    }

    /// Forgets the link state, as after a silence timeout: the next frame
    /// must carry sequence number 0.
    pub fn reset_link(&mut self)
        requires
            old(self).wf(),
        ensures
            final(self).wf(),
            final(self).last_seq is None,
            final(self).address == old(self).address,
            final(self).events == old(self).events,
            final(self).sc is Off,
            final(self).pending is None,
    {
        self.last_seq = None;
        self.last_reply = Vec::new();
        self.sc = PdSecure::Off;
        self.pending = None;
    }

    /// The reply data for the message `m` (see `pd_reply`), taking a polled
    /// event off the queue.
    fn answer(&mut self, m: &Vec<u8>) -> (r: (Option<OsdpCommand>, Vec<u8>))
        requires
            old(self).wf(),
        ensures
            final(self).wf(),
            r.1@ == pd_reply(*old(self), m@),
            1 <= r.1@.len() <= MAX_REPLY_DATA - 16,
            final(self).events@ == pd_events_after(*old(self), m@),
            final(self).address == old(self).address,
            final(self).last_seq == old(self).last_seq,
            final(self).id == old(self).id,
            final(self).caps == old(self).caps,
            final(self).flags == old(self).flags,
            final(self).scbk == old(self).scbk,
            final(self).cuid == old(self).cuid,
            final(self).sc == old(self).sc,
            final(self).pending == old(self).pending,
            final(self).last_reply == old(self).last_reply,
            match r.0 {
                Some(c) => parse_command(m@) == Some(c@),
                None => parse_command(m@) is None,
            },
    {
        let n = m.len();
        if n == 1 && m[0] == CMD_POLL {
            assert(m@ =~= seq![CMD_POLL]);
            if self.events.len() > 0 {
                let e = self.events.remove(0);
                proof {
                    assert(event_wf(old(self).events@[0]@));
                    assert(self.events@ =~= old(self).events@.subrange(1, old(self).events@.len() as int));
                    assert forall|i: int| 0 <= i < self.events@.len() implies event_wf(
                        #[trigger] self.events@[i]@,
                    ) by {
                        assert(self.events@[i] == old(self).events@[i + 1]);
                    }
                }
                let v = e.encode();
                return (None, v);
            }
            let v: Vec<u8> = vec![REPLY_ACK];
            return (None, v);
        }
        if n == 1 && m[0] == CMD_ID {
            assert(m@ =~= seq![CMD_ID]);
            assert(!(m@ == seq![CMD_POLL]));
            return (None, self.id.encode());
        }
        if n == 1 && m[0] == CMD_CAP {
            assert(m@ =~= seq![CMD_CAP]);
            assert(!(m@ == seq![CMD_POLL]) && !(m@ == seq![CMD_ID]));
            proof {
                crate::pdcap::lemma_caps_round_trip(self.caps@);
            }
            return (None, encode_capabilities(&self.caps));
        }
        assert(!(m@ == seq![CMD_POLL]) && !(m@ == seq![CMD_ID]) && !(m@ == seq![CMD_CAP])) by {
            if m@ == seq![CMD_POLL] || m@ == seq![CMD_ID] || m@ == seq![CMD_CAP] {
                assert(m@.len() == 1);
            }
        }
        match OsdpCommand::decode(m.as_slice()) {
            Ok(c) => {
                let v: Vec<u8> = vec![REPLY_ACK];
                (Some(c), v)
            },
            Err(_) => {
                let known = n > 0 && is_command_opcode_exec(m[0]);
                let reason = if known { NAK_BAD_MESSAGE } else { NAK_UNKNOWN_COMMAND };
                let v: Vec<u8> = vec![REPLY_NAK, reason];
                (None, v)
            },
        }
    }

    /// The NAK frame for a failed secure channel check.
    fn sc_nak(&self, p: &OsdpPacket) -> (r: Vec<u8>)
        requires
            p.seq <= 3,
        ensures
            r@ == frame_bytes(reply_packet(self.address, p.seq, p.use_crc, seq![REPLY_NAK, NAK_SC_COND])),
    {
        let v: Vec<u8> = vec![REPLY_NAK, NAK_SC_COND];
        frame_of(self.address | crate::frame::REPLY_ADDR_BIT, p.seq, p.use_crc, v)
    }

    /// The reply frame to an accepted packet, and a command for the
    /// application; moves the secure channel on.
    fn respond(&mut self, p: &OsdpPacket, rnd_b: [u8; 8]) -> (r: (Option<OsdpCommand>, Vec<u8>))
        requires
            old(self).wf(),
            packet_wf(p@),
        ensures
            final(self).wf(),
            final(self).address == old(self).address,
            final(self).last_seq == old(self).last_seq,
            final(self).last_reply == old(self).last_reply,
            pd_response(*old(self), *final(self), p@, rnd_b, r.0, r.1@),
    {
        let raddr = self.address | crate::frame::REPLY_ADDR_BIT;
        self.pending = None;
        if p.scb.len() == 0 {
            self.sc = PdSecure::Off;
            let (command, data) = self.answer(&p.data);
            if command.is_some() {
                self.pending = Some(
                    PendingCommand {
                        seq: p.seq,
                        use_crc: p.use_crc,
                        session: None,
                        encrypted: false,
                        new_key: None,
                    },
                );
                return (command, Vec::new());
            }
            let frame = frame_of(raddr, p.seq, p.use_crc, data);
            return (command, frame);
        }
        let t = p.scb[1];
        if t == SCS_11 && p.data.len() == 9 && p.data[0] == CMD_CHLNG {
            let use_default = p.scb.len() >= 3 && p.scb[2] == 0;
            match select_scbk(self.flags, &self.scbk, use_default) {
                Ok(key) => {
                    let rnd_a: [u8; 8] = [
                        p.data[1],
                        p.data[2],
                        p.data[3],
                        p.data[4],
                        p.data[5],
                        p.data[6],
                        p.data[7],
                        p.data[8],
                    ];
                    assert(rnd_a@ =~= p.data@.subrange(1, 9));
                    let (hs, payload) = pd_answer_challenge(&key, &rnd_a, &rnd_b, &self.cuid);
                    self.sc = PdSecure::Handshake(hs);
                    let mut data: Vec<u8> = vec![REPLY_CCRYPT];
                    crate::bytes::extend_from(&mut data, payload.as_slice(), 0, payload.len());
                    assert(payload@.subrange(0, payload@.len() as int) =~= payload@);
                    assert(data@ =~= seq![REPLY_CCRYPT] + self.cuid@ + rnd_b@ + aes128_encrypt_spec(
                        hs.keys.s_enc@,
                        hs.rnd_a@ + rnd_b@,
                    ));
                    assert(key@ == if use_default { crate::sc::default_scbk() } else { self.scbk@ });
                    assert(challenge_ok(*old(self), p@));
                    let frame = handshake_frame_of(
                        raddr,
                        p.seq,
                        p.use_crc,
                        SCS_12,
                        if use_default { 0 } else { 1 },
                        data,
                    );
                    return (None, frame);
                },
                Err(_) => {
                    self.sc = PdSecure::Off;
                    return (None, self.sc_nak(p));
                },
            }
        }
        if t == SCS_13 && p.data.len() == 17 && p.data[0] == CMD_SCRYPT {
            if let PdSecure::Handshake(hs) = self.sc {
                let got = crate::bytes::copy_range(p.data.as_slice(), 1, 17);
                match pd_check_server_cryptogram(&hs, got.as_slice()) {
                    Ok((session, rmac)) => {
                        self.sc = PdSecure::Active(session);
                        let mut data: Vec<u8> = vec![REPLY_RMAC_I];
                        crate::bytes::extend_from(&mut data, &rmac, 0, 16);
                        assert(rmac@.subrange(0, 16) =~= rmac@);
                        assert(data@ =~= seq![REPLY_RMAC_I] + rmac@);
                        assert(got@ == p.data@.subrange(1, 17));
                        let frame = handshake_frame_of(raddr, p.seq, p.use_crc, SCS_14, 1, data);
                        return (None, frame);
                    },
                    Err(_) => {
                        self.sc = PdSecure::Off;
                        return (None, self.sc_nak(p));
                    },
                }
            }
        }
        if t == SCS_15 || t == SCS_17 {
            if let PdSecure::Active(session) = self.sc {
                let mut s = session;
                if check_secure_packet(p, true, &mut s) {
                    let encrypted = t == SCS_17;
                    let msg: Vec<u8> = if encrypted {
                        match open_data(&p.data, &s.keys, &s.r_mac) {
                            Ok(m) => m,
                            Err(_) => {
                                self.sc = PdSecure::Off;
                                return (None, self.sc_nak(p));
                            },
                        }
                    } else {
                        crate::bytes::copy_range(p.data.as_slice(), 0, p.data.len())
                    };
                    proof {
                        if !encrypted {
                            assert(msg@ =~= p.data@);
                        }
                    }
                    let (command, data) = self.answer(&msg);
                    if let Some(c) = &command {
                        let new_key = new_base_key(c);
                        self.sc = PdSecure::Active(s);
                        self.pending = Some(
                            PendingCommand {
                                seq: p.seq,
                                use_crc: p.use_crc,
                                session: Some(s),
                                encrypted,
                                new_key,
                            },
                        );
                        return (command, Vec::new());
                    }
                    let seal = encrypted && data.len() > 1;
                    let out_data = if seal {
                        seal_data(&data, &s.keys, &s.c_mac)
                    } else {
                        data
                    };
                    let frame = secure_frame_of(raddr, p.seq, p.use_crc, false, seal, out_data, &mut s);
                    self.sc = PdSecure::Active(s);
                    return (command, frame);
                }
            }
        }
        self.sc = PdSecure::Off;
        (None, self.sc_nak(p))
    }

    /// Handles one packet from the CP; `rnd_b` is a fresh random for a
    /// secure channel challenge. Packets that are not well formed, and
    /// packets for other PDs, are ignored. A plaintext broadcast is
    /// processed without sequence check and without reply: its command, if
    /// it decodes, is handed out and nothing else changes. For a packet
    /// addressed to this PD, a sequence number that is not the expected one
    /// brings the last reply again; one that follows a reset without being 0
    /// is dropped. An accepted packet is answered as `pd_response` says,
    /// except a decoded command: it is handed out, and its reply waits for
    /// the application's verdict (see `reply_command`).
    pub fn handle_packet(&mut self, p: &OsdpPacket, rnd_b: [u8; 8]) -> (r: PdOutput)
        requires
            old(self).wf(),
        ensures
            final(self).wf(),
            final(self).address == old(self).address,
            (!packet_wf(p@) || classify_address_spec(old(self).address, p.address)
                == AddressMatch::Other) ==> (r.reply is None && r.command is None && *final(self)
                == *old(self)),
            (packet_wf(p@) && classify_address_spec(old(self).address, p.address)
                == AddressMatch::Broadcast) ==> {
                &&& r.reply is None
                &&& *final(self) == *old(self)
                &&& p.scb@.len() == 0 ==> match r.command {
                    Some(c) => parse_command(p.data@) == Some(c@),
                    None => parse_command(p.data@) is None,
                }
                &&& p.scb@.len() > 0 ==> r.command is None
            },
            (packet_wf(p@) && classify_address_spec(old(self).address, p.address)
                == AddressMatch::Mine) ==> ({
                let v = check_seq_spec(old(self).last_seq, p.seq);
                &&& v == SeqCheck::Reject ==> r.reply is None && r.command is None && *final(self)
                    == *old(self)
                &&& v == SeqCheck::Resend ==> r.command is None && *final(self) == *old(self) && (
                r.reply matches Some(f) && f@ == old(self).last_reply@)
                &&& v == SeqCheck::Accept ==> {
                    &&& final(self).last_seq == Some(p.seq)
                    &&& r.command is Some ==> r.reply is None && final(self).last_reply
                        == old(self).last_reply
                    &&& r.command is None ==> (r.reply matches Some(f) && f@ == final(self).last_reply@)
                    &&& pd_response(*old(self), *final(self), p@, rnd_b, r.command, final(self).last_reply@)
                }
            }),
    {
        if !packet_is_wf(p) {
            return PdOutput { command: None, reply: None };
        }
        let whom = classify_address(self.address, p.address);
        match whom {
            AddressMatch::Other => {
                return PdOutput { command: None, reply: None };
            },
            AddressMatch::Broadcast => {
                if p.scb.len() == 0 {
                    if let Ok(c) = OsdpCommand::decode(p.data.as_slice()) {
                        return PdOutput { command: Some(c), reply: None };
                    }
                }
                return PdOutput { command: None, reply: None };
            },
            AddressMatch::Mine => {},
        }
        let verdict = check_seq(self.last_seq, p.seq);
        match verdict {
            SeqCheck::Reject => PdOutput { command: None, reply: None },
            SeqCheck::Resend => PdOutput { command: None, reply: Some(self.last_reply.clone()) },
            SeqCheck::Accept => {
                let (command, frame) = self.respond(p, rnd_b);
                self.last_seq = Some(p.seq);
                if command.is_some() {
                    return PdOutput { command, reply: None };
                }
                self.last_reply = frame.clone();
                PdOutput { command, reply: Some(frame) }
            },
        }
    }

    /// Replies to the waiting command with the verdict of the application:
    /// ACK when `accept`, else NAK with `reason`. Under a secure session the
    /// reply carries a MAC, and is encrypted when the request was. An
    /// accepted key set installs its key and ends the session. Without a
    /// waiting command, nothing happens.
    pub fn reply_command(&mut self, accept: bool, reason: u8) -> (r: Option<Vec<u8>>)
        requires
            old(self).wf(),
        ensures
            final(self).wf(),
            final(self).address == old(self).address,
            final(self).last_seq == old(self).last_seq,
            final(self).events == old(self).events,
            old(self).pending is None ==> r is None && *final(self) == *old(self),
            old(self).pending matches Some(pc) ==> {
                let rd = if accept {
                    seq![REPLY_ACK]
                } else {
                    seq![REPLY_NAK, reason]
                };
                let raddr = (old(self).address | crate::frame::REPLY_ADDR_BIT) as u8;
                &&& final(self).pending is None
                &&& r matches Some(f) && f@ == final(self).last_reply@
                &&& pc.session is None ==> final(self).last_reply@ == frame_bytes(
                    reply_packet(old(self).address, pc.seq, pc.use_crc, rd),
                )
                &&& pc.session matches Some(ss) ==> {
                    let seal = pc.encrypted && rd.len() > 1;
                    let out = if seal {
                        crate::reply::seal_spec(rd, ss.keys, ss.c_mac@)
                    } else {
                        rd
                    };
                    let scs = crate::reply::secure_type(false, seal);
                    let rm = message_mac(
                        ss.keys,
                        ss.c_mac@,
                        mac_input(
                            crate::reply::secure_packet(raddr, pc.seq, pc.use_crc, scs, out, seq![0u8, 0u8, 0u8, 0u8]),
                        ),
                    );
                    &&& final(self).last_reply@ == frame_bytes(
                        crate::reply::secure_packet(raddr, pc.seq, pc.use_crc, scs, out, mac4(rm)),
                    )
                    &&& !(accept && pc.new_key is Some) ==> (final(self).sc is Active && pd_session(
                        final(self).sc,
                    ).keys == ss.keys && pd_session(final(self).sc).c_mac == ss.c_mac
                        && pd_session(final(self).sc).r_mac@ == rm)
                }
                &&& (accept && pc.new_key is Some) ==> (final(self).scbk == pc.new_key->Some_0
                    && final(self).sc is Off)
                &&& !(accept && pc.new_key is Some) ==> final(self).scbk == old(self).scbk
            },
    {
        let pc = match self.pending {
            Some(pc) => pc,
            None => {
                return None;
            },
        };
        self.pending = None;
        let data: Vec<u8> = if accept {
            vec![REPLY_ACK]
        } else {
            vec![REPLY_NAK, reason]
        };
        assert(data@ =~= if accept {
            seq![REPLY_ACK]
        } else {
            seq![REPLY_NAK, reason]
        });
        let raddr = self.address | crate::frame::REPLY_ADDR_BIT;
        let frame = match pc.session {
            None => frame_of(raddr, pc.seq, pc.use_crc, data),
            Some(session) => {
                let mut s = session;
                let seal = pc.encrypted && data.len() > 1;
                let out = if seal {
                    seal_data(&data, &s.keys, &s.c_mac)
                } else {
                    data
                };
                let f = secure_frame_of(raddr, pc.seq, pc.use_crc, false, seal, out, &mut s);
                self.sc = PdSecure::Active(s);
                f
            },
        };
        if accept {
            if let Some(k) = pc.new_key {
                self.scbk = k;
                self.sc = PdSecure::Off;
            }
        }
        self.last_reply = frame.clone();
        Some(frame)
    }

    /// Drops the link when the CP has been silent for `idle_ms` milliseconds
    /// or more (`PD_SILENCE_TIMEOUT_MS`): the next frame must then carry
    /// sequence number 0, which is how a CP restarts a link. Returns whether
    /// it did.
    pub fn check_silence(&mut self, idle_ms: u64) -> (r: bool)
        requires
            old(self).wf(),
        ensures
            final(self).wf(),
            r == (idle_ms >= PD_SILENCE_TIMEOUT_MS),
            r ==> final(self).last_seq is None && final(self).sc is Off && final(self).pending is None
                && final(self).address == old(self).address && final(self).events == old(self).events,
            !r ==> *final(self) == *old(self),
    {
        if idle_ms >= PD_SILENCE_TIMEOUT_MS {
            self.reset_link();
            true
        } else {
            false
        }
    }
}

/// Whether `op` is the opcode of a command that `OsdpCommand` holds.
fn is_command_opcode_exec(op: u8) -> (r: bool)
    ensures
        r == is_command_opcode(op),
{
    op == crate::commands::CMD_LED || op == crate::commands::CMD_BUZ || op
        == crate::commands::CMD_TEXT || op == crate::commands::CMD_OUT || op
        == crate::commands::CMD_COMSET || op == crate::commands::CMD_KEYSET || op
        == crate::commands::CMD_MFG || op == crate::commands::CMD_FILETRANSFER || op
        == crate::commands::CMD_LSTAT || op == crate::commands::CMD_ISTAT || op
        == crate::commands::CMD_OSTAT
}

} // verus!
