//! The CP role: bring each PD online (identification, capabilities, then a
//! secure channel when one is wanted), poll it, send it commands and
//! collect its events.
use vstd::prelude::*;
use crate::commands::{command_bytes, command_encodable, OsdpCommand};
use crate::error::OsdpError;
use crate::events::{parse_event, OsdpEvent};
use crate::flags::{OsdpFlag, FLAG_ENFORCE_SECURE, FLAG_IGN_UNSOLICITED};
use crate::frame::{
    frame_bytes, mac_input, packet_is_wf, OsdpPacket, PacketView, BROADCAST_ADDR, REPLY_ADDR_BIT,
};
use crate::pdcap::{decode_capabilities, PdCapability, PdCapEntity};
use crate::pdid::PdId;
use crate::reply::{
    check_secure_packet, frame_of, handshake_frame_of, handshake_packet, mac4, open_data, seal_data,
    seal_spec, secure_frame_of, secure_packet, secure_type,
    CMD_CAP, CMD_CHLNG, CMD_ID, CMD_POLL, CMD_SCRYPT, REPLY_ACK, REPLY_CCRYPT, REPLY_NAK,
    REPLY_RMAC_I, SCS_11, SCS_12, SCS_13, SCS_14, SCS_16, SCS_18,
};
use crate::sc::{
    cp_check_client_cryptogram, cp_check_initial_rmac, initial_rmac_spec, message_mac, select_scbk,
    CpHandshake, SecureSession,
};
use crate::sched::Scheduler;
use crate::sequence::{next_seq, next_seq_spec};

verus! {

/// Most commands waiting for one PD.
pub const CMD_QUEUE_MAX: usize = 32;
/// Most PDs on one CP.
pub const MAX_PDS: usize = 126;
/// Consecutive NAKs after which a PD is taken offline.
pub const NAK_LIMIT: u8 = 3;

/// Static description of a PD.
#[derive(Clone, Debug)]
pub struct PdInfo {
    /// Name, for the application's logs
    pub name: String,
    /// 7-bit address; 0x7F is broadcast
    pub address: i32,
    /// Serial speed
    pub baud_rate: i32,
    /// Setup flags
    pub flags: OsdpFlag,
    /// Identification (PD role)
    pub id: PdId,
    /// Capabilities (PD role)
    pub cap: Vec<PdCapability>,
    /// Id of the bus the PD is on
    pub channel_id: i32,
    /// Secure channel base key
    pub scbk: [u8; 16],
}

impl PdInfo {
    /// The description of a PD, for the PD itself.
    pub fn for_pd(
        name: String,
        address: i32,
        baud_rate: i32,
        flags: OsdpFlag,
        id: PdId,
        cap: Vec<PdCapability>,
        channel_id: i32,
        scbk: [u8; 16],
    ) -> (r: Self)
        ensures
            r.address == address && r.baud_rate == baud_rate && r.flags == flags && r.id == id
                && r.cap@ == cap@ && r.channel_id == channel_id && r.scbk == scbk,
    {
        PdInfo { name, address, baud_rate, flags, id, cap, channel_id, scbk }
    }

    /// The description of a PD, for the CP that drives it.
    pub fn for_cp(
        name: String,
        address: i32,
        baud_rate: i32,
        flags: OsdpFlag,
        channel_id: i32,
        scbk: [u8; 16],
    ) -> (r: Self)
        ensures
            r.address == address && r.baud_rate == baud_rate && r.flags == flags && r.cap@.len()
                == 0 && r.channel_id == channel_id && r.scbk == scbk,
    {
        PdInfo {
            name,
            address,
            baud_rate,
            flags,
            id: PdId {
                version: 0,
                model: 0,
                vendor_code: (0, 0, 0),
                serial_number: [0; 4],
                firmware_version: (0, 0, 0),
            },
            cap: Vec::new(),
            channel_id,
            scbk,
        }
    }
}

/// Where the CP is with one PD.
#[derive(Clone, Copy, Debug, PartialEq, Eq)]
pub enum CpPdState {
    /// Nothing sent yet
    Init,
    /// Identification requested
    IdReq,
    /// Capabilities requested
    CapReq,
    /// Secure channel challenge to send or sent
    ScChlng,
    /// Server cryptogram to send or sent
    ScScrypt,
    /// Polled and commanded
    Online,
    /// Lost; the online sequence starts again
    Offline,
}

/// The CP's state for one PD.
pub struct PdSlot {
    /// Address of the PD
    pub address: u8,
    /// Setup flags
    pub flags: OsdpFlag,
    /// Id of the bus the PD is on
    pub channel_id: i32,
    /// Where the online sequence is
    pub state: CpPdState,
    /// Sequence number of the next frame (after the reset frame)
    pub seq: u8,
    /// Sequence number of the frame whose reply is awaited
    pub awaiting: Option<u8>,
    /// Consecutive NAKs
    pub naks: u8,
    /// Commands waiting, oldest first
    pub queue: Vec<OsdpCommand>,
    /// Identification the PD reported
    pub id: Option<PdId>,
    /// Capabilities the PD reported
    pub caps: Vec<PdCapability>,
    /// Secure channel base key
    pub scbk: [u8; 16],
    /// Secure channel state
    pub sc: CpSecure,
    /// Failed handshakes since the last success (0 or 1)
    pub sc_failures: u8,
    /// New base key sent in a key set command, until the PD answers
    pub pending_key: Option<[u8; 16]>,
}

/// Where the CP's secure channel with one PD is.
#[derive(Clone, Copy, Debug)]
pub enum CpSecure {
    /// No session
    Off,
    /// Challenge sent with this RND.A
    Challenge([u8; 8]),
    /// Server cryptogram sent
    Scrypt(CpHandshake),
    /// Session up
    Active(SecureSession),
}

/// The initial R-MAC that a CP in handshake state `sc` expects.
pub open spec fn expected_rmac(sc: CpSecure) -> Seq<u8> {
    match sc {
        CpSecure::Scrypt(hs) => initial_rmac_spec(hs.keys, hs.server@),
        _ => Seq::empty(),
    }
}

/// Whether install mode is allowed by `f`: set, and security not enforced.
pub open spec fn install_allowed(f: OsdpFlag) -> bool {
    f.bits & crate::flags::FLAG_INSTALL_MODE != 0 && f.bits & FLAG_ENFORCE_SECURE == 0
}

/// The key byte of a handshake secure block: 0 for the default key, 1 for
/// the PD's own.
pub open spec fn key_flag(f: OsdpFlag) -> u8 {
    if install_allowed(f) {
        0
    } else {
        1
    }
}

/// The base key the CP uses with the PD of slot `s`.
pub open spec fn cp_key(s: PdSlot) -> Seq<u8> {
    if install_allowed(s.flags) {
        crate::sc::default_scbk()
    } else {
        s.scbk@
    }
}

/// Whether the CP sets up a secure channel with a PD: its flags ask for
/// security or install mode, or the PD reported secure channel support.
pub open spec fn wants_sc_spec(flags: OsdpFlag, caps: Seq<PdCapability>) -> bool {
    flags.bits & (FLAG_ENFORCE_SECURE | crate::flags::FLAG_INSTALL_MODE) != 0 || exists|i: int|
        0 <= i < caps.len() && crate::pdcap::cap_code(#[trigger] caps[i]) == 9
            && crate::pdcap::cap_entity(caps[i]).compliance != 0
}

/// Where a failed handshake or MAC leaves the PD of slot `s`: under
/// `EnforceSecure` one more handshake, then offline; otherwise online in
/// plaintext.
pub open spec fn sc_fail_state(s: PdSlot) -> CpPdState {
    if s.flags.bits & FLAG_ENFORCE_SECURE != 0 {
        if s.sc_failures >= 1 {
            CpPdState::Offline
        } else {
            CpPdState::ScChlng
        }
    } else {
        CpPdState::Online
    }
}

/// The session of an active secure channel.
pub open spec fn active_session(sc: CpSecure) -> SecureSession {
    match sc {
        CpSecure::Active(s) => s,
        _ => arbitrary(),
    }
}

/// The message a CP in slot `s` reads from the reply packet `p`: the data
/// itself without a session; with one, the data (decrypted for SCS_18) of
/// a well-formed SCS_16 or SCS_18 packet whose MAC is right, else none.
pub open spec fn cp_reply_message(s: PdSlot, p: PacketView) -> Option<Seq<u8>> {
    match s.sc {
        CpSecure::Active(ss) => if p.scb.len() >= 2 && (p.scb[1] == SCS_16 || p.scb[1] == SCS_18)
            && crate::frame::packet_wf(p) && p.mac == mac4(
            message_mac(ss.keys, ss.c_mac@, mac_input(p)),
        ) {
            if p.scb[1] == SCS_18 {
                crate::reply::open_spec(p.data, ss.keys, ss.c_mac@)
            } else {
                Some(p.data)
            }
        } else {
            None
        },
        _ => Some(p.data),
    }
}

/// Whether the reply `p` to a challenge carries the client cryptogram that
/// the CP of slot `s` expects.
pub open spec fn ccrypt_ok(s: PdSlot, p: PacketView) -> bool {
    match s.sc {
        CpSecure::Challenge(rnd_a) => p.scb.len() >= 2 && p.scb[1] == SCS_12 && p.data.len() == 33
            && p.data[0] == REPLY_CCRYPT && p.data.subrange(17, 33) == crate::aes::aes128_encrypt_spec(
            crate::aes::aes128_encrypt_spec(cp_key(s), crate::sc::key_block(0x82, rnd_a@)),
            rnd_a@ + p.data.subrange(9, 17),
        ),
        _ => false,
    }
}

/// Whether the reply `p` to the server cryptogram carries the initial R-MAC
/// that the CP of slot `s` expects.
pub open spec fn rmac_ok(s: PdSlot, p: PacketView) -> bool {
    s.sc is Scrypt && p.scb.len() >= 2 && p.scb[1] == SCS_14 && p.data.len() == 17 && p.data[0]
        == REPLY_RMAC_I && p.data.subrange(1, 17) == expected_rmac(s.sc)
}

/// Whether a frame to a PD in slot `s` goes out in plaintext, as built from
/// `cp_request`: no session and no handshake in progress.
pub open spec fn plain_request(s: PdSlot) -> bool {
    s.sc is Off && s.state != CpPdState::ScChlng && s.state != CpPdState::ScScrypt
}

impl PdSlot {
    /// A slot is well formed when its address is a PD address, its sequence
    /// numbers fit two bits, its queue fits and holds encodable commands,
    /// and its NAK count is below the limit.
    pub open spec fn wf(&self) -> bool {
        &&& self.address < BROADCAST_ADDR
        &&& self.seq <= 3
        &&& self.awaiting matches Some(s) ==> s <= 3
        &&& self.naks < NAK_LIMIT
        &&& self.sc_failures <= 1
        &&& self.queue@.len() <= CMD_QUEUE_MAX
        &&& forall|i: int| 0 <= i < self.queue@.len() ==> command_encodable(#[trigger] self.queue@[i]@)
    }
}

/// Whether a new link starts with the next frame (sequence number 0).
pub open spec fn starts_link(s: CpPdState) -> bool {
    s == CpPdState::Init || s == CpPdState::Offline
}

/// The message the CP sends next to a PD in slot `s`.
pub open spec fn cp_request(s: PdSlot) -> Seq<u8> {
    match s.state {
        CpPdState::CapReq => seq![CMD_CAP],
        CpPdState::Online => if s.queue@.len() > 0 {
            command_bytes(s.queue@[0]@)
        } else {
            seq![CMD_POLL]
        },
        _ => seq![CMD_ID],
    }
}

/// The sequence number of the next frame to a PD in slot `s`.
pub open spec fn cp_request_seq(s: PdSlot) -> u8 {
    if starts_link(s.state) {
        0
    } else {
        s.seq
    }
}

/// A control panel: the PDs it drives and the order it serves them in.
pub struct ControlPanel {
    /// One slot per PD, by index
    pub pds: Vec<PdSlot>,
    /// Round-robin over the PDs
    pub sched: Scheduler,
}

impl ControlPanel {
    /// A CP is well formed when it has 1 to `MAX_PDS` PDs, every slot is
    /// well formed, and its scheduler covers them.
    pub open spec fn wf(&self) -> bool {
        &&& 1 <= self.pds@.len() <= MAX_PDS
        &&& self.sched.wf()
        &&& self.sched.nr_pds == self.pds@.len()
        &&& forall|i: int| 0 <= i < self.pds@.len() ==> (#[trigger] self.pds@[i]).wf()
    }

    /// A CP for the PDs described. Fails with `OsdpError::PdInfo("PD address or count")` when there
    /// are more than `MAX_PDS` PDs or an address is not a PD address (0 to
    /// 0x7E), and with `OsdpError::Setup` when there is no PD.
    pub fn new(pd_info: Vec<PdInfo>) -> (r: Result<Self, OsdpError>)
        ensures
            pd_info@.len() > MAX_PDS ==> (r is Err && r->Err_0 is PdInfo),
            pd_info@.len() < 1 ==> r == Err::<Self, OsdpError>(OsdpError::Setup),
            (1 <= pd_info@.len() <= MAX_PDS) ==> ((forall|i: int|
                0 <= i < pd_info@.len() ==> 0 <= #[trigger] pd_info@[i].address < 0x7F) <==> r is Ok),
            r matches Ok(cp) ==> cp.wf() && cp.pds@.len() == pd_info@.len() && (forall|i: int|
                0 <= i < pd_info@.len() ==> (#[trigger] cp.pds@[i]).address == pd_info@[i].address
                    && cp.pds@[i].state == CpPdState::Init && cp.pds@[i].queue@.len() == 0),
    {
        let n = pd_info.len();
        if n > MAX_PDS {
            return Err(OsdpError::PdInfo("PD address or count"));
        }
        if n < 1 {
            return Err(OsdpError::Setup);
        }
        let mut pds: Vec<PdSlot> = Vec::new();
        let mut i: usize = 0;
        while i < n
            invariant
                n == pd_info@.len(),
                1 <= n <= MAX_PDS,
                i <= n,
                pds@.len() == i,
                forall|j: int| 0 <= j < i ==> 0 <= #[trigger] pd_info@[j].address < 0x7F,
                forall|j: int|
                    0 <= j < i ==> (#[trigger] pds@[j]).wf() && pds@[j].address == pd_info@[j].address
                        && pds@[j].state == CpPdState::Init && pds@[j].queue@.len() == 0,
            decreases n - i,
        {
            let info = &pd_info[i];
            if info.address < 0 || info.address >= 0x7F {
                return Err(OsdpError::PdInfo("PD address or count"));
            }
            pds.push(
                PdSlot {
                    address: info.address as u8,
                    flags: info.flags,
                    channel_id: info.channel_id,
                    state: CpPdState::Init,
                    seq: 0,
                    awaiting: None,
                    naks: 0,
                    queue: Vec::new(),
                    id: None,
                    caps: Vec::new(),
                    scbk: info.scbk,
                    sc: CpSecure::Off,
                    sc_failures: 0,
                    pending_key: None,
                },
            );
            i += 1;
        }
        Ok(ControlPanel { pds, sched: Scheduler::new(n) })
    }

    /// Returns the PD to serve on this tick (round-robin).
    pub fn next_pd(&mut self) -> (r: usize)
        requires
            old(self).wf(),
        ensures
            final(self).wf(),
            r < final(self).pds@.len(),
            r == old(self).sched.cursor,
            final(self).pds == old(self).pds,
            final(self).sched.cursor == crate::sched::served_after(
                old(self).sched.cursor as int,
                1,
                old(self).sched.nr_pds as int,
            ),
    {
        self.sched.tick()
    }

    /// Queues a command for PD `pd`, behind those already queued. Fails with
    /// `OsdpError::Command` when there is no such PD, the command cannot be
    /// encoded, or the PD's queue is full.
    pub fn send_command(&mut self, pd: usize, command: OsdpCommand) -> (r: Result<(), OsdpError>)
        requires
            old(self).wf(),
        ensures
            final(self).wf(),
            final(self).pds@.len() == old(self).pds@.len(),
            (pd < old(self).pds@.len() && command_encodable(command@)
                && old(self).pds@[pd as int].queue@.len() < CMD_QUEUE_MAX) <==> r is Ok,
            r is Err ==> r == Err::<(), OsdpError>(OsdpError::Command) && *final(self) == *old(self),
            r is Ok ==> final(self).pds@[pd as int].queue@ == old(self).pds@[pd as int].queue@.push(
                command,
            ) && final(self).pds@[pd as int].state == old(self).pds@[pd as int].state
                && final(self).pds@[pd as int].awaiting == old(self).pds@[pd as int].awaiting,
            forall|j: int|
                0 <= j < old(self).pds@.len() && j != pd ==> final(self).pds@[j] == old(self).pds@[j],
    {
        if pd >= self.pds.len() || !command.is_encodable() || self.pds[pd].queue.len()
            >= CMD_QUEUE_MAX {
            return Err(OsdpError::Command);
        }
        let mut slot = self.pds.remove(pd);
        slot.queue.push(command);
        proof {
            assert(old(self).pds@[pd as int].wf());
            assert forall|i: int| 0 <= i < slot.queue@.len() implies command_encodable(
                #[trigger] slot.queue@[i]@,
            ) by {
                if i < slot.queue@.len() - 1 {
                    assert(slot.queue@[i] == old(self).pds@[pd as int].queue@[i]);
                }
            }
        }
        self.pds.insert(pd, slot);
        proof {
            assert forall|j: int| 0 <= j < self.pds@.len() implies (#[trigger] self.pds@[j]).wf() by {
                if j != pd {
                    assert(self.pds@[j] == old(self).pds@[j]);
                }
            }
        }
        Ok(())
    }

    /// Whether another PD on the channel of PD `pd` awaits a reply: the
    /// bus is then held and PD `pd` waits for a later tick.
    pub open spec fn channel_busy_spec(&self, pd: int) -> bool {
        exists|j: int|
            0 <= j < self.pds@.len() && j != pd && #[trigger] self.pds@[j].channel_id
                == self.pds@[pd].channel_id && self.pds@[j].awaiting is Some
    }

    /// Whether another PD on the channel of PD `pd` awaits a reply.
    pub fn channel_busy(&self, pd: usize) -> (r: bool)
        requires
            pd < self.pds@.len(),
        ensures
            r == self.channel_busy_spec(pd as int),
    {
        let id = self.pds[pd].channel_id;
        let mut j: usize = 0;
        while j < self.pds.len()
            invariant
                pd < self.pds@.len(),
                id == self.pds@[pd as int].channel_id,
                j <= self.pds@.len(),
                forall|k: int|
                    0 <= k < j && k != pd ==> !(#[trigger] self.pds@[k].channel_id == id
                        && self.pds@[k].awaiting is Some),
            decreases self.pds@.len() - j,
        {
            if j != pd && self.pds[j].channel_id == id && self.pds[j].awaiting.is_some() {
                return true;
            }
            j += 1;
        }
        false
    }

    /// The frame to send to PD `pd` now, if its last frame is answered and
    /// its channel is free (see `channel_busy_spec`):
    /// identification, then capabilities, then the secure channel handshake
    /// when one is wanted (`rnd_a` is a fresh random for its challenge), then
    /// queued commands in order or a poll, MAC-protected once a session is
    /// up. A frame that starts the online sequence carries sequence number
    /// 0. The frame is marked as awaiting its reply.
    pub fn next_frame(&mut self, pd: usize, rnd_a: [u8; 8]) -> (r: Option<Vec<u8>>)
        requires
            old(self).wf(),
            pd < old(self).pds@.len(),
        ensures
            final(self).wf(),
            final(self).sched == old(self).sched,
            final(self).pds@.len() == old(self).pds@.len(),
            forall|j: int|
                0 <= j < old(self).pds@.len() && j != pd ==> final(self).pds@[j] == old(self).pds@[j],
            ({
                let s = old(self).pds@[pd as int];
                let t = final(self).pds@[pd as int];
                &&& (s.awaiting is Some || old(self).channel_busy_spec(pd as int)) ==> r is None
                    && t == s
                &&& (s.awaiting is None && !old(self).channel_busy_spec(pd as int)) ==> {
                    &&& r is Some
                    &&& t.awaiting == Some(cp_request_seq(s))
                    &&& t.seq == cp_request_seq(s)
                    &&& t.queue@ == if s.state == CpPdState::Online && s.queue@.len() > 0 {
                        s.queue@.subrange(1, s.queue@.len() as int)
                    } else {
                        s.queue@
                    }
                    &&& (s.state == CpPdState::Online && s.queue@.len() > 0) ==> ((t.pending_key is Some
                        <==> is_base_key_set(s.queue@[0]@)) && (t.pending_key is Some
                        ==> t.pending_key->Some_0@ == s.queue@[0]@->KeySet_0.data))
                }
                &&& (s.awaiting is None && !old(self).channel_busy_spec(pd as int) && s.state
                    == CpPdState::Online && s.sc is Active) ==> {
                    let req = cp_request(s);
                    let enc = req.len() > 1;
                    let ss = active_session(s.sc);
                    let data = if enc {
                        seal_spec(req, ss.keys, ss.r_mac@)
                    } else {
                        req
                    };
                    let scs = secure_type(true, enc);
                    let m = message_mac(
                        ss.keys,
                        ss.r_mac@,
                        mac_input(secure_packet(s.address, s.seq, true, scs, data, seq![0u8, 0u8, 0u8, 0u8])),
                    );
                    &&& r matches Some(f) && f@ == frame_bytes(
                        secure_packet(s.address, s.seq, true, scs, data, mac4(m)),
                    )
                    &&& t.sc is Active
                    &&& active_session(t.sc).keys == ss.keys
                    &&& active_session(t.sc).r_mac == ss.r_mac
                    &&& active_session(t.sc).c_mac@ == m
                }
                &&& (s.awaiting is None && !old(self).channel_busy_spec(pd as int) && (s.state
                    == CpPdState::ScChlng || (s.state == CpPdState::ScScrypt && !(s.sc is Scrypt))))
                    ==> {
                    &&& r matches Some(f) && f@ == frame_bytes(
                        handshake_packet(s.address, s.seq, true, SCS_11, key_flag(s.flags), seq![CMD_CHLNG] + rnd_a@),
                    )
                    &&& t.sc == CpSecure::Challenge(rnd_a)
                    &&& t.state == CpPdState::ScChlng
                }
                &&& (s.awaiting is None && !old(self).channel_busy_spec(pd as int) && s.state
                    == CpPdState::ScScrypt && s.sc is Scrypt) ==> {
                    &&& r matches Some(f) && f@ == frame_bytes(
                        handshake_packet(
                            s.address,
                            s.seq,
                            true,
                            SCS_13,
                            key_flag(s.flags),
                            seq![CMD_SCRYPT] + s.sc->Scrypt_0.server@,
                        ),
                    )
                    &&& t.sc == s.sc
                    &&& t.state == CpPdState::ScScrypt
                }
                &&& (s.awaiting is None && !old(self).channel_busy_spec(pd as int) && plain_request(
                    s,
                )) ==> {
                    &&& r matches Some(f) && f@ == frame_bytes(
                        PacketView {
                            address: s.address,
                            seq: cp_request_seq(s),
                            use_crc: true,
                            scb: Seq::empty(),
                            data: cp_request(s),
                            mac: Seq::empty(),
                        },
                    )
                    &&& t.awaiting == Some(cp_request_seq(s))
                    &&& t.seq == cp_request_seq(s)
                    &&& t.state == if starts_link(s.state) {
                        CpPdState::IdReq
                    } else {
                        s.state
                    }
                    &&& t.queue@ == if s.state == CpPdState::Online && s.queue@.len() > 0 {
                        s.queue@.subrange(1, s.queue@.len() as int)
                    } else {
                        s.queue@
                    }
                }
            }),
    {
        if self.pds[pd].awaiting.is_some() || self.channel_busy(pd) {
            return None;
        }
        let mut slot = self.pds.remove(pd);
        proof {
            assert(slot == old(self).pds@[pd as int]);
            assert(slot.wf());
        }
        let ghost s = slot;
        if let CpPdState::Init = slot.state {
            slot.seq = 0;
            slot.state = CpPdState::IdReq;
        } else if let CpPdState::Offline = slot.state {
            slot.seq = 0;
            slot.state = CpPdState::IdReq;
        }
        if let CpPdState::ScScrypt = slot.state {
            if let CpSecure::Scrypt(hs) = slot.sc {
                let use_default = slot.flags.install_mode_allowed();
                let mut data: Vec<u8> = vec![CMD_SCRYPT];
                crate::bytes::extend_from(&mut data, &hs.server, 0, 16);
                assert(hs.server@.subrange(0, 16) =~= hs.server@);
                assert(data@ =~= seq![CMD_SCRYPT] + hs.server@);
                let f = handshake_frame_of(slot.address, slot.seq, true, SCS_13, if use_default { 0 } else { 1 }, data);
                slot.awaiting = Some(slot.seq);
                self.pds.insert(pd, slot);
                proof {
                    assert forall|j: int| 0 <= j < self.pds@.len() implies (#[trigger] self.pds@[j]).wf() by {
                        if j != pd {
                            assert(self.pds@[j] == old(self).pds@[j]);
                        }
                    }
                }
                return Some(f);
            }
            slot.state = CpPdState::ScChlng;
            slot.sc = CpSecure::Off;
        }
        if let CpPdState::ScChlng = slot.state {
            let use_default = slot.flags.install_mode_allowed();
            let mut data: Vec<u8> = vec![CMD_CHLNG];
            crate::bytes::extend_from(&mut data, &rnd_a, 0, 8);
            assert(rnd_a@.subrange(0, 8) =~= rnd_a@);
            assert(data@ =~= seq![CMD_CHLNG] + rnd_a@);
            let f = handshake_frame_of(slot.address, slot.seq, true, SCS_11, if use_default { 0 } else { 1 }, data);
            slot.sc = CpSecure::Challenge(rnd_a);
            slot.awaiting = Some(slot.seq);
            self.pds.insert(pd, slot);
            proof {
                assert forall|j: int| 0 <= j < self.pds@.len() implies (#[trigger] self.pds@[j]).wf() by {
                    if j != pd {
                        assert(self.pds@[j] == old(self).pds@[j]);
                    }
                }
            }
            return Some(f);
        }
        let data: Vec<u8> = match slot.state {
            CpPdState::CapReq => vec![CMD_CAP],
            CpPdState::Online => {
                if slot.queue.len() > 0 {
                    let c = slot.queue.remove(0);
                    proof {
                        assert(command_encodable(s.queue@[0]@));
                        assert(slot.queue@ =~= s.queue@.subrange(1, s.queue@.len() as int));
                        assert forall|i: int| 0 <= i < slot.queue@.len() implies command_encodable(
                            #[trigger] slot.queue@[i]@,
                        ) by {
                            assert(slot.queue@[i] == s.queue@[i + 1]);
                        }
                    }
                    let v = c.encode();
                    proof {
                        crate::commands::lemma_command_len(c@);
                    }
                    slot.pending_key = new_base_key(&c);
                    v
                } else {
                    vec![CMD_POLL]
                }
            },
            _ => vec![CMD_ID],
        };
        assert(data@ =~= cp_request(s));
        let f = match slot.sc {
            CpSecure::Active(session) => {
                let mut session = session;
                let enc = data.len() > 1;
                let out = if enc {
                    seal_data(&data, &session.keys, &session.r_mac)
                } else {
                    data
                };
                let f = secure_frame_of(slot.address, slot.seq, true, true, enc, out, &mut session);
                slot.sc = CpSecure::Active(session);
                f
            },
            _ => frame_of(slot.address, slot.seq, true, data),
        };
        slot.awaiting = Some(slot.seq);
        self.pds.insert(pd, slot);
        proof {
            assert forall|j: int| 0 <= j < self.pds@.len() implies (#[trigger] self.pds@[j]).wf() by {
                if j != pd {
                    assert(self.pds@[j] == old(self).pds@[j]);
                }
            }
        }
        Some(f)
    }

    /// Gives up on the frame awaiting a reply from PD `pd`: the PD goes
    /// offline and the next frame starts the online sequence again.
    pub fn timeout(&mut self, pd: usize)
        requires
            old(self).wf(),
            pd < old(self).pds@.len(),
        ensures
            final(self).wf(),
            final(self).sched == old(self).sched,
            final(self).pds@.len() == old(self).pds@.len(),
            forall|j: int|
                0 <= j < old(self).pds@.len() && j != pd ==> final(self).pds@[j] == old(self).pds@[j],
            old(self).pds@[pd as int].awaiting is Some ==> final(self).pds@[pd as int].state
                == CpPdState::Offline && final(self).pds@[pd as int].awaiting is None,
            old(self).pds@[pd as int].awaiting is None ==> final(self).pds@[pd as int]
                == old(self).pds@[pd as int],
    {
        if self.pds[pd].awaiting.is_none() {
            return;
        }
        let mut slot = self.pds.remove(pd);
        proof {
            assert(slot == old(self).pds@[pd as int]);
        }
        slot.awaiting = None;
        slot.state = CpPdState::Offline;
        slot.naks = 0;
        slot.sc = CpSecure::Off;
        self.pds.insert(pd, slot);
        proof {
            assert forall|j: int| 0 <= j < self.pds@.len() implies (#[trigger] self.pds@[j]).wf() by {
                if j != pd {
                    assert(self.pds@[j] == old(self).pds@[j]);
                }
            }
        }
    }

    /// Handles a reply packet from PD `pd`. Unsolicited packets (no frame
    /// awaiting) are ignored. A reply with another address or sequence
    /// number resets the link (the PD goes offline). Otherwise the sequence
    /// number advances and the reply moves the secure channel handshake or
    /// the online sequence on (see `respond_slot` and `process_message`):
    /// an event from an online PD is handed out, NAKs are counted (the
    /// `NAK_LIMIT`th in a row takes the PD offline), and an unknown reply
    /// takes the PD offline unless its flags say to ignore it.
    pub fn handle_packet(&mut self, pd: usize, p: &OsdpPacket) -> (r: Option<OsdpEvent>)
        requires
            old(self).wf(),
            pd < old(self).pds@.len(),
        ensures
            final(self).wf(),
            final(self).sched == old(self).sched,
            final(self).pds@.len() == old(self).pds@.len(),
            forall|j: int|
                0 <= j < old(self).pds@.len() && j != pd ==> final(self).pds@[j] == old(self).pds@[j],
            ({
                let s = old(self).pds@[pd as int];
                let t = final(self).pds@[pd as int];
                &&& s.awaiting is None ==> r is None && t == s
                &&& s.awaiting matches Some(q) ==> {
                    &&& t.awaiting is None
                    &&& (p.address != (s.address | REPLY_ADDR_BIT) || p.seq != q) ==> r is None
                        && t.state == CpPdState::Offline && t.sc is Off
                    &&& (p.address == (s.address | REPLY_ADDR_BIT) && p.seq == q) ==> {
                        &&& t.seq == next_seq_spec(q)
                        &&& slot_response(s, t, p@, r)
                    }
                }
            }),
    {
        let q = match self.pds[pd].awaiting {
            Some(q) => q,
            None => {
                return None;
            },
        };
        let mut slot = self.pds.remove(pd);
        proof {
            assert(slot == old(self).pds@[pd as int]);
        }
        slot.awaiting = None;
        let event = if p.address != (slot.address | REPLY_ADDR_BIT) || p.seq != q {
            slot.state = CpPdState::Offline;
            slot.naks = 0;
            slot.sc = CpSecure::Off;
            None
        } else {
            slot.seq = next_seq(q);
            respond_slot(&mut slot, p)
        };
        self.pds.insert(pd, slot);
        proof {
            assert forall|j: int| 0 <= j < self.pds@.len() implies (#[trigger] self.pds@[j]).wf() by {
                if j != pd {
                    assert(self.pds@[j] == old(self).pds@[j]);
                }
            }
        }
        event
    }

    /// The frame of a broadcast command: addressed to every PD, which do not
    /// reply; the CP awaits nothing and its state is unchanged. Fails with
    /// `OsdpError::Command` when the command cannot be encoded.
    pub fn broadcast_frame(&self, command: &OsdpCommand) -> (r: Result<Vec<u8>, OsdpError>)
        ensures
            command_encodable(command@) <==> r is Ok,
            r matches Ok(f) ==> f@ == frame_bytes(
                PacketView {
                    address: BROADCAST_ADDR,
                    seq: 0,
                    use_crc: true,
                    scb: Seq::empty(),
                    data: command_bytes(command@),
                    mac: Seq::empty(),
                },
            ),
            r is Err ==> r == Err::<Vec<u8>, OsdpError>(OsdpError::Command),
    {
        if !command.is_encodable() {
            return Err(OsdpError::Command);
        }
        let v = command.encode();
        proof {
            crate::commands::lemma_command_len(command@);
        }
        Ok(frame_of(BROADCAST_ADDR, 0, true, v))
    }

    /// Starts the secure channel handshake again with PD `pd` when it is
    /// online in plaintext with nothing awaited (after the retry period of a
    /// failed handshake); otherwise changes nothing. Returns whether it did.
    pub fn retry_secure_channel(&mut self, pd: usize) -> (r: bool)
        requires
            old(self).wf(),
        ensures
            final(self).wf(),
            final(self).sched == old(self).sched,
            final(self).pds@.len() == old(self).pds@.len(),
            r == (pd < old(self).pds@.len() && old(self).pds@[pd as int].state == CpPdState::Online
                && old(self).pds@[pd as int].sc is Off && old(self).pds@[pd as int].awaiting is None),
            !r ==> *final(self) == *old(self),
            r ==> final(self).pds@[pd as int].state == CpPdState::ScChlng,
            forall|j: int|
                0 <= j < old(self).pds@.len() && j != pd ==> final(self).pds@[j] == old(self).pds@[j],
    {
        if pd >= self.pds.len() {
            return false;
        }
        let ready = match (self.pds[pd].state, self.pds[pd].sc, self.pds[pd].awaiting) {
            (CpPdState::Online, CpSecure::Off, None) => true,
            _ => false,
        };
        if !ready {
            return false;
        }
        let mut slot = self.pds.remove(pd);
        proof {
            assert(slot == old(self).pds@[pd as int]);
        }
        slot.state = CpPdState::ScChlng;
        self.pds.insert(pd, slot);
        proof {
            assert forall|j: int| 0 <= j < self.pds@.len() implies (#[trigger] self.pds@[j]).wf() by {
                if j != pd {
                    assert(self.pds@[j] == old(self).pds@[j]);
                }
            }
        }
        true
    }

    /// Whether PD `pd` is online; `false` for a PD that does not exist.
    pub fn is_online(&self, pd: usize) -> (r: bool)
        ensures
            r == (pd < self.pds@.len() && self.pds@[pd as int].state == CpPdState::Online),
    {
        if pd >= self.pds.len() {
            return false;
        }
        match self.pds[pd].state {
            CpPdState::Online => true,
            _ => false,
        }
    }

    /// Whether a secure channel session is up with PD `pd`; `false` for a
    /// PD that does not exist.
    pub fn is_sc_active(&self, pd: usize) -> (r: bool)
        ensures
            r == (pd < self.pds@.len() && self.pds@[pd as int].sc is Active),
    {
        if pd >= self.pds.len() {
            return false;
        }
        match self.pds[pd].sc {
            CpSecure::Active(_) => true,
            _ => false,
        }
    }

    /// Sets or clears flags of PD `pd`. Fails with `OsdpError::Query("no such PD or value")` (and
    /// changes nothing) when there is no such PD.
    pub fn set_flag(&mut self, pd: usize, flag: OsdpFlag, value: bool) -> (r: Result<(), OsdpError>)
        requires
            old(self).wf(),
        ensures
            final(self).wf(),
            final(self).pds@.len() == old(self).pds@.len(),
            (pd < old(self).pds@.len()) <==> r is Ok,
            r is Err ==> *final(self) == *old(self),
            r is Ok ==> final(self).pds@[pd as int].flags.bits == if value {
                old(self).pds@[pd as int].flags.bits | flag.bits
            } else {
                old(self).pds@[pd as int].flags.bits & !flag.bits
            },
    {
        if pd >= self.pds.len() {
            return Err(OsdpError::Query("no such PD or value"));
        }
        let mut slot = self.pds.remove(pd);
        proof {
            assert(slot == old(self).pds@[pd as int]);
        }
        slot.flags.set(flag, value);
        self.pds.insert(pd, slot);
        proof {
            assert forall|j: int| 0 <= j < self.pds@.len() implies (#[trigger] self.pds@[j]).wf() by {
                if j != pd {
                    assert(self.pds@[j] == old(self).pds@[j]);
                }
            }
        }
        Ok(())
    }

    /// The identification that PD `pd` reported. Fails with
    /// `OsdpError::Query("no such PD or value")` when there is no such PD or it has not reported.
    pub fn get_pd_id(&self, pd: usize) -> (r: Result<PdId, OsdpError>)
        ensures
            match r {
                Ok(id) => pd < self.pds@.len() && self.pds@[pd as int].id == Some(id),
                Err(e) => e is Query && (pd >= self.pds@.len()
                    || self.pds@[pd as int].id is None),
            },
    {
        if pd >= self.pds.len() {
            return Err(OsdpError::Query("no such PD or value"));
        }
        match self.pds[pd].id {
            Some(id) => Ok(id),
            None => Err(OsdpError::Query("no such PD or value")),
        }
    }

    /// The entity of the capability with function code `code` that PD `pd`
    /// reported (the first such). Fails with `OsdpError::Query("no such PD or value")` when there
    /// is no such PD or capability.
    pub fn get_capability(&self, pd: usize, code: u8) -> (r: Result<PdCapEntity, OsdpError>)
        ensures
            match r {
                Ok(e) => pd < self.pds@.len() && exists|i: int|
                    0 <= i < self.pds@[pd as int].caps@.len() && crate::pdcap::cap_code(
                        #[trigger] self.pds@[pd as int].caps@[i],
                    ) == code && crate::pdcap::cap_entity(self.pds@[pd as int].caps@[i]) == e,
                Err(e) => e is Query && (pd >= self.pds@.len() || forall|i: int|
                    0 <= i < self.pds@[pd as int].caps@.len() ==> crate::pdcap::cap_code(
                        #[trigger] self.pds@[pd as int].caps@[i],
                    ) != code),
            },
    {
        if pd >= self.pds.len() {
            return Err(OsdpError::Query("no such PD or value"));
        }
        let caps = &self.pds[pd].caps;
        let mut i: usize = 0;
        while i < caps.len()
            invariant
                i <= caps@.len(),
                caps@ == self.pds@[pd as int].caps@,
                pd < self.pds@.len(),
                forall|j: int| 0 <= j < i ==> crate::pdcap::cap_code(#[trigger] caps@[j]) != code,
            decreases caps@.len() - i,
        {
            if caps[i].function_code() == code {
                return Ok(caps[i].entity());
            }
            i += 1;
        }
        Err(OsdpError::Query("no such PD or value"))
    }
}

/// Whether a command installs a new 16-byte base key.
pub open spec fn is_base_key_set(c: crate::commands::CommandView) -> bool {
    c is KeySet && c->KeySet_0.key_type == 1 && c->KeySet_0.data.len() == 16
}

/// The base key that a command installs: a 16-byte key of type 1 in a key
/// set command.
pub(crate) fn new_base_key(c: &OsdpCommand) -> (r: Option<[u8; 16]>)
    ensures
        r matches Some(k) ==> (c@ matches crate::commands::CommandView::KeySet(ks) && ks.key_type
            == 1 && ks.data == k@),
        r is Some <==> is_base_key_set(c@),
{
    if let OsdpCommand::KeySet(k) = c {
        if k.key_type == 1 && k.data.len() == 16 {
            let mut key: [u8; 16] = [0; 16];
            let mut i: usize = 0;
            while i < 16
                invariant
                    i <= 16,
                    k.data@.len() == 16,
                    key@.len() == 16,
                    forall|j: int| 0 <= j < i ==> key@[j] == k.data@[j],
                decreases 16 - i,
            {
                key[i] = k.data[i];
                i += 1;
            }
            assert(key@ =~= k.data@);
            return Some(key);
        }
    }
    None
}

/// What a message `m` read from a reply does to the slot `s` (now `t`) of
/// a PD that is not in the handshake, and the event `r` handed out.
pub open spec fn message_effect(s: PdSlot, t: PdSlot, m: Seq<u8>, r: Option<OsdpEvent>) -> bool {
    let is_nak = m.len() >= 1 && m[0] == REPLY_NAK;
    let is_ack = m == seq![REPLY_ACK];
    &&& is_nak ==> r is None && (s.naks + 1 >= NAK_LIMIT ==> t.state == CpPdState::Offline) && (
    s.naks + 1 < NAK_LIMIT ==> t.state == s.state && t.naks == s.naks + 1)
    &&& (s.state == CpPdState::IdReq && m.len() == 13 && m[0] == crate::pdid::REPLY_PDID) ==> (
    t.state == CpPdState::CapReq && (t.id matches Some(id) && id.wf() && id.spec_bytes() == m))
    &&& (s.state == CpPdState::CapReq && m.len() >= 1 && m[0] == crate::pdcap::REPLY_PDCAP
        && crate::pdcap::parse_cap_records(m.subrange(1, m.len() as int)) is Some) ==> (t.caps@
        == crate::pdcap::parse_cap_records(m.subrange(1, m.len() as int))->Some_0 && t.state
        == if wants_sc_spec(s.flags, t.caps@) {
        CpPdState::ScChlng
    } else {
        CpPdState::Online
    })
    &&& (s.state == CpPdState::Online && parse_event(m) is Some) ==> (r is Some && r->Some_0@
        == parse_event(m)->Some_0 && t.state == CpPdState::Online)
    &&& r matches Some(x) ==> s.state == CpPdState::Online && parse_event(m) == Some(x@)
    &&& (s.state == CpPdState::Online && !is_nak && !is_ack && parse_event(m) is None) ==> (r is None
        && t.state == if s.flags.bits & FLAG_IGN_UNSOLICITED != 0 {
        CpPdState::Online
    } else {
        CpPdState::Offline
    })
    &&& (is_ack && s.pending_key is Some) ==> (t.scbk == s.pending_key->Some_0 && t.sc is Off && t.state
        == CpPdState::ScChlng)
    &&& t.state == CpPdState::Offline ==> t.sc is Off
}

/// What a matching reply packet `p` does to the slot `s` (now `t`), and the
/// event `r` handed out: in the handshake, a good client cryptogram or
/// R-MAC moves it on and anything else fails it (see `sc_fail_state`);
/// otherwise a reply that fails the session's MAC or decryption fails the
/// session, and the message read from it (see `cp_reply_message`) has the
/// effect of `message_effect`.
pub open spec fn slot_response(s: PdSlot, t: PdSlot, p: PacketView, r: Option<OsdpEvent>) -> bool {
    &&& t.address == s.address
    &&& s.state == CpPdState::ScChlng ==> r is None && (ccrypt_ok(s, p) ==> t.state
        == CpPdState::ScScrypt && t.sc is Scrypt) && (!ccrypt_ok(s, p) ==> t.sc is Off && t.state
        == sc_fail_state(s))
    &&& s.state == CpPdState::ScScrypt ==> r is None && (rmac_ok(s, p) ==> t.sc is Active && t.state
        == CpPdState::Online) && (!rmac_ok(s, p) ==> t.sc is Off && t.state == sc_fail_state(s))
    &&& (s.state != CpPdState::ScChlng && s.state != CpPdState::ScScrypt) ==> match cp_reply_message(
        s,
        p,
    ) {
        None => r is None && t.sc is Off && t.state == sc_fail_state(s),
        Some(m) => message_effect(s, t, m, r) && (s.sc is Active && t.state != CpPdState::Offline
            && !(m == seq![REPLY_ACK] && s.pending_key is Some) ==> t.sc is Active),
    }
}

/// Handles a matching reply packet (see `slot_response`).
fn respond_slot(slot: &mut PdSlot, p: &OsdpPacket) -> (r: Option<OsdpEvent>)
    requires
        old(slot).wf(),
    ensures
        final(slot).wf(),
        final(slot).seq == old(slot).seq,
        final(slot).awaiting == old(slot).awaiting,
        slot_response(*old(slot), *final(slot), p@, r),
{
    if let CpPdState::ScChlng = slot.state {
        handle_ccrypt(slot, p);
        return None;
    }
    if let CpPdState::ScScrypt = slot.state {
        handle_rmac_i(slot, p);
        return None;
    }
    let mut msg = crate::bytes::copy_range(p.data.as_slice(), 0, p.data.len());
    assert(msg@ =~= p.data@);
    if let CpSecure::Active(session) = slot.sc {
        let mut session = session;
        let ok = p.scb.len() >= 2 && (p.scb[1] == SCS_16 || p.scb[1] == SCS_18)
            && packet_is_wf(p) && check_secure_packet(p, false, &mut session);
        if !ok {
            sc_fail(slot);
            return None;
        }
        if p.scb[1] == SCS_18 {
            match open_data(&p.data, &session.keys, &session.c_mac) {
                Ok(m) => {
                    msg = m;
                },
                Err(_) => {
                    sc_fail(slot);
                    return None;
                },
            }
        }
        slot.sc = CpSecure::Active(session);
    }
    process_message(slot, &msg)
}

/// Handles a message read from a reply (see `message_effect`).
fn process_message(slot: &mut PdSlot, msg: &Vec<u8>) -> (r: Option<OsdpEvent>)
    requires
        old(slot).wf(),
    ensures
        final(slot).wf(),
        final(slot).address == old(slot).address,
        final(slot).seq == old(slot).seq,
        final(slot).awaiting == old(slot).awaiting,
        message_effect(*old(slot), *final(slot), msg@, r),
        final(slot).state != CpPdState::Offline && !(msg@ == seq![REPLY_ACK]
            && old(slot).pending_key is Some) ==> final(slot).sc == old(slot).sc,
{
    let d = msg.as_slice();
    let mut event: Option<OsdpEvent> = None;
    let is_nak = d.len() >= 1 && d[0] == REPLY_NAK;
    if is_nak {
        if slot.naks + 1 >= NAK_LIMIT {
            slot.naks = 0;
            slot.state = CpPdState::Offline;
        } else {
            slot.naks = slot.naks + 1;
        }
    } else {
        slot.naks = 0;
        let is_ack = d.len() == 1 && d[0] == REPLY_ACK;
        assert(is_ack == (msg@ == seq![REPLY_ACK])) by {
            if msg@ == seq![REPLY_ACK] {
                assert(msg@.len() == 1);
            }
            if is_ack {
                assert(msg@ =~= seq![REPLY_ACK]);
            }
        }
        if let Some(key) = slot.pending_key {
            if is_ack {
                slot.scbk = key;
                slot.sc = CpSecure::Off;
                slot.state = CpPdState::ScChlng;
            }
            slot.pending_key = None;
        }
        if let CpPdState::IdReq = slot.state {
            match PdId::decode(d) {
                Ok(id) => {
                    slot.id = Some(id);
                    slot.state = CpPdState::CapReq;
                },
                Err(_) => {
                    slot.state = CpPdState::Offline;
                },
            }
        } else if let CpPdState::CapReq = slot.state {
            match decode_capabilities(d) {
                Ok(caps) => {
                    slot.caps = caps;
                    slot.state = if wants_sc(&slot) {
                        CpPdState::ScChlng
                    } else {
                        CpPdState::Online
                    };
                },
                Err(_) => {
                    slot.state = CpPdState::Offline;
                },
            }
        } else if !is_ack {
            match OsdpEvent::decode(d) {
                Ok(e) => {
                    if let CpPdState::Online = slot.state {
                        event = Some(e);
                    }
                },
                Err(_) => {
                    if slot.flags.bits & FLAG_IGN_UNSOLICITED == 0 {
                        slot.state = CpPdState::Offline;
                    }
                },
            }
        }
    }
    if let CpPdState::Offline = slot.state {
        slot.sc = CpSecure::Off;
    }
    event
}

/// Whether the CP sets up a secure channel with the PD of slot `s`: its
/// flags ask for security or install mode, or the PD reported secure
/// channel support.
fn wants_sc(s: &PdSlot) -> (r: bool)
    ensures
        r == wants_sc_spec(s.flags, s.caps@),
{
    if s.flags.bits & (FLAG_ENFORCE_SECURE | crate::flags::FLAG_INSTALL_MODE) != 0 {
        return true;
    }
    let mut i: usize = 0;
    while i < s.caps.len()
        invariant
            i <= s.caps@.len(),
            s.flags.bits & (FLAG_ENFORCE_SECURE | crate::flags::FLAG_INSTALL_MODE) == 0,
            forall|j: int|
                0 <= j < i ==> !(crate::pdcap::cap_code(#[trigger] s.caps@[j]) == 9
                    && crate::pdcap::cap_entity(s.caps@[j]).compliance != 0),
        decreases s.caps@.len() - i,
    {
        let c = s.caps[i];
        if c.function_code() == 9 && c.entity().compliance != 0 {
            return true;
        }
        i += 1;
    }
    false
}

/// A failed handshake or MAC: the session ends. Under `EnforceSecure` the
/// handshake is tried once more, then the PD goes offline; otherwise the PD
/// stays online in plaintext.
fn sc_fail(slot: &mut PdSlot)
    requires
        old(slot).wf(),
    ensures
        final(slot).wf(),
        final(slot).sc is Off,
        final(slot).address == old(slot).address,
        final(slot).seq == old(slot).seq,
        final(slot).awaiting == old(slot).awaiting,
        final(slot).state == sc_fail_state(*old(slot)),
        final(slot).naks == old(slot).naks,
        final(slot).queue == old(slot).queue,
{
    slot.sc = CpSecure::Off;
    if slot.flags.bits & FLAG_ENFORCE_SECURE != 0 {
        if slot.sc_failures >= 1 {
            slot.sc_failures = 0;
            slot.state = CpPdState::Offline;
        } else {
            slot.sc_failures = 1;
            slot.state = CpPdState::ScChlng;
        }
    } else {
        slot.state = CpPdState::Online;
    }
}

/// Handles the PD's answer to a challenge: a good client cryptogram moves
/// the handshake on to the server cryptogram; anything else fails it.
fn handle_ccrypt(slot: &mut PdSlot, p: &OsdpPacket)
    requires
        old(slot).wf(),
    ensures
        final(slot).wf(),
        final(slot).address == old(slot).address,
        final(slot).seq == old(slot).seq,
        final(slot).awaiting == old(slot).awaiting,
        final(slot).queue == old(slot).queue,
        ccrypt_ok(*old(slot), p@) ==> final(slot).state == CpPdState::ScScrypt && (final(slot).sc matches CpSecure::Scrypt(hs) && crate::sc::keys_match(hs.keys, cp_key(*old(slot)), old(slot).sc->Challenge_0@) && hs.server@ == crate::aes::aes128_encrypt_spec(hs.keys.s_enc@, p.data@.subrange(9, 17) + old(slot).sc->Challenge_0@)),
        !ccrypt_ok(*old(slot), p@) ==> final(slot).sc is Off && final(slot).state == sc_fail_state(*old(slot)),
{
    if let CpSecure::Challenge(rnd_a) = slot.sc {
        let d = p.data.as_slice();
        if p.scb.len() >= 2 && p.scb[1] == SCS_12 && d.len() == 33 && d[0] == REPLY_CCRYPT {
            let use_default = slot.flags.install_mode_allowed();
            if let Ok(key) = select_scbk(slot.flags, &slot.scbk, use_default) {
                let payload = crate::bytes::copy_range(d, 1, 33);
                assert(key@ == cp_key(*slot));
                assert(payload@.subrange(16, 32) =~= p.data@.subrange(17, 33));
                assert(payload@.subrange(8, 16) =~= p.data@.subrange(9, 17));
                if let Ok((hs, _)) = cp_check_client_cryptogram(&key, &rnd_a, payload.as_slice()) {
                    slot.sc = CpSecure::Scrypt(hs);
                    slot.state = CpPdState::ScScrypt;
                    return;
                }
            }
        }
    }
    sc_fail(slot);
}

/// Handles the PD's initial R-MAC: a good one brings the session up and the
/// PD online; anything else fails the handshake.
fn handle_rmac_i(slot: &mut PdSlot, p: &OsdpPacket)
    requires
        old(slot).wf(),
    ensures
        final(slot).wf(),
        final(slot).address == old(slot).address,
        final(slot).seq == old(slot).seq,
        final(slot).awaiting == old(slot).awaiting,
        final(slot).queue == old(slot).queue,
        rmac_ok(*old(slot), p@) ==> final(slot).sc is Active && final(slot).state == CpPdState::Online,
        !rmac_ok(*old(slot), p@) ==> final(slot).sc is Off && final(slot).state == sc_fail_state(*old(slot)),
{
    if let CpSecure::Scrypt(hs) = slot.sc {
        let d = p.data.as_slice();
        if p.scb.len() >= 2 && p.scb[1] == SCS_14 && d.len() == 17 && d[0] == REPLY_RMAC_I {
            let got = crate::bytes::copy_range(d, 1, 17);
            if let Ok(session) = cp_check_initial_rmac(&hs, got.as_slice()) {
                slot.sc = CpSecure::Active(session);
                slot.state = CpPdState::Online;
                slot.sc_failures = 0;
                return;
            }
        }
    }
    sc_fail(slot);
}

/// Time a secure channel handshake may take, in milliseconds.
pub const SC_TIMEOUT_MS: u64 = 800;
/// Wait before trying a failed secure channel again, in milliseconds.
pub const SC_RETRY_MS: u64 = 600_000;

/// First wait before bringing an offline PD back, in milliseconds.
pub const RETRY_WAIT_MS: u64 = 300;
/// Longest wait before bringing an offline PD back, in milliseconds.
pub const ONLINE_RETRY_WAIT_MAX_MS: u64 = 300_000;

/// Wait before the attempt after `attempts` failed ones: doubling from
/// `RETRY_WAIT_MS`, capped at `ONLINE_RETRY_WAIT_MAX_MS`.
pub open spec fn retry_delay_spec(attempts: nat) -> u64
    decreases attempts,
{
    if attempts == 0 {
        RETRY_WAIT_MS
    } else {
        let d = retry_delay_spec((attempts - 1) as nat);
        if 2 * d > ONLINE_RETRY_WAIT_MAX_MS {
            ONLINE_RETRY_WAIT_MAX_MS
        } else {
            (2 * d) as u64
        }
    }
}

/// The delay never exceeds the cap.
proof fn lemma_retry_delay_capped(attempts: nat)
    ensures
        retry_delay_spec(attempts) <= ONLINE_RETRY_WAIT_MAX_MS,
    decreases attempts,
{
    if attempts > 0 {
        lemma_retry_delay_capped((attempts - 1) as nat);
    }
}

/// Wait before the next attempt to bring a PD back online after `attempts`
/// failed ones (see `retry_delay_spec`).
pub fn retry_delay_ms(attempts: u32) -> (r: u64)
    ensures
        r == retry_delay_spec(attempts as nat),
        RETRY_WAIT_MS <= r <= ONLINE_RETRY_WAIT_MAX_MS,
{
    let mut d: u64 = RETRY_WAIT_MS;
    let mut k: u32 = 0;
    while k < attempts
        invariant
            k <= attempts,
            d == retry_delay_spec(k as nat),
            RETRY_WAIT_MS <= d <= ONLINE_RETRY_WAIT_MAX_MS,
        decreases attempts - k,
    {
        if d >= ONLINE_RETRY_WAIT_MAX_MS {
            proof {
                lemma_retry_delay_capped(attempts as nat);
                lemma_retry_delay_stays((k + 1) as nat, attempts as nat);
            }
            return ONLINE_RETRY_WAIT_MAX_MS;
        }
        d = if 2 * d > ONLINE_RETRY_WAIT_MAX_MS {
            ONLINE_RETRY_WAIT_MAX_MS
        } else {
            2 * d
        };
        k += 1;
    }
    d
}

/// Time a PD has to reply to a frame, in milliseconds.
pub const RESP_TIMEOUT_MS: u64 = 200;

/// `a + b`, or `u64::MAX` when that does not fit.
pub open spec fn saturating_add_spec(a: u64, b: u64) -> u64 {
    if a + b > u64::MAX {
        u64::MAX
    } else {
        (a + b) as u64
    }
}

/// The timing decisions of a CP for one PD, on a millisecond clock that
/// the application keeps: the response deadline, the backoff after failed
/// attempts to bring the PD online, and the secure channel retry period.
#[derive(Clone, Copy, Debug, PartialEq, Eq)]
pub struct PdTimers {
    /// Failed attempts since the PD was last online
    pub failures: u32,
    /// No frame goes to the PD before this time
    pub retry_at_ms: u64,
    /// When the frame awaiting a reply was sent
    pub sent_at_ms: Option<u64>,
    /// When the last secure channel attempt began failing, if one did
    pub sc_failed_at_ms: Option<u64>,
}

impl PdTimers {
    /// Timers of a PD not yet tried.
    pub fn new() -> (r: Self)
        ensures
            r == (PdTimers { failures: 0, retry_at_ms: 0, sent_at_ms: None, sc_failed_at_ms: None }),
    {
        PdTimers { failures: 0, retry_at_ms: 0, sent_at_ms: None, sc_failed_at_ms: None }
    }

    /// Whether a frame may go to the PD at `now_ms`: its backoff is over.
    pub fn may_send(&self, now_ms: u64) -> (r: bool)
        ensures
            r == (now_ms >= self.retry_at_ms),
    {
        now_ms >= self.retry_at_ms
    }

    /// A frame went to the PD at `now_ms`.
    pub fn sent(&mut self, now_ms: u64)
        ensures
            *final(self) == (PdTimers { sent_at_ms: Some(now_ms), ..*old(self) }),
    {
        self.sent_at_ms = Some(now_ms);
    }

    /// The PD replied.
    pub fn answered(&mut self)
        ensures
            *final(self) == (PdTimers { sent_at_ms: None, ..*old(self) }),
    {
        self.sent_at_ms = None;
    }

    /// Whether the reply is overdue at `now_ms`: more than `RESP_TIMEOUT_MS`
    /// since the frame went out.
    pub fn reply_overdue(&self, now_ms: u64) -> (r: bool)
        ensures
            r == (self.sent_at_ms is Some && now_ms >= self.sent_at_ms->Some_0 && now_ms
                - self.sent_at_ms->Some_0 > RESP_TIMEOUT_MS),
    {
        match self.sent_at_ms {
            Some(t) => now_ms >= t && now_ms - t > RESP_TIMEOUT_MS,
            None => false,
        }
    }

    /// The reply did not come in time (at `now_ms`): the next attempt waits
    /// `retry_delay_ms(failures)`, and the failure is counted.
    pub fn failed(&mut self, now_ms: u64)
        ensures
            final(self).sent_at_ms is None,
            final(self).retry_at_ms == saturating_add_spec(now_ms, retry_delay_spec(old(self).failures as nat)),
            final(self).failures == if old(self).failures == u32::MAX {
                u32::MAX
            } else {
                (old(self).failures + 1) as u32
            },
            final(self).sc_failed_at_ms == old(self).sc_failed_at_ms,
    {
        let d = retry_delay_ms(self.failures);
        self.retry_at_ms = if now_ms > u64::MAX - d {
            u64::MAX
        } else {
            now_ms + d
        };
        if self.failures < u32::MAX {
            self.failures = self.failures + 1;
        }
        self.sent_at_ms = None;
    }

    /// Follows the PD's state at `now_ms`: an online PD clears the failure
    /// count; a secure channel that is down after a handshake was tried
    /// starts the retry period, which `is_sc_active` ends. Returns whether
    /// the period has run out (`SC_RETRY_MS`), which restarts it.
    pub fn observe(&mut self, now_ms: u64, online: bool, sc_active: bool, sc_tried: bool) -> (r: bool)
        ensures
            online ==> final(self).failures == 0,
            !online ==> final(self).failures == old(self).failures,
            final(self).retry_at_ms == old(self).retry_at_ms,
            final(self).sent_at_ms == old(self).sent_at_ms,
            sc_active || !sc_tried ==> !r && final(self).sc_failed_at_ms is None,
            (!sc_active && sc_tried && old(self).sc_failed_at_ms is None) ==> !r && final(self).sc_failed_at_ms == Some(now_ms),
            (!sc_active && sc_tried && old(self).sc_failed_at_ms is Some) ==> {
                let t = old(self).sc_failed_at_ms->Some_0;
                &&& r == (now_ms >= t && now_ms - t >= SC_RETRY_MS)
                &&& final(self).sc_failed_at_ms == if r {
                    Some(now_ms)
                } else {
                    old(self).sc_failed_at_ms
                }
            },
    {
        if online {
            self.failures = 0;
        }
        if sc_active || !sc_tried {
            self.sc_failed_at_ms = None;
            return false;
        }
        match self.sc_failed_at_ms {
            None => {
                self.sc_failed_at_ms = Some(now_ms);
                false
            },
            Some(t) => {
                if now_ms >= t && now_ms - t >= SC_RETRY_MS {
                    self.sc_failed_at_ms = Some(now_ms);
                    true
                } else {
                    false
                }
            },
        }
    }
}

/// Once the delay reaches the cap it stays there.
proof fn lemma_retry_delay_stays(from: nat, to: nat)
    requires
        from >= 1,
        from <= to + 1,
        retry_delay_spec((from - 1) as nat) == ONLINE_RETRY_WAIT_MAX_MS,
    ensures
        retry_delay_spec(to) == ONLINE_RETRY_WAIT_MAX_MS,
    decreases to + 1 - from,
{
    if from <= to {
        lemma_retry_delay_stays(from + 1, to);
    }
}

} // verus!
