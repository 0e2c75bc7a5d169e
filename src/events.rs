//! Events that a PD reports to its CP, and their encoding on the wire.
//!
//! An encoded event is its one-byte reply code followed by its payload.
use vstd::prelude::*;
use crate::bytes::{copy_range, le16_at, push_u16_le, read_u16_le, u16_le_bytes};
use crate::error::OsdpError;

verus! {

/// Reply code of a raw (bit-wise) card read.
pub const REPLY_RAW: u8 = 0x50;
/// Reply code of a formatted (ASCII) card read.
pub const REPLY_FMT: u8 = 0x51;
/// Reply code of key presses.
pub const REPLY_KEYPAD: u8 = 0x53;
/// Reply code of a manufacturer specific reply.
pub const REPLY_MFGREP: u8 = 0x90;
/// Reply code of a local status report.
pub const REPLY_LSTATR: u8 = 0x48;
/// Reply code of an input status report.
pub const REPLY_ISTATR: u8 = 0x49;
/// Reply code of an output status report.
pub const REPLY_OSTATR: u8 = 0x4A;
/// Reply code of a remote status report.
pub const REPLY_RSTATR: u8 = 0x4B;

/// Largest card data that a card read carries.
pub const CARDREAD_MAX_LEN: usize = 64;
/// Largest number of keys that a key press event carries.
pub const KEYPRESS_MAX_LEN: usize = 64;
/// Largest data that a manufacturer specific reply carries.
pub const MFGREP_MAX_LEN: usize = 128;
/// Largest number of entries in a status report.
pub const STATUS_MAX_ENTRIES: usize = 32;

/// Card formats that a PD reports.
#[derive(Clone, Copy, Debug, Default, PartialEq, Eq)]
pub enum OsdpCardFormats {
    /// Format not specified; raw bytes
    Unspecified,
    /// Wiegand bits
    Weigand,
    /// ASCII characters
    #[default]
    Ascii,
}

/// A card read on the PD.
#[derive(Clone, Debug, Default, PartialEq, Eq)]
pub struct OsdpEventCardRead {
    /// Reader that read the card; 0 is the PD itself
    pub reader_no: i32,
    /// Format of the card data
    pub format: OsdpCardFormats,
    /// Direction of the read: false forward, true backward
    pub direction: bool,
    /// Number of valid bits in `data` for the Wiegand format; zero for the others
    pub nr_bits: usize,
    /// Card data: bits or bytes, as the format says
    pub data: Vec<u8>,
}

/// What a card read holds.
pub struct CardReadView {
    pub reader_no: i32,
    pub format: OsdpCardFormats,
    pub direction: bool,
    pub nr_bits: usize,
    pub data: Seq<u8>,
}

impl View for OsdpEventCardRead {
    type V = CardReadView;

    open spec fn view(&self) -> CardReadView {
        CardReadView {
            reader_no: self.reader_no,
            format: self.format,
            direction: self.direction,
            nr_bits: self.nr_bits,
            data: self.data@,
        }
    }
}

impl OsdpEventCardRead {
    /// An ASCII card read on the PD itself, in the forward direction.
    pub fn new_ascii(data: Vec<u8>) -> (r: Self)
        ensures
            r@ == (CardReadView {
                reader_no: 0,
                format: OsdpCardFormats::Ascii,
                direction: false,
                nr_bits: 0,
                data: data@,
            }),
    {
        Self { reader_no: 0, format: OsdpCardFormats::Ascii, direction: false, nr_bits: 0, data }
    }

    /// A Wiegand card read on the PD itself, in the forward direction; fails
    /// when `data` holds fewer than `nr_bits` bits.
    pub fn new_weigand(nr_bits: usize, data: Vec<u8>) -> (r: Result<Self, OsdpError>)
        ensures
            nr_bits > data@.len() * 8 ==> r == Err::<Self, OsdpError>(OsdpError::Command),
            nr_bits <= data@.len() * 8 ==> r is Ok && r->Ok_0@ == (CardReadView {
                reader_no: 0,
                format: OsdpCardFormats::Weigand,
                direction: false,
                nr_bits,
                data: data@,
            }),
    {
        if data.len() <= usize::MAX / 8 && nr_bits > data.len() * 8 {
            return Err(OsdpError::Command);
        }
        Ok(Self { reader_no: 0, format: OsdpCardFormats::Weigand, direction: false, nr_bits, data })
    }
}

/// Key presses on the PD.
#[derive(Clone, Debug, PartialEq, Eq)]
pub struct OsdpEventKeyPress {
    /// Reader on which the keys were pressed; 0 is the PD itself
    pub reader_no: i32,
    /// The keys
    pub data: Vec<u8>,
}

/// What a key press event holds.
pub struct KeyPressView {
    pub reader_no: i32,
    pub data: Seq<u8>,
}

impl View for OsdpEventKeyPress {
    type V = KeyPressView;

    open spec fn view(&self) -> KeyPressView {
        KeyPressView { reader_no: self.reader_no, data: self.data@ }
    }
}

impl OsdpEventKeyPress {
    /// A key press event on the PD itself for the keys in `data`.
    pub fn new(data: Vec<u8>) -> (r: Self)
        ensures
            r.reader_no == 0,
            r.data@ == data@,
    {
        Self { reader_no: 0, data }
    }
}

/// Reply to a manufacturer specific command.
#[derive(Debug, Default, PartialEq, Eq)]
pub struct OsdpEventMfgReply {
    /// 3-byte IEEE assigned OUI, least significant byte first
    pub vendor_code: (u8, u8, u8),
    /// Reply code
    pub reply: u8,
    /// Reply data
    pub data: Vec<u8>,
}

impl Clone for OsdpEventMfgReply {
    fn clone(&self) -> (r: Self)
        ensures
            r@ == self@,
    {
        Self { vendor_code: self.vendor_code, reply: self.reply, data: self.data.clone() }
    }
}

/// What a manufacturer specific reply holds.
pub struct MfgReplyView {
    pub vendor_code: (u8, u8, u8),
    pub reply: u8,
    pub data: Seq<u8>,
}

impl View for OsdpEventMfgReply {
    type V = MfgReplyView;

    open spec fn view(&self) -> MfgReplyView {
        MfgReplyView { vendor_code: self.vendor_code, reply: self.reply, data: self.data@ }
    }
}

/// Kinds of status report.
#[derive(Clone, Copy, Debug, PartialEq, Eq)]
pub enum OsdpStatusReportType {
    /// Input status
    Input,
    /// Output status
    Output,
    /// Remote (attached reader) status
    Remote,
    /// Local status: tamper and power
    Local,
}

/// A status report: bit `i` of `mask` is the state of entry `i`.
#[derive(Clone, Copy, Debug, PartialEq, Eq)]
pub struct OsdpStatusReport {
    /// Kind of report
    pub type_: OsdpStatusReportType,
    /// Number of entries reported
    pub nr_entries: usize,
    /// Entry states, one bit each
    pub mask: u32,
}

impl OsdpStatusReport {
    /// An input status report.
    pub fn new_input(nr_entries: usize, mask: u32) -> (r: Self)
        ensures
            r == (OsdpStatusReport { type_: OsdpStatusReportType::Input, nr_entries, mask }),
    {
        Self { type_: OsdpStatusReportType::Input, nr_entries, mask }
    }

    /// An output status report.
    pub fn new_output(nr_entries: usize, mask: u32) -> (r: Self)
        ensures
            r == (OsdpStatusReport { type_: OsdpStatusReportType::Output, nr_entries, mask }),
    {
        Self { type_: OsdpStatusReportType::Output, nr_entries, mask }
    }
}

/// A change of input or output state, as a 32-bit mask.
#[derive(Clone, Copy, Debug, Default, PartialEq, Eq)]
pub struct OsdpEventIO {
    /// 0 for inputs, 1 for outputs
    pub type_: i32,
    /// Bit `i` is the state of input or output `i`
    pub status: u32,
}

impl OsdpEventIO {
    /// An input change with the given mask.
    pub fn new_input(mask: u32) -> (r: Self)
        ensures
            r == (OsdpEventIO { type_: 0, status: mask }),
    {
        Self { type_: 0, status: mask }
    }

    /// An output change with the given mask.
    pub fn new_output(mask: u32) -> (r: Self)
        ensures
            r == (OsdpEventIO { type_: 1, status: mask }),
    {
        Self { type_: 1, status: mask }
    }

    /// The status report of the first `nr_entries` inputs or outputs.
    pub fn to_status_report(&self, nr_entries: usize) -> (r: OsdpStatusReport)
        ensures
            r.type_ == if self.type_ == 1 {
                OsdpStatusReportType::Output
            } else {
                OsdpStatusReportType::Input
            },
            r.nr_entries == nr_entries,
            r.mask == self.status,
    {
        let type_ = if self.type_ == 1 {
            OsdpStatusReportType::Output
        } else {
            OsdpStatusReportType::Input
        };
        OsdpStatusReport { type_, nr_entries, mask: self.status }
    }
}

/// Tamper and power state of the PD.
#[derive(Clone, Copy, Debug, Default, PartialEq, Eq)]
pub struct OsdpEventStatus {
    /// 0 normal, 1 tamper
    pub tamper: u8,
    /// 0 normal, 1 power failure
    pub power: u8,
}

impl OsdpEventStatus {
    /// The local status report: entry 0 is tamper, entry 1 power.
    pub fn to_status_report(&self) -> (r: OsdpStatusReport)
        ensures
            r.type_ == OsdpStatusReportType::Local,
            r.nr_entries == 2,
            r.mask == (if self.tamper != 0 { 1u32 } else { 0u32 }) + (if self.power != 0 {
                2u32
            } else {
                0u32
            }),
    {
        let t: u32 = if self.tamper != 0 { 1 } else { 0 };
        let p: u32 = if self.power != 0 { 2 } else { 0 };
        OsdpStatusReport { type_: OsdpStatusReportType::Local, nr_entries: 2, mask: t + p }
    }
}

/// Events that a PD reports to its CP.
#[derive(Clone, Debug, PartialEq, Eq)]
pub enum OsdpEvent {
    /// A card read
    CardRead(OsdpEventCardRead),
    /// Key presses
    KeyPress(OsdpEventKeyPress),
    /// Reply to a manufacturer specific command
    MfgReply(OsdpEventMfgReply),
    /// Input, output, tamper or power status
    Status(OsdpStatusReport),
}

/// What an event holds.
pub enum EventView {
    CardRead(CardReadView),
    KeyPress(KeyPressView),
    MfgReply(MfgReplyView),
    Status(OsdpStatusReport),
}

impl View for OsdpEvent {
    type V = EventView;

    open spec fn view(&self) -> EventView {
        match self {
            OsdpEvent::CardRead(e) => EventView::CardRead(e@),
            OsdpEvent::KeyPress(e) => EventView::KeyPress(e@),
            OsdpEvent::MfgReply(e) => EventView::MfgReply(e@),
            OsdpEvent::Status(e) => EventView::Status(*e),
        }
    }
}

/// Mask of the `n` lowest bits.
pub open spec fn low_bits(n: u32) -> u32 {
    if n >= 32 {
        0xFFFF_FFFFu32
    } else {
        ((1u32 << n) - 1) as u32
    }
}

/// The report bytes of a mask: byte `i` is bit `i`.
pub open spec fn mask_bytes(mask: u32, n: nat) -> Seq<u8> {
    Seq::new(n, |i: int| ((mask >> (i as u32)) & 1u32) as u8)
}

/// The mask that report bytes give: bit `i` is the low bit of byte `i`.
pub open spec fn bytes_mask(s: Seq<u8>) -> u32
    decreases s.len(),
{
    if s.len() == 0 {
        0
    } else {
        bytes_mask(s.drop_last()) | (((s.last() & 1u8) as u32) << ((s.len() - 1) as u32))
    }
}

/// The reply code of a status report.
pub open spec fn status_code(t: OsdpStatusReportType) -> u8 {
    match t {
        OsdpStatusReportType::Local => REPLY_LSTATR,
        OsdpStatusReportType::Input => REPLY_ISTATR,
        OsdpStatusReportType::Output => REPLY_OSTATR,
        OsdpStatusReportType::Remote => REPLY_RSTATR,
    }
}

/// The reply code of an event.
pub open spec fn event_code(e: EventView) -> u8 {
    match e {
        EventView::CardRead(c) => if c.format == OsdpCardFormats::Ascii {
            REPLY_FMT
        } else {
            REPLY_RAW
        },
        EventView::KeyPress(_) => REPLY_KEYPAD,
        EventView::MfgReply(_) => REPLY_MFGREP,
        EventView::Status(s) => status_code(s.type_),
    }
}

/// The payload of an event: what follows its reply code. A raw card read
/// carries a bit count: `nr_bits` for Wiegand, eight per byte otherwise.
pub open spec fn event_payload(e: EventView) -> Seq<u8> {
    match e {
        EventView::CardRead(c) => if c.format == OsdpCardFormats::Ascii {
            seq![c.reader_no as u8, if c.direction { 1u8 } else { 0u8 }, c.data.len() as u8]
                + c.data
        } else {
            seq![c.reader_no as u8, if c.format == OsdpCardFormats::Weigand { 1u8 } else { 0u8 }]
                + u16_le_bytes(
                if c.format == OsdpCardFormats::Weigand {
                    c.nr_bits as u16
                } else {
                    (c.data.len() * 8) as u16
                },
            ) + c.data
        },
        EventView::KeyPress(k) => seq![k.reader_no as u8, k.data.len() as u8] + k.data,
        EventView::MfgReply(m) => seq![m.vendor_code.0, m.vendor_code.1, m.vendor_code.2, m.reply]
            + m.data,
        EventView::Status(s) => mask_bytes(s.mask, s.nr_entries as nat),
    }
}

/// The bytes of an encoded event: its reply code, then its payload.
pub open spec fn event_bytes(e: EventView) -> Seq<u8> {
    seq![event_code(e)] + event_payload(e)
}

/// An event that its encoding carries in full: readers fit a byte, data
/// fits its limit, a Wiegand read has exactly the bytes its bits need and
/// goes forward, other reads count no bits, and a status mask has no bit
/// beyond its entries.
pub open spec fn event_wf(e: EventView) -> bool {
    match e {
        EventView::CardRead(c) => 0 <= c.reader_no < 256 && c.data.len() <= CARDREAD_MAX_LEN && (
        if c.format == OsdpCardFormats::Weigand {
            !c.direction && c.data.len() == (c.nr_bits + 7) / 8
        } else if c.format == OsdpCardFormats::Unspecified {
            !c.direction && c.nr_bits == 0
        } else {
            c.nr_bits == 0
        }),
        EventView::KeyPress(k) => 0 <= k.reader_no < 256 && k.data.len() <= KEYPRESS_MAX_LEN,
        EventView::MfgReply(m) => m.data.len() <= MFGREP_MAX_LEN,
        EventView::Status(s) => s.nr_entries <= STATUS_MAX_ENTRIES && s.mask & low_bits(
            s.nr_entries as u32,
        ) == s.mask,
    }
}

/// The status report with reply code `op` whose entries are `m[1..]`.
pub open spec fn parse_status(t: OsdpStatusReportType, m: Seq<u8>) -> Option<EventView> {
    if m.len() - 1 > STATUS_MAX_ENTRIES {
        None
    } else {
        Some(
            EventView::Status(
                OsdpStatusReport {
                    type_: t,
                    nr_entries: (m.len() - 1) as usize,
                    mask: bytes_mask(m.subrange(1, m.len() as int)),
                },
            ),
        )
    }
}

/// The event that the bytes `m` (reply code first) encode, if any.
pub open spec fn parse_event(m: Seq<u8>) -> Option<EventView> {
    if m.len() == 0 {
        None
    } else {
        let op = m[0];
        let n = m.len();
        if op == REPLY_RAW {
            if n < 5 || m[2] > 1 || n - 5 > CARDREAD_MAX_LEN {
                None
            } else {
                let bits = le16_at(m, 3);
                if m[2] == 1 {
                    if n - 5 != (bits + 7) / 8 {
                        None
                    } else {
                        Some(
                            EventView::CardRead(
                                CardReadView {
                                    reader_no: m[1] as i32,
                                    format: OsdpCardFormats::Weigand,
                                    direction: false,
                                    nr_bits: bits as usize,
                                    data: m.subrange(5, n as int),
                                },
                            ),
                        )
                    }
                } else {
                    if bits != (n - 5) * 8 {
                        None
                    } else {
                        Some(
                            EventView::CardRead(
                                CardReadView {
                                    reader_no: m[1] as i32,
                                    format: OsdpCardFormats::Unspecified,
                                    direction: false,
                                    nr_bits: 0,
                                    data: m.subrange(5, n as int),
                                },
                            ),
                        )
                    }
                }
            }
        } else if op == REPLY_FMT {
            if n < 4 || m[2] > 1 || m[3] > CARDREAD_MAX_LEN || n != 4 + m[3] {
                None
            } else {
                Some(
                    EventView::CardRead(
                        CardReadView {
                            reader_no: m[1] as i32,
                            format: OsdpCardFormats::Ascii,
                            direction: m[2] == 1,
                            nr_bits: 0,
                            data: m.subrange(4, n as int),
                        },
                    ),
                )
            }
        } else if op == REPLY_KEYPAD {
            if n < 3 || m[2] > KEYPRESS_MAX_LEN || n != 3 + m[2] {
                None
            } else {
                Some(
                    EventView::KeyPress(
                        KeyPressView { reader_no: m[1] as i32, data: m.subrange(3, n as int) },
                    ),
                )
            }
        } else if op == REPLY_MFGREP {
            if n < 5 || n - 5 > MFGREP_MAX_LEN {
                None
            } else {
                Some(
                    EventView::MfgReply(
                        MfgReplyView {
                            vendor_code: (m[1], m[2], m[3]),
                            reply: m[4],
                            data: m.subrange(5, n as int),
                        },
                    ),
                )
            }
        } else if op == REPLY_LSTATR {
            parse_status(OsdpStatusReportType::Local, m)
        } else if op == REPLY_ISTATR {
            parse_status(OsdpStatusReportType::Input, m)
        } else if op == REPLY_OSTATR {
            parse_status(OsdpStatusReportType::Output, m)
        } else if op == REPLY_RSTATR {
            parse_status(OsdpStatusReportType::Remote, m)
        } else {
            None
        }
    }
}


/// Report bytes read back give the mask cut to its first `n` bits.
pub proof fn lemma_mask_round_trip(mask: u32, n: nat)
    requires
        n <= 32,
    ensures
        bytes_mask(mask_bytes(mask, n)) == mask & low_bits(n as u32),
    decreases n,
{
    if n == 0 {
        assert(mask & (((1u32 << 0u32) - 1) as u32) == 0) by (bit_vector);
    } else {
        let s = mask_bytes(mask, n);
        let k = (n - 1) as u32;
        assert(s.drop_last() =~= mask_bytes(mask, (n - 1) as nat));
        lemma_mask_round_trip(mask, (n - 1) as nat);
        let b = ((mask >> k) & 1u32) as u8;
        assert(s.last() == b);
        assert(((b & 1u8) as u32) == (mask >> k) & 1u32) by (bit_vector)
            requires
                b == ((mask >> k) & 1u32) as u8,
        ;
        if k == 31 {
            assert((mask & (((1u32 << 31u32) - 1) as u32)) | (((mask >> 31u32) & 1u32) << 31u32)
                == mask & 0xFFFF_FFFFu32) by (bit_vector);
        } else {
            assert((mask & (((1u32 << k) - 1) as u32)) | (((mask >> k) & 1u32) << k) == mask & ((
            (1u32 << ((k + 1) as u32)) - 1) as u32)) by (bit_vector)
                requires
                    k < 31,
            ;
        }
    }
}

/// Decoding an encoded well-formed event gives the event back.
pub proof fn lemma_event_round_trip(e: EventView)
    requires
        event_wf(e),
    ensures
        parse_event(event_bytes(e)) == Some(e),
{
    let m = event_bytes(e);
    match e {
        EventView::CardRead(c) => {
            if c.format == OsdpCardFormats::Ascii {
                assert(m.subrange(4, m.len() as int) =~= c.data);
            } else {
                let bits: u16 = if c.format == OsdpCardFormats::Weigand {
                    c.nr_bits as u16
                } else {
                    (c.data.len() * 8) as u16
                };
                assert(m.subrange(3, 5) =~= u16_le_bytes(bits));
                crate::bytes::lemma_u16_le_round_trip(bits, m, 3);
                assert(m.subrange(5, m.len() as int) =~= c.data);
            }
        },
        EventView::KeyPress(k) => {
            assert(m.subrange(3, m.len() as int) =~= k.data);
        },
        EventView::MfgReply(r) => {
            assert(m.subrange(5, m.len() as int) =~= r.data);
        },
        EventView::Status(st) => {
            assert(m.subrange(1, m.len() as int) =~= mask_bytes(st.mask, st.nr_entries as nat));
            lemma_mask_round_trip(st.mask, st.nr_entries as nat);
        },
    }
}

/// Appends the report bytes of the `n` lowest bits of `mask`.
fn push_mask_bytes(out: &mut Vec<u8>, mask: u32, n: usize)
    requires
        n <= STATUS_MAX_ENTRIES,
    ensures
        final(out)@ == old(out)@ + mask_bytes(mask, n as nat),
{
    let mut i: usize = 0;
    while i < n
        invariant
            i <= n <= STATUS_MAX_ENTRIES,
            out@ == old(out)@ + mask_bytes(mask, i as nat),
        decreases n - i,
    {
        out.push(((mask >> (i as u32)) & 1u32) as u8);
        assert(mask_bytes(mask, (i + 1) as nat) =~= mask_bytes(mask, i as nat).push(
            ((mask >> (i as u32)) & 1u32) as u8,
        ));
        i += 1;
    }
}

/// The mask that the report bytes `m[1..]` give.
fn read_mask(m: &[u8]) -> (r: u32)
    requires
        1 <= m@.len() <= 1 + STATUS_MAX_ENTRIES,
    ensures
        r == bytes_mask(m@.subrange(1, m@.len() as int)),
{
    let n = m.len();
    let mut acc: u32 = 0;
    let mut i: usize = 1;
    assert(m@.subrange(1, 1).len() == 0);
    while i < n
        invariant
            1 <= i <= n == m@.len() <= 1 + STATUS_MAX_ENTRIES,
            acc == bytes_mask(m@.subrange(1, i as int)),
        decreases n - i,
    {
        let ghost s = m@.subrange(1, i + 1);
        assert(s.drop_last() =~= m@.subrange(1, i as int));
        assert(s.last() == m@[i as int]);
        acc = acc | (((m[i] & 1u8) as u32) << ((i - 1) as u32));
        i += 1;
    }
    acc
}

/// Status report type of a reply code.
fn status_type(op: u8) -> (r: Option<OsdpStatusReportType>)
    ensures
        r == (if op == REPLY_LSTATR {
            Some(OsdpStatusReportType::Local)
        } else if op == REPLY_ISTATR {
            Some(OsdpStatusReportType::Input)
        } else if op == REPLY_OSTATR {
            Some(OsdpStatusReportType::Output)
        } else if op == REPLY_RSTATR {
            Some(OsdpStatusReportType::Remote)
        } else {
            None
        }),
{
    if op == REPLY_LSTATR {
        Some(OsdpStatusReportType::Local)
    } else if op == REPLY_ISTATR {
        Some(OsdpStatusReportType::Input)
    } else if op == REPLY_OSTATR {
        Some(OsdpStatusReportType::Output)
    } else if op == REPLY_RSTATR {
        Some(OsdpStatusReportType::Remote)
    } else {
        None
    }
}

impl OsdpEvent {
    /// Whether this event can be encoded in full (see `event_wf`).
    pub fn is_encodable(&self) -> (r: bool)
        ensures
            r == event_wf(self@),
    {
        match self {
            OsdpEvent::CardRead(c) => {
                let fits = 0 <= c.reader_no && c.reader_no < 256 && c.data.len()
                    <= CARDREAD_MAX_LEN;
                fits && match c.format {
                    OsdpCardFormats::Weigand => !c.direction && c.nr_bits <= 8 * CARDREAD_MAX_LEN
                        && c.data.len() == (c.nr_bits + 7) / 8,
                    OsdpCardFormats::Unspecified => !c.direction && c.nr_bits == 0,
                    OsdpCardFormats::Ascii => c.nr_bits == 0,
                }
            },
            OsdpEvent::KeyPress(k) => 0 <= k.reader_no && k.reader_no < 256 && k.data.len()
                <= KEYPRESS_MAX_LEN,
            OsdpEvent::MfgReply(m) => m.data.len() <= MFGREP_MAX_LEN,
            OsdpEvent::Status(s) => {
                if s.nr_entries > STATUS_MAX_ENTRIES {
                    false
                } else {
                    let low: u32 = if s.nr_entries == 32 {
                        0xFFFF_FFFFu32
                    } else {
                        let k = s.nr_entries as u32;
                        assert(1u32 << k >= 1) by (bit_vector)
                            requires
                                k < 32,
                        ;
                        (1u32 << k) - 1
                    };
                    s.mask & low == s.mask
                }
            },
        }
    }

    /// Encodes this event: its reply code, then its payload.
    pub fn encode(&self) -> (r: Vec<u8>)
        requires
            event_wf(self@),
        ensures
            r@ == event_bytes(self@),
    {
        let mut out: Vec<u8> = Vec::new();
        match self {
            OsdpEvent::CardRead(c) => {
                match c.format {
                    OsdpCardFormats::Ascii => {
                        out.push(REPLY_FMT);
                        out.push(c.reader_no as u8);
                        out.push(if c.direction { 1u8 } else { 0u8 });
                        out.push(c.data.len() as u8);
                    },
                    OsdpCardFormats::Weigand => {
                        out.push(REPLY_RAW);
                        out.push(c.reader_no as u8);
                        out.push(1u8);
                        push_u16_le(&mut out, c.nr_bits as u16);
                    },
                    OsdpCardFormats::Unspecified => {
                        out.push(REPLY_RAW);
                        out.push(c.reader_no as u8);
                        out.push(0u8);
                        push_u16_le(&mut out, (c.data.len() * 8) as u16);
                    },
                }
                crate::bytes::extend_from(&mut out, c.data.as_slice(), 0, c.data.len());
                proof {
                    assert(c.data@.subrange(0, c.data@.len() as int) =~= c.data@);
                }
            },
            OsdpEvent::KeyPress(k) => {
                out.push(REPLY_KEYPAD);
                out.push(k.reader_no as u8);
                out.push(k.data.len() as u8);
                crate::bytes::extend_from(&mut out, k.data.as_slice(), 0, k.data.len());
                proof {
                    assert(k.data@.subrange(0, k.data@.len() as int) =~= k.data@);
                }
            },
            OsdpEvent::MfgReply(g) => {
                out.push(REPLY_MFGREP);
                out.push(g.vendor_code.0);
                out.push(g.vendor_code.1);
                out.push(g.vendor_code.2);
                out.push(g.reply);
                crate::bytes::extend_from(&mut out, g.data.as_slice(), 0, g.data.len());
                proof {
                    assert(g.data@.subrange(0, g.data@.len() as int) =~= g.data@);
                }
            },
            OsdpEvent::Status(s) => {
                let code = match s.type_ {
                    OsdpStatusReportType::Local => REPLY_LSTATR,
                    OsdpStatusReportType::Input => REPLY_ISTATR,
                    OsdpStatusReportType::Output => REPLY_OSTATR,
                    OsdpStatusReportType::Remote => REPLY_RSTATR,
                };
                out.push(code);
                push_mask_bytes(&mut out, s.mask, s.nr_entries);
            },
        }
        assert(out@ =~= event_bytes(self@));
        out
    }

    /// Decodes an event from its bytes (reply code first). Fails with
    /// `OsdpError::Event` exactly when the bytes encode no event.
    pub fn decode(m: &[u8]) -> (r: Result<OsdpEvent, OsdpError>)
        ensures
            match r {
                Ok(e) => parse_event(m@) == Some(e@),
                Err(err) => parse_event(m@) is None && err == OsdpError::Event,
            },
    {
        let n = m.len();
        if n == 0 {
            return Err(OsdpError::Event);
        }
        let op = m[0];
        if op == REPLY_RAW {
            if n < 5 || m[2] > 1 || n - 5 > CARDREAD_MAX_LEN {
                return Err(OsdpError::Event);
            }
            let bits = read_u16_le(m, 3);
            if m[2] == 1 {
                if n - 5 != (bits as usize + 7) / 8 {
                    return Err(OsdpError::Event);
                }
                Ok(
                    OsdpEvent::CardRead(
                        OsdpEventCardRead {
                            reader_no: m[1] as i32,
                            format: OsdpCardFormats::Weigand,
                            direction: false,
                            nr_bits: bits as usize,
                            data: copy_range(m, 5, n),
                        },
                    ),
                )
            } else {
                if bits as usize != (n - 5) * 8 {
                    return Err(OsdpError::Event);
                }
                Ok(
                    OsdpEvent::CardRead(
                        OsdpEventCardRead {
                            reader_no: m[1] as i32,
                            format: OsdpCardFormats::Unspecified,
                            direction: false,
                            nr_bits: 0,
                            data: copy_range(m, 5, n),
                        },
                    ),
                )
            }
        } else if op == REPLY_FMT {
            if n < 4 || m[2] > 1 || m[3] as usize > CARDREAD_MAX_LEN || n != 4 + m[3] as usize {
                return Err(OsdpError::Event);
            }
            Ok(
                OsdpEvent::CardRead(
                    OsdpEventCardRead {
                        reader_no: m[1] as i32,
                        format: OsdpCardFormats::Ascii,
                        direction: m[2] == 1,
                        nr_bits: 0,
                        data: copy_range(m, 4, n),
                    },
                ),
            )
        } else if op == REPLY_KEYPAD {
            if n < 3 || m[2] as usize > KEYPRESS_MAX_LEN || n != 3 + m[2] as usize {
                return Err(OsdpError::Event);
            }
            Ok(OsdpEvent::KeyPress(OsdpEventKeyPress { reader_no: m[1] as i32, data: copy_range(m, 3, n) }))
        } else if op == REPLY_MFGREP {
            if n < 5 || n - 5 > MFGREP_MAX_LEN {
                return Err(OsdpError::Event);
            }
            Ok(
                OsdpEvent::MfgReply(
                    OsdpEventMfgReply {
                        vendor_code: (m[1], m[2], m[3]),
                        reply: m[4],
                        data: copy_range(m, 5, n),
                    },
                ),
            )
        } else {
            match status_type(op) {
                Some(t) => {
                    if n - 1 > STATUS_MAX_ENTRIES {
                        return Err(OsdpError::Event);
                    }
                    Ok(OsdpEvent::Status(OsdpStatusReport { type_: t, nr_entries: n - 1, mask: read_mask(m) }))
                },
                None => Err(OsdpError::Event),
            }
        }
    }
}

} // verus!
