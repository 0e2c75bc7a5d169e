//! Commands that a CP sends to a PD, and their encoding on the wire.
//!
//! An encoded command is its one-byte opcode followed by its payload.
use vstd::prelude::*;
use crate::bytes::{
    copy_range, le16_at, le32_at, push_u16_le, push_u32_le, read_u16_le, read_u32_le,
    u16_le_bytes, u32_le_bytes,
};
use crate::error::OsdpError;

verus! {

/// Opcode of the output control command.
pub const CMD_OUT: u8 = 0x68;
/// Opcode of the LED control command.
pub const CMD_LED: u8 = 0x69;
/// Opcode of the buzzer control command.
pub const CMD_BUZ: u8 = 0x6A;
/// Opcode of the text output command.
pub const CMD_TEXT: u8 = 0x6B;
/// Opcode of the communication settings command.
pub const CMD_COMSET: u8 = 0x6E;
/// Opcode of the key set command.
pub const CMD_KEYSET: u8 = 0x75;
/// Opcode of the file transfer command.
pub const CMD_FILETRANSFER: u8 = 0x7C;
/// Opcode of the manufacturer specific command.
pub const CMD_MFG: u8 = 0x80;
/// Opcode of the local status query.
pub const CMD_LSTAT: u8 = 0x64;
/// Opcode of the input status query.
pub const CMD_ISTAT: u8 = 0x65;
/// Opcode of the output status query.
pub const CMD_OSTAT: u8 = 0x66;

/// Largest text that a text command carries.
pub const TEXT_MAX_LEN: usize = 32;
/// Largest key that a key set command carries.
pub const KEYSET_MAX_LEN: usize = 32;
/// Largest data that a manufacturer specific command carries.
pub const MFG_MAX_LEN: usize = 64;
/// Bit of `OsdpCommandFileTx::flags` that cancels a transfer; it is never sent.
pub const FILE_TX_FLAG_CANCEL: u32 = 0x8000_0000;

/// LED colors, for the on_color/off_color parameters.
#[derive(Clone, Copy, Debug, Default, PartialEq, Eq)]
pub enum OsdpLedColor {
    /// No color
    #[default]
    NoColor,
    /// Red
    Red,
    /// Green
    Green,
    /// Amber
    Amber,
    /// Blue
    Blue,
    /// Magenta
    Magenta,
    /// Cyan
    Cyan,
}

impl OsdpLedColor {
    /// The wire code of a color.
    pub open spec fn spec_code(self) -> u8 {
        match self {
            OsdpLedColor::NoColor => 0,
            OsdpLedColor::Red => 1,
            OsdpLedColor::Green => 2,
            OsdpLedColor::Amber => 3,
            OsdpLedColor::Blue => 4,
            OsdpLedColor::Magenta => 5,
            OsdpLedColor::Cyan => 6,
        }
    }

    /// The color with wire code `c`, if any.
    pub open spec fn spec_from_code(c: u8) -> Option<OsdpLedColor> {
        if c == 0 {
            Some(OsdpLedColor::NoColor)
        } else if c == 1 {
            Some(OsdpLedColor::Red)
        } else if c == 2 {
            Some(OsdpLedColor::Green)
        } else if c == 3 {
            Some(OsdpLedColor::Amber)
        } else if c == 4 {
            Some(OsdpLedColor::Blue)
        } else if c == 5 {
            Some(OsdpLedColor::Magenta)
        } else if c == 6 {
            Some(OsdpLedColor::Cyan)
        } else {
            None
        }
    }

    /// Returns the wire code of this color.
    pub fn code(&self) -> (r: u8)
        ensures
            r == self.spec_code(),
    {
        match self {
            OsdpLedColor::NoColor => 0,
            OsdpLedColor::Red => 1,
            OsdpLedColor::Green => 2,
            OsdpLedColor::Amber => 3,
            OsdpLedColor::Blue => 4,
            OsdpLedColor::Magenta => 5,
            OsdpLedColor::Cyan => 6,
        }
    }

    /// Returns the color with wire code `c`, or `None` for an unknown code.
    pub fn from_code(c: u8) -> (r: Option<OsdpLedColor>)
        ensures
            r == Self::spec_from_code(c),
    {
        if c == 0 {
            Some(OsdpLedColor::NoColor)
        } else if c == 1 {
            Some(OsdpLedColor::Red)
        } else if c == 2 {
            Some(OsdpLedColor::Green)
        } else if c == 3 {
            Some(OsdpLedColor::Amber)
        } else if c == 4 {
            Some(OsdpLedColor::Blue)
        } else if c == 5 {
            Some(OsdpLedColor::Magenta)
        } else if c == 6 {
            Some(OsdpLedColor::Cyan)
        } else {
            None
        }
    }
}

/// Every color is found again from its code.
pub proof fn lemma_color_code(c: OsdpLedColor)
    ensures
        OsdpLedColor::spec_from_code(c.spec_code()) == Some(c),
{
}

/// LED parameters; part of the LED command.
#[derive(Clone, Copy, Debug, Default, PartialEq, Eq)]
pub struct OsdpLedParams {
    /// What to do with this LED's state (meaning differs for temporary and
    /// permanent parameters).
    pub control_code: u8,
    /// ON duration of the flash, in units of 100 ms
    pub on_count: u8,
    /// OFF duration of the flash, in units of 100 ms
    pub off_count: u8,
    /// Color during the ON time
    pub on_color: OsdpLedColor,
    /// Color during the OFF time
    pub off_color: OsdpLedColor,
    /// Time in units of 100 ms (temporary parameters only)
    pub timer_count: u16,
}

/// Command to control the behaviour of a PD's LEDs.
#[derive(Clone, Copy, Debug, Default, PartialEq, Eq)]
pub struct OsdpCommandLed {
    /// Reader the command is for; 0 is the PD itself
    pub reader: u8,
    /// LED number to operate on
    pub led_number: u8,
    /// Temporary LED activity
    pub temporary: OsdpLedParams,
    /// Permanent LED activity
    pub permanent: OsdpLedParams,
}

/// Command to control a buzzer on the PD.
#[derive(Clone, Copy, Debug, Default, PartialEq, Eq)]
pub struct OsdpCommandBuzzer {
    /// Reader the command is for; 0 is the PD itself
    pub reader: u8,
    /// 0: no tone, 1: off, 2: default tone
    pub control_code: u8,
    /// ON duration, in units of 100 ms
    pub on_count: u8,
    /// OFF duration, in units of 100 ms
    pub off_count: u8,
    /// Number of ON/OFF cycles; 0 repeats forever
    pub rep_count: u8,
}

/// Command to show text on the PD's display.
#[derive(Clone, Debug, Default, PartialEq, Eq)]
pub struct OsdpCommandText {
    /// Reader the command is for; 0 is the PD itself
    pub reader: u8,
    /// 1..4: permanent/temporary text, without/with wrap
    pub control_code: u8,
    /// Duration of temporary text, in seconds
    pub temp_time: u8,
    /// Row of the first character (1 indexed)
    pub offset_row: u8,
    /// Column of the first character (1 indexed)
    pub offset_col: u8,
    /// The text (ASCII codes)
    pub data: Vec<u8>,
}

/// What a text command holds.
pub struct TextView {
    pub reader: u8,
    pub control_code: u8,
    pub temp_time: u8,
    pub offset_row: u8,
    pub offset_col: u8,
    pub data: Seq<u8>,
}

impl View for OsdpCommandText {
    type V = TextView;

    open spec fn view(&self) -> TextView {
        TextView {
            reader: self.reader,
            control_code: self.control_code,
            temp_time: self.temp_time,
            offset_row: self.offset_row,
            offset_col: self.offset_col,
            data: self.data@,
        }
    }
}

/// Command to control a digital output of the PD.
#[derive(Clone, Copy, Debug, Default, PartialEq, Eq)]
pub struct OsdpCommandOutput {
    /// The output to act on; 0 is the first
    pub output_no: u8,
    /// What to do with the output (0..6)
    pub control_code: u8,
    /// Time in units of 100 ms
    pub timer_count: u16,
}

/// Command to set the PD's address and baud rate.
#[derive(Clone, Copy, Debug, Default, PartialEq, Eq)]
pub struct OsdpComSet {
    /// Address the PD answers to after this command
    pub address: u8,
    /// Serial speed
    pub baud_rate: u32,
}

impl OsdpComSet {
    /// Creates a communication settings command.
    pub fn new(address: u8, baud_rate: u32) -> (r: Self)
        ensures
            r.address == address,
            r.baud_rate == baud_rate,
    {
        Self { address, baud_rate }
    }
}

/// Command to install a secure channel key in the PD.
#[derive(Clone, Debug, PartialEq, Eq)]
pub struct OsdpCommandKeyset {
    /// Key type; 1 is a secure channel base key
    pub key_type: u8,
    /// Key data
    pub data: Vec<u8>,
}

/// What a key set command holds.
pub struct KeysetView {
    pub key_type: u8,
    pub data: Seq<u8>,
}

impl View for OsdpCommandKeyset {
    type V = KeysetView;

    open spec fn view(&self) -> KeysetView {
        KeysetView { key_type: self.key_type, data: self.data@ }
    }
}

impl OsdpCommandKeyset {
    /// Creates a key set command for a 16-byte secure channel base key.
    pub fn new_scbk(key: [u8; 16]) -> (r: Self)
        ensures
            r.key_type == 1,
            r.data@ == key@,
    {
        let mut data: Vec<u8> = Vec::new();
        let mut i: usize = 0;
        while i < 16
            invariant
                i <= 16,
                data@ == key@.subrange(0, i as int),
            decreases 16 - i,
        {
            data.push(key[i]);
            assert(key@.subrange(0, i + 1) =~= key@.subrange(0, i as int).push(key@[i as int]));
            i += 1;
        }
        assert(key@.subrange(0, 16) =~= key@);
        Self { key_type: 1, data }
    }
}

/// Manufacturer specific command.
#[derive(Debug, Default, PartialEq, Eq)]
pub struct OsdpCommandMfg {
    /// 3-byte IEEE assigned OUI, least significant byte first
    pub vendor_code: (u8, u8, u8),
    /// Manufacturer defined command id
    pub command: u8,
    /// Command data
    pub data: Vec<u8>,
}

/// What a manufacturer specific command holds.
pub struct MfgView {
    pub vendor_code: (u8, u8, u8),
    pub command: u8,
    pub data: Seq<u8>,
}

impl Clone for OsdpCommandMfg {
    fn clone(&self) -> (r: Self)
        ensures
            r@ == self@,
    {
        Self { vendor_code: self.vendor_code, command: self.command, data: self.data.clone() }
    }
}

impl View for OsdpCommandMfg {
    type V = MfgView;

    open spec fn view(&self) -> MfgView {
        MfgView { vendor_code: self.vendor_code, command: self.command, data: self.data@ }
    }
}

/// Command that starts a file transfer to the PD.
#[derive(Clone, Copy, Debug, Default, PartialEq, Eq)]
pub struct OsdpCommandFileTx {
    /// Id of the file, shared in advance by CP and PD
    pub id: i32,
    /// Reserved; the top bit cancels a transfer in progress and is not sent
    pub flags: u32,
}

impl OsdpCommandFileTx {
    /// Creates a file transfer command.
    pub fn new(id: i32, flags: u32) -> (r: Self)
        ensures
            r.id == id,
            r.flags == flags,
    {
        Self { id, flags }
    }
}

/// Status queries.
#[derive(Clone, Copy, Debug, Default, PartialEq, Eq)]
pub enum OsdpCommandStatus {
    /// Local status (tamper and power)
    #[default]
    Local,
    /// Input status
    Input,
    /// Output status
    Output,
}

/// Commands that a CP sends to a PD.
#[derive(Clone, Debug, PartialEq, Eq)]
pub enum OsdpCommand {
    /// Control the PD's LEDs
    Led(OsdpCommandLed),
    /// Control the PD's buzzer
    Buzzer(OsdpCommandBuzzer),
    /// Show text on the PD
    Text(OsdpCommandText),
    /// Control a digital output
    Output(OsdpCommandOutput),
    /// Set the PD's communication parameters
    ComSet(OsdpComSet),
    /// Install a secure channel key
    KeySet(OsdpCommandKeyset),
    /// Manufacturer specific command
    Mfg(OsdpCommandMfg),
    /// Start a file transfer
    FileTx(OsdpCommandFileTx),
    /// Query a status
    Status(OsdpCommandStatus),
}

/// What a command holds.
pub enum CommandView {
    Led(OsdpCommandLed),
    Buzzer(OsdpCommandBuzzer),
    Text(TextView),
    Output(OsdpCommandOutput),
    ComSet(OsdpComSet),
    KeySet(KeysetView),
    Mfg(MfgView),
    FileTx(OsdpCommandFileTx),
    Status(OsdpCommandStatus),
}

impl View for OsdpCommand {
    type V = CommandView;

    open spec fn view(&self) -> CommandView {
        match self {
            OsdpCommand::Led(c) => CommandView::Led(*c),
            OsdpCommand::Buzzer(c) => CommandView::Buzzer(*c),
            OsdpCommand::Text(c) => CommandView::Text(c@),
            OsdpCommand::Output(c) => CommandView::Output(*c),
            OsdpCommand::ComSet(c) => CommandView::ComSet(*c),
            OsdpCommand::KeySet(c) => CommandView::KeySet(c@),
            OsdpCommand::Mfg(c) => CommandView::Mfg(c@),
            OsdpCommand::FileTx(c) => CommandView::FileTx(*c),
            OsdpCommand::Status(c) => CommandView::Status(*c),
        }
    }
}

/// The opcode of a command.
pub open spec fn command_opcode(c: CommandView) -> u8 {
    match c {
        CommandView::Led(_) => CMD_LED,
        CommandView::Buzzer(_) => CMD_BUZ,
        CommandView::Text(_) => CMD_TEXT,
        CommandView::Output(_) => CMD_OUT,
        CommandView::ComSet(_) => CMD_COMSET,
        CommandView::KeySet(_) => CMD_KEYSET,
        CommandView::Mfg(_) => CMD_MFG,
        CommandView::FileTx(_) => CMD_FILETRANSFER,
        CommandView::Status(s) => match s {
            OsdpCommandStatus::Local => CMD_LSTAT,
            OsdpCommandStatus::Input => CMD_ISTAT,
            OsdpCommandStatus::Output => CMD_OSTAT,
        },
    }
}

/// The wire bytes of LED parameters; the timer goes out for temporary
/// parameters only.
pub open spec fn led_params_bytes(p: OsdpLedParams, with_timer: bool) -> Seq<u8> {
    seq![p.control_code, p.on_count, p.off_count, p.on_color.spec_code(), p.off_color.spec_code()]
        + if with_timer {
        u16_le_bytes(p.timer_count)
    } else {
        Seq::empty()
    }
}

/// The payload of a command: what follows its opcode.
pub open spec fn command_payload(c: CommandView) -> Seq<u8> {
    match c {
        CommandView::Led(l) => seq![l.reader, l.led_number] + led_params_bytes(l.temporary, true)
            + led_params_bytes(l.permanent, false),
        CommandView::Buzzer(b) => seq![b.reader, b.control_code, b.on_count, b.off_count, b.rep_count],
        CommandView::Text(t) => seq![
            t.reader,
            t.control_code,
            t.temp_time,
            t.offset_row,
            t.offset_col,
            t.data.len() as u8,
        ] + t.data,
        CommandView::Output(o) => seq![o.output_no, o.control_code] + u16_le_bytes(o.timer_count),
        CommandView::ComSet(s) => seq![s.address] + u32_le_bytes(s.baud_rate),
        CommandView::KeySet(k) => seq![k.key_type, k.data.len() as u8] + k.data,
        CommandView::Mfg(m) => seq![m.vendor_code.0, m.vendor_code.1, m.vendor_code.2, m.command]
            + m.data,
        CommandView::FileTx(f) => u32_le_bytes(#[verifier::truncate] (f.id as u32)) + u32_le_bytes(
            f.flags % FILE_TX_FLAG_CANCEL,
        ),
        CommandView::Status(_) => Seq::empty(),
    }
}

/// The bytes of an encoded command: its opcode, then its payload.
pub open spec fn command_bytes(c: CommandView) -> Seq<u8> {
    seq![command_opcode(c)] + command_payload(c)
}

/// A command that its encoding carries in full: variable data fits its
/// limit, the permanent LED timer (which is not sent) is zero, and the
/// cancel flag (which is not sent either) is clear.
pub open spec fn command_wf(c: CommandView) -> bool {
    match c {
        CommandView::Led(l) => l.permanent.timer_count == 0,
        CommandView::Text(t) => t.data.len() <= TEXT_MAX_LEN,
        CommandView::KeySet(k) => k.data.len() <= KEYSET_MAX_LEN,
        CommandView::Mfg(m) => m.data.len() <= MFG_MAX_LEN,
        CommandView::FileTx(f) => f.flags < FILE_TX_FLAG_CANCEL,
        _ => true,
    }
}

/// A command that can be encoded: its variable data fits its limit.
pub open spec fn command_encodable(c: CommandView) -> bool {
    match c {
        CommandView::Text(t) => t.data.len() <= TEXT_MAX_LEN,
        CommandView::KeySet(k) => k.data.len() <= KEYSET_MAX_LEN,
        CommandView::Mfg(m) => m.data.len() <= MFG_MAX_LEN,
        _ => true,
    }
}

/// LED parameters read from `m[i..]`; `timer` is their timer.
pub open spec fn parse_led_params(m: Seq<u8>, i: int, timer: u16) -> Option<OsdpLedParams> {
    match (OsdpLedColor::spec_from_code(m[i + 3]), OsdpLedColor::spec_from_code(m[i + 4])) {
        (Some(on), Some(off)) => Some(
            OsdpLedParams {
                control_code: m[i],
                on_count: m[i + 1],
                off_count: m[i + 2],
                on_color: on,
                off_color: off,
                timer_count: timer,
            },
        ),
        _ => None,
    }
}

/// The command that the bytes `m` (opcode first) encode, if any.
pub open spec fn parse_command(m: Seq<u8>) -> Option<CommandView> {
    if m.len() == 0 {
        None
    } else {
        let op = m[0];
        let n = m.len();
        if op == CMD_LED {
            if n != 15 {
                None
            } else {
                match (parse_led_params(m, 3, le16_at(m, 8)), parse_led_params(m, 10, 0)) {
                    (Some(t), Some(p)) => Some(
                        CommandView::Led(
                            OsdpCommandLed {
                                reader: m[1],
                                led_number: m[2],
                                temporary: t,
                                permanent: p,
                            },
                        ),
                    ),
                    _ => None,
                }
            }
        } else if op == CMD_BUZ {
            if n != 6 {
                None
            } else {
                Some(
                    CommandView::Buzzer(
                        OsdpCommandBuzzer {
                            reader: m[1],
                            control_code: m[2],
                            on_count: m[3],
                            off_count: m[4],
                            rep_count: m[5],
                        },
                    ),
                )
            }
        } else if op == CMD_TEXT {
            if n < 7 || m[6] > TEXT_MAX_LEN || n != 7 + m[6] {
                None
            } else {
                Some(
                    CommandView::Text(
                        TextView {
                            reader: m[1],
                            control_code: m[2],
                            temp_time: m[3],
                            offset_row: m[4],
                            offset_col: m[5],
                            data: m.subrange(7, n as int),
                        },
                    ),
                )
            }
        } else if op == CMD_OUT {
            if n != 5 {
                None
            } else {
                Some(
                    CommandView::Output(
                        OsdpCommandOutput {
                            output_no: m[1],
                            control_code: m[2],
                            timer_count: le16_at(m, 3),
                        },
                    ),
                )
            }
        } else if op == CMD_COMSET {
            if n != 6 {
                None
            } else {
                Some(CommandView::ComSet(OsdpComSet { address: m[1], baud_rate: le32_at(m, 2) }))
            }
        } else if op == CMD_KEYSET {
            if n < 3 || m[2] > KEYSET_MAX_LEN || n != 3 + m[2] {
                None
            } else {
                Some(CommandView::KeySet(KeysetView { key_type: m[1], data: m.subrange(3, n as int) }))
            }
        } else if op == CMD_MFG {
            if n < 5 || n - 5 > MFG_MAX_LEN {
                None
            } else {
                Some(
                    CommandView::Mfg(
                        MfgView {
                            vendor_code: (m[1], m[2], m[3]),
                            command: m[4],
                            data: m.subrange(5, n as int),
                        },
                    ),
                )
            }
        } else if op == CMD_FILETRANSFER {
            if n != 9 || le32_at(m, 5) >= FILE_TX_FLAG_CANCEL {
                None
            } else {
                Some(
                    CommandView::FileTx(
                        OsdpCommandFileTx { id: le32_at(m, 1) as i32, flags: le32_at(m, 5) },
                    ),
                )
            }
        } else if op == CMD_LSTAT && n == 1 {
            Some(CommandView::Status(OsdpCommandStatus::Local))
        } else if op == CMD_ISTAT && n == 1 {
            Some(CommandView::Status(OsdpCommandStatus::Input))
        } else if op == CMD_OSTAT && n == 1 {
            Some(CommandView::Status(OsdpCommandStatus::Output))
        } else {
            None
        }
    }
}


/// Decoding an encoded well-formed command gives the command back.
pub proof fn lemma_command_round_trip(c: CommandView)
    requires
        command_wf(c),
    ensures
        parse_command(command_bytes(c)) == Some(c),
{
    let m = command_bytes(c);
    match c {
        CommandView::Led(l) => {
            let t = l.temporary;
            let p = l.permanent;
            assert(m =~= seq![
                CMD_LED,
                l.reader,
                l.led_number,
                t.control_code,
                t.on_count,
                t.off_count,
                t.on_color.spec_code(),
                t.off_color.spec_code(),
                (t.timer_count % 256) as u8,
                (t.timer_count / 256) as u8,
                p.control_code,
                p.on_count,
                p.off_count,
                p.on_color.spec_code(),
                p.off_color.spec_code(),
            ]);
            lemma_color_code(t.on_color);
            lemma_color_code(t.off_color);
            lemma_color_code(p.on_color);
            lemma_color_code(p.off_color);
            assert(le16_at(m, 8) == t.timer_count);
            assert(parse_led_params(m, 3, t.timer_count) == Some(t));
            assert(parse_led_params(m, 10, 0) == Some(p));
        },
        CommandView::Buzzer(b) => {
            assert(m =~= seq![CMD_BUZ, b.reader, b.control_code, b.on_count, b.off_count, b.rep_count]);
        },
        CommandView::Text(t) => {
            assert(m.subrange(7, m.len() as int) =~= t.data);
            assert(m[6] == t.data.len());
        },
        CommandView::Output(o) => {
            assert(m =~= seq![
                CMD_OUT,
                o.output_no,
                o.control_code,
                (o.timer_count % 256) as u8,
                (o.timer_count / 256) as u8,
            ]);
        },
        CommandView::ComSet(s) => {
            assert(m.subrange(2, 6) =~= u32_le_bytes(s.baud_rate));
            crate::bytes::lemma_u32_le_round_trip(s.baud_rate, m, 2);
        },
        CommandView::KeySet(k) => {
            assert(m.subrange(3, m.len() as int) =~= k.data);
        },
        CommandView::Mfg(g) => {
            assert(m.subrange(5, m.len() as int) =~= g.data);
        },
        CommandView::FileTx(f) => {
            assert(m.subrange(1, 5) =~= u32_le_bytes(#[verifier::truncate] (f.id as u32)));
            assert(m.subrange(5, 9) =~= u32_le_bytes(f.flags % FILE_TX_FLAG_CANCEL));
            crate::bytes::lemma_u32_le_round_trip(#[verifier::truncate] (f.id as u32), m, 1);
            crate::bytes::lemma_u32_le_round_trip(f.flags % FILE_TX_FLAG_CANCEL, m, 5);
            lemma_i32_as_u32(f.id);
        },
        CommandView::Status(st) => {
            assert(m =~= seq![command_opcode(c)]);
        },
    }
}

/// An `i32` survives a round trip through `u32`.
proof fn lemma_i32_as_u32(x: i32)
    ensures
        (#[verifier::truncate] (x as u32)) as i32 == x,
{
    assert((#[verifier::truncate] (x as u32)) as i32 == x) by (bit_vector);
}

/// Appends the wire bytes of LED parameters.
fn push_led_params(out: &mut Vec<u8>, p: &OsdpLedParams, with_timer: bool)
    ensures
        final(out)@ == old(out)@ + led_params_bytes(*p, with_timer),
{
    out.push(p.control_code);
    out.push(p.on_count);
    out.push(p.off_count);
    out.push(p.on_color.code());
    out.push(p.off_color.code());
    if with_timer {
        push_u16_le(out, p.timer_count);
    }
    assert(final(out)@ =~= old(out)@ + led_params_bytes(*p, with_timer));
}

/// Reads LED parameters at `m[i..i + 5]`, with the given timer.
fn read_led_params(m: &[u8], i: usize, timer: u16) -> (r: Option<OsdpLedParams>)
    requires
        i <= 10,
        i + 5 <= m@.len(),
    ensures
        r == parse_led_params(m@, i as int, timer),
{
    match (OsdpLedColor::from_code(m[i + 3]), OsdpLedColor::from_code(m[i + 4])) {
        (Some(on), Some(off)) => Some(
            OsdpLedParams {
                control_code: m[i],
                on_count: m[i + 1],
                off_count: m[i + 2],
                on_color: on,
                off_color: off,
                timer_count: timer,
            },
        ),
        _ => None,
    }
}

impl OsdpCommand {
    /// Whether this command can be encoded: its variable data fits its limit.
    pub fn is_encodable(&self) -> (r: bool)
        ensures
            r == command_encodable(self@),
    {
        match self {
            OsdpCommand::Text(t) => t.data.len() <= TEXT_MAX_LEN,
            OsdpCommand::KeySet(k) => k.data.len() <= KEYSET_MAX_LEN,
            OsdpCommand::Mfg(m) => m.data.len() <= MFG_MAX_LEN,
            _ => true,
        }
    }

    /// The opcode of this command.
    pub fn opcode(&self) -> (r: u8)
        ensures
            r == command_opcode(self@),
    {
        match self {
            OsdpCommand::Led(_) => CMD_LED,
            OsdpCommand::Buzzer(_) => CMD_BUZ,
            OsdpCommand::Text(_) => CMD_TEXT,
            OsdpCommand::Output(_) => CMD_OUT,
            OsdpCommand::ComSet(_) => CMD_COMSET,
            OsdpCommand::KeySet(_) => CMD_KEYSET,
            OsdpCommand::Mfg(_) => CMD_MFG,
            OsdpCommand::FileTx(_) => CMD_FILETRANSFER,
            OsdpCommand::Status(s) => match s {
                OsdpCommandStatus::Local => CMD_LSTAT,
                OsdpCommandStatus::Input => CMD_ISTAT,
                OsdpCommandStatus::Output => CMD_OSTAT,
            },
        }
    }

    /// Encodes this command: its opcode, then its payload.
    pub fn encode(&self) -> (r: Vec<u8>)
        requires
            command_encodable(self@),
        ensures
            r@ == command_bytes(self@),
    {
        let mut out: Vec<u8> = Vec::new();
        out.push(self.opcode());
        match self {
            OsdpCommand::Led(l) => {
                out.push(l.reader);
                out.push(l.led_number);
                push_led_params(&mut out, &l.temporary, true);
                push_led_params(&mut out, &l.permanent, false);
            },
            OsdpCommand::Buzzer(b) => {
                out.push(b.reader);
                out.push(b.control_code);
                out.push(b.on_count);
                out.push(b.off_count);
                out.push(b.rep_count);
            },
            OsdpCommand::Text(t) => {
                out.push(t.reader);
                out.push(t.control_code);
                out.push(t.temp_time);
                out.push(t.offset_row);
                out.push(t.offset_col);
                out.push(t.data.len() as u8);
                crate::bytes::extend_from(&mut out, t.data.as_slice(), 0, t.data.len());
            },
            OsdpCommand::Output(o) => {
                out.push(o.output_no);
                out.push(o.control_code);
                push_u16_le(&mut out, o.timer_count);
            },
            OsdpCommand::ComSet(s) => {
                out.push(s.address);
                push_u32_le(&mut out, s.baud_rate);
            },
            OsdpCommand::KeySet(k) => {
                out.push(k.key_type);
                out.push(k.data.len() as u8);
                crate::bytes::extend_from(&mut out, k.data.as_slice(), 0, k.data.len());
            },
            OsdpCommand::Mfg(g) => {
                out.push(g.vendor_code.0);
                out.push(g.vendor_code.1);
                out.push(g.vendor_code.2);
                out.push(g.command);
                crate::bytes::extend_from(&mut out, g.data.as_slice(), 0, g.data.len());
            },
            OsdpCommand::FileTx(f) => {
                push_u32_le(&mut out, f.id as u32);
                push_u32_le(&mut out, f.flags % FILE_TX_FLAG_CANCEL);
            },
            OsdpCommand::Status(_) => {},
        }
        proof {
            match self@ {
                CommandView::Text(t) => {
                    assert(t.data.subrange(0, t.data.len() as int) =~= t.data);
                },
                CommandView::KeySet(k) => {
                    assert(k.data.subrange(0, k.data.len() as int) =~= k.data);
                },
                CommandView::Mfg(g) => {
                    assert(g.data.subrange(0, g.data.len() as int) =~= g.data);
                },
                _ => {},
            }
        }
        assert(out@ =~= command_bytes(self@));
        out
    }

    /// Decodes a command from its bytes (opcode first). Fails with
    /// `OsdpError::Command` exactly when the bytes encode no command.
    pub fn decode(m: &[u8]) -> (r: Result<OsdpCommand, OsdpError>)
        ensures
            match r {
                Ok(c) => parse_command(m@) == Some(c@),
                Err(e) => parse_command(m@) is None && e == OsdpError::Command,
            },
    {
        let n = m.len();
        if n == 0 {
            return Err(OsdpError::Command);
        }
        let op = m[0];
        if op == CMD_LED {
            if n != 15 {
                return Err(OsdpError::Command);
            }
            let timer = read_u16_le(m, 8);
            match (read_led_params(m, 3, timer), read_led_params(m, 10, 0)) {
                (Some(t), Some(p)) => Ok(
                    OsdpCommand::Led(
                        OsdpCommandLed { reader: m[1], led_number: m[2], temporary: t, permanent: p },
                    ),
                ),
                _ => Err(OsdpError::Command),
            }
        } else if op == CMD_BUZ {
            if n != 6 {
                return Err(OsdpError::Command);
            }
            Ok(
                OsdpCommand::Buzzer(
                    OsdpCommandBuzzer {
                        reader: m[1],
                        control_code: m[2],
                        on_count: m[3],
                        off_count: m[4],
                        rep_count: m[5],
                    },
                ),
            )
        } else if op == CMD_TEXT {
            if n < 7 || m[6] as usize > TEXT_MAX_LEN || n != 7 + m[6] as usize {
                return Err(OsdpError::Command);
            }
            Ok(
                OsdpCommand::Text(
                    OsdpCommandText {
                        reader: m[1],
                        control_code: m[2],
                        temp_time: m[3],
                        offset_row: m[4],
                        offset_col: m[5],
                        data: copy_range(m, 7, n),
                    },
                ),
            )
        } else if op == CMD_OUT {
            if n != 5 {
                return Err(OsdpError::Command);
            }
            Ok(
                OsdpCommand::Output(
                    OsdpCommandOutput {
                        output_no: m[1],
                        control_code: m[2],
                        timer_count: read_u16_le(m, 3),
                    },
                ),
            )
        } else if op == CMD_COMSET {
            if n != 6 {
                return Err(OsdpError::Command);
            }
            Ok(OsdpCommand::ComSet(OsdpComSet { address: m[1], baud_rate: read_u32_le(m, 2) }))
        } else if op == CMD_KEYSET {
            if n < 3 || m[2] as usize > KEYSET_MAX_LEN || n != 3 + m[2] as usize {
                return Err(OsdpError::Command);
            }
            Ok(OsdpCommand::KeySet(OsdpCommandKeyset { key_type: m[1], data: copy_range(m, 3, n) }))
        } else if op == CMD_MFG {
            if n < 5 || n - 5 > MFG_MAX_LEN {
                return Err(OsdpError::Command);
            }
            Ok(
                OsdpCommand::Mfg(
                    OsdpCommandMfg {
                        vendor_code: (m[1], m[2], m[3]),
                        command: m[4],
                        data: copy_range(m, 5, n),
                    },
                ),
            )
        } else if op == CMD_FILETRANSFER {
            if n != 9 {
                return Err(OsdpError::Command);
            }
            let flags = read_u32_le(m, 5);
            if flags >= FILE_TX_FLAG_CANCEL {
                return Err(OsdpError::Command);
            }
            Ok(OsdpCommand::FileTx(OsdpCommandFileTx { id: read_u32_le(m, 1) as i32, flags }))
        } else if op == CMD_LSTAT && n == 1 {
            Ok(OsdpCommand::Status(OsdpCommandStatus::Local))
        } else if op == CMD_ISTAT && n == 1 {
            Ok(OsdpCommand::Status(OsdpCommandStatus::Input))
        } else if op == CMD_OSTAT && n == 1 {
            Ok(OsdpCommand::Status(OsdpCommandStatus::Output))
        } else {
            Err(OsdpError::Command)
        }
    }
}

/// An encodable command fits a frame, encrypted or not: at most
/// `MAX_REPLY_DATA - 16` bytes.
pub proof fn lemma_command_len(c: CommandView)
    requires
        command_encodable(c),
    ensures
        1 <= command_bytes(c).len() <= crate::reply::MAX_REPLY_DATA - 16,
{
}

} // verus!
