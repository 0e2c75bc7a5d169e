//! Open Supervised Device Protocol (OSDP): the wire format, the command
//! and event codec, the secure channel (AES-128, session keys, MACs and
//! payload encryption), and the CP and PD state machines that drive a link.
//! The application moves bytes between a `Channel` and these state
//! machines and supplies time and random numbers.
use vstd::prelude::*;
use vstd::string::StringExecFns;

pub mod aes;
pub mod bytes;
pub mod channel;
pub mod commands;
pub mod cp;
pub mod error;
pub mod events;
pub mod flags;
pub mod frame;
pub mod keystore;
pub mod pd;
pub mod pdcap;
pub mod pdid;
pub mod reply;
pub mod sc;
pub mod sched;
pub mod sequence;
pub mod text;

pub use channel::{str_to_channel_id, Channel};
pub use commands::{
    OsdpComSet, OsdpCommand, OsdpCommandBuzzer, OsdpCommandFileTx, OsdpCommandKeyset,
    OsdpCommandLed, OsdpCommandMfg, OsdpCommandOutput, OsdpCommandStatus, OsdpCommandText,
    OsdpLedColor, OsdpLedParams,
};
pub use cp::{ControlPanel, PdInfo};
pub use error::OsdpError;
pub use events::{
    OsdpCardFormats, OsdpEvent, OsdpEventCardRead, OsdpEventIO, OsdpEventKeyPress,
    OsdpEventMfgReply, OsdpEventStatus, OsdpStatusReport, OsdpStatusReportType,
};
pub use flags::OsdpFlag;
pub use keystore::KeyStore;
pub use pd::PeripheralDevice;
pub use pdcap::{PdCapEntity, PdCapEntry, PdCapability};
pub use pdid::{ConvertEndian, PdId};

verus! {

/// Major version of this library.
pub const VERSION_MAJOR: u8 = 0;

/// Version of this library, as text.
pub open spec fn version_text() -> Seq<char> {
    seq!['0', '.', '1', '.', '0']
}

/// Returns the version of this library.
pub fn get_version() -> (r: String)
    ensures
        r@ == version_text(),
{
    let s = String::from_str("0.1.0");
    proof {
        reveal_strlit("0.1.0");
    }
    assert(s@ =~= version_text());
    s
}

/// Where this library comes from, as text.
pub open spec fn source_info_text() -> Seq<char> {
    seq!['l', 'i', 'b', 'o', 's', 'd', 'p', '-', '0', '.', '1', '.', '0']
}

/// Returns where this library comes from: its package name and version.
pub fn get_source_info() -> (r: String)
    ensures
        r@ == source_info_text(),
{
    let s = String::from_str("libosdp-0.1.0");
    proof {
        reveal_strlit("libosdp-0.1.0");
    }
    assert(s@ =~= source_info_text());
    s
}

} // verus!
