//! Setup flags of a PD context.
use vstd::prelude::*;
use crate::error::OsdpError;
use crate::text::{find_byte, find_byte_spec, lit_eq};
use vstd::string::StringSliceAdditionalSpecFns;

verus! {

/// Bit of `EnforceSecure`.
pub const FLAG_ENFORCE_SECURE: u32 = 0x0001_0000;
/// Bit of `InstallMode`.
pub const FLAG_INSTALL_MODE: u32 = 0x0002_0000;
/// Bit of `IgnoreUnsolicited`.
pub const FLAG_IGN_UNSOLICITED: u32 = 0x0004_0000;

/// A set of setup flags.
#[derive(Clone, Copy, Debug, PartialEq, Eq, Hash)]
pub struct OsdpFlag {
    /// The flag bits
    pub bits: u32,
}

/// "EnforceSecure"
pub open spec fn enforce_secure_name() -> Seq<u8> {
    seq![69u8, 110, 102, 111, 114, 99, 101, 83, 101, 99, 117, 114, 101]
}

/// "InstallMode"
pub open spec fn install_mode_name() -> Seq<u8> {
    seq![73u8, 110, 115, 116, 97, 108, 108, 77, 111, 100, 101]
}

/// "IgnoreUnsolicited"
pub open spec fn ignore_unsolicited_name() -> Seq<u8> {
    seq![73u8, 103, 110, 111, 114, 101, 85, 110, 115, 111, 108, 105, 99, 105, 116, 101, 100]
}

/// The flag that the text `b` names, if any.
pub open spec fn flag_of_name(b: Seq<u8>) -> Option<OsdpFlag> {
    if b == enforce_secure_name() {
        Some(OsdpFlag { bits: FLAG_ENFORCE_SECURE })
    } else if b == install_mode_name() {
        Some(OsdpFlag { bits: FLAG_INSTALL_MODE })
    } else if b == ignore_unsolicited_name() {
        Some(OsdpFlag { bits: FLAG_IGN_UNSOLICITED })
    } else {
        None
    }
}

impl OsdpFlag {
    /// Refuse to come online without a secure channel; no install mode.
    pub fn enforce_secure() -> (r: Self)
        ensures
            r.bits == FLAG_ENFORCE_SECURE,
    {
        OsdpFlag { bits: FLAG_ENFORCE_SECURE }
    }

    /// Allow one secure channel session with the default key.
    pub fn install_mode() -> (r: Self)
        ensures
            r.bits == FLAG_INSTALL_MODE,
    {
        OsdpFlag { bits: FLAG_INSTALL_MODE }
    }

    /// CP tolerates unknown unsolicited replies.
    pub fn ignore_unsolicited() -> (r: Self)
        ensures
            r.bits == FLAG_IGN_UNSOLICITED,
    {
        OsdpFlag { bits: FLAG_IGN_UNSOLICITED }
    }

    /// No flag set.
    pub fn empty() -> (r: Self)
        ensures
            r.bits == 0,
    {
        OsdpFlag { bits: 0 }
    }

    /// The flag bits.
    pub fn bits(&self) -> (r: u32)
        ensures
            r == self.bits,
    {
        self.bits
    }

    /// Whether every flag of `other` is set in `self`.
    pub fn contains(&self, other: OsdpFlag) -> (r: bool)
        ensures
            r == (self.bits & other.bits == other.bits),
    {
        self.bits & other.bits == other.bits
    }

    /// Sets (`value`) or clears the flags of `other`.
    pub fn set(&mut self, other: OsdpFlag, value: bool)
        ensures
            final(self).bits == if value {
                old(self).bits | other.bits
            } else {
                old(self).bits & !other.bits
            },
    {
        if value {
            self.bits = self.bits | other.bits;
        } else {
            self.bits = self.bits & !other.bits;
        }
    }

    /// Whether a session with the default key is allowed: install mode is
    /// set and secure mode is not enforced.
    pub fn install_mode_allowed(&self) -> (r: bool)
        ensures
            r == (self.bits & FLAG_INSTALL_MODE != 0 && self.bits & FLAG_ENFORCE_SECURE == 0),
    {
        self.bits & FLAG_INSTALL_MODE != 0 && self.bits & FLAG_ENFORCE_SECURE == 0
    }

    /// Reads a flag by its name. Fails with `OsdpError::Parse("flag")` for any
    /// other text.
    pub fn from_str(s: &str) -> (r: Result<OsdpFlag, OsdpError>)
        ensures
            match flag_of_name(s.spec_bytes()) {
                Some(f) => r == Ok::<OsdpFlag, OsdpError>(f),
                None => (r is Err && r->Err_0 is Parse),
            },
    {
        let b = s.as_bytes();
        let n = b.len();
        let enf: Vec<u8> = vec![69u8, 110, 102, 111, 114, 99, 101, 83, 101, 99, 117, 114, 101];
        let ins: Vec<u8> = vec![73u8, 110, 115, 116, 97, 108, 108, 77, 111, 100, 101];
        let ign: Vec<u8> = vec![73u8, 103, 110, 111, 114, 101, 85, 110, 115, 111, 108, 105, 99, 105, 116, 101, 100];
        assert(enf@ =~= enforce_secure_name());
        assert(ins@ =~= install_mode_name());
        assert(ign@ =~= ignore_unsolicited_name());
        assert(b@.subrange(0, n as int) =~= b@);
        if lit_eq(b, 0, n, enf.as_slice()) {
            Ok(OsdpFlag { bits: FLAG_ENFORCE_SECURE })
        } else if lit_eq(b, 0, n, ins.as_slice()) {
            Ok(OsdpFlag { bits: FLAG_INSTALL_MODE })
        } else if lit_eq(b, 0, n, ign.as_slice()) {
            Ok(OsdpFlag { bits: FLAG_IGN_UNSOLICITED })
        } else {
            Err(OsdpError::Parse("flag"))
        }
    }
}

/// The flags that the text `b` names, separated by `|` (as in
/// `EnforceSecure|InstallMode`), if every part names one.
pub open spec fn flags_of_list(b: Seq<u8>) -> Option<u32>
    decreases b.len(),
{
    let n = b.len() as int;
    let k = find_byte_spec(b, 124u8, 0, n);
    match flag_of_name(b.subrange(0, k)) {
        None => None,
        Some(f) => if k < 0 || k >= n {
            Some(f.bits)
        } else {
            match flags_of_list(b.subrange(k + 1, n)) {
                Some(rest) => Some(f.bits | rest),
                None => None,
            }
        },
    }
}

/// Reads a flag name at `b[from..to]`.
fn flag_at(b: &[u8], from: usize, to: usize) -> (r: Option<OsdpFlag>)
    requires
        from <= to <= b@.len(),
    ensures
        r == flag_of_name(b@.subrange(from as int, to as int)),
{
    let enf: Vec<u8> = vec![69u8, 110, 102, 111, 114, 99, 101, 83, 101, 99, 117, 114, 101];
    let ins: Vec<u8> = vec![73u8, 110, 115, 116, 97, 108, 108, 77, 111, 100, 101];
    let ign: Vec<u8> = vec![73u8, 103, 110, 111, 114, 101, 85, 110, 115, 111, 108, 105, 99, 105, 116, 101, 100];
    assert(enf@ =~= enforce_secure_name());
    assert(ins@ =~= install_mode_name());
    assert(ign@ =~= ignore_unsolicited_name());
    if lit_eq(b, from, to, enf.as_slice()) {
        Some(OsdpFlag { bits: FLAG_ENFORCE_SECURE })
    } else if lit_eq(b, from, to, ins.as_slice()) {
        Some(OsdpFlag { bits: FLAG_INSTALL_MODE })
    } else if lit_eq(b, from, to, ign.as_slice()) {
        Some(OsdpFlag { bits: FLAG_IGN_UNSOLICITED })
    } else {
        None
    }
}

/// The flags that the text `b` names, separated by `|` (see
/// `flags_of_list`).
fn flags_of_bytes(b: &[u8]) -> (r: Option<u32>)
    ensures
        r == flags_of_list(b@),
    decreases b@.len(),
{
    let n = b.len();
    let k = find_byte(b, 124u8, 0, n);
    match flag_at(b, 0, k) {
        None => None,
        Some(f) => {
            if k >= n {
                Some(f.bits)
            } else {
                let rest = crate::bytes::copy_range(b, k + 1, n);
                match flags_of_bytes(rest.as_slice()) {
                    Some(r) => Some(f.bits | r),
                    None => None,
                }
            }
        },
    }
}

impl OsdpFlag {
    /// Reads flags named in a list such as `EnforceSecure|InstallMode`.
    /// Fails with `OsdpError::Parse("flag")` when a part names no flag.
    pub fn parse_list(s: &str) -> (r: Result<OsdpFlag, OsdpError>)
        ensures
            match flags_of_list(s.spec_bytes()) {
                Some(bits) => r == Ok::<OsdpFlag, OsdpError>(OsdpFlag { bits }),
                None => (r is Err && r->Err_0 is Parse),
            },
    {
        match flags_of_bytes(s.as_bytes()) {
            Some(bits) => Ok(OsdpFlag { bits }),
            None => Err(OsdpError::Parse("flag")),
        }
    }
}

} // verus!
