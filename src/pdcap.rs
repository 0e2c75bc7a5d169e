//! Capabilities that a PD advertises, their wire records and their text form.
use vstd::prelude::*;
use crate::error::OsdpError;
use vstd::string::StringSliceAdditionalSpecFns;
use crate::text::{find_byte, find_byte_spec, lit_eq, parse_dec_u8, dec_u8};

verus! {

/// Reply code of a capability report.
pub const REPLY_PDCAP: u8 = 0x46;

/// One capability: how far the PD complies and how many units it has.
#[derive(Clone, Copy, Debug, Default, PartialEq, Eq)]
pub struct PdCapEntity {
    /// What the PD can do with this capability; meaning depends on it
    pub compliance: u8,
    /// Number of units of this capability (LEDs, readers, ...)
    pub num_items: u8,
}

/// Older name of `PdCapEntity`.
pub type PdCapEntry = PdCapEntity;

impl PdCapEntity {
    /// A capability entity.
    pub fn new(compliance: u8, num_items: u8) -> (r: Self)
        ensures
            r == (PdCapEntity { compliance, num_items }),
    {
        Self { compliance, num_items }
    }
}

/// Capabilities defined by OSDP, each with its entity.
#[derive(Clone, Copy, Debug, PartialEq, Eq)]
pub enum PdCapability {
    /// Monitoring of switch contacts
    ContactStatusMonitoring(PdCapEntity),
    /// Switched outputs
    OutputControl(PdCapEntity),
    /// Form in which card data is presented
    CardDataFormat(PdCapEntity),
    /// LEDs
    LedControl(PdCapEntity),
    /// Audible annunciator
    AudibleOutput(PdCapEntity),
    /// Text display
    TextOutput(PdCapEntity),
    /// Date and time keeping
    TimeKeeping(PdCapEntity),
    /// Support of the CRC check
    CheckCharacterSupport(PdCapEntity),
    /// Secure channel support
    CommunicationSecurity(PdCapEntity),
    /// Largest single message the PD can receive
    ReceiveBufferSize(PdCapEntity),
    /// Largest multi-part message the PD can handle
    LargestCombinedMessage(PdCapEntity),
    /// Transparent mode towards smart cards
    SmartCardSupport(PdCapEntity),
    /// Number of attached credential readers
    Readers(PdCapEntity),
    /// Biometric input
    Biometrics(PdCapEntity),
}

/// Function code of a capability on the wire.
pub open spec fn cap_code(c: PdCapability) -> u8 {
    match c {
        PdCapability::ContactStatusMonitoring(_) => 1,
        PdCapability::OutputControl(_) => 2,
        PdCapability::CardDataFormat(_) => 3,
        PdCapability::LedControl(_) => 4,
        PdCapability::AudibleOutput(_) => 5,
        PdCapability::TextOutput(_) => 6,
        PdCapability::TimeKeeping(_) => 7,
        PdCapability::CheckCharacterSupport(_) => 8,
        PdCapability::CommunicationSecurity(_) => 9,
        PdCapability::ReceiveBufferSize(_) => 10,
        PdCapability::LargestCombinedMessage(_) => 11,
        PdCapability::SmartCardSupport(_) => 12,
        PdCapability::Readers(_) => 13,
        PdCapability::Biometrics(_) => 14,
    }
}

/// Entity of a capability.
pub open spec fn cap_entity(c: PdCapability) -> PdCapEntity {
    match c {
        PdCapability::ContactStatusMonitoring(e) => e,
        PdCapability::OutputControl(e) => e,
        PdCapability::CardDataFormat(e) => e,
        PdCapability::LedControl(e) => e,
        PdCapability::AudibleOutput(e) => e,
        PdCapability::TextOutput(e) => e,
        PdCapability::TimeKeeping(e) => e,
        PdCapability::CheckCharacterSupport(e) => e,
        PdCapability::CommunicationSecurity(e) => e,
        PdCapability::ReceiveBufferSize(e) => e,
        PdCapability::LargestCombinedMessage(e) => e,
        PdCapability::SmartCardSupport(e) => e,
        PdCapability::Readers(e) => e,
        PdCapability::Biometrics(e) => e,
    }
}

/// The capability with function code `code` and entity `e`, if the code is known.
pub open spec fn cap_from_code(code: u8, e: PdCapEntity) -> Option<PdCapability> {
    if code == 1 {
        Some(PdCapability::ContactStatusMonitoring(e))
    } else if code == 2 {
        Some(PdCapability::OutputControl(e))
    } else if code == 3 {
        Some(PdCapability::CardDataFormat(e))
    } else if code == 4 {
        Some(PdCapability::LedControl(e))
    } else if code == 5 {
        Some(PdCapability::AudibleOutput(e))
    } else if code == 6 {
        Some(PdCapability::TextOutput(e))
    } else if code == 7 {
        Some(PdCapability::TimeKeeping(e))
    } else if code == 8 {
        Some(PdCapability::CheckCharacterSupport(e))
    } else if code == 9 {
        Some(PdCapability::CommunicationSecurity(e))
    } else if code == 10 {
        Some(PdCapability::ReceiveBufferSize(e))
    } else if code == 11 {
        Some(PdCapability::LargestCombinedMessage(e))
    } else if code == 12 {
        Some(PdCapability::SmartCardSupport(e))
    } else if code == 13 {
        Some(PdCapability::Readers(e))
    } else if code == 14 {
        Some(PdCapability::Biometrics(e))
    } else {
        None
    }
}

/// Name of the capability with function code `code` in text form.
pub open spec fn cap_name(code: u8) -> Seq<u8> {
    if code == 1 {
        // "ContactStatusMonitoring"
        seq![67u8, 111, 110, 116, 97, 99, 116, 83, 116, 97, 116, 117, 115, 77, 111, 110, 105, 116, 111, 114, 105, 110, 103]
    } else if code == 2 {
        // "OutputControl"
        seq![79u8, 117, 116, 112, 117, 116, 67, 111, 110, 116, 114, 111, 108]
    } else if code == 3 {
        // "CardDataFormat"
        seq![67u8, 97, 114, 100, 68, 97, 116, 97, 70, 111, 114, 109, 97, 116]
    } else if code == 4 {
        // "LedControl"
        seq![76u8, 101, 100, 67, 111, 110, 116, 114, 111, 108]
    } else if code == 5 {
        // "AudibleOutput"
        seq![65u8, 117, 100, 105, 98, 108, 101, 79, 117, 116, 112, 117, 116]
    } else if code == 6 {
        // "TextOutput"
        seq![84u8, 101, 120, 116, 79, 117, 116, 112, 117, 116]
    } else if code == 7 {
        // "TimeKeeping"
        seq![84u8, 105, 109, 101, 75, 101, 101, 112, 105, 110, 103]
    } else if code == 8 {
        // "CheckCharacterSupport"
        seq![67u8, 104, 101, 99, 107, 67, 104, 97, 114, 97, 99, 116, 101, 114, 83, 117, 112, 112, 111, 114, 116]
    } else if code == 9 {
        // "CommunicationSecurity"
        seq![67u8, 111, 109, 109, 117, 110, 105, 99, 97, 116, 105, 111, 110, 83, 101, 99, 117, 114, 105, 116, 121]
    } else if code == 10 {
        // "ReceiveBufferSize"
        seq![82u8, 101, 99, 101, 105, 118, 101, 66, 117, 102, 102, 101, 114, 83, 105, 122, 101]
    } else if code == 11 {
        // "LargestCombinedMessage"
        seq![76u8, 97, 114, 103, 101, 115, 116, 67, 111, 109, 98, 105, 110, 101, 100, 77, 101, 115, 115, 97, 103, 101]
    } else if code == 12 {
        // "SmartCardSupport"
        seq![83u8, 109, 97, 114, 116, 67, 97, 114, 100, 83, 117, 112, 112, 111, 114, 116]
    } else if code == 13 {
        // "Readers"
        seq![82u8, 101, 97, 100, 101, 114, 115]
    } else if code == 14 {
        // "Biometrics"
        seq![66u8, 105, 111, 109, 101, 116, 114, 105, 99, 115]
    } else {
        Seq::empty()
    }
}

/// Name of the capability with function code `code` in text form.
fn cap_name_bytes(code: u8) -> (r: Vec<u8>)
    ensures
        r@ == cap_name(code),
{
    if code == 1 {
        // "ContactStatusMonitoring"
        let v: Vec<u8> = vec![67u8, 111, 110, 116, 97, 99, 116, 83, 116, 97, 116, 117, 115, 77, 111, 110, 105, 116, 111, 114, 105, 110, 103];
        assert(v@ =~= cap_name(code));
        v
    } else if code == 2 {
        // "OutputControl"
        let v: Vec<u8> = vec![79u8, 117, 116, 112, 117, 116, 67, 111, 110, 116, 114, 111, 108];
        assert(v@ =~= cap_name(code));
        v
    } else if code == 3 {
        // "CardDataFormat"
        let v: Vec<u8> = vec![67u8, 97, 114, 100, 68, 97, 116, 97, 70, 111, 114, 109, 97, 116];
        assert(v@ =~= cap_name(code));
        v
    } else if code == 4 {
        // "LedControl"
        let v: Vec<u8> = vec![76u8, 101, 100, 67, 111, 110, 116, 114, 111, 108];
        assert(v@ =~= cap_name(code));
        v
    } else if code == 5 {
        // "AudibleOutput"
        let v: Vec<u8> = vec![65u8, 117, 100, 105, 98, 108, 101, 79, 117, 116, 112, 117, 116];
        assert(v@ =~= cap_name(code));
        v
    } else if code == 6 {
        // "TextOutput"
        let v: Vec<u8> = vec![84u8, 101, 120, 116, 79, 117, 116, 112, 117, 116];
        assert(v@ =~= cap_name(code));
        v
    } else if code == 7 {
        // "TimeKeeping"
        let v: Vec<u8> = vec![84u8, 105, 109, 101, 75, 101, 101, 112, 105, 110, 103];
        assert(v@ =~= cap_name(code));
        v
    } else if code == 8 {
        // "CheckCharacterSupport"
        let v: Vec<u8> = vec![67u8, 104, 101, 99, 107, 67, 104, 97, 114, 97, 99, 116, 101, 114, 83, 117, 112, 112, 111, 114, 116];
        assert(v@ =~= cap_name(code));
        v
    } else if code == 9 {
        // "CommunicationSecurity"
        let v: Vec<u8> = vec![67u8, 111, 109, 109, 117, 110, 105, 99, 97, 116, 105, 111, 110, 83, 101, 99, 117, 114, 105, 116, 121];
        assert(v@ =~= cap_name(code));
        v
    } else if code == 10 {
        // "ReceiveBufferSize"
        let v: Vec<u8> = vec![82u8, 101, 99, 101, 105, 118, 101, 66, 117, 102, 102, 101, 114, 83, 105, 122, 101];
        assert(v@ =~= cap_name(code));
        v
    } else if code == 11 {
        // "LargestCombinedMessage"
        let v: Vec<u8> = vec![76u8, 97, 114, 103, 101, 115, 116, 67, 111, 109, 98, 105, 110, 101, 100, 77, 101, 115, 115, 97, 103, 101];
        assert(v@ =~= cap_name(code));
        v
    } else if code == 12 {
        // "SmartCardSupport"
        let v: Vec<u8> = vec![83u8, 109, 97, 114, 116, 67, 97, 114, 100, 83, 117, 112, 112, 111, 114, 116];
        assert(v@ =~= cap_name(code));
        v
    } else if code == 13 {
        // "Readers"
        let v: Vec<u8> = vec![82u8, 101, 97, 100, 101, 114, 115];
        assert(v@ =~= cap_name(code));
        v
    } else if code == 14 {
        // "Biometrics"
        let v: Vec<u8> = vec![66u8, 105, 111, 109, 101, 116, 114, 105, 99, 115];
        assert(v@ =~= cap_name(code));
        v
    } else {
        let v: Vec<u8> = Vec::new();
        assert(v@ =~= cap_name(code));
        v
    }
}

impl PdCapability {
    /// Returns the function code of this capability.
    pub fn function_code(&self) -> (r: u8)
        ensures
            r == cap_code(*self),
    {
        match self {
            PdCapability::ContactStatusMonitoring(_) => 1,
            PdCapability::OutputControl(_) => 2,
            PdCapability::CardDataFormat(_) => 3,
            PdCapability::LedControl(_) => 4,
            PdCapability::AudibleOutput(_) => 5,
            PdCapability::TextOutput(_) => 6,
            PdCapability::TimeKeeping(_) => 7,
            PdCapability::CheckCharacterSupport(_) => 8,
            PdCapability::CommunicationSecurity(_) => 9,
            PdCapability::ReceiveBufferSize(_) => 10,
            PdCapability::LargestCombinedMessage(_) => 11,
            PdCapability::SmartCardSupport(_) => 12,
            PdCapability::Readers(_) => 13,
            PdCapability::Biometrics(_) => 14,
        }
    }

    /// Returns the entity of this capability.
    pub fn entity(&self) -> (r: PdCapEntity)
        ensures
            r == cap_entity(*self),
    {
        match self {
            PdCapability::ContactStatusMonitoring(e) => *e,
            PdCapability::OutputControl(e) => *e,
            PdCapability::CardDataFormat(e) => *e,
            PdCapability::LedControl(e) => *e,
            PdCapability::AudibleOutput(e) => *e,
            PdCapability::TextOutput(e) => *e,
            PdCapability::TimeKeeping(e) => *e,
            PdCapability::CheckCharacterSupport(e) => *e,
            PdCapability::CommunicationSecurity(e) => *e,
            PdCapability::ReceiveBufferSize(e) => *e,
            PdCapability::LargestCombinedMessage(e) => *e,
            PdCapability::SmartCardSupport(e) => *e,
            PdCapability::Readers(e) => *e,
            PdCapability::Biometrics(e) => *e,
        }
    }

    /// The capability with function code `code` and entity `e`; `None` for
    /// an unknown code.
    pub fn from_code(code: u8, e: PdCapEntity) -> (r: Option<PdCapability>)
        ensures
            r == cap_from_code(code, e),
    {
        if code == 1 {
            Some(PdCapability::ContactStatusMonitoring(e))
        } else if code == 2 {
            Some(PdCapability::OutputControl(e))
        } else if code == 3 {
            Some(PdCapability::CardDataFormat(e))
        } else if code == 4 {
            Some(PdCapability::LedControl(e))
        } else if code == 5 {
            Some(PdCapability::AudibleOutput(e))
        } else if code == 6 {
            Some(PdCapability::TextOutput(e))
        } else if code == 7 {
            Some(PdCapability::TimeKeeping(e))
        } else if code == 8 {
            Some(PdCapability::CheckCharacterSupport(e))
        } else if code == 9 {
            Some(PdCapability::CommunicationSecurity(e))
        } else if code == 10 {
            Some(PdCapability::ReceiveBufferSize(e))
        } else if code == 11 {
            Some(PdCapability::LargestCombinedMessage(e))
        } else if code == 12 {
            Some(PdCapability::SmartCardSupport(e))
        } else if code == 13 {
            Some(PdCapability::Readers(e))
        } else if code == 14 {
            Some(PdCapability::Biometrics(e))
        } else {
            None
        }
    }
}


/// Every capability is found again from its code and entity.
pub proof fn lemma_cap_code(c: PdCapability)
    ensures
        cap_from_code(cap_code(c), cap_entity(c)) == Some(c),
        1 <= cap_code(c) <= 14,
{
}

/// "Compliance"
pub open spec fn compliance_key() -> Seq<u8> {
    seq![67u8, 111, 109, 112, 108, 105, 97, 110, 99, 101]
}

/// "NumItems"
pub open spec fn num_items_key() -> Seq<u8> {
    seq![78u8, 117, 109, 73, 116, 101, 109, 115]
}

/// The entity that the text `b` writes as `Compliance:<n>,NumItems:<m>`,
/// if any: split at the first comma, each side at its first colon.
pub open spec fn parse_entity_text(b: Seq<u8>) -> Option<PdCapEntity> {
    let n = b.len() as int;
    let c = find_byte_spec(b, 44u8, 0, n);
    let k1 = find_byte_spec(b, 58u8, 0, c);
    let k2 = find_byte_spec(b, 58u8, c + 1, n);
    if c == n {
        None
    } else if k1 == c || b.subrange(0, k1) != compliance_key() {
        None
    } else if k2 == n || b.subrange(c + 1, k2) != num_items_key() {
        None
    } else {
        match (dec_u8(b.subrange(k1 + 1, c)), dec_u8(b.subrange(k2 + 1, n))) {
            (Some(x), Some(y)) => Some(PdCapEntity { compliance: x, num_items: y }),
            _ => None,
        }
    }
}

/// The function code whose name is `name`, searching codes from `code` on.
pub open spec fn code_of_name_from(name: Seq<u8>, code: u8) -> Option<u8>
    decreases 15 - code,
{
    if code == 0 || code > 14 {
        None
    } else if cap_name(code) == name {
        Some(code)
    } else {
        code_of_name_from(name, (code + 1) as u8)
    }
}

/// The capability that the text `b` writes as `<Name>:<entity>`, if any.
pub open spec fn parse_capability_text(b: Seq<u8>) -> Option<PdCapability> {
    let n = b.len() as int;
    let k = find_byte_spec(b, 58u8, 0, n);
    if k == n {
        None
    } else {
        match (code_of_name_from(b.subrange(0, k), 1), parse_entity_text(b.subrange(k + 1, n))) {
            (Some(code), Some(e)) => cap_from_code(code, e),
            _ => None,
        }
    }
}

/// Reads an entity from its text form (see `parse_entity_text`).
fn parse_entity_bytes(b: &[u8]) -> (r: Option<PdCapEntity>)
    ensures
        r == parse_entity_text(b@),
{
    let n = b.len();
    let c = find_byte(b, 44u8, 0, n);
    let k1 = find_byte(b, 58u8, 0, c);
    if c == n {
        return None;
    }
    let k2 = find_byte(b, 58u8, c + 1, n);
    let compl: Vec<u8> = vec![67u8, 111, 109, 112, 108, 105, 97, 110, 99, 101];
    assert(compl@ =~= compliance_key());
    if k1 == c || !lit_eq(b, 0, k1, compl.as_slice()) {
        return None;
    }
    let numit: Vec<u8> = vec![78u8, 117, 109, 73, 116, 101, 109, 115];
    assert(numit@ =~= num_items_key());
    if k2 == n || !lit_eq(b, c + 1, k2, numit.as_slice()) {
        return None;
    }
    match (parse_dec_u8(b, k1 + 1, c), parse_dec_u8(b, k2 + 1, n)) {
        (Some(x), Some(y)) => Some(PdCapEntity { compliance: x, num_items: y }),
        _ => None,
    }
}

impl PdCapEntity {
    /// Reads an entity from text such as `Compliance:10,NumItems:20`.
    /// Fails with `OsdpError::Parse("capability")` exactly when the text is not of that
    /// form (see `parse_entity_text`).
    pub fn from_str(s: &str) -> (r: Result<PdCapEntity, OsdpError>)
        ensures
            match parse_entity_text(s.spec_bytes()) {
                Some(e) => r == Ok::<PdCapEntity, OsdpError>(e),
                None => (r is Err && r->Err_0 is Parse),
            },
    {
        match parse_entity_bytes(s.as_bytes()) {
            Some(e) => Ok(e),
            None => Err(OsdpError::Parse("capability")),
        }
    }
}

impl PdCapability {
    /// Reads a capability from text such as
    /// `LedControl:Compliance:1,NumItems:2`. Fails with `OsdpError::Parse("capability")`
    /// exactly when the text is not of that form (see
    /// `parse_capability_text`).
    pub fn from_str(s: &str) -> (r: Result<PdCapability, OsdpError>)
        ensures
            match parse_capability_text(s.spec_bytes()) {
                Some(c) => r == Ok::<PdCapability, OsdpError>(c),
                None => (r is Err && r->Err_0 is Parse),
            },
    {
        let b = s.as_bytes();
        let n = b.len();
        let k = find_byte(b, 58u8, 0, n);
        if k == n {
            return Err(OsdpError::Parse("capability"));
        }
        let mut code: u8 = 1;
        let mut found: Option<u8> = None;
        while code <= 14
            invariant
                1 <= code <= 15,
                k < n == b@.len(),
                found is None ==> code_of_name_from(b@.subrange(0, k as int), code)
                    == code_of_name_from(b@.subrange(0, k as int), 1),
                found is Some ==> found == code_of_name_from(b@.subrange(0, k as int), 1),
            decreases 15 - code,
        {
            let name = cap_name_bytes(code);
            if found.is_none() && lit_eq(b, 0, k, name.as_slice()) {
                found = Some(code);
            }
            code += 1;
        }
        assert(found == code_of_name_from(b@.subrange(0, k as int), 1));
        let rest = crate::bytes::copy_range(b, k + 1, n);
        match (found, parse_entity_bytes(rest.as_slice())) {
            (Some(c), Some(e)) => match PdCapability::from_code(c, e) {
                Some(cap) => Ok(cap),
                None => Err(OsdpError::Parse("capability")),
            },
            _ => Err(OsdpError::Parse("capability")),
        }
    }
}

/// Wire record of a capability: function code, compliance, number of items.
pub open spec fn cap_record(c: PdCapability) -> Seq<u8> {
    seq![cap_code(c), cap_entity(c).compliance, cap_entity(c).num_items]
}

/// Wire records of a list of capabilities, in order.
pub open spec fn caps_bytes(cs: Seq<PdCapability>) -> Seq<u8>
    decreases cs.len(),
{
    if cs.len() == 0 {
        Seq::empty()
    } else {
        caps_bytes(cs.drop_last()) + cap_record(cs.last())
    }
}

/// The capabilities that the records `m` hold, if each record is one.
pub open spec fn parse_cap_records(m: Seq<u8>) -> Option<Seq<PdCapability>>
    decreases m.len(),
{
    if m.len() == 0 {
        Some(Seq::empty())
    } else if m.len() < 3 {
        None
    } else {
        let k = m.len() - 3;
        match (
            parse_cap_records(m.subrange(0, k)),
            cap_from_code(m[k], PdCapEntity { compliance: m[k + 1], num_items: m[k + 2] }),
        ) {
            (Some(cs), Some(c)) => Some(cs.push(c)),
            _ => None,
        }
    }
}

/// Reading back the records of a list of capabilities gives the list.
pub proof fn lemma_caps_round_trip(cs: Seq<PdCapability>)
    ensures
        parse_cap_records(caps_bytes(cs)) == Some(cs),
        caps_bytes(cs).len() == 3 * cs.len(),
    decreases cs.len(),
{
    if cs.len() > 0 {
        let m = caps_bytes(cs);
        lemma_caps_round_trip(cs.drop_last());
        let k = m.len() - 3;
        assert(m.subrange(0, k) =~= caps_bytes(cs.drop_last()));
        lemma_cap_code(cs.last());
        assert(cs.drop_last().push(cs.last()) =~= cs);
    }
}

/// Encodes a capability report: reply code, then one record per capability.
pub fn encode_capabilities(caps: &Vec<PdCapability>) -> (r: Vec<u8>)
    ensures
        r@ == seq![REPLY_PDCAP] + caps_bytes(caps@),
{
    let mut out: Vec<u8> = Vec::new();
    out.push(REPLY_PDCAP);
    let mut i: usize = 0;
    assert(caps@.subrange(0, 0) =~= Seq::<PdCapability>::empty());
    while i < caps.len()
        invariant
            i <= caps@.len(),
            out@ == seq![REPLY_PDCAP] + caps_bytes(caps@.subrange(0, i as int)),
        decreases caps@.len() - i,
    {
        let c = caps[i];
        let e = c.entity();
        out.push(c.function_code());
        out.push(e.compliance);
        out.push(e.num_items);
        assert(caps@.subrange(0, i + 1).drop_last() =~= caps@.subrange(0, i as int));
        assert(out@ =~= seq![REPLY_PDCAP] + caps_bytes(caps@.subrange(0, i + 1)));
        i += 1;
    }
    assert(caps@.subrange(0, caps@.len() as int) =~= caps@);
    out
}

/// Decodes a capability report. Fails with `OsdpError::Query("capabilities")` exactly when
/// `m` is not a report of known capabilities.
pub fn decode_capabilities(m: &[u8]) -> (r: Result<Vec<PdCapability>, OsdpError>)
    ensures
        match r {
            Ok(cs) => m@.len() >= 1 && m@[0] == REPLY_PDCAP && parse_cap_records(
                m@.subrange(1, m@.len() as int),
            ) == Some(cs@),
            Err(e) => e is Query && !(m@.len() >= 1 && m@[0] == REPLY_PDCAP
                && parse_cap_records(m@.subrange(1, m@.len() as int)) is Some),
        },
{
    let n = m.len();
    if n < 1 || m[0] != REPLY_PDCAP || (n - 1) % 3 != 0 {
        proof {
            if n >= 1 && m@[0] == REPLY_PDCAP {
                lemma_records_len(m@.subrange(1, n as int));
            }
        }
        return Err(OsdpError::Query("capabilities"));
    }
    let mut out: Vec<PdCapability> = Vec::new();
    let mut i: usize = 1;
    assert(m@.subrange(1, 1) =~= Seq::<u8>::empty());
    while i < n
        invariant
            1 <= i <= n == m@.len(),
            (i - 1) % 3 == 0,
            (n - 1) % 3 == 0,
            parse_cap_records(m@.subrange(1, i as int)) == Some(out@),
        decreases n - i,
    {
        let e = PdCapEntity { compliance: m[i + 1], num_items: m[i + 2] };
        let ghost s = m@.subrange(1, i + 3);
        assert(s.subrange(0, s.len() - 3) =~= m@.subrange(1, i as int));
        match PdCapability::from_code(m[i], e) {
            Some(c) => {
                out.push(c);
            },
            None => {
                proof {
                    lemma_records_prefix(m@.subrange(1, n as int), (i + 1) as int);
                    assert(m@.subrange(1, n as int).subrange(0, i + 2) =~= s);
                }
                return Err(OsdpError::Query("capabilities"));
            },
        }
        i += 3;
    }
    Ok(out)
}

/// Records that parse have a length that is a multiple of three.
proof fn lemma_records_len(m: Seq<u8>)
    ensures
        parse_cap_records(m) is Some ==> m.len() % 3 == 0,
    decreases m.len(),
{
    if m.len() >= 3 {
        lemma_records_len(m.subrange(0, m.len() - 3));
    }
}

/// When the records `m[..k + 1]` (a whole number of them) do not parse,
/// neither does `m`.
proof fn lemma_records_prefix(m: Seq<u8>, k: int)
    requires
        0 <= k < m.len(),
        (k + 1) % 3 == 0,
        m.len() % 3 == 0,
        parse_cap_records(m.subrange(0, k + 1)) is None,
    ensures
        parse_cap_records(m) is None,
    decreases m.len(),
{
    if m.len() > k + 1 {
        let t = m.subrange(0, m.len() - 3);
        assert(t.subrange(0, k + 1) =~= m.subrange(0, k + 1));
        lemma_records_prefix(t, k);
    } else {
        assert(m.subrange(0, k + 1) =~= m);
    }
}

} // verus!
