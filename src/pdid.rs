//! The identification that a PD reports, and its encoding on the wire.
use vstd::prelude::*;
use crate::error::OsdpError;

verus! {

/// Reply code of an identification report.
pub const REPLY_PDID: u8 = 0x45;
/// Minor version of this library.
pub const VERSION_MINOR: u8 = 1;
/// Patch version of this library.
pub const VERSION_PATCH: u8 = 0;

/// Conversion of a few bytes to a 32-bit integer.
pub trait ConvertEndian {
    /// The bytes read most significant first.
    spec fn spec_be(&self) -> u32;

    /// The bytes read least significant first.
    spec fn spec_le(&self) -> u32;

    /// Returns the bytes read most significant first.
    fn as_be(&self) -> (r: u32)
        ensures
            r == self.spec_be(),
    ;

    /// Returns the bytes read least significant first.
    fn as_le(&self) -> (r: u32)
        ensures
            r == self.spec_le(),
    ;
}

impl ConvertEndian for [u8; 4] {
    open spec fn spec_be(&self) -> u32 {
        (self@[0] as int * 16777216 + self@[1] as int * 65536 + self@[2] as int * 256
            + self@[3] as int) as u32
    }

    open spec fn spec_le(&self) -> u32 {
        (self@[0] as int + self@[1] as int * 256 + self@[2] as int * 65536 + self@[3] as int
            * 16777216) as u32
    }

    fn as_be(&self) -> (r: u32) {
        let (a, b, c, d) = (self[0], self[1], self[2], self[3]);
        let r = ((a as u32) << 24u32) | ((b as u32) << 16u32) | ((c as u32) << 8u32) | (d as u32);
        assert(r == a as u32 * 16777216 + b as u32 * 65536 + c as u32 * 256 + d as u32)
            by (bit_vector)
            requires
                r == ((a as u32) << 24u32) | ((b as u32) << 16u32) | ((c as u32) << 8u32) | (
                d as u32),
        ;
        r
    }

    fn as_le(&self) -> (r: u32) {
        let (a, b, c, d) = (self[0], self[1], self[2], self[3]);
        let r = (a as u32) | ((b as u32) << 8u32) | ((c as u32) << 16u32) | ((d as u32) << 24u32);
        assert(r == a as u32 + b as u32 * 256 + c as u32 * 65536 + d as u32 * 16777216)
            by (bit_vector)
            requires
                r == (a as u32) | ((b as u32) << 8u32) | ((c as u32) << 16u32) | ((d as u32)
                    << 24u32),
        ;
        r
    }
}

impl ConvertEndian for (u8, u8, u8) {
    open spec fn spec_be(&self) -> u32 {
        (self.0 as int * 16777216 + self.1 as int * 65536 + self.2 as int * 256) as u32
    }

    open spec fn spec_le(&self) -> u32 {
        (self.0 as int + self.1 as int * 256 + self.2 as int * 65536) as u32
    }

    fn as_be(&self) -> (r: u32) {
        let (a, b, c) = (self.0, self.1, self.2);
        let r = ((a as u32) << 24u32) | ((b as u32) << 16u32) | ((c as u32) << 8u32);
        assert(r == a as u32 * 16777216 + b as u32 * 65536 + c as u32 * 256) by (bit_vector)
            requires
                r == ((a as u32) << 24u32) | ((b as u32) << 16u32) | ((c as u32) << 8u32),
        ;
        r
    }

    fn as_le(&self) -> (r: u32) {
        let (a, b, c) = (self.0, self.1, self.2);
        let r = (a as u32) | ((b as u32) << 8u32) | ((c as u32) << 16u32);
        assert(r == a as u32 + b as u32 * 256 + c as u32 * 65536) by (bit_vector)
            requires
                r == (a as u32) | ((b as u32) << 8u32) | ((c as u32) << 16u32),
        ;
        r
    }
}

/// Identification that a PD reports to its CP.
#[derive(Clone, Copy, Debug, Default, PartialEq, Eq)]
pub struct PdId {
    /// Manufacturer's version number (one byte)
    pub version: i32,
    /// Manufacturer's model number (one byte)
    pub model: i32,
    /// IEEE assigned OUI, least significant byte first
    pub vendor_code: (u8, u8, u8),
    /// Serial number, in wire order
    pub serial_number: [u8; 4],
    /// Firmware version: major, minor, build
    pub firmware_version: (u8, u8, u8),
}

impl PdId {
    /// An identification for PD number `num`, with this library's version
    /// as firmware version.
    pub fn from_number(num: u8) -> (r: Self)
        ensures
            r.version == 0x74,
            r.model == 0x23,
            r.vendor_code == (0xA0u8, 0xB2u8, 0xFEu8),
            r.serial_number@ == seq![0u8, 0u8, 0u8, num],
            r.firmware_version == (crate::VERSION_MAJOR, VERSION_MINOR, VERSION_PATCH),
    {
        let serial_number: [u8; 4] = [0, 0, 0, num];
        Self {
            version: 0x74,
            model: 0x23,
            vendor_code: (0xA0, 0xB2, 0xFE),
            serial_number,
            firmware_version: (crate::VERSION_MAJOR, VERSION_MINOR, VERSION_PATCH),
        }
    }

    /// An identification from the numbers of a device configuration: vendor
    /// code and firmware version hold three bytes, least significant first,
    /// and the serial number four.
    pub fn from_config(
        version: i32,
        model: i32,
        vendor_code: u32,
        serial_number: u32,
        firmware_version: u32,
    ) -> (r: Self)
        ensures
            r.version == version,
            r.model == model,
            r.vendor_code == ((vendor_code % 256) as u8, ((vendor_code / 256) % 256) as u8, ((
            vendor_code / 65536) % 256) as u8),
            r.serial_number@ == crate::bytes::u32_le_bytes(serial_number),
            r.firmware_version == ((firmware_version % 256) as u8, ((firmware_version / 256) % 256) as u8, ((
            firmware_version / 65536) % 256) as u8),
    {
        let serial: [u8; 4] = [
            (serial_number % 256) as u8,
            ((serial_number / 256) % 256) as u8,
            ((serial_number / 65536) % 256) as u8,
            (serial_number / 16777216) as u8,
        ];
        assert(serial@ =~= crate::bytes::u32_le_bytes(serial_number));
        PdId {
            version,
            model,
            vendor_code: (
                (vendor_code % 256) as u8,
                ((vendor_code / 256) % 256) as u8,
                ((vendor_code / 65536) % 256) as u8,
            ),
            serial_number: serial,
            firmware_version: (
                (firmware_version % 256) as u8,
                ((firmware_version / 256) % 256) as u8,
                ((firmware_version / 65536) % 256) as u8,
            ),
        }
    }

    /// Version and model each fit a byte, as on the wire.
    pub open spec fn wf(&self) -> bool {
        0 <= self.version < 256 && 0 <= self.model < 256
    }

    /// The identification report: reply code, vendor code, model, version,
    /// serial number, firmware version.
    pub open spec fn spec_bytes(&self) -> Seq<u8> {
        seq![
            REPLY_PDID,
            self.vendor_code.0,
            self.vendor_code.1,
            self.vendor_code.2,
            self.model as u8,
            self.version as u8,
            self.serial_number@[0],
            self.serial_number@[1],
            self.serial_number@[2],
            self.serial_number@[3],
            self.firmware_version.0,
            self.firmware_version.1,
            self.firmware_version.2,
        ]
    }

    /// Encodes the identification report.
    pub fn encode(&self) -> (r: Vec<u8>)
        requires
            self.wf(),
        ensures
            r@ == self.spec_bytes(),
    {
        let mut out: Vec<u8> = Vec::new();
        out.push(REPLY_PDID);
        out.push(self.vendor_code.0);
        out.push(self.vendor_code.1);
        out.push(self.vendor_code.2);
        out.push(self.model as u8);
        out.push(self.version as u8);
        out.push(self.serial_number[0]);
        out.push(self.serial_number[1]);
        out.push(self.serial_number[2]);
        out.push(self.serial_number[3]);
        out.push(self.firmware_version.0);
        out.push(self.firmware_version.1);
        out.push(self.firmware_version.2);
        assert(out@ =~= self.spec_bytes());
        out
    }

    /// Decodes an identification report. Fails with `OsdpError::Query("PD id")`
    /// exactly when `m` is not a report; on success, encoding the result
    /// gives `m` back.
    pub fn decode(m: &[u8]) -> (r: Result<PdId, OsdpError>)
        ensures
            match r {
                Ok(id) => id.wf() && id.spec_bytes() == m@,
                Err(e) => (m@.len() != 13 || m@[0] != REPLY_PDID) && e is Query,
            },
    {
        if m.len() != 13 || m[0] != REPLY_PDID {
            return Err(OsdpError::Query("PD id"));
        }
        let serial_number: [u8; 4] = [m[6], m[7], m[8], m[9]];
        let id = PdId {
            version: m[5] as i32,
            model: m[4] as i32,
            vendor_code: (m[1], m[2], m[3]),
            serial_number,
            firmware_version: (m[10], m[11], m[12]),
        };
        assert(id.spec_bytes() =~= m@);
        Ok(id)
    }
}

} // verus!
