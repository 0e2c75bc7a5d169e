use vstd::prelude::*;

verus! {

/// Errors reported by this library.
#[derive(Clone, Copy, Debug, PartialEq, Eq)]
pub enum OsdpError {
    /// The PD description is invalid; the text says which.
    PdInfo(&'static str),
    /// A command could not be built, encoded or decoded.
    Command,
    /// An event could not be built, encoded or decoded.
    Event,
    /// A status query on a device failed; the text says which.
    Query(&'static str),
    /// A file transfer failed; the text says which.
    FileTransfer(&'static str),
    /// Device setup failed.
    Setup,
    /// A textual value could not be parsed; the text says which.
    Parse(&'static str),
    /// The transport channel failed; the text says which.
    Channel(&'static str),
    /// A frame on the wire is malformed.
    Frame,
    /// Unknown or unspecified error.
    Unknown,
}

impl Default for OsdpError {
    fn default() -> (r: Self)
        ensures
            r == OsdpError::Unknown,
    {
        OsdpError::Unknown
    }
}

} // verus!
