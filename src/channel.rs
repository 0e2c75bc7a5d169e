//! The transport under OSDP: a byte stream with a stable identity.
use vstd::prelude::*;
use crate::error::OsdpError;
use std::hash::{Hash, Hasher};

verus! {

/// A non-blocking, byte-oriented, full-duplex link. Channels with the same
/// id are one physical bus shared by several PDs.
pub trait Channel {
    /// Reads bytes into `buf` and returns how many; 0 means none is ready.
    fn read(&mut self, buf: &mut [u8]) -> Result<usize, OsdpError>;

    /// Writes bytes from `buf` and returns how many were taken; the caller
    /// retries the rest.
    fn write(&mut self, buf: &[u8]) -> Result<usize, OsdpError>;

    /// Pushes out buffered bytes, as well as it can.
    fn flush(&mut self) -> Result<(), OsdpError>;

    /// The id of the bus this channel is on.
    fn get_id(&self) -> i32;
}

/// The 64-bit hash that `DefaultHasher::new` gives a text.
pub uninterp spec fn default_hash_of(s: Seq<char>) -> u64;

/// Relies on `DefaultHasher::new`, `str::hash` and `Hasher::finish`: a
/// hasher made by `new` has fixed keys, so the hash depends on the text
/// alone. Which value it is, is not stated.
#[verifier::external_body]
fn default_hash(key: &str) -> (r: u64)
    ensures
        r == default_hash_of(key@),
{
    let mut hasher = std::collections::hash_map::DefaultHasher::new();
    key.hash(&mut hasher);
    hasher.finish()
}

/// A channel id made of a 64-bit hash: its two halves xor-ed.
pub open spec fn fold_channel_id_spec(h: u64) -> i32 {
    (#[verifier::truncate] (((h >> 32u64) ^ (h & 0xffff_ffffu64)) as i32))
}

/// A channel id made of a 64-bit hash: its two halves xor-ed.
pub fn fold_channel_id(h: u64) -> (r: i32)
    ensures
        r == fold_channel_id_spec(h),
{
    #[verifier::truncate]
    (((h >> 32u64) ^ (h & 0xffff_ffffu64)) as i32)
}

/// A channel id for a channel name: its hash, folded by `fold_channel_id`.
/// Equal names give equal ids.
pub fn str_to_channel_id(key: &str) -> (r: i32)
    ensures
        r == fold_channel_id_spec(default_hash_of(key@)),
{
    fold_channel_id(default_hash(key))
}

} // verus!
