//! Sequence numbers and address filtering on a link.
//!
//! The CP numbers its frames 0, 1, 2, 3, 1, 2, 3, ...: 0 only on the first
//! frame after the link was reset.
use vstd::prelude::*;
use crate::frame::BROADCAST_ADDR;

verus! {

/// The sequence number that follows `s`.
pub open spec fn next_seq_spec(s: u8) -> u8 {
    if s >= 3 {
        1
    } else {
        (s + 1) as u8
    }
}

/// The sequence number after `k` successful exchanges on a fresh link.
pub open spec fn seq_after(k: nat) -> u8
    decreases k,
{
    if k == 0 {
        0
    } else {
        next_seq_spec(seq_after((k - 1) as nat))
    }
}

/// The sequence number that follows `s`.
pub fn next_seq(s: u8) -> (r: u8)
    requires
        s <= 3,
    ensures
        r == next_seq_spec(s),
        1 <= r <= 3,
{
    if s >= 3 {
        1
    } else {
        s + 1
    }
}

/// Sequence numbers advance by one modulo 4 and skip 0 once the first
/// exchange is done: after `k >= 1` exchanges the number is
/// `(k - 1) % 3 + 1`, and each step is `+1 mod 4` except that 0 becomes 1.
pub proof fn lemma_seq_advance(k: nat)
    ensures
        k == 0 ==> seq_after(k) == 0,
        k >= 1 ==> seq_after(k) == (k - 1) % 3 + 1,
        seq_after(k + 1) == (if (seq_after(k) + 1) % 4 == 0 {
            1
        } else {
            (seq_after(k) + 1) % 4
        }),
    decreases k,
{
    if k >= 1 {
        lemma_seq_advance((k - 1) as nat);
    }
}

/// What a PD does with a frame, by its sequence number.
#[derive(Clone, Copy, Debug, PartialEq, Eq)]
pub enum SeqCheck {
    /// A new frame: process it
    Accept,
    /// Not the expected number: send the last reply again
    Resend,
    /// No exchange to repeat: drop it
    Reject,
}

/// The verdict on sequence number `got` when the last accepted one is
/// `last` (`None` right after a link reset).
pub open spec fn check_seq_spec(last: Option<u8>, got: u8) -> SeqCheck {
    match last {
        None => if got == 0 {
            SeqCheck::Accept
        } else {
            SeqCheck::Reject
        },
        Some(l) => if got == next_seq_spec(l) {
            SeqCheck::Accept
        } else {
            SeqCheck::Resend
        },
    }
}

/// The verdict on sequence number `got` when the last accepted one is
/// `last` (`None` right after a link reset).
pub fn check_seq(last: Option<u8>, got: u8) -> (r: SeqCheck)
    requires
        last matches Some(l) ==> l <= 3,
    ensures
        r == check_seq_spec(last, got),
{
    match last {
        None => if got == 0 {
            SeqCheck::Accept
        } else {
            SeqCheck::Reject
        },
        Some(l) => if got == next_seq(l) {
            SeqCheck::Accept
        } else {
            SeqCheck::Resend
        },
    }
}

/// Sequence number 0 is accepted only as the first frame after a link reset.
/// A PD's link is reset when it is created, by `reset_link`, and by
/// `check_silence` once the CP has been silent for `PD_SILENCE_TIMEOUT_MS`;
/// a CP that lost the link restarts it with sequence number 0.
pub proof fn lemma_seq_zero_only_after_reset(last: Option<u8>)
    requires
        last matches Some(l) ==> l <= 3,
    ensures
        check_seq_spec(last, 0) == SeqCheck::Accept <==> last is None,
{
}

/// Whom a frame's address is for, seen from a PD.
#[derive(Clone, Copy, Debug, PartialEq, Eq)]
pub enum AddressMatch {
    /// This PD
    Mine,
    /// Every PD on the channel
    Broadcast,
    /// Another PD
    Other,
}

/// Whom address `got` is for, seen from the PD at address `own`.
pub open spec fn classify_address_spec(own: u8, got: u8) -> AddressMatch {
    if got == BROADCAST_ADDR {
        AddressMatch::Broadcast
    } else if got == own {
        AddressMatch::Mine
    } else {
        AddressMatch::Other
    }
}

/// Whom address `got` is for, seen from the PD at address `own`.
pub fn classify_address(own: u8, got: u8) -> (r: AddressMatch)
    ensures
        r == classify_address_spec(own, got),
{
    if got == BROADCAST_ADDR {
        AddressMatch::Broadcast
    } else if got == own {
        AddressMatch::Mine
    } else {
        AddressMatch::Other
    }
}

/// Whether a PD processes a frame with this address: its own frames after
/// the sequence check, broadcast frames without one.
pub open spec fn processes(m: AddressMatch) -> bool {
    m != AddressMatch::Other
}

/// Whether a PD replies to a frame with this address.
pub open spec fn replies(m: AddressMatch) -> bool {
    m == AddressMatch::Mine
}

/// A broadcast frame is processed by every PD and answered by none (see
/// `PeripheralDevice::handle_packet`, which hands out a broadcast command
/// whatever its sequence number).
pub proof fn lemma_broadcast_no_reply(own: u8)
    ensures
        processes(classify_address_spec(own, BROADCAST_ADDR)),
        !replies(classify_address_spec(own, BROADCAST_ADDR)),
{
}

} // verus!
