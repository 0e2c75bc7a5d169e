//! Secure channel: session keys, cryptograms, message MACs and the checks
//! of the handshake.
//!
//! The CP sends a challenge RND.A (SCS_11); the PD answers with its client
//! id, RND.B and the client cryptogram (SCS_12); the CP answers with the
//! server cryptogram (SCS_13); the PD answers with the initial R-MAC
//! (SCS_14). Random numbers come from the caller.
use vstd::prelude::*;
use crate::aes::{aes128_decrypt, aes128_decrypt_spec, aes128_encrypt, aes128_encrypt_spec};
use crate::error::OsdpError;
use crate::flags::{OsdpFlag, FLAG_ENFORCE_SECURE, FLAG_INSTALL_MODE};

verus! {

/// Session keys derived from the base key and the CP's challenge.
#[derive(Clone, Copy, Debug, PartialEq, Eq)]
pub struct SessionKeys {
    /// Key of the cryptograms and of payload encryption
    pub s_enc: [u8; 16],
    /// MAC key of every block but the last
    pub s_mac1: [u8; 16],
    /// MAC key of the last block
    pub s_mac2: [u8; 16],
}

/// The block from which a session key is derived.
pub open spec fn key_block(tag: u8, rnd_a: Seq<u8>) -> Seq<u8> {
    seq![1u8, tag] + rnd_a.subrange(0, 6) + Seq::new(8, |i: int| 0u8)
}

/// Session keys as the specification derives them: S-ENC, S-MAC1 and
/// S-MAC2 are the base key's encryptions of `01 82`, `01 01` and `01 02`
/// followed by the first six bytes of RND.A and zeros.
pub open spec fn keys_match(k: SessionKeys, scbk: Seq<u8>, rnd_a: Seq<u8>) -> bool {
    &&& k.s_enc@ == aes128_encrypt_spec(scbk, key_block(0x82, rnd_a))
    &&& k.s_mac1@ == aes128_encrypt_spec(scbk, key_block(0x01, rnd_a))
    &&& k.s_mac2@ == aes128_encrypt_spec(scbk, key_block(0x02, rnd_a))
}

fn key_block_exec(tag: u8, rnd_a: &[u8; 8]) -> (r: [u8; 16])
    ensures
        r@ == key_block(tag, rnd_a@),
{
    let r: [u8; 16] = [1, tag, rnd_a[0], rnd_a[1], rnd_a[2], rnd_a[3], rnd_a[4], rnd_a[5], 0, 0, 0, 0, 0, 0, 0, 0];
    assert(r@ =~= key_block(tag, rnd_a@));
    r
}

/// Derives the session keys from the base key and RND.A.
pub fn derive_session_keys(scbk: &[u8; 16], rnd_a: &[u8; 8]) -> (r: SessionKeys)
    ensures
        keys_match(r, scbk@, rnd_a@),
{
    SessionKeys {
        s_enc: aes128_encrypt(scbk, &key_block_exec(0x82, rnd_a)),
        s_mac1: aes128_encrypt(scbk, &key_block_exec(0x01, rnd_a)),
        s_mac2: aes128_encrypt(scbk, &key_block_exec(0x02, rnd_a)),
    }
}

fn concat8(a: &[u8; 8], b: &[u8; 8]) -> (r: [u8; 16])
    ensures
        r@ == a@ + b@,
{
    let r: [u8; 16] = [a[0], a[1], a[2], a[3], a[4], a[5], a[6], a[7], b[0], b[1], b[2], b[3], b[4], b[5], b[6], b[7]];
    assert(r@ =~= a@ + b@);
    r
}

/// The client cryptogram, by which the PD proves it holds the key:
/// S-ENC applied to RND.A then RND.B.
pub fn client_cryptogram(keys: &SessionKeys, rnd_a: &[u8; 8], rnd_b: &[u8; 8]) -> (r: [u8; 16])
    ensures
        r@ == aes128_encrypt_spec(keys.s_enc@, rnd_a@ + rnd_b@),
{
    aes128_encrypt(&keys.s_enc, &concat8(rnd_a, rnd_b))
}

/// The server cryptogram, by which the CP proves it holds the key: S-ENC
/// applied to RND.B then RND.A.
pub fn server_cryptogram(keys: &SessionKeys, rnd_a: &[u8; 8], rnd_b: &[u8; 8]) -> (r: [u8; 16])
    ensures
        r@ == aes128_encrypt_spec(keys.s_enc@, rnd_b@ + rnd_a@),
{
    aes128_encrypt(&keys.s_enc, &concat8(rnd_b, rnd_a))
}

/// The initial R-MAC: the server cryptogram under S-MAC1, then S-MAC2.
pub open spec fn initial_rmac_spec(keys: SessionKeys, server: Seq<u8>) -> Seq<u8> {
    aes128_encrypt_spec(keys.s_mac2@, aes128_encrypt_spec(keys.s_mac1@, server))
}

/// The initial R-MAC for a server cryptogram.
pub fn initial_rmac(keys: &SessionKeys, server: &[u8; 16]) -> (r: [u8; 16])
    ensures
        r@ == initial_rmac_spec(*keys, server@),
{
    let t = aes128_encrypt(&keys.s_mac1, server);
    aes128_encrypt(&keys.s_mac2, &t)
}

/// The message padded for the MAC: `0x80`, then zeros up to a multiple of
/// 16 bytes.
pub open spec fn mac_padding(m: Seq<u8>) -> Seq<u8> {
    let n = m.len() + 1;
    let total = ((n + 15) / 16) * 16;
    m + seq![0x80u8] + Seq::new((total - n) as nat, |i: int| 0u8)
}

/// Bytewise xor of the 16 bytes of `a` and the block of `p` at `16 * k`.
pub open spec fn xor_block(a: Seq<u8>, p: Seq<u8>, k: int) -> Seq<u8> {
    Seq::new(16, |i: int| (a[i] ^ p[16 * k + i]) as u8)
}

/// CBC chaining value after the first `n` blocks of `p` under `key`.
pub open spec fn cbc_chain(key: Seq<u8>, iv: Seq<u8>, p: Seq<u8>, n: nat) -> Seq<u8>
    decreases n,
{
    if n == 0 {
        iv
    } else {
        aes128_encrypt_spec(key, xor_block(cbc_chain(key, iv, p, (n - 1) as nat), p, n - 1))
    }
}

/// MAC of a message: CBC over the padded message, starting from `iv`, with
/// S-MAC1 for every block but the last and S-MAC2 for the last.
#[verifier::opaque]
pub open spec fn message_mac(keys: SessionKeys, iv: Seq<u8>, m: Seq<u8>) -> Seq<u8> {
    let p = mac_padding(m);
    let n = p.len() / 16;
    aes128_encrypt_spec(keys.s_mac2@, xor_block(cbc_chain(keys.s_mac1@, iv, p, (n - 1) as nat), p, n - 1))
}

/// Pads a message for the MAC (see `mac_padding`).
fn pad_message(m: &[u8]) -> (r: Vec<u8>)
    requires
        m@.len() <= 1024,
    ensures
        r@ == mac_padding(m@),
        r@.len() % 16 == 0,
        r@.len() >= 16,
{
    let mut p: Vec<u8> = crate::bytes::copy_range(m, 0, m.len());
    assert(m@.subrange(0, m@.len() as int) =~= m@);
    p.push(0x80);
    let n = m.len() + 1;
    let total = ((n + 15) / 16) * 16;
    while p.len() < total
        invariant
            n == m@.len() + 1,
            total == ((n + 15) / 16) * 16,
            n <= p@.len() <= total,
            p@ == m@ + seq![0x80u8] + Seq::new((p@.len() - n) as nat, |i: int| 0u8),
        decreases total - p@.len(),
    {
        p.push(0);
        assert(p@ =~= m@ + seq![0x80u8] + Seq::new((p@.len() - n) as nat, |i: int| 0u8));
    }
    assert(p@.len() == total);
    assert(total % 16 == 0 && total >= 16) by (nonlinear_arith)
        requires
            total == ((n + 15) / 16) * 16,
            n >= 1,
    ;
    p
}

/// The 16 bytes of `a` xor the block of `p` at `16 * k`.
fn xor_block_exec(a: &[u8; 16], p: &Vec<u8>, k: usize) -> (r: [u8; 16])
    requires
        k < 128,
        16 * k + 16 <= p@.len(),
    ensures
        r@ == xor_block(a@, p@, k as int),
{
    let mut out: [u8; 16] = [0; 16];
    let mut i: usize = 0;
    while i < 16
        invariant
            i <= 16,
            k < 128,
            16 * k + 16 <= p@.len(),
            out@.len() == 16,
            forall|j: int| 0 <= j < i ==> out@[j] == (a@[j] ^ p@[16 * k + j]) as u8,
        decreases 16 - i,
    {
        out[i] = a[i] ^ p[16 * k + i];
        i += 1;
    }
    assert(out@ =~= xor_block(a@, p@, k as int));
    out
}

/// The MAC of a message (see `message_mac`); a frame carries its first
/// four bytes.
pub fn compute_mac(keys: &SessionKeys, iv: &[u8; 16], m: &[u8]) -> (r: [u8; 16])
    requires
        m@.len() <= 1024,
    ensures
        r@ == message_mac(*keys, iv@, m@),
{
    let p = pad_message(m);
    let n = p.len() / 16;
    let mut chain: [u8; 16] = *iv;
    let mut k: usize = 0;
    while k + 1 < n
        invariant
            p@ == mac_padding(m@),
            n == p@.len() / 16,
            n >= 1,
            p@.len() % 16 == 0,
            k + 1 <= n,
            chain@ == cbc_chain(keys.s_mac1@, iv@, p@, k as nat),
            n <= 65,
        decreases n - k,
    {
        let x = xor_block_exec(&chain, &p, k);
        chain = aes128_encrypt(&keys.s_mac1, &x);
        k += 1;
    }
    let x = xor_block_exec(&chain, &p, n - 1);
    let r = aes128_encrypt(&keys.s_mac2, &x);
    proof {
        reveal(message_mac);
    }
    r
}

/// Whether two byte strings are equal.
fn bytes_equal(a: &[u8], b: &[u8]) -> (r: bool)
    ensures
        r == (a@ == b@),
{
    if a.len() != b.len() {
        return false;
    }
    let mut i: usize = 0;
    while i < a.len()
        invariant
            a@.len() == b@.len(),
            i <= a@.len(),
            forall|j: int| 0 <= j < i ==> a@[j] == b@[j],
        decreases a@.len() - i,
    {
        if a[i] != b[i] {
            return false;
        }
        i += 1;
    }
    assert(a@ =~= b@);
    true
}

/// An established session: its keys and the last MAC in each direction.
#[derive(Clone, Copy, Debug, PartialEq, Eq)]
pub struct SecureSession {
    /// Session keys
    pub keys: SessionKeys,
    /// MAC of the last message from the CP
    pub c_mac: [u8; 16],
    /// MAC of the last message from the PD
    pub r_mac: [u8; 16],
}

/// The rolling MACs `(c_mac, r_mac)` after `msgs`, each a message and
/// whether the CP sent it: a CP message's MAC starts from the last R-MAC, a
/// PD message's from the last C-MAC.
pub open spec fn rolling_macs(keys: SessionKeys, c0: Seq<u8>, r0: Seq<u8>, msgs: Seq<(bool, Seq<u8>)>) -> (Seq<u8>, Seq<u8>)
    decreases msgs.len(),
{
    if msgs.len() == 0 {
        (c0, r0)
    } else {
        let (c, r) = rolling_macs(keys, c0, r0, msgs.drop_last());
        let (from_cp, m) = msgs.last();
        if from_cp {
            (message_mac(keys, r, m), r)
        } else {
            (c, message_mac(keys, c, m))
        }
    }
}

impl SecureSession {
    /// MACs a message from the CP and makes it the last C-MAC; returns the
    /// four bytes the frame carries.
    pub fn mac_command(&mut self, m: &[u8]) -> (r: [u8; 4])
        requires
            m@.len() <= 1024,
        ensures
            final(self).keys == old(self).keys,
            final(self).r_mac == old(self).r_mac,
            final(self).c_mac@ == message_mac(old(self).keys, old(self).r_mac@, m@),
            r@ == final(self).c_mac@.subrange(0, 4),
    {
        self.c_mac = compute_mac(&self.keys, &self.r_mac, m);
        let r: [u8; 4] = [self.c_mac[0], self.c_mac[1], self.c_mac[2], self.c_mac[3]];
        assert(r@ =~= self.c_mac@.subrange(0, 4));
        r
    }

    /// MACs a message from the PD and makes it the last R-MAC; returns the
    /// four bytes the frame carries.
    pub fn mac_reply(&mut self, m: &[u8]) -> (r: [u8; 4])
        requires
            m@.len() <= 1024,
        ensures
            final(self).keys == old(self).keys,
            final(self).c_mac == old(self).c_mac,
            final(self).r_mac@ == message_mac(old(self).keys, old(self).c_mac@, m@),
            r@ == final(self).r_mac@.subrange(0, 4),
    {
        self.r_mac = compute_mac(&self.keys, &self.c_mac, m);
        let r: [u8; 4] = [self.r_mac[0], self.r_mac[1], self.r_mac[2], self.r_mac[3]];
        assert(r@ =~= self.r_mac@.subrange(0, 4));
        r
    }

    /// Feeds a run of messages through the rolling MACs, in order.
    pub fn mac_all(&mut self, msgs: &Vec<(bool, Vec<u8>)>)
        requires
            forall|i: int| 0 <= i < msgs@.len() ==> (#[trigger] msgs@[i]).1@.len() <= 1024,
        ensures
            final(self).keys == old(self).keys,
            (final(self).c_mac@, final(self).r_mac@) == rolling_macs(
                old(self).keys,
                old(self).c_mac@,
                old(self).r_mac@,
                Seq::new(msgs@.len(), |i: int| (msgs@[i].0, msgs@[i].1@)),
            ),
    {
        let ghost k0 = self.keys;
        let ghost c0 = self.c_mac@;
        let ghost r0 = self.r_mac@;
        let mut i: usize = 0;
        while i < msgs.len()
            invariant
                i <= msgs@.len(),
                self.keys == k0,
                forall|j: int| 0 <= j < msgs@.len() ==> (#[trigger] msgs@[j]).1@.len() <= 1024,
                (self.c_mac@, self.r_mac@) == rolling_macs(
                    k0,
                    c0,
                    r0,
                    Seq::new(i as nat, |j: int| (msgs@[j].0, msgs@[j].1@)),
                ),
            decreases msgs@.len() - i,
        {
            let ghost s = Seq::new((i + 1) as nat, |j: int| (msgs@[j].0, msgs@[j].1@));
            assert(s.drop_last() =~= Seq::new(i as nat, |j: int| (msgs@[j].0, msgs@[j].1@)));
            let (from_cp, m) = (msgs[i].0, &msgs[i].1);
            if from_cp {
                self.mac_command(m.as_slice());
            } else {
                self.mac_reply(m.as_slice());
            }
            i += 1;
        }
        assert(Seq::new(msgs@.len(), |j: int| (msgs@[j].0, msgs@[j].1@)) =~= Seq::new(
            i as nat,
            |j: int| (msgs@[j].0, msgs@[j].1@),
        ));
    }
}

/// Under a secure channel the rolling MACs in each direction after N
/// messages are a function of the session keys, the MACs the session
/// started from, and those N messages: two sessions that agree on these
/// agree on the MACs. A session starts from the initial R-MAC of its
/// handshake, which depends on the handshake's random numbers as well as
/// on the keys.
pub proof fn lemma_rolling_mac_deterministic(
    a: SecureSession,
    b: SecureSession,
    msgs: Seq<(bool, Seq<u8>)>,
)
    requires
        a.keys == b.keys,
        a.c_mac@ == b.c_mac@,
        a.r_mac@ == b.r_mac@,
    ensures
        rolling_macs(a.keys, a.c_mac@, a.r_mac@, msgs) == rolling_macs(
            b.keys,
            b.c_mac@,
            b.r_mac@,
            msgs,
        ),
{
}

/// The default base key, for install mode: bytes 0x30 to 0x3F.
pub open spec fn default_scbk() -> Seq<u8> {
    Seq::new(16, |i: int| (0x30 + i) as u8)
}

/// The default base key, for install mode: bytes 0x30 to 0x3F.
pub fn scbk_default() -> (r: [u8; 16])
    ensures
        r@ == default_scbk(),
{
    let r: [u8; 16] = [0x30, 0x31, 0x32, 0x33, 0x34, 0x35, 0x36, 0x37, 0x38, 0x39, 0x3A, 0x3B, 0x3C, 0x3D, 0x3E, 0x3F];
    assert(r@ =~= default_scbk());
    r
}

/// The base key for a session: the default key when the CP asks for it,
/// which only install mode without enforced security allows; the PD's own
/// key otherwise. Fails with `OsdpError::Setup` when the default key is
/// asked for and not allowed.
pub fn select_scbk(flags: OsdpFlag, scbk: &[u8; 16], use_default: bool) -> (r: Result<[u8; 16], OsdpError>)
    ensures
        !use_default ==> r == Ok::<[u8; 16], OsdpError>(*scbk),
        use_default && (flags.bits & FLAG_INSTALL_MODE != 0 && flags.bits & FLAG_ENFORCE_SECURE == 0)
            ==> (r matches Ok(k) && k@ == default_scbk()),
        use_default && !(flags.bits & FLAG_INSTALL_MODE != 0 && flags.bits & FLAG_ENFORCE_SECURE
            == 0) ==> r == Err::<[u8; 16], OsdpError>(OsdpError::Setup),
{
    if !use_default {
        return Ok(*scbk);
    }
    if flags.install_mode_allowed() {
        Ok(scbk_default())
    } else {
        Err(OsdpError::Setup)
    }
}

/// The PD's side of a handshake in progress.
#[derive(Clone, Copy, Debug)]
pub struct PdHandshake {
    /// Session keys
    pub keys: SessionKeys,
    /// The CP's challenge
    pub rnd_a: [u8; 8],
    /// The PD's random
    pub rnd_b: [u8; 8],
}

/// The PD's answer to a challenge: the handshake state and the SCS_12
/// payload (client id, RND.B, client cryptogram).
pub fn pd_answer_challenge(scbk: &[u8; 16], rnd_a: &[u8; 8], rnd_b: &[u8; 8], cuid: &[u8; 8]) -> (r: (PdHandshake, Vec<u8>))
    ensures
        keys_match(r.0.keys, scbk@, rnd_a@),
        r.0.rnd_a == *rnd_a,
        r.0.rnd_b == *rnd_b,
        r.1@ == cuid@ + rnd_b@ + aes128_encrypt_spec(r.0.keys.s_enc@, rnd_a@ + rnd_b@),
        r.1@.len() == 32,
{
    let keys = derive_session_keys(scbk, rnd_a);
    let cc = client_cryptogram(&keys, rnd_a, rnd_b);
    let mut out: Vec<u8> = Vec::new();
    crate::bytes::extend_from(&mut out, cuid, 0, 8);
    crate::bytes::extend_from(&mut out, rnd_b, 0, 8);
    crate::bytes::extend_from(&mut out, &cc, 0, 16);
    assert(cuid@.subrange(0, 8) =~= cuid@);
    assert(rnd_b@.subrange(0, 8) =~= rnd_b@);
    assert(cc@.subrange(0, 16) =~= cc@);
    (PdHandshake { keys, rnd_a: *rnd_a, rnd_b: *rnd_b }, out)
}

/// The PD checks the server cryptogram (SCS_13 payload). On a match the
/// session is up, with C-MAC and R-MAC both the initial R-MAC, and the
/// SCS_14 payload is that R-MAC. A mismatch fails with
/// `OsdpError::Setup`: the PD answers NAK and drops the keys.
pub fn pd_check_server_cryptogram(hs: &PdHandshake, got: &[u8]) -> (r: Result<(SecureSession, [u8; 16]), OsdpError>)
    ensures
        (got@ == aes128_encrypt_spec(hs.keys.s_enc@, hs.rnd_b@ + hs.rnd_a@)) <==> r is Ok,
        r is Err ==> r == Err::<(SecureSession, [u8; 16]), OsdpError>(OsdpError::Setup),
        r matches Ok((s, rmac)) ==> s.keys == hs.keys && rmac@ == initial_rmac_spec(hs.keys, got@)
            && s.r_mac == rmac && s.c_mac == rmac,
{
    let expected = server_cryptogram(&hs.keys, &hs.rnd_a, &hs.rnd_b);
    if !bytes_equal(got, &expected) {
        return Err(OsdpError::Setup);
    }
    let rmac = initial_rmac(&hs.keys, &expected);
    Ok((SecureSession { keys: hs.keys, c_mac: rmac, r_mac: rmac }, rmac))
}

/// The CP's side of a handshake in progress.
#[derive(Clone, Copy, Debug)]
pub struct CpHandshake {
    /// Session keys
    pub keys: SessionKeys,
    /// The server cryptogram sent
    pub server: [u8; 16],
}

/// The CP checks the SCS_12 payload (client id, RND.B, client cryptogram)
/// against its challenge. On a match it returns the handshake state and the
/// SCS_13 payload, the server cryptogram. A malformed payload or a
/// mismatch fails with `OsdpError::Setup`.
pub fn cp_check_client_cryptogram(scbk: &[u8; 16], rnd_a: &[u8; 8], payload: &[u8]) -> (r: Result<(CpHandshake, [u8; 16]), OsdpError>)
    ensures
        r is Ok <==> (payload@.len() == 32 && payload@.subrange(16, 32) == aes128_encrypt_spec(
            aes128_encrypt_spec(scbk@, key_block(0x82, rnd_a@)),
            rnd_a@ + payload@.subrange(8, 16),
        )),
        r is Err ==> r == Err::<(CpHandshake, [u8; 16]), OsdpError>(OsdpError::Setup),
        r matches Ok((hs, server)) ==> keys_match(hs.keys, scbk@, rnd_a@) && hs.server == server
            && server@ == aes128_encrypt_spec(hs.keys.s_enc@, payload@.subrange(8, 16) + rnd_a@),
{
    if payload.len() != 32 {
        return Err(OsdpError::Setup);
    }
    let keys = derive_session_keys(scbk, rnd_a);
    let rnd_b: [u8; 8] = [payload[8], payload[9], payload[10], payload[11], payload[12], payload[13], payload[14], payload[15]];
    assert(rnd_b@ =~= payload@.subrange(8, 16));
    let cc = client_cryptogram(&keys, rnd_a, &rnd_b);
    let got = crate::bytes::copy_range(payload, 16, 32);
    if !bytes_equal(got.as_slice(), &cc) {
        return Err(OsdpError::Setup);
    }
    let server = server_cryptogram(&keys, rnd_a, &rnd_b);
    Ok((CpHandshake { keys, server }, server))
}

/// The CP checks the initial R-MAC (SCS_14 payload). On a match the session
/// is up, with C-MAC and R-MAC both that R-MAC; a mismatch fails with
/// `OsdpError::Setup`.
pub fn cp_check_initial_rmac(hs: &CpHandshake, got: &[u8]) -> (r: Result<SecureSession, OsdpError>)
    ensures
        (got@ == initial_rmac_spec(hs.keys, hs.server@)) <==> r is Ok,
        r is Err ==> r == Err::<SecureSession, OsdpError>(OsdpError::Setup),
        r matches Ok(s) ==> s.keys == hs.keys && s.c_mac@ == got@ && s.r_mac@ == got@,
{
    let expected = initial_rmac(&hs.keys, &hs.server);
    if !bytes_equal(got, &expected) {
        return Err(OsdpError::Setup);
    }
    Ok(SecureSession { keys: hs.keys, c_mac: expected, r_mac: expected })
}

/// A PD's base key diversified from a master key: the master key's
/// encryption of the client id followed by its bitwise complement.
pub open spec fn diversified_scbk(master: Seq<u8>, cuid: Seq<u8>) -> Seq<u8> {
    aes128_encrypt_spec(master, cuid + Seq::new(8, |i: int| !cuid[i]))
}

/// Derives a PD's base key from a master key and the PD's client id.
pub fn diversify_scbk(master: &[u8; 16], cuid: &[u8; 8]) -> (r: [u8; 16])
    ensures
        r@ == diversified_scbk(master@, cuid@),
{
    let mut b: [u8; 16] = [0; 16];
    let mut i: usize = 0;
    while i < 8
        invariant
            i <= 8,
            b@.len() == 16,
            forall|j: int| 0 <= j < i ==> b@[j] == cuid@[j] && b@[j + 8] == !cuid@[j],
        decreases 8 - i,
    {
        b[i] = cuid[i];
        b[i + 8] = !cuid[i];
        i += 1;
    }
    assert(b@ =~= cuid@ + Seq::new(8, |i: int| !cuid@[i]));
    aes128_encrypt(master, &b)
}

/// Bitwise complement of 16 bytes: the IV of payload encryption is the
/// complement of the last MAC received.
pub open spec fn complement16(m: Seq<u8>) -> Seq<u8> {
    Seq::new(16, |i: int| !m[i])
}

/// The first `n` CBC ciphertext blocks of `p` under `key`, from `iv`.
pub open spec fn cbc_ciphertext(key: Seq<u8>, iv: Seq<u8>, p: Seq<u8>, n: nat) -> Seq<u8>
    decreases n,
{
    if n == 0 {
        Seq::empty()
    } else {
        cbc_ciphertext(key, iv, p, (n - 1) as nat) + cbc_chain(key, iv, p, n)
    }
}

/// Block `k` (from 0) of `c`.
pub open spec fn block_of(c: Seq<u8>, k: int) -> Seq<u8> {
    c.subrange(16 * k, 16 * k + 16)
}

/// The first `n` CBC plaintext blocks of the ciphertext `c` under `key`,
/// from `iv`.
pub open spec fn cbc_plaintext(key: Seq<u8>, iv: Seq<u8>, c: Seq<u8>, n: nat) -> Seq<u8>
    decreases n,
{
    if n == 0 {
        Seq::empty()
    } else {
        let prev = if n == 1 {
            iv
        } else {
            block_of(c, n - 2)
        };
        cbc_plaintext(key, iv, c, (n - 1) as nat) + xor_block(
            aes128_decrypt_spec(key, block_of(c, n - 1)),
            prev,
            0,
        )
    }
}

/// Index of the last non-zero byte of `p[..n]`, or -1.
pub open spec fn last_nonzero(p: Seq<u8>, n: int) -> int
    decreases n,
{
    if n <= 0 {
        -1
    } else if p[n - 1] != 0 {
        n - 1
    } else {
        last_nonzero(p, n - 1)
    }
}

/// The data before the padding of `p`: trailing zeros after one `0x80`.
pub open spec fn unpad(p: Seq<u8>) -> Option<Seq<u8>> {
    let k = last_nonzero(p, p.len() as int);
    if k >= 0 && p[k] == 0x80 {
        Some(p.subrange(0, k))
    } else {
        None
    }
}

/// Copies 16 bytes of `v` from `at` into an array.
fn block_at(v: &Vec<u8>, at: usize) -> (r: [u8; 16])
    requires
        at <= 2048,
        at + 16 <= v@.len(),
    ensures
        r@ == v@.subrange(at as int, at + 16),
{
    let mut b: [u8; 16] = [0; 16];
    let mut i: usize = 0;
    while i < 16
        invariant
            i <= 16,
            at <= 2048,
            at + 16 <= v@.len(),
            b@.len() == 16,
            forall|j: int| 0 <= j < i ==> b@[j] == v@[at + j],
        decreases 16 - i,
    {
        b[i] = v[at + i];
        i += 1;
    }
    assert(b@ =~= v@.subrange(at as int, at + 16));
    b
}

/// Encrypts a payload: pads it (see `mac_padding`) and runs AES-CBC under
/// S-ENC from the complement of `last_mac`.
pub fn encrypt_payload(keys: &SessionKeys, last_mac: &[u8; 16], data: &[u8]) -> (r: Vec<u8>)
    requires
        data@.len() <= 1024,
    ensures
        r@ == cbc_ciphertext(
            keys.s_enc@,
            complement16(last_mac@),
            mac_padding(data@),
            mac_padding(data@).len() / 16,
        ),
        r@.len() == mac_padding(data@).len(),
{
    let p = pad_message(data);
    let n = p.len() / 16;
    let mut iv: [u8; 16] = [0; 16];
    let mut i: usize = 0;
    while i < 16
        invariant
            i <= 16,
            iv@.len() == 16,
            forall|j: int| 0 <= j < i ==> iv@[j] == !last_mac@[j],
        decreases 16 - i,
    {
        iv[i] = !last_mac[i];
        i += 1;
    }
    assert(iv@ =~= complement16(last_mac@));
    let mut chain: [u8; 16] = iv;
    let mut out: Vec<u8> = Vec::new();
    let mut k: usize = 0;
    while k < n
        invariant
            p@ == mac_padding(data@),
            n == p@.len() / 16,
            n <= 65,
            p@.len() % 16 == 0,
            k <= n,
            chain@ == cbc_chain(keys.s_enc@, iv@, p@, k as nat),
            out@ == cbc_ciphertext(keys.s_enc@, iv@, p@, k as nat),
            out@.len() == 16 * k,
        decreases n - k,
    {
        let x = xor_block_exec(&chain, &p, k);
        chain = aes128_encrypt(&keys.s_enc, &x);
        crate::bytes::extend_from(&mut out, &chain, 0, 16);
        assert(chain@.subrange(0, 16) =~= chain@);
        k += 1;
    }
    out
}

/// Decrypts a payload: AES-CBC under S-ENC from the complement of
/// `last_mac`, then strips the padding. Fails with `OsdpError::Setup` when
/// the length is not a whole number of blocks or the padding is wrong.
pub fn decrypt_payload(keys: &SessionKeys, last_mac: &[u8; 16], c: &[u8]) -> (r: Result<Vec<u8>, OsdpError>)
    requires
        c@.len() <= 1040,
    ensures
        (c@.len() % 16 != 0 || c@.len() == 0) ==> r == Err::<Vec<u8>, OsdpError>(OsdpError::Setup),
        (c@.len() % 16 == 0 && c@.len() > 0) ==> match unpad(
            cbc_plaintext(keys.s_enc@, complement16(last_mac@), c@, c@.len() / 16),
        ) {
            Some(d) => r is Ok && r->Ok_0@ == d,
            None => r == Err::<Vec<u8>, OsdpError>(OsdpError::Setup),
        },
{
    if c.len() % 16 != 0 || c.len() == 0 {
        return Err(OsdpError::Setup);
    }
    let cv = crate::bytes::copy_range(c, 0, c.len());
    assert(c@.subrange(0, c@.len() as int) =~= c@);
    let n = c.len() / 16;
    let mut iv: [u8; 16] = [0; 16];
    let mut i: usize = 0;
    while i < 16
        invariant
            i <= 16,
            iv@.len() == 16,
            forall|j: int| 0 <= j < i ==> iv@[j] == !last_mac@[j],
        decreases 16 - i,
    {
        iv[i] = !last_mac[i];
        i += 1;
    }
    assert(iv@ =~= complement16(last_mac@));
    let mut prev: [u8; 16] = iv;
    let mut out: Vec<u8> = Vec::new();
    let mut k: usize = 0;
    while k < n
        invariant
            cv@ == c@,
            n == c@.len() / 16,
            n <= 65,
            c@.len() % 16 == 0,
            k <= n,
            prev@ == if k == 0 {
                iv@
            } else {
                block_of(c@, k - 1)
            },
            out@ == cbc_plaintext(keys.s_enc@, iv@, c@, k as nat),
            out@.len() == 16 * k,
        decreases n - k,
    {
        let cb = block_at(&cv, 16 * k);
        let d = aes128_decrypt(&keys.s_enc, &cb);
        let pv: Vec<u8> = crate::bytes::copy_range(&prev, 0, 16);
        assert(pv@ =~= prev@);
        let x = xor_block_exec(&d, &pv, 0);
        crate::bytes::extend_from(&mut out, &x, 0, 16);
        assert(x@.subrange(0, 16) =~= x@);
        prev = cb;
        k += 1;
    }
    let len = out.len();
    let mut j = len;
    while j > 0 && out[j - 1] == 0
        invariant
            j <= len == out@.len(),
            last_nonzero(out@, j as int) == last_nonzero(out@, len as int),
        decreases j,
    {
        j -= 1;
    }
    if j == 0 || out[j - 1] != 0x80 {
        return Err(OsdpError::Setup);
    }
    Ok(crate::bytes::copy_range(out.as_slice(), 0, j - 1))
}

} // verus!
