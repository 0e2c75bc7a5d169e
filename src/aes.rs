//! AES-128 encryption of one block (FIPS-197), from its definition: the
//! S-box is the affine map of the inverse in GF(2^8).
use vstd::prelude::*;

verus! {

/// Multiplication by x in GF(2^8) modulo x^8 + x^4 + x^3 + x + 1.
pub open spec fn xtime(a: u8) -> u8 {
    if a & 0x80u8 != 0 {
        ((a << 1u8) ^ 0x1bu8) as u8
    } else {
        (a << 1u8) as u8
    }
}

/// `k` more steps of shift-and-add multiplication: accumulator `p`,
/// multiplicand `a`, remaining multiplier bits `b`.
pub open spec fn gf_mul_steps(a: u8, b: u8, p: u8, k: nat) -> u8
    decreases k,
{
    if k == 0 {
        p
    } else {
        gf_mul_steps(xtime(a), b >> 1u8, if b & 1u8 != 0 { p ^ a } else { p }, (k - 1) as nat)
    }
}

/// Product in GF(2^8).
pub open spec fn gf_mul(a: u8, b: u8) -> u8 {
    gf_mul_steps(a, b, 0, 8)
}

/// `x` to the power `n` in GF(2^8).
pub open spec fn gf_pow(x: u8, n: nat) -> u8
    decreases n,
{
    if n == 0 {
        1
    } else {
        gf_mul(gf_pow(x, (n - 1) as nat), x)
    }
}

/// Rotation of a byte left by `k` bits, `1 <= k <= 7`.
pub open spec fn rotl8(b: u8, k: u8) -> u8 {
    ((b << k) | (b >> ((8 - k) as u8))) as u8
}

/// The AES S-box: the multiplicative inverse (`x^254`, 0 for 0) followed
/// by the affine map.
pub open spec fn sbox(x: u8) -> u8 {
    let v = gf_pow(x, 254);
    (v ^ rotl8(v, 1) ^ rotl8(v, 2) ^ rotl8(v, 3) ^ rotl8(v, 4) ^ 0x63u8) as u8
}

/// Product in GF(2^8).
pub fn gf_mul_exec(a: u8, b: u8) -> (r: u8)
    ensures
        r == gf_mul(a, b),
{
    let mut x = a;
    let mut y = b;
    let mut p: u8 = 0;
    let mut k: usize = 0;
    while k < 8
        invariant
            k <= 8,
            gf_mul_steps(x, y, p, (8 - k) as nat) == gf_mul(a, b),
        decreases 8 - k,
    {
        if y & 1u8 != 0 {
            p = p ^ x;
        }
        x = if x & 0x80u8 != 0 {
            (x << 1u8) ^ 0x1bu8
        } else {
            x << 1u8
        };
        y = y >> 1u8;
        k += 1;
    }
    p
}

/// The AES S-box.
pub fn sbox_exec(x: u8) -> (r: u8)
    ensures
        r == sbox(x),
{
    let mut v: u8 = 1;
    let mut n: usize = 0;
    while n < 254
        invariant
            n <= 254,
            v == gf_pow(x, n as nat),
        decreases 254 - n,
    {
        v = gf_mul_exec(v, x);
        n += 1;
    }
    v ^ ((v << 1u8) | (v >> 7u8)) ^ ((v << 2u8) | (v >> 6u8)) ^ ((v << 3u8) | (v >> 5u8)) ^ ((v
        << 4u8) | (v >> 4u8)) ^ 0x63u8
}

/// Round constant of round `r >= 1`: `x^(r-1)`.
pub open spec fn rcon(r: nat) -> u8
    decreases r,
{
    if r <= 1 {
        1
    } else {
        xtime(rcon((r - 1) as nat))
    }
}

/// Byte `j` of word `i` of the key schedule of a 16-byte key.
pub open spec fn key_word(key: Seq<u8>, i: nat, j: nat) -> u8
    decreases i, 1nat,
{
    if i < 4 {
        key[(4 * i + j) as int]
    } else if i % 4 == 0 {
        let t = if j == 0 {
            (sbox(key_word(key, (i - 1) as nat, 1)) ^ rcon(i / 4)) as u8
        } else {
            sbox(key_word(key, (i - 1) as nat, (j + 1) % 4))
        };
        (key_word(key, (i - 4) as nat, j) ^ t) as u8
    } else {
        (key_word(key, (i - 4) as nat, j) ^ key_word(key, (i - 1) as nat, j)) as u8
    }
}

/// The 176 bytes of the key schedule of a 16-byte key.
pub open spec fn key_schedule(key: Seq<u8>) -> Seq<u8> {
    Seq::new(176, |k: int| key_word(key, (k / 4) as nat, (k % 4) as nat))
}

/// Expands a 16-byte key into its 176-byte schedule.
pub fn expand_key(key: &[u8; 16]) -> (r: Vec<u8>)
    ensures
        r@ == key_schedule(key@),
{
    let mut w: Vec<u8> = Vec::new();
    let mut k: usize = 0;
    while k < 176
        invariant
            k <= 176,
            w@.len() == k,
            key@.len() == 16,
            forall|m: int| 0 <= m < k ==> w@[m] == key_word(key@, (m / 4) as nat, (m % 4) as nat),
        decreases 176 - k,
    {
        let i = k / 4;
        let j = k % 4;
        let b = if i < 4 {
            key[k]
        } else if i % 4 == 0 {
            let t = if j == 0 {
                sbox_exec(w[k - 3]) ^ rcon_exec(i / 4)
            } else {
                sbox_exec(w[4 * (i - 1) + (j + 1) % 4])
            };
            w[k - 16] ^ t
        } else {
            w[k - 16] ^ w[k - 4]
        };
        proof {
            if i >= 4 {
                assert((k - 16) / 4 == i - 4 && (k - 16) % 4 == j);
                assert((k - 4) / 4 == i - 1 && (k - 4) % 4 == j);
                if j == 0 {
                    assert((k - 3) / 4 == i - 1 && (k - 3) % 4 == 1);
                }
                let m = 4 * (i - 1) + (j + 1) % 4;
                assert(m / 4 == i - 1 && m % 4 == (j + 1) % 4);
            }
        }
        w.push(b);
        k += 1;
    }
    assert(w@ =~= key_schedule(key@));
    w
}

/// Round constant of round `r`, `1 <= r <= 10`.
fn rcon_exec(r: usize) -> (c: u8)
    requires
        1 <= r <= 10,
    ensures
        c == rcon(r as nat),
{
    let mut c: u8 = 1;
    let mut k: usize = 1;
    while k < r
        invariant
            1 <= k <= r,
            c == rcon(k as nat),
        decreases r - k,
    {
        c = if c & 0x80u8 != 0 {
            (c << 1u8) ^ 0x1bu8
        } else {
            c << 1u8
        };
        k += 1;
    }
    c
}

/// SubBytes.
pub open spec fn sub_bytes(s: Seq<u8>) -> Seq<u8> {
    Seq::new(16, |i: int| sbox(s[i]))
}

/// ShiftRows: byte `i` is row `i % 4`, column `i / 4`; row `r` turns left by `r`.
pub open spec fn shift_rows(s: Seq<u8>) -> Seq<u8> {
    Seq::new(16, |i: int| s[(i % 4) + 4 * (((i / 4) + (i % 4)) % 4)])
}

/// Byte `i` after MixColumns: `2·a0 + 3·a1 + a2 + a3` down its column.
pub open spec fn mix_byte(s: Seq<u8>, i: int) -> u8 {
    let c = i / 4;
    let r = i % 4;
    let a0 = s[4 * c + r];
    let a1 = s[4 * c + (r + 1) % 4];
    let a2 = s[4 * c + (r + 2) % 4];
    let a3 = s[4 * c + (r + 3) % 4];
    (xtime(a0) ^ xtime(a1) ^ a1 ^ a2 ^ a3) as u8
}

/// MixColumns.
pub open spec fn mix_columns(s: Seq<u8>) -> Seq<u8> {
    Seq::new(16, |i: int| mix_byte(s, i))
}

/// AddRoundKey with round key `r` of the schedule `w`.
pub open spec fn add_round_key(s: Seq<u8>, w: Seq<u8>, r: int) -> Seq<u8> {
    Seq::new(16, |i: int| (s[i] ^ w[16 * r + i]) as u8)
}

/// The state after the initial key addition and `n` full rounds.
pub open spec fn rounds(s: Seq<u8>, w: Seq<u8>, n: nat) -> Seq<u8>
    decreases n,
{
    if n == 0 {
        add_round_key(s, w, 0)
    } else {
        add_round_key(mix_columns(shift_rows(sub_bytes(rounds(s, w, (n - 1) as nat)))), w, n as int)
    }
}

/// AES-128 encryption of one 16-byte block.
#[verifier::opaque]
pub open spec fn aes128_encrypt_spec(key: Seq<u8>, block: Seq<u8>) -> Seq<u8> {
    let w = key_schedule(key);
    add_round_key(shift_rows(sub_bytes(rounds(block, w, 9))), w, 10)
}

fn sub_bytes_exec(s: &Vec<u8>) -> (r: Vec<u8>)
    requires
        s@.len() == 16,
    ensures
        r@ == sub_bytes(s@),
{
    let mut out: Vec<u8> = Vec::new();
    let mut i: usize = 0;
    while i < 16
        invariant
            i <= 16,
            s@.len() == 16,
            out@.len() == i,
            forall|j: int| 0 <= j < i ==> out@[j] == sbox(s@[j]),
        decreases 16 - i,
    {
        out.push(sbox_exec(s[i]));
        i += 1;
    }
    assert(out@ =~= sub_bytes(s@));
    out
}

fn shift_rows_exec(s: &Vec<u8>) -> (r: Vec<u8>)
    requires
        s@.len() == 16,
    ensures
        r@ == shift_rows(s@),
{
    let mut out: Vec<u8> = Vec::new();
    let mut i: usize = 0;
    while i < 16
        invariant
            i <= 16,
            s@.len() == 16,
            out@.len() == i,
            forall|j: int|
                0 <= j < i ==> out@[j] == s@[(j % 4) + 4 * (((j / 4) + (j % 4)) % 4)],
        decreases 16 - i,
    {
        out.push(s[(i % 4) + 4 * (((i / 4) + (i % 4)) % 4)]);
        i += 1;
    }
    assert(out@ =~= shift_rows(s@));
    out
}

fn xtime_exec(a: u8) -> (r: u8)
    ensures
        r == xtime(a),
{
    if a & 0x80u8 != 0 {
        (a << 1u8) ^ 0x1bu8
    } else {
        a << 1u8
    }
}

fn mix_columns_exec(s: &Vec<u8>) -> (r: Vec<u8>)
    requires
        s@.len() == 16,
    ensures
        r@ == mix_columns(s@),
{
    let mut out: Vec<u8> = Vec::new();
    let mut i: usize = 0;
    while i < 16
        invariant
            i <= 16,
            s@.len() == 16,
            out@.len() == i,
            forall|j: int| 0 <= j < i ==> out@[j] == mix_byte(s@, j),
        decreases 16 - i,
    {
        let c = i / 4;
        let r = i % 4;
        let a0 = s[4 * c + r];
        let a1 = s[4 * c + (r + 1) % 4];
        let a2 = s[4 * c + (r + 2) % 4];
        let a3 = s[4 * c + (r + 3) % 4];
        out.push(xtime_exec(a0) ^ xtime_exec(a1) ^ a1 ^ a2 ^ a3);
        i += 1;
    }
    assert(out@ =~= mix_columns(s@));
    out
}

fn add_round_key_exec(s: &Vec<u8>, w: &Vec<u8>, r: usize) -> (out: Vec<u8>)
    requires
        s@.len() == 16,
        w@.len() == 176,
        r <= 10,
    ensures
        out@ == add_round_key(s@, w@, r as int),
{
    let mut out: Vec<u8> = Vec::new();
    let mut i: usize = 0;
    while i < 16
        invariant
            i <= 16,
            r <= 10,
            s@.len() == 16,
            w@.len() == 176,
            out@.len() == i,
            forall|j: int| 0 <= j < i ==> out@[j] == (s@[j] ^ w@[16 * r + j]) as u8,
        decreases 16 - i,
    {
        out.push(s[i] ^ w[16 * r + i]);
        i += 1;
    }
    assert(out@ =~= add_round_key(s@, w@, r as int));
    out
}

/// Encrypts one 16-byte block with AES-128 (FIPS-197).
pub fn aes128_encrypt(key: &[u8; 16], block: &[u8; 16]) -> (r: [u8; 16])
    ensures
        r@ == aes128_encrypt_spec(key@, block@),
{
    let w = expand_key(key);
    let mut b: Vec<u8> = Vec::new();
    let mut i: usize = 0;
    while i < 16
        invariant
            i <= 16,
            b@ == block@.subrange(0, i as int),
        decreases 16 - i,
    {
        b.push(block[i]);
        assert(block@.subrange(0, i + 1) =~= block@.subrange(0, i as int).push(block@[i as int]));
        i += 1;
    }
    assert(block@.subrange(0, 16) =~= block@);
    let mut s = add_round_key_exec(&b, &w, 0);
    let mut n: usize = 1;
    while n <= 9
        invariant
            1 <= n <= 10,
            w@ == key_schedule(key@),
            w@.len() == 176,
            s@ == rounds(block@, w@, (n - 1) as nat),
            s@.len() == 16,
        decreases 10 - n,
    {
        let t = mix_columns_exec(&shift_rows_exec(&sub_bytes_exec(&s)));
        s = add_round_key_exec(&t, &w, n);
        n += 1;
    }
    let f = add_round_key_exec(&shift_rows_exec(&sub_bytes_exec(&s)), &w, 10);
    let mut out: [u8; 16] = [0; 16];
    let mut k: usize = 0;
    while k < 16
        invariant
            k <= 16,
            f@.len() == 16,
            out@.len() == 16,
            forall|j: int| 0 <= j < k ==> out@[j] == f@[j],
        decreases 16 - k,
    {
        out[k] = f[k];
        k += 1;
    }
    assert(out@ =~= f@);
    proof {
        reveal(aes128_encrypt_spec);
    }
    out
}

/// Inverse of the S-box's affine map.
pub open spec fn inv_affine(b: u8) -> u8 {
    (rotl8(b, 1) ^ rotl8(b, 3) ^ rotl8(b, 6) ^ 0x05u8) as u8
}

/// The inverse S-box: the inverse affine map followed by the multiplicative
/// inverse.
pub open spec fn inv_sbox(x: u8) -> u8 {
    gf_pow(inv_affine(x), 254)
}

/// The inverse S-box.
pub fn inv_sbox_exec(x: u8) -> (r: u8)
    ensures
        r == inv_sbox(x),
{
    let b = ((x << 1u8) | (x >> 7u8)) ^ ((x << 3u8) | (x >> 5u8)) ^ ((x << 6u8) | (x >> 2u8)) ^ 0x05u8;
    let mut v: u8 = 1;
    let mut n: usize = 0;
    while n < 254
        invariant
            n <= 254,
            b == inv_affine(x),
            v == gf_pow(b, n as nat),
        decreases 254 - n,
    {
        v = gf_mul_exec(v, b);
        n += 1;
    }
    v
}

/// InvSubBytes.
pub open spec fn inv_sub_bytes(s: Seq<u8>) -> Seq<u8> {
    Seq::new(16, |i: int| inv_sbox(s[i]))
}

/// InvShiftRows: row `r` turns right by `r`.
pub open spec fn inv_shift_rows(s: Seq<u8>) -> Seq<u8> {
    Seq::new(16, |i: int| s[(i % 4) + 4 * (((i / 4) - (i % 4) + 4) % 4)])
}

/// Byte `i` after InvMixColumns: `14·a0 + 11·a1 + 13·a2 + 9·a3` down its column.
pub open spec fn inv_mix_byte(s: Seq<u8>, i: int) -> u8 {
    let c = i / 4;
    let r = i % 4;
    let a0 = s[4 * c + r];
    let a1 = s[4 * c + (r + 1) % 4];
    let a2 = s[4 * c + (r + 2) % 4];
    let a3 = s[4 * c + (r + 3) % 4];
    (gf_mul(a0, 14) ^ gf_mul(a1, 11) ^ gf_mul(a2, 13) ^ gf_mul(a3, 9)) as u8
}

/// InvMixColumns.
pub open spec fn inv_mix_columns(s: Seq<u8>) -> Seq<u8> {
    Seq::new(16, |i: int| inv_mix_byte(s, i))
}

/// The state after the first key addition (round 10) and `n` inverse rounds.
pub open spec fn inv_rounds(s: Seq<u8>, w: Seq<u8>, n: nat) -> Seq<u8>
    decreases n,
{
    if n == 0 {
        add_round_key(s, w, 10)
    } else {
        inv_mix_columns(add_round_key(inv_sub_bytes(inv_shift_rows(inv_rounds(s, w, (n - 1) as nat))), w, 10 - n))
    }
}

/// AES-128 decryption of one 16-byte block (the inverse cipher).
#[verifier::opaque]
pub open spec fn aes128_decrypt_spec(key: Seq<u8>, block: Seq<u8>) -> Seq<u8> {
    let w = key_schedule(key);
    add_round_key(inv_sub_bytes(inv_shift_rows(inv_rounds(block, w, 9))), w, 0)
}

fn inv_sub_bytes_exec(s: &Vec<u8>) -> (r: Vec<u8>)
    requires
        s@.len() == 16,
    ensures
        r@ == inv_sub_bytes(s@),
{
    let mut out: Vec<u8> = Vec::new();
    let mut i: usize = 0;
    while i < 16
        invariant
            i <= 16,
            s@.len() == 16,
            out@.len() == i,
            forall|j: int| 0 <= j < i ==> out@[j] == inv_sbox(s@[j]),
        decreases 16 - i,
    {
        out.push(inv_sbox_exec(s[i]));
        i += 1;
    }
    assert(out@ =~= inv_sub_bytes(s@));
    out
}

fn inv_shift_rows_exec(s: &Vec<u8>) -> (r: Vec<u8>)
    requires
        s@.len() == 16,
    ensures
        r@ == inv_shift_rows(s@),
{
    let mut out: Vec<u8> = Vec::new();
    let mut i: usize = 0;
    while i < 16
        invariant
            i <= 16,
            s@.len() == 16,
            out@.len() == i,
            forall|j: int|
                0 <= j < i ==> out@[j] == s@[(j % 4) + 4 * (((j / 4) - (j % 4) + 4) % 4)],
        decreases 16 - i,
    {
        out.push(s[(i % 4) + 4 * (((i / 4) + 4 - (i % 4)) % 4)]);
        i += 1;
    }
    assert(out@ =~= inv_shift_rows(s@));
    out
}

fn inv_mix_columns_exec(s: &Vec<u8>) -> (r: Vec<u8>)
    requires
        s@.len() == 16,
    ensures
        r@ == inv_mix_columns(s@),
{
    let mut out: Vec<u8> = Vec::new();
    let mut i: usize = 0;
    while i < 16
        invariant
            i <= 16,
            s@.len() == 16,
            out@.len() == i,
            forall|j: int| 0 <= j < i ==> out@[j] == inv_mix_byte(s@, j),
        decreases 16 - i,
    {
        let c = i / 4;
        let r = i % 4;
        let a0 = s[4 * c + r];
        let a1 = s[4 * c + (r + 1) % 4];
        let a2 = s[4 * c + (r + 2) % 4];
        let a3 = s[4 * c + (r + 3) % 4];
        out.push(gf_mul_exec(a0, 14) ^ gf_mul_exec(a1, 11) ^ gf_mul_exec(a2, 13) ^ gf_mul_exec(a3, 9));
        i += 1;
    }
    assert(out@ =~= inv_mix_columns(s@));
    out
}

/// Decrypts one 16-byte block with AES-128 (FIPS-197 inverse cipher).
pub fn aes128_decrypt(key: &[u8; 16], block: &[u8; 16]) -> (r: [u8; 16])
    ensures
        r@ == aes128_decrypt_spec(key@, block@),
{
    let w = expand_key(key);
    let mut b: Vec<u8> = Vec::new();
    let mut i: usize = 0;
    while i < 16
        invariant
            i <= 16,
            b@ == block@.subrange(0, i as int),
        decreases 16 - i,
    {
        b.push(block[i]);
        assert(block@.subrange(0, i + 1) =~= block@.subrange(0, i as int).push(block@[i as int]));
        i += 1;
    }
    assert(block@.subrange(0, 16) =~= block@);
    let mut s = add_round_key_exec(&b, &w, 10);
    let mut n: usize = 1;
    while n <= 9
        invariant
            1 <= n <= 10,
            w@ == key_schedule(key@),
            w@.len() == 176,
            s@ == inv_rounds(block@, w@, (n - 1) as nat),
            s@.len() == 16,
        decreases 10 - n,
    {
        let t = add_round_key_exec(&inv_sub_bytes_exec(&inv_shift_rows_exec(&s)), &w, 10 - n);
        s = inv_mix_columns_exec(&t);
        n += 1;
    }
    let f = add_round_key_exec(&inv_sub_bytes_exec(&inv_shift_rows_exec(&s)), &w, 0);
    let mut out: [u8; 16] = [0; 16];
    let mut k: usize = 0;
    while k < 16
        invariant
            k <= 16,
            f@.len() == 16,
            out@.len() == 16,
            forall|j: int| 0 <= j < k ==> out@[j] == f@[j],
        decreases 16 - k,
    {
        out[k] = f[k];
        k += 1;
    }
    assert(out@ =~= f@);
    proof {
        reveal(aes128_decrypt_spec);
    }
    out
}

} // verus!
