//! Text form of a secure channel base key: 32 hex digits.
use vstd::prelude::*;
use crate::error::OsdpError;
use vstd::string::{StringExecFns, StringSliceAdditionalSpecFns};

verus! {

/// Where a PD's secure channel base key is kept, and its text form.
#[derive(Clone, Debug)]
pub struct KeyStore {
    /// Path of the file that holds the key in text form
    pub store: String,
}

/// Value of a hex digit, either case.
pub open spec fn hex_digit(c: u8) -> Option<u8> {
    if 48 <= c <= 57 {
        Some((c - 48) as u8)
    } else if 97 <= c <= 102 {
        Some((c - 87) as u8)
    } else if 65 <= c <= 70 {
        Some((c - 55) as u8)
    } else {
        None
    }
}

/// A byte written as two characters, as `u8::from_str_radix(_, 16)` reads
/// them: two hex digits, or `+` and one hex digit.
pub open spec fn hex_pair(a: u8, b: u8) -> Option<u8> {
    if a == 43 {
        hex_digit(b)
    } else {
        match (hex_digit(a), hex_digit(b)) {
            (Some(x), Some(y)) => Some((x * 16 + y) as u8),
            _ => None,
        }
    }
}

/// The bytes that the text `s` writes two characters each, if it does.
pub open spec fn decode_hex_spec(s: Seq<u8>) -> Option<Seq<u8>>
    decreases s.len(),
{
    if s.len() == 0 {
        Some(Seq::empty())
    } else if s.len() < 2 {
        None
    } else {
        let k = s.len() - 2;
        match (decode_hex_spec(s.subrange(0, k)), hex_pair(s[k], s[k + 1])) {
            (Some(d), Some(x)) => Some(d.push(x)),
            _ => None,
        }
    }
}

/// Lowercase hex digit of a value below 16.
pub open spec fn hex_char(n: u8) -> u8 {
    if n < 10 {
        (48 + n) as u8
    } else {
        (87 + n) as u8
    }
}

/// Lowercase hex text of the bytes, two digits each.
pub open spec fn hex_text(key: Seq<u8>) -> Seq<u8>
    decreases key.len(),
{
    if key.len() == 0 {
        Seq::empty()
    } else {
        hex_text(key.drop_last()) + seq![hex_char(key.last() / 16), hex_char(key.last() % 16)]
    }
}

/// Text that decodes has even length.
proof fn lemma_decode_even(s: Seq<u8>)
    ensures
        decode_hex_spec(s) is Some ==> s.len() % 2 == 0,
    decreases s.len(),
{
    if s.len() >= 2 {
        lemma_decode_even(s.subrange(0, s.len() - 2));
    }
}

/// When a prefix of whole pairs does not decode, neither does the text.
proof fn lemma_decode_prefix(s: Seq<u8>, k: int)
    requires
        0 <= k <= s.len(),
        k % 2 == 0,
        s.len() % 2 == 0,
        decode_hex_spec(s.subrange(0, k)) is None,
    ensures
        decode_hex_spec(s) is None,
    decreases s.len(),
{
    if s.len() > k {
        let t = s.subrange(0, s.len() - 2);
        assert(t.subrange(0, k) =~= s.subrange(0, k));
        lemma_decode_prefix(t, k);
    } else {
        assert(s.subrange(0, k) =~= s);
    }
}

/// Hex text decodes back to its bytes.
pub proof fn lemma_hex_round_trip(key: Seq<u8>)
    ensures
        decode_hex_spec(hex_text(key)) == Some(key),
        hex_text(key).len() == 2 * key.len(),
    decreases key.len(),
{
    if key.len() > 0 {
        let t = hex_text(key);
        lemma_hex_round_trip(key.drop_last());
        let k = t.len() - 2;
        assert(t.subrange(0, k) =~= hex_text(key.drop_last()));
        let b = key.last();
        let hi = b / 16;
        let lo = b % 16;
        assert(hex_pair(hex_char(hi), hex_char(lo)) == Some(b)) by {
            assert(hex_digit(hex_char(hi)) == Some(hi));
            assert(hex_digit(hex_char(lo)) == Some(lo));
        }
        assert(key.drop_last().push(b) =~= key);
    }
}

/// Value of a hex digit, either case.
fn hex_digit_value(c: u8) -> (r: Option<u8>)
    ensures
        r == hex_digit(c),
{
    if 48 <= c && c <= 57 {
        Some(c - 48)
    } else if 97 <= c && c <= 102 {
        Some(c - 87)
    } else if 65 <= c && c <= 70 {
        Some(c - 55)
    } else {
        None
    }
}

/// The byte that two characters write (see `hex_pair`).
fn hex_pair_value(a: u8, b: u8) -> (r: Option<u8>)
    ensures
        r == hex_pair(a, b),
{
    if a == 43 {
        hex_digit_value(b)
    } else {
        match (hex_digit_value(a), hex_digit_value(b)) {
            (Some(x), Some(y)) => Some(x * 16 + y),
            _ => None,
        }
    }
}

/// The lowercase hex digit of a value below 16, as text.
fn hex_digit_str(n: u8) -> (r: &'static str)
    requires
        n < 16,
    ensures
        r@ == seq![hex_char(n) as char],
{
    if n == 0 {
        proof {
            reveal_strlit("0");
        }
        "0"
    } else if n == 1 {
        proof {
            reveal_strlit("1");
        }
        "1"
    } else if n == 2 {
        proof {
            reveal_strlit("2");
        }
        "2"
    } else if n == 3 {
        proof {
            reveal_strlit("3");
        }
        "3"
    } else if n == 4 {
        proof {
            reveal_strlit("4");
        }
        "4"
    } else if n == 5 {
        proof {
            reveal_strlit("5");
        }
        "5"
    } else if n == 6 {
        proof {
            reveal_strlit("6");
        }
        "6"
    } else if n == 7 {
        proof {
            reveal_strlit("7");
        }
        "7"
    } else if n == 8 {
        proof {
            reveal_strlit("8");
        }
        "8"
    } else if n == 9 {
        proof {
            reveal_strlit("9");
        }
        "9"
    } else if n == 10 {
        proof {
            reveal_strlit("a");
        }
        "a"
    } else if n == 11 {
        proof {
            reveal_strlit("b");
        }
        "b"
    } else if n == 12 {
        proof {
            reveal_strlit("c");
        }
        "c"
    } else if n == 13 {
        proof {
            reveal_strlit("d");
        }
        "d"
    } else if n == 14 {
        proof {
            reveal_strlit("e");
        }
        "e"
    } else {
        proof {
            reveal_strlit("f");
        }
        "f"
    }
}

/// The 16 bytes of `v`, if it has 16.
pub fn vec_to_array(v: Vec<u8>) -> (r: Option<[u8; 16]>)
    ensures
        v@.len() == 16 <==> r is Some,
        r matches Some(a) ==> a@ == v@,
{
    if v.len() != 16 {
        return None;
    }
    let mut a: [u8; 16] = [0; 16];
    let mut i: usize = 0;
    while i < 16
        invariant
            v@.len() == 16,
            i <= 16,
            a@.len() == 16,
            forall|j: int| 0 <= j < i ==> a@[j] == v@[j],
        decreases 16 - i,
    {
        a[i] = v[i];
        i += 1;
    }
    assert(a@ =~= v@);
    Some(a)
}

impl KeyStore {
    /// A key store kept at path `store`.
    pub fn new(store: String) -> (r: Self)
        ensures
            r.store@ == store@,
    {
        KeyStore { store }
    }

    /// Decodes hex text, two characters a byte. Fails with
    /// `OsdpError::Parse("key")` exactly when the text is not such (see
    /// `decode_hex_spec`).
    pub fn decode_hex(s: &str) -> (r: Result<Vec<u8>, OsdpError>)
        ensures
            match decode_hex_spec(s.spec_bytes()) {
                Some(d) => r is Ok && r->Ok_0@ == d,
                None => r == Err::<Vec<u8>, OsdpError>(OsdpError::Parse("key")),
            },
    {
        let b = s.as_bytes();
        let n = b.len();
        if n % 2 != 0 {
            proof {
                lemma_decode_even(b@);
            }
            return Err(OsdpError::Parse("key"));
        }
        let mut out: Vec<u8> = Vec::new();
        let mut i: usize = 0;
        assert(b@.subrange(0, 0) =~= Seq::<u8>::empty());
        while i < n
            invariant
                i <= n == b@.len(),
                b@ == s.spec_bytes(),
                i % 2 == 0,
                n % 2 == 0,
                decode_hex_spec(b@.subrange(0, i as int)) == Some(out@),
            decreases n - i,
        {
            let ghost t = b@.subrange(0, i + 2);
            assert(t.subrange(0, i as int) =~= b@.subrange(0, i as int));
            match hex_pair_value(b[i], b[i + 1]) {
                Some(x) => {
                    out.push(x);
                    assert(t[i as int] == b@[i as int] && t[i + 1] == b@[i + 1]);
                },
                None => {
                    proof {
                        assert(t[i as int] == b@[i as int] && t[i + 1] == b@[i + 1]);
                        assert(decode_hex_spec(t) is None);
                        lemma_decode_prefix(b@, i + 2);
                    }
                    return Err(OsdpError::Parse("key"));
                },
            }
            i += 2;
        }
        assert(b@.subrange(0, n as int) =~= b@);
        Ok(out)
    }

    /// Reads a 16-byte key from hex text. Fails with `OsdpError::Parse("key")`
    /// unless the text decodes to exactly 16 bytes.
    pub fn str_to_key(s: &str) -> (r: Result<[u8; 16], OsdpError>)
        ensures
            match decode_hex_spec(s.spec_bytes()) {
                Some(d) => if d.len() == 16 {
                    r is Ok && r->Ok_0@ == d
                } else {
                    (r is Err && r->Err_0 is Parse)
                },
                None => (r is Err && r->Err_0 is Parse),
            },
    {
        let key = KeyStore::decode_hex(s)?;
        match vec_to_array(key) {
            Some(a) => Ok(a),
            None => Err(OsdpError::Parse("key")),
        }
    }

    /// Writes a key as 32 lowercase hex digits.
    pub fn key_to_str(key: &[u8; 16]) -> (r: String)
        ensures
            r@ == hex_text(key@).map_values(|b: u8| b as char),
    {
        let mut out = String::new();
        let mut i: usize = 0;
        assert(key@.subrange(0, 0) =~= Seq::<u8>::empty());
        assert(out@ =~= hex_text(key@.subrange(0, 0)).map_values(|b: u8| b as char));
        while i < 16
            invariant
                i <= 16,
                key@.len() == 16,
                out@ == hex_text(key@.subrange(0, i as int)).map_values(|b: u8| b as char),
            decreases 16 - i,
        {
            let b = key[i];
            let hi = b / 16;
            let lo = b % 16;
            let ghost before = out@;
            out.append(hex_digit_str(hi));
            out.append(hex_digit_str(lo));
            let ghost prefix = key@.subrange(0, i as int);
            let ghost next = key@.subrange(0, i + 1);
            assert(next.drop_last() =~= prefix);
            assert(next.last() == b);
            assert(hex_text(next) == hex_text(prefix) + seq![hex_char(b / 16), hex_char(b % 16)]);
            assert(out@ =~= hex_text(next).map_values(|c: u8| c as char));
            i += 1;
        }
        assert(key@.subrange(0, 16) =~= key@);
        out
    }
}

} // verus!
