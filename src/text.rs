//! Small helpers to read ASCII text held in bytes.
use vstd::prelude::*;

verus! {

/// Index of the first `x` in `b[from..to]`, or `to`.
pub open spec fn find_byte_spec(b: Seq<u8>, x: u8, from: int, to: int) -> int
    decreases to - from,
{
    if from >= to {
        to
    } else if b[from] == x {
        from
    } else {
        find_byte_spec(b, x, from + 1, to)
    }
}

/// Index of the first `x` in `b[from..to]`, or `to`.
pub fn find_byte(b: &[u8], x: u8, from: usize, to: usize) -> (r: usize)
    requires
        from <= to <= b@.len(),
    ensures
        r == find_byte_spec(b@, x, from as int, to as int),
        from <= r <= to,
{
    let mut i = from;
    while i < to
        invariant
            from <= i <= to <= b@.len(),
            find_byte_spec(b@, x, i as int, to as int) == find_byte_spec(b@, x, from as int, to as int),
        decreases to - i,
    {
        if b[i] == x {
            return i;
        }
        i += 1;
    }
    i
}

/// Whether `b[from..to]` equals `lit`.
pub fn lit_eq(b: &[u8], from: usize, to: usize, lit: &[u8]) -> (r: bool)
    requires
        from <= to <= b@.len(),
    ensures
        r == (b@.subrange(from as int, to as int) == lit@),
{
    if to - from != lit.len() {
        return false;
    }
    let mut i: usize = 0;
    while i < lit.len()
        invariant
            to - from == lit@.len(),
            from <= to <= b@.len(),
            i <= lit@.len(),
            forall|j: int| 0 <= j < i ==> b@[from + j] == lit@[j],
        decreases lit@.len() - i,
    {
        if b[from + i] != lit[i] {
            assert(b@.subrange(from as int, to as int)[i as int] != lit@[i as int]);
            return false;
        }
        i += 1;
    }
    assert(b@.subrange(from as int, to as int) =~= lit@);
    true
}

/// An ASCII decimal digit.
pub open spec fn is_digit(c: u8) -> bool {
    48 <= c <= 57
}

/// Value of a string of decimal digits.
pub open spec fn dec_value(s: Seq<u8>) -> nat
    decreases s.len(),
{
    if s.len() == 0 {
        0
    } else {
        dec_value(s.drop_last()) * 10 + (s.last() - 48) as nat
    }
}

/// The number that `s` writes in decimal, as `u8::from_str` reads it: an
/// optional `+`, then one or more digits, with a value up to 255.
pub open spec fn dec_u8(s: Seq<u8>) -> Option<u8> {
    let d = unsigned_digits(s);
    if d.len() == 0 || !all_digits(d) || dec_value(d) > 255 {
        None
    } else {
        Some(dec_value(d) as u8)
    }
}

/// `s` without its leading `+`, if it has one.
pub open spec fn unsigned_digits(s: Seq<u8>) -> Seq<u8> {
    if s.len() > 0 && s[0] == 43u8 {
        s.subrange(1, s.len() as int)
    } else {
        s
    }
}

/// Whether every byte of `d` is a decimal digit.
pub open spec fn all_digits(d: Seq<u8>) -> bool {
    forall|i: int| 0 <= i < d.len() ==> is_digit(#[trigger] d[i])
}

/// A longer string of digits is worth at least as much as its prefix.
proof fn lemma_dec_value_prefix(s: Seq<u8>, k: int)
    requires
        0 <= k <= s.len(),
        forall|i: int| 0 <= i < s.len() ==> is_digit(#[trigger] s[i]),
    ensures
        dec_value(s) >= dec_value(s.subrange(0, k)),
    decreases s.len(),
{
    if k < s.len() {
        let t = s.drop_last();
        assert forall|i: int| 0 <= i < t.len() implies is_digit(#[trigger] t[i]) by {
            assert(t[i] == s[i]);
        }
        lemma_dec_value_prefix(t, k);
        assert(t.subrange(0, k) =~= s.subrange(0, k));
    } else {
        assert(s.subrange(0, k) =~= s);
    }
}

/// Reads the decimal number in `b[from..to]` (see `dec_u8`).
pub fn parse_dec_u8(b: &[u8], from: usize, to: usize) -> (r: Option<u8>)
    requires
        from <= to <= b@.len(),
    ensures
        r == dec_u8(b@.subrange(from as int, to as int)),
{
    let ghost s = b@.subrange(from as int, to as int);
    let start = if from < to && b[from] == 43u8 {
        from + 1
    } else {
        from
    };
    let ghost d = b@.subrange(start as int, to as int);
    assert(d =~= unsigned_digits(s));
    if start == to {
        return None;
    }
    let mut acc: u16 = 0;
    let mut i = start;
    assert(d.subrange(0, 0) =~= Seq::<u8>::empty());
    while i < to
        invariant
            from <= start <= i <= to <= b@.len(),
            d == b@.subrange(start as int, to as int),
            s == b@.subrange(from as int, to as int),
            d == unsigned_digits(s),
            acc as nat == dec_value(d.subrange(0, i - start)),
            acc <= 255,
            forall|j: int| 0 <= j < i - start ==> is_digit(#[trigger] d[j]),
        decreases to - i,
    {
        let c = b[i];
        if c < 48 || c > 57 {
            assert(!is_digit(d[i - start]));
            return None;
        }
        let ghost p = d.subrange(0, i - start + 1);
        assert(p.drop_last() =~= d.subrange(0, i - start));
        let next: u16 = acc * 10 + (c - 48) as u16;
        assert(p.last() == c);
        assert(dec_value(p) == next as nat);
        if next > 255 {
            proof {
                if all_digits(d) {
                    lemma_dec_value_prefix(d, i - start + 1);
                }
            }
            return None;
        }
        acc = next;
        i += 1;
    }
    assert(d.subrange(0, to - start) =~= d);
    Some(acc as u8)
}

} // verus!
