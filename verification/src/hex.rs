//! Lowercase hexadecimal encoding of byte sequences.
//!
//! The canonical textual form of a content identifier is the lowercase hex
//! encoding of its digest bytes; that form names the object on disk and is
//! the token exchanged in gossip messages. Both directions are implemented
//! here, with a round-trip law.

use vstd::prelude::*;

verus! {

/// ASCII code of the lowercase hexadecimal digit for a value below 16.
pub open spec fn hex_digit(n: u8) -> u8
    recommends
        n < 16,
{
    if n < 10 {
        (48 + n) as u8
    } else {
        (87 + n) as u8
    }
}

/// Lowercase hexadecimal encoding of a byte sequence, as ASCII bytes:
/// two digits per byte, high nibble first.
pub open spec fn hex_of(data: Seq<u8>) -> Seq<u8>
    decreases data.len(),
{
    if data.len() == 0 {
        Seq::empty()
    } else {
        seq![hex_digit(data.first() / 16), hex_digit(data.first() % 16)] + hex_of(
            data.drop_first(),
        )
    }
}

/// Whether an ASCII byte is a lowercase hexadecimal digit.
pub open spec fn is_hex_digit(c: u8) -> bool {
    (48 <= c && c <= 57) || (97 <= c && c <= 102)
}

/// Value of a lowercase hexadecimal digit given as its ASCII code.
pub open spec fn hex_val(c: u8) -> u8
    recommends
        is_hex_digit(c),
{
    if c <= 57 {
        (c - 48) as u8
    } else {
        (c - 87) as u8
    }
}

/// Whether every byte of a sequence is a lowercase hexadecimal digit.
pub open spec fn is_hex_seq(s: Seq<u8>) -> bool {
    forall|i: int| 0 <= i < s.len() ==> is_hex_digit(#[trigger] s[i])
}

/// The bytes denoted by a sequence of hexadecimal digits, two digits per byte.
pub open spec fn hex_parse(s: Seq<u8>) -> Seq<u8>
    recommends
        s.len() % 2 == 0,
        is_hex_seq(s),
    decreases s.len(),
{
    if s.len() < 2 {
        Seq::empty()
    } else {
        seq![(hex_val(s[0]) * 16 + hex_val(s[1])) as u8] + hex_parse(s.skip(2))
    }
}

/// Encodes bytes as their lowercase hexadecimal ASCII form.
pub fn hex_encode(data: &[u8]) -> (r: Vec<u8>)
    ensures
        r@ == hex_of(data@),
{
    let mut r: Vec<u8> = Vec::new();
    let n: usize = data.len();
    assert(data@.skip(0) =~= data@);
    for i in 0..n
        invariant
            n == data@.len(),
            r@.len() == 2 * i,
            hex_of(data@) =~= r@ + hex_of(data@.skip(i as int)),
    {
        let b = data[i];
        let hi = b / 16;
        let lo = b % 16;
        r.push(if hi < 10 { 48 + hi } else { 87 + hi });
        r.push(if lo < 10 { 48 + lo } else { 87 + lo });
        proof {
            assert(data@.skip(i as int).first() == data@[i as int]);
            assert(data@.skip(i as int).drop_first() =~= data@.skip(i as int + 1));
        }
    }
    assert(data@.skip(n as int) =~= Seq::<u8>::empty());
    assert(r@ =~= hex_of(data@));
    r
}

/// Decodes a lowercase hexadecimal ASCII form back to bytes. Returns `None`
/// exactly when the input has odd length or holds a byte that is not a
/// lowercase hexadecimal digit.
pub fn hex_decode(s: &[u8]) -> (r: Option<Vec<u8>>)
    ensures
        match r {
            Some(v) => s@.len() % 2 == 0 && is_hex_seq(s@) && v@ == hex_parse(s@),
            None => !(s@.len() % 2 == 0 && is_hex_seq(s@)),
        },
{
    let n: usize = s.len();
    if n % 2 != 0 {
        return None;
    }
    let mut v: Vec<u8> = Vec::new();
    let mut i: usize = 0;
    assert(s@.skip(0) =~= s@);
    while i < n
        invariant
            n == s@.len(),
            n % 2 == 0,
            i % 2 == 0,
            i <= n,
            v@.len() == i / 2,
            forall|j: int| 0 <= j < i ==> is_hex_digit(#[trigger] s@[j]),
            hex_parse(s@) =~= v@ + hex_parse(s@.skip(i as int)),
        decreases n - i,
    {
        let c0 = s[i];
        let c1 = s[i + 1];
        let h0 = if 48 <= c0 && c0 <= 57 {
            c0 - 48
        } else if 97 <= c0 && c0 <= 102 {
            c0 - 87
        } else {
            return None;
        };
        let h1 = if 48 <= c1 && c1 <= 57 {
            c1 - 48
        } else if 97 <= c1 && c1 <= 102 {
            c1 - 87
        } else {
            return None;
        };
        v.push(h0 * 16 + h1);
        proof {
            assert(s@.skip(i as int)[0] == s@[i as int]);
            assert(s@.skip(i as int)[1] == s@[i as int + 1]);
            assert(s@.skip(i as int).skip(2) =~= s@.skip(i as int + 2));
        }
        i = i + 2;
    }
    assert(s@.skip(n as int) =~= Seq::<u8>::empty());
    assert(v@ =~= hex_parse(s@));
    Some(v)
}

/// Hexadecimal encoding is lossless: the encoding of any byte sequence is a
/// well-formed even-length digit string, and parsing it yields the original
/// bytes.
pub proof fn lemma_hex_round_trip(data: Seq<u8>)
    ensures
        hex_of(data).len() == 2 * data.len(),
        is_hex_seq(hex_of(data)),
        hex_parse(hex_of(data)) == data,
    decreases data.len(),
{
    if data.len() == 0 {
        assert(hex_parse(hex_of(data)) =~= data);
    } else {
        let b = data.first();
        let rest = data.drop_first();
        lemma_hex_round_trip(rest);
        let enc = hex_of(data);
        assert(enc[0] == hex_digit(b / 16));
        assert(enc[1] == hex_digit(b % 16));
        assert(enc.skip(2) =~= hex_of(rest));
        assert(hex_val(hex_digit(b / 16)) == b / 16);
        assert(hex_val(hex_digit(b % 16)) == b % 16);
        assert((b / 16) * 16 + (b % 16) == b) by (nonlinear_arith);
        assert(is_hex_seq(enc)) by {
            assert(forall|i: int|
                2 <= i < enc.len() ==> enc[i] == #[trigger] hex_of(rest)[i - 2]);
        }
        assert(hex_parse(enc) =~= data);
    }
}

/// Compares two byte slices for equality of their contents.
pub fn bytes_eq(a: &[u8], b: &[u8]) -> (r: bool)
    ensures
        r == (a@ == b@),
{
    if a.len() != b.len() {
        assert(a@ != b@);
        return false;
    }
    let n: usize = a.len();
    for i in 0..n
        invariant
            n == a@.len(),
            n == b@.len(),
            forall|j: int| 0 <= j < i ==> a@[j] == b@[j],
    {
        if a[i] != b[i] {
            return false;
        }
    }
    assert(a@ =~= b@);
    true
}

/// Copies a byte slice into a fresh vector.
pub fn copy_bytes(src: &[u8]) -> (r: Vec<u8>)
    ensures
        r@ == src@,
{
    let mut r: Vec<u8> = Vec::new();
    let n: usize = src.len();
    for i in 0..n
        invariant
            n == src@.len(),
            r@ =~= src@.take(i as int),
    {
        r.push(src[i]);
        assert(r@ =~= src@.take(i as int + 1));
    }
    assert(src@.take(n as int) =~= src@);
    r
}

} // verus!
