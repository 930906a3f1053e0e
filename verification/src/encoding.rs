//! Hexadecimal and URL-safe base64 codecs, through the `hex` and `base64`
//! crates.
use base64::Engine;
use vstd::prelude::*;

verus! {

/// The value of a hexadecimal digit, or -1 for any other character.
pub open spec fn hex_digit_value(c: char) -> int {
    if '0' <= c && c <= '9' {
        c as int - '0' as int
    } else if 'a' <= c && c <= 'f' {
        c as int - 'a' as int + 10
    } else if 'A' <= c && c <= 'F' {
        c as int - 'A' as int + 10
    } else {
        -1
    }
}

/// What `hex::decode` yields for a string: the bytes when the string has
/// an even number of characters and all are hexadecimal digits (either
/// case), nothing otherwise.
pub open spec fn hex_decoded(s: Seq<char>) -> Option<Seq<u8>> {
    if s.len() % 2 == 0 && forall|i: int| 0 <= i < s.len() ==> hex_digit_value(#[trigger] s[i]) >= 0 {
        Some(
            Seq::new(
                s.len() / 2,
                |i: int| (16 * hex_digit_value(s[2 * i]) + hex_digit_value(s[2 * i + 1])) as u8,
            ),
        )
    } else {
        None
    }
}

/// What `URL_SAFE_NO_PAD.decode` of the `base64` crate yields for a string.
pub uninterp spec fn base64url_decoded(s: Seq<char>) -> Option<Seq<u8>>;

/// What `URL_SAFE_NO_PAD.encode` of the `base64` crate yields for bytes.
pub uninterp spec fn base64url_encoded(b: Seq<u8>) -> Seq<char>;

/// Calls `hex::decode`. The source accepts an even number of hexadecimal
/// digits, upper or lower case, and maps each pair to one byte, high digit
/// first; anything else is an error.
#[verifier::external_body]
pub(crate) fn hex_decode(s: &str) -> (r: Option<Vec<u8>>)
    ensures
        r matches Some(v) ==> hex_decoded(s@) == Some(v@),
        r is None ==> hex_decoded(s@) is None,
{
    hex::decode(s).ok()
}

/// Calls `URL_SAFE_NO_PAD.decode` of the `base64` crate; `None` on a
/// decode error.
#[verifier::external_body]
pub(crate) fn base64url_decode(s: &str) -> (r: Option<Vec<u8>>)
    ensures
        r matches Some(v) ==> base64url_decoded(s@) == Some(v@),
        r is None ==> base64url_decoded(s@) is None,
{
    base64::engine::general_purpose::URL_SAFE_NO_PAD.decode(s).ok()
}

/// Calls `URL_SAFE_NO_PAD.encode` of the `base64` crate. Its alphabet is
/// `A-Z a-z 0-9 - _` without padding, so no `.` occurs in the output, and
/// decoding the output with the same engine gives the input back.
#[verifier::external_body]
pub(crate) fn base64url_encode(b: &[u8]) -> (r: String)
    ensures
        r@ == base64url_encoded(b@),
        forall|i: int| 0 <= i < r@.len() ==> r@[i] != '.',
        base64url_decoded(r@) == Some(b@),
{
    base64::engine::general_purpose::URL_SAFE_NO_PAD.encode(b)
}

/// The lowercase hexadecimal digit for a value below 16.
pub open spec fn hex_digit_char(d: int) -> char {
    if d < 10 {
        (48 + d) as char
    } else {
        (87 + d) as char
    }
}

/// Bytes written as lowercase hexadecimal, two digits per byte, high digit
/// first.
pub open spec fn hex_text(b: Seq<u8>) -> Seq<char> {
    Seq::new(
        2 * b.len(),
        |i: int|
            if i % 2 == 0 {
                hex_digit_char(b[i / 2] as int / 16)
            } else {
                hex_digit_char(b[i / 2] as int % 16)
            },
    )
}

/// Calls `hex::encode`, which writes each byte as two lowercase
/// hexadecimal digits, high digit first.
#[verifier::external_body]
pub(crate) fn hex_encode(b: &[u8]) -> (r: String)
    ensures
        r@ == hex_text(b@),
{
    hex::encode(b)
}

/// Bytes written as lowercase hexadecimal; reading the text back with
/// `hex::decode` gives the bytes.
pub fn to_hex(b: &[u8]) -> (r: String)
    ensures
        r@ == hex_text(b@),
        hex_decoded(r@) == Some(b@),
{
    proof {
        law_hex_round_trip(b@);
    }
    hex_encode(b)
}

/// Decoding what `hex_text` writes gives the bytes back.
pub proof fn law_hex_round_trip(b: Seq<u8>)
    ensures
        hex_decoded(hex_text(b)) == Some(b),
{
    let s = hex_text(b);
    assert forall|i: int| 0 <= i < s.len() implies hex_digit_value(#[trigger] s[i]) >= 0 by {
        let d: int = if i % 2 == 0 { b[i / 2] as int / 16 } else { b[i / 2] as int % 16 };
        assert(0 <= d < 16);
        assert(s[i] == hex_digit_char(d));
        assert(hex_digit_value(hex_digit_char(d)) == d);
    }
    let decoded = Seq::new(
        s.len() / 2,
        |i: int| (16 * hex_digit_value(s[2 * i]) + hex_digit_value(s[2 * i + 1])) as u8,
    );
    assert forall|i: int| 0 <= i < b.len() implies #[trigger] decoded[i] == b[i] by {
        let hi: int = b[i] as int / 16;
        let lo: int = b[i] as int % 16;
        assert((2 * i) / 2 == i);
        assert((2 * i + 1) / 2 == i);
        assert(s[2 * i] == hex_digit_char(hi));
        assert(s[2 * i + 1] == hex_digit_char(lo));
        assert(hex_digit_value(hex_digit_char(hi)) == hi);
        assert(hex_digit_value(hex_digit_char(lo)) == lo);
        assert(16 * hi + lo == b[i] as int);
    }
    assert(decoded =~= b);
}

/// What `STANDARD.decode` of the `base64` crate yields for a string.
pub uninterp spec fn base64_decoded(s: Seq<char>) -> Option<Seq<u8>>;

/// What `STANDARD.encode` of the `base64` crate yields for bytes.
pub uninterp spec fn base64_encoded(b: Seq<u8>) -> Seq<char>;

/// Calls `STANDARD.decode` of the `base64` crate (padded standard
/// alphabet); on a decode error, the error's text, which is not stated.
#[verifier::external_body]
pub(crate) fn base64_decode(s: &str) -> (r: Result<Vec<u8>, String>)
    ensures
        r matches Ok(v) ==> base64_decoded(s@) == Some(v@),
        r is Err ==> base64_decoded(s@) is None,
{
    base64::engine::general_purpose::STANDARD.decode(s).map_err(|e| e.to_string())
}

/// Calls `STANDARD.encode` of the `base64` crate; decoding the output with
/// the same engine gives the input back.
#[verifier::external_body]
pub(crate) fn base64_encode(b: &[u8]) -> (r: String)
    ensures
        r@ == base64_encoded(b@),
        base64_decoded(r@) == Some(b@),
{
    base64::engine::general_purpose::STANDARD.encode(b)
}

/// The eight big-endian bytes of `n`.
pub open spec fn be_bytes(n: u64) -> Seq<u8> {
    Seq::new(8, |i: int| ((n as int / pow256(7 - i)) % 256) as u8)
}

/// 256 to the power `k`.
pub open spec fn pow256(k: int) -> int
    decreases k,
{
    if k <= 0 {
        1
    } else {
        256 * pow256(k - 1)
    }
}

/// Powers of 256 are positive.
proof fn lemma_pow256_positive(k: int)
    ensures
        pow256(k) >= 1,
    decreases k,
{
    if k > 0 {
        lemma_pow256_positive(k - 1);
    }
}

/// The big-endian bytes of `n`, as `u64::to_be_bytes` gives them.
pub fn u64_to_be_bytes(n: u64) -> (r: Vec<u8>)
    ensures
        r@ == be_bytes(n),
{
    let mut out: Vec<u8> = Vec::new();
    let mut divisor: u64 = 72057594037927936;
    let mut i: usize = 0;
    proof {
        reveal_with_fuel(pow256, 8);
    }
    assert(pow256(7) == 72057594037927936);
    while i < 8
        invariant
            i <= 8,
            out@.len() == i,
            divisor as int == pow256(7 - i),
            forall|k: int| 0 <= k < i ==> out@[k] == ((n as int / pow256(7 - k)) % 256) as u8,
        decreases 8 - i,
    {
        proof {
            lemma_pow256_positive(7 - i);
        }
        let b = ((n / divisor) % 256) as u8;
        out.push(b);
        if i < 7 {
            assert(pow256(7 - i) == 256 * pow256(7 - i - 1));
            divisor = divisor / 256;
        }
        i = i + 1;
    }
    assert(out@ =~= be_bytes(n));
    out
}

/// Appends `b` to `v`.
pub fn append_bytes(v: &mut Vec<u8>, b: &[u8])
    ensures
        final(v)@ == old(v)@ + b@,
{
    let mut i: usize = 0;
    while i < b.len()
        invariant
            i <= b@.len(),
            v@ == old(v)@ + b@.subrange(0, i as int),
        decreases b@.len() - i,
    {
        v.push(b[i]);
        assert(b@.subrange(0, i + 1) =~= b@.subrange(0, i as int).push(b@[i as int]));
        i = i + 1;
    }
    assert(b@.subrange(0, i as int) =~= b@);
}

/// A copy of a byte vector.
pub fn copy_bytes(b: &Vec<u8>) -> (r: Vec<u8>)
    ensures
        r@ == b@,
{
    let mut out: Vec<u8> = Vec::new();
    append_bytes(&mut out, b.as_slice());
    assert(out@ =~= b@);
    out
}

} // verus!
