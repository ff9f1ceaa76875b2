//! Fingerprints and encodings of byte strings.

use vstd::prelude::*;
use crate::text;

verus! {

/// A lower-case hexadecimal digit.
pub open spec fn is_lower_hex(c: char) -> bool {
    text::is_digit(c) || 'a' <= c <= 'f'
}

/// The lower-case hexadecimal BLAKE3 hash of a byte string, as `blake3::hash`
/// followed by `Hash::to_hex` yields it.
pub uninterp spec fn blake3_hex_of(bytes: Seq<u8>) -> Seq<char>;

/// `blake3::hash(..).to_hex()`: the hash is a function of the bytes alone, and
/// its text is 64 lower-case hexadecimal digits. Which digits is not said here.
#[verifier::external_body]
pub(crate) fn blake3_hex(bytes: &[u8]) -> (r: String)
    ensures
        r@ == blake3_hex_of(bytes@),
        r@.len() == 64,
        forall|i: int| 0 <= i < r@.len() ==> is_lower_hex(#[trigger] r@[i]),
{
    blake3::hash(bytes).to_hex().to_string()
}

/// The SHA-256 digest of a byte string, as `sha2::Sha256` computes it.
pub uninterp spec fn sha256_of(bytes: Seq<u8>) -> Seq<u8>;

/// `sha2::Sha256::digest`: 32 bytes that are a function of the input alone.
/// Which bytes is not said here.
#[verifier::external_body]
pub(crate) fn sha256(bytes: &[u8]) -> (r: Vec<u8>)
    ensures
        r@ == sha256_of(bytes@),
        r@.len() == 32,
{
    <sha2::Sha256 as sha2::Digest>::digest(bytes).to_vec()
}

/// `subtle::ConstantTimeEq::ct_eq` on byte slices: true exactly where the two
/// slices have the same length and the same bytes.
#[verifier::external_body]
pub(crate) fn same_bytes(a: &[u8], b: &[u8]) -> (r: bool)
    ensures
        r == (a@ == b@),
{
    bool::from(subtle::ConstantTimeEq::ct_eq(a, b))
}

// ---------------------------------------------------------------------------
// Base 64
// ---------------------------------------------------------------------------

/// The character of a number below 64.
pub open spec fn base64_char(v: int) -> char {
    "ABCDEFGHIJKLMNOPQRSTUVWXYZabcdefghijklmnopqrstuvwxyz0123456789+/"@[v]
}

/// The byte at an index; zero past the end.
pub open spec fn byte_at(bytes: Seq<u8>, k: int) -> int {
    if 0 <= k < bytes.len() {
        bytes[k] as int
    } else {
        0
    }
}

/// The six bits that begin at bit `6 * i`: four times six of every three bytes, the
/// bits past the end being zero.
pub open spec fn six_bits(bytes: Seq<u8>, i: int) -> int {
    let a = byte_at(bytes, 3 * (i / 4));
    let b = byte_at(bytes, 3 * (i / 4) + 1);
    let c = byte_at(bytes, 3 * (i / 4) + 2);
    if i % 4 == 0 {
        a / 4
    } else if i % 4 == 1 {
        a % 4 * 16 + b / 16
    } else if i % 4 == 2 {
        b % 16 * 4 + c / 64
    } else {
        c % 64
    }
}

/// The base 64 text of a byte string over the standard alphabet: one character for
/// every six bits begun, filled up with `=` to a multiple of four.
pub open spec fn base64_of(bytes: Seq<u8>) -> Seq<char> {
    Seq::new(
        (4 * ((bytes.len() + 2) / 3)) as nat,
        |i: int|
            if 3 * i < 4 * bytes.len() {
                base64_char(six_bits(bytes, i))
            } else {
                '='
            },
    )
}

/// The bytes that have the text as their base 64 text; none where no bytes have.
pub open spec fn base64_bytes_of(text: Seq<char>) -> Option<Seq<u8>> {
    if exists|bytes: Seq<u8>| #[trigger] base64_of(bytes) == text {
        Some(choose|bytes: Seq<u8>| #[trigger] base64_of(bytes) == text)
    } else {
        None
    }
}

/// `base64::engine::general_purpose::STANDARD.encode`: the base 64 text over the
/// standard alphabet, with its padding. The engine panics where the text would not
/// fit in memory, so longer inputs are left out.
#[verifier::external_body]
pub(crate) fn base64_text(bytes: &[u8]) -> (r: String)
    requires
        4 * ((bytes@.len() + 2) / 3) <= isize::MAX,
    ensures
        r@ == base64_of(bytes@),
{
    base64::Engine::encode(&base64::engine::general_purpose::STANDARD, bytes)
}

pub open spec fn bytes_view(b: Option<Vec<u8>>) -> Option<Seq<u8>> {
    match b {
        Some(v) => Some(v@),
        None => None,
    }
}

/// `base64::engine::general_purpose::STANDARD.decode`: the bytes whose base 64 text
/// it is. The engine wants the padding that an encoder writes and no bits behind
/// the last byte, so a text that no bytes have is refused.
#[verifier::external_body]
fn decoded(text: &str) -> (r: Option<Vec<u8>>)
    ensures
        match r {
            Some(v) => base64_of(v@) == text@,
            None => forall|bytes: Seq<u8>| #[trigger] base64_of(bytes) != text@,
        },
{
    base64::Engine::decode(&base64::engine::general_purpose::STANDARD, text).ok()
}

/// The bytes that a base 64 text stands for.
pub(crate) fn base64_bytes(text: &str) -> (r: Option<Vec<u8>>)
    ensures
        bytes_view(r) == base64_bytes_of(text@),
{
    let r = decoded(text);
    proof {
        if r is Some {
            law_base64_is_injective((r->0)@, base64_bytes_of(text@)->0);
        }
    }
    r
}

proof fn lemma_base64_chars(v: int, w: int)
    requires
        0 <= v < 64,
        0 <= w < 64,
    ensures
        base64_char(v) == base64_char(w) ==> v == w,
        base64_char(v) != '=',
{
    reveal_strlit("ABCDEFGHIJKLMNOPQRSTUVWXYZabcdefghijklmnopqrstuvwxyz0123456789+/");
    lemma_base64_value(v);
    lemma_base64_value(w);
}

/// The number that a character of the alphabet stands for.
spec fn base64_value(c: char) -> int {
    if 'A' <= c <= 'Z' {
        c as int - 65
    } else if 'a' <= c <= 'z' {
        c as int - 71
    } else if '0' <= c <= '9' {
        c as int + 4
    } else if c == '+' {
        62
    } else if c == '/' {
        63
    } else {
        -1
    }
}

proof fn lemma_base64_value(v: int)
    requires
        0 <= v < 64,
    ensures
        base64_value(base64_char(v)) == v,
{
    reveal_strlit("ABCDEFGHIJKLMNOPQRSTUVWXYZabcdefghijklmnopqrstuvwxyz0123456789+/");
}

proof fn lemma_six_bits(bytes: Seq<u8>, i: int)
    requires
        0 <= i,
    ensures
        0 <= six_bits(bytes, i) < 64,
{
}

proof fn lemma_same_six_bits(a: Seq<u8>, b: Seq<u8>, i: int)
    requires
        base64_of(a) == base64_of(b),
        0 <= i < base64_of(a).len(),
    ensures
        3 * i < 4 * a.len() <==> 3 * i < 4 * b.len(),
        3 * i < 4 * a.len() ==> six_bits(a, i) == six_bits(b, i),
{
    let (x, y) = (base64_of(a), base64_of(b));
    assert(x[i] == if 3 * i < 4 * a.len() { base64_char(six_bits(a, i)) } else { '=' });
    assert(y[i] == if 3 * i < 4 * b.len() { base64_char(six_bits(b, i)) } else { '=' });
    lemma_six_bits(a, i);
    lemma_six_bits(b, i);
    lemma_base64_chars(six_bits(a, i), six_bits(b, i));
    lemma_base64_chars(six_bits(b, i), six_bits(a, i));
}

/// Different byte strings have different base 64 texts.
pub proof fn law_base64_is_injective(a: Seq<u8>, b: Seq<u8>)
    requires
        base64_of(a) == base64_of(b),
    ensures
        a == b,
{
    let k = base64_of(a).len() as int;
    assert(base64_of(b).len() == k);
    if k > 0 {
        lemma_same_six_bits(a, b, k - 1);
        lemma_same_six_bits(a, b, k - 2);
    }
    assert(a.len() == b.len());
    assert forall|j: int| 0 <= j < a.len() implies a[j] == b[j] by {
        let at = 4 * (j / 3) + j % 3;
        assert(at / 4 == j / 3 && (at + 1) / 4 == j / 3);
        lemma_same_six_bits(a, b, at);
        lemma_same_six_bits(a, b, at + 1);
        assert(byte_at(a, j) == a[j] as int && byte_at(b, j) == b[j] as int);
    }
    assert(a =~= b);
}

/// What was written as base 64 is read back.
pub proof fn law_base64_reads_back(bytes: Seq<u8>)
    ensures
        base64_bytes_of(base64_of(bytes)) == Some(bytes),
{
    law_base64_is_injective(bytes, base64_bytes_of(base64_of(bytes))->0);
}

/// The UTF-8 bytes of a text.
pub open spec fn utf8(s: Seq<char>) -> Seq<u8> {
    vstd::utf8::encode_utf8(s)
}

/// `String::from_utf8`: the text that the bytes encode where they are valid
/// UTF-8, and the bytes back where they are not.
#[verifier::external_body]
pub(crate) fn text_from_utf8(bytes: Vec<u8>) -> (r: Result<String, Vec<u8>>)
    ensures
        match r {
            Ok(s) => vstd::utf8::valid_utf8(bytes@) && utf8(s@) == bytes@,
            Err(b) => !vstd::utf8::valid_utf8(bytes@) && b@ == bytes@,
        },
{
    String::from_utf8(bytes).map_err(|e| e.into_bytes())
}

/// Different texts have different UTF-8 bytes.
pub proof fn lemma_utf8_injective(a: Seq<char>, b: Seq<char>)
    ensures
        utf8(a) == utf8(b) ==> a == b,
{
    vstd::utf8::encode_utf8_decode_utf8(a);
    vstd::utf8::encode_utf8_decode_utf8(b);
}

// ---------------------------------------------------------------------------
// Laws
// ---------------------------------------------------------------------------


/// Base 64 by threes: three bytes are four characters of six bits each, from the left,
/// and one or two left over are filled up with equals signs.
pub proof fn law_base64_by_threes(a: u8, b: u8, c: u8)
    ensures
        base64_of(seq![a, b, c]).len() == 4,
        base64_of(seq![a, b, c])[0] == base64_char(a as int / 4),
        base64_of(seq![a, b, c])[1] == base64_char(a as int % 4 * 16 + b as int / 16),
        base64_of(seq![a, b, c])[2] == base64_char(b as int % 16 * 4 + c as int / 64),
        base64_of(seq![a, b, c])[3] == base64_char(c as int % 64),
        base64_of(seq![a, b]) == seq![
            base64_char(a as int / 4),
            base64_char(a as int % 4 * 16 + b as int / 16),
            base64_char(b as int % 16 * 4),
            '=',
        ],
        base64_of(seq![a]) == seq![base64_char(a as int / 4), base64_char(a as int % 4 * 16), '=', '='],
        base64_of(Seq::empty()).len() == 0,
{
    assert(base64_of(seq![a, b]) =~= seq![
        base64_char(a as int / 4),
        base64_char(a as int % 4 * 16 + b as int / 16),
        base64_char(b as int % 16 * 4),
        '=',
    ]);
    assert(base64_of(seq![a]) =~= seq![base64_char(a as int / 4), base64_char(a as int % 4 * 16), '=', '=']);
}

/// The base 64 alphabet is the capital letters, the small ones, the digits, plus and
/// slash.
pub proof fn law_base64_alphabet(v: int)
    requires
        0 <= v < 64,
    ensures
        v < 26 ==> base64_char(v) as int == 'A' as int + v,
        26 <= v < 52 ==> base64_char(v) as int == 'a' as int + (v - 26),
        52 <= v < 62 ==> base64_char(v) as int == '0' as int + (v - 52),
        base64_char(62) == '+' && base64_char(63) == '/',
{
    reveal_strlit("ABCDEFGHIJKLMNOPQRSTUVWXYZabcdefghijklmnopqrstuvwxyz0123456789+/");
}

/// Bytes that are there are seen, and the digits of a digest are lower case.
pub proof fn law_bytes_and_digits(v: Vec<u8>, c: char)
    ensures
        bytes_view(Some(v)) == Some(v@),
        bytes_view(None) is None,
        is_lower_hex(c) <==> '0' <= c <= '9' || 'a' <= c <= 'f',
{
}

/// Four characters spell three bytes: read as digits they give the same number, and
/// none is out of range.
pub proof fn law_base64_spells_every_group(bytes: Seq<u8>, k: int)
    requires
        k >= 0,
    ensures
        byte_at(bytes, 3 * k) * 65536 + byte_at(bytes, 3 * k + 1) * 256 + byte_at(bytes, 3 * k + 2) == six_bits(bytes, 4 * k)
            * 262144 + six_bits(bytes, 4 * k + 1) * 4096 + six_bits(bytes, 4 * k + 2) * 64 + six_bits(bytes, 4 * k + 3),
        forall|j: int| 0 <= j < 4 ==> 0 <= #[trigger] six_bits(bytes, 4 * k + j) < 64,
        k < bytes.len() ==> byte_at(bytes, k) == bytes[k],
        k >= bytes.len() ==> byte_at(bytes, k) == 0,
{
    assert((4 * k) / 4 == k && (4 * k + 1) / 4 == k && (4 * k + 2) / 4 == k && (4 * k + 3) / 4 == k);
    assert((4 * k) % 4 == 0 && (4 * k + 1) % 4 == 1 && (4 * k + 2) % 4 == 2 && (4 * k + 3) % 4 == 3);
    assert(six_bits(bytes, 4 * k + 0) == six_bits(bytes, 4 * k));
    assert forall|j: int| 0 <= j < 4 implies 0 <= #[trigger] six_bits(bytes, 4 * k + j) < 64 by {
        assert(j == 0 || j == 1 || j == 2 || j == 3);
    }
}

/// A text of base 64 has a character for every six bits begun, in order, and is filled
/// up with `=` to a multiple of four. What no bytes have as their text stands for none.
pub proof fn law_base64_texts(bytes: Seq<u8>, i: int, text: Seq<char>)
    ensures
        base64_of(bytes).len() % 4 == 0,
        base64_of(bytes).len() * 3 >= bytes.len() * 4 > base64_of(bytes).len() * 3 - 12,
        0 <= i < base64_of(bytes).len() && 6 * i < 8 * bytes.len() ==> base64_of(bytes)[i] == base64_char(six_bits(bytes, i)),
        0 <= i < base64_of(bytes).len() && 6 * i >= 8 * bytes.len() ==> base64_of(bytes)[i] == '=',
        (forall|b: Seq<u8>| #[trigger] base64_of(b) != text) ==> base64_bytes_of(text) is None,
        base64_bytes_of(text) matches Some(b) ==> base64_of(b) == text,
{
}

} // verus!
