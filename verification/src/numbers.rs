//! Decimal text: writing integers out and reading them back.

use vstd::prelude::*;
use crate::text;
use crate::text::{ascii_digit, chars_of};

verus! {

/// The character of a decimal digit.
pub open spec fn digit_char(d: nat) -> char {
    (48 + d) as char
}

/// The number a decimal digit stands for.
pub open spec fn digit_value(c: char) -> nat {
    (c as int - 48) as nat
}

/// `n` in decimal, without leading zeros.
pub open spec fn decimal(n: nat) -> Seq<char>
    decreases n,
{
    if n < 10 {
        seq![digit_char(n)]
    } else {
        decimal(n / 10).push(digit_char(n % 10))
    }
}

/// `count` zeros.
pub open spec fn zeros(count: nat) -> Seq<char> {
    Seq::new(count, |i: int| '0')
}

/// `n` in decimal, with zeros before it up to `width` characters.
pub open spec fn padded(n: nat, width: nat) -> Seq<char> {
    if decimal(n).len() < width {
        zeros((width - decimal(n).len()) as nat) + decimal(n)
    } else {
        decimal(n)
    }
}

pub open spec fn all_digits(s: Seq<char>) -> bool {
    forall|i: int| 0 <= i < s.len() ==> text::is_digit(#[trigger] s[i])
}

/// The number that a run of digits stands for.
pub open spec fn digits_value(s: Seq<char>) -> nat
    decreases s.len(),
{
    if s.len() == 0 {
        0
    } else {
        digits_value(s.drop_last()) * 10 + digit_value(s.last())
    }
}

/// A number is what its digits stand for.
pub proof fn lemma_decimal_value(n: nat)
    ensures
        digits_value(decimal(n)) == n,
    decreases n,
{
    if n < 10 {
        assert(decimal(n).drop_last() =~= Seq::<char>::empty());
        assert(digits_value(Seq::<char>::empty()) == 0);
        assert(decimal(n).last() == digit_char(n));
    } else {
        lemma_decimal_value(n / 10);
        assert(decimal(n).drop_last() =~= decimal(n / 10));
        assert(decimal(n).last() == digit_char(n % 10));
    }
}

/// A decimal is written with digits alone.
pub proof fn lemma_decimal_digits(n: nat)
    ensures
        decimal(n).len() > 0,
        all_digits(decimal(n)),
    decreases n,
{
    if n >= 10 {
        lemma_decimal_digits(n / 10);
    }
}

fn digit_of(d: u64) -> (c: char)
    requires
        d < 10,
    ensures
        c == digit_char(d as nat),
{
    (48u8 + d as u8) as char
}

/// Appends `n` in decimal.
pub fn push_decimal(out: &mut String, n: u64)
    ensures
        final(out)@ == old(out)@ + decimal(n as nat),
    decreases n,
{
    if n < 10 {
        out.push(digit_of(n));
        assert(out@ =~= old(out)@ + decimal(n as nat));
    } else {
        push_decimal(out, n / 10);
        out.push(digit_of(n % 10));
        assert(out@ =~= old(out)@ + decimal(n as nat));
    }
}

/// `n` in decimal.
pub fn decimal_text(n: u64) -> (r: String)
    ensures
        r@ == decimal(n as nat),
{
    let mut out: String = String::new();
    push_decimal(&mut out, n);
    assert(out@ =~= decimal(n as nat));
    out
}

/// Appends `n` in decimal, with zeros before it up to `width` characters.
pub fn push_padded(out: &mut String, n: u64, width: usize)
    ensures
        final(out)@ == old(out)@ + padded(n as nat, width as nat),
{
    let digits = chars_of(decimal_text(n).as_str());
    let ghost start = out@;
    let mut have: usize = digits.len();
    while have < width
        invariant
            digits@ == decimal(n as nat),
            digits@.len() <= have,
            have <= width || have == digits@.len(),
            out@ =~= start + zeros((have - digits@.len()) as nat),
        decreases width - have,
    {
        out.push('0');
        have += 1;
    }
    push_decimal(out, n);
    assert(out@ =~= start + padded(n as nat, width as nat));
}

// ---------------------------------------------------------------------------
// Reading
// ---------------------------------------------------------------------------

/// What an unsigned decimal reads as: digits, with at most one `+` before them.
pub open spec fn unsigned_value(s: Seq<char>) -> Option<nat> {
    let body = if s.len() > 0 && s[0] == '+' {
        s.skip(1)
    } else {
        s
    };
    if body.len() > 0 && all_digits(body) {
        Some(digits_value(body))
    } else {
        None
    }
}

/// What a signed decimal reads as: digits, with at most one sign before them.
pub open spec fn signed_value(s: Seq<char>) -> Option<int> {
    let signed = s.len() > 0 && (s[0] == '+' || s[0] == '-');
    let body = if signed {
        s.skip(1)
    } else {
        s
    };
    if body.len() > 0 && all_digits(body) {
        if signed && s[0] == '-' {
            Some(-(digits_value(body) as int))
        } else {
            Some(digits_value(body) as int)
        }
    } else {
        None
    }
}

proof fn lemma_prefix_value(s: Seq<char>, k: int)
    requires
        0 <= k <= s.len(),
        all_digits(s),
    ensures
        digits_value(s.take(k)) <= digits_value(s),
    decreases s.len() - k,
{
    if k < s.len() {
        lemma_prefix_value(s, k + 1);
        assert(s.take(k + 1).drop_last() =~= s.take(k));
    } else {
        assert(s.take(k) =~= s);
    }
}

/// Reads the digits behind `from`.
fn read_digits(cs: &Vec<char>, from: usize) -> (r: Option<u64>)
    requires
        from <= cs@.len(),
    ensures
        match r {
            Some(v) => {
                &&& from < cs@.len()
                &&& all_digits(cs@.skip(from as int))
                &&& digits_value(cs@.skip(from as int)) == v
            },
            None => {
                let body = cs@.skip(from as int);
                body.len() == 0 || !all_digits(body) || digits_value(body) > u64::MAX
            },
        },
{
    let ghost body = cs@.skip(from as int);
    if from == cs.len() {
        return None;
    }
    let mut i: usize = from;
    while i < cs.len()
        invariant
            from <= i <= cs@.len(),
            body == cs@.skip(from as int),
            forall|k: int| 0 <= k < i - from ==> text::is_digit(#[trigger] body[k]),
        decreases cs@.len() - i,
    {
        if !ascii_digit(cs[i]) {
            assert(body[i - from] == cs@[i as int]);
            return None;
        }
        i += 1;
    }
    let mut value: u64 = 0;
    let mut j: usize = from;
    assert(body.take(0) =~= Seq::<char>::empty());
    while j < cs.len()
        invariant
            from <= j <= cs@.len(),
            body == cs@.skip(from as int),
            all_digits(body),
            digits_value(body.take(j - from)) == value,
        decreases cs@.len() - j,
    {
        let c = cs[j];
        assert(body[j - from] == c);
        let d: u64 = c as u64 - 48;
        let ghost next = body.take(j - from + 1);
        proof {
            assert(next.drop_last() =~= body.take(j - from));
            assert(digits_value(next) == value * 10 + d);
            lemma_prefix_value(body, j - from + 1);
        }
        if value > (u64::MAX - d) / 10 {
            return None;
        }
        value = value * 10 + d;
        j += 1;
    }
    assert(body.take(cs@.len() - from) =~= body);
    Some(value)
}

/// Reads an unsigned 64-bit decimal.
pub fn parse_u64(s: &str) -> (r: Option<u64>)
    ensures
        r == (match unsigned_value(s@) {
            Some(v) => if v <= u64::MAX {
                Some(v as u64)
            } else {
                None
            },
            None => None,
        }),
{
    let cs = chars_of(s);
    if cs.len() > 0 && cs[0] == '+' {
        read_digits(&cs, 1)
    } else {
        assert(cs@.skip(0) =~= cs@);
        read_digits(&cs, 0)
    }
}

/// Reads a signed 64-bit decimal.
pub fn parse_i64(s: &str) -> (r: Option<i64>)
    ensures
        r == (match signed_value(s@) {
            Some(v) => if i64::MIN <= v <= i64::MAX {
                Some(v as i64)
            } else {
                None
            },
            None => None,
        }),
{
    let cs = chars_of(s);
    let negative: bool = cs.len() > 0 && cs[0] == '-';
    let signed: bool = negative || (cs.len() > 0 && cs[0] == '+');
    let from: usize = if signed { 1 } else { 0 };
    assert(cs@.skip(0) =~= cs@);
    match read_digits(&cs, from) {
        None => None,
        Some(v) => {
            if negative {
                if v <= 0x8000_0000_0000_0000 {
                    Some((0 - v as i128) as i64)
                } else {
                    None
                }
            } else if v <= 0x7fff_ffff_ffff_ffff {
                Some(v as i64)
            } else {
                None
            }
        },
    }
}

// ---------------------------------------------------------------------------
// Laws
// ---------------------------------------------------------------------------


/// Digits are read from the left, each ten times less than the one before.
pub proof fn law_digits(s: Seq<char>, c: char)
    requires
        '0' <= c <= '9',
    ensures
        digits_value(s.push(c)) == 10 * digits_value(s) + (c as int - '0' as int),
        digits_value(Seq::empty()) == 0,
{
    assert(s.push(c).drop_last() =~= s);
}

/// What is written in decimal is digits only, reads as the number, and begins with a
/// zero only where it is zero.
pub proof fn law_decimals_read_back(n: nat)
    ensures
        digits_value(decimal(n)) == n,
        all_digits(decimal(n)),
        decimal(n).len() > 0,
        n > 0 ==> decimal(n)[0] != '0',
        n == 0 ==> decimal(n) == seq!['0'],
        forall|i: int| 0 <= i < decimal(n).len() ==> '0' <= #[trigger] decimal(n)[i] <= '9',
    decreases n,
{
    lemma_decimal_value(n);
    lemma_decimal_digits(n);
    if n >= 10 {
        law_decimals_read_back(n / 10);
    }
}

/// Padding puts zeros before a number up to the width, and cuts nothing off.
pub proof fn law_padding(n: nat, width: nat)
    ensures
        decimal(n).len() >= width ==> padded(n, width) == decimal(n),
        decimal(n).len() < width ==> padded(n, width).len() == width,
        padded(n, width).skip(padded(n, width).len() - decimal(n).len()) == decimal(n),
        forall|i: int| 0 <= i < padded(n, width).len() - decimal(n).len() ==> #[trigger] padded(n, width)[i] == '0',
{
    assert(padded(n, width).skip(padded(n, width).len() - decimal(n).len()) =~= decimal(n));
}

/// Digits read as the number they spell, with one plus sign before them or none;
/// with a minus sign they read as its opposite where signs are read, and as nothing
/// where they are not. Nothing reads as a number without a digit.
pub proof fn law_reading_numbers(digits: Seq<char>)
    requires
        forall|i: int| 0 <= i < digits.len() ==> '0' <= #[trigger] digits[i] <= '9',
        digits.len() > 0,
    ensures
        unsigned_value(digits) == Some(digits_value(digits)),
        unsigned_value(seq!['+'] + digits) == Some(digits_value(digits)),
        unsigned_value(seq!['-'] + digits) is None,
        signed_value(digits) == Some(digits_value(digits) as int),
        signed_value(seq!['+'] + digits) == Some(digits_value(digits) as int),
        signed_value(seq!['-'] + digits) == Some(-(digits_value(digits) as int)),
        unsigned_value(Seq::empty()) is None,
        signed_value(Seq::empty()) is None,
{
    assert('0' <= digits[0] <= '9');
    assert((seq!['+'] + digits).skip(1) =~= digits);
    assert((seq!['-'] + digits).skip(1) =~= digits);
    let m = seq!['-'] + digits;
    assert(m[0] == '-');
    assert(!all_digits(m)) by {
        assert(!text::is_digit(m[0]));
    }
}

/// A text with anything but digits behind its sign reads as no number.
pub proof fn law_other_texts_are_no_numbers(s: Seq<char>, i: int)
    requires
        0 < i < s.len(),
        !('0' <= s[i] <= '9'),
    ensures
        unsigned_value(s) is None,
        signed_value(s) is None,
{
    assert(s.skip(1)[i - 1] == s[i]);
    assert(!text::is_digit(s[i]));
}

} // verus!
