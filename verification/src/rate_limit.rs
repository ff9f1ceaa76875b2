//! The ingress rate limit: whose bucket a request counts against, and what the
//! clock says. The level of a bucket is a real number and is kept by the host.

use vstd::prelude::*;
use crate::digest;
use crate::digest::blake3_hex;
use crate::paths;
use crate::paths::join;
use crate::text;
use crate::text::{ascii_alphanumeric, chars_of, concat};

verus! {

/// What gives the time.
pub trait Clock {
    /// The milliseconds since the Unix epoch.
    fn now_ms(&self) -> i64;
}

/// The clock of the system.
#[derive(Clone, Copy, Debug)]
pub struct SystemClock;

impl Default for SystemClock {
    fn default() -> (r: Self) {
        SystemClock
    }
}

/// `std::time::SystemTime`, carried as it is.
#[verifier::external_type_specification]
#[verifier::external_body]
pub struct ExSystemTime(std::time::SystemTime);

/// `SystemTime::now`: a point in time of which nothing is promised.
#[verifier::external_body]
fn system_now() -> std::time::SystemTime {
    std::time::SystemTime::now()
}

/// The milliseconds from the Unix epoch to a point in time, as
/// `SystemTime::duration_since` tells them; none before the epoch.
pub uninterp spec fn epoch_millis_of(at: std::time::SystemTime) -> Option<u128>;

/// `SystemTime::duration_since` the Unix epoch, its `Duration` as a number of
/// milliseconds: a function of the point in time. Which number belongs to which
/// point is not said here.
#[verifier::external_body]
fn epoch_millis(at: &std::time::SystemTime) -> (r: Option<u128>)
    ensures
        r == epoch_millis_of(*at),
{
    at.duration_since(std::time::UNIX_EPOCH).ok().map(|d| d.as_millis())
}

/// A millisecond count as far as it fits; zero where there is none.
pub open spec fn clamped(raw: Option<u128>) -> int {
    match raw {
        Some(ms) => if ms <= i64::MAX {
            ms as int
        } else {
            i64::MAX as int
        },
        None => 0,
    }
}

/// What the clock says, as far as it fits: the epoch where it stands before it.
pub fn clamp_millis(raw: Option<u128>) -> (r: i64)
    ensures
        r == clamped(raw),
{
    match raw {
        Some(ms) => if ms <= i64::MAX as u128 {
            ms as i64
        } else {
            i64::MAX
        },
        None => 0,
    }
}

impl Clock for SystemClock {
    fn now_ms(&self) -> (r: i64)
        ensures
            r >= 0,
            exists|at: std::time::SystemTime| r == clamped(#[trigger] epoch_millis_of(at)),
    {
        let at = system_now();
        clamp_millis(epoch_millis(&at))
    }
}

/// Whether a request was let in.
#[derive(Clone, Copy, Debug, PartialEq, Eq, Structural)]
pub enum RateOutcome {
    Admitted,
    /// The bucket would overflow; try again after so many milliseconds.
    Rejected { retry_ms: i64 },
}

/// The milliseconds since a bucket was last written, for the leak: a clock that
/// went back leaks nothing.
pub fn elapsed_ms(now_ms: i64, last_updated_ms: i64) -> (r: i64)
    ensures
        r == if now_ms - last_updated_ms < 0 {
            0
        } else if now_ms - last_updated_ms > i64::MAX {
            i64::MAX as int
        } else {
            now_ms - last_updated_ms
        },
{
    if now_ms < last_updated_ms {
        return 0;
    }
    match now_ms.checked_sub(last_updated_ms) {
        Some(d) => d,
        None => i64::MAX,
    }
}

pub open spec fn plain(c: char) -> char {
    if text::is_alphanumeric(c) || c == '-' || c == '_' {
        c
    } else {
        '_'
    }
}

/// A text with every character but letters, digits, `-` and `_` replaced.
pub open spec fn plain_text(s: Seq<char>) -> Seq<char> {
    Seq::new(s.len(), |i: int| plain(s[i]))
}

/// A text that can stand as a file name.
pub fn filename_safe(s: &str) -> (r: String)
    ensures
        r@ == plain_text(s@),
{
    let cs = chars_of(s);
    let mut out: String = String::new();
    let mut i: usize = 0;
    while i < cs.len()
        invariant
            i <= cs@.len(),
            cs@ == s@,
            out@.len() == i,
            forall|k: int| 0 <= k < i ==> #[trigger] out@[k] == plain(s@[k]),
        decreases cs@.len() - i,
    {
        let c = cs[i];
        if ascii_alphanumeric(c) || c == '-' || c == '_' {
            out.push(c);
        } else {
            out.push('_');
        }
        i += 1;
    }
    assert(out@ =~= plain_text(s@));
    out
}

/// The hash that stands for a subject, so that its name is written nowhere.
pub fn hash_sub(sub: &str) -> (r: String)
    ensures
        r@ == digest::blake3_hex_of(digest::utf8(sub@)),
        r@.len() == 64,
{
    blake3_hex(sub.as_bytes())
}

/// The file of a subject's bucket.
pub fn bucket_path(dir: &str, sub_hash: &str) -> (r: String)
    ensures
        r@ == paths::joined(dir@, plain_text(sub_hash@) + ".json"@),
{
    let stem = filename_safe(sub_hash);
    let name = concat(stem.as_str(), ".json");
    join(dir, name.as_str())
}

/// A bucket's file is named by the subject's hash as it is: nothing in a
/// hexadecimal text is replaced.
pub proof fn law_hashes_name_their_bucket(hash: Seq<char>)
    requires
        forall|i: int| 0 <= i < hash.len() ==> digest::is_lower_hex(#[trigger] hash[i]),
    ensures
        plain_text(hash) == hash,
{
    assert forall|i: int| 0 <= i < hash.len() implies plain(hash[i]) == hash[i] by {
        assert(digest::is_lower_hex(hash[i]));
    }
    assert(plain_text(hash) =~= hash);
}

// ---------------------------------------------------------------------------
// Laws
// ---------------------------------------------------------------------------


/// A count of milliseconds is kept as far as it fits, and none is zero.
pub proof fn law_clamped_counts(ms: u128)
    ensures
        clamped(None) == 0,
        ms <= 9_223_372_036_854_775_807 ==> clamped(Some(ms)) == ms,
        ms > 9_223_372_036_854_775_807 ==> clamped(Some(ms)) == 9_223_372_036_854_775_807,
{
}

/// A name is made safe character by character: letters, digits and two marks stay, and
/// anything else becomes an underscore.
pub proof fn law_safe_names(s: Seq<char>, i: int)
    requires
        0 <= i < s.len(),
    ensures
        plain_text(s).len() == s.len(),
        ({
            let c = s[i];
            if '0' <= c <= '9' || 'a' <= c <= 'z' || 'A' <= c <= 'Z' || c == '-' || c == '_' {
                plain_text(s)[i] == c
            } else {
                plain_text(s)[i] == '_'
            }
        }),
{
}

} // verus!
