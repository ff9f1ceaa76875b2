//! `GET /v1/quota`: the bounds a caller works under, and when its bucket is
//! empty again.

use vstd::prelude::*;
use crate::clock;
use crate::clock::second_text;
use crate::jwt::ValidatedJwt;
use crate::nucleon_map;
use crate::nucleon_map::{DrainBounds, HabilitationMap};
use crate::pipeline::{check, Fact, Stage, Verb};
use crate::scopes::ScopeRule;

verus! {

pub const HEADER_RATE_LIMIT_LIMIT: &'static str = "x-ratelimit-limit";

pub const HEADER_RATE_LIMIT_REMAINING: &'static str = "x-ratelimit-remaining";

pub const HEADER_RATE_LIMIT_RESET: &'static str = "x-ratelimit-reset";

/// The bounds of a drain, as the quota shows them.
#[derive(Clone, Copy, Debug, PartialEq, Eq, Structural)]
pub struct QuotaDrainBounds {
    pub budget: u64,
    pub max_depth: u32,
    pub max_molecules: u64,
}

/// The bounds of the binding that admits the token; the defaults where none
/// does.
pub open spec fn bounds_for(
    m: Map<crate::keyed::KeyView, nucleon_map::ResolvedView>,
    iss: Seq<char>,
    sub: Seq<char>,
    aud: Seq<char>,
) -> DrainBounds {
    match nucleon_map::triple_binding(m, iss, sub, aud) {
        Some(b) => b.drain_bounds,
        None => nucleon_map::default_bounds(),
    }
}

/// The bounds that a drain of this token runs under. Both the drain and the
/// quota take them from here.
pub fn effective_bounds(map: &HabilitationMap, jwt: &ValidatedJwt) -> (r: DrainBounds)
    requires
        map.wf(),
    ensures
        r == bounds_for(map.bindings(), jwt.iss@, jwt.sub@, jwt.aud@),
{
    match map.resolve_for_audience(jwt.iss.as_str(), jwt.sub.as_str(), jwt.aud.as_str()) {
        Some(b) => b.drain_bounds,
        None => DrainBounds::default(),
    }
}

/// The bounds as the quota shows them: those that a drain runs under.
pub fn shown_bounds(map: &HabilitationMap, jwt: &ValidatedJwt) -> (r: QuotaDrainBounds)
    requires
        map.wf(),
    ensures
        r.budget == bounds_for(map.bindings(), jwt.iss@, jwt.sub@, jwt.aud@).budget,
        r.max_depth == bounds_for(map.bindings(), jwt.iss@, jwt.sub@, jwt.aud@).max_depth,
        r.max_molecules == bounds_for(map.bindings(), jwt.iss@, jwt.sub@, jwt.aud@).max_molecules,
{
    let b = effective_bounds(map, jwt);
    QuotaDrainBounds { budget: b.budget, max_depth: b.max_depth, max_molecules: b.max_molecules }
}

/// A millisecond count since the epoch, to the second; the epoch where it is
/// outside the calendar.
pub open spec fn reset_text(ms: i64) -> Seq<char> {
    let secs = ms as int / 1000;
    let nanos = ms as int % 1000 * 1_000_000;
    if clock::in_calendar(secs) {
        clock::second_text_of(secs as i64, nanos as u32)
    } else {
        "1970-01-01T00:00:00Z"@
    }
}

/// A millisecond count since the epoch, to the second. The body and the header of
/// an answer both take it from here.
pub fn format_reset_iso(ms: i64) -> (r: String)
    ensures
        r@ == reset_text(ms),
{
    let rest: i64 = match ms.checked_rem_euclid(1000) {
        Some(v) => v,
        None => 0,
    };
    let secs: i64 = match ms.checked_div_euclid(1000) {
        Some(v) => v,
        None => 0,
    };
    match second_text(secs, rest as u32 * 1_000_000) {
        Some(text) => text,
        None => "1970-01-01T00:00:00Z".to_owned(),
    }
}

// ---------------------------------------------------------------------------
// The plan
// ---------------------------------------------------------------------------

pub open spec fn get_quota_plan() -> Seq<Stage> {
    seq![
        Stage::Bearer { metered: true },
        Stage::Token { metered: true },
        Stage::Scope { act: "quota", rule: ScopeRule::MoleculeRead },
        Stage::Admit { verb: Verb::ObserveMolecule, targeted: false, metered: true },
        check(Fact::BucketReadable, 500, "rate_limit_read_failed"),
        Stage::Answer { status: 200 },
    ]
}

/// The plan of `GET /v1/quota`.
pub fn get_quota() -> (r: Vec<Stage>)
    ensures
        r@ == get_quota_plan(),
{
    vec![
        Stage::Bearer { metered: true },
        Stage::Token { metered: true },
        Stage::Scope { act: "quota", rule: ScopeRule::MoleculeRead },
        Stage::Admit { verb: Verb::ObserveMolecule, targeted: false, metered: true },
        check(Fact::BucketReadable, 500, "rate_limit_read_failed"),
        Stage::Answer { status: 200 },
    ]
}

// ---------------------------------------------------------------------------
// Laws
// ---------------------------------------------------------------------------


/// A caller drains within the bounds of the binding for its issuer, its subject and
/// its audience together, and within 128 steps, 8 levels and 256 molecules without one.
pub proof fn law_bounds_come_from_the_binding(
    m: Map<crate::keyed::KeyView, nucleon_map::ResolvedView>,
    iss: Seq<char>,
    sub: Seq<char>,
    aud: Seq<char>,
)
    ensures
        nucleon_map::triple_binding(m, iss, sub, aud) matches Some(b) ==> bounds_for(m, iss, sub, aud) == b.drain_bounds,
        nucleon_map::triple_binding(m, iss, sub, aud) is None ==> bounds_for(m, iss, sub, aud).budget == 128 && bounds_for(
            m,
            iss,
            sub,
            aud,
        ).max_depth == 8 && bounds_for(m, iss, sub, aud).max_molecules == 256,
{
}

/// When a bucket is empty again is told to the second, the fraction being dropped;
/// what lies outside the calendar is told as the epoch.
pub proof fn law_reset_times(secs: int, millis: int)
    requires
        0 <= millis < 1000,
        i64::MIN <= secs * 1000 + millis <= i64::MAX,
    ensures
        0 <= secs <= 253_402_300_799 ==> reset_text((secs * 1000 + millis) as i64) == clock::date_time(secs as nat) + "Z"@,
        secs > 8_210_266_876_799 ==> reset_text((secs * 1000 + millis) as i64) == "1970-01-01T00:00:00Z"@,
        secs < -8_334_601_228_800 ==> reset_text((secs * 1000 + millis) as i64) == "1970-01-01T00:00:00Z"@,
{
    let ms = secs * 1000 + millis;
    assert((ms as i64) as int / 1000 == secs);
}

} // verus!
