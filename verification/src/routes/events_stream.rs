//! `GET /v1/events`: which events of the bus a subscriber sees.

use vstd::prelude::*;
use crate::numbers;
use crate::numbers::parse_u64;
use crate::text;
use crate::text::{same_text, trim};
use crate::pipeline::{Effect, Stage, Verb};
use crate::scopes::ScopeRule;

verus! {

pub const KEEP_ALIVE_SECS: u64 = 30;

/// The query of `GET /v1/events`.
#[derive(Clone, Debug)]
pub struct EventsQuery {
    pub molecule_id: Option<String>,
}

impl Default for EventsQuery {
    fn default() -> (r: Self)
        ensures
            r.molecule_id is None,
    {
        EventsQuery { molecule_id: None }
    }
}

/// The id that a `Last-Event-ID` header names; none where it is absent or no
/// number.
pub open spec fn event_id_of(header: Option<Seq<char>>) -> Option<u64> {
    match header {
        Some(v) => match numbers::unsigned_value(text::trimmed(v)) {
            Some(n) => if n <= u64::MAX {
                Some(n as u64)
            } else {
                None
            },
            None => None,
        },
        None => None,
    }
}

/// Reads a `Last-Event-ID` header.
pub fn parse_last_event_id(header: Option<&str>) -> (r: Option<u64>)
    ensures
        r == event_id_of(crate::routes::view_of(header)),
{
    match header {
        Some(v) => parse_u64(trim(v).as_str()),
        None => None,
    }
}

/// The ids above which a resumed stream goes on.
pub fn resume_floor(header: Option<&str>) -> (r: u64)
    ensures
        r == (match event_id_of(crate::routes::view_of(header)) {
            Some(n) => n,
            None => 0,
        }),
{
    match parse_last_event_id(header) {
        Some(n) => n,
        None => 0,
    }
}

/// An event belongs in the stream: it is of the subscriber's noyau and, where
/// one molecule was asked for, of that molecule.
pub open spec fn concerns(noyau: Seq<char>, filter: Option<Seq<char>>, evt_noyau: Seq<char>, evt_molecule: Seq<char>) -> bool {
    evt_noyau == noyau && (filter matches Some(m) ==> evt_molecule == m)
}

/// Tells whether an event belongs in a subscriber's stream.
pub fn concerns_subscriber(noyau: &str, query: &EventsQuery, evt_noyau: &str, evt_molecule: &str) -> (r: bool)
    ensures
        r == concerns(noyau@, crate::nucleon_map::optional(query.molecule_id), evt_noyau@, evt_molecule@),
{
    if !same_text(evt_noyau, noyau) {
        return false;
    }
    match &query.molecule_id {
        Some(target) => same_text(evt_molecule, target.as_str()),
        None => true,
    }
}

/// Tells whether a numbered event is past what the client has seen.
pub fn is_fresh(id: u64, floor: u64) -> (r: bool)
    ensures
        r == (id > floor),
{
    id > floor
}

/// Numbers an event and decides whether a subscriber is sent it: the number, where
/// it is. Only an event that belongs in the stream takes a number.
pub fn forward(
    next_id: &mut u64,
    noyau: &str,
    query: &EventsQuery,
    floor: u64,
    evt_noyau: &str,
    evt_molecule: &str,
) -> (r: Option<u64>)
    ensures
        ({
            let belongs = concerns(noyau@, crate::nucleon_map::optional(query.molecule_id), evt_noyau@, evt_molecule@);
            &&& r == if belongs && *old(next_id) > floor {
                Some(*old(next_id))
            } else {
                None
            }
            &&& *final(next_id) as int == if !belongs {
                *old(next_id) as int
            } else if *old(next_id) < u64::MAX {
                *old(next_id) + 1
            } else {
                0
            }
        }),
{
    if !concerns_subscriber(noyau, query, evt_noyau, evt_molecule) {
        return None;
    }
    let id: u64 = *next_id;
    *next_id = if id < u64::MAX {
        id + 1
    } else {
        0
    };
    if is_fresh(id, floor) {
        Some(id)
    } else {
        None
    }
}

/// A subscriber of one noyau never sees an event of another, whatever it asks
/// for.
pub proof fn law_events_stay_in_their_noyau(
    noyau: Seq<char>,
    filter: Option<Seq<char>>,
    evt_noyau: Seq<char>,
    evt_molecule: Seq<char>,
)
    requires
        evt_noyau != noyau,
    ensures
        !concerns(noyau, filter, evt_noyau, evt_molecule),
{
}

// ---------------------------------------------------------------------------
// The plan
// ---------------------------------------------------------------------------

pub open spec fn events_stream_plan() -> Seq<Stage> {
    seq![
        Stage::Bearer { metered: true },
        Stage::Token { metered: true },
        Stage::Scope { act: "events_subscribe", rule: ScopeRule::EventsSubscribe },
        Stage::Admit { verb: Verb::SubscribeEvents, targeted: false, metered: true },
        Stage::Perform { effect: Effect::OpenStream },
        Stage::Answer { status: 200 },
    ]
}

/// The plan of `GET /v1/events`.
pub fn events_stream() -> (r: Vec<Stage>)
    ensures
        r@ == events_stream_plan(),
{
    vec![
        Stage::Bearer { metered: true },
        Stage::Token { metered: true },
        Stage::Scope { act: "events_subscribe", rule: ScopeRule::EventsSubscribe },
        Stage::Admit { verb: Verb::SubscribeEvents, targeted: false, metered: true },
        Stage::Perform { effect: Effect::OpenStream },
        Stage::Answer { status: 200 },
    ]
}

// ---------------------------------------------------------------------------
// Laws
// ---------------------------------------------------------------------------


/// A subscriber resumes behind the event whose number it names, in decimal and with
/// or without space around it; what is no number, or too large a one, names none.
pub proof fn law_resumed_events(digits: Seq<char>, header: Seq<char>)
    requires
        digits.len() > 0,
        forall|i: int| 0 <= i < digits.len() ==> '0' <= #[trigger] digits[i] <= '9',
    ensures
        numbers::digits_value(digits) <= u64::MAX ==> event_id_of(Some(digits)) == Some(
            numbers::digits_value(digits) as u64,
        ),
        numbers::digits_value(digits) > u64::MAX ==> event_id_of(Some(digits)) is None,
        event_id_of(None) is None,
        numbers::unsigned_value(text::trimmed(header)) is None ==> event_id_of(Some(header)) is None,
        text::trimmed(header) == digits ==> event_id_of(Some(header)) == event_id_of(Some(digits)),
{
    assert('0' <= digits[0] <= '9' && '0' <= digits[digits.len() - 1] <= '9');
    text::law_trimming(digits, ' ');
    numbers::law_reading_numbers(digits);
}

/// An event reaches exactly the subscribers of its noyau that asked for everything or
/// for its molecule.
pub proof fn law_events_reach_their_subscribers(noyau: Seq<char>, wanted: Seq<char>, evt_noyau: Seq<char>, evt_molecule: Seq<char>)
    ensures
        concerns(noyau, None, evt_noyau, evt_molecule) == (evt_noyau == noyau),
        concerns(noyau, Some(wanted), evt_noyau, evt_molecule) == (evt_noyau == noyau && evt_molecule == wanted),
{
}

} // verus!
