//! What a check is decided from. A check of a plan names a fact; the host hands
//! in what it found, and the fact is decided here.

use vstd::prelude::*;
use crate::digest;
use crate::json;
use crate::json::Json;
use crate::pipeline::Fact;
use crate::routes;
use crate::routes::artifacts;
use crate::routes::artifacts::{digest_matches, find_by_token, if_match_allows, is_plain_segment, ArtifactEntry, DirListing};
use crate::routes::avatar;
use crate::routes::avatar::{
    binding_max_hops, has_payload, hops_within_bound, is_given, is_known_canal, perception_agrees, ConverseKind,
};
use crate::routes::logs_stream;
use crate::routes::logs_stream::is_safe_segment;
use crate::routes::mcp::MAX_MCP_BODY_BYTES;
use crate::routes::molecules;
use crate::routes::molecules::{
    below_ceiling, count_live_workers, gives_a_reason, has_live_worker, known_strategy, names_a_tag, parse_variables, ProcessRecord, TagBody,
};
use crate::text;

verus! {

/// What the host found.
#[derive(Debug)]
pub enum Evidence {
    /// What only the host can tell: that something is so, or is not.
    Told(bool),
    /// A text of the request.
    Text(String),
    /// A payload of the request.
    Payload(Json),
    /// The variables of a nucleation.
    Variables(Option<Json>),
    /// The tags of a request.
    Tags(TagBody),
    /// The merge strategy that a harvest names.
    Strategy(Option<String>),
    /// How many bytes the body has.
    Size(usize),
    /// The worker process that a molecule's state records.
    Process(Option<ProcessRecord>),
    /// The worker processes that a noyau's molecules record; none where they
    /// cannot be read.
    Workers(Option<Vec<ProcessRecord>>),
    /// What a look at a molecule's artifact directory found.
    Listing(DirListing),
    /// The manifest, and the token that is looked for.
    Lookup { entries: Vec<ArtifactEntry>, token: String },
    /// The `Digest` header of an upload, and its bytes.
    Digest { header: Option<String>, body: Vec<u8> },
    /// The `If-Match` header of an upload, and the bytes it would replace.
    IfMatch { header: Option<String>, existing: Option<Vec<u8>> },
    /// The message's kind and how far it came, and the text of the binding where
    /// it can be read.
    Hops { kind: ConverseKind, hop: u32, binding: Option<String> },
    /// A perception's payload as JSON text, and the hash declared for it.
    Integrity { data: Vec<u8>, integrity: String },
}

/// The bound on relays that the text of a binding sets.
pub open spec fn bound_of(binding: Option<String>) -> u32 {
    match binding {
        Some(text) => avatar::hops_of(avatar::toml_integer_of(text@, "max_hops"@)),
        None => avatar::DEFAULT_MAX_CONVERSE_HOPS,
    }
}

/// How many workers the records show alive; none where they cannot be read.
pub open spec fn alive(records: Option<Vec<ProcessRecord>>) -> nat {
    match records {
        Some(v) => molecules::live_count(v@),
        None => 0,
    }
}

/// The fact holds by what was found. Evidence of another kind than the fact asks
/// for shows nothing.
pub open spec fn holds(fact: Fact, e: Evidence) -> bool {
    match fact {
        Fact::FormulaGiven => e matches Evidence::Text(s) && !text::blank(s@),
        Fact::ReasonGiven => e matches Evidence::Text(s) && !text::blank(s@),
        Fact::AvatarIdGiven => e matches Evidence::Text(s) && !text::blank(s@),
        Fact::SourceGiven => e matches Evidence::Text(s) && !text::blank(s@),
        Fact::IntegrityGiven => e matches Evidence::Text(s) && !text::blank(s@),
        Fact::MessageGiven => e matches Evidence::Payload(j) && !(j@ is Null),
        Fact::DataGiven => e matches Evidence::Payload(j) && !(j@ is Null),
        Fact::VariablesAreAnObject => e matches Evidence::Variables(v) && molecules::variables_of(json::document_view(v))
            != Err::<Seq<(Seq<char>, Seq<char>)>, _>("variables_not_object"@),
        Fact::VariablesAreTexts => e matches Evidence::Variables(v) && molecules::variables_of(json::document_view(v)) is Ok,
        Fact::TagsGiven => e matches Evidence::Tags(b) && (molecules::list_or_empty(b.add).len() > 0
            || molecules::list_or_empty(b.remove).len() > 0),
        Fact::StrategyKnown => e matches Evidence::Strategy(s) && molecules::strategy_of(crate::nucleon_map::optional(s)) is Some,
        Fact::BodySmallEnough => e matches Evidence::Size(n) && n <= MAX_MCP_BODY_BYTES,
        Fact::MoleculeSegmentSafe => e matches Evidence::Text(s) && artifacts::plain_segment(s@),
        Fact::NameSegmentSafe => e matches Evidence::Text(s) && artifacts::plain_segment(s@),
        Fact::PaneSegmentSafe => e matches Evidence::Text(s) && logs_stream::safe_segment(s@),
        Fact::CanalKnown => e matches Evidence::Text(s) && avatar::known_canal(s@),
        Fact::NoLiveWorker => e matches Evidence::Process(p) && !(p matches Some(record) && molecules::is_live(record)),
        Fact::BelowCeiling => e matches Evidence::Workers(v) && alive(v) < molecules::DEFAULT_TACKLE_CEILING_PER_NOYAU,
        Fact::DirectoryReadable => e matches Evidence::Listing(l) && !(l is Unreadable),
        Fact::TokenKnown => e matches Evidence::Lookup { entries, token } && exists|i: int|
            0 <= i < entries@.len() && (#[trigger] entries@[i]).token@ == token@,
        Fact::DigestAgrees => e matches Evidence::Digest { header, body } && artifacts::digest_agrees(
            crate::nucleon_map::optional(header),
            body@,
        ),
        Fact::IfMatchHolds => e matches Evidence::IfMatch { header, existing } && artifacts::if_match_holds(
            crate::nucleon_map::optional(header),
            digest::bytes_view(existing),
        ),
        Fact::HopsWithinBound => e matches Evidence::Hops { kind, hop, binding } && avatar::may_relay(
            kind,
            hop,
            bound_of(binding),
        ),
        Fact::IntegrityAgrees => e matches Evidence::Integrity { data, integrity } && avatar::perception_verdict(
            data@,
            integrity@,
        ) == Some(true),
        _ => e matches Evidence::Told(b) && b,
    }
}

fn borrowed(s: &Option<String>) -> (r: Option<&str>)
    ensures
        routes::view_of(r) == crate::nucleon_map::optional(*s),
{
    match s {
        Some(t) => Some(t.as_str()),
        None => None,
    }
}

fn text_shows(fact: Fact, s: &str) -> (r: bool)
    ensures
        r == match fact {
            Fact::FormulaGiven => !text::blank(s@),
            Fact::ReasonGiven => !text::blank(s@),
            Fact::AvatarIdGiven => !text::blank(s@),
            Fact::SourceGiven => !text::blank(s@),
            Fact::IntegrityGiven => !text::blank(s@),
            Fact::MoleculeSegmentSafe => artifacts::plain_segment(s@),
            Fact::NameSegmentSafe => artifacts::plain_segment(s@),
            Fact::PaneSegmentSafe => logs_stream::safe_segment(s@),
            Fact::CanalKnown => avatar::known_canal(s@),
            _ => false,
        },
{
    match fact {
        Fact::FormulaGiven => is_given(s),
        Fact::ReasonGiven => gives_a_reason(s),
        Fact::AvatarIdGiven => is_given(s),
        Fact::SourceGiven => is_given(s),
        Fact::IntegrityGiven => is_given(s),
        Fact::MoleculeSegmentSafe => is_plain_segment(s),
        Fact::NameSegmentSafe => is_plain_segment(s),
        Fact::PaneSegmentSafe => is_safe_segment(s),
        Fact::CanalKnown => is_known_canal(s),
        _ => false,
    }
}

fn variables_show(fact: Fact, raw: &Option<Json>) -> (r: bool)
    ensures
        r == match fact {
            Fact::VariablesAreAnObject => molecules::variables_of(json::document_view(*raw))
                != Err::<Seq<(Seq<char>, Seq<char>)>, _>("variables_not_object"@),
            Fact::VariablesAreTexts => molecules::variables_of(json::document_view(*raw)) is Ok,
            _ => false,
        },
{
    let given: Option<&Json> = match raw {
        Some(j) => Some(j),
        None => None,
    };
    assert(molecules::variables_view(given) == json::document_view(*raw));
    match fact {
        Fact::VariablesAreAnObject => match parse_variables(given) {
            Ok(_) => true,
            Err(label) => !crate::text::same_text(label, "variables_not_object"),
        },
        Fact::VariablesAreTexts => parse_variables(given).is_ok(),
        _ => false,
    }
}

/// Tells whether only the host can tell the fact.
fn is_told(fact: Fact) -> (r: bool)
    ensures
        forall|b: bool| #[trigger] holds(fact, Evidence::Told(b)) == (r && b),
{
    match fact {
        Fact::FormulaGiven | Fact::ReasonGiven | Fact::AvatarIdGiven | Fact::SourceGiven | Fact::IntegrityGiven => false,
        Fact::MessageGiven | Fact::DataGiven | Fact::VariablesAreAnObject | Fact::VariablesAreTexts => false,
        Fact::TagsGiven | Fact::StrategyKnown | Fact::BodySmallEnough | Fact::MoleculeSegmentSafe => false,
        Fact::NameSegmentSafe | Fact::PaneSegmentSafe | Fact::CanalKnown | Fact::NoLiveWorker => false,
        Fact::BelowCeiling | Fact::DirectoryReadable | Fact::TokenKnown | Fact::DigestAgrees => false,
        Fact::IfMatchHolds | Fact::HopsWithinBound | Fact::IntegrityAgrees => false,
        _ => true,
    }
}

/// Decides a fact by what was found.
pub fn decide(fact: Fact, e: &Evidence) -> (r: bool)
    ensures
        r == holds(fact, *e),
{
    match e {
        Evidence::Told(b) => {
            assert(*e == Evidence::Told(*b));
            is_told(fact) && *b
        },
        Evidence::Text(s) => text_shows(fact, s.as_str()),
        Evidence::Payload(j) => match fact {
            Fact::MessageGiven | Fact::DataGiven => has_payload(j),
            _ => false,
        },
        Evidence::Variables(v) => variables_show(fact, v),
        Evidence::Tags(b) => match fact {
            Fact::TagsGiven => names_a_tag(b),
            _ => false,
        },
        Evidence::Strategy(s) => match fact {
            Fact::StrategyKnown => known_strategy(borrowed(s)),
            _ => false,
        },
        Evidence::Size(n) => match fact {
            Fact::BodySmallEnough => *n <= MAX_MCP_BODY_BYTES,
            _ => false,
        },
        Evidence::Process(p) => match fact {
            Fact::NoLiveWorker => !has_live_worker(*p),
            _ => false,
        },
        Evidence::Workers(v) => match fact {
            Fact::BelowCeiling => below_ceiling(count_live_workers(v)),
            _ => false,
        },
        Evidence::Listing(l) => match fact {
            Fact::DirectoryReadable => match l {
                DirListing::Unreadable => false,
                _ => true,
            },
            _ => false,
        },
        Evidence::Lookup { entries, token } => match fact {
            Fact::TokenKnown => find_by_token(entries, token.as_str()).is_some(),
            _ => false,
        },
        Evidence::Digest { header, body } => match fact {
            Fact::DigestAgrees => digest_matches(borrowed(header), body),
            _ => false,
        },
        Evidence::IfMatch { header, existing } => match fact {
            Fact::IfMatchHolds => if_match_allows(borrowed(header), existing),
            _ => false,
        },
        Evidence::Hops { kind, hop, binding } => match fact {
            Fact::HopsWithinBound => hops_within_bound(*kind, *hop, binding_max_hops(borrowed(binding))),
            _ => false,
        },
        Evidence::Integrity { data, integrity } => match fact {
            Fact::IntegrityAgrees => match perception_agrees(data.as_slice(), integrity.as_str()) {
                Some(agrees) => agrees,
                None => false,
            },
            _ => false,
        },
    }
}

/// Evidence of the wrong kind never opens a gate: what the host merely tells is
/// not enough for a fact that is decided here.
pub proof fn law_word_is_not_enough(fact: Fact)
    requires
        fact == Fact::NoLiveWorker || fact == Fact::BelowCeiling || fact == Fact::DigestAgrees || fact == Fact::IfMatchHolds
            || fact == Fact::IntegrityAgrees || fact == Fact::HopsWithinBound || fact == Fact::MoleculeSegmentSafe || fact
            == Fact::NameSegmentSafe || fact == Fact::PaneSegmentSafe || fact == Fact::TokenKnown,
    ensures
        !holds(fact, Evidence::Told(true)),
{
}

// ---------------------------------------------------------------------------
// Laws
// ---------------------------------------------------------------------------


/// What has to be given is given where it holds more than white space, a payload where
/// it is not null, and tags where one is to be added or removed.
pub proof fn law_what_is_given(s: String, j: Json, b: TagBody)
    ensures
        ({
            let said = exists|i: int| 0 <= i < s@.len() && !text::is_white_space(#[trigger] s@[i]);
            &&& holds(Fact::FormulaGiven, Evidence::Text(s)) == said
            &&& holds(Fact::ReasonGiven, Evidence::Text(s)) == said
            &&& holds(Fact::AvatarIdGiven, Evidence::Text(s)) == said
            &&& holds(Fact::SourceGiven, Evidence::Text(s)) == said
            &&& holds(Fact::IntegrityGiven, Evidence::Text(s)) == said
        }),
        holds(Fact::MessageGiven, Evidence::Payload(j)) == !(j@ is Null),
        holds(Fact::DataGiven, Evidence::Payload(j)) == !(j@ is Null),
        holds(Fact::TagsGiven, Evidence::Tags(b)) <==> (b.add is Some && (b.add->0)@.len() > 0) || (b.remove is Some
            && (b.remove->0)@.len() > 0),
{
    text::law_blank_texts(s@);
}

/// What the host has to tell holds exactly where it says so.
pub proof fn law_told_facts(fact: Fact, b: bool)
    requires
        fact == Fact::JsonBody || fact == Fact::BodyReadable || fact == Fact::AddedTagsValid || fact == Fact::RemovedTagsValid
            || fact == Fact::MoleculeIdValid || fact == Fact::TenantRootExists || fact == Fact::BucketReadable || fact
            == Fact::FileReadable || fact == Fact::DirectoryMade || fact == Fact::FileWritten || fact == Fact::BindingExists
            || fact == Fact::SourceEnabled || fact == Fact::NotIncarnated || fact == Fact::Incarnated || fact
            == Fact::InstanceExists || fact == Fact::PiloteIdValid || fact == Fact::JurisdictionValid || fact
            == Fact::TenantIdValid || fact == Fact::InstanceIdValid || fact == Fact::EventWritable || fact
            == Fact::LedgerOpened || fact == Fact::EventAppended,
    ensures
        holds(fact, Evidence::Told(b)) == b,
{
}

/// A worker may be started on a molecule whose record shows none alive, in a noyau
/// with fewer than four; a noyau whose records cannot be read counts as having none.
pub proof fn law_room_for_a_worker(p: ProcessRecord, v: Vec<ProcessRecord>)
    ensures
        holds(Fact::NoLiveWorker, Evidence::Process(None)),
        holds(Fact::NoLiveWorker, Evidence::Process(Some(p))) == !(p.active && (p.pid is None || (p.pid_start_time is Some
            && p.witnessed_start == p.pid_start_time))),
        holds(Fact::BelowCeiling, Evidence::Workers(Some(v))) == (molecules::live_count(v@) < 4),
        holds(Fact::BelowCeiling, Evidence::Workers(None)),
{
}

/// What goes into a path is weighed as such, a tool call by its size, a listing by
/// whether it could be read, a token by whether an entry has it, and a strategy by
/// whether there is one of that name.
pub proof fn law_what_is_weighed(s: String, n: usize, l: DirListing, entries: Vec<ArtifactEntry>, strategy: Option<String>)
    ensures
        holds(Fact::MoleculeSegmentSafe, Evidence::Text(s)) == artifacts::plain_segment(s@),
        holds(Fact::NameSegmentSafe, Evidence::Text(s)) == artifacts::plain_segment(s@),
        holds(Fact::PaneSegmentSafe, Evidence::Text(s)) == logs_stream::safe_segment(s@),
        holds(Fact::CanalKnown, Evidence::Text(s)) == (s@ == "b"@ || s@ == "c"@ || s@ == "d"@),
        holds(Fact::BodySmallEnough, Evidence::Size(n)) == (n <= 4 * 1024 * 1024),
        holds(Fact::DirectoryReadable, Evidence::Listing(l)) == !(l is Unreadable),
        holds(Fact::TokenKnown, Evidence::Lookup { entries, token: s }) <==> exists|i: int|
            0 <= i < entries@.len() && (#[trigger] entries@[i]).token@ == s@,
        holds(Fact::StrategyKnown, Evidence::Strategy(strategy)) <==> strategy is None || (strategy->0)@ == "merge"@
            || (strategy->0)@ == "ff-only"@,
{
    let e = Evidence::Lookup { entries, token: s };
    assert(e->entries == entries && e->Lookup_token == s);
    if exists|i: int| 0 <= i < entries@.len() && (#[trigger] entries@[i]).token@ == s@ {
        let i = choose|i: int| 0 <= i < entries@.len() && (#[trigger] entries@[i]).token@ == s@;
        assert(entries@[i].token@ == s@);
        assert(holds(Fact::TokenKnown, e));
    }
}

/// Variables pass in two steps: first that they are an object or none, then that they
/// hold texts.
pub proof fn law_variables_pass_in_two_steps(v: Option<Json>)
    ensures
        holds(Fact::VariablesAreAnObject, Evidence::Variables(v)) <==> v is None || (v->0)@ is Null || (v->0)@ is Object,
        holds(Fact::VariablesAreTexts, Evidence::Variables(v)) <==> v is None || (v->0)@ is Null || ((v->0)@ is Object && (
        forall|i: int|
            0 <= i < ((v->0)@->Object_0).len() ==> (#[trigger] ((v->0)@->Object_0)[i]).1 is Text || (
            (v->0)@->Object_0)[i].1 is Null)),
{
    reveal_strlit("variables_not_object");
    reveal_strlit("variables_not_string");
    assert("variables_not_object"@[14] == 'o' && "variables_not_string"@[14] == 's');
    if v is Some && (v->0)@ is Object {
        molecules::lemma_text_fields((v->0)@->Object_0);
    }
}

} // verus!
