//! The HTTP routes: what each one decides.

pub mod admin;
pub mod artifacts;
pub mod auth_me;
pub mod avatar;
pub mod dist;
pub mod events_stream;
pub mod laws;
pub mod logs_stream;
pub mod mcp;
pub mod molecules;
pub mod noyaux;
pub mod oauth_discovery;
pub mod observability;
pub mod quota;
pub mod result;

use vstd::prelude::*;
use crate::pipeline;
use crate::pipeline::{Effect, Fact, Run, Stage};
use crate::routes::molecules::FreezeState;
use crate::scopes::ScopeRule;
use crate::text;
use crate::text::{chars_of, concat3, contains_char, split, trim};

verus! {

// ---------------------------------------------------------------------------
// Liveness
// ---------------------------------------------------------------------------

/// The body of `GET /healthz`.
#[derive(Clone, Debug)]
pub struct Healthz {
    pub ok: bool,
    pub service: &'static str,
    pub version: String,
    pub api_surface_version: usize,
}

/// The body of the liveness probe.
pub fn healthz(version: &str, api_surface_version: usize) -> (r: Healthz)
    ensures
        r.ok,
        r.service@ == "cosmon-rpp-adapter"@,
        r.version@ == version@,
        r.api_surface_version == api_surface_version,
{
    Healthz { ok: true, service: "cosmon-rpp-adapter", version: version.to_owned(), api_surface_version }
}

// ---------------------------------------------------------------------------
// The base URL of a request
// ---------------------------------------------------------------------------

/// The scheme a client spoke: the first one a proxy forwarded, else plain HTTP.
pub open spec fn scheme_of(forwarded: Option<Seq<char>>) -> Seq<char> {
    match forwarded {
        Some(v) => {
            let first = text::trimmed(text::split_parts(v, ',')[0]);
            if first.len() == 0 {
                "http"@
            } else {
                first
            }
        },
        None => "http"@,
    }
}

pub open spec fn base_url_of(host: Option<Seq<char>>, forwarded: Option<Seq<char>>) -> Seq<char> {
    scheme_of(forwarded) + "://"@ + (match host {
        Some(h) => h,
        None => "localhost"@,
    })
}

pub open spec fn view_of(s: Option<&str>) -> Option<Seq<char>> {
    match s {
        Some(v) => Some(v@),
        None => None,
    }
}

/// The base URL that a request was sent to, from its `Host` and
/// `X-Forwarded-Proto` headers.
pub fn request_base_url(host: Option<&str>, forwarded_proto: Option<&str>) -> (r: String)
    ensures
        r@ == base_url_of(view_of(host), view_of(forwarded_proto)),
{
    let authority: &str = match host {
        Some(h) => h,
        None => "localhost",
    };
    match forwarded_proto {
        Some(v) => {
            let parts = split(v, ',');
            proof {
                assert(text::split_parts(v@, ',').len() > 0);
                assert(text::views(parts@).len() == parts@.len());
            }
            let first = trim(parts[0].as_str());
            assert(parts@[0]@ == text::views(parts@)[0]);
            if first.as_str().is_empty() {
                concat3("http", "://", authority)
            } else {
                concat3(first.as_str(), "://", authority)
            }
        },
        None => concat3("http", "://", authority),
    }
}

// ---------------------------------------------------------------------------
// Templates
// ---------------------------------------------------------------------------

/// `s` with every occurrence of `needle`, taken from the left, replaced.
pub open spec fn replaced(s: Seq<char>, needle: Seq<char>, with: Seq<char>) -> Seq<char>
    decreases s.len(),
{
    if needle.len() == 0 || s.len() == 0 {
        s
    } else if text::starts_with(s, needle) {
        with + replaced(s.skip(needle.len() as int), needle, with)
    } else {
        seq![s[0]] + replaced(s.skip(1), needle, with)
    }
}

fn matches_at(cs: &Vec<char>, at: usize, needle: &Vec<char>) -> (r: bool)
    requires
        at <= cs@.len(),
    ensures
        r == text::starts_with(cs@.skip(at as int), needle@),
{
    if needle.len() > cs.len() - at {
        return false;
    }
    let count: usize = cs.len();
    let mut i: usize = 0;
    while i < needle.len()
        invariant
            i <= needle@.len(),
            at + needle@.len() <= cs@.len(),
            count == cs@.len(),
            forall|k: int| 0 <= k < i ==> cs@[at + k] == needle@[k],
        decreases needle@.len() - i,
    {
        if cs[at + i] != needle[i] {
            assert(cs@.skip(at as int).take(needle@.len() as int)[i as int] != needle@[i as int]);
            return false;
        }
        i += 1;
    }
    assert(cs@.skip(at as int).take(needle@.len() as int) =~= needle@);
    true
}

/// `s` with every occurrence of `needle`, taken from the left, replaced.
pub fn replace_all(s: &str, needle: &str, with: &str) -> (r: String)
    requires
        needle@.len() > 0,
    ensures
        r@ == replaced(s@, needle@, with@),
{
    let cs = chars_of(s);
    let ns = chars_of(needle);
    let mut out: String = String::new();
    let mut i: usize = 0;
    assert(cs@.skip(0) =~= cs@);
    assert(out@ + replaced(cs@, ns@, with@) =~= replaced(cs@, ns@, with@));
    while i < cs.len()
        invariant
            i <= cs@.len(),
            ns@.len() > 0,
            ns@ == needle@,
            cs@ == s@,
            out@ + replaced(cs@.skip(i as int), ns@, with@) == replaced(s@, needle@, with@),
        decreases cs@.len() - i,
    {
        let ghost before = out@;
        let ghost tail = cs@.skip(i as int);
        if matches_at(&cs, i, &ns) {
            out.push_str(with);
            assert(tail.skip(ns@.len() as int) =~= cs@.skip(i + ns@.len()));
            assert(before + (with@ + replaced(cs@.skip(i + ns@.len()), ns@, with@)) =~= out@ + replaced(
                cs@.skip(i + ns@.len()),
                ns@,
                with@,
            ));
            i += ns.len();
        } else {
            out.push(cs[i]);
            assert(tail[0] == cs@[i as int]);
            assert(tail.skip(1) =~= cs@.skip(i + 1));
            assert(before + (seq![tail[0]] + replaced(cs@.skip(i + 1), ns@, with@)) =~= out@ + replaced(
                cs@.skip(i + 1),
                ns@,
                with@,
            ));
            i += 1;
        }
    }
    assert(cs@.skip(i as int) =~= Seq::<char>::empty());
    assert(out@ + Seq::<char>::empty() =~= out@);
    out
}

/// Where the served templates name the host they were fetched from.
pub const COSMON_HOST_PLACEHOLDER: &'static str = "__COSMON_HOST__";

/// What a deployment presets in the install script.
#[derive(Clone, Debug)]
pub struct InstallTemplating {
    pub sub: String,
    pub aud: String,
    pub oidc_url: String,
    pub noyau: String,
}

/// The line that presets one field: none where it is empty, and a remark where
/// its value holds a quote.
pub open spec fn config_line(key: Seq<char>, val: Seq<char>) -> Seq<char> {
    if val.len() == 0 {
        Seq::empty()
    } else if val.contains('\'') {
        "# skipped "@ + key + ": value contains a single quote, set it manually\n"@
    } else {
        "\"$BIN_PATH\" --profile \"$PROFILE\" config set "@ + key + " '"@ + val + "'\n"@
    }
}

/// The field can be preset.
pub open spec fn presets(val: Seq<char>) -> bool {
    val.len() > 0 && !val.contains('\'')
}

/// The lines that preset the four fields, with a remark where none can be.
pub open spec fn config_block(sub: Seq<char>, aud: Seq<char>, oidc_url: Seq<char>, noyau: Seq<char>) -> Seq<char> {
    config_line("sub"@, sub) + config_line("aud"@, aud) + config_line("oidc-url"@, oidc_url) + config_line(
        "noyau"@,
        noyau,
    ) + (if presets(sub) || presets(aud) || presets(oidc_url) || presets(noyau) {
        Seq::empty()
    } else {
        "# (no per-deployment fields configured server-side — set sub/aud/oidc-url/noyau manually)\n"@
    })
}

fn push_config_line(out: &mut String, key: &str, val: &str) -> (r: bool)
    ensures
        final(out)@ == old(out)@ + config_line(key@, val@),
        r == presets(val@),
{
    let ghost start = out@;
    if val.is_empty() {
        assert(out@ =~= start + config_line(key@, val@));
        return false;
    }
    if contains_char(val, '\'') {
        out.push_str("# skipped ");
        out.push_str(key);
        out.push_str(": value contains a single quote, set it manually\n");
        assert(out@ =~= start + config_line(key@, val@));
        return false;
    }
    out.push_str("\"$BIN_PATH\" --profile \"$PROFILE\" config set ");
    out.push_str(key);
    out.push_str(" '");
    out.push_str(val);
    out.push_str("'\n");
    assert(out@ =~= start + config_line(key@, val@));
    true
}

/// The shell lines that preset a deployment's fields.
pub fn build_config_set_block(sub: &str, aud: &str, oidc_url: &str, noyau: &str) -> (r: String)
    ensures
        r@ == config_block(sub@, aud@, oidc_url@, noyau@),
{
    let mut out: String = String::new();
    let a = push_config_line(&mut out, "sub", sub);
    let b = push_config_line(&mut out, "aud", aud);
    let c = push_config_line(&mut out, "oidc-url", oidc_url);
    let d = push_config_line(&mut out, "noyau", noyau);
    if !(a || b || c || d) {
        out.push_str(
            "# (no per-deployment fields configured server-side — set sub/aud/oidc-url/noyau manually)\n",
        );
    }
    assert(out@ =~= config_block(sub@, aud@, oidc_url@, noyau@));
    out
}

/// The install script as served: the host put in, and the preset lines.
pub open spec fn install_text(template: Seq<char>, base: Seq<char>, t: InstallTemplating) -> Seq<char> {
    let oidc_url = replaced(t.oidc_url@, "__COSMON_HOST__"@, base);
    replaced(
        replaced(template, "__COSMON_HOST__"@, base),
        "__COSMON_CONFIG_SET_BLOCK__"@,
        config_block(t.sub@, t.aud@, oidc_url, t.noyau@),
    )
}

/// The install script for a request.
pub fn serve_install_sh(template: &str, base: &str, t: &InstallTemplating) -> (r: String)
    ensures
        r@ == install_text(template@, base@, *t),
{
    proof {
        reveal_strlit("__COSMON_HOST__");
        reveal_strlit("__COSMON_CONFIG_SET_BLOCK__");
    }
    let oidc_url = replace_all(t.oidc_url.as_str(), "__COSMON_HOST__", base);
    let block = build_config_set_block(t.sub.as_str(), t.aud.as_str(), oidc_url.as_str(), t.noyau.as_str());
    let hosted = replace_all(template, "__COSMON_HOST__", base);
    replace_all(hosted.as_str(), "__COSMON_CONFIG_SET_BLOCK__", block.as_str())
}

/// The justfile for a request.
pub fn serve_dist_justfile(template: &str, base: &str) -> (r: String)
    ensures
        r@ == replaced(template@, "__COSMON_HOST__"@, base@),
{
    proof {
        reveal_strlit("__COSMON_HOST__");
    }
    replace_all(template, "__COSMON_HOST__", base)
}

// ---------------------------------------------------------------------------
// The tenants' routes
// ---------------------------------------------------------------------------

/// A route of the tenants, with what its plan depends on.
#[derive(Clone, Copy, Debug, PartialEq, Eq, Structural)]
pub enum TenantRoute {
    GetMolecule,
    PostMolecule,
    TagMolecule,
    ListMolecules,
    CollapseMolecule,
    FreezeMolecule(FreezeState),
    StuckMolecule,
    TackleMolecule,
    RunMolecule,
    DoneMolecule(bool),
    GetResult,
    GetQuota,
    ListArtifacts,
    FetchArtifact,
    PushArtifact,
    Converse,
    Perceive,
    AvatarStatus,
    AvatarIncarnate,
    AvatarGrant,
    AvatarAudit,
    AvatarMouldInfo,
    EventsStream,
    LogsStream,
}

pub open spec fn tenant_plan(route: TenantRoute) -> Seq<Stage> {
    match route {
        TenantRoute::GetMolecule => molecules::get_molecule_plan(),
        TenantRoute::PostMolecule => molecules::post_molecule_plan(),
        TenantRoute::TagMolecule => molecules::tag_molecule_plan(),
        TenantRoute::ListMolecules => molecules::list_molecules_plan(),
        TenantRoute::CollapseMolecule => molecules::collapse_molecule_plan(),
        TenantRoute::FreezeMolecule(x) => molecules::freeze_molecule_plan(x),
        TenantRoute::StuckMolecule => molecules::stuck_molecule_plan(),
        TenantRoute::TackleMolecule => molecules::tackle_molecule_plan(),
        TenantRoute::RunMolecule => molecules::run_molecule_plan(),
        TenantRoute::DoneMolecule(x) => molecules::done_molecule_plan(x),
        TenantRoute::GetResult => result::get_result_plan(),
        TenantRoute::GetQuota => quota::get_quota_plan(),
        TenantRoute::ListArtifacts => artifacts::list_artifacts_plan(),
        TenantRoute::FetchArtifact => artifacts::fetch_artifact_plan(),
        TenantRoute::PushArtifact => artifacts::push_artifact_plan(),
        TenantRoute::Converse => avatar::converse_plan(),
        TenantRoute::Perceive => avatar::perceive_plan(),
        TenantRoute::AvatarStatus => avatar::avatar_status_plan(),
        TenantRoute::AvatarIncarnate => avatar::avatar_incarnate_plan(),
        TenantRoute::AvatarGrant => avatar::avatar_grant_plan(),
        TenantRoute::AvatarAudit => avatar::avatar_audit_plan(),
        TenantRoute::AvatarMouldInfo => avatar::avatar_mould_info_plan(),
        TenantRoute::EventsStream => events_stream::events_stream_plan(),
        TenantRoute::LogsStream => logs_stream::logs_stream_plan(),
    }
}

/// Every route of the tenants is gated: nothing of a tenant is read or changed
/// before the bearer, the token, the scope and the admission have passed, and no
/// body is looked at before the scope, so that a caller without it learns nothing
/// of what its request would have met.
pub proof fn law_tenant_routes_are_gated(route: TenantRoute)
    ensures
        pipeline::gated(tenant_plan(route)),
{
    let p = tenant_plan(route);
    match route {
        TenantRoute::GetMolecule => pipeline::lemma_gated(p, 2, 3),
        TenantRoute::PostMolecule => pipeline::lemma_gated(p, 2, 7),
        TenantRoute::TagMolecule => pipeline::lemma_gated(p, 2, 7),
        TenantRoute::ListMolecules => pipeline::lemma_gated(p, 2, 3),
        TenantRoute::CollapseMolecule => pipeline::lemma_gated(p, 2, 5),
        TenantRoute::FreezeMolecule(_) => pipeline::lemma_gated(p, 2, 4),
        TenantRoute::StuckMolecule => pipeline::lemma_gated(p, 2, 5),
        TenantRoute::TackleMolecule => pipeline::lemma_gated(p, 3, 4),
        TenantRoute::RunMolecule => pipeline::lemma_gated(p, 3, 4),
        TenantRoute::DoneMolecule(_) => pipeline::lemma_gated(p, 2, 3),
        TenantRoute::GetResult => pipeline::lemma_gated(p, 2, 3),
        TenantRoute::GetQuota => pipeline::lemma_gated(p, 2, 3),
        TenantRoute::ListArtifacts => pipeline::lemma_gated(p, 2, 3),
        TenantRoute::FetchArtifact => pipeline::lemma_gated(p, 2, 3),
        TenantRoute::PushArtifact => pipeline::lemma_gated(p, 2, 3),
        TenantRoute::Converse => pipeline::lemma_gated(p, 2, 6),
        TenantRoute::Perceive => pipeline::lemma_gated(p, 2, 8),
        TenantRoute::AvatarStatus => pipeline::lemma_gated(p, 2, 3),
        TenantRoute::AvatarIncarnate => pipeline::lemma_gated(p, 2, 3),
        TenantRoute::AvatarGrant => pipeline::lemma_gated(p, 2, 3),
        TenantRoute::AvatarAudit => pipeline::lemma_gated(p, 2, 3),
        TenantRoute::AvatarMouldInfo => pipeline::lemma_gated(p, 2, 3),
        TenantRoute::EventsStream => pipeline::lemma_gated(p, 2, 3),
        TenantRoute::LogsStream => pipeline::lemma_gated(p, 2, 3),
    }
}

/// A molecule id that is malformed is answered like one that is absent, and so is
/// a tenant that has no directory where a molecule was named: no route tells the
/// three apart.
pub proof fn law_no_route_tells_what_exists(route: TenantRoute, i: int)
    requires
        0 <= i < tenant_plan(route).len(),
    ensures
        tenant_plan(route)[i] matches Stage::Check { fact, status, label, .. } ==> (fact == Fact::MoleculeIdValid ==> status
            == 404 && label@ == "not_found"@),
        tenant_plan(route)[i] matches Stage::Check { fact, status, label, .. } ==> (fact == Fact::TenantRootExists && (exists|
            k: int,
        |
            0 <= k < i && (#[trigger] tenant_plan(route)[k] matches Stage::Check { fact: f, .. } && f
                == Fact::MoleculeIdValid)) ==> status == 404 && label@ == "not_found"@),
        molecules::observe_answer(molecules::ObserveError::MoleculeNotFound) == (404u16, "not_found"@),
{
}

/// A worker is dispatched only for a caller that may both write molecules and
/// spawn workers, of a molecule whose recorded worker is not alive, and in a noyau
/// with fewer live workers than the ceiling.
pub proof fn law_dispatch_is_bounded(run: Run)
    requires
        run.wf(),
        run.plan() == molecules::tackle_molecule_plan(),
        run.here() == (Stage::Perform { effect: Effect::Dispatch }),
    ensures
        pipeline::was_allowed(run, ScopeRule::MoleculeWrite),
        pipeline::was_allowed(run, ScopeRule::WorkerSpawn),
        pipeline::has_shown(run, Fact::NoLiveWorker),
        pipeline::has_shown(run, Fact::BelowCeiling),
        run.id() is Some,
{
    assert(run.at() == 11);
    pipeline::law_no_stage_is_skipped(run, 2);
    pipeline::law_no_stage_is_skipped(run, 3);
    pipeline::law_no_stage_is_skipped(run, 4);
    pipeline::law_no_stage_is_skipped(run, 8);
    pipeline::law_no_stage_is_skipped(run, 10);
}

/// A drain is started only for a caller that may both write molecules and spawn
/// workers, and only where the slot of a noyau was free and was taken.
pub proof fn law_drains_take_the_slot(run: Run)
    requires
        run.wf(),
        run.plan() == molecules::run_molecule_plan(),
        run.here() == (Stage::Perform { effect: Effect::StartDrain }),
    ensures
        pipeline::was_allowed(run, ScopeRule::MoleculeWrite),
        pipeline::was_allowed(run, ScopeRule::WorkerSpawn),
        exists|noyau: Seq<char>| pipeline::took_slot(run, noyau),
{
    assert(run.at() == 8);
    pipeline::law_no_stage_is_skipped(run, 2);
    pipeline::law_no_stage_is_skipped(run, 3);
    pipeline::law_no_stage_is_skipped(run, 7);
}

/// What changes molecules.
pub open spec fn changes_molecules(effect: Effect) -> bool {
    match effect {
        Effect::Nucleate => true,
        Effect::Tag => true,
        Effect::Collapse => true,
        Effect::Freeze => true,
        Effect::Thaw => true,
        Effect::MarkStuck => true,
        Effect::Dispatch => true,
        Effect::StartDrain => true,
        Effect::Harvest => true,
        _ => false,
    }
}

/// No route of the tenants changes a molecule for a caller that may not write
/// molecules.
pub proof fn law_changes_need_the_write_scope(route: TenantRoute, run: Run, effect: Effect)
    requires
        run.wf(),
        run.plan() == tenant_plan(route),
        run.here() == (Stage::Perform { effect }),
        changes_molecules(effect),
    ensures
        pipeline::was_allowed(run, ScopeRule::MoleculeWrite),
{
    assert(run.plan()[run.at()] == (Stage::Perform { effect }));
    pipeline::law_no_stage_is_skipped(run, 2);
}

/// An upload is written only for a caller that may write artifacts, inside the
/// molecule's directory, where its bytes have the digest that it declares, and
/// where the file it would replace is the one that it names.
pub proof fn law_uploads_are_what_they_declare(run: Run)
    requires
        run.wf(),
        run.plan() == artifacts::push_artifact_plan(),
        run.here() matches Stage::Check { fact, .. } && fact == Fact::FileWritten,
    ensures
        pipeline::was_allowed(run, ScopeRule::ArtifactWrite),
        pipeline::has_shown(run, Fact::MoleculeSegmentSafe),
        pipeline::has_shown(run, Fact::NameSegmentSafe),
        pipeline::has_shown(run, Fact::DigestAgrees),
        pipeline::has_shown(run, Fact::IfMatchHolds),
{
    assert(run.at() == 9);
    pipeline::law_no_stage_is_skipped(run, 2);
    pipeline::law_no_stage_is_skipped(run, 4);
    pipeline::law_no_stage_is_skipped(run, 5);
    pipeline::law_no_stage_is_skipped(run, 7);
    pipeline::law_no_stage_is_skipped(run, 8);
}

/// A harvest is answered when it is done: never as merely accepted, with
/// escalation or without.
pub proof fn law_harvests_are_never_merely_accepted(escalates: bool)
    ensures
        molecules::done_molecule_plan(escalates).last() == (Stage::Answer { status: 200 }),
{
}

/// A harvest whose body asks for escalation is done only for a caller that may
/// spawn workers; one whose body does not asks for no right but to write
/// molecules.
pub proof fn law_escalation_needs_the_spawn_scope(body: molecules::DoneBody, run: Run)
    requires
        run.wf(),
        run.plan() == molecules::done_molecule_plan(body.escalates()),
        run.here() == (Stage::Perform { effect: Effect::Harvest }),
    ensures
        pipeline::was_allowed(run, ScopeRule::MoleculeWrite),
        body.escalates() ==> pipeline::was_allowed(run, ScopeRule::WorkerSpawn),
        !body.escalates() ==> forall|k: int|
            0 <= k < run.plan().len() ==> (#[trigger] run.plan()[k] matches Stage::Scope { rule, .. } ==> rule
                == ScopeRule::MoleculeWrite),
{
    pipeline::law_no_stage_is_skipped(run, 2);
    if body.escalates() {
        assert(run.at() == 11);
        pipeline::law_no_stage_is_skipped(run, 7);
    }
}

// ---------------------------------------------------------------------------
// Laws
// ---------------------------------------------------------------------------

/// Where the value of a preset line begins: behind the key, a blank and a quote.
pub open spec fn value_at(key: Seq<char>) -> int {
    ("\"$BIN_PATH\" --profile \"$PROFILE\" config set "@.len() + key.len() + 2) as int
}

/// No value can break out of its quotes: a preset line holds two single quotes,
/// and the value, the whole of it, stands between them.
pub proof fn law_preset_values_stay_quoted(key: Seq<char>, val: Seq<char>)
    requires
        presets(val),
        !key.contains('\''),
    ensures
        config_line(key, val).len() == value_at(key) + val.len() + 2,
        config_line(key, val).subrange(value_at(key), value_at(key) + val.len()) == val,
        forall|i: int|
            0 <= i < config_line(key, val).len() ==> (#[trigger] config_line(key, val)[i] == '\'' <==> i == value_at(key) - 1
                || i == value_at(key) + val.len()),
{
    reveal_strlit("\"$BIN_PATH\" --profile \"$PROFILE\" config set ");
    reveal_strlit(" '");
    reveal_strlit("'\n");
    let line = config_line(key, val);
    let head = "\"$BIN_PATH\" --profile \"$PROFILE\" config set "@;
    assert(line == head + key + " '"@ + val + "'\n"@);
    assert(line.subrange(value_at(key), value_at(key) + val.len()) =~= val);
    assert forall|i: int| 0 <= i < line.len() implies (#[trigger] line[i] == '\'' <==> i == value_at(key) - 1 || i
        == value_at(key) + val.len()) by {
        if i < head.len() {
            assert(line[i] == head[i]);
        } else if i < head.len() + key.len() {
            assert(line[i] == key[i - head.len()]);
        } else if value_at(key) <= i < value_at(key) + val.len() {
            assert(line[i] == val[i - value_at(key)]);
        }
    }
}

/// Text without the placeholder is served as it is.
pub proof fn law_templates_without_placeholder_are_untouched(s: Seq<char>, needle: Seq<char>, with: Seq<char>)
    requires
        needle.len() > 0,
        forall|i: int| 0 <= i <= s.len() ==> !text::starts_with(#[trigger] s.skip(i), needle),
    ensures
        replaced(s, needle, with) == s,
    decreases s.len(),
{
    if s.len() > 0 {
        assert(s.skip(0) =~= s);
        let t = s.skip(1);
        assert forall|i: int| 0 <= i <= t.len() implies !text::starts_with(#[trigger] t.skip(i), needle) by {
            assert(t.skip(i) =~= s.skip(i + 1));
        }
        law_templates_without_placeholder_are_untouched(t, needle, with);
        assert(seq![s[0]] + t =~= s);
    }
}

/// The scheme is the first that a proxy forwarded, without the space around it, and
/// plain HTTP where there is none.
pub proof fn law_schemes(first: Seq<char>, rest: Seq<char>)
    requires
        !first.contains(','),
    ensures
        scheme_of(None) == "http"@,
        text::trimmed(first).len() > 0 ==> scheme_of(Some(first)) == text::trimmed(first),
        text::trimmed(first).len() > 0 ==> scheme_of(Some(first + seq![','] + rest)) == text::trimmed(first),
        text::trimmed(first).len() == 0 ==> scheme_of(Some(first)) == "http"@,
        text::trimmed(first).len() == 0 ==> scheme_of(Some(first + seq![','] + rest)) == "http"@,
{
    text::law_splitting(first, ',', rest);
}

/// The address of the adapter is the scheme and the host that the client asked for,
/// which is this machine where it named none.
pub proof fn law_base_urls(host: Seq<char>, forwarded: Option<Seq<char>>)
    ensures
        base_url_of(Some(host), forwarded) == scheme_of(forwarded) + "://"@ + host,
        base_url_of(None, forwarded) == scheme_of(forwarded) + "://"@ + "localhost"@,
{
}

/// Every placeholder is replaced, from the left, and everything else stays.
pub proof fn law_placeholders_are_replaced(needle: Seq<char>, with: Seq<char>, s: Seq<char>)
    requires
        needle.len() > 0,
    ensures
        replaced(needle + s, needle, with) == with + replaced(s, needle, with),
        s.len() > 0 && !text::starts_with(s, needle) ==> replaced(s, needle, with) == seq![s[0]] + replaced(
            s.skip(1),
            needle,
            with,
        ),
        replaced(Seq::empty(), needle, with) == Seq::<char>::empty(),
{
    text::law_prefixes(s, needle, s);
    assert((needle + s).skip(needle.len() as int) =~= s);
}

/// A field is preset where it is set and can be quoted; one that is not set leaves
/// nothing, and one that cannot be quoted leaves a remark.
pub proof fn law_preset_lines(key: Seq<char>, val: Seq<char>)
    ensures
        config_line(key, Seq::empty()) == Seq::<char>::empty(),
        val.contains('\'') ==> config_line(key, val) == "# skipped "@ + key
            + ": value contains a single quote, set it manually\n"@,
        val.len() > 0 && !val.contains('\'') ==> config_line(key, val)
            == "\"$BIN_PATH\" --profile \"$PROFILE\" config set "@ + key + " '"@ + val + "'\n"@,
        presets(val) <==> val.len() > 0 && !val.contains('\''),
{
}

/// The four fields are preset in one order, and where none can be a remark says so.
pub proof fn law_preset_blocks(sub: Seq<char>, aud: Seq<char>, oidc_url: Seq<char>, noyau: Seq<char>)
    ensures
        presets(sub) || presets(aud) || presets(oidc_url) || presets(noyau) ==> config_block(sub, aud, oidc_url, noyau)
            == config_line("sub"@, sub) + config_line("aud"@, aud) + config_line("oidc-url"@, oidc_url) + config_line(
            "noyau"@,
            noyau,
        ),
        sub.len() == 0 && aud.len() == 0 && oidc_url.len() == 0 && noyau.len() == 0 ==> config_block(
            sub,
            aud,
            oidc_url,
            noyau,
        ) == "# (no per-deployment fields configured server-side — set sub/aud/oidc-url/noyau manually)\n"@,
{
    if sub.len() == 0 && aud.len() == 0 && oidc_url.len() == 0 && noyau.len() == 0 {
        let e = Seq::<char>::empty();
        let remark = "# (no per-deployment fields configured server-side — set sub/aud/oidc-url/noyau manually)\n"@;
        assert(e + e + e + e + remark =~= remark);
    } else {
        let lines = config_line("sub"@, sub) + config_line("aud"@, aud) + config_line("oidc-url"@, oidc_url) + config_line(
            "noyau"@,
            noyau,
        );
        assert(lines + Seq::<char>::empty() =~= lines);
    }
}

/// The install script is the template with the host put in, also in the address of
/// the identity provider, and with the preset lines.
pub proof fn law_install_scripts(template: Seq<char>, base: Seq<char>, t: InstallTemplating)
    ensures
        install_text(template, base, t) == replaced(
            replaced(template, "__COSMON_HOST__"@, base),
            "__COSMON_CONFIG_SET_BLOCK__"@,
            config_block(t.sub@, t.aud@, replaced(t.oidc_url@, "__COSMON_HOST__"@, base), t.noyau@),
        ),
{
}

/// A text that is there is seen.
pub proof fn law_optional_texts(s: &str)
    ensures
        view_of(Some(s)) == Some(s@),
        view_of(None) is None,
{
}

/// Making, tagging, ending, freezing, thawing, marking, dispatching, draining and
/// harvesting change molecules, and nothing else does.
pub proof fn law_what_changes_molecules(effect: Effect)
    ensures
        changes_molecules(effect) <==> (effect == Effect::Nucleate || effect == Effect::Tag || effect == Effect::Collapse
            || effect == Effect::Freeze || effect == Effect::Thaw || effect == Effect::MarkStuck || effect == Effect::Dispatch
            || effect == Effect::StartDrain || effect == Effect::Harvest),
{
}

} // verus!
