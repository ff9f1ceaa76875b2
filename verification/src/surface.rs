//! The surface: which path and method lead to which route, and which paths are
//! part of the frozen interface.

use vstd::prelude::*;
use crate::routes;
use crate::routes::replace_all;
use crate::text;
use crate::text::{has_prefix, same_text};

verus! {

/// The method of a request.
#[derive(Clone, Copy, Debug, PartialEq, Eq, Structural)]
pub enum Method {
    Get,
    Post,
    Put,
    Delete,
}

/// What answers a request.
#[derive(Clone, Copy, Debug, PartialEq, Eq, Structural)]
pub enum Handler {
    ListMolecules,
    GetMolecule,
    PostMolecule,
    TagMolecule,
    CollapseMolecule,
    FreezeMolecule,
    ThawGone,
    StuckMolecule,
    TackleMolecule,
    RunMolecule,
    ListArtifacts,
    FetchArtifact,
    PushArtifact,
    GetResult,
    LoginStart,
    LoginEmail,
    LoginSession,
    LoginForget,
    LoginConfirm,
    AuthMe,
    GetQuota,
    ListNoyaux,
    ProvisionHabilitation,
    ListHabilitations,
    RevokeHabilitation,
    ReloadHabilitations,
    Federate,
    ListFederations,
    DissolveFederation,
    RevokeFederationGalaxy,
    ListWorkers,
    Converse,
    Perceive,
    AvatarStatus,
    AvatarIncarnate,
    AvatarGrant,
    AvatarAudit,
    AvatarMouldInfo,
    EventsStream,
    LogsStream,
    Healthz,
    BackendsHealth,
    Metrics,
    Diagnostics,
    InstallScript,
    DistJustfile,
    DistDocument,
    DistBinary,
    OauthClients,
    RootLanding,
}

/// One line of the surface.
#[derive(Clone, Copy, Debug, PartialEq, Eq)]
pub struct RouteEntry {
    pub method: Method,
    pub path: &'static str,
    pub handler: Handler,
}

/// A row of the table.
#[verifier::allow_in_spec]
pub fn route(method: Method, path: &'static str, handler: Handler) -> RouteEntry
    returns
        (RouteEntry { method, path, handler }),
{
    RouteEntry { method, path, handler }
}

/// The surface, line by line. The tool surface under `/mcp` stands beside it.
pub open spec fn surface() -> Seq<RouteEntry> {
    seq![
        route(Method::Get, "/v1/molecules", Handler::ListMolecules),
        route(Method::Get, "/v1/molecules/{id}", Handler::GetMolecule),
        route(Method::Post, "/v1/molecules", Handler::PostMolecule),
        route(Method::Post, "/v1/molecules/{id}/tags", Handler::TagMolecule),
        route(Method::Post, "/v1/molecules/{id}/collapse", Handler::CollapseMolecule),
        route(Method::Post, "/v1/molecules/{id}/freeze", Handler::FreezeMolecule),
        route(Method::Post, "/v1/molecules/{id}/thaw", Handler::ThawGone),
        route(Method::Post, "/v1/molecules/{id}/stuck", Handler::StuckMolecule),
        route(Method::Post, "/v1/molecules/{id}/tackle", Handler::TackleMolecule),
        route(Method::Post, "/v1/molecules/{id}/run", Handler::RunMolecule),
        route(Method::Get, "/v1/molecules/{id}/artifacts", Handler::ListArtifacts),
        route(Method::Get, "/v1/molecules/{id}/artifacts/{token}", Handler::FetchArtifact),
        route(Method::Put, "/v1/molecules/{id}/artifacts/{token}", Handler::PushArtifact),
        route(Method::Get, "/v1/molecules/{id}/result", Handler::GetResult),
        route(Method::Post, "/v1/auth/{vendor}/start", Handler::LoginStart),
        route(Method::Post, "/v1/auth/{vendor}/email", Handler::LoginEmail),
        route(Method::Get, "/v1/auth/{vendor}/{session_id}", Handler::LoginSession),
        route(Method::Delete, "/v1/auth/{vendor}/{session_id}", Handler::LoginForget),
        route(Method::Post, "/v1/auth/{vendor}/confirm", Handler::LoginConfirm),
        route(Method::Get, "/v1/auth/me", Handler::AuthMe),
        route(Method::Get, "/v1/quota", Handler::GetQuota),
        route(Method::Get, "/v1/noyaux", Handler::ListNoyaux),
        route(Method::Post, "/v1/admin/habilitations", Handler::ProvisionHabilitation),
        route(Method::Get, "/v1/admin/habilitations", Handler::ListHabilitations),
        route(Method::Delete, "/v1/admin/habilitations/{id}", Handler::RevokeHabilitation),
        route(Method::Post, "/v1/admin/reload", Handler::ReloadHabilitations),
        route(Method::Post, "/v1/admin/federations", Handler::Federate),
        route(Method::Get, "/v1/admin/federations", Handler::ListFederations),
        route(Method::Delete, "/v1/admin/federations/{id}", Handler::DissolveFederation),
        route(Method::Delete, "/v1/admin/federations/{id}/galaxies/{galaxy}", Handler::RevokeFederationGalaxy),
        route(Method::Get, "/v1/workers", Handler::ListWorkers),
        route(Method::Post, "/v1/avatar/converse", Handler::Converse),
        route(Method::Post, "/v1/avatar/perceive", Handler::Perceive),
        route(Method::Get, "/v1/avatar/{instance_id}/status", Handler::AvatarStatus),
        route(Method::Post, "/v1/avatar/{instance_id}/incarnate", Handler::AvatarIncarnate),
        route(Method::Post, "/v1/avatar/{instance_id}/grant", Handler::AvatarGrant),
        route(Method::Get, "/v1/avatar/{instance_id}/audit", Handler::AvatarAudit),
        route(Method::Get, "/v1/avatar/{instance_id}/mould-info", Handler::AvatarMouldInfo),
        route(Method::Get, "/v1/events", Handler::EventsStream),
        route(Method::Get, "/v1/molecules/{id}/logs", Handler::LogsStream),
        route(Method::Get, "/healthz", Handler::Healthz),
        route(Method::Get, "/api/healthz", Handler::Healthz),
        route(Method::Get, "/health/backends", Handler::BackendsHealth),
        route(Method::Get, "/metrics", Handler::Metrics),
        route(Method::Get, "/diagnostics", Handler::Diagnostics),
        route(Method::Get, "/install.sh", Handler::InstallScript),
        route(Method::Get, "/dist/justfile", Handler::DistJustfile),
        route(Method::Get, "/dist/{document}", Handler::DistDocument),
        route(Method::Get, "/dist/binary/{platform}/cosmon-remote", Handler::DistBinary),
        route(Method::Get, "/.well-known/cosmon-oauth-clients", Handler::OauthClients),
        route(Method::Get, "/", Handler::RootLanding),
    ]
}

/// The surface, line by line.
pub fn route_table() -> (r: Vec<RouteEntry>)
    ensures
        r@ == surface(),
{
    vec![
        route(Method::Get, "/v1/molecules", Handler::ListMolecules),
        route(Method::Get, "/v1/molecules/{id}", Handler::GetMolecule),
        route(Method::Post, "/v1/molecules", Handler::PostMolecule),
        route(Method::Post, "/v1/molecules/{id}/tags", Handler::TagMolecule),
        route(Method::Post, "/v1/molecules/{id}/collapse", Handler::CollapseMolecule),
        route(Method::Post, "/v1/molecules/{id}/freeze", Handler::FreezeMolecule),
        route(Method::Post, "/v1/molecules/{id}/thaw", Handler::ThawGone),
        route(Method::Post, "/v1/molecules/{id}/stuck", Handler::StuckMolecule),
        route(Method::Post, "/v1/molecules/{id}/tackle", Handler::TackleMolecule),
        route(Method::Post, "/v1/molecules/{id}/run", Handler::RunMolecule),
        route(Method::Get, "/v1/molecules/{id}/artifacts", Handler::ListArtifacts),
        route(Method::Get, "/v1/molecules/{id}/artifacts/{token}", Handler::FetchArtifact),
        route(Method::Put, "/v1/molecules/{id}/artifacts/{token}", Handler::PushArtifact),
        route(Method::Get, "/v1/molecules/{id}/result", Handler::GetResult),
        route(Method::Post, "/v1/auth/{vendor}/start", Handler::LoginStart),
        route(Method::Post, "/v1/auth/{vendor}/email", Handler::LoginEmail),
        route(Method::Get, "/v1/auth/{vendor}/{session_id}", Handler::LoginSession),
        route(Method::Delete, "/v1/auth/{vendor}/{session_id}", Handler::LoginForget),
        route(Method::Post, "/v1/auth/{vendor}/confirm", Handler::LoginConfirm),
        route(Method::Get, "/v1/auth/me", Handler::AuthMe),
        route(Method::Get, "/v1/quota", Handler::GetQuota),
        route(Method::Get, "/v1/noyaux", Handler::ListNoyaux),
        route(Method::Post, "/v1/admin/habilitations", Handler::ProvisionHabilitation),
        route(Method::Get, "/v1/admin/habilitations", Handler::ListHabilitations),
        route(Method::Delete, "/v1/admin/habilitations/{id}", Handler::RevokeHabilitation),
        route(Method::Post, "/v1/admin/reload", Handler::ReloadHabilitations),
        route(Method::Post, "/v1/admin/federations", Handler::Federate),
        route(Method::Get, "/v1/admin/federations", Handler::ListFederations),
        route(Method::Delete, "/v1/admin/federations/{id}", Handler::DissolveFederation),
        route(Method::Delete, "/v1/admin/federations/{id}/galaxies/{galaxy}", Handler::RevokeFederationGalaxy),
        route(Method::Get, "/v1/workers", Handler::ListWorkers),
        route(Method::Post, "/v1/avatar/converse", Handler::Converse),
        route(Method::Post, "/v1/avatar/perceive", Handler::Perceive),
        route(Method::Get, "/v1/avatar/{instance_id}/status", Handler::AvatarStatus),
        route(Method::Post, "/v1/avatar/{instance_id}/incarnate", Handler::AvatarIncarnate),
        route(Method::Post, "/v1/avatar/{instance_id}/grant", Handler::AvatarGrant),
        route(Method::Get, "/v1/avatar/{instance_id}/audit", Handler::AvatarAudit),
        route(Method::Get, "/v1/avatar/{instance_id}/mould-info", Handler::AvatarMouldInfo),
        route(Method::Get, "/v1/events", Handler::EventsStream),
        route(Method::Get, "/v1/molecules/{id}/logs", Handler::LogsStream),
        route(Method::Get, "/healthz", Handler::Healthz),
        route(Method::Get, "/api/healthz", Handler::Healthz),
        route(Method::Get, "/health/backends", Handler::BackendsHealth),
        route(Method::Get, "/metrics", Handler::Metrics),
        route(Method::Get, "/diagnostics", Handler::Diagnostics),
        route(Method::Get, "/install.sh", Handler::InstallScript),
        route(Method::Get, "/dist/justfile", Handler::DistJustfile),
        route(Method::Get, "/dist/{document}", Handler::DistDocument),
        route(Method::Get, "/dist/binary/{platform}/cosmon-remote", Handler::DistBinary),
        route(Method::Get, "/.well-known/cosmon-oauth-clients", Handler::OauthClients),
        route(Method::Get, "/", Handler::RootLanding),
    ]
}

/// The path of a line with the deployment's own names in it: that of the vendor
/// whose login it serves, and that of the block for the tenant's agent.
pub open spec fn served_at(path: Seq<char>, vendor: Seq<char>, document: Seq<char>) -> Seq<char> {
    routes::replaced(routes::replaced(path, "{vendor}"@, vendor), "{document}"@, document)
}

/// The path under which a line is served. Every line is.
pub fn served_path(line: &RouteEntry, vendor: &str, document: &str) -> (r: String)
    ensures
        r@ == served_at(line.path@, vendor@, document@),
{
    proof {
        reveal_strlit("{vendor}");
        reveal_strlit("{document}");
    }
    let named = replace_all(line.path, "{vendor}", vendor);
    replace_all(named.as_str(), "{document}", document)
}

/// A path of the versioned interface.
pub open spec fn is_versioned(path: Seq<char>) -> bool {
    text::starts_with(path, "/v1/"@)
}

/// The list holds the path.
pub open spec fn holds_path(paths: Seq<&'static str>, path: Seq<char>) -> bool {
    exists|i: int| 0 <= i < paths.len() && (#[trigger] paths[i])@ == path
}

/// The texts of a list of paths.
pub open spec fn path_texts(paths: Seq<&'static str>) -> Seq<Seq<char>> {
    Seq::new(paths.len(), |i: int| paths[i]@)
}

/// The versioned paths of a surface in its order, each where it first stands.
pub open spec fn frozen_of(table: Seq<RouteEntry>) -> Seq<Seq<char>>
    decreases table.len(),
{
    if table.len() == 0 {
        Seq::empty()
    } else {
        let head = frozen_of(table.drop_last());
        let path = table.last().path@;
        if is_versioned(path) && !head.contains(path) {
            head.push(path)
        } else {
            head
        }
    }
}

fn path_is_listed(paths: &Vec<&'static str>, path: &str) -> (r: bool)
    ensures
        r == holds_path(paths@, path@),
        r == path_texts(paths@).contains(path@),
{
    let mut i: usize = 0;
    while i < paths.len()
        invariant
            i <= paths@.len(),
            forall|k: int| 0 <= k < i ==> (#[trigger] paths@[k])@ != path@,
        decreases paths@.len() - i,
    {
        if same_text(paths[i], path) {
            assert(path_texts(paths@)[i as int] == path@);
            return true;
        }
        i += 1;
    }
    false
}

/// The versioned paths of a surface, each once, in the order of the surface.
pub fn versioned_paths(table: &Vec<RouteEntry>) -> (r: Vec<&'static str>)
    ensures
        path_texts(r@) == frozen_of(table@),
        forall|p: Seq<char>| #[trigger]
            holds_path(r@, p) <==> is_versioned(p) && exists|i: int| 0 <= i < table@.len() && (#[trigger] table@[i]).path@ == p,
        forall|i: int, j: int| 0 <= i < j < r@.len() ==> (#[trigger] r@[i])@ != (#[trigger] r@[j])@,
{
    let mut out: Vec<&'static str> = Vec::new();
    let mut i: usize = 0;
    assert(table@.take(0) =~= Seq::<RouteEntry>::empty());
    assert(path_texts(out@) =~= frozen_of(table@.take(0)));
    while i < table.len()
        invariant
            i <= table@.len(),
            path_texts(out@) == frozen_of(table@.take(i as int)),
            forall|p: Seq<char>| #[trigger]
                holds_path(out@, p) <==> is_versioned(p) && exists|k: int| 0 <= k < i && (#[trigger] table@[k]).path@ == p,
            forall|a: int, b: int| 0 <= a < b < out@.len() ==> (#[trigger] out@[a])@ != (#[trigger] out@[b])@,
        decreases table@.len() - i,
    {
        let path: &'static str = table[i].path;
        let ghost before = out@;
        assert(table@.take(i + 1).drop_last() =~= table@.take(i as int));
        if has_prefix(path, "/v1/") && !path_is_listed(&out, path) {
            out.push(path);
            assert(path_texts(out@) =~= path_texts(before).push(path@));
            proof {
                assert forall|p: Seq<char>| #[trigger]
                    holds_path(out@, p) <==> is_versioned(p) && exists|k: int|
                        0 <= k < i + 1 && (#[trigger] table@[k]).path@ == p by {
                    if holds_path(out@, p) {
                        let a = choose|a: int| 0 <= a < out@.len() && (#[trigger] out@[a])@ == p;
                        if a < before.len() {
                            assert(before[a]@ == p);
                            assert(holds_path(before, p));
                        } else {
                            assert(table@[i as int].path@ == p);
                        }
                    }
                    if is_versioned(p) && exists|k: int| 0 <= k < i + 1 && (#[trigger] table@[k]).path@ == p {
                        if p == path@ {
                            assert(out@[before.len() as int]@ == p);
                        } else {
                            assert(holds_path(before, p));
                            let a = choose|a: int| 0 <= a < before.len() && (#[trigger] before[a])@ == p;
                            assert(out@[a]@ == p);
                        }
                    }
                }
                assert forall|a: int, b: int| 0 <= a < b < out@.len() implies (#[trigger] out@[a])@ != (
                #[trigger] out@[b])@ by {
                    if b == before.len() {
                        assert(before[a]@ != path@);
                    } else {
                        assert(before[a]@ != before[b]@);
                    }
                }
            }
        }
        i += 1;
    }
    assert(table@.take(i as int) =~= table@);
    out
}

/// The paths of the frozen interface: the versioned ones of the surface, each
/// once, in its order. Operational paths are none of them.
pub fn frozen_api_surface() -> (r: Vec<&'static str>)
    ensures
        path_texts(r@) == frozen_of(surface()),
        forall|p: Seq<char>| #[trigger]
            holds_path(r@, p) <==> is_versioned(p) && exists|i: int|
                0 <= i < surface().len() && (#[trigger] surface()[i]).path@ == p,
        forall|i: int, j: int| 0 <= i < j < r@.len() ==> (#[trigger] r@[i])@ != (#[trigger] r@[j])@,
{
    let table = route_table();
    versioned_paths(&table)
}

// ---------------------------------------------------------------------------
// Laws
// ---------------------------------------------------------------------------

/// Where a line stands in the surface, told from its method, the length of its path
/// and a character or two of it.
spec fn place(m: Method, p: Seq<char>) -> int {
    match m {
        Method::Get => if p.len() == 1 {
            50
        } else if p.len() == 8 {
            if p[1] == 'h' {
                40
            } else {
                43
            }
        } else if p.len() == 9 {
            20
        } else if p.len() == 10 {
            if p[4] == 'n' {
                21
            } else {
                38
            }
        } else if p.len() == 11 {
            if p[4] == 'a' {
                19
            } else if p[4] == 'w' {
                30
            } else {
                45
            }
        } else if p.len() == 12 {
            if p[1] == 'a' {
                41
            } else {
                44
            }
        } else if p.len() == 13 {
            0
        } else if p.len() == 14 {
            46
        } else if p.len() == 16 {
            if p[1] == 'h' {
                42
            } else {
                47
            }
        } else if p.len() == 18 {
            1
        } else if p.len() == 21 {
            27
        } else if p.len() == 23 {
            if p[4] == 'a' {
                23
            } else {
                39
            }
        } else if p.len() == 25 {
            13
        } else if p.len() == 28 {
            10
        } else if p.len() == 30 {
            if p[5] == 'u' {
                16
            } else {
                36
            }
        } else if p.len() == 31 {
            33
        } else if p.len() == 33 {
            49
        } else if p.len() == 35 {
            37
        } else if p.len() == 36 {
            11
        } else if p.len() == 37 {
            48
        } else {
            -1
        },
        Method::Post => if p.len() == 13 {
            2
        } else if p.len() == 16 {
            25
        } else if p.len() == 19 {
            if p[11] == 'c' {
                31
            } else {
                32
            }
        } else if p.len() == 21 {
            26
        } else if p.len() == 22 {
            9
        } else if p.len() == 23 {
            if p[21] == 'g' {
                3
            } else if p[21] == 'a' {
                6
            } else if p[21] == 'r' {
                14
            } else if p[21] == 'i' {
                15
            } else {
                22
            }
        } else if p.len() == 24 {
            7
        } else if p.len() == 25 {
            if p[19] == 'f' {
                5
            } else if p[19] == 't' {
                8
            } else {
                18
            }
        } else if p.len() == 27 {
            4
        } else if p.len() == 30 {
            35
        } else if p.len() == 34 {
            34
        } else {
            -1
        },
        Method::Put => if p.len() == 36 {
            12
        } else {
            -1
        },
        Method::Delete => if p.len() == 26 {
            28
        } else if p.len() == 28 {
            24
        } else if p.len() == 30 {
            17
        } else if p.len() == 44 {
            29
        } else {
            -1
        },
    }
}

#[verifier::rlimit(60)]
#[verifier::spinoff_prover]
proof fn lemma_places(i: int)
    requires
        0 <= i < surface().len(),
    ensures
        surface().len() == 51,
        place(surface()[i].method, surface()[i].path@) == i,
{
    reveal_strlit("/v1/molecules");
    reveal_strlit("/v1/molecules/{id}");
    reveal_strlit("/v1/molecules/{id}/tags");
    reveal_strlit("/v1/molecules/{id}/collapse");
    reveal_strlit("/v1/molecules/{id}/freeze");
    reveal_strlit("/v1/molecules/{id}/thaw");
    reveal_strlit("/v1/molecules/{id}/stuck");
    reveal_strlit("/v1/molecules/{id}/tackle");
    reveal_strlit("/v1/molecules/{id}/run");
    reveal_strlit("/v1/molecules/{id}/artifacts");
    reveal_strlit("/v1/molecules/{id}/artifacts/{token}");
    reveal_strlit("/v1/molecules/{id}/result");
    reveal_strlit("/v1/auth/{vendor}/start");
    reveal_strlit("/v1/auth/{vendor}/email");
    reveal_strlit("/v1/auth/{vendor}/{session_id}");
    reveal_strlit("/v1/auth/{vendor}/confirm");
    reveal_strlit("/v1/auth/me");
    reveal_strlit("/v1/quota");
    reveal_strlit("/v1/noyaux");
    reveal_strlit("/v1/admin/habilitations");
    reveal_strlit("/v1/admin/habilitations/{id}");
    reveal_strlit("/v1/admin/reload");
    reveal_strlit("/v1/admin/federations");
    reveal_strlit("/v1/admin/federations/{id}");
    reveal_strlit("/v1/admin/federations/{id}/galaxies/{galaxy}");
    reveal_strlit("/v1/workers");
    reveal_strlit("/v1/avatar/converse");
    reveal_strlit("/v1/avatar/perceive");
    reveal_strlit("/v1/avatar/{instance_id}/status");
    reveal_strlit("/v1/avatar/{instance_id}/incarnate");
    reveal_strlit("/v1/avatar/{instance_id}/grant");
    reveal_strlit("/v1/avatar/{instance_id}/audit");
    reveal_strlit("/v1/avatar/{instance_id}/mould-info");
    reveal_strlit("/v1/events");
    reveal_strlit("/v1/molecules/{id}/logs");
    reveal_strlit("/healthz");
    reveal_strlit("/api/healthz");
    reveal_strlit("/health/backends");
    reveal_strlit("/metrics");
    reveal_strlit("/diagnostics");
    reveal_strlit("/install.sh");
    reveal_strlit("/dist/justfile");
    reveal_strlit("/dist/{document}");
    reveal_strlit("/dist/binary/{platform}/cosmon-remote");
    reveal_strlit("/.well-known/cosmon-oauth-clients");
    reveal_strlit("/");
    assert(place(Method::Get, "/v1/molecules"@) == 0);
    assert(place(Method::Get, "/v1/molecules/{id}"@) == 1);
    assert(place(Method::Post, "/v1/molecules"@) == 2);
    assert(place(Method::Post, "/v1/molecules/{id}/tags"@) == 3);
    assert(place(Method::Post, "/v1/molecules/{id}/collapse"@) == 4);
    assert(place(Method::Post, "/v1/molecules/{id}/freeze"@) == 5);
    assert(place(Method::Post, "/v1/molecules/{id}/thaw"@) == 6);
    assert(place(Method::Post, "/v1/molecules/{id}/stuck"@) == 7);
    assert(place(Method::Post, "/v1/molecules/{id}/tackle"@) == 8);
    assert(place(Method::Post, "/v1/molecules/{id}/run"@) == 9);
    assert(place(Method::Get, "/v1/molecules/{id}/artifacts"@) == 10);
    assert(place(Method::Get, "/v1/molecules/{id}/artifacts/{token}"@) == 11);
    assert(place(Method::Put, "/v1/molecules/{id}/artifacts/{token}"@) == 12);
    assert(place(Method::Get, "/v1/molecules/{id}/result"@) == 13);
    assert(place(Method::Post, "/v1/auth/{vendor}/start"@) == 14);
    assert(place(Method::Post, "/v1/auth/{vendor}/email"@) == 15);
    assert(place(Method::Get, "/v1/auth/{vendor}/{session_id}"@) == 16);
    assert(place(Method::Delete, "/v1/auth/{vendor}/{session_id}"@) == 17);
    assert(place(Method::Post, "/v1/auth/{vendor}/confirm"@) == 18);
    assert(place(Method::Get, "/v1/auth/me"@) == 19);
    assert(place(Method::Get, "/v1/quota"@) == 20);
    assert(place(Method::Get, "/v1/noyaux"@) == 21);
    assert(place(Method::Post, "/v1/admin/habilitations"@) == 22);
    assert(place(Method::Get, "/v1/admin/habilitations"@) == 23);
    assert(place(Method::Delete, "/v1/admin/habilitations/{id}"@) == 24);
    assert(place(Method::Post, "/v1/admin/reload"@) == 25);
    assert(place(Method::Post, "/v1/admin/federations"@) == 26);
    assert(place(Method::Get, "/v1/admin/federations"@) == 27);
    assert(place(Method::Delete, "/v1/admin/federations/{id}"@) == 28);
    assert(place(Method::Delete, "/v1/admin/federations/{id}/galaxies/{galaxy}"@) == 29);
    assert(place(Method::Get, "/v1/workers"@) == 30);
    assert(place(Method::Post, "/v1/avatar/converse"@) == 31);
    assert(place(Method::Post, "/v1/avatar/perceive"@) == 32);
    assert(place(Method::Get, "/v1/avatar/{instance_id}/status"@) == 33);
    assert(place(Method::Post, "/v1/avatar/{instance_id}/incarnate"@) == 34);
    assert(place(Method::Post, "/v1/avatar/{instance_id}/grant"@) == 35);
    assert(place(Method::Get, "/v1/avatar/{instance_id}/audit"@) == 36);
    assert(place(Method::Get, "/v1/avatar/{instance_id}/mould-info"@) == 37);
    assert(place(Method::Get, "/v1/events"@) == 38);
    assert(place(Method::Get, "/v1/molecules/{id}/logs"@) == 39);
    assert(place(Method::Get, "/healthz"@) == 40);
    assert(place(Method::Get, "/api/healthz"@) == 41);
    assert(place(Method::Get, "/health/backends"@) == 42);
    assert(place(Method::Get, "/metrics"@) == 43);
    assert(place(Method::Get, "/diagnostics"@) == 44);
    assert(place(Method::Get, "/install.sh"@) == 45);
    assert(place(Method::Get, "/dist/justfile"@) == 46);
    assert(place(Method::Get, "/dist/{document}"@) == 47);
    assert(place(Method::Get, "/dist/binary/{platform}/cosmon-remote"@) == 48);
    assert(place(Method::Get, "/.well-known/cosmon-oauth-clients"@) == 49);
    assert(place(Method::Get, "/"@) == 50);
}

/// No two lines of the surface share their method and path.
pub proof fn law_lines_differ_in_method_or_path(i: int, j: int)
    requires
        0 <= i < j < surface().len(),
    ensures
        surface()[i].method != surface()[j].method || surface()[i].path@ != surface()[j].path@,
{
    lemma_places(i);
    lemma_places(j);
}

/// There is a line with the method and the path, and it leads to the handler, and
/// no line with them leads anywhere else.
pub open spec fn leads_to(method: Method, path: Seq<char>, handler: Handler) -> bool {
    &&& exists|i: int|
        0 <= i < surface().len() && (#[trigger] surface()[i]).method == method && surface()[i].path@ == path
    &&& forall|i: int|
        0 <= i < surface().len() && (#[trigger] surface()[i]).method == method && surface()[i].path@ == path
            ==> surface()[i].handler == handler
}

proof fn lemma_leads(k: int)
    requires
        0 <= k < surface().len(),
    ensures
        leads_to(surface()[k].method, surface()[k].path@, surface()[k].handler),
{
    assert forall|i: int|
        0 <= i < surface().len() && (#[trigger] surface()[i]).method == surface()[k].method && surface()[i].path@
            == surface()[k].path@ implies surface()[i].handler == surface()[k].handler by {
        lemma_places(i);
        lemma_places(k);
    }
}

/// Every method and path leads to what it is named for, and to nothing else.
#[verifier::rlimit(60)]
pub proof fn law_paths_lead_to_their_handlers()
    ensures
        leads_to(Method::Get, "/v1/molecules"@, Handler::ListMolecules),
        leads_to(Method::Get, "/v1/molecules/{id}"@, Handler::GetMolecule),
        leads_to(Method::Post, "/v1/molecules"@, Handler::PostMolecule),
        leads_to(Method::Post, "/v1/molecules/{id}/tags"@, Handler::TagMolecule),
        leads_to(Method::Post, "/v1/molecules/{id}/collapse"@, Handler::CollapseMolecule),
        leads_to(Method::Post, "/v1/molecules/{id}/freeze"@, Handler::FreezeMolecule),
        leads_to(Method::Post, "/v1/molecules/{id}/thaw"@, Handler::ThawGone),
        leads_to(Method::Post, "/v1/molecules/{id}/stuck"@, Handler::StuckMolecule),
        leads_to(Method::Post, "/v1/molecules/{id}/tackle"@, Handler::TackleMolecule),
        leads_to(Method::Post, "/v1/molecules/{id}/run"@, Handler::RunMolecule),
        leads_to(Method::Get, "/v1/molecules/{id}/artifacts"@, Handler::ListArtifacts),
        leads_to(Method::Get, "/v1/molecules/{id}/artifacts/{token}"@, Handler::FetchArtifact),
        leads_to(Method::Put, "/v1/molecules/{id}/artifacts/{token}"@, Handler::PushArtifact),
        leads_to(Method::Get, "/v1/molecules/{id}/result"@, Handler::GetResult),
        leads_to(Method::Post, "/v1/auth/{vendor}/start"@, Handler::LoginStart),
        leads_to(Method::Post, "/v1/auth/{vendor}/email"@, Handler::LoginEmail),
        leads_to(Method::Get, "/v1/auth/{vendor}/{session_id}"@, Handler::LoginSession),
        leads_to(Method::Delete, "/v1/auth/{vendor}/{session_id}"@, Handler::LoginForget),
        leads_to(Method::Post, "/v1/auth/{vendor}/confirm"@, Handler::LoginConfirm),
        leads_to(Method::Get, "/v1/auth/me"@, Handler::AuthMe),
        leads_to(Method::Get, "/v1/quota"@, Handler::GetQuota),
        leads_to(Method::Get, "/v1/noyaux"@, Handler::ListNoyaux),
        leads_to(Method::Post, "/v1/admin/habilitations"@, Handler::ProvisionHabilitation),
        leads_to(Method::Get, "/v1/admin/habilitations"@, Handler::ListHabilitations),
        leads_to(Method::Delete, "/v1/admin/habilitations/{id}"@, Handler::RevokeHabilitation),
        leads_to(Method::Post, "/v1/admin/reload"@, Handler::ReloadHabilitations),
        leads_to(Method::Post, "/v1/admin/federations"@, Handler::Federate),
        leads_to(Method::Get, "/v1/admin/federations"@, Handler::ListFederations),
        leads_to(Method::Delete, "/v1/admin/federations/{id}"@, Handler::DissolveFederation),
        leads_to(Method::Delete, "/v1/admin/federations/{id}/galaxies/{galaxy}"@, Handler::RevokeFederationGalaxy),
        leads_to(Method::Get, "/v1/workers"@, Handler::ListWorkers),
        leads_to(Method::Post, "/v1/avatar/converse"@, Handler::Converse),
        leads_to(Method::Post, "/v1/avatar/perceive"@, Handler::Perceive),
        leads_to(Method::Get, "/v1/avatar/{instance_id}/status"@, Handler::AvatarStatus),
        leads_to(Method::Post, "/v1/avatar/{instance_id}/incarnate"@, Handler::AvatarIncarnate),
        leads_to(Method::Post, "/v1/avatar/{instance_id}/grant"@, Handler::AvatarGrant),
        leads_to(Method::Get, "/v1/avatar/{instance_id}/audit"@, Handler::AvatarAudit),
        leads_to(Method::Get, "/v1/avatar/{instance_id}/mould-info"@, Handler::AvatarMouldInfo),
        leads_to(Method::Get, "/v1/events"@, Handler::EventsStream),
        leads_to(Method::Get, "/v1/molecules/{id}/logs"@, Handler::LogsStream),
        leads_to(Method::Get, "/healthz"@, Handler::Healthz),
        leads_to(Method::Get, "/api/healthz"@, Handler::Healthz),
        leads_to(Method::Get, "/health/backends"@, Handler::BackendsHealth),
        leads_to(Method::Get, "/metrics"@, Handler::Metrics),
        leads_to(Method::Get, "/diagnostics"@, Handler::Diagnostics),
        leads_to(Method::Get, "/install.sh"@, Handler::InstallScript),
        leads_to(Method::Get, "/dist/justfile"@, Handler::DistJustfile),
        leads_to(Method::Get, "/dist/{document}"@, Handler::DistDocument),
        leads_to(Method::Get, "/dist/binary/{platform}/cosmon-remote"@, Handler::DistBinary),
        leads_to(Method::Get, "/.well-known/cosmon-oauth-clients"@, Handler::OauthClients),
        leads_to(Method::Get, "/"@, Handler::RootLanding),
        surface().len() == 51,
{
    lemma_leads(0);
    lemma_leads(1);
    lemma_leads(2);
    lemma_leads(3);
    lemma_leads(4);
    lemma_leads(5);
    lemma_leads(6);
    lemma_leads(7);
    lemma_leads(8);
    lemma_leads(9);
    lemma_leads(10);
    lemma_leads(11);
    lemma_leads(12);
    lemma_leads(13);
    lemma_leads(14);
    lemma_leads(15);
    lemma_leads(16);
    lemma_leads(17);
    lemma_leads(18);
    lemma_leads(19);
    lemma_leads(20);
    lemma_leads(21);
    lemma_leads(22);
    lemma_leads(23);
    lemma_leads(24);
    lemma_leads(25);
    lemma_leads(26);
    lemma_leads(27);
    lemma_leads(28);
    lemma_leads(29);
    lemma_leads(30);
    lemma_leads(31);
    lemma_leads(32);
    lemma_leads(33);
    lemma_leads(34);
    lemma_leads(35);
    lemma_leads(36);
    lemma_leads(37);
    lemma_leads(38);
    lemma_leads(39);
    lemma_leads(40);
    lemma_leads(41);
    lemma_leads(42);
    lemma_leads(43);
    lemma_leads(44);
    lemma_leads(45);
    lemma_leads(46);
    lemma_leads(47);
    lemma_leads(48);
    lemma_leads(49);
    lemma_leads(50);
}

/// What is frozen are the paths that begin with the version, and no others.
pub proof fn law_versioned_paths_begin_with_the_version(path: Seq<char>)
    ensures
        is_versioned(path) <==> path.len() >= 4 && path[0] == '/' && path[1] == 'v' && path[2] == '1' && path[3] == '/',
{
    reveal_strlit("/v1/");
    if path.len() >= 4 {
        if path[0] == '/' && path[1] == 'v' && path[2] == '1' && path[3] == '/' {
            assert(path.take(4) =~= "/v1/"@);
        }
        if is_versioned(path) {
            assert(path.take(4)[0] == '/' && path.take(4)[1] == 'v' && path.take(4)[2] == '1' && path.take(4)[3] == '/');
        }
    }
}

/// The frozen paths stand in the order of the table: what a part of the table gives
/// stands before what the rest adds.
pub proof fn law_frozen_paths_keep_their_order(table: Seq<RouteEntry>, line: RouteEntry)
    ensures
        frozen_of(Seq::empty()).len() == 0,
        is_versioned(line.path@) && !(exists|i: int| 0 <= i < table.len() && (#[trigger] table[i]).path@ == line.path@)
            ==> frozen_of(table.push(line)) == frozen_of(table).push(line.path@),
        !is_versioned(line.path@) ==> frozen_of(table.push(line)) == frozen_of(table),
        (exists|i: int| 0 <= i < table.len() && (#[trigger] table[i]).path@ == line.path@) ==> frozen_of(table.push(line))
            == frozen_of(table),
{
    assert(table.push(line).drop_last() =~= table);
    lemma_frozen(table, line.path@);
}

proof fn lemma_frozen(table: Seq<RouteEntry>, path: Seq<char>)
    ensures
        frozen_of(table).contains(path) <==> is_versioned(path) && exists|i: int|
            0 <= i < table.len() && (#[trigger] table[i]).path@ == path,
    decreases table.len(),
{
    if table.len() > 0 {
        let rest = table.drop_last();
        let head = frozen_of(rest);
        lemma_frozen(rest, path);
        assert(table[table.len() - 1] == table.last());
        if head.contains(path) {
            let i = choose|i: int| 0 <= i < rest.len() && (#[trigger] rest[i]).path@ == path;
            assert(table[i].path@ == path);
            let k = choose|k: int| 0 <= k < head.len() && head[k] == path;
            assert(head.push(table.last().path@)[k] == path);
        }
        assert(head.push(table.last().path@)[head.len() as int] == table.last().path@);
        if frozen_of(table).contains(path) && !head.contains(path) {
            let k = choose|k: int| 0 <= k < frozen_of(table).len() && frozen_of(table)[k] == path;
            if k < head.len() {
                assert(head[k] == path);
            }
        }
        if is_versioned(path) && exists|i: int| 0 <= i < table.len() && (#[trigger] table[i]).path@ == path {
            let i = choose|i: int| 0 <= i < table.len() && (#[trigger] table[i]).path@ == path;
            if i < rest.len() {
                assert(rest[i].path@ == path);
            }
        }
    }
}

/// Every line is served under its path, with the vendor and the document in place of
/// what stands for them.
pub proof fn law_served_paths(path: Seq<char>, vendor: Seq<char>, document: Seq<char>)
    ensures
        served_at(path, vendor, document) == routes::replaced(
            routes::replaced(path, "{vendor}"@, vendor),
            "{document}"@,
            document,
        ),
{
}

/// A list holds a path where one of its texts is it.
pub proof fn law_listed_paths(paths: Seq<&'static str>, path: Seq<char>, i: int)
    ensures
        holds_path(paths, path) <==> exists|k: int| 0 <= k < paths.len() && (#[trigger] paths[k])@ == path,
        path_texts(paths).len() == paths.len(),
        0 <= i < paths.len() ==> path_texts(paths)[i] == paths[i]@,
{
}

} // verus!
