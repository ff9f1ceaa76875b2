//! The scopes a caller can hold, and whether it may do what it asks.

use vstd::prelude::*;
use crate::error;
use crate::error::ApiError;
use crate::jwt::ValidatedJwt;
use crate::nucleon_map;
use crate::nucleon_map::HabilitationMap;
use crate::text;
use crate::text::list_contains;

verus! {

pub const MOLECULE_READ: &'static str = "cosmon:molecule:read";

pub const MOLECULE_WRITE: &'static str = "cosmon:molecule:write";

pub const WORKER_SPAWN: &'static str = "cosmon:worker:spawn";

pub const ARTIFACT_READ: &'static str = "cosmon:artifact:read";

pub const ARTIFACT_WRITE: &'static str = "cosmon:artifact:write";

pub const EVENTS_SUBSCRIBE: &'static str = "cosmon:events:subscribe";

pub const LOGS_SUBSCRIBE: &'static str = "cosmon:logs:subscribe";

pub const PILOTE_CONVERSE: &'static str = "cosmon:pilote:converse";

pub const WORLD_OBSERVE: &'static str = "cosmon:world:observe";

/// What a route asks of its caller.
#[derive(Clone, Copy, Debug, PartialEq, Eq, Structural)]
pub enum ScopeRule {
    /// To read molecules; the scope to write them is enough.
    MoleculeRead,
    MoleculeWrite,
    WorkerSpawn,
    ArtifactRead,
    ArtifactWrite,
    EventsSubscribe,
    LogsSubscribe,
    PiloteConverse,
    WorldObserve,
}

/// The scope that the decision is recorded under.
pub open spec fn audited_scope(rule: ScopeRule) -> Seq<char> {
    match rule {
        ScopeRule::MoleculeRead => "cosmon:molecule:read"@,
        ScopeRule::MoleculeWrite => "cosmon:molecule:write"@,
        ScopeRule::WorkerSpawn => "cosmon:worker:spawn"@,
        ScopeRule::ArtifactRead => "cosmon:artifact:read"@,
        ScopeRule::ArtifactWrite => "cosmon:artifact:write"@,
        ScopeRule::EventsSubscribe => "cosmon:events:subscribe"@,
        ScopeRule::LogsSubscribe => "cosmon:logs:subscribe"@,
        ScopeRule::PiloteConverse => "cosmon:pilote:converse"@,
        ScopeRule::WorldObserve => "cosmon:world:observe"@,
    }
}

/// The scopes that satisfy the rule: the one it is recorded under, and for
/// reading molecules also the scope to write them.
pub open spec fn satisfies(rule: ScopeRule, scope: Seq<char>) -> bool {
    scope == audited_scope(rule) || (rule == ScopeRule::MoleculeRead && scope == "cosmon:molecule:write"@)
}

impl ScopeRule {
    /// The scope under which the decision is recorded.
    pub fn audited(self) -> (r: &'static str)
        ensures
            r@ == audited_scope(self),
    {
        match self {
            ScopeRule::MoleculeRead => MOLECULE_READ,
            ScopeRule::MoleculeWrite => MOLECULE_WRITE,
            ScopeRule::WorkerSpawn => WORKER_SPAWN,
            ScopeRule::ArtifactRead => ARTIFACT_READ,
            ScopeRule::ArtifactWrite => ARTIFACT_WRITE,
            ScopeRule::EventsSubscribe => EVENTS_SUBSCRIBE,
            ScopeRule::LogsSubscribe => LOGS_SUBSCRIBE,
            ScopeRule::PiloteConverse => PILOTE_CONVERSE,
            ScopeRule::WorldObserve => WORLD_OBSERVE,
        }
    }
}

/// Where a grant came from.
#[derive(Clone, Copy, Debug, PartialEq, Eq, Structural)]
pub enum GrantSource {
    /// The token itself.
    Jwt,
    /// The binding that the token's claims resolve to.
    Binding,
}

pub open spec fn source_name(s: GrantSource) -> Seq<char> {
    match s {
        GrantSource::Jwt => "jwt"@,
        GrantSource::Binding => "binding"@,
    }
}

impl GrantSource {
    /// The word for where a grant came from.
    pub fn as_str(self) -> (r: &'static str)
        ensures
            r@ == source_name(self),
    {
        match self {
            GrantSource::Jwt => "jwt",
            GrantSource::Binding => "binding",
        }
    }
}

/// Some scope of the list satisfies the rule.
pub open spec fn grants(scopes: Seq<Seq<char>>, rule: ScopeRule) -> bool {
    exists|i: int| 0 <= i < scopes.len() && satisfies(rule, #[trigger] scopes[i])
}

/// Where the right comes from: the token first, then the binding; none where
/// neither grants it.
pub open spec fn decision(token_scopes: Seq<Seq<char>>, binding_scopes: Seq<Seq<char>>, rule: ScopeRule) -> Option<
    GrantSource,
> {
    if grants(token_scopes, rule) {
        Some(GrantSource::Jwt)
    } else if grants(binding_scopes, rule) {
        Some(GrantSource::Binding)
    } else {
        None
    }
}

fn any_granted(scopes: &Vec<String>, rule: ScopeRule) -> (r: bool)
    ensures
        r == grants(text::views(scopes@), rule),
{
    let ghost all = text::views(scopes@);
    let direct = list_contains(scopes, rule.audited());
    proof {
        if direct {
            let i = choose|i: int| 0 <= i < scopes@.len() && #[trigger] scopes@[i]@ == audited_scope(rule);
            assert(satisfies(rule, all[i]));
        }
    }
    if direct {
        return true;
    }
    let implied = match rule {
        ScopeRule::MoleculeRead => list_contains(scopes, MOLECULE_WRITE),
        _ => false,
    };
    proof {
        if implied {
            let i = choose|i: int| 0 <= i < scopes@.len() && #[trigger] scopes@[i]@ == "cosmon:molecule:write"@;
            assert(satisfies(rule, all[i]));
        } else if grants(all, rule) {
            let i = choose|i: int| 0 <= i < all.len() && satisfies(rule, #[trigger] all[i]);
            assert(scopes@[i]@ == all[i]);
        }
    }
    implied
}

/// Where the right comes from, by what the token carries and what its binding
/// grants.
pub fn effective_scope_decision(jwt: &ValidatedJwt, binding_scopes: &Vec<String>, rule: ScopeRule) -> (r: Option<
    GrantSource,
>)
    ensures
        r == decision(text::views(jwt.scopes@), text::views(binding_scopes@), rule),
{
    if any_granted(&jwt.scopes, rule) {
        Some(GrantSource::Jwt)
    } else if any_granted(binding_scopes, rule) {
        Some(GrantSource::Binding)
    } else {
        None
    }
}

/// Tells whether a token may do what the rule asks: by its own scopes, or by
/// those of the binding of exactly its claim triple. The refusal is the same for
/// every rule.
pub fn authorise_scope(map: &HabilitationMap, jwt: &ValidatedJwt, rule: ScopeRule) -> (r: Result<
    GrantSource,
    ApiError,
>)
    requires
        map.wf(),
    ensures
        ({
            let d = decision(
                text::views(jwt.scopes@),
                nucleon_map::scopes_of(nucleon_map::triple_binding(map.bindings(), jwt.iss@, jwt.sub@, jwt.aud@)),
                rule,
            );
            match r {
                Ok(source) => d == Some(source),
                Err(e) => d is None && error::says(e, 403, "forbidden"@) && e.request_id is None,
            }
        }),
{
    let granted = map.allowed_scopes_for_audience(jwt.iss.as_str(), jwt.sub.as_str(), jwt.aud.as_str());
    match effective_scope_decision(jwt, &granted, rule) {
        Some(source) => Ok(source),
        None => Err(ApiError::with_status(403, "forbidden")),
    }
}

// ---------------------------------------------------------------------------
// Laws
// ---------------------------------------------------------------------------

/// Whoever may write molecules may read them.
pub proof fn law_write_implies_read(scopes: Seq<Seq<char>>)
    requires
        grants(scopes, ScopeRule::MoleculeWrite),
    ensures
        grants(scopes, ScopeRule::MoleculeRead),
{
    let i = choose|i: int| 0 <= i < scopes.len() && satisfies(ScopeRule::MoleculeWrite, #[trigger] scopes[i]);
    assert(satisfies(ScopeRule::MoleculeRead, scopes[i]));
}

/// The right to write molecules does not carry the right to spawn workers, nor
/// the right to read molecules that to read artifacts.
pub proof fn law_spawn_is_granted_by_name_only(scope: Seq<char>)
    ensures
        satisfies(ScopeRule::WorkerSpawn, scope) <==> scope == "cosmon:worker:spawn"@,
        satisfies(ScopeRule::ArtifactRead, scope) <==> scope == "cosmon:artifact:read"@,
        !satisfies(ScopeRule::WorkerSpawn, "cosmon:molecule:write"@),
        !satisfies(ScopeRule::ArtifactRead, "cosmon:molecule:read"@),
{
    reveal_strlit("cosmon:worker:spawn");
    reveal_strlit("cosmon:molecule:write");
    reveal_strlit("cosmon:artifact:read");
    reveal_strlit("cosmon:molecule:read");
    assert("cosmon:worker:spawn"@[7] != "cosmon:molecule:write"@[7]);
    assert("cosmon:artifact:read"@[7] != "cosmon:molecule:read"@[7]);
}

/// A binding can only add rights: whatever the token alone may do, it may do with
/// any binding, and the grant is then recorded as the token's.
pub proof fn law_bindings_only_add(token_scopes: Seq<Seq<char>>, binding_scopes: Seq<Seq<char>>, rule: ScopeRule)
    requires
        decision(token_scopes, Seq::empty(), rule) is Some,
    ensures
        decision(token_scopes, binding_scopes, rule) == Some(GrantSource::Jwt),
{
}

/// The name of each right, as tokens and bindings carry it and as it is recorded.
pub proof fn law_rights_have_their_names()
    ensures
        audited_scope(ScopeRule::MoleculeRead) == "cosmon:molecule:read"@,
        audited_scope(ScopeRule::MoleculeWrite) == "cosmon:molecule:write"@,
        audited_scope(ScopeRule::WorkerSpawn) == "cosmon:worker:spawn"@,
        audited_scope(ScopeRule::ArtifactRead) == "cosmon:artifact:read"@,
        audited_scope(ScopeRule::ArtifactWrite) == "cosmon:artifact:write"@,
        audited_scope(ScopeRule::EventsSubscribe) == "cosmon:events:subscribe"@,
        audited_scope(ScopeRule::LogsSubscribe) == "cosmon:logs:subscribe"@,
        audited_scope(ScopeRule::PiloteConverse) == "cosmon:pilote:converse"@,
        audited_scope(ScopeRule::WorldObserve) == "cosmon:world:observe"@,
        source_name(GrantSource::Jwt) == "jwt"@,
        source_name(GrantSource::Binding) == "binding"@,
{
}

/// A list of scopes grants a right exactly where it holds the right's own name, or
/// that of writing molecules where they are only to be read.
pub proof fn law_rights_are_granted_by_name(scopes: Seq<Seq<char>>)
    ensures
        grants(scopes, ScopeRule::MoleculeRead) <==> scopes.contains("cosmon:molecule:read"@) || scopes.contains(
            "cosmon:molecule:write"@,
        ),
        grants(scopes, ScopeRule::MoleculeWrite) <==> scopes.contains("cosmon:molecule:write"@),
        grants(scopes, ScopeRule::WorkerSpawn) <==> scopes.contains("cosmon:worker:spawn"@),
        grants(scopes, ScopeRule::ArtifactRead) <==> scopes.contains("cosmon:artifact:read"@),
        grants(scopes, ScopeRule::ArtifactWrite) <==> scopes.contains("cosmon:artifact:write"@),
        grants(scopes, ScopeRule::EventsSubscribe) <==> scopes.contains("cosmon:events:subscribe"@),
        grants(scopes, ScopeRule::LogsSubscribe) <==> scopes.contains("cosmon:logs:subscribe"@),
        grants(scopes, ScopeRule::PiloteConverse) <==> scopes.contains("cosmon:pilote:converse"@),
        grants(scopes, ScopeRule::WorldObserve) <==> scopes.contains("cosmon:world:observe"@),
{
    assert forall|rule: ScopeRule| #[trigger]
        grants(scopes, rule) <==> scopes.contains(audited_scope(rule)) || (rule == ScopeRule::MoleculeRead
            && scopes.contains("cosmon:molecule:write"@)) by {
        if grants(scopes, rule) {
            let i = choose|i: int| 0 <= i < scopes.len() && satisfies(rule, #[trigger] scopes[i]);
            assert(scopes.contains(scopes[i]));
        }
        if scopes.contains(audited_scope(rule)) {
            let i = choose|i: int| 0 <= i < scopes.len() && scopes[i] == audited_scope(rule);
            assert(satisfies(rule, scopes[i]));
        }
        if rule == ScopeRule::MoleculeRead && scopes.contains("cosmon:molecule:write"@) {
            let i = choose|i: int| 0 <= i < scopes.len() && scopes[i] == "cosmon:molecule:write"@;
            assert(satisfies(rule, scopes[i]));
        }
    }
}

/// The token is asked first and the binding only where the token does not grant the
/// right; a caller to whom neither grants it is refused.
pub proof fn law_token_before_binding(token_scopes: Seq<Seq<char>>, binding_scopes: Seq<Seq<char>>, rule: ScopeRule)
    ensures
        decision(token_scopes, binding_scopes, rule) == Some(GrantSource::Jwt) <==> grants(token_scopes, rule),
        decision(token_scopes, binding_scopes, rule) == Some(GrantSource::Binding) <==> !grants(token_scopes, rule) && grants(
            binding_scopes,
            rule,
        ),
        decision(token_scopes, binding_scopes, rule) is None <==> !grants(token_scopes, rule) && !grants(
            binding_scopes,
            rule,
        ),
{
}

} // verus!
