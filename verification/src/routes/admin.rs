//! The operator's routes: bindings, federations and reloads, behind the host-side
//! seal.

use vstd::prelude::*;
use crate::error;
use crate::error::ApiError;
use crate::nucleon_map::HabilitationBindingSpec;
use crate::pipeline;
use crate::pipeline::{early_check, Effect, Fact, Run, Stage};
use crate::portee::{PartnerIdentity, PorteeSpec};
use crate::provisioner::ProvisionOutcome;
use crate::reload::ReloadOutcome;
use crate::text::concat;

verus! {

/// The claim triple that a binding is pinned to.
#[derive(Clone, Debug)]
pub struct OidcBody {
    pub issuer: String,
    pub sub: String,
    pub audience: String,
}

/// The body of `POST /v1/admin/habilitations`.
#[derive(Clone, Debug)]
pub struct ProvisionHabilitationBody {
    pub noyau: String,
    pub habilitation_id: Option<String>,
    pub oidc: OidcBody,
    pub scopes: Vec<String>,
    pub create_noyau: bool,
}

/// A noyau is made where it is missing, unless the body says otherwise.
pub fn default_true() -> (r: bool)
    ensures
        r,
{
    true
}

/// The binding that a body asks for, and whether its noyau is to be made.
pub fn binding_spec(body: ProvisionHabilitationBody) -> (r: (HabilitationBindingSpec, bool))
    ensures
        r.0.noyau == body.noyau,
        r.0.sub == body.oidc.sub,
        r.0.issuer == body.oidc.issuer,
        r.0.audience == body.oidc.audience,
        r.0.nucleon_id == body.habilitation_id,
        r.0.phase is None,
        r.0.scopes == body.scopes,
        r.0.sealed_at is None,
        r.1 == body.create_noyau,
{
    (
        HabilitationBindingSpec {
            noyau: body.noyau,
            sub: body.oidc.sub,
            issuer: body.oidc.issuer,
            audience: body.oidc.audience,
            nucleon_id: body.habilitation_id,
            phase: None,
            scopes: body.scopes,
            sealed_at: None,
        },
        body.create_noyau,
    )
}

/// The answer to a provisioned binding.
#[derive(Clone, Debug)]
pub struct ProvisionedHabilitation {
    pub request_id: String,
    pub habilitation_id: String,
    pub noyau: String,
    pub binding_path: String,
    pub seal: String,
    pub reloaded: bool,
    pub noyau_created: bool,
}

/// The answer to what came of a provisioning: the map has always been reloaded.
pub fn provisioned(out: ProvisionOutcome, request_id: &str) -> (r: ProvisionedHabilitation)
    ensures
        r.request_id@ == request_id@,
        r.habilitation_id == out.habilitation_id,
        r.noyau == out.noyau,
        r.binding_path == out.binding_path,
        r.seal@ == "blake3:"@ + out.seal@,
        r.reloaded,
        r.noyau_created == out.noyau_created,
{
    ProvisionedHabilitation {
        request_id: request_id.to_owned(),
        habilitation_id: out.habilitation_id,
        noyau: out.noyau,
        binding_path: out.binding_path,
        seal: concat("blake3:", out.seal.as_str()),
        reloaded: true,
        noyau_created: out.noyau_created,
    }
}

/// The foreign identity of a federation.
#[derive(Clone, Debug)]
pub struct PartnerBody {
    pub issuer: String,
    pub sub: String,
}

/// The body of `POST /v1/admin/federations`.
#[derive(Clone, Debug)]
pub struct FederateBody {
    pub portee_id: Option<String>,
    pub partner: PartnerBody,
    pub galaxies: Vec<String>,
    pub scopes: Vec<String>,
    pub create_noyau: bool,
}

/// The federation that a body asks for.
pub fn portee_spec(body: FederateBody) -> (r: PorteeSpec)
    ensures
        r.portee_id == body.portee_id,
        r.partner.issuer == body.partner.issuer,
        r.partner.sub == body.partner.sub,
        r.galaxies == body.galaxies,
        r.scopes == body.scopes,
        r.create_noyau == body.create_noyau,
        r.created_at is None,
{
    PorteeSpec {
        portee_id: body.portee_id,
        partner: PartnerIdentity { issuer: body.partner.issuer, sub: body.partner.sub },
        galaxies: body.galaxies,
        scopes: body.scopes,
        create_noyau: body.create_noyau,
        created_at: None,
    }
}

/// `201` for a new relation, `200` for one that was extended.
pub fn federation_status(created: bool) -> (r: u16)
    ensures
        r == if created {
            201u16
        } else {
            200u16
        },
{
    if created {
        201
    } else {
        200
    }
}

/// Tells whether a reload took place; one that failed is answered so.
pub fn check_reload(outcome: &ReloadOutcome) -> (r: Result<(), ApiError>)
    ensures
        match r {
            Ok(_) => outcome.error is None,
            Err(e) => outcome.error is Some && error::says(e, 503, "reload_failed"@) && e.request_id is None,
        },
{
    if outcome.error.is_some() {
        Err(ApiError::with_status(503, "reload_failed"))
    } else {
        Ok(())
    }
}

// ---------------------------------------------------------------------------
// The plans
// ---------------------------------------------------------------------------

pub open spec fn provision_plan() -> Seq<Stage> {
    seq![
        Stage::Seal,
        early_check(Fact::JsonBody, 400, "malformed_binding"),
        Stage::Perform { effect: Effect::Provision },
        Stage::Report,
    ]
}

/// The plan of `POST /v1/admin/habilitations`.
pub fn provision_habilitation() -> (r: Vec<Stage>)
    ensures
        r@ == provision_plan(),
{
    vec![
        Stage::Seal,
        early_check(Fact::JsonBody, 400, "malformed_binding"),
        Stage::Perform { effect: Effect::Provision },
        Stage::Report,
    ]
}

pub open spec fn list_habilitations_plan() -> Seq<Stage> {
    seq![
        Stage::Seal,
        Stage::Answer { status: 200 },
    ]
}

/// The plan of `GET /v1/admin/habilitations`.
pub fn list_habilitations() -> (r: Vec<Stage>)
    ensures
        r@ == list_habilitations_plan(),
{
    vec![
        Stage::Seal,
        Stage::Answer { status: 200 },
    ]
}

pub open spec fn revoke_plan() -> Seq<Stage> {
    seq![
        Stage::Seal,
        Stage::Perform { effect: Effect::Revoke },
        Stage::Answer { status: 200 },
    ]
}

/// The plan of `DELETE /v1/admin/habilitations/{id}`.
pub fn revoke_habilitation() -> (r: Vec<Stage>)
    ensures
        r@ == revoke_plan(),
{
    vec![
        Stage::Seal,
        Stage::Perform { effect: Effect::Revoke },
        Stage::Answer { status: 200 },
    ]
}

pub open spec fn federate_plan() -> Seq<Stage> {
    seq![
        Stage::Seal,
        early_check(Fact::JsonBody, 400, "malformed_portee"),
        Stage::Perform { effect: Effect::Federate },
        Stage::Report,
    ]
}

/// The plan of `POST /v1/admin/federations`.
pub fn federate() -> (r: Vec<Stage>)
    ensures
        r@ == federate_plan(),
{
    vec![
        Stage::Seal,
        early_check(Fact::JsonBody, 400, "malformed_portee"),
        Stage::Perform { effect: Effect::Federate },
        Stage::Report,
    ]
}

pub open spec fn list_federations_plan() -> Seq<Stage> {
    seq![
        Stage::Seal,
        Stage::Answer { status: 200 },
    ]
}

/// The plan of `GET /v1/admin/federations`.
pub fn list_federations() -> (r: Vec<Stage>)
    ensures
        r@ == list_federations_plan(),
{
    vec![
        Stage::Seal,
        Stage::Answer { status: 200 },
    ]
}

pub open spec fn dissolve_plan() -> Seq<Stage> {
    seq![
        Stage::Seal,
        Stage::Perform { effect: Effect::Dissolve },
        Stage::Answer { status: 200 },
    ]
}

/// The plan of `DELETE /v1/admin/federations/{id}`.
pub fn dissolve_federation() -> (r: Vec<Stage>)
    ensures
        r@ == dissolve_plan(),
{
    vec![
        Stage::Seal,
        Stage::Perform { effect: Effect::Dissolve },
        Stage::Answer { status: 200 },
    ]
}

pub open spec fn revoke_galaxy_plan() -> Seq<Stage> {
    seq![
        Stage::Seal,
        Stage::Perform { effect: Effect::RevokeGalaxy },
        Stage::Answer { status: 200 },
    ]
}

/// The plan of `DELETE /v1/admin/federations/{id}/galaxies/{galaxy}`.
pub fn revoke_federation_galaxy() -> (r: Vec<Stage>)
    ensures
        r@ == revoke_galaxy_plan(),
{
    vec![
        Stage::Seal,
        Stage::Perform { effect: Effect::RevokeGalaxy },
        Stage::Answer { status: 200 },
    ]
}

pub open spec fn reload_plan() -> Seq<Stage> {
    seq![
        Stage::Seal,
        Stage::Perform { effect: Effect::ReloadBindings },
        Stage::Answer { status: 200 },
    ]
}

/// The plan of `POST /v1/admin/reload`.
pub fn reload_habilitations() -> (r: Vec<Stage>)
    ensures
        r@ == reload_plan(),
{
    vec![
        Stage::Seal,
        Stage::Perform { effect: Effect::ReloadBindings },
        Stage::Answer { status: 200 },
    ]
}

// ---------------------------------------------------------------------------
// Laws
// ---------------------------------------------------------------------------

/// A route of the operator.
#[derive(Clone, Copy, Debug, PartialEq, Eq, Structural)]
pub enum AdminRoute {
    ProvisionHabilitation,
    ListHabilitations,
    RevokeHabilitation,
    Federate,
    ListFederations,
    DissolveFederation,
    RevokeFederationGalaxy,
    ReloadHabilitations,
}

pub open spec fn admin_plan(route: AdminRoute) -> Seq<Stage> {
    match route {
        AdminRoute::ProvisionHabilitation => provision_plan(),
        AdminRoute::ListHabilitations => list_habilitations_plan(),
        AdminRoute::RevokeHabilitation => revoke_plan(),
        AdminRoute::Federate => federate_plan(),
        AdminRoute::ListFederations => list_federations_plan(),
        AdminRoute::DissolveFederation => dissolve_plan(),
        AdminRoute::RevokeFederationGalaxy => revoke_galaxy_plan(),
        AdminRoute::ReloadHabilitations => reload_plan(),
    }
}

/// Every route of the operator looks at the seal first, before the body and
/// before anything is done; no bearer token opens any of them.
pub proof fn law_admin_routes_are_sealed(route: AdminRoute, i: int)
    requires
        0 < i < admin_plan(route).len(),
    ensures
        pipeline::is_plan(admin_plan(route)),
        admin_plan(route)[0] is Seal,
        pipeline::seal_before(admin_plan(route), i),
        !(admin_plan(route)[i] is Bearer),
        !(admin_plan(route)[i] is Token),
{
    let p = admin_plan(route);
    assert(p[0] is Seal);
}

/// Nothing is done on a route of the operator unless the seal held.
pub proof fn law_admin_effects_are_sealed(route: AdminRoute, run: Run)
    requires
        run.wf(),
        run.plan() == admin_plan(route),
        run.here() is Perform,
    ensures
        run.plan()[0] is Seal,
        run.trail()[0] is Cleared,
{
    assert(run.at() > 0);
    pipeline::law_no_stage_is_skipped(run, 0);
}

} // verus!
