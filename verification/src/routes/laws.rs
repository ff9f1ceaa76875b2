//! What holds of the routes, told by what they ask for, do and answer.

use vstd::prelude::*;
use crate::pipeline::{Effect, Fact, Stage, Verb};
use crate::routes;
use crate::routes::admin;
use crate::routes::admin::AdminRoute;
use crate::routes::auth_me;
use crate::routes::mcp;
use crate::routes::mcp::RequiredScope;
use crate::routes::molecules::FreezeState;
use crate::routes::noyaux;
use crate::routes::TenantRoute;
use crate::scopes::ScopeRule;

verus! {

/// A fact that does not hold is refused with the same status and label wherever it
/// is asked for, but for four that differ by what the caller asked for: a reason, a
/// tenant without a directory, and a directory or a file that cannot be written. What
/// is found out before the request is admitted is refused without its id, and of all
/// refusals of facts only that of the ceiling is counted.
pub proof fn law_each_fact_has_its_refusal(route: TenantRoute, i: int)
    requires
        0 <= i < routes::tenant_plan(route).len(),
    ensures
        routes::tenant_plan(route)[i] matches Stage::Check { fact, status, label, named, counted } ==> match fact {
            Fact::MoleculeIdValid => status == 404 && label@ == "not_found"@ && named,
            Fact::TenantRootExists => named && if route is Converse || route is Perceive || route is PostMolecule {
                status == 503 && label@ == "tenant_unavailable"@
            } else {
                status == 404 && label@ == "not_found"@
            },
            Fact::JsonBody => status == 400 && label@ == "invalid_json_body"@ && !named,
            Fact::FormulaGiven => status == 400 && label@ == "missing_formula"@ && !named,
            Fact::VariablesAreAnObject => status == 400 && label@ == "variables_not_object"@ && !named,
            Fact::VariablesAreTexts => status == 400 && label@ == "variables_not_string"@ && !named,
            Fact::TagsGiven => status == 400 && label@ == "empty_tag_request"@ && !named,
            Fact::AddedTagsValid => status == 400 && label@ == "invalid_tag"@ && !named,
            Fact::RemovedTagsValid => status == 400 && label@ == "invalid_tag"@ && !named,
            Fact::ReasonGiven => !named && if route is CollapseMolecule {
                status == 400 && label@ == "missing_reason"@
            } else {
                status == 400 && label@ == "empty_reason"@
            },
            Fact::NoLiveWorker => status == 409 && label@ == "already_active"@ && named,
            Fact::BelowCeiling => status == 429 && label@ == "tackle_ceiling"@ && named,
            Fact::BodyReadable => status == 400 && label@ == "unsupported_parameter"@ && named,
            Fact::StrategyKnown => status == 400 && label@ == "unsupported_parameter"@ && named,
            Fact::BucketReadable => status == 500 && label@ == "rate_limit_read_failed"@ && named,
            Fact::MoleculeSegmentSafe => status == 400 && label@ == "invalid_path_segment"@ && named,
            Fact::DirectoryReadable => status == 500 && label@ == "artifact_dir_unreadable"@ && named,
            Fact::TokenKnown => status == 404 && label@ == "artifact_not_found"@ && named,
            Fact::FileReadable => status == 404 && label@ == "artifact_not_found"@ && named,
            Fact::NameSegmentSafe => status == 400 && label@ == "invalid_path_segment"@ && named,
            Fact::DirectoryMade => named && if route is PushArtifact {
                status == 503 && label@ == "artifact_dir_unavailable"@
            } else {
                status == 500 && label@ == "io_error"@
            },
            Fact::DigestAgrees => status == 400 && label@ == "digest_mismatch"@ && named,
            Fact::IfMatchHolds => status == 412 && label@ == "if_match_failed"@ && named,
            Fact::FileWritten => named && if route is PushArtifact {
                status == 503 && label@ == "artifact_write_failed"@
            } else {
                status == 500 && label@ == "io_error"@
            },
            Fact::AvatarIdGiven => status == 400 && label@ == "missing_avatar_id"@ && !named,
            Fact::MessageGiven => status == 400 && label@ == "missing_message"@ && !named,
            Fact::BindingExists => status == 503 && label@ == "no_binding"@ && named,
            Fact::HopsWithinBound => status == 409 && label@ == "max_hops_exceeded"@ && named,
            Fact::SourceGiven => status == 400 && label@ == "missing_source"@ && !named,
            Fact::DataGiven => status == 400 && label@ == "missing_data"@ && !named,
            Fact::IntegrityGiven => status == 400 && label@ == "missing_integrity"@ && !named,
            Fact::IntegrityAgrees => status == 400 && label@ == "integrity_mismatch"@ && !named,
            Fact::SourceEnabled => status == 503 && label@ == "source_not_enabled"@ && named,
            Fact::NotIncarnated => status == 409 && label@ == "already_incarnated"@ && named,
            Fact::PiloteIdValid => status == 400 && label@ == "invalid_pilote_id"@ && named,
            Fact::JurisdictionValid => status == 400 && label@ == "invalid_juridiction"@ && named,
            Fact::TenantIdValid => status == 400 && label@ == "invalid_tenant_id"@ && named,
            Fact::InstanceIdValid => status == 400 && label@ == "invalid_instance_id"@ && named,
            Fact::EventWritable => status == 500 && label@ == "serialization_error"@ && named,
            Fact::LedgerOpened => status == 500 && label@ == "io_error"@ && named,
            Fact::EventAppended => status == 500 && label@ == "io_error"@ && named,
            Fact::CanalKnown => status == 400 && label@ == "invalid_canal"@ && named,
            Fact::InstanceExists => status == 404 && label@ == "instance_not_found"@ && named,
            Fact::Incarnated => status == 409 && label@ == "not_incarnated"@ && named,
            Fact::PaneSegmentSafe => status == 400 && label@ == "invalid_path_segment"@ && named,
            _ => false,
        },
        routes::tenant_plan(route)[i] matches Stage::Check { fact, counted, .. } ==> counted == (fact == Fact::BelowCeiling),
        routes::tenant_plan(route)[i] matches Stage::Slot { status, label } ==> status == 409 && label@ == "drain_already_active"@,
{
}

/// Every route asks for the right to what it does, by the name under which the
/// decision is recorded: reading asks for nothing but reading, and only what starts
/// workers asks for the right to spawn them.
pub proof fn law_each_route_asks_for_its_scope(route: TenantRoute, i: int)
    requires
        0 <= i < routes::tenant_plan(route).len(),
    ensures
        routes::tenant_plan(route)[i] matches Stage::Scope { act, rule } ==> match route {
            TenantRoute::GetMolecule => rule == ScopeRule::MoleculeRead && act@ == "observe"@,
            TenantRoute::PostMolecule => rule == ScopeRule::MoleculeWrite && act@ == "nucleate"@,
            TenantRoute::TagMolecule => rule == ScopeRule::MoleculeWrite && act@ == "tag"@,
            TenantRoute::ListMolecules => rule == ScopeRule::MoleculeRead && act@ == "ensemble"@,
            TenantRoute::CollapseMolecule => rule == ScopeRule::MoleculeWrite && act@ == "collapse"@,
            TenantRoute::FreezeMolecule(_) => rule == ScopeRule::MoleculeWrite && act@ == "freeze"@,
            TenantRoute::StuckMolecule => rule == ScopeRule::MoleculeWrite && act@ == "stuck"@,
            TenantRoute::TackleMolecule => (rule == ScopeRule::MoleculeWrite && act@ == "tackle"@) || (rule == ScopeRule::WorkerSpawn && act@ == "tackle:spawn"@),
            TenantRoute::RunMolecule => (rule == ScopeRule::MoleculeWrite && act@ == "run"@) || (rule == ScopeRule::WorkerSpawn && act@ == "run:spawn"@),
            TenantRoute::DoneMolecule(_) => (rule == ScopeRule::MoleculeWrite && act@ == "done"@) || (rule == ScopeRule::WorkerSpawn && act@ == "done"@),
            TenantRoute::GetResult => rule == ScopeRule::MoleculeRead && act@ == "result"@,
            TenantRoute::GetQuota => rule == ScopeRule::MoleculeRead && act@ == "quota"@,
            TenantRoute::ListArtifacts => rule == ScopeRule::ArtifactRead && act@ == "list_artifacts"@,
            TenantRoute::FetchArtifact => rule == ScopeRule::ArtifactRead && act@ == "fetch_artifact"@,
            TenantRoute::PushArtifact => rule == ScopeRule::ArtifactWrite && act@ == "push_artifact"@,
            TenantRoute::Converse => rule == ScopeRule::PiloteConverse && act@ == "converse_avatar"@,
            TenantRoute::Perceive => rule == ScopeRule::WorldObserve && act@ == "perceive_avatar"@,
            TenantRoute::AvatarStatus => rule == ScopeRule::WorldObserve && act@ == "avatar_status"@,
            TenantRoute::AvatarIncarnate => rule == ScopeRule::PiloteConverse && act@ == "avatar_incarnate"@,
            TenantRoute::AvatarGrant => rule == ScopeRule::PiloteConverse && act@ == "avatar_grant"@,
            TenantRoute::AvatarAudit => rule == ScopeRule::WorldObserve && act@ == "avatar_audit"@,
            TenantRoute::AvatarMouldInfo => rule == ScopeRule::WorldObserve && act@ == "avatar_mould_info"@,
            TenantRoute::EventsStream => rule == ScopeRule::EventsSubscribe && act@ == "events_subscribe"@,
            TenantRoute::LogsStream => rule == ScopeRule::LogsSubscribe && act@ == "logs_subscribe"@,
        },
        routes::tenant_plan(route)[2] is Scope,
        route is TackleMolecule || route is RunMolecule ==> routes::tenant_plan(route)[3] is Scope,
        route == TenantRoute::DoneMolecule(true) ==> routes::tenant_plan(route)[7] is Scope && routes::tenant_plan(route)[7]->rule
            == ScopeRule::WorkerSpawn,
        route == TenantRoute::DoneMolecule(false) ==> (routes::tenant_plan(route)[i] matches Stage::Scope { rule, .. } ==> rule
            == ScopeRule::MoleculeWrite),
        route is TackleMolecule || route is RunMolecule ==> routes::tenant_plan(route)[2]->rule == ScopeRule::MoleculeWrite
            && routes::tenant_plan(route)[3]->rule == ScopeRule::WorkerSpawn,
{
}

/// Every route is admitted under its own verb, with the molecule it names where it
/// names one. Refusals at the door are counted, but on the routes of avatars and of
/// the logs.
pub proof fn law_each_route_is_admitted_as_itself(route: TenantRoute, i: int)
    requires
        0 <= i < routes::tenant_plan(route).len(),
    ensures
        routes::tenant_plan(route)[i] matches Stage::Admit { verb, targeted, .. } ==> match route {
            TenantRoute::GetMolecule => verb == Verb::ObserveMolecule && targeted,
            TenantRoute::PostMolecule => verb == Verb::NucleateMolecule && !targeted,
            TenantRoute::TagMolecule => verb == Verb::TagMolecule && targeted,
            TenantRoute::ListMolecules => verb == Verb::EnsembleMolecule && !targeted,
            TenantRoute::CollapseMolecule => verb == Verb::CollapseMolecule && targeted,
            TenantRoute::FreezeMolecule(FreezeState::Frozen) => verb == Verb::FreezeMolecule && targeted,
            TenantRoute::FreezeMolecule(FreezeState::Active) => verb == Verb::ThawMolecule && targeted,
            TenantRoute::StuckMolecule => verb == Verb::StuckMolecule && targeted,
            TenantRoute::TackleMolecule => verb == Verb::TackleMolecule && targeted,
            TenantRoute::RunMolecule => verb == Verb::RunMolecule && targeted,
            TenantRoute::DoneMolecule(_) => verb == Verb::DoneMolecule && targeted,
            TenantRoute::GetResult => verb == Verb::ObserveMolecule && targeted,
            TenantRoute::GetQuota => verb == Verb::ObserveMolecule && !targeted,
            TenantRoute::ListArtifacts => verb == Verb::ListArtifacts && targeted,
            TenantRoute::FetchArtifact => verb == Verb::FetchArtifact && targeted,
            TenantRoute::PushArtifact => verb == Verb::PushArtifact && targeted,
            TenantRoute::Converse => verb == Verb::ConverseAvatar && !targeted,
            TenantRoute::Perceive => verb == Verb::PerceiveAvatar && !targeted,
            TenantRoute::AvatarStatus => verb == Verb::PerceiveAvatar && !targeted,
            TenantRoute::AvatarIncarnate => verb == Verb::ConverseAvatar && !targeted,
            TenantRoute::AvatarGrant => verb == Verb::ConverseAvatar && !targeted,
            TenantRoute::AvatarAudit => verb == Verb::PerceiveAvatar && !targeted,
            TenantRoute::AvatarMouldInfo => verb == Verb::PerceiveAvatar && !targeted,
            TenantRoute::EventsStream => verb == Verb::SubscribeEvents && !targeted,
            TenantRoute::LogsStream => verb == Verb::SubscribeLogs && targeted,
        },
        ({
            let quiet = route is Converse || route is Perceive || route is AvatarStatus || route is AvatarIncarnate || route is AvatarGrant || route is AvatarAudit || route is AvatarMouldInfo || route is LogsStream;
            &&& routes::tenant_plan(route)[i] matches Stage::Bearer { metered } ==> metered == !quiet
            &&& routes::tenant_plan(route)[i] matches Stage::Token { metered } ==> metered == !quiet
            &&& routes::tenant_plan(route)[i] matches Stage::Admit { metered, .. } ==> metered == !quiet
        }),
        routes::tenant_plan(route)[0] is Bearer && routes::tenant_plan(route)[1] is Token,
{
}

/// The stage asks for the fact.
pub open spec fn asks(p: Seq<Stage>, k: int, fact: Fact) -> bool {
    p[k] matches Stage::Check { fact: f, .. } && f == fact
}

/// The stage performs the effect.
pub open spec fn does(p: Seq<Stage>, k: int, effect: Effect) -> bool {
    p[k] == (Stage::Perform { effect })
}

/// What each route asks for and does, in which order, and what it answers when all
/// of it went well.
pub proof fn law_each_route_goes_its_way(route: TenantRoute)
    ensures
        ({
            let p = routes::tenant_plan(route);
            match route {
                TenantRoute::GetMolecule => {
                    &&& p[3] is Admit
                    &&& asks(p, 4, Fact::MoleculeIdValid)
                    &&& asks(p, 5, Fact::TenantRootExists)
                    &&& does(p, 6, Effect::LoadMolecule)
                    &&& p.len() == 8 && p[7] == (Stage::Answer { status: 200 })
                },
                TenantRoute::PostMolecule => {
                    &&& asks(p, 3, Fact::JsonBody)
                    &&& asks(p, 4, Fact::FormulaGiven)
                    &&& asks(p, 5, Fact::VariablesAreAnObject)
                    &&& asks(p, 6, Fact::VariablesAreTexts)
                    &&& p[7] is Admit
                    &&& asks(p, 8, Fact::TenantRootExists)
                    &&& does(p, 9, Effect::Nucleate)
                    &&& p.len() == 11 && p[10] == (Stage::Answer { status: 201 })
                },
                TenantRoute::TagMolecule => {
                    &&& asks(p, 3, Fact::JsonBody)
                    &&& asks(p, 4, Fact::TagsGiven)
                    &&& asks(p, 5, Fact::AddedTagsValid)
                    &&& asks(p, 6, Fact::RemovedTagsValid)
                    &&& p[7] is Admit
                    &&& asks(p, 8, Fact::MoleculeIdValid)
                    &&& asks(p, 9, Fact::TenantRootExists)
                    &&& does(p, 10, Effect::Tag)
                    &&& p.len() == 12 && p[11] == (Stage::Answer { status: 200 })
                },
                TenantRoute::ListMolecules => {
                    &&& p[3] is Admit
                    &&& asks(p, 4, Fact::TenantRootExists)
                    &&& does(p, 5, Effect::Ensemble)
                    &&& p.len() == 7 && p[6] == (Stage::Answer { status: 200 })
                },
                TenantRoute::CollapseMolecule => {
                    &&& asks(p, 3, Fact::JsonBody)
                    &&& asks(p, 4, Fact::ReasonGiven)
                    &&& p[5] is Admit
                    &&& asks(p, 6, Fact::MoleculeIdValid)
                    &&& asks(p, 7, Fact::TenantRootExists)
                    &&& does(p, 8, Effect::Collapse)
                    &&& p.len() == 10 && p[9] == (Stage::Answer { status: 200 })
                },
                TenantRoute::FreezeMolecule(FreezeState::Frozen) => {
                    &&& asks(p, 3, Fact::JsonBody)
                    &&& p[4] is Admit
                    &&& asks(p, 5, Fact::MoleculeIdValid)
                    &&& asks(p, 6, Fact::TenantRootExists)
                    &&& does(p, 7, Effect::Freeze)
                    &&& p.len() == 9 && p[8] == (Stage::Answer { status: 200 })
                },
                TenantRoute::FreezeMolecule(FreezeState::Active) => {
                    &&& asks(p, 3, Fact::JsonBody)
                    &&& p[4] is Admit
                    &&& asks(p, 5, Fact::MoleculeIdValid)
                    &&& asks(p, 6, Fact::TenantRootExists)
                    &&& does(p, 7, Effect::Thaw)
                    &&& p.len() == 9 && p[8] == (Stage::Answer { status: 200 })
                },
                TenantRoute::StuckMolecule => {
                    &&& asks(p, 3, Fact::JsonBody)
                    &&& asks(p, 4, Fact::ReasonGiven)
                    &&& p[5] is Admit
                    &&& asks(p, 6, Fact::MoleculeIdValid)
                    &&& asks(p, 7, Fact::TenantRootExists)
                    &&& does(p, 8, Effect::MarkStuck)
                    &&& p.len() == 10 && p[9] == (Stage::Answer { status: 200 })
                },
                TenantRoute::TackleMolecule => {
                    &&& p[4] is Admit
                    &&& asks(p, 5, Fact::MoleculeIdValid)
                    &&& asks(p, 6, Fact::TenantRootExists)
                    &&& does(p, 7, Effect::LoadMolecule)
                    &&& asks(p, 8, Fact::NoLiveWorker)
                    &&& asks(p, 9, Fact::TenantRootExists)
                    &&& asks(p, 10, Fact::BelowCeiling)
                    &&& does(p, 11, Effect::Dispatch)
                    &&& p.len() == 13 && p[12] == (Stage::Answer { status: 200 })
                },
                TenantRoute::RunMolecule => {
                    &&& p[4] is Admit
                    &&& asks(p, 5, Fact::MoleculeIdValid)
                    &&& asks(p, 6, Fact::TenantRootExists)
                    &&& p[7] is Slot
                    &&& does(p, 8, Effect::StartDrain)
                    &&& p.len() == 10 && p[9] == (Stage::Answer { status: 202 })
                },
                TenantRoute::DoneMolecule(true) => {
                    &&& p[3] is Admit
                    &&& asks(p, 4, Fact::BodyReadable)
                    &&& asks(p, 5, Fact::StrategyKnown)
                    &&& does(p, 6, Effect::ValidateHarvest)
                    &&& asks(p, 8, Fact::MoleculeIdValid)
                    &&& asks(p, 9, Fact::TenantRootExists)
                    &&& does(p, 10, Effect::DecideHarvest)
                    &&& does(p, 11, Effect::Harvest)
                    &&& p.len() == 13 && p[12] == (Stage::Answer { status: 200 })
                },
                TenantRoute::DoneMolecule(false) => {
                    &&& p[3] is Admit
                    &&& asks(p, 4, Fact::BodyReadable)
                    &&& asks(p, 5, Fact::StrategyKnown)
                    &&& does(p, 6, Effect::ValidateHarvest)
                    &&& asks(p, 7, Fact::MoleculeIdValid)
                    &&& asks(p, 8, Fact::TenantRootExists)
                    &&& does(p, 9, Effect::DecideHarvest)
                    &&& does(p, 10, Effect::Harvest)
                    &&& p.len() == 12 && p[11] == (Stage::Answer { status: 200 })
                },
                TenantRoute::GetResult => {
                    &&& p[3] is Admit
                    &&& asks(p, 4, Fact::MoleculeIdValid)
                    &&& asks(p, 5, Fact::TenantRootExists)
                    &&& does(p, 6, Effect::LoadMolecule)
                    &&& p.len() == 8 && p[7] == (Stage::Answer { status: 200 })
                },
                TenantRoute::GetQuota => {
                    &&& p[3] is Admit
                    &&& asks(p, 4, Fact::BucketReadable)
                    &&& p.len() == 6 && p[5] == (Stage::Answer { status: 200 })
                },
                TenantRoute::ListArtifacts => {
                    &&& p[3] is Admit
                    &&& asks(p, 4, Fact::MoleculeSegmentSafe)
                    &&& asks(p, 5, Fact::DirectoryReadable)
                    &&& p.len() == 7 && p[6] == (Stage::Answer { status: 200 })
                },
                TenantRoute::FetchArtifact => {
                    &&& p[3] is Admit
                    &&& asks(p, 4, Fact::MoleculeSegmentSafe)
                    &&& asks(p, 5, Fact::DirectoryReadable)
                    &&& asks(p, 6, Fact::TokenKnown)
                    &&& asks(p, 7, Fact::FileReadable)
                    &&& p.len() == 9 && p[8] == (Stage::Answer { status: 200 })
                },
                TenantRoute::PushArtifact => {
                    &&& p[3] is Admit
                    &&& asks(p, 4, Fact::MoleculeSegmentSafe)
                    &&& asks(p, 5, Fact::NameSegmentSafe)
                    &&& asks(p, 6, Fact::DirectoryMade)
                    &&& asks(p, 7, Fact::DigestAgrees)
                    &&& asks(p, 8, Fact::IfMatchHolds)
                    &&& asks(p, 9, Fact::FileWritten)
                    &&& p.len() == 11 && p[10] == (Stage::Answer { status: 201 })
                },
                TenantRoute::Converse => {
                    &&& asks(p, 3, Fact::JsonBody)
                    &&& asks(p, 4, Fact::AvatarIdGiven)
                    &&& asks(p, 5, Fact::MessageGiven)
                    &&& p[6] is Admit
                    &&& asks(p, 7, Fact::TenantRootExists)
                    &&& asks(p, 8, Fact::BindingExists)
                    &&& asks(p, 9, Fact::HopsWithinBound)
                    &&& p.len() == 11 && p[10] == (Stage::Answer { status: 200 })
                },
                TenantRoute::Perceive => {
                    &&& asks(p, 3, Fact::JsonBody)
                    &&& asks(p, 4, Fact::SourceGiven)
                    &&& asks(p, 5, Fact::DataGiven)
                    &&& asks(p, 6, Fact::IntegrityGiven)
                    &&& asks(p, 7, Fact::IntegrityAgrees)
                    &&& p[8] is Admit
                    &&& asks(p, 9, Fact::TenantRootExists)
                    &&& asks(p, 10, Fact::SourceEnabled)
                    &&& p.len() == 12 && p[11] == (Stage::Answer { status: 200 })
                },
                TenantRoute::AvatarStatus => {
                    &&& p[3] is Admit
                    &&& does(p, 4, Effect::ReadLedger)
                    &&& p.len() == 6 && p[5] == (Stage::Answer { status: 200 })
                },
                TenantRoute::AvatarIncarnate => {
                    &&& p[3] is Admit
                    &&& asks(p, 4, Fact::JsonBody)
                    &&& asks(p, 5, Fact::NotIncarnated)
                    &&& asks(p, 6, Fact::PiloteIdValid)
                    &&& asks(p, 7, Fact::JurisdictionValid)
                    &&& asks(p, 8, Fact::TenantIdValid)
                    &&& asks(p, 9, Fact::InstanceIdValid)
                    &&& asks(p, 10, Fact::EventWritable)
                    &&& asks(p, 11, Fact::DirectoryMade)
                    &&& asks(p, 12, Fact::LedgerOpened)
                    &&& asks(p, 13, Fact::EventAppended)
                    &&& p.len() == 15 && p[14] == (Stage::Answer { status: 200 })
                },
                TenantRoute::AvatarGrant => {
                    &&& p[3] is Admit
                    &&& asks(p, 4, Fact::JsonBody)
                    &&& asks(p, 5, Fact::CanalKnown)
                    &&& asks(p, 6, Fact::InstanceExists)
                    &&& asks(p, 7, Fact::Incarnated)
                    &&& asks(p, 8, Fact::DirectoryMade)
                    &&& asks(p, 9, Fact::FileWritten)
                    &&& p.len() == 11 && p[10] == (Stage::Answer { status: 200 })
                },
                TenantRoute::AvatarAudit => {
                    &&& p[3] is Admit
                    &&& asks(p, 4, Fact::InstanceExists)
                    &&& does(p, 5, Effect::ReadLedger)
                    &&& p.len() == 7 && p[6] == (Stage::Answer { status: 200 })
                },
                TenantRoute::AvatarMouldInfo => {
                    &&& p[3] is Admit
                    &&& asks(p, 4, Fact::NotIncarnated)
                    &&& p.len() == 6 && p[5] == (Stage::Answer { status: 200 })
                },
                TenantRoute::EventsStream => {
                    &&& p[3] is Admit
                    &&& does(p, 4, Effect::OpenStream)
                    &&& p.len() == 6 && p[5] == (Stage::Answer { status: 200 })
                },
                TenantRoute::LogsStream => {
                    &&& p[3] is Admit
                    &&& asks(p, 4, Fact::PaneSegmentSafe)
                    &&& does(p, 5, Effect::OpenStream)
                    &&& p.len() == 7 && p[6] == (Stage::Answer { status: 200 })
                },
            }
        }),
{
}

/// What each route of the operator asks for and does, and what it answers.
pub proof fn law_each_admin_route_goes_its_way(route: AdminRoute)
    ensures
        ({
            let p = admin::admin_plan(route);
            &&& p[0] is Seal
            &&& match route {
                AdminRoute::ProvisionHabilitation => {
                    &&& p.len() == 4
                    &&& asks(p, 1, Fact::JsonBody)
                    &&& does(p, 2, Effect::Provision)
                    &&& p[3] is Report
                },
                AdminRoute::ListHabilitations => p.len() == 2 && p[1] == (Stage::Answer { status: 200 }),
                AdminRoute::RevokeHabilitation => {
                    &&& p.len() == 3
                    &&& does(p, 1, Effect::Revoke)
                    &&& p[2] == (Stage::Answer { status: 200 })
                },
                AdminRoute::Federate => {
                    &&& p.len() == 4
                    &&& asks(p, 1, Fact::JsonBody)
                    &&& does(p, 2, Effect::Federate)
                    &&& p[3] is Report
                },
                AdminRoute::ListFederations => p.len() == 2 && p[1] == (Stage::Answer { status: 200 }),
                AdminRoute::DissolveFederation => {
                    &&& p.len() == 3
                    &&& does(p, 1, Effect::Dissolve)
                    &&& p[2] == (Stage::Answer { status: 200 })
                },
                AdminRoute::RevokeFederationGalaxy => {
                    &&& p.len() == 3
                    &&& does(p, 1, Effect::RevokeGalaxy)
                    &&& p[2] == (Stage::Answer { status: 200 })
                },
                AdminRoute::ReloadHabilitations => {
                    &&& p.len() == 3
                    &&& does(p, 1, Effect::ReloadBindings)
                    &&& p[2] == (Stage::Answer { status: 200 })
                },
            }
        }),
{
}

/// A body that the operator sent and that is no JSON is refused with 400, before
/// anything is done, as a malformed binding or a malformed relation.
pub proof fn law_unreadable_admin_bodies_are_refused(route: AdminRoute, i: int)
    requires
        0 <= i < admin::admin_plan(route).len(),
    ensures
        admin::admin_plan(route)[i] matches Stage::Check { fact, status, label, named, counted } ==> fact == Fact::JsonBody
            && status == 400 && !named && !counted && label@ == (if route == AdminRoute::Federate {
            "malformed_portee"@
        } else {
            "malformed_binding"@
        }),
{
}

/// Who a caller is and which noyaux it has are told to anyone whose token verifies,
/// without a scope and without an admission, and change nothing.
pub proof fn law_callers_may_ask_who_they_are()
    ensures
        auth_me::auth_me_plan() == seq![
            Stage::Bearer { metered: false },
            Stage::Token { metered: true },
            Stage::Answer { status: 200 },
        ],
        noyaux::list_noyaux_plan() == seq![
            Stage::Bearer { metered: false },
            Stage::Token { metered: false },
            Stage::Answer { status: 200 },
        ],
{
}

/// A call of a tool is admitted, then weighed, then measured against the scope that
/// its body asks for, and only then made.
pub proof fn law_tool_calls_go_their_way(scope: RequiredScope)
    ensures
        ({
            let p = mcp::require_valid_bearer_plan(scope);
            &&& p.len() == 7
            &&& p[0] == (Stage::Bearer { metered: true })
            &&& p[1] == (Stage::Token { metered: true })
            &&& p[2] == (Stage::Admit { verb: Verb::McpToolCall, targeted: false, metered: true })
            &&& p[3] matches Stage::Check { fact, status, label, named, counted } && fact == Fact::BodySmallEnough && status
                == 413 && label@ == "payload_too_large"@ && !named && !counted
            &&& p[4] matches Stage::Scope { act, rule } && act@ == "mcp_tool_call"@ && rule == (if scope
                == RequiredScope::Read {
                ScopeRule::MoleculeRead
            } else {
                ScopeRule::MoleculeWrite
            })
            &&& does(p, 5, Effect::CallTool)
            &&& p[6] == (Stage::Answer { status: 200 })
        }),
{
}

} // verus!
