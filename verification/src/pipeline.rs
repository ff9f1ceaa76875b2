//! The order in which a request passes its gates. A route is a plan: a list of
//! stages that end in an answer. A run goes through them one by one; the first
//! stage that does not hold ends it with a refusal, and nothing behind that stage
//! is done.

use vstd::prelude::*;
use crate::error;
use crate::error::ApiError;
use crate::evidence;
use crate::evidence::{decide, Evidence};
use crate::jwt::ValidatedJwt;
use crate::nucleon_map;
use crate::nucleon_map::HabilitationMap;
use crate::scopes;
use crate::scopes::{authorise_scope, GrantSource, ScopeRule};
use crate::text;
use crate::text::concat3;
use crate::DrainRegistry;

verus! {

/// What an admission is asked for.
#[derive(Clone, Copy, Debug, PartialEq, Eq, Structural)]
pub enum Verb {
    ObserveMolecule,
    NucleateMolecule,
    TagMolecule,
    EnsembleMolecule,
    CollapseMolecule,
    FreezeMolecule,
    ThawMolecule,
    StuckMolecule,
    TackleMolecule,
    RunMolecule,
    DoneMolecule,
    ListArtifacts,
    FetchArtifact,
    PushArtifact,
    ConverseAvatar,
    PerceiveAvatar,
    SubscribeEvents,
    SubscribeLogs,
    McpToolCall,
}

/// What a check asks.
#[derive(Clone, Copy, Debug, PartialEq, Eq, Structural)]
pub enum Fact {
    // Of the request alone.
    JsonBody,
    FormulaGiven,
    VariablesAreAnObject,
    VariablesAreTexts,
    TagsGiven,
    AddedTagsValid,
    RemovedTagsValid,
    ReasonGiven,
    AvatarIdGiven,
    MessageGiven,
    SourceGiven,
    DataGiven,
    IntegrityGiven,
    IntegrityAgrees,
    // Of the request, behind the admission.
    BodyReadable,
    StrategyKnown,
    BodySmallEnough,
    MoleculeIdValid,
    MoleculeSegmentSafe,
    NameSegmentSafe,
    PaneSegmentSafe,
    CanalKnown,
    PiloteIdValid,
    JurisdictionValid,
    TenantIdValid,
    InstanceIdValid,
    // Of the tenant's state.
    TenantRootExists,
    NoLiveWorker,
    BelowCeiling,
    BucketReadable,
    DirectoryReadable,
    TokenKnown,
    FileReadable,
    DirectoryMade,
    DigestAgrees,
    IfMatchHolds,
    FileWritten,
    BindingExists,
    HopsWithinBound,
    SourceEnabled,
    NotIncarnated,
    Incarnated,
    InstanceExists,
    EventWritable,
    LedgerOpened,
    EventAppended,
}

/// A check that needs nothing but the request.
pub open spec fn of_the_request(f: Fact) -> bool {
    match f {
        Fact::JsonBody => true,
        Fact::FormulaGiven => true,
        Fact::VariablesAreAnObject => true,
        Fact::VariablesAreTexts => true,
        Fact::TagsGiven => true,
        Fact::AddedTagsValid => true,
        Fact::RemovedTagsValid => true,
        Fact::ReasonGiven => true,
        Fact::AvatarIdGiven => true,
        Fact::MessageGiven => true,
        Fact::SourceGiven => true,
        Fact::DataGiven => true,
        Fact::IntegrityGiven => true,
        Fact::IntegrityAgrees => true,
        _ => false,
    }
}

/// What is done outside. How it can fail is told apart where the route is.
#[derive(Clone, Copy, Debug, PartialEq, Eq, Structural)]
pub enum Effect {
    LoadMolecule,
    Nucleate,
    Tag,
    Ensemble,
    Collapse,
    Freeze,
    Thaw,
    MarkStuck,
    Dispatch,
    StartDrain,
    ValidateHarvest,
    DecideHarvest,
    Harvest,
    ReadLedger,
    CallTool,
    OpenStream,
    Provision,
    Revoke,
    Federate,
    Dissolve,
    RevokeGalaxy,
    ReloadBindings,
}

/// A stage of a plan.
#[derive(Clone, Copy, Debug, PartialEq, Eq)]
pub enum Stage {
    /// The host-side seal of the operator.
    Seal,
    /// A bearer token is there. Where metered, a refusal is counted.
    Bearer { metered: bool },
    /// The token verifies.
    Token { metered: bool },
    /// The caller may do it; the decision is recorded under this name.
    Scope { act: &'static str, rule: ScopeRule },
    /// The request is admitted, and has an id from here on.
    Admit { verb: Verb, targeted: bool, metered: bool },
    /// Something holds; otherwise this is the refusal. Where named, the refusal
    /// carries the id of the request.
    Check { fact: Fact, status: u16, label: &'static str, named: bool, counted: bool },
    /// The noyau's drain slot is free, and is taken; otherwise this is the refusal.
    Slot { status: u16, label: &'static str },
    /// Something is done.
    Perform { effect: Effect },
    /// The request is answered with this status.
    Answer { status: u16 },
    /// The request is answered with the status of what was done.
    Report,
}

/// A check whose refusal carries the id of the request.
#[verifier::allow_in_spec]
pub fn check(fact: Fact, status: u16, label: &'static str) -> Stage
    returns
        (Stage::Check { fact, status, label, named: true, counted: false }),
{
    Stage::Check { fact, status, label, named: true, counted: false }
}

/// A check whose refusal carries no id.
#[verifier::allow_in_spec]
pub fn early_check(fact: Fact, status: u16, label: &'static str) -> Stage
    returns
        (Stage::Check { fact, status, label, named: false, counted: false }),
{
    Stage::Check { fact, status, label, named: false, counted: false }
}

/// The stage answers the request.
pub open spec fn ends(s: Stage) -> bool {
    s is Answer || s is Report
}

/// A plan ends in an answer, and has no other.
pub open spec fn is_plan(p: Seq<Stage>) -> bool {
    &&& p.len() > 0
    &&& ends(p.last())
    &&& forall|i: int| 0 <= i < p.len() - 1 ==> !ends(#[trigger] p[i])
}

/// A refusal, and whether it is counted under its label.
#[derive(Clone, Debug)]
pub struct Refusal {
    pub error: ApiError,
    pub counted: bool,
}

/// The id that a refusal carries: that of the request, with the detail behind it.
pub open spec fn id_with_detail(request_id: Option<Seq<char>>, detail: Option<Seq<char>>) -> Option<Seq<char>> {
    match request_id {
        Some(id) => match detail {
            Some(d) => Some(id + ": "@ + d),
            None => Some(id),
        },
        None => None,
    }
}

fn named_id(request_id: &Option<String>, detail: Option<&str>) -> (r: Option<String>)
    ensures
        crate::nucleon_map::optional(r) == id_with_detail(
            crate::nucleon_map::optional(*request_id),
            crate::routes::view_of(detail),
        ),
{
    match request_id {
        Some(id) => match detail {
            Some(d) => Some(concat3(id.as_str(), ": ", d)),
            None => Some(id.clone()),
        },
        None => None,
    }
}

/// How a stage was passed.
pub enum Passage {
    /// The seal, the bearer or the token held.
    Cleared,
    /// The caller had the scope: by these of its token, or by these of its binding.
    Allowed { token: Seq<Seq<char>>, binding: Seq<Seq<char>> },
    /// The request was admitted under this id.
    Admitted { request_id: Seq<char> },
    /// The check held by this.
    Shown { evidence: Evidence },
    /// The noyau's slot was taken, while these had a drain.
    Slotted { noyau: Seq<char>, active: Set<Seq<char>> },
    /// It was done.
    Done,
}

/// The stage was passed that way.
pub open spec fn passed(stage: Stage, way: Passage) -> bool {
    match stage {
        Stage::Seal => way is Cleared,
        Stage::Bearer { .. } => way is Cleared,
        Stage::Token { .. } => way is Cleared,
        Stage::Scope { rule, .. } => way matches Passage::Allowed { token, binding } && scopes::decision(
            token,
            binding,
            rule,
        ) is Some,
        Stage::Admit { .. } => way is Admitted,
        Stage::Check { fact, .. } => way matches Passage::Shown { evidence } && evidence::holds(fact, evidence),
        Stage::Slot { .. } => way matches Passage::Slotted { noyau, active } && !active.contains(noyau),
        Stage::Perform { .. } => way is Done,
        _ => false,
    }
}

/// A request on its way through a plan. It remembers how it passed each stage
/// behind it.
pub struct Run {
    plan: Vec<Stage>,
    at: usize,
    request_id: Option<String>,
    trail: Ghost<Seq<Passage>>,
}

impl Run {
    pub closed spec fn plan(self) -> Seq<Stage> {
        self.plan@
    }

    pub closed spec fn at(self) -> int {
        self.at as int
    }

    /// The id of the request, once it is admitted.
    pub closed spec fn id(self) -> Option<Seq<char>> {
        crate::nucleon_map::optional(self.request_id)
    }

    /// How the stages behind the request were passed.
    pub closed spec fn trail(self) -> Seq<Passage> {
        self.trail@
    }

    /// Every stage behind the request was passed, but for those that a settled
    /// request left out on its way to the answer.
    pub open spec fn wf(self) -> bool {
        &&& is_plan(self.plan())
        &&& 0 <= self.at() < self.plan().len()
        &&& self.trail().len() <= self.at()
        &&& self.at() < self.plan().len() - 1 ==> self.trail().len() == self.at()
        &&& forall|k: int| 0 <= k < self.trail().len() ==> passed(self.plan()[k], #[trigger] self.trail()[k])
        &&& forall|k: int| 0 <= k < self.trail().len() && #[trigger] self.plan()[k] is Admit ==> self.id() is Some
    }

    /// The stage the request is at.
    pub open spec fn here(self) -> Stage {
        self.plan()[self.at()]
    }

    /// `next` is one stage further, which was passed that way.
    pub open spec fn advances(self, next: Run, way: Passage) -> bool {
        &&& next.wf()
        &&& next.plan() == self.plan()
        &&& next.at() == self.at() + 1
        &&& next.trail() == self.trail().push(way)
    }

    /// A request at the first stage.
    pub fn start(plan: Vec<Stage>) -> (r: Self)
        requires
            is_plan(plan@),
        ensures
            r.wf(),
            r.plan() == plan@,
            r.at() == 0,
            r.id() is None,
            r.trail().len() == 0,
    {
        Run { plan, at: 0, request_id: None, trail: Ghost(Seq::empty()) }
    }

    /// The stage the request is at.
    pub fn stage(&self) -> (r: Stage)
        requires
            self.wf(),
        ensures
            r == self.here(),
    {
        self.plan[self.at]
    }

    /// The id of the request, once it is admitted.
    pub fn request_id(&self) -> (r: &Option<String>)
        ensures
            crate::nucleon_map::optional(*r) == self.id(),
    {
        &self.request_id
    }

    /// The seal, the bearer or the token held, or what was to be done is done.
    pub fn pass(&mut self)
        requires
            old(self).wf(),
            old(self).here() is Seal || old(self).here() is Bearer || old(self).here() is Token || old(self).here() is Perform,
        ensures
            old(self).advances(
                *final(self),
                if old(self).here() is Perform {
                    Passage::Done
                } else {
                    Passage::Cleared
                },
            ),
            final(self).id() == old(self).id(),
    {
        let ghost way = if self.here() is Perform {
            Passage::Done
        } else {
            Passage::Cleared
        };
        let count: usize = self.plan.len();
        assert(self.at + 1 < count);
        self.at = self.at + 1;
        self.trail = Ghost(self.trail@.push(way));
    }

    /// The request is admitted under an id.
    pub fn admitted(&mut self, request_id: &str)
        requires
            old(self).wf(),
            old(self).here() is Admit,
        ensures
            old(self).advances(*final(self), (Passage::Admitted { request_id: request_id@ })),
            final(self).id() == Some(request_id@),
    {
        self.request_id = Some(request_id.to_owned());
        let count: usize = self.plan.len();
        assert(self.at + 1 < count);
        self.at = self.at + 1;
        self.trail = Ghost(self.trail@.push(Passage::Admitted { request_id: request_id@ }));
    }

    /// Decides whether the caller may go on, by its token and the binding of
    /// exactly its claims: where the right comes from, or the refusal.
    pub fn authorise(&mut self, map: &HabilitationMap, jwt: &ValidatedJwt) -> (r: Result<GrantSource, Refusal>)
        requires
            old(self).wf(),
            old(self).here() is Scope,
            map.wf(),
        ensures
            ({
                let token = text::views(jwt.scopes@);
                let binding = nucleon_map::scopes_of(
                    nucleon_map::triple_binding(map.bindings(), jwt.iss@, jwt.sub@, jwt.aud@),
                );
                match scopes::decision(token, binding, old(self).here()->rule) {
                    Some(source) => {
                        &&& r == Ok::<GrantSource, Refusal>(source)
                        &&& old(self).advances(*final(self), (Passage::Allowed { token, binding }))
                        &&& final(self).id() == old(self).id()
                    },
                    None => {
                        &&& r matches Err(e) && error::says(e.error, 403, "forbidden"@) && e.error.request_id is None
                            && !e.counted
                        &&& *final(self) == *old(self)
                    },
                }
            }),
    {
        let rule = match self.stage() {
            Stage::Scope { rule, .. } => rule,
            _ => ScopeRule::MoleculeRead,
        };
        match authorise_scope(map, jwt, rule) {
            Ok(source) => {
                let count: usize = self.plan.len();
                assert(self.at + 1 < count);
                self.at = self.at + 1;
                self.trail = Ghost(
                    self.trail@.push(
                        Passage::Allowed {
                            token: text::views(jwt.scopes@),
                            binding: nucleon_map::scopes_of(
                                nucleon_map::triple_binding(map.bindings(), jwt.iss@, jwt.sub@, jwt.aud@),
                            ),
                        },
                    ),
                );
                Ok(source)
            },
            Err(error) => Err(Refusal { error, counted: false }),
        }
    }

    /// Decides the check the request is at by what was found: the request goes on
    /// where the fact holds, and is refused as the plan says where it does not,
    /// with the detail behind the id.
    pub fn judge(&mut self, found: &Evidence, detail: Option<&str>) -> (r: Result<(), Refusal>)
        requires
            old(self).wf(),
            old(self).here() is Check,
        ensures
            match old(self).here() {
                Stage::Check { fact, status, label, named, counted } => if evidence::holds(fact, *found) {
                    &&& r is Ok
                    &&& old(self).advances(*final(self), (Passage::Shown { evidence: *found }))
                    &&& final(self).id() == old(self).id()
                } else {
                    &&& r matches Err(e) && error::says(e.error, status, label@) && crate::nucleon_map::optional(
                        e.error.request_id,
                    ) == (if named {
                        id_with_detail(old(self).id(), crate::routes::view_of(detail))
                    } else {
                        None
                    }) && e.counted == counted
                    &&& *final(self) == *old(self)
                },
                _ => false,
            },
    {
        match self.stage() {
            Stage::Check { fact, status, label, named, counted } => {
                if decide(fact, found) {
                    let count: usize = self.plan.len();
                    assert(self.at + 1 < count);
                    self.at = self.at + 1;
                    self.trail = Ghost(self.trail@.push(Passage::Shown { evidence: *found }));
                    Ok(())
                } else {
                    let request_id = if named {
                        named_id(&self.request_id, detail)
                    } else {
                        None
                    };
                    Err(Refusal { error: ApiError { status, label, request_id }, counted })
                }
            },
            _ => Ok(()),
        }
    }

    /// Takes the drain slot of the noyau where it is free: the request goes on and
    /// the slot is held. Where a drain runs in the noyau, the request is refused as
    /// the plan says, and both stay as they were.
    pub fn take_slot(&mut self, drains: &mut DrainRegistry, noyau: &str) -> (r: Result<(), Refusal>)
        requires
            old(self).wf(),
            old(self).here() is Slot,
            old(drains).wf(),
        ensures
            final(drains).wf(),
            final(self).id() == old(self).id(),
            match old(self).here() {
                Stage::Slot { status, label } => if old(drains)@.contains(noyau@) {
                    &&& r matches Err(e) && error::says(e.error, status, label@) && crate::nucleon_map::optional(
                        e.error.request_id,
                    ) == old(self).id() && !e.counted
                    &&& *final(self) == *old(self)
                    &&& final(drains)@ == old(drains)@
                } else {
                    &&& r is Ok
                    &&& old(self).advances(*final(self), (Passage::Slotted { noyau: noyau@, active: old(drains)@ }))
                    &&& final(drains)@ == old(drains)@.insert(noyau@)
                },
                _ => false,
            },
    {
        match self.stage() {
            Stage::Slot { status, label } => {
                let ghost active = drains@;
                if drains.try_acquire(noyau) {
                    let count: usize = self.plan.len();
                    assert(self.at + 1 < count);
                    self.at = self.at + 1;
                    self.trail = Ghost(self.trail@.push(Passage::Slotted { noyau: noyau@, active }));
                    Ok(())
                } else {
                    assert(active.insert(noyau@) =~= active);
                    let request_id = named_id(&self.request_id, None);
                    Err(Refusal { error: ApiError { status, label, request_id }, counted: false })
                }
            },
            _ => Ok(()),
        }
    }

    /// What was done settles the request: nothing more is to be done.
    pub fn settle(&mut self)
        requires
            old(self).wf(),
            old(self).here() is Perform,
        ensures
            final(self).wf(),
            final(self).plan() == old(self).plan(),
            final(self).at() == old(self).plan().len() - 1,
            final(self).id() == old(self).id(),
            final(self).trail() == old(self).trail(),
    {
        self.at = self.plan.len() - 1;
    }

    /// The seal, the bearer, the token or the admission refused: with what they
    /// said, and with the id that the refused admission was given.
    pub fn reject(&self, status: u16, label: &'static str, request_id: Option<String>) -> (r: Refusal)
        requires
            self.wf(),
            self.here() is Seal || self.here() is Bearer || self.here() is Token || self.here() is Admit,
        ensures
            error::says(r.error, status, label@),
            r.error.request_id == request_id,
            r.counted == match self.here() {
                Stage::Bearer { metered } => metered,
                Stage::Token { metered } => metered,
                Stage::Admit { metered, .. } => metered,
                _ => false,
            },
    {
        let counted = match self.stage() {
            Stage::Bearer { metered } => metered,
            Stage::Token { metered } => metered,
            Stage::Admit { metered, .. } => metered,
            _ => false,
        };
        Refusal { error: ApiError { status, label, request_id }, counted }
    }

    /// What was to be done failed: with the status and label of the failure, and
    /// the id of the request.
    pub fn fault(&self, status: u16, label: &'static str) -> (r: Refusal)
        requires
            self.wf(),
            self.here() is Perform,
        ensures
            error::says(r.error, status, label@),
            crate::nucleon_map::optional(r.error.request_id) == self.id(),
            !r.counted,
    {
        Refusal { error: ApiError { status, label, request_id: named_id(&self.request_id, None) }, counted: false }
    }

    /// The status of the answer, where the request has come to it, with the status
    /// of what was done.
    pub fn answer(&self, outcome: u16) -> (r: Option<u16>)
        requires
            self.wf(),
        ensures
            r is Some <==> self.at() == self.plan().len() - 1,
            r is Some ==> match self.here() {
                Stage::Answer { status } => r == Some(status),
                _ => r == Some(outcome),
            },
    {
        match self.stage() {
            Stage::Answer { status } => Some(status),
            Stage::Report => Some(outcome),
            _ => None,
        }
    }
}

/// A check of the fact held on the way.
pub open spec fn has_shown(run: Run, fact: Fact) -> bool {
    exists|k: int| 0 <= k < run.trail().len() && #[trigger] shows(run.plan()[k], run.trail()[k], fact)
}

pub open spec fn shows(stage: Stage, way: Passage, fact: Fact) -> bool {
    &&& stage matches Stage::Check { fact: f, .. } && f == fact
    &&& way matches Passage::Shown { evidence } && evidence::holds(fact, evidence)
}

/// The slot of the noyau was free on the way, and was taken.
pub open spec fn took_slot(run: Run, noyau: Seq<char>) -> bool {
    exists|k: int| 0 <= k < run.trail().len() && #[trigger] slots(run.plan()[k], run.trail()[k], noyau)
}

pub open spec fn slots(stage: Stage, way: Passage, noyau: Seq<char>) -> bool {
    &&& stage is Slot
    &&& way matches Passage::Slotted { noyau: n, active } && n == noyau && !active.contains(noyau)
}

/// The caller had the scope on the way.
pub open spec fn was_allowed(run: Run, rule: ScopeRule) -> bool {
    exists|k: int| 0 <= k < run.trail().len() && #[trigger] allows(run.plan()[k], run.trail()[k], rule)
}

pub open spec fn allows(stage: Stage, way: Passage, rule: ScopeRule) -> bool {
    &&& stage matches Stage::Scope { rule: r, .. } && r == rule
    &&& way matches Passage::Allowed { token, binding } && scopes::decision(token, binding, rule) is Some
}

/// The request has come past no stage that it was not let through: where it is
/// at something to do, every stage before it was passed.
pub proof fn law_no_stage_is_skipped(run: Run, k: int)
    requires
        run.wf(),
        run.here() is Perform || run.here() is Check || run.here() is Slot,
        0 <= k < run.at(),
    ensures
        passed(run.plan()[k], run.trail()[k]),
        run.plan()[k] matches Stage::Check { fact, .. } ==> has_shown(run, fact),
        run.plan()[k] matches Stage::Scope { rule, .. } ==> was_allowed(run, rule),
        run.plan()[k] is Slot ==> run.trail()[k] is Slotted && took_slot(run, run.trail()[k]->noyau),
{
    assert(!ends(run.here()));
    assert(passed(run.plan()[k], run.trail()[k]));
    match run.plan()[k] {
        Stage::Check { fact, .. } => {
            assert(shows(run.plan()[k], run.trail()[k], fact));
        },
        Stage::Scope { rule, .. } => {
            assert(allows(run.plan()[k], run.trail()[k], rule));
        },
        Stage::Slot { .. } => {
            assert(slots(run.plan()[k], run.trail()[k], run.trail()[k]->noyau));
        },
        _ => {},
    }
}

// ---------------------------------------------------------------------------
// What holds of plans
// ---------------------------------------------------------------------------

/// Some stage before `i` is a bearer check, and so on for the other gates.
pub open spec fn bearer_before(p: Seq<Stage>, i: int) -> bool {
    exists|k: int| 0 <= k < i && #[trigger] p[k] is Bearer
}

pub open spec fn token_before(p: Seq<Stage>, i: int) -> bool {
    exists|k: int| 0 <= k < i && #[trigger] p[k] is Token
}

pub open spec fn scope_before(p: Seq<Stage>, i: int) -> bool {
    exists|k: int| 0 <= k < i && #[trigger] p[k] is Scope
}

pub open spec fn admission_before(p: Seq<Stage>, i: int) -> bool {
    exists|k: int| 0 <= k < i && #[trigger] p[k] is Admit
}

pub open spec fn seal_before(p: Seq<Stage>, i: int) -> bool {
    exists|k: int| 0 <= k < i && #[trigger] p[k] is Seal
}

/// A plan for tenants: no stage looks at the tenant's state or does anything
/// unless a bearer was there, its token verified, the caller had the scope and
/// the request was admitted; and of the request itself nothing is looked at
/// before the scope.
pub open spec fn gated(p: Seq<Stage>) -> bool {
    &&& is_plan(p)
    &&& p[0] is Bearer
    &&& p[1] is Token
    &&& forall|i: int|
        #![trigger p[i]]
        0 <= i < p.len() ==> match p[i] {
            Stage::Check { fact, .. } => scope_before(p, i) && (of_the_request(fact) || admission_before(p, i)),
            Stage::Slot { .. } => bearer_before(p, i) && token_before(p, i) && scope_before(p, i) && admission_before(p, i),
            Stage::Perform { .. } => bearer_before(p, i) && token_before(p, i) && scope_before(p, i) && admission_before(p, i),
            Stage::Answer { .. } => scope_before(p, i) && admission_before(p, i),
            Stage::Report => scope_before(p, i) && admission_before(p, i),
            Stage::Seal => false,
            _ => true,
        }
}

/// A request of a tenant that is at something to do has a bearer and a token that
/// verified, a scope that was granted, and an id it was admitted under.
pub proof fn law_effects_are_authorised(run: Run)
    requires
        run.wf(),
        gated(run.plan()),
        run.here() is Perform,
    ensures
        run.id() is Some,
        exists|k: int| 0 <= k < run.at() && #[trigger] run.plan()[k] is Bearer && run.trail()[k] is Cleared,
        exists|k: int| 0 <= k < run.at() && #[trigger] run.plan()[k] is Token && run.trail()[k] is Cleared,
        exists|rule: ScopeRule| was_allowed(run, rule),
{
    let p = run.plan();
    let i = run.at();
    assert(p[i] is Perform);
    assert(!ends(p[i]));
    let b = choose|k: int| 0 <= k < i && #[trigger] p[k] is Bearer;
    assert(passed(p[b], run.trail()[b]));
    let t = choose|k: int| 0 <= k < i && #[trigger] p[k] is Token;
    assert(passed(p[t], run.trail()[t]));
    let c = choose|k: int| 0 <= k < i && #[trigger] p[k] is Scope;
    law_no_stage_is_skipped(run, c);
    let a = choose|k: int| 0 <= k < i && #[trigger] p[k] is Admit;
    assert(passed(p[a], run.trail()[a]));
}

/// A plan for tenants, by where its last scope check and its admission stand.
pub proof fn lemma_gated(p: Seq<Stage>, scope: int, admission: int)
    requires
        is_plan(p),
        p.len() >= 4,
        p[0] is Bearer,
        p[1] is Token,
        2 <= scope < p.len(),
        p[scope] is Scope,
        2 <= admission < p.len(),
        p[admission] is Admit,
        forall|i: int|
            #![trigger p[i]]
            0 <= i < p.len() ==> match p[i] {
                Stage::Check { fact, .. } => scope < i && (of_the_request(fact) || admission < i),
                Stage::Slot { .. } => scope < i && admission < i,
                Stage::Perform { .. } => scope < i && admission < i,
                Stage::Seal => false,
                _ => true,
            },
    ensures
        gated(p),
{
    assert forall|i: int| #![trigger p[i]] 0 <= i < p.len() implies match p[i] {
        Stage::Check { fact, .. } => scope_before(p, i) && (of_the_request(fact) || admission_before(p, i)),
        Stage::Slot { .. } => bearer_before(p, i) && token_before(p, i) && scope_before(p, i) && admission_before(p, i),
        Stage::Perform { .. } => bearer_before(p, i) && token_before(p, i) && scope_before(p, i) && admission_before(p, i),
        Stage::Answer { .. } => scope_before(p, i) && admission_before(p, i),
        Stage::Report => scope_before(p, i) && admission_before(p, i),
        Stage::Seal => false,
        _ => true,
    } by {
        assert(p[0] is Bearer && p[1] is Token && p[scope] is Scope && p[admission] is Admit);
        if ends(p[i]) {
            assert(i == p.len() - 1);
        }
    }
}

// ---------------------------------------------------------------------------
// Laws
// ---------------------------------------------------------------------------


/// Of these alone the request itself decides.
pub proof fn law_facts_of_the_request(f: Fact)
    ensures
        of_the_request(f) <==> (f == Fact::JsonBody
            || f == Fact::FormulaGiven
            || f == Fact::VariablesAreAnObject
            || f == Fact::VariablesAreTexts
            || f == Fact::TagsGiven
            || f == Fact::AddedTagsValid
            || f == Fact::RemovedTagsValid
            || f == Fact::ReasonGiven
            || f == Fact::AvatarIdGiven
            || f == Fact::MessageGiven
            || f == Fact::SourceGiven
            || f == Fact::DataGiven
            || f == Fact::IntegrityGiven
            || f == Fact::IntegrityAgrees),
{
}

/// The refusal of a check carries the id of the request, that of an early check none;
/// neither is counted.
pub proof fn law_checks_are_named_and_early_checks_are_not(fact: Fact, status: u16, label: &'static str)
    ensures
        check(fact, status, label) == (Stage::Check { fact, status, label, named: true, counted: false }),
        early_check(fact, status, label) == (Stage::Check { fact, status, label, named: false, counted: false }),
{
}

/// A plan has one answer, and it stands at the end.
pub proof fn law_plans_end_in_their_answer(p: Seq<Stage>)
    ensures
        is_plan(p) <==> p.len() > 0 && (p.last() is Answer || p.last() is Report) && (forall|i: int|
            0 <= i < p.len() - 1 ==> !(#[trigger] p[i] is Answer) && !(p[i] is Report)),
{
}

/// A detail stands behind the id, and nowhere without one.
pub proof fn law_details_stand_behind_the_id(id: Seq<char>, detail: Seq<char>)
    ensures
        id_with_detail(Some(id), Some(detail)) == Some(id + ": "@ + detail),
        id_with_detail(Some(id), None) == Some(id),
        id_with_detail(None, Some(detail)) is None,
        id_with_detail(None, None) is None,
{
}

/// A scope was passed by a right to it, a check by what shows its fact, a slot while
/// the noyau had no drain, and the answer is passed by nothing.
pub proof fn law_how_a_stage_is_passed(stage: Stage, way: Passage)
    requires
        passed(stage, way),
    ensures
        stage is Seal || stage is Bearer || stage is Token ==> way is Cleared,
        stage matches Stage::Scope { rule, .. } ==> way is Allowed && scopes::decision(
            way->Allowed_token,
            way->Allowed_binding,
            rule,
        ) is Some,
        stage is Admit ==> way is Admitted,
        stage matches Stage::Check { fact, .. } ==> way is Shown && evidence::holds(fact, way->evidence),
        stage is Slot ==> way is Slotted && !way->active.contains(way->noyau),
        stage is Perform ==> way is Done,
        !(stage is Answer) && !(stage is Report),
{
}

/// A request that goes on passes one stage of the same plan, and the way it was passed
/// stands behind the others.
pub proof fn law_one_stage_at_a_time(run: Run, next: Run, way: Passage)
    requires
        run.wf(),
        run.advances(next, way),
    ensures
        next.wf(),
        next.plan() == run.plan(),
        next.at() == run.at() + 1,
        next.trail().len() == run.trail().len() + 1,
        next.trail().last() == way,
        forall|k: int| 0 <= k < run.trail().len() ==> next.trail()[k] == #[trigger] run.trail()[k],
{
}

/// A request is at a stage of its plan. Before the answer it has passed as many stages
/// as lie behind it, and has an id once it was admitted.
pub proof fn law_where_a_request_is(run: Run, k: int)
    requires
        run.wf(),
    ensures
        is_plan(run.plan()),
        0 <= run.at() < run.plan().len(),
        run.here() == run.plan()[run.at()],
        run.at() < run.plan().len() - 1 ==> run.trail().len() == run.at(),
        run.trail().len() <= run.at(),
        0 <= k < run.trail().len() ==> passed(run.plan()[k], run.trail()[k]),
        0 <= k < run.trail().len() && run.plan()[k] is Admit ==> run.id() is Some,
{
    if 0 <= k < run.trail().len() {
        assert(passed(run.plan()[k], run.trail()[k]));
    }
}

/// What was shown, allowed or taken on the way was so at some stage for it.
pub proof fn law_what_lies_behind_a_request(run: Run, fact: Fact, rule: ScopeRule, noyau: Seq<char>)
    ensures
        has_shown(run, fact) ==> exists|k: int|
            0 <= k < run.trail().len() && #[trigger] run.plan()[k] is Check && run.plan()[k]->fact == fact
                && run.trail()[k] is Shown && evidence::holds(fact, run.trail()[k]->evidence),
        was_allowed(run, rule) ==> exists|k: int|
            0 <= k < run.trail().len() && #[trigger] run.plan()[k] is Scope && run.plan()[k]->rule == rule
                && run.trail()[k] is Allowed && scopes::decision(
                run.trail()[k]->Allowed_token,
                run.trail()[k]->Allowed_binding,
                rule,
            ) is Some,
        took_slot(run, noyau) ==> exists|k: int|
            0 <= k < run.trail().len() && #[trigger] run.plan()[k] is Slot && run.trail()[k] is Slotted
                && run.trail()[k]->noyau == noyau && !run.trail()[k]->active.contains(noyau),
{
    if has_shown(run, fact) {
        let k = choose|k: int| 0 <= k < run.trail().len() && #[trigger] shows(run.plan()[k], run.trail()[k], fact);
        assert(run.plan()[k] is Check);
    }
    if was_allowed(run, rule) {
        let k = choose|k: int| 0 <= k < run.trail().len() && #[trigger] allows(run.plan()[k], run.trail()[k], rule);
        assert(run.plan()[k] is Scope);
    }
    if took_slot(run, noyau) {
        let k = choose|k: int| 0 <= k < run.trail().len() && #[trigger] slots(run.plan()[k], run.trail()[k], noyau);
        assert(run.plan()[k] is Slot);
    }
}

/// In a plan for tenants whatever is done, taken, or looked up in the tenant's state
/// stands behind a bearer, a token, a scope and an admission.
pub proof fn law_gates_of_a_tenant(p: Seq<Stage>, i: int)
    requires
        gated(p),
        0 <= i < p.len(),
        p[i] is Perform || p[i] is Slot || (p[i] is Check && !of_the_request(p[i]->fact)),
    ensures
        exists|k: int| 0 <= k < i && #[trigger] p[k] is Scope,
        exists|k: int| 0 <= k < i && #[trigger] p[k] is Admit,
        i > 1,
        p[0] is Bearer,
        p[1] is Token,
{
    assert(p[i] == p[i]);
}

/// In a plan for tenants nothing of the request is looked at before the scope, and no
/// seal is asked for.
pub proof fn law_scopes_come_first(p: Seq<Stage>, i: int)
    requires
        gated(p),
        0 <= i < p.len(),
    ensures
        p[i] is Check ==> exists|k: int| 0 <= k < i && #[trigger] p[k] is Scope,
        !(p[i] is Seal),
{
    assert(p[i] == p[i]);
}

} // verus!
