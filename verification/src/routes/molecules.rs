//! The routes of molecules: who is let through, in which order a request is
//! checked, and how every failure is answered.

use vstd::prelude::*;
use crate::clock;
use crate::clock::{timestamp_text, Timestamp};
use crate::error;
use crate::error::{ApiError, RppRejectReason};
use crate::json;
use crate::json::{Json, JsonView};
use crate::nucleon_map::DrainBounds;
use crate::pipeline::{check, early_check, Effect, Fact, Stage, Verb};
use crate::scopes::ScopeRule;
use crate::text;
use crate::text::{concat, is_blank, same_text, trim, without_prefix};

verus! {

// ---------------------------------------------------------------------------
// The bearer
// ---------------------------------------------------------------------------

/// The `Authorization` header of a request.
#[derive(Clone, Debug)]
pub enum AuthorizationHeader {
    Absent,
    /// Its bytes are no text.
    Opaque,
    Text(String),
}

/// The token of a text header: behind `Bearer ` or `bearer `, trimmed.
pub open spec fn bearer_in(s: Seq<char>) -> Option<Seq<char>> {
    if text::starts_with(s, "Bearer "@) {
        Some(text::trimmed(s.skip(7)))
    } else if text::starts_with(s, "bearer "@) {
        Some(text::trimmed(s.skip(7)))
    } else {
        None
    }
}

/// The bearer token of a request.
pub fn extract_bearer(header: &AuthorizationHeader) -> (r: Result<String, RppRejectReason>)
    ensures
        match *header {
            AuthorizationHeader::Absent => r == Err::<String, _>(RppRejectReason::MissingAuthorization),
            AuthorizationHeader::Opaque => r == Err::<String, _>(RppRejectReason::MalformedJwt),
            AuthorizationHeader::Text(s) => match r {
                Ok(token) => bearer_in(s@) == Some(token@),
                Err(e) => bearer_in(s@) is None && e == RppRejectReason::MalformedJwt,
            },
        },
{
    match header {
        AuthorizationHeader::Absent => Err(RppRejectReason::MissingAuthorization),
        AuthorizationHeader::Opaque => Err(RppRejectReason::MalformedJwt),
        AuthorizationHeader::Text(s) => {
            proof {
                reveal_strlit("Bearer ");
                reveal_strlit("bearer ");
            }
            match without_prefix(s.as_str(), "Bearer ") {
                Some(rest) => Ok(trim(rest.as_str())),
                None => match without_prefix(s.as_str(), "bearer ") {
                    Some(rest) => Ok(trim(rest.as_str())),
                    None => Err(RppRejectReason::MalformedJwt),
                },
            }
        },
    }
}

// ---------------------------------------------------------------------------
// Live workers
// ---------------------------------------------------------------------------

/// How many workers of a noyau may be alive at once.
pub const DEFAULT_TACKLE_CEILING_PER_NOYAU: usize = 4;

/// The worker process that a molecule's state records, and what the system says
/// of its number now.
#[derive(Clone, Copy, Debug, PartialEq, Eq, Structural)]
pub struct ProcessRecord {
    pub active: bool,
    pub pid: Option<u32>,
    pub pid_start_time: Option<u64>,
    /// When the process that now has the number started; none where no process
    /// has it.
    pub witnessed_start: Option<u64>,
}

/// The record still names the process it was made for. A record without a number
/// counts as live; one with a number does so only where the process that has it
/// now started when the record says.
pub open spec fn same_process(pid: Option<u32>, start: Option<u64>, witnessed: Option<u64>) -> bool {
    pid is Some ==> (start is Some && witnessed == start)
}

/// Tells whether the record still names the process it was made for.
pub fn recorded_process_is_live(pid: Option<u32>, pid_start_time: Option<u64>, witnessed_start: Option<u64>) -> (r: bool)
    ensures
        r == same_process(pid, pid_start_time, witnessed_start),
{
    if pid.is_none() {
        return true;
    }
    match pid_start_time {
        None => false,
        Some(expected) => match witnessed_start {
            Some(actual) => actual == expected,
            None => false,
        },
    }
}

/// The record is of a live worker.
pub open spec fn is_live(p: ProcessRecord) -> bool {
    p.active && same_process(p.pid, p.pid_start_time, p.witnessed_start)
}

/// Tells whether the record is of a live worker.
pub fn has_live_worker(process: Option<ProcessRecord>) -> (r: bool)
    ensures
        r == (process matches Some(p) && is_live(p)),
{
    match process {
        Some(p) => p.active && recorded_process_is_live(p.pid, p.pid_start_time, p.witnessed_start),
        None => false,
    }
}

pub open spec fn live_count(records: Seq<ProcessRecord>) -> nat
    decreases records.len(),
{
    if records.len() == 0 {
        0
    } else {
        live_count(records.drop_last()) + if is_live(records.last()) {
            1nat
        } else {
            0nat
        }
    }
}

/// How many workers of a noyau are alive, by the records of its molecules. Where
/// they cannot be read, none count.
pub fn count_live_workers(records: &Option<Vec<ProcessRecord>>) -> (r: usize)
    ensures
        r == match *records {
            Some(v) => live_count(v@),
            None => 0,
        },
{
    match records {
        None => 0,
        Some(v) => {
            let mut n: usize = 0;
            let mut i: usize = 0;
            assert(v@.take(0) =~= Seq::<ProcessRecord>::empty());
            while i < v.len()
                invariant
                    i <= v@.len(),
                    n <= i,
                    n == live_count(v@.take(i as int)),
                decreases v@.len() - i,
            {
                proof {
                    assert(v@.take(i + 1).drop_last() =~= v@.take(i as int));
                    assert(v@.take(i + 1).last() == v@[i as int]);
                }
                if has_live_worker(Some(v[i])) {
                    n += 1;
                }
                i += 1;
            }
            assert(v@.take(i as int) =~= v@);
            n
        },
    }
}

/// Tells whether one more worker may be started.
pub fn below_ceiling(live_workers: usize) -> (r: bool)
    ensures
        r == (live_workers < DEFAULT_TACKLE_CEILING_PER_NOYAU),
{
    live_workers < DEFAULT_TACKLE_CEILING_PER_NOYAU
}

// ---------------------------------------------------------------------------
// Bodies
// ---------------------------------------------------------------------------

/// The texts of an object's fields, in order, without the nulls; none where a
/// field holds anything else.
pub open spec fn text_fields(fields: Seq<(Seq<char>, JsonView)>) -> Option<Seq<(Seq<char>, Seq<char>)>>
    decreases fields.len(),
{
    if fields.len() == 0 {
        Some(Seq::empty())
    } else {
        match text_fields(fields.drop_last()) {
            None => None,
            Some(head) => match fields.last().1 {
                JsonView::Text(s) => Some(head.push((fields.last().0, s))),
                JsonView::Null => Some(head),
                _ => None,
            },
        }
    }
}

pub open spec fn pairs(v: Seq<(String, String)>) -> Seq<(Seq<char>, Seq<char>)> {
    Seq::new(v.len(), |i: int| (v[i].0@, v[i].1@))
}

pub open spec fn variables_view(raw: Option<&Json>) -> Option<JsonView> {
    match raw {
        Some(j) => Some(j@),
        None => None,
    }
}

/// The variables of a body, or the label of the refusal.
pub open spec fn variables_of(raw: Option<JsonView>) -> Result<Seq<(Seq<char>, Seq<char>)>, Seq<char>> {
    match raw {
        None => Ok(Seq::empty()),
        Some(JsonView::Null) => Ok(Seq::empty()),
        Some(JsonView::Object(fields)) => match text_fields(fields) {
            Some(found) => Ok(found),
            None => Err("variables_not_string"@),
        },
        Some(_) => Err("variables_not_object"@),
    }
}

proof fn lemma_bad_field(fields: Seq<(Seq<char>, JsonView)>, n: int)
    requires
        0 <= n <= fields.len(),
        text_fields(fields.take(n)) is None,
    ensures
        text_fields(fields) is None,
    decreases fields.len(),
{
    if n < fields.len() {
        assert(fields.drop_last().take(n) =~= fields.take(n));
        lemma_bad_field(fields.drop_last(), n);
    } else {
        assert(fields.take(n) =~= fields);
    }
}

/// The variables of a body: the texts of an object's fields.
pub fn parse_variables(raw: Option<&Json>) -> (r: Result<Vec<(String, String)>, &'static str>)
    ensures
        match r {
            Ok(v) => variables_of(variables_view(raw)) == Ok::<_, Seq<char>>(pairs(v@)),
            Err(label) => variables_of(variables_view(raw)) == Err::<Seq<(Seq<char>, Seq<char>)>, _>(label@),
        },
{
    let mut out: Vec<(String, String)> = Vec::new();
    assert(pairs(out@) =~= Seq::<(Seq<char>, Seq<char>)>::empty());
    let value: &Json = match raw {
        None => return Ok(out),
        Some(v) => v,
    };
    match value {
        Json::Null => Ok(out),
        Json::Object(fields) => {
            let ghost all = value@->Object_0;
            let mut i: usize = 0;
            assert(all.take(0) =~= Seq::<(Seq<char>, JsonView)>::empty());
            while i < fields.len()
                invariant
                    i <= fields@.len(),
                    *value matches Json::Object(f) && f == fields,
                    value@ is Object,
                    all == value@->Object_0,
                    all.len() == fields@.len(),
                    variables_view(raw) == Some(value@),
                    text_fields(all.take(i as int)) == Some(pairs(out@)),
                decreases fields@.len() - i,
            {
                let ghost before = pairs(out@);
                proof {
                    assert(all.take(i + 1).drop_last() =~= all.take(i as int));
                    assert(all.take(i + 1).last() == all[i as int]);
                    assert(all[i as int] == (fields@[i as int].0@, json::json_view(fields@[i as int].1)));
                }
                match &fields[i].1 {
                    Json::Text(s) => {
                        out.push((fields[i].0.clone(), s.clone()));
                        assert(pairs(out@) =~= before.push((fields@[i as int].0@, s@)));
                    },
                    Json::Null => {},
                    _ => {
                        proof {
                            lemma_bad_field(all, i + 1);
                        }
                        return Err("variables_not_string");
                    },
                }
                i += 1;
            }
            assert(all.take(i as int) =~= all);
            Ok(out)
        },
        _ => Err("variables_not_object"),
    }
}

/// The body of `POST /v1/molecules`.
#[derive(Debug)]
pub struct NucleateBody {
    pub formula: String,
    pub kind: Option<String>,
    pub variables: Option<Json>,
    pub tags: Option<Vec<String>>,
    pub blocked_by: Option<Vec<String>>,
}

/// What is asked of the store to make a molecule.
#[derive(Clone, Debug)]
pub struct NucleateRequest {
    pub formula: String,
    pub kind: Option<String>,
    pub variables: Vec<(String, String)>,
    pub tags: Vec<String>,
    pub blocked_by: Vec<String>,
    pub fleet: String,
}

pub open spec fn list_or_empty(v: Option<Vec<String>>) -> Seq<String> {
    match v {
        Some(list) => list@,
        None => Seq::empty(),
    }
}

/// What the body of a nucleation asks for, or its refusal.
pub fn nucleate_request(body: NucleateBody) -> (r: Result<NucleateRequest, ApiError>)
    ensures
        ({
            let found = variables_of(json::document_view(body.variables));
            match r {
                Ok(req) => {
                    &&& !text::blank(body.formula@)
                    &&& req.formula@ == text::trimmed(body.formula@)
                    &&& req.kind == body.kind
                    &&& found == Ok::<_, Seq<char>>(pairs(req.variables@))
                    &&& req.tags@ == list_or_empty(body.tags)
                    &&& req.blocked_by@ == list_or_empty(body.blocked_by)
                    &&& req.fleet@ == "default"@
                },
                Err(e) => {
                    &&& e.request_id is None
                    &&& if text::blank(body.formula@) {
                        error::says(e, 400, "missing_formula"@)
                    } else {
                        found is Err && error::says(e, 400, found->Err_0)
                    }
                },
            }
        }),
{
    let formula = trim(body.formula.as_str());
    if formula.as_str().is_empty() {
        return Err(ApiError::with_status(400, "missing_formula"));
    }
    let raw: Option<&Json> = match &body.variables {
        Some(j) => Some(j),
        None => None,
    };
    assert(variables_view(raw) == json::document_view(body.variables));
    let variables = match parse_variables(raw) {
        Ok(v) => v,
        Err(label) => return Err(ApiError::with_status(400, label)),
    };
    Ok(
        NucleateRequest {
            formula,
            kind: body.kind,
            variables,
            tags: match body.tags {
                Some(v) => v,
                None => Vec::new(),
            },
            blocked_by: match body.blocked_by {
                Some(v) => v,
                None => Vec::new(),
            },
            fleet: "default".to_owned(),
        },
    )
}

/// The `Location` of a molecule.
pub fn location_of(molecule_id: &str) -> (r: String)
    ensures
        r@ == "/v1/molecules/"@ + molecule_id@,
{
    concat("/v1/molecules/", molecule_id)
}

/// The body of `POST /v1/molecules/{id}/tags`.
#[derive(Clone, Debug)]
pub struct TagBody {
    pub add: Option<Vec<String>>,
    pub remove: Option<Vec<String>>,
}

/// Tells whether a tag request names a tag at all.
pub fn names_a_tag(body: &TagBody) -> (r: bool)
    ensures
        r == (list_or_empty(body.add).len() > 0 || list_or_empty(body.remove).len() > 0),
{
    let adds = match &body.add {
        Some(v) => v.len() > 0,
        None => false,
    };
    let removes = match &body.remove {
        Some(v) => v.len() > 0,
        None => false,
    };
    adds || removes
}

/// The query of `GET /v1/molecules`.
#[derive(Clone, Debug)]
pub struct EnsembleQuery {
    pub status: Option<String>,
    pub kind: Option<String>,
    pub tag: Option<String>,
    pub fleet: Option<String>,
}

impl Default for EnsembleQuery {
    fn default() -> (r: Self)
        ensures
            r.status is None,
            r.kind is None,
            r.tag is None,
            r.fleet is None,
    {
        EnsembleQuery { status: None, kind: None, tag: None, fleet: None }
    }
}

/// What is asked of the store to list molecules.
#[derive(Clone, Debug)]
pub struct EnsembleRequest {
    pub status: Option<String>,
    pub kind: Option<String>,
    pub tag_globs: Vec<String>,
    pub fleet: Option<String>,
}

/// What a query asks for: its tag, where it names one, is the only pattern.
pub fn ensemble_request(query: EnsembleQuery) -> (r: EnsembleRequest)
    ensures
        r.status == query.status,
        r.kind == query.kind,
        r.fleet == query.fleet,
        r.tag_globs@ == match query.tag {
            Some(t) => seq![t],
            None => Seq::<String>::empty(),
        },
{
    let mut tag_globs: Vec<String> = Vec::new();
    match query.tag {
        Some(t) => {
            tag_globs.push(t);
            assert(tag_globs@ =~= seq![t]);
        },
        None => {},
    }
    EnsembleRequest { status: query.status, kind: query.kind, tag_globs, fleet: query.fleet }
}

/// The body of `POST /v1/molecules/{id}/collapse`.
#[derive(Clone, Debug)]
pub struct CollapseBody {
    pub reason: String,
    pub cause: Option<String>,
    pub account: Option<String>,
    pub kind: Option<String>,
}

/// The body of `POST /v1/molecules/{id}/stuck`.
#[derive(Clone, Debug)]
pub struct StuckBody {
    pub reason: String,
}

/// Tells whether a reason says anything.
pub fn gives_a_reason(reason: &str) -> (r: bool)
    ensures
        r == !text::blank(reason@),
{
    !is_blank(reason)
}

/// The state that `POST /v1/molecules/{id}/freeze` asks for.
#[derive(Clone, Copy, Debug, PartialEq, Eq, Structural)]
pub enum FreezeState {
    Frozen,
    Active,
}

/// The body of `POST /v1/molecules/{id}/freeze`.
#[derive(Clone, Debug)]
pub struct FreezeBody {
    pub state: FreezeState,
    pub reason: Option<String>,
}

/// What the removed `POST /v1/molecules/{id}/thaw` answers.
#[derive(Clone, Copy, Debug)]
pub struct ThawGone {
    pub error: &'static str,
    pub hint: &'static str,
    pub removed_in: &'static str,
    pub fallback_until: &'static str,
}

/// The answer of the removed route: gone, with a hint at the one that took its
/// place.
pub fn thaw_gone_handler() -> (r: (u16, ThawGone))
    ensures
        r.0 == 410,
        r.1.error@ == "endpoint_removed"@,
        r.1.hint@ == "POST /v1/molecules/{id}/freeze {\"state\":\"active\",\"reason\":\"...\"}"@,
        r.1.removed_in@ == "v1.0.0-rc"@,
        r.1.fallback_until@ == "v1.2.0"@,
{
    (
        410,
        ThawGone {
            error: "endpoint_removed",
            hint: "POST /v1/molecules/{id}/freeze {\"state\":\"active\",\"reason\":\"...\"}",
            removed_in: "v1.0.0-rc",
            fallback_until: "v1.2.0",
        },
    )
}

/// How a branch is merged.
#[derive(Clone, Copy, Debug, PartialEq, Eq, Structural)]
pub enum MergeStrategy {
    Merge,
    FfOnly,
}

/// The body of `POST /v1/molecules/{id}/done`.
#[derive(Clone, Debug)]
pub struct DoneBody {
    pub reason: Option<String>,
    pub strategy: Option<String>,
    pub force: Option<bool>,
    pub if_completed: Option<bool>,
    pub no_merge: Option<bool>,
    pub no_worktree_remove: Option<bool>,
    pub no_branch_delete: Option<bool>,
    pub no_kill: Option<bool>,
    pub no_auto_propel: Option<bool>,
    pub propel_message: Option<String>,
    pub max_retries: Option<u32>,
    pub skip_pre_done_hook: Option<bool>,
    pub deploy_off_trunk: Option<bool>,
}

/// How a molecule is to be harvested.
#[derive(Clone, Debug)]
pub struct HarvestOptions {
    pub reason: String,
    pub strategy: MergeStrategy,
    pub force: bool,
    pub if_completed: bool,
    pub no_merge: bool,
    pub no_worktree_remove: bool,
    pub no_branch_delete: bool,
    pub no_kill: bool,
    pub no_auto_propel: bool,
    pub propel_message: Option<String>,
    pub max_retries: u32,
    pub skip_pre_done_hook: bool,
    pub deploy_off_trunk: bool,
}

/// The strategy that a body names: to merge, unless it says otherwise.
pub open spec fn strategy_of(token: Option<Seq<char>>) -> Option<MergeStrategy> {
    match token {
        None => Some(MergeStrategy::Merge),
        Some(t) => if t == "merge"@ {
            Some(MergeStrategy::Merge)
        } else if t == "ff-only"@ {
            Some(MergeStrategy::FfOnly)
        } else {
            None
        },
    }
}

/// The strategy that a token names.
fn strategy_named(token: Option<&str>) -> (r: Option<MergeStrategy>)
    ensures
        r == strategy_of(crate::routes::view_of(token)),
{
    match token {
        None => Some(MergeStrategy::Merge),
        Some(t) => if same_text(t, "merge") {
            Some(MergeStrategy::Merge)
        } else if same_text(t, "ff-only") {
            Some(MergeStrategy::FfOnly)
        } else {
            None
        },
    }
}

/// Tells whether a body names a strategy that there is.
pub fn known_strategy(token: Option<&str>) -> (r: bool)
    ensures
        r == (strategy_of(crate::routes::view_of(token)) is Some),
{
    strategy_named(token).is_some()
}

pub open spec fn flag(v: Option<bool>, otherwise: bool) -> bool {
    match v {
        Some(b) => b,
        None => otherwise,
    }
}

/// The options are those that the body asks for.
pub open spec fn options_follow(body: DoneBody, o: HarvestOptions) -> bool {
    &&& strategy_of(crate::nucleon_map::optional(body.strategy)) == Some(o.strategy)
    &&& o.reason@ == match body.reason {
        Some(s) => s@,
        None => Seq::empty(),
    }
    &&& o.force == flag(body.force, false)
    &&& o.if_completed == flag(body.if_completed, false)
    &&& o.no_merge == flag(body.no_merge, false)
    &&& o.no_worktree_remove == flag(body.no_worktree_remove, false)
    &&& o.no_branch_delete == flag(body.no_branch_delete, false)
    &&& o.no_kill == flag(body.no_kill, false)
    &&& o.no_auto_propel == flag(body.no_auto_propel, true)
    &&& o.propel_message == body.propel_message
    &&& o.max_retries == match body.max_retries {
        Some(n) => n,
        None => 0,
    }
    &&& o.skip_pre_done_hook == flag(body.skip_pre_done_hook, false)
    &&& o.deploy_off_trunk == flag(body.deploy_off_trunk, false)
}

impl DoneBody {
    /// The body asks for what may send a worker instructions: the flag that keeps
    /// a merge conflict from it is cleared, and it has tries for that.
    pub open spec fn escalates(self) -> bool {
        !flag(self.no_auto_propel, true) && (self.max_retries is Some && self.max_retries->0 > 0)
    }

    /// Tells whether the body asks for what may send a worker instructions.
    pub fn asks_for_escalation(&self) -> (r: bool)
        ensures
            r == self.escalates(),
    {
        let kept_back = match self.no_auto_propel {
            Some(b) => b,
            None => true,
        };
        let tries: u32 = match self.max_retries {
            Some(n) => n,
            None => 0,
        };
        !kept_back && tries > 0
    }

    /// The options that the body asks for. Every flag is off unless set, but for
    /// the one that keeps a merge conflict from being escalated to the worker: it
    /// is on unless cleared.
    pub fn into_options(self) -> (r: Result<HarvestOptions, &'static str>)
        ensures
            match r {
                Err(label) => {
                    &&& strategy_of(crate::nucleon_map::optional(self.strategy)) is None
                    &&& label@ == "unsupported_parameter"@
                },
                Ok(o) => {
                    &&& strategy_of(crate::nucleon_map::optional(self.strategy)) == Some(o.strategy)
                    &&& o.reason@ == match self.reason {
                        Some(s) => s@,
                        None => Seq::empty(),
                    }
                    &&& o.force == flag(self.force, false)
                    &&& o.if_completed == flag(self.if_completed, false)
                    &&& o.no_merge == flag(self.no_merge, false)
                    &&& o.no_worktree_remove == flag(self.no_worktree_remove, false)
                    &&& o.no_branch_delete == flag(self.no_branch_delete, false)
                    &&& o.no_kill == flag(self.no_kill, false)
                    &&& o.no_auto_propel == flag(self.no_auto_propel, true)
                    &&& o.propel_message == self.propel_message
                    &&& o.max_retries == match self.max_retries {
                        Some(n) => n,
                        None => 0,
                    }
                    &&& o.skip_pre_done_hook == flag(self.skip_pre_done_hook, false)
                    &&& o.deploy_off_trunk == flag(self.deploy_off_trunk, false)
                    &&& o.escalates() == self.escalates()
                    &&& self.force == Some(true) ==> o.force
                    &&& self.force == Some(false) || self.force is None ==> !o.force
                    &&& self.if_completed == Some(true) ==> o.if_completed
                    &&& self.if_completed == Some(false) || self.if_completed is None ==> !o.if_completed
                    &&& self.no_merge == Some(true) ==> o.no_merge
                    &&& self.no_merge == Some(false) || self.no_merge is None ==> !o.no_merge
                    &&& self.no_worktree_remove == Some(true) ==> o.no_worktree_remove
                    &&& self.no_worktree_remove == Some(false) || self.no_worktree_remove is None ==> !o.no_worktree_remove
                    &&& self.no_branch_delete == Some(true) ==> o.no_branch_delete
                    &&& self.no_branch_delete == Some(false) || self.no_branch_delete is None ==> !o.no_branch_delete
                    &&& self.no_kill == Some(true) ==> o.no_kill
                    &&& self.no_kill == Some(false) || self.no_kill is None ==> !o.no_kill
                    &&& self.skip_pre_done_hook == Some(true) ==> o.skip_pre_done_hook
                    &&& self.skip_pre_done_hook == Some(false) || self.skip_pre_done_hook is None ==> !o.skip_pre_done_hook
                    &&& self.deploy_off_trunk == Some(true) ==> o.deploy_off_trunk
                    &&& self.deploy_off_trunk == Some(false) || self.deploy_off_trunk is None ==> !o.deploy_off_trunk
                    &&& self.no_auto_propel == Some(true) || self.no_auto_propel is None ==> o.no_auto_propel
                    &&& self.no_auto_propel == Some(false) ==> !o.no_auto_propel
                    &&& options_follow(self, o)
                },
            },
    {
        let token: Option<&str> = match &self.strategy {
            None => None,
            Some(t) => Some(t.as_str()),
        };
        assert(crate::routes::view_of(token) == crate::nucleon_map::optional(self.strategy));
        let strategy = match strategy_named(token) {
            None => return Err("unsupported_parameter"),
            Some(s) => s,
        };
        let reason = match self.reason {
            Some(s) => s,
            None => String::new(),
        };
        Ok(
            HarvestOptions {
                reason,
                strategy,
                force: self.force.unwrap_or(false),
                if_completed: self.if_completed.unwrap_or(false),
                no_merge: self.no_merge.unwrap_or(false),
                no_worktree_remove: self.no_worktree_remove.unwrap_or(false),
                no_branch_delete: self.no_branch_delete.unwrap_or(false),
                no_kill: self.no_kill.unwrap_or(false),
                no_auto_propel: self.no_auto_propel.unwrap_or(true),
                propel_message: self.propel_message,
                max_retries: self.max_retries.unwrap_or(0),
                skip_pre_done_hook: self.skip_pre_done_hook.unwrap_or(false),
                deploy_off_trunk: self.deploy_off_trunk.unwrap_or(false),
            },
        )
    }
}

impl HarvestOptions {
    /// The harvest may send a worker instructions, and so spends what only the
    /// right to spawn workers allows.
    pub open spec fn escalates(self) -> bool {
        !self.no_auto_propel && self.max_retries > 0
    }

    /// Tells whether the harvest needs the right to spawn workers.
    pub fn needs_spawn_scope(&self) -> (r: bool)
        ensures
            r == self.escalates(),
    {
        !self.no_auto_propel && self.max_retries > 0
    }
}

// ---------------------------------------------------------------------------
// Answers
// ---------------------------------------------------------------------------

/// The answer to a dispatch.
#[derive(Clone, Debug)]
pub struct TackleReply {
    pub molecule_id: String,
    pub worker_session: String,
    pub spawned_at: String,
}

/// The answer to a dispatch whose worker runs in that session.
pub fn tackle_reply(molecule_id: &str, session: &str, now: Timestamp) -> (r: TackleReply)
    requires
        now.wf(),
    ensures
        r.molecule_id@ == molecule_id@,
        r.worker_session@ == session@,
        r.spawned_at@ == clock::rfc3339_of(now.secs, now.nanos),
{
    TackleReply {
        molecule_id: molecule_id.to_owned(),
        worker_session: session.to_owned(),
        spawned_at: timestamp_text(now),
    }
}

/// The answer to a drain that was started.
#[derive(Clone, Debug)]
pub struct DrainReply {
    pub root: String,
    pub status: &'static str,
    pub bounds: DrainBounds,
    pub timeout_secs: u64,
    pub started_at: String,
}

/// The answer to a drain that was started within these bounds.
pub fn drain_reply(root_id: &str, bounds: DrainBounds, timeout_secs: u64, now: Timestamp) -> (r: DrainReply)
    requires
        now.wf(),
    ensures
        r.root@ == root_id@,
        r.status@ == "started"@,
        r.bounds == bounds,
        r.timeout_secs == timeout_secs,
        r.started_at@ == clock::rfc3339_of(now.secs, now.nanos),
{
    DrainReply { root: root_id.to_owned(), status: "started", bounds, timeout_secs, started_at: timestamp_text(now) }
}

/// The answer to a harvest.
#[derive(Clone, Debug)]
pub struct HarvestReply {
    pub molecule: String,
    pub outcome: String,
    pub merged: bool,
    pub non_integration: Option<String>,
}

/// The answer to a harvest, the same for one that was just done and for one that
/// had landed before: why nothing was integrated is told only where nothing was.
pub fn harvest_reply(molecule_id: &str, outcome: &str, merged: bool, reason: Option<String>) -> (r: HarvestReply)
    ensures
        r.molecule@ == molecule_id@,
        r.outcome@ == outcome@,
        r.merged == merged,
        r.non_integration == if merged {
            None
        } else {
            reason
        },
{
    HarvestReply {
        molecule: molecule_id.to_owned(),
        outcome: outcome.to_owned(),
        merged,
        non_integration: if merged {
            None
        } else {
            reason
        },
    }
}

// ---------------------------------------------------------------------------
// Failures
// ---------------------------------------------------------------------------

/// How a read of one molecule fails.
#[derive(Clone, Copy, Debug, PartialEq, Eq, Structural)]
pub enum ObserveError {
    MoleculeNotFound,
    StoreUnavailable,
    Other,
}

pub open spec fn observe_answer(e: ObserveError) -> (u16, Seq<char>) {
    match e {
        ObserveError::MoleculeNotFound => (404, "not_found"@),
        ObserveError::StoreUnavailable => (503, "store_unavailable"@),
        ObserveError::Other => (500, "store_unavailable"@),
    }
}

/// The error answers this status and label, under the id of the request.
pub open spec fn answers(e: ApiError, answer: (u16, Seq<char>), request_id: Seq<char>) -> bool {
    &&& error::says(e, answer.0, answer.1)
    &&& crate::nucleon_map::optional(e.request_id) == Some(request_id)
}

/// The answer to a molecule that could not be loaded.
pub fn observe_error_to_api(err: ObserveError, request_id: &str) -> (r: ApiError)
    ensures
        answers(r, observe_answer(err), request_id@),
{
    match err {
        ObserveError::MoleculeNotFound => ApiError::of_request(404, "not_found", request_id),
        ObserveError::StoreUnavailable => ApiError::of_request(503, "store_unavailable", request_id),
        ObserveError::Other => ApiError::of_request(500, "store_unavailable", request_id),
    }
}

/// How a nucleation fails.
#[derive(Clone, Copy, Debug, PartialEq, Eq, Structural)]
pub enum NucleateError {
    FormulaNotFound,
    FormulaParse,
    InvalidKind,
    InvalidTag,
    MissingVariable,
    EmptyVariable,
    InvalidBlockedBy,
    BlockedByNotFound,
    Domain,
    StoreUnavailable,
}

pub open spec fn nucleate_label(e: NucleateError) -> Seq<char> {
    match e {
        NucleateError::FormulaNotFound => "formula_not_found"@,
        NucleateError::FormulaParse => "formula_parse_failed"@,
        NucleateError::InvalidKind => "invalid_kind"@,
        NucleateError::InvalidTag => "invalid_tag"@,
        NucleateError::MissingVariable => "missing_variable"@,
        NucleateError::EmptyVariable => "empty_variable"@,
        NucleateError::InvalidBlockedBy => "invalid_blocked_by"@,
        NucleateError::BlockedByNotFound => "blocked_by_not_found"@,
        NucleateError::Domain => "nucleate_failed"@,
        NucleateError::StoreUnavailable => "store_unavailable"@,
    }
}

/// The status of a failed nucleation: the one the store gave it where it is one
/// of three, else that of a fault.
pub open spec fn nucleate_status(given: u16) -> u16 {
    if given == 404 || given == 400 || given == 503 {
        given
    } else {
        500
    }
}

/// The answer to a failed nucleation, with the status that the store gave it.
pub fn nucleate_error_to_api(err: NucleateError, http_status: u16, request_id: &str) -> (r: ApiError)
    ensures
        answers(r, (nucleate_status(http_status), nucleate_label(err)), request_id@),
{
    let status: u16 = if http_status == 404 || http_status == 400 || http_status == 503 {
        http_status
    } else {
        500
    };
    let label: &'static str = match err {
        NucleateError::FormulaNotFound => "formula_not_found",
        NucleateError::FormulaParse => "formula_parse_failed",
        NucleateError::InvalidKind => "invalid_kind",
        NucleateError::InvalidTag => "invalid_tag",
        NucleateError::MissingVariable => "missing_variable",
        NucleateError::EmptyVariable => "empty_variable",
        NucleateError::InvalidBlockedBy => "invalid_blocked_by",
        NucleateError::BlockedByNotFound => "blocked_by_not_found",
        NucleateError::Domain => "nucleate_failed",
        NucleateError::StoreUnavailable => "store_unavailable",
    };
    ApiError::of_request(status, label, request_id)
}

/// How a change of tags fails.
#[derive(Clone, Copy, Debug, PartialEq, Eq, Structural)]
pub enum TagError {
    MoleculeNotFound,
    EmptyRequest,
    ProtectedReservation,
    ProtectedDecisionOptIn,
    StoreUnavailable,
}

pub open spec fn tag_answer(e: TagError) -> (u16, Seq<char>) {
    match e {
        TagError::MoleculeNotFound => (404, "not_found"@),
        TagError::EmptyRequest => (400, "empty_tag_request"@),
        TagError::ProtectedReservation => (403, "protected_runtime_reservation"@),
        TagError::ProtectedDecisionOptIn => (403, "protected_runtime_decision_opt_in"@),
        TagError::StoreUnavailable => (503, "store_unavailable"@),
    }
}

/// The answer to tags that could not be set.
pub fn tag_error_to_api(err: TagError, request_id: &str) -> (r: ApiError)
    ensures
        answers(r, tag_answer(err), request_id@),
{
    match err {
        TagError::MoleculeNotFound => ApiError::of_request(404, "not_found", request_id),
        TagError::EmptyRequest => ApiError::of_request(400, "empty_tag_request", request_id),
        TagError::ProtectedReservation => ApiError::of_request(403, "protected_runtime_reservation", request_id),
        TagError::ProtectedDecisionOptIn => ApiError::of_request(403, "protected_runtime_decision_opt_in", request_id),
        TagError::StoreUnavailable => ApiError::of_request(503, "store_unavailable", request_id),
    }
}

/// How a listing fails.
#[derive(Clone, Copy, Debug, PartialEq, Eq, Structural)]
pub enum EnsembleError {
    InvalidFilter,
    StoreUnavailable,
}

pub open spec fn ensemble_answer(e: EnsembleError) -> (u16, Seq<char>) {
    match e {
        EnsembleError::InvalidFilter => (400, "invalid_filter"@),
        EnsembleError::StoreUnavailable => (503, "store_unavailable"@),
    }
}

/// The answer to a list that could not be made.
pub fn ensemble_error_to_api(err: EnsembleError, request_id: &str) -> (r: ApiError)
    ensures
        answers(r, ensemble_answer(err), request_id@),
{
    match err {
        EnsembleError::InvalidFilter => ApiError::of_request(400, "invalid_filter", request_id),
        EnsembleError::StoreUnavailable => ApiError::of_request(503, "store_unavailable", request_id),
    }
}

/// How a collapse fails.
#[derive(Clone, Copy, Debug, PartialEq, Eq, Structural)]
pub enum CollapseError {
    MoleculeNotFound,
    InvalidCause,
    MismatchedAccountKind,
    AlreadyCompleted,
    StoreUnavailable,
}

pub open spec fn collapse_answer(e: CollapseError) -> (u16, Seq<char>) {
    match e {
        CollapseError::MoleculeNotFound => (404, "not_found"@),
        CollapseError::InvalidCause => (400, "invalid_cause"@),
        CollapseError::MismatchedAccountKind => (400, "mismatched_account_kind"@),
        CollapseError::AlreadyCompleted => (409, "already_completed"@),
        CollapseError::StoreUnavailable => (503, "store_unavailable"@),
    }
}

/// The answer to a collapse that failed.
pub fn collapse_error_to_api(err: CollapseError, request_id: &str) -> (r: ApiError)
    ensures
        answers(r, collapse_answer(err), request_id@),
{
    match err {
        CollapseError::MoleculeNotFound => ApiError::of_request(404, "not_found", request_id),
        CollapseError::InvalidCause => ApiError::of_request(400, "invalid_cause", request_id),
        CollapseError::MismatchedAccountKind => ApiError::of_request(400, "mismatched_account_kind", request_id),
        CollapseError::AlreadyCompleted => ApiError::of_request(409, "already_completed", request_id),
        CollapseError::StoreUnavailable => ApiError::of_request(503, "store_unavailable", request_id),
    }
}

/// How a freeze or a thaw fails.
#[derive(Clone, Copy, Debug, PartialEq, Eq, Structural)]
pub enum FreezeError {
    MoleculeNotFound,
    /// The molecule is in a state that cannot be changed so.
    WrongStatus,
    StoreUnavailable,
}

pub open spec fn freeze_answer(state: FreezeState, e: FreezeError) -> (u16, Seq<char>) {
    match e {
        FreezeError::MoleculeNotFound => (404, "not_found"@),
        FreezeError::WrongStatus => match state {
            FreezeState::Frozen => (409, "terminal_status"@),
            FreezeState::Active => (409, "invalid_status"@),
        },
        FreezeError::StoreUnavailable => (503, "store_unavailable"@),
    }
}

/// The answer to a freeze or a thaw that failed.
pub fn freeze_error_to_api(state: FreezeState, err: FreezeError, request_id: &str) -> (r: ApiError)
    ensures
        answers(r, freeze_answer(state, err), request_id@),
{
    match err {
        FreezeError::MoleculeNotFound => ApiError::of_request(404, "not_found", request_id),
        FreezeError::WrongStatus => match state {
            FreezeState::Frozen => ApiError::of_request(409, "terminal_status", request_id),
            FreezeState::Active => ApiError::of_request(409, "invalid_status", request_id),
        },
        FreezeError::StoreUnavailable => ApiError::of_request(503, "store_unavailable", request_id),
    }
}

/// How marking a molecule as stuck fails.
#[derive(Clone, Copy, Debug, PartialEq, Eq, Structural)]
pub enum StuckError {
    MoleculeNotFound,
    EmptyReason,
    TerminalStatus,
    StoreUnavailable,
}

pub open spec fn stuck_answer(e: StuckError) -> (u16, Seq<char>) {
    match e {
        StuckError::MoleculeNotFound => (404, "not_found"@),
        StuckError::EmptyReason => (400, "empty_reason"@),
        StuckError::TerminalStatus => (409, "terminal_status"@),
        StuckError::StoreUnavailable => (503, "store_unavailable"@),
    }
}

/// The answer to a molecule that could not be marked stuck.
pub fn stuck_error_to_api(err: StuckError, request_id: &str) -> (r: ApiError)
    ensures
        answers(r, stuck_answer(err), request_id@),
{
    match err {
        StuckError::MoleculeNotFound => ApiError::of_request(404, "not_found", request_id),
        StuckError::EmptyReason => ApiError::of_request(400, "empty_reason", request_id),
        StuckError::TerminalStatus => ApiError::of_request(409, "terminal_status", request_id),
        StuckError::StoreUnavailable => ApiError::of_request(503, "store_unavailable", request_id),
    }
}

/// How a dispatch fails.
#[derive(Debug)]
pub enum TackleExecError {
    NotTackleable { status: String },
    UnsupportedStep { step_id: String, kind: String },
    Spawn { reason: String },
    OrphanRetained { reason: String },
    /// What had been done was undone, but for what had to be kept.
    RolledBackPreserving { source: Box<TackleExecError> },
    State(String),
    Id(String),
    Ledger(String),
    UnknownAdapter(String),
    Git(String),
    /// The dispatch itself was lost.
    Lost,
}

/// The answer to a failed dispatch. A rollback changes nothing in it.
pub open spec fn tackle_answer(e: TackleExecError) -> (u16, Seq<char>)
    decreases e,
{
    match e {
        TackleExecError::NotTackleable { .. } => (409, "not_tackleable"@),
        TackleExecError::UnsupportedStep { .. } => (501, "tackle_unsupported_step"@),
        TackleExecError::Spawn { .. } => (503, "worker_spawn_failed"@),
        TackleExecError::OrphanRetained { .. } => (503, "worker_spawn_failed"@),
        TackleExecError::RolledBackPreserving { source } => tackle_answer(*source),
        TackleExecError::Lost => (500, "tackle_unavailable"@),
        _ => (503, "tackle_unavailable"@),
    }
}

/// The answer to a step that cannot be run here: it names the step and its kind.
#[derive(Clone, Debug)]
pub struct UnsupportedStepReply {
    pub error: &'static str,
    pub step_kind: String,
    pub step_id: String,
    pub request_id: String,
}

/// The answer that names the step, where that is why nothing was dispatched.
pub fn unsupported_step(err: &TackleExecError, request_id: &str) -> (r: Option<UnsupportedStepReply>)
    ensures
        match *err {
            TackleExecError::UnsupportedStep { step_id, kind } => r matches Some(reply) && reply.error@
                == "tackle_unsupported_step"@ && reply.step_kind@ == kind@ && reply.step_id@ == step_id@ && reply.request_id@
                == request_id@,
            _ => r is None,
        },
{
    match err {
        TackleExecError::UnsupportedStep { step_id, kind } => Some(
            UnsupportedStepReply {
                error: "tackle_unsupported_step",
                step_kind: kind.clone(),
                step_id: step_id.clone(),
                request_id: request_id.to_owned(),
            },
        ),
        _ => None,
    }
}

/// The answer to a dispatch that failed.
pub fn tackle_exec_error_to_response(err: &TackleExecError, request_id: &str) -> (r: ApiError)
    ensures
        answers(r, tackle_answer(*err), request_id@),
    decreases err,
{
    match err {
        TackleExecError::NotTackleable { .. } => ApiError::of_request(409, "not_tackleable", request_id),
        TackleExecError::UnsupportedStep { .. } => ApiError::of_request(501, "tackle_unsupported_step", request_id),
        TackleExecError::Spawn { .. } => ApiError::of_request(503, "worker_spawn_failed", request_id),
        TackleExecError::OrphanRetained { .. } => ApiError::of_request(503, "worker_spawn_failed", request_id),
        TackleExecError::RolledBackPreserving { source } => tackle_exec_error_to_response(&**source, request_id),
        TackleExecError::Lost => ApiError::of_request(500, "tackle_unavailable", request_id),
        _ => ApiError::of_request(503, "tackle_unavailable", request_id),
    }
}

/// Why the door of the harvest does not open.
#[derive(Clone, Copy, Debug, PartialEq, Eq, Structural)]
pub enum DoorRefusal {
    NotAuthorized,
    ReservationRequiresSeal,
    NotCompleted,
    MergeConflict,
    BacklogFull,
    PreDoneRefused,
    MissingReason,
    BaseNotFastForward,
}

pub open spec fn door_status(r: DoorRefusal) -> u16 {
    match r {
        DoorRefusal::NotAuthorized => 403,
        DoorRefusal::ReservationRequiresSeal => 403,
        DoorRefusal::NotCompleted => 409,
        DoorRefusal::MergeConflict => 409,
        DoorRefusal::BacklogFull => 429,
        DoorRefusal::PreDoneRefused => 429,
        DoorRefusal::MissingReason => 400,
        DoorRefusal::BaseNotFastForward => 503,
    }
}

/// The answer to a refusal of the door, under the name that the door gives it.
pub fn door_refusal_to_api_error(refusal: DoorRefusal, label: &'static str, request_id: &str) -> (r: ApiError)
    ensures
        answers(r, (door_status(refusal), label@), request_id@),
{
    let status: u16 = match refusal {
        DoorRefusal::NotAuthorized => 403,
        DoorRefusal::ReservationRequiresSeal => 403,
        DoorRefusal::NotCompleted => 409,
        DoorRefusal::MergeConflict => 409,
        DoorRefusal::BacklogFull => 429,
        DoorRefusal::PreDoneRefused => 429,
        DoorRefusal::MissingReason => 400,
        DoorRefusal::BaseNotFastForward => 503,
    };
    ApiError::of_request(status, label, request_id)
}

/// How deciding on a harvest, or the harvest itself, fails.
#[derive(Clone, Copy, Debug)]
pub enum HarvestFailure {
    Refused { refusal: DoorRefusal, label: &'static str },
    MoleculeNotFound,
    /// The deployment has nothing that could do it.
    EffectUnavailable,
    Other,
}

pub open spec fn harvest_answer(f: HarvestFailure) -> (u16, Seq<char>) {
    match f {
        HarvestFailure::Refused { refusal, label } => (door_status(refusal), label@),
        HarvestFailure::MoleculeNotFound => (404, "not_found"@),
        HarvestFailure::EffectUnavailable => (501, "harvest_effect_unavailable"@),
        HarvestFailure::Other => (500, "harvest_failed"@),
    }
}

/// The answer to a failed decision or harvest: the same for both halves.
pub fn harvest_failure_to_api(failure: HarvestFailure, request_id: &str) -> (r: ApiError)
    ensures
        answers(r, harvest_answer(failure), request_id@),
{
    match failure {
        HarvestFailure::Refused { refusal, label } => door_refusal_to_api_error(refusal, label, request_id),
        HarvestFailure::MoleculeNotFound => ApiError::of_request(404, "not_found", request_id),
        HarvestFailure::EffectUnavailable => ApiError::of_request(501, "harvest_effect_unavailable", request_id),
        HarvestFailure::Other => ApiError::of_request(500, "harvest_failed", request_id),
    }
}

// ---------------------------------------------------------------------------
// Plans
// ---------------------------------------------------------------------------

pub open spec fn get_molecule_plan() -> Seq<Stage> {
    seq![
        Stage::Bearer { metered: true },
        Stage::Token { metered: true },
        Stage::Scope { act: "observe", rule: ScopeRule::MoleculeRead },
        Stage::Admit { verb: Verb::ObserveMolecule, targeted: true, metered: true },
        check(Fact::MoleculeIdValid, 404, "not_found"),
        check(Fact::TenantRootExists, 404, "not_found"),
        Stage::Perform { effect: Effect::LoadMolecule },
        Stage::Answer { status: 200 },
    ]
}

/// The plan of `GET /v1/molecules/{id}`.
pub fn get_molecule() -> (r: Vec<Stage>)
    ensures
        r@ == get_molecule_plan(),
{
    vec![
        Stage::Bearer { metered: true },
        Stage::Token { metered: true },
        Stage::Scope { act: "observe", rule: ScopeRule::MoleculeRead },
        Stage::Admit { verb: Verb::ObserveMolecule, targeted: true, metered: true },
        check(Fact::MoleculeIdValid, 404, "not_found"),
        check(Fact::TenantRootExists, 404, "not_found"),
        Stage::Perform { effect: Effect::LoadMolecule },
        Stage::Answer { status: 200 },
    ]
}

pub open spec fn post_molecule_plan() -> Seq<Stage> {
    seq![
        Stage::Bearer { metered: true },
        Stage::Token { metered: true },
        Stage::Scope { act: "nucleate", rule: ScopeRule::MoleculeWrite },
        early_check(Fact::JsonBody, 400, "invalid_json_body"),
        early_check(Fact::FormulaGiven, 400, "missing_formula"),
        early_check(Fact::VariablesAreAnObject, 400, "variables_not_object"),
        early_check(Fact::VariablesAreTexts, 400, "variables_not_string"),
        Stage::Admit { verb: Verb::NucleateMolecule, targeted: false, metered: true },
        check(Fact::TenantRootExists, 503, "tenant_unavailable"),
        Stage::Perform { effect: Effect::Nucleate },
        Stage::Answer { status: 201 },
    ]
}

/// The plan of `POST /v1/molecules`.
pub fn post_molecule() -> (r: Vec<Stage>)
    ensures
        r@ == post_molecule_plan(),
{
    vec![
        Stage::Bearer { metered: true },
        Stage::Token { metered: true },
        Stage::Scope { act: "nucleate", rule: ScopeRule::MoleculeWrite },
        early_check(Fact::JsonBody, 400, "invalid_json_body"),
        early_check(Fact::FormulaGiven, 400, "missing_formula"),
        early_check(Fact::VariablesAreAnObject, 400, "variables_not_object"),
        early_check(Fact::VariablesAreTexts, 400, "variables_not_string"),
        Stage::Admit { verb: Verb::NucleateMolecule, targeted: false, metered: true },
        check(Fact::TenantRootExists, 503, "tenant_unavailable"),
        Stage::Perform { effect: Effect::Nucleate },
        Stage::Answer { status: 201 },
    ]
}

pub open spec fn tag_molecule_plan() -> Seq<Stage> {
    seq![
        Stage::Bearer { metered: true },
        Stage::Token { metered: true },
        Stage::Scope { act: "tag", rule: ScopeRule::MoleculeWrite },
        early_check(Fact::JsonBody, 400, "invalid_json_body"),
        early_check(Fact::TagsGiven, 400, "empty_tag_request"),
        early_check(Fact::AddedTagsValid, 400, "invalid_tag"),
        early_check(Fact::RemovedTagsValid, 400, "invalid_tag"),
        Stage::Admit { verb: Verb::TagMolecule, targeted: true, metered: true },
        check(Fact::MoleculeIdValid, 404, "not_found"),
        check(Fact::TenantRootExists, 404, "not_found"),
        Stage::Perform { effect: Effect::Tag },
        Stage::Answer { status: 200 },
    ]
}

/// The plan of `POST /v1/molecules/{id}/tags`.
pub fn tag_molecule() -> (r: Vec<Stage>)
    ensures
        r@ == tag_molecule_plan(),
{
    vec![
        Stage::Bearer { metered: true },
        Stage::Token { metered: true },
        Stage::Scope { act: "tag", rule: ScopeRule::MoleculeWrite },
        early_check(Fact::JsonBody, 400, "invalid_json_body"),
        early_check(Fact::TagsGiven, 400, "empty_tag_request"),
        early_check(Fact::AddedTagsValid, 400, "invalid_tag"),
        early_check(Fact::RemovedTagsValid, 400, "invalid_tag"),
        Stage::Admit { verb: Verb::TagMolecule, targeted: true, metered: true },
        check(Fact::MoleculeIdValid, 404, "not_found"),
        check(Fact::TenantRootExists, 404, "not_found"),
        Stage::Perform { effect: Effect::Tag },
        Stage::Answer { status: 200 },
    ]
}

pub open spec fn list_molecules_plan() -> Seq<Stage> {
    seq![
        Stage::Bearer { metered: true },
        Stage::Token { metered: true },
        Stage::Scope { act: "ensemble", rule: ScopeRule::MoleculeRead },
        Stage::Admit { verb: Verb::EnsembleMolecule, targeted: false, metered: true },
        check(Fact::TenantRootExists, 404, "not_found"),
        Stage::Perform { effect: Effect::Ensemble },
        Stage::Answer { status: 200 },
    ]
}

/// The plan of `GET /v1/molecules`.
pub fn list_molecules() -> (r: Vec<Stage>)
    ensures
        r@ == list_molecules_plan(),
{
    vec![
        Stage::Bearer { metered: true },
        Stage::Token { metered: true },
        Stage::Scope { act: "ensemble", rule: ScopeRule::MoleculeRead },
        Stage::Admit { verb: Verb::EnsembleMolecule, targeted: false, metered: true },
        check(Fact::TenantRootExists, 404, "not_found"),
        Stage::Perform { effect: Effect::Ensemble },
        Stage::Answer { status: 200 },
    ]
}

pub open spec fn collapse_molecule_plan() -> Seq<Stage> {
    seq![
        Stage::Bearer { metered: true },
        Stage::Token { metered: true },
        Stage::Scope { act: "collapse", rule: ScopeRule::MoleculeWrite },
        early_check(Fact::JsonBody, 400, "invalid_json_body"),
        early_check(Fact::ReasonGiven, 400, "missing_reason"),
        Stage::Admit { verb: Verb::CollapseMolecule, targeted: true, metered: true },
        check(Fact::MoleculeIdValid, 404, "not_found"),
        check(Fact::TenantRootExists, 404, "not_found"),
        Stage::Perform { effect: Effect::Collapse },
        Stage::Answer { status: 200 },
    ]
}

/// The plan of `POST /v1/molecules/{id}/collapse`.
pub fn collapse_molecule() -> (r: Vec<Stage>)
    ensures
        r@ == collapse_molecule_plan(),
{
    vec![
        Stage::Bearer { metered: true },
        Stage::Token { metered: true },
        Stage::Scope { act: "collapse", rule: ScopeRule::MoleculeWrite },
        early_check(Fact::JsonBody, 400, "invalid_json_body"),
        early_check(Fact::ReasonGiven, 400, "missing_reason"),
        Stage::Admit { verb: Verb::CollapseMolecule, targeted: true, metered: true },
        check(Fact::MoleculeIdValid, 404, "not_found"),
        check(Fact::TenantRootExists, 404, "not_found"),
        Stage::Perform { effect: Effect::Collapse },
        Stage::Answer { status: 200 },
    ]
}

pub open spec fn freeze_molecule_plan(state: FreezeState) -> Seq<Stage> {
    let (verb, effect) = match state {
        FreezeState::Frozen => (Verb::FreezeMolecule, Effect::Freeze),
        FreezeState::Active => (Verb::ThawMolecule, Effect::Thaw),
    };
    seq![
        Stage::Bearer { metered: true },
        Stage::Token { metered: true },
        Stage::Scope { act: "freeze", rule: ScopeRule::MoleculeWrite },
        early_check(Fact::JsonBody, 400, "invalid_json_body"),
        Stage::Admit { verb: verb, targeted: true, metered: true },
        check(Fact::MoleculeIdValid, 404, "not_found"),
        check(Fact::TenantRootExists, 404, "not_found"),
        Stage::Perform { effect: effect },
        Stage::Answer { status: 200 },
    ]
}

/// The plan of `POST /v1/molecules/{id}/freeze`, for the state that its body asks for.
pub fn freeze_molecule(state: FreezeState) -> (r: Vec<Stage>)
    ensures
        r@ == freeze_molecule_plan(state),
{
    let (verb, effect) = match state {
        FreezeState::Frozen => (Verb::FreezeMolecule, Effect::Freeze),
        FreezeState::Active => (Verb::ThawMolecule, Effect::Thaw),
    };
    vec![
        Stage::Bearer { metered: true },
        Stage::Token { metered: true },
        Stage::Scope { act: "freeze", rule: ScopeRule::MoleculeWrite },
        early_check(Fact::JsonBody, 400, "invalid_json_body"),
        Stage::Admit { verb: verb, targeted: true, metered: true },
        check(Fact::MoleculeIdValid, 404, "not_found"),
        check(Fact::TenantRootExists, 404, "not_found"),
        Stage::Perform { effect: effect },
        Stage::Answer { status: 200 },
    ]
}

pub open spec fn stuck_molecule_plan() -> Seq<Stage> {
    seq![
        Stage::Bearer { metered: true },
        Stage::Token { metered: true },
        Stage::Scope { act: "stuck", rule: ScopeRule::MoleculeWrite },
        early_check(Fact::JsonBody, 400, "invalid_json_body"),
        early_check(Fact::ReasonGiven, 400, "empty_reason"),
        Stage::Admit { verb: Verb::StuckMolecule, targeted: true, metered: true },
        check(Fact::MoleculeIdValid, 404, "not_found"),
        check(Fact::TenantRootExists, 404, "not_found"),
        Stage::Perform { effect: Effect::MarkStuck },
        Stage::Answer { status: 200 },
    ]
}

/// The plan of `POST /v1/molecules/{id}/stuck`.
pub fn stuck_molecule() -> (r: Vec<Stage>)
    ensures
        r@ == stuck_molecule_plan(),
{
    vec![
        Stage::Bearer { metered: true },
        Stage::Token { metered: true },
        Stage::Scope { act: "stuck", rule: ScopeRule::MoleculeWrite },
        early_check(Fact::JsonBody, 400, "invalid_json_body"),
        early_check(Fact::ReasonGiven, 400, "empty_reason"),
        Stage::Admit { verb: Verb::StuckMolecule, targeted: true, metered: true },
        check(Fact::MoleculeIdValid, 404, "not_found"),
        check(Fact::TenantRootExists, 404, "not_found"),
        Stage::Perform { effect: Effect::MarkStuck },
        Stage::Answer { status: 200 },
    ]
}

pub open spec fn tackle_molecule_plan() -> Seq<Stage> {
    seq![
        Stage::Bearer { metered: true },
        Stage::Token { metered: true },
        Stage::Scope { act: "tackle", rule: ScopeRule::MoleculeWrite },
        Stage::Scope { act: "tackle:spawn", rule: ScopeRule::WorkerSpawn },
        Stage::Admit { verb: Verb::TackleMolecule, targeted: true, metered: true },
        check(Fact::MoleculeIdValid, 404, "not_found"),
        check(Fact::TenantRootExists, 404, "not_found"),
        Stage::Perform { effect: Effect::LoadMolecule },
        check(Fact::NoLiveWorker, 409, "already_active"),
        check(Fact::TenantRootExists, 404, "not_found"),
        Stage::Check { fact: Fact::BelowCeiling, status: 429, label: "tackle_ceiling", named: true, counted: true },
        Stage::Perform { effect: Effect::Dispatch },
        Stage::Answer { status: 200 },
    ]
}

/// The plan of `POST /v1/molecules/{id}/tackle`.
pub fn tackle_molecule() -> (r: Vec<Stage>)
    ensures
        r@ == tackle_molecule_plan(),
{
    vec![
        Stage::Bearer { metered: true },
        Stage::Token { metered: true },
        Stage::Scope { act: "tackle", rule: ScopeRule::MoleculeWrite },
        Stage::Scope { act: "tackle:spawn", rule: ScopeRule::WorkerSpawn },
        Stage::Admit { verb: Verb::TackleMolecule, targeted: true, metered: true },
        check(Fact::MoleculeIdValid, 404, "not_found"),
        check(Fact::TenantRootExists, 404, "not_found"),
        Stage::Perform { effect: Effect::LoadMolecule },
        check(Fact::NoLiveWorker, 409, "already_active"),
        check(Fact::TenantRootExists, 404, "not_found"),
        Stage::Check { fact: Fact::BelowCeiling, status: 429, label: "tackle_ceiling", named: true, counted: true },
        Stage::Perform { effect: Effect::Dispatch },
        Stage::Answer { status: 200 },
    ]
}

pub open spec fn run_molecule_plan() -> Seq<Stage> {
    seq![
        Stage::Bearer { metered: true },
        Stage::Token { metered: true },
        Stage::Scope { act: "run", rule: ScopeRule::MoleculeWrite },
        Stage::Scope { act: "run:spawn", rule: ScopeRule::WorkerSpawn },
        Stage::Admit { verb: Verb::RunMolecule, targeted: true, metered: true },
        check(Fact::MoleculeIdValid, 404, "not_found"),
        check(Fact::TenantRootExists, 404, "not_found"),
        Stage::Slot { status: 409, label: "drain_already_active" },
        Stage::Perform { effect: Effect::StartDrain },
        Stage::Answer { status: 202 },
    ]
}

/// The plan of `POST /v1/molecules/{id}/run`.
pub fn run_molecule() -> (r: Vec<Stage>)
    ensures
        r@ == run_molecule_plan(),
{
    vec![
        Stage::Bearer { metered: true },
        Stage::Token { metered: true },
        Stage::Scope { act: "run", rule: ScopeRule::MoleculeWrite },
        Stage::Scope { act: "run:spawn", rule: ScopeRule::WorkerSpawn },
        Stage::Admit { verb: Verb::RunMolecule, targeted: true, metered: true },
        check(Fact::MoleculeIdValid, 404, "not_found"),
        check(Fact::TenantRootExists, 404, "not_found"),
        Stage::Slot { status: 409, label: "drain_already_active" },
        Stage::Perform { effect: Effect::StartDrain },
        Stage::Answer { status: 202 },
    ]
}

/// The plan of a harvest; one that escalates also needs the right to spawn
/// workers.
pub open spec fn done_molecule_plan(escalates: bool) -> Seq<Stage> {
    if escalates {
        seq![
            Stage::Bearer { metered: true },
            Stage::Token { metered: true },
            Stage::Scope { act: "done", rule: ScopeRule::MoleculeWrite },
            Stage::Admit { verb: Verb::DoneMolecule, targeted: true, metered: true },
            check(Fact::BodyReadable, 400, "unsupported_parameter"),
            check(Fact::StrategyKnown, 400, "unsupported_parameter"),
            Stage::Perform { effect: Effect::ValidateHarvest },
            Stage::Scope { act: "done", rule: ScopeRule::WorkerSpawn },
            check(Fact::MoleculeIdValid, 404, "not_found"),
            check(Fact::TenantRootExists, 404, "not_found"),
            Stage::Perform { effect: Effect::DecideHarvest },
            Stage::Perform { effect: Effect::Harvest },
            Stage::Answer { status: 200 },
        ]
    } else {
        seq![
            Stage::Bearer { metered: true },
            Stage::Token { metered: true },
            Stage::Scope { act: "done", rule: ScopeRule::MoleculeWrite },
            Stage::Admit { verb: Verb::DoneMolecule, targeted: true, metered: true },
            check(Fact::BodyReadable, 400, "unsupported_parameter"),
            check(Fact::StrategyKnown, 400, "unsupported_parameter"),
            Stage::Perform { effect: Effect::ValidateHarvest },
            check(Fact::MoleculeIdValid, 404, "not_found"),
            check(Fact::TenantRootExists, 404, "not_found"),
            Stage::Perform { effect: Effect::DecideHarvest },
            Stage::Perform { effect: Effect::Harvest },
            Stage::Answer { status: 200 },
        ]
    }
}

/// A body that could be read, and asks for escalation.
pub open spec fn body_escalates(body: Option<&DoneBody>) -> bool {
    body is Some && (body->0).escalates()
}

/// The plan of `POST /v1/molecules/{id}/done` for a body; there is none where it
/// could not be read, which the plan then refuses.
pub fn done_molecule(body: Option<&DoneBody>) -> (r: Vec<Stage>)
    ensures
        r@ == done_molecule_plan(body_escalates(body)),
        body matches Some(b) ==> r@ == done_molecule_plan(b.escalates()),
{
    let escalates = match body {
        Some(b) => b.asks_for_escalation(),
        None => false,
    };
    if escalates {
        vec![
            Stage::Bearer { metered: true },
            Stage::Token { metered: true },
            Stage::Scope { act: "done", rule: ScopeRule::MoleculeWrite },
            Stage::Admit { verb: Verb::DoneMolecule, targeted: true, metered: true },
            check(Fact::BodyReadable, 400, "unsupported_parameter"),
            check(Fact::StrategyKnown, 400, "unsupported_parameter"),
            Stage::Perform { effect: Effect::ValidateHarvest },
            Stage::Scope { act: "done", rule: ScopeRule::WorkerSpawn },
            check(Fact::MoleculeIdValid, 404, "not_found"),
            check(Fact::TenantRootExists, 404, "not_found"),
            Stage::Perform { effect: Effect::DecideHarvest },
            Stage::Perform { effect: Effect::Harvest },
            Stage::Answer { status: 200 },
        ]
    } else {
        vec![
            Stage::Bearer { metered: true },
            Stage::Token { metered: true },
            Stage::Scope { act: "done", rule: ScopeRule::MoleculeWrite },
            Stage::Admit { verb: Verb::DoneMolecule, targeted: true, metered: true },
            check(Fact::BodyReadable, 400, "unsupported_parameter"),
            check(Fact::StrategyKnown, 400, "unsupported_parameter"),
            Stage::Perform { effect: Effect::ValidateHarvest },
            check(Fact::MoleculeIdValid, 404, "not_found"),
            check(Fact::TenantRootExists, 404, "not_found"),
            Stage::Perform { effect: Effect::DecideHarvest },
            Stage::Perform { effect: Effect::Harvest },
            Stage::Answer { status: 200 },
        ]
    }
}

// ---------------------------------------------------------------------------
// Laws
// ---------------------------------------------------------------------------

/// A harvest does what its body asks for, flag by flag: one that is set holds, and
/// one that is cleared or left out does not, but for the one that keeps a merge
/// conflict from the worker, which holds unless it is cleared. Nothing else in the
/// body changes a flag.
pub proof fn law_harvests_follow_their_body(body: DoneBody, o: HarvestOptions)
    requires
        options_follow(body, o),
    ensures
        body.force == Some(true) ==> o.force,
        body.force == Some(false) ==> !o.force,
        body.force is None ==> !o.force,
        body.if_completed == Some(true) ==> o.if_completed,
        body.if_completed == Some(false) ==> !o.if_completed,
        body.if_completed is None ==> !o.if_completed,
        body.no_merge == Some(true) ==> o.no_merge,
        body.no_merge == Some(false) ==> !o.no_merge,
        body.no_merge is None ==> !o.no_merge,
        body.no_worktree_remove == Some(true) ==> o.no_worktree_remove,
        body.no_worktree_remove == Some(false) ==> !o.no_worktree_remove,
        body.no_worktree_remove is None ==> !o.no_worktree_remove,
        body.no_branch_delete == Some(true) ==> o.no_branch_delete,
        body.no_branch_delete == Some(false) ==> !o.no_branch_delete,
        body.no_branch_delete is None ==> !o.no_branch_delete,
        body.no_kill == Some(true) ==> o.no_kill,
        body.no_kill == Some(false) ==> !o.no_kill,
        body.no_kill is None ==> !o.no_kill,
        body.skip_pre_done_hook == Some(true) ==> o.skip_pre_done_hook,
        body.skip_pre_done_hook == Some(false) ==> !o.skip_pre_done_hook,
        body.skip_pre_done_hook is None ==> !o.skip_pre_done_hook,
        body.deploy_off_trunk == Some(true) ==> o.deploy_off_trunk,
        body.deploy_off_trunk == Some(false) ==> !o.deploy_off_trunk,
        body.deploy_off_trunk is None ==> !o.deploy_off_trunk,
        body.no_auto_propel == Some(true) ==> o.no_auto_propel,
        body.no_auto_propel == Some(false) ==> !o.no_auto_propel,
        body.no_auto_propel is None ==> o.no_auto_propel,
        body.max_retries is Some ==> o.max_retries == body.max_retries->0,
        body.max_retries is None ==> o.max_retries == 0,
        body.reason is Some ==> o.reason@ == (body.reason->0)@,
        body.reason is None ==> o.reason@.len() == 0,
        o.propel_message == body.propel_message,
        body.strategy is None ==> o.strategy == MergeStrategy::Merge,
        body.strategy is Some && (body.strategy->0)@ == "merge"@ ==> o.strategy == MergeStrategy::Merge,
        body.strategy is Some && (body.strategy->0)@ == "ff-only"@ ==> o.strategy == MergeStrategy::FfOnly,
        body.strategy is Some ==> (body.strategy->0)@ == "merge"@ || (body.strategy->0)@ == "ff-only"@,
{
    reveal_strlit("merge");
    reveal_strlit("ff-only");
    assert("merge"@.len() == 5 && "ff-only"@.len() == 7);
}

/// A flag that is given is obeyed; the default goes for one that is not.
pub proof fn law_given_flags_beat_the_default(otherwise: bool)
    ensures
        flag(Some(true), otherwise),
        !flag(Some(false), otherwise),
        flag(None, otherwise) == otherwise,
{
}

/// The token stands behind the word, in either of two cases, and is taken without the
/// space around it; a header that does not begin with the word carries none.
pub proof fn law_bearers_stand_behind_the_word(token: Seq<char>, s: Seq<char>)
    ensures
        bearer_in("Bearer "@ + token) == Some(text::trimmed(token)),
        bearer_in("bearer "@ + token) == Some(text::trimmed(token)),
        bearer_in(s) is Some ==> s.len() >= 7 && (s[0] == 'B' || s[0] == 'b') && s[1] == 'e' && s[2] == 'a' && s[3] == 'r'
            && s[4] == 'e' && s[5] == 'r' && s[6] == ' ' && bearer_in(s) == Some(text::trimmed(s.skip(7))),
{
    reveal_strlit("Bearer ");
    reveal_strlit("bearer ");
    let a = "Bearer "@ + token;
    let b = "bearer "@ + token;
    assert(a.take(7) =~= "Bearer "@);
    assert(b.take(7) =~= "bearer "@);
    assert(a.skip(7) =~= token);
    assert(b.skip(7) =~= token);
    assert(b.take(7)[0] == 'b' && "Bearer "@[0] == 'B');
    if bearer_in(s) is Some {
        assert(s.take(7)[0] == s[0] && s.take(7)[1] == s[1] && s.take(7)[2] == s[2] && s.take(7)[3] == s[3]);
        assert(s.take(7)[4] == s[4] && s.take(7)[5] == s[5] && s.take(7)[6] == s[6]);
    }
}

/// A recorded worker is alive where its record is active and, if it names a process,
/// the process of that number is the one that was recorded, by when it started.
pub proof fn law_live_workers(p: ProcessRecord)
    ensures
        !p.active ==> !is_live(p),
        p.active && p.pid is None ==> is_live(p),
        p.active && p.pid is Some && p.pid_start_time is None ==> !is_live(p),
        p.active && p.pid is Some && p.pid_start_time is Some ==> is_live(p) == (p.witnessed_start == p.pid_start_time),
        same_process(p.pid, p.pid_start_time, p.witnessed_start) <==> p.pid is None || (p.pid_start_time is Some
            && p.witnessed_start == p.pid_start_time),
{
}

/// Every record of a live worker counts once, and no other counts.
pub proof fn law_live_workers_are_counted(records: Seq<ProcessRecord>, p: ProcessRecord)
    ensures
        live_count(Seq::empty()) == 0,
        is_live(p) ==> live_count(records.push(p)) == live_count(records) + 1,
        !is_live(p) ==> live_count(records.push(p)) == live_count(records),
{
    assert(records.push(p).drop_last() =~= records);
}

/// A noyau has room for another worker below four.
pub proof fn law_ceiling()
    ensures
        DEFAULT_TACKLE_CEILING_PER_NOYAU == 4,
{
}

pub proof fn lemma_text_fields(fields: Seq<(Seq<char>, JsonView)>)
    ensures
        text_fields(fields) is Some <==> forall|i: int|
            0 <= i < fields.len() ==> (#[trigger] fields[i]).1 is Text || fields[i].1 is Null,
        (forall|i: int| 0 <= i < fields.len() ==> (#[trigger] fields[i]).1 is Text) ==> text_fields(fields) == Some(
            Seq::new(fields.len(), |i: int| (fields[i].0, fields[i].1->Text_0)),
        ),
    decreases fields.len(),
{
    if fields.len() > 0 {
        let head = fields.drop_last();
        lemma_text_fields(head);
        assert(forall|i: int| 0 <= i < head.len() ==> #[trigger] head[i] == fields[i]);
        assert(fields[fields.len() - 1] == fields.last());
        if forall|i: int| 0 <= i < fields.len() ==> (#[trigger] fields[i]).1 is Text || fields[i].1 is Null {
            assert forall|i: int| 0 <= i < head.len() implies (#[trigger] head[i]).1 is Text || head[i].1 is Null by {
                assert(fields[i].1 is Text || fields[i].1 is Null);
            }
            assert(fields[fields.len() - 1].1 is Text || fields[fields.len() - 1].1 is Null);
        }
        if text_fields(fields) is Some {
            assert forall|i: int| 0 <= i < fields.len() implies (#[trigger] fields[i]).1 is Text || fields[i].1 is Null by {
                if i < head.len() {
                    assert(head[i].1 is Text || head[i].1 is Null);
                }
            }
        }
        if forall|i: int| 0 <= i < fields.len() ==> (#[trigger] fields[i]).1 is Text {
            assert forall|i: int| 0 <= i < head.len() implies (#[trigger] head[i]).1 is Text by {
                assert(fields[i].1 is Text);
            }
            assert(fields[fields.len() - 1].1 is Text);
            assert(text_fields(fields)->0 =~= Seq::new(fields.len(), |i: int| (fields[i].0, fields[i].1->Text_0)));
        }
    }
}

/// Variables are an object of texts, taken field by field in order. A field that is
/// null is left out, and with any other field the request is refused; so is one whose
/// variables are no object, but none at all is as good as an empty one.
pub proof fn law_variables(fields: Seq<(Seq<char>, JsonView)>, name: Seq<char>, j: JsonView)
    ensures
        variables_of(None) == Ok::<Seq<(Seq<char>, Seq<char>)>, Seq<char>>(Seq::empty()),
        variables_of(Some(JsonView::Null)) == Ok::<Seq<(Seq<char>, Seq<char>)>, Seq<char>>(Seq::empty()),
        j is Bool || j is Number || j is Text || j is Array ==> variables_of(Some(j)) == Err::<
            Seq<(Seq<char>, Seq<char>)>,
            Seq<char>,
        >("variables_not_object"@),
        (forall|i: int| 0 <= i < fields.len() ==> (#[trigger] fields[i]).1 is Text) ==> variables_of(
            Some(JsonView::Object(fields)),
        ) == Ok::<_, Seq<char>>(Seq::new(fields.len(), |i: int| (fields[i].0, fields[i].1->Text_0))),
        (exists|i: int| 0 <= i < fields.len() && !((#[trigger] fields[i]).1 is Text) && !(fields[i].1 is Null))
            ==> variables_of(Some(JsonView::Object(fields))) == Err::<Seq<(Seq<char>, Seq<char>)>, Seq<char>>(
            "variables_not_string"@,
        ),
        variables_of(Some(JsonView::Object(fields.push((name, JsonView::Null))))) == variables_of(
            Some(JsonView::Object(fields)),
        ),
{
    lemma_text_fields(fields);
    assert(fields.push((name, JsonView::Null)).drop_last() =~= fields);
}

/// A harvest merges unless it is asked only to fast-forward, and knows nothing else.
pub proof fn law_strategies(token: Seq<char>)
    ensures
        strategy_of(None) == Some(MergeStrategy::Merge),
        strategy_of(Some("merge"@)) == Some(MergeStrategy::Merge),
        strategy_of(Some("ff-only"@)) == Some(MergeStrategy::FfOnly),
        token != "merge"@ && token != "ff-only"@ ==> strategy_of(Some(token)) is None,
{
    reveal_strlit("merge");
    reveal_strlit("ff-only");
    assert("merge"@.len() == 5 && "ff-only"@.len() == 7);
}

/// A harvest asks for the right to spawn workers exactly where its body clears the
/// flag that keeps conflicts from them and gives them tries.
pub proof fn law_escalation_is_asked_for(body: DoneBody, o: HarvestOptions)
    ensures
        body.escalates() <==> body.no_auto_propel == Some(false) && body.max_retries is Some && body.max_retries->0 >= 1,
        o.escalates() <==> !o.no_auto_propel && o.max_retries >= 1,
        body_escalates(None) == false,
        body_escalates(Some(&body)) == body.escalates(),
{
}

/// A list that is left out is an empty one.
pub proof fn law_absent_lists_are_empty(v: Vec<String>)
    ensures
        list_or_empty(None).len() == 0,
        list_or_empty(Some(v)) == v@,
{
}

/// What the caller is told of a failure carries its status, its label and the id of
/// the request.
pub proof fn law_answers_carry_the_request(e: ApiError, status: u16, label: Seq<char>, request_id: Seq<char>)
    ensures
        answers(e, (status, label), request_id) <==> e.status == status && e.label@ == label && e.request_id is Some
            && (e.request_id->0)@ == request_id,
{
}

/// A molecule that is not there is answered the same by every route.
pub proof fn law_absent_molecules_are_not_found(state: FreezeState)
    ensures
        observe_answer(ObserveError::MoleculeNotFound) == (404u16, "not_found"@),
        tag_answer(TagError::MoleculeNotFound) == (404u16, "not_found"@),
        collapse_answer(CollapseError::MoleculeNotFound) == (404u16, "not_found"@),
        freeze_answer(state, FreezeError::MoleculeNotFound) == (404u16, "not_found"@),
        stuck_answer(StuckError::MoleculeNotFound) == (404u16, "not_found"@),
        harvest_answer(HarvestFailure::MoleculeNotFound) == (404u16, "not_found"@),
{
}

/// A store that cannot be reached is answered the same by every route.
pub proof fn law_unreachable_stores_are_unavailable(state: FreezeState)
    ensures
        observe_answer(ObserveError::StoreUnavailable) == (503u16, "store_unavailable"@),
        tag_answer(TagError::StoreUnavailable) == (503u16, "store_unavailable"@),
        ensemble_answer(EnsembleError::StoreUnavailable) == (503u16, "store_unavailable"@),
        collapse_answer(CollapseError::StoreUnavailable) == (503u16, "store_unavailable"@),
        freeze_answer(state, FreezeError::StoreUnavailable) == (503u16, "store_unavailable"@),
        stuck_answer(StuckError::StoreUnavailable) == (503u16, "store_unavailable"@),
        nucleate_label(NucleateError::StoreUnavailable) == "store_unavailable"@,
        observe_answer(ObserveError::Other) == (500u16, "store_unavailable"@),
{
}

/// A nucleation that failed is answered with the status the store gave it where that
/// is one of three, and as a fault otherwise; its label tells what failed.
pub proof fn law_failed_nucleations(given: u16)
    ensures
        nucleate_status(400) == 400 && nucleate_status(404) == 404 && nucleate_status(503) == 503,
        given != 400 && given != 404 && given != 503 ==> nucleate_status(given) == 500,
        nucleate_label(NucleateError::FormulaNotFound) == "formula_not_found"@,
        nucleate_label(NucleateError::FormulaParse) == "formula_parse_failed"@,
        nucleate_label(NucleateError::InvalidKind) == "invalid_kind"@,
        nucleate_label(NucleateError::InvalidTag) == "invalid_tag"@,
        nucleate_label(NucleateError::MissingVariable) == "missing_variable"@,
        nucleate_label(NucleateError::EmptyVariable) == "empty_variable"@,
        nucleate_label(NucleateError::InvalidBlockedBy) == "invalid_blocked_by"@,
        nucleate_label(NucleateError::BlockedByNotFound) == "blocked_by_not_found"@,
        nucleate_label(NucleateError::Domain) == "nucleate_failed"@,
{
}

/// A request that asks for what cannot be is told so with 400, one that may not with
/// 403, and one that comes at the wrong time with 409.
pub proof fn law_refused_changes()
    ensures
        tag_answer(TagError::EmptyRequest) == (400u16, "empty_tag_request"@),
        tag_answer(TagError::ProtectedReservation) == (403u16, "protected_runtime_reservation"@),
        tag_answer(TagError::ProtectedDecisionOptIn) == (403u16, "protected_runtime_decision_opt_in"@),
        ensemble_answer(EnsembleError::InvalidFilter) == (400u16, "invalid_filter"@),
        collapse_answer(CollapseError::InvalidCause) == (400u16, "invalid_cause"@),
        collapse_answer(CollapseError::MismatchedAccountKind) == (400u16, "mismatched_account_kind"@),
        collapse_answer(CollapseError::AlreadyCompleted) == (409u16, "already_completed"@),
        freeze_answer(FreezeState::Frozen, FreezeError::WrongStatus) == (409u16, "terminal_status"@),
        freeze_answer(FreezeState::Active, FreezeError::WrongStatus) == (409u16, "invalid_status"@),
        stuck_answer(StuckError::EmptyReason) == (400u16, "empty_reason"@),
        stuck_answer(StuckError::TerminalStatus) == (409u16, "terminal_status"@),
{
}

/// A dispatch that failed is answered by why it did, and one that was rolled back as
/// if it had not been.
pub proof fn law_failed_dispatches(e: TackleExecError)
    ensures
        e is NotTackleable ==> tackle_answer(e) == (409u16, "not_tackleable"@),
        e is UnsupportedStep ==> tackle_answer(e) == (501u16, "tackle_unsupported_step"@),
        e is Spawn || e is OrphanRetained ==> tackle_answer(e) == (503u16, "worker_spawn_failed"@),
        e is State || e is Id || e is Ledger || e is UnknownAdapter || e is Git ==> tackle_answer(e) == (
            503u16,
            "tackle_unavailable"@,
        ),
        e is Lost ==> tackle_answer(e) == (500u16, "tackle_unavailable"@),
        tackle_answer(TackleExecError::RolledBackPreserving { source: Box::new(e) }) == tackle_answer(e),
{
    reveal_with_fuel(tackle_answer, 2);
}

/// A harvest that the door refuses keeps the door's label, under the status of the
/// refusal; what nobody can do here is told as such, and anything else is a fault.
pub proof fn law_failed_harvests(refusal: DoorRefusal, label: &'static str)
    ensures
        harvest_answer(HarvestFailure::Refused { refusal, label }).1 == label@,
        harvest_answer(HarvestFailure::Refused { refusal, label }).0 == door_status(refusal),
        door_status(DoorRefusal::MissingReason) == 400,
        door_status(DoorRefusal::NotAuthorized) == 403,
        door_status(DoorRefusal::ReservationRequiresSeal) == 403,
        door_status(DoorRefusal::NotCompleted) == 409,
        door_status(DoorRefusal::MergeConflict) == 409,
        door_status(DoorRefusal::BacklogFull) == 429,
        door_status(DoorRefusal::PreDoneRefused) == 429,
        door_status(DoorRefusal::BaseNotFastForward) == 503,
        harvest_answer(HarvestFailure::EffectUnavailable) == (501u16, "harvest_effect_unavailable"@),
        harvest_answer(HarvestFailure::Other) == (500u16, "harvest_failed"@),
{
}

/// Pairs of strings are seen as pairs of texts, in order.
pub proof fn law_pairs(v: Seq<(String, String)>, i: int)
    ensures
        pairs(v).len() == v.len(),
        0 <= i < v.len() ==> pairs(v)[i].0 == v[i].0@ && pairs(v)[i].1 == v[i].1@,
{
}

} // verus!
