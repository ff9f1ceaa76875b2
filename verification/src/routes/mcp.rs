//! The scope a request to the `/mcp` surface needs, and the directories its
//! tools see.

use vstd::prelude::*;
use crate::json;
use crate::json::{parse_json, Json, JsonView};
use crate::paths;
use crate::text::same_text;
use crate::pipeline;
use crate::pipeline::{early_check, Effect, Fact, Run, Stage, Verb};
use crate::scopes::ScopeRule;
use crate::tenant;
use crate::tenant::tenant_paths;

verus! {

/// The largest body that is looked at.
pub const MAX_MCP_BODY_BYTES: usize = 4_194_304;

/// The scope that a request needs.
#[derive(Clone, Copy, Debug, PartialEq, Eq, Structural)]
pub enum RequiredScope {
    Read,
    Write,
}

/// The tools that only read.
pub open spec fn read_tool(name: Seq<char>) -> bool {
    ||| name == "cosmon_observe"@
    ||| name == "cosmon_ensemble"@
    ||| name == "cosmon_wait"@
    ||| name == "cosmon_search"@
    ||| name == "cosmon_get"@
    ||| name == "cosmon_list"@
    ||| name == "cosmon_count"@
    ||| name == "cosmon_export"@
    ||| name == "cosmon_stats"@
    ||| name == "cosmon_aggregate"@
    ||| name == "cosmon_energy"@
    ||| name == "cosmon_fleet_templates"@
}

fn is_read_tool(name: &str) -> (r: bool)
    ensures
        r == read_tool(name@),
{
    same_text(name, "cosmon_observe") || same_text(name, "cosmon_ensemble") || same_text(name, "cosmon_wait")
        || same_text(name, "cosmon_search") || same_text(name, "cosmon_get") || same_text(name, "cosmon_list")
        || same_text(name, "cosmon_count") || same_text(name, "cosmon_export") || same_text(name, "cosmon_stats")
        || same_text(name, "cosmon_aggregate") || same_text(name, "cosmon_energy") || same_text(
        name,
        "cosmon_fleet_templates",
    )
}

/// The tool that a message names; empty where it names none.
pub open spec fn tool_named(msg: JsonView) -> Seq<char> {
    match json::field_of(msg, "params"@) {
        Some(params) => match json::text_in(json::field_of(params, "name"@)) {
            Some(name) => name,
            None => ""@,
        },
        None => ""@,
    }
}

/// A message that calls a tool which may change state: any but the known reading
/// ones.
pub open spec fn may_mutate(msg: JsonView) -> bool {
    json::text_in(json::field_of(msg, "method"@)) == Some("tools/call"@) && !read_tool(tool_named(msg))
}

/// The scope that a body needs: a batch needs what the strictest of its messages
/// needs.
pub open spec fn scope_of_body(body: Option<JsonView>) -> RequiredScope {
    match body {
        Some(JsonView::Array(messages)) => if exists|i: int| 0 <= i < messages.len() && may_mutate(#[trigger] messages[i]) {
            RequiredScope::Write
        } else {
            RequiredScope::Read
        },
        Some(msg) => if may_mutate(msg) {
            RequiredScope::Write
        } else {
            RequiredScope::Read
        },
        None => RequiredScope::Read,
    }
}

fn mutates(msg: &Json) -> (r: bool)
    ensures
        r == may_mutate(msg@),
{
    let calls = match msg.get("method") {
        Some(m) => match m.as_text() {
            Some(name) => same_text(name, "tools/call"),
            None => false,
        },
        None => false,
    };
    if !calls {
        return false;
    }
    let tool: &str = match msg.get("params") {
        Some(params) => match params.get("name") {
            Some(name) => match name.as_text() {
                Some(s) => s,
                None => "",
            },
            None => "",
        },
        None => "",
    };
    !is_read_tool(tool)
}

/// The scope that a parsed body needs.
pub fn required_scope_of(body: &Option<Json>) -> (r: RequiredScope)
    ensures
        r == scope_of_body(json::document_view(*body)),
{
    match body {
        None => RequiredScope::Read,
        Some(doc) => match doc {
            Json::Array(messages) => {
                let ghost all = doc@->Array_0;
                let mut i: usize = 0;
                while i < messages.len()
                    invariant
                        i <= messages@.len(),
                        *doc matches Json::Array(m) && m == messages,
                        json::document_view(*body) == Some(doc@),
                        doc@ is Array,
                        all == doc@->Array_0,
                        all.len() == messages@.len(),
                        forall|k: int| 0 <= k < i ==> !may_mutate(#[trigger] all[k]),
                    decreases messages@.len() - i,
                {
                    assert(all[i as int] == messages@[i as int]@);
                    if mutates(&messages[i]) {
                        return RequiredScope::Write;
                    }
                    i += 1;
                }
                RequiredScope::Read
            },
            _ => if mutates(doc) {
                RequiredScope::Write
            } else {
                RequiredScope::Read
            },
        },
    }
}

/// The scope that a request needs: only a `POST` carries messages, and a body that
/// is no JSON calls nothing.
pub fn required_scope(method: &str, body: &[u8]) -> (r: RequiredScope)
    ensures
        r == if method@ == "POST"@ {
            scope_of_body(json::json_of(body@))
        } else {
            RequiredScope::Read
        },
{
    if !same_text(method, "POST") {
        return RequiredScope::Read;
    }
    let doc = parse_json(body);
    required_scope_of(&doc)
}

/// The directories that the tools of a request see.
#[derive(Clone, Debug)]
pub struct StatePin {
    pub state_dir: String,
    pub formulas_dir: String,
}

/// The directories of a noyau, under the root of all of them.
pub fn pin_for(galaxies_root: &str, noyau: &str) -> (r: StatePin)
    ensures
        r.state_dir@ == tenant::state_dir_of(galaxies_root@, noyau@),
        r.formulas_dir@ == paths::joined(tenant::cosmon_of(galaxies_root@, noyau@), "formulas"@),
{
    let found = tenant_paths(galaxies_root, noyau);
    StatePin { state_dir: found.state_dir, formulas_dir: found.formulas_dir }
}

// ---------------------------------------------------------------------------
// The plan
// ---------------------------------------------------------------------------

pub open spec fn require_valid_bearer_plan(scope: RequiredScope) -> Seq<Stage> {
    let rule = match scope {
        RequiredScope::Read => ScopeRule::MoleculeRead,
        RequiredScope::Write => ScopeRule::MoleculeWrite,
    };
    seq![
        Stage::Bearer { metered: true },
        Stage::Token { metered: true },
        Stage::Admit { verb: Verb::McpToolCall, targeted: false, metered: true },
        early_check(Fact::BodySmallEnough, 413, "payload_too_large"),
        Stage::Scope { act: "mcp_tool_call", rule: rule },
        Stage::Perform { effect: Effect::CallTool },
        Stage::Answer { status: 200 },
    ]
}

/// The plan of every request to `/mcp`, for the scope that the request needs.
pub fn require_valid_bearer(scope: RequiredScope) -> (r: Vec<Stage>)
    ensures
        r@ == require_valid_bearer_plan(scope),
{
    let rule = match scope {
        RequiredScope::Read => ScopeRule::MoleculeRead,
        RequiredScope::Write => ScopeRule::MoleculeWrite,
    };
    vec![
        Stage::Bearer { metered: true },
        Stage::Token { metered: true },
        Stage::Admit { verb: Verb::McpToolCall, targeted: false, metered: true },
        early_check(Fact::BodySmallEnough, 413, "payload_too_large"),
        Stage::Scope { act: "mcp_tool_call", rule: rule },
        Stage::Perform { effect: Effect::CallTool },
        Stage::Answer { status: 200 },
    ]
}

// ---------------------------------------------------------------------------
// Laws
// ---------------------------------------------------------------------------

/// A batch needs the write scope as soon as one of its messages would alone.
pub proof fn law_batches_escalate(messages: Seq<JsonView>, i: int)
    requires
        0 <= i < messages.len(),
        !(messages[i] is Array),
        scope_of_body(Some(messages[i])) == RequiredScope::Write,
    ensures
        scope_of_body(Some(JsonView::Array(messages))) == RequiredScope::Write,
{
    assert(may_mutate(messages[i]));
    let batch = JsonView::Array(messages);
    assert(batch->Array_0[i] == messages[i]);
}

/// A call of a tool that is not known to read needs the write scope.
pub proof fn law_unknown_tools_need_write(msg: JsonView)
    requires
        !(msg is Array),
        json::text_in(json::field_of(msg, "method"@)) == Some("tools/call"@),
        !read_tool(tool_named(msg)),
    ensures
        scope_of_body(Some(msg)) == RequiredScope::Write,
{
}

/// A tool is called only for a bearer whose token verified, that was admitted,
/// and that has the scope which the request needs.
pub proof fn law_tools_are_called_behind_the_gates(scope: RequiredScope, run: Run)
    requires
        run.wf(),
        run.plan() == require_valid_bearer_plan(scope),
        run.here() is Perform,
    ensures
        run.trail()[0] is Cleared && run.plan()[0] is Bearer,
        run.trail()[1] is Cleared && run.plan()[1] is Token,
        run.id() is Some,
        pipeline::has_shown(run, Fact::BodySmallEnough),
        scope == RequiredScope::Write ==> pipeline::was_allowed(run, ScopeRule::MoleculeWrite),
        scope == RequiredScope::Read ==> pipeline::was_allowed(run, ScopeRule::MoleculeRead),
{
    assert(run.at() == 5);
    pipeline::law_no_stage_is_skipped(run, 0);
    pipeline::law_no_stage_is_skipped(run, 1);
    pipeline::law_no_stage_is_skipped(run, 2);
    pipeline::law_no_stage_is_skipped(run, 3);
    pipeline::law_no_stage_is_skipped(run, 4);
}

/// A call of a tool may change state unless the tool is one of twelve that are known
/// to read; a message that is no call of a tool changes nothing.
pub proof fn law_tools_that_only_read(msg: JsonView, name: Seq<char>)
    requires
        json::field_of(msg, "params"@) is Some,
        json::field_of(json::field_of(msg, "params"@)->0, "name"@) == Some(JsonView::Text(name)),
    ensures
        json::field_of(msg, "method"@) == Some(JsonView::Text("tools/call"@)) ==> (may_mutate(msg) <==> name != "cosmon_observe"@ && name != "cosmon_ensemble"@ && name != "cosmon_wait"@ && name != "cosmon_search"@ && name != "cosmon_get"@ && name != "cosmon_list"@ && name != "cosmon_count"@ && name != "cosmon_export"@ && name != "cosmon_stats"@ && name != "cosmon_aggregate"@ && name != "cosmon_energy"@ && name != "cosmon_fleet_templates"@),
        json::field_of(msg, "method"@) != Some(JsonView::Text("tools/call"@)) ==> !may_mutate(msg),
        tool_named(msg) == name,
{
}

/// A call that names no tool counts as one that changes state.
pub proof fn law_nameless_calls_need_write(msg: JsonView)
    requires
        json::field_of(msg, "method"@) == Some(JsonView::Text("tools/call"@)),
        json::field_of(msg, "params"@) is None || !(json::field_of(json::field_of(msg, "params"@)->0, "name"@) matches Some(
            JsonView::Text(_),
        )),
    ensures
        may_mutate(msg),
{
    reveal_strlit("cosmon_observe");
    reveal_strlit("cosmon_ensemble");
    reveal_strlit("cosmon_wait");
    reveal_strlit("cosmon_search");
    reveal_strlit("cosmon_get");
    reveal_strlit("cosmon_list");
    reveal_strlit("cosmon_count");
    reveal_strlit("cosmon_export");
    reveal_strlit("cosmon_stats");
    reveal_strlit("cosmon_aggregate");
    reveal_strlit("cosmon_energy");
    reveal_strlit("cosmon_fleet_templates");
    reveal_strlit("");
    assert(tool_named(msg) == ""@);
    assert(""@.len() == 0);
    assert("cosmon_observe"@.len() == 14);
    assert("cosmon_ensemble"@.len() == 15);
    assert("cosmon_wait"@.len() == 11);
    assert("cosmon_search"@.len() == 13);
    assert("cosmon_get"@.len() == 10);
    assert("cosmon_list"@.len() == 11);
    assert("cosmon_count"@.len() == 12);
    assert("cosmon_export"@.len() == 13);
    assert("cosmon_stats"@.len() == 12);
    assert("cosmon_aggregate"@.len() == 16);
    assert("cosmon_energy"@.len() == 13);
    assert("cosmon_fleet_templates"@.len() == 22);
}

/// A single message needs the right to write where it may change state, a batch where
/// one of its messages may; a body that is no JSON asks for nothing but to read.
pub proof fn law_scopes_of_bodies(msg: JsonView, messages: Seq<JsonView>, i: int)
    ensures
        scope_of_body(None) == RequiredScope::Read,
        !(msg is Array) ==> scope_of_body(Some(msg)) == (if may_mutate(msg) {
            RequiredScope::Write
        } else {
            RequiredScope::Read
        }),
        0 <= i < messages.len() && may_mutate(messages[i]) ==> scope_of_body(Some(JsonView::Array(messages)))
            == RequiredScope::Write,
        (forall|k: int| 0 <= k < messages.len() ==> !may_mutate(#[trigger] messages[k])) ==> scope_of_body(
            Some(JsonView::Array(messages)),
        ) == RequiredScope::Read,
        MAX_MCP_BODY_BYTES == 4 * 1024 * 1024,
{
    if 0 <= i < messages.len() && may_mutate(messages[i]) {
        let body = JsonView::Array(messages);
        assert(body->Array_0 == messages);
        assert(may_mutate((body->Array_0)[i]));
        law_batches_escalate(messages, i);
    }
}

} // verus!
