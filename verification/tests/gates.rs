use cosmon_rpp_adapter::error::RppRejectReason;
use cosmon_rpp_adapter::json::{parse_json, Json};
use cosmon_rpp_adapter::jwt::ValidatedJwt;
use cosmon_rpp_adapter::clock::Timestamp;
use cosmon_rpp_adapter::nucleon_map::{DrainBounds, HabilitationId, HabilitationMap, Noyau};
use cosmon_rpp_adapter::evidence::{decide, Evidence};
use cosmon_rpp_adapter::pipeline::{Effect, Fact, Run, Stage};
use cosmon_rpp_adapter::routes::avatar::{avatar_incarnate, ConverseKind};
use cosmon_rpp_adapter::routes::admin::{
    check_reload, federation_status, list_habilitations, provision_habilitation, provisioned,
};
use cosmon_rpp_adapter::provisioner::ProvisionOutcome;
use cosmon_rpp_adapter::reload::ReloadOutcome;
use cosmon_rpp_adapter::routes::artifacts::{push_artifact, DirListing};
use cosmon_rpp_adapter::routes::mcp::{pin_for, require_valid_bearer, required_scope, RequiredScope};
use cosmon_rpp_adapter::routes::molecules::{
    below_ceiling, collapse_error_to_api, count_live_workers, done_molecule, door_refusal_to_api_error,
    drain_reply, ensemble_error_to_api, ensemble_request, extract_bearer, harvest_reply, tackle_reply, unsupported_step, freeze_error_to_api, freeze_molecule, get_molecule, gives_a_reason,
    harvest_failure_to_api, has_live_worker, list_molecules, location_of, names_a_tag, nucleate_error_to_api,
    nucleate_request, observe_error_to_api, parse_variables, post_molecule, run_molecule, stuck_error_to_api,
    tackle_exec_error_to_response, tackle_molecule, tag_error_to_api, thaw_gone_handler, AuthorizationHeader,
    CollapseError, DoneBody, DoorRefusal, EnsembleError, EnsembleQuery, FreezeError, FreezeState, HarvestFailure, MergeStrategy,
    NucleateBody, NucleateError, ObserveError, ProcessRecord, StuckError, TackleExecError, TagBody, TagError,
    DEFAULT_TACKLE_CEILING_PER_NOYAU,
};
use cosmon_rpp_adapter::tenant::{
    drain_started, drain_terminated, nucleated, subject_name, tackled, tagged, tenant_paths, worker_envelope,
    MoleculeNotice, Notice,
};
use cosmon_rpp_adapter::DrainRegistry;
use cosmon_rpp_adapter::scopes::{authorise_scope, effective_scope_decision, GrantSource, ScopeRule};

fn json(text: &str) -> Json {
    parse_json(text.as_bytes()).unwrap()
}

// Tool calls

fn tools_call(tool: &str) -> Vec<u8> {
    format!(
        r#"{{"jsonrpc":"2.0","id":1,"method":"tools/call","params":{{"name":"{tool}","arguments":{{}}}}}}"#
    )
    .into_bytes()
}

#[test]
fn mutating_tool_calls_require_write() {
    for tool in [
        "cosmon_nucleate",
        "cosmon_freeze",
        "cosmon_thaw",
        "cosmon_collapse",
        "cosmon_decay",
        "cosmon_merge",
        "cosmon_transform",
    ] {
        assert_eq!(
            required_scope("POST", &tools_call(tool)),
            RequiredScope::Write,
            "{tool} must require write scope to match its REST twin"
        );
    }
}

#[test]
fn read_tool_calls_only_require_read() {
    for tool in [
        "cosmon_observe",
        "cosmon_ensemble",
        "cosmon_wait",
        "cosmon_search",
        "cosmon_get",
        "cosmon_list",
        "cosmon_count",
        "cosmon_export",
        "cosmon_stats",
        "cosmon_aggregate",
        "cosmon_energy",
        "cosmon_fleet_templates",
    ] {
        assert_eq!(
            required_scope("POST", &tools_call(tool)),
            RequiredScope::Read,
            "{tool} is read-only and must floor at read scope"
        );
    }
}

#[test]
fn unknown_or_worker_internal_tool_fails_closed_to_write() {
    for tool in ["cosmon_future_thing", "cosmon_evolve", "cosmon_complete", ""] {
        assert_eq!(
            required_scope("POST", &tools_call(tool)),
            RequiredScope::Write,
            "unknown/worker-internal tool `{tool}` must fail closed to write"
        );
    }
}

#[test]
fn protocol_methods_and_non_post_floor_at_read() {
    for method_name in ["initialize", "tools/list", "ping", "notifications/initialized"] {
        let body = format!(r#"{{"jsonrpc":"2.0","id":1,"method":"{method_name}","params":{{}}}}"#).into_bytes();
        assert_eq!(
            required_scope("POST", &body),
            RequiredScope::Read,
            "protocol method `{method_name}` must floor at read"
        );
    }
    assert_eq!(required_scope("GET", b""), RequiredScope::Read);
    assert_eq!(required_scope("DELETE", b""), RequiredScope::Read);
    assert_eq!(required_scope("POST", b"not json at all"), RequiredScope::Read);
}

#[test]
fn batch_escalates_to_write_if_any_element_mutates() {
    let batch = br#"[
        { "jsonrpc": "2.0", "id": 1, "method": "tools/call", "params": { "name": "cosmon_observe" } },
        { "jsonrpc": "2.0", "id": 2, "method": "tools/call", "params": { "name": "cosmon_nucleate" } }
    ]"#;
    assert_eq!(required_scope("POST", batch), RequiredScope::Write);
}

#[test]
fn tools_see_the_state_of_their_noyau_only() {
    let pin = pin_for("/srv/galaxies", "tenant-demo");
    assert_eq!(pin.state_dir, "/srv/galaxies/tenant-demo/.cosmon/state");
    assert_eq!(pin.formulas_dir, "/srv/galaxies/tenant-demo/.cosmon/formulas");
}

// Bearer tokens

#[test]
fn extracts_bearer_token() {
    let h = AuthorizationHeader::Text("Bearer abc.def.ghi".to_owned());
    assert_eq!(extract_bearer(&h).unwrap(), "abc.def.ghi");
}

#[test]
fn missing_header_yields_typed_error() {
    let err = extract_bearer(&AuthorizationHeader::Absent).unwrap_err();
    assert!(matches!(err, RppRejectReason::MissingAuthorization));
}

#[test]
fn non_bearer_scheme_is_malformed() {
    let err = extract_bearer(&AuthorizationHeader::Text("Basic abc".to_owned())).unwrap_err();
    assert!(matches!(err, RppRejectReason::MalformedJwt));
    let err = extract_bearer(&AuthorizationHeader::Opaque).unwrap_err();
    assert!(matches!(err, RppRejectReason::MalformedJwt));
}

// Bodies

#[test]
fn parse_variables_none_or_null_yields_empty() {
    assert!(parse_variables(None).unwrap().is_empty());
    assert!(parse_variables(Some(&Json::Null)).unwrap().is_empty());
}

#[test]
fn parse_variables_accepts_string_values() {
    let v = json(r#"{"topic": "hello", "owner": "operator-demo"}"#);
    let out = parse_variables(Some(&v)).unwrap();
    assert_eq!(out.len(), 2);
    assert!(out.iter().any(|(k, v)| k == "topic" && v == "hello"));
    assert!(out.iter().any(|(k, v)| k == "owner" && v == "operator-demo"));
}

#[test]
fn parse_variables_rejects_non_string_value() {
    let v = json(r#"{"topic": 42}"#);
    assert_eq!(parse_variables(Some(&v)).unwrap_err(), "variables_not_string");
}

#[test]
fn parse_variables_rejects_non_object() {
    let v = json(r#"["topic", "owner"]"#);
    assert_eq!(parse_variables(Some(&v)).unwrap_err(), "variables_not_object");
}

#[test]
fn a_nucleation_needs_a_formula() {
    let body = |formula: &str| NucleateBody {
        formula: formula.to_owned(),
        kind: None,
        variables: Some(json(r#"{"topic":"x","skip":null}"#)),
        tags: None,
        blocked_by: None,
    };
    assert_eq!(nucleate_request(body("  ")).unwrap_err().label, "missing_formula");
    let req = nucleate_request(body(" task-work ")).unwrap();
    assert_eq!(req.formula, "task-work");
    assert_eq!(req.variables, vec![("topic".to_owned(), "x".to_owned())]);
    assert_eq!(req.fleet, "default");
    assert_eq!(location_of("task-1"), "/v1/molecules/task-1");
}

#[test]
fn empty_requests_are_told_apart() {
    assert!(!names_a_tag(&TagBody { add: None, remove: Some(Vec::new()) }));
    assert!(names_a_tag(&TagBody { add: None, remove: Some(vec!["x".to_owned()]) }));
    assert!(!gives_a_reason(" \t"));
    assert!(gives_a_reason("why"));
}

fn done_body() -> DoneBody {
    DoneBody {
        reason: None,
        strategy: None,
        force: None,
        if_completed: None,
        no_merge: None,
        no_worktree_remove: None,
        no_branch_delete: None,
        no_kill: None,
        no_auto_propel: None,
        propel_message: None,
        max_retries: None,
        skip_pre_done_hook: None,
        deploy_off_trunk: None,
    }
}

#[test]
fn a_harvest_does_not_escalate_unless_asked() {
    let plain = done_body().into_options().unwrap();
    assert_eq!(plain.strategy, MergeStrategy::Merge);
    assert!(plain.no_auto_propel);
    assert!(!plain.needs_spawn_scope());
    let asks = DoneBody { no_auto_propel: Some(false), max_retries: Some(2), ..done_body() }.into_options().unwrap();
    assert!(asks.needs_spawn_scope());
    let no_retries = DoneBody { no_auto_propel: Some(false), ..done_body() }.into_options().unwrap();
    assert!(!no_retries.needs_spawn_scope());
    let ff = DoneBody { strategy: Some("ff-only".to_owned()), ..done_body() }.into_options().unwrap();
    assert_eq!(ff.strategy, MergeStrategy::FfOnly);
    let odd = DoneBody { strategy: Some("rebase".to_owned()), ..done_body() }.into_options();
    assert_eq!(odd.unwrap_err(), "unsupported_parameter");
}

#[test]
fn the_removed_route_points_at_its_successor() {
    let (status, body) = thaw_gone_handler();
    assert_eq!(status, 410);
    assert_eq!(body.error, "endpoint_removed");
    assert!(body.hint.contains("/freeze"));
}

#[test]
fn a_query_asks_with_its_one_tag() {
    let asked = ensemble_request(EnsembleQuery { tag: Some("hot".to_owned()), ..EnsembleQuery::default() });
    assert_eq!(asked.tag_globs, vec!["hot".to_owned()]);
    assert!(ensemble_request(EnsembleQuery::default()).tag_globs.is_empty());
}

#[test]
fn answers_say_what_was_done() {
    let now = Timestamp { secs: 0, nanos: 0 };
    let t = tackle_reply("task-1", "cosmon-task-1", now);
    assert_eq!((t.worker_session.as_str(), t.spawned_at.as_str()), ("cosmon-task-1", "1970-01-01T00:00:00+00:00"));
    let d = drain_reply("task-1", DrainBounds::default(), 60, now);
    assert_eq!((d.status, d.timeout_secs, d.bounds), ("started", 60, DrainBounds::default()));
    let merged = harvest_reply("task-1", "landed", true, Some("no-diff".to_owned()));
    assert_eq!(merged.non_integration, None);
    let closed = harvest_reply("task-1", "closed_without_merge", false, Some("no-diff".to_owned()));
    assert_eq!(closed.non_integration.as_deref(), Some("no-diff"));
    let step = TackleExecError::UnsupportedStep { step_id: "verify".to_owned(), kind: "gate".to_owned() };
    let named = unsupported_step(&step, "req-1").unwrap();
    assert_eq!((named.step_kind.as_str(), named.step_id.as_str()), ("gate", "verify"));
    assert!(unsupported_step(&TackleExecError::Lost, "req-1").is_none());
}

// Tenants

#[test]
fn tenants_lie_apart() {
    let a = tenant_paths("/g", "a");
    assert_eq!(a.root, "/g/a");
    assert_eq!(a.state_dir, "/g/a/.cosmon/state");
    assert_eq!(a.formulas_dir, "/g/a/.cosmon/formulas");
    assert_eq!(a.config_path, "/g/a/.cosmon/config.toml");
    assert_ne!(a.state_dir, tenant_paths("/g", "b").state_dir);
    assert_eq!(subject_name(&token(&[])), "jwt:you");
    let e = worker_envelope("/g", "/art", "a", "task-1", &None, &Some("m".to_owned()));
    assert_eq!((e.tenant_root.as_str(), e.artifact_dir.as_str()), ("/g/a", "/art/a/task-1"));
}

#[test]
fn watchers_are_told_what_happened() {
    let state = |n: MoleculeNotice| match n.notice {
        Notice::StateChanged { from, to } => (from, to),
        other => panic!("{other:?}"),
    };
    assert_eq!(state(tackled("a", "m")), ("pending".to_owned(), "running".to_owned()));
    assert_eq!(state(nucleated("a", "m", "active")), (String::new(), "active".to_owned()));
    assert!(matches!(tagged("a", "m").notice, Notice::EventAppended { kind: "tag" }));
    let begun = drain_started("a", "m", DrainBounds::default());
    assert!(matches!(begun.notice, Notice::DrainStarted { bounds } if bounds == DrainBounds::default()));
    let lost = drain_terminated("a", "m", None);
    assert!(matches!(lost.notice, Notice::DrainTerminated { reason, detail: None } if reason == "error"));
}

// Live workers

fn record(active: bool, pid: Option<u32>, start: Option<u64>, witnessed: Option<u64>) -> ProcessRecord {
    ProcessRecord { active, pid, pid_start_time: start, witnessed_start: witnessed }
}

#[test]
fn a_recycled_process_number_is_no_live_worker() {
    assert!(has_live_worker(Some(record(true, Some(7), Some(100), Some(100)))));
    assert!(!has_live_worker(Some(record(true, Some(7), Some(100), Some(200)))));
    assert!(!has_live_worker(Some(record(true, Some(7), None, Some(100)))));
    assert!(!has_live_worker(Some(record(true, Some(7), Some(100), None))));
    assert!(has_live_worker(Some(record(true, None, None, None))));
    assert!(!has_live_worker(Some(record(false, None, None, None))));
    assert!(!has_live_worker(None));
}

#[test]
fn the_ceiling_counts_live_workers() {
    let rows = vec![
        record(true, None, None, None),
        record(false, None, None, None),
        record(true, Some(7), Some(1), Some(1)),
        record(true, Some(8), Some(1), Some(2)),
    ];
    assert_eq!(count_live_workers(&Some(rows)), 2);
    assert_eq!(count_live_workers(&None), 0);
    assert!(below_ceiling(DEFAULT_TACKLE_CEILING_PER_NOYAU - 1));
    assert!(!below_ceiling(DEFAULT_TACKLE_CEILING_PER_NOYAU));
}

// Failures

#[test]
fn spawn_failure_maps_to_worker_spawn_failed() {
    let api = tackle_exec_error_to_response(
        &TackleExecError::Spawn { reason: "tmux new-session failed".to_owned() },
        "req-spawn",
    );
    assert_eq!(api.status, 503);
    assert_eq!(api.label, "worker_spawn_failed");
}

#[test]
fn terminal_molecule_maps_to_not_tackleable() {
    let api = tackle_exec_error_to_response(
        &TackleExecError::NotTackleable { status: "completed".to_owned() },
        "req-terminal",
    );
    assert_eq!(api.status, 409);
    assert_eq!(api.label, "not_tackleable");
}

#[test]
fn unsupported_step_maps_to_501_typed_refusal() {
    let api = tackle_exec_error_to_response(
        &TackleExecError::UnsupportedStep { step_id: "verify".to_owned(), kind: "gate".to_owned() },
        "req-unsupported",
    );
    assert_eq!(api.status, 501);
    assert_eq!(api.label, "tackle_unsupported_step");
}

#[test]
fn unclassified_dispatch_failure_stays_tackle_unavailable() {
    let api =
        tackle_exec_error_to_response(&TackleExecError::Git("not a git repository".to_owned()), "req-git");
    assert_eq!(api.status, 503);
    assert_eq!(api.label, "tackle_unavailable");
}

#[test]
fn a_preserved_rollback_answers_as_its_cause() {
    let inner = TackleExecError::NotTackleable { status: "completed".to_owned() };
    let api = tackle_exec_error_to_response(
        &TackleExecError::RolledBackPreserving { source: Box::new(inner) },
        "req-1",
    );
    assert_eq!((api.status, api.label), (409, "not_tackleable"));
    assert_eq!(api.request_id.as_deref(), Some("req-1"));
}

#[test]
fn each_failure_has_its_answer() {
    let said = |e: cosmon_rpp_adapter::error::ApiError| (e.status, e.label);
    assert_eq!(said(observe_error_to_api(ObserveError::MoleculeNotFound, "r")), (404, "not_found"));
    assert_eq!(said(observe_error_to_api(ObserveError::StoreUnavailable, "r")), (503, "store_unavailable"));
    assert_eq!(said(observe_error_to_api(ObserveError::Other, "r")), (500, "store_unavailable"));
    assert_eq!(said(nucleate_error_to_api(NucleateError::InvalidKind, 400, "r")), (400, "invalid_kind"));
    assert_eq!(said(nucleate_error_to_api(NucleateError::Domain, 418, "r")), (500, "nucleate_failed"));
    assert_eq!(said(tag_error_to_api(TagError::MoleculeNotFound, "r")).0, 404);
    assert_eq!(said(ensemble_error_to_api(EnsembleError::StoreUnavailable, "r")), (503, "store_unavailable"));
    assert_eq!(said(collapse_error_to_api(CollapseError::MoleculeNotFound, "r")).0, 404);
    assert_eq!(said(stuck_error_to_api(StuckError::MoleculeNotFound, "r")).0, 404);
    let frozen = freeze_error_to_api(FreezeState::Frozen, FreezeError::WrongStatus, "r");
    let thawed = freeze_error_to_api(FreezeState::Active, FreezeError::WrongStatus, "r");
    assert_eq!(frozen.status, 409);
    assert_ne!(frozen.label, thawed.label);
    let door = door_refusal_to_api_error(DoorRefusal::NotCompleted, "not_completed", "r");
    assert_eq!(door.label, "not_completed");
    assert_eq!(door.request_id.as_deref(), Some("r"));
    assert_eq!(said(harvest_failure_to_api(HarvestFailure::MoleculeNotFound, "r")).0, 404);
}

// Scopes

fn token(scopes: &[&str]) -> ValidatedJwt {
    ValidatedJwt {
        iss: "https://idp".to_owned(),
        sub: "you".to_owned(),
        aud: "aud".to_owned(),
        scopes: scopes.iter().map(|s| (*s).to_owned()).collect(),
        exp: 0,
    }
}

fn bound(scopes: &[&str]) -> HabilitationMap {
    HabilitationMap::builder()
        .insert_with_scopes(
            "https://idp",
            "you",
            HabilitationId::new("nuc"),
            Noyau::new("tenant"),
            "aud",
            scopes.iter().map(|s| (*s).to_owned()).collect(),
        )
        .build()
}

#[test]
fn writers_may_read_and_readers_may_not_write() {
    let read = token(&["cosmon:molecule:read"]);
    let write = token(&["cosmon:molecule:write"]);
    let none: Vec<String> = Vec::new();
    assert_eq!(effective_scope_decision(&read, &none, ScopeRule::MoleculeRead), Some(GrantSource::Jwt));
    assert_eq!(effective_scope_decision(&write, &none, ScopeRule::MoleculeRead), Some(GrantSource::Jwt));
    assert_eq!(effective_scope_decision(&read, &none, ScopeRule::MoleculeWrite), None);
    assert_eq!(effective_scope_decision(&write, &none, ScopeRule::WorkerSpawn), None);
}

#[test]
fn a_binding_grants_what_the_token_lacks() {
    let map = bound(&["cosmon:worker:spawn"]);
    assert_eq!(authorise_scope(&map, &token(&[]), ScopeRule::WorkerSpawn).unwrap(), GrantSource::Binding);
    let refused = authorise_scope(&map, &token(&[]), ScopeRule::ArtifactWrite).unwrap_err();
    assert_eq!((refused.status, refused.label), (403, "forbidden"));
    assert_eq!(GrantSource::Binding.as_str(), "binding");
}

// Runs

fn all_scopes() -> ValidatedJwt {
    token(&["cosmon:molecule:write", "cosmon:worker:spawn", "cosmon:artifact:write", "cosmon:pilote:converse"])
}

/// Walks a plan through its admission.
fn to_admission(run: &mut Run) {
    loop {
        match run.stage() {
            Stage::Admit { .. } => {
                run.admitted("req-9");
                return;
            }
            Stage::Scope { .. } => {
                run.authorise(&HabilitationMap::default(), &all_scopes()).unwrap();
            }
            Stage::Check { .. } => run.judge(&Evidence::Told(true), None).unwrap(),
            _ => run.pass(),
        }
    }
}

/// Walks a drain to the stage that takes the slot.
fn to_slot() -> Run {
    let mut run = Run::start(run_molecule());
    to_admission(&mut run);
    while matches!(run.stage(), Stage::Check { .. }) {
        run.judge(&Evidence::Told(true), None).unwrap();
    }
    assert!(matches!(run.stage(), Stage::Slot { .. }));
    run
}

#[test]
fn a_drain_takes_the_slot_of_its_noyau_and_a_second_is_refused() {
    let mut drains = DrainRegistry::default();
    let mut first = to_slot();
    first.take_slot(&mut drains, "a").unwrap();
    assert!(matches!(first.stage(), Stage::Perform { effect: Effect::StartDrain }));
    assert!(drains.is_active("a"));

    let mut second = to_slot();
    let refused = second.take_slot(&mut drains, "a").unwrap_err();
    assert_eq!((refused.error.status, refused.error.label), (409, "drain_already_active"));
    assert_eq!(refused.error.request_id.as_deref(), Some("req-9"));
    assert!(!refused.counted);
    assert!(matches!(second.stage(), Stage::Slot { .. }));
    assert!(drains.is_active("a"));
    second.take_slot(&mut drains, "b").unwrap();
    assert!(drains.is_active("a") && drains.is_active("b"));

    drains.release("a");
    let mut third = to_slot();
    third.take_slot(&mut drains, "a").unwrap();
    assert!(drains.is_active("a"));
}

#[test]
fn a_run_passes_its_gates_in_order() {
    let mut run = Run::start(get_molecule());
    assert!(matches!(run.stage(), Stage::Bearer { .. }));
    run.pass();
    assert!(matches!(run.stage(), Stage::Token { .. }));
    run.pass();
    assert!(matches!(run.stage(), Stage::Scope { .. }));
    let refused = run.authorise(&HabilitationMap::default(), &token(&[])).unwrap_err();
    assert_eq!((refused.error.status, refused.error.label), (403, "forbidden"));
    assert!(matches!(run.stage(), Stage::Scope { .. }), "a refused request stays where it is");
    to_admission(&mut run);
    assert_eq!(run.request_id().as_deref(), Some("req-9"));
    assert_eq!(run.answer(200), None);
    loop {
        match run.stage() {
            Stage::Answer { .. } | Stage::Report => break,
            Stage::Check { .. } => run.judge(&Evidence::Told(true), None).unwrap(),
            Stage::Perform { .. } => {
                let fault = run.fault(404, "not_found");
                assert_eq!(fault.error.request_id.as_deref(), Some("req-9"));
                run.pass();
            }
            _ => run.pass(),
        }
    }
    assert_eq!(run.answer(200), Some(200));
}

#[test]
fn a_refused_check_carries_the_request_and_its_detail() {
    let mut run = Run::start(avatar_incarnate());
    to_admission(&mut run);
    run.judge(&Evidence::Told(true), None).unwrap();
    let refused = run.judge(&Evidence::Told(false), Some("why")).unwrap_err();
    assert_eq!((refused.error.status, refused.error.label), (409, "already_incarnated"));
    assert_eq!(refused.error.request_id.as_deref(), Some("req-9: why"));
}

#[test]
fn a_dispatch_is_decided_by_the_processes_themselves() {
    let reach = |process: Option<ProcessRecord>, workers: Vec<ProcessRecord>| {
        let mut run = Run::start(tackle_molecule());
        to_admission(&mut run);
        loop {
            let found = match run.stage() {
                Stage::Perform { effect: Effect::Dispatch } => return Ok(()),
                Stage::Perform { .. } => {
                    run.pass();
                    continue;
                }
                Stage::Check { fact: Fact::NoLiveWorker, .. } => Evidence::Process(process),
                Stage::Check { fact: Fact::BelowCeiling, .. } => Evidence::Workers(Some(workers.clone())),
                _ => Evidence::Told(true),
            };
            if let Err(e) = run.judge(&found, None) {
                return Err((e.error.status, e.error.label, e.counted));
            }
        }
    };
    let live = record(true, None, None, None);
    assert_eq!(reach(None, vec![live; 3]), Ok(()));
    assert_eq!(reach(Some(live), Vec::new()), Err((409, "already_active", false)));
    assert_eq!(reach(None, vec![live; 4]), Err((429, "tackle_ceiling", true)));
}

#[test]
fn word_alone_opens_no_gate_that_is_decided_here() {
    for fact in [Fact::NoLiveWorker, Fact::BelowCeiling, Fact::DigestAgrees, Fact::TokenKnown] {
        assert!(!decide(fact, &Evidence::Told(true)));
    }
    assert!(decide(Fact::TenantRootExists, &Evidence::Told(true)));
    assert!(!decide(Fact::TenantRootExists, &Evidence::Text("yes".to_owned())));
}

#[test]
fn facts_are_decided_from_what_was_found() {
    let text = |s: &str| Evidence::Text(s.to_owned());
    assert!(decide(Fact::ReasonGiven, &text("why")));
    assert!(!decide(Fact::ReasonGiven, &text("  ")));
    assert!(decide(Fact::NameSegmentSafe, &text("a b.txt")));
    assert!(!decide(Fact::PaneSegmentSafe, &text("a b")));
    assert!(decide(Fact::CanalKnown, &text("c")));
    assert!(!decide(Fact::CanalKnown, &text("x")));
    assert!(!decide(Fact::MessageGiven, &Evidence::Payload(Json::Null)));
    assert!(decide(Fact::DataGiven, &Evidence::Payload(Json::Bool(false))));
    let list = || Evidence::Variables(Some(json("[1]")));
    let number = || Evidence::Variables(Some(json(r#"{"a":1}"#)));
    assert!(!decide(Fact::VariablesAreAnObject, &list()));
    assert!(decide(Fact::VariablesAreAnObject, &number()));
    assert!(!decide(Fact::VariablesAreTexts, &number()));
    assert!(decide(Fact::VariablesAreTexts, &Evidence::Variables(None)));
    assert!(!decide(Fact::TagsGiven, &Evidence::Tags(TagBody { add: None, remove: None })));
    assert!(decide(Fact::StrategyKnown, &Evidence::Strategy(None)));
    assert!(!decide(Fact::StrategyKnown, &Evidence::Strategy(Some("squash".to_owned()))));
    assert!(decide(Fact::BodySmallEnough, &Evidence::Size(4_194_304)));
    assert!(!decide(Fact::BodySmallEnough, &Evidence::Size(4_194_305)));
    assert!(decide(Fact::DirectoryReadable, &Evidence::Listing(DirListing::Missing)));
    assert!(!decide(Fact::DirectoryReadable, &Evidence::Listing(DirListing::Unreadable)));
    assert!(!decide(Fact::TokenKnown, &Evidence::Lookup { entries: Vec::new(), token: "t".to_owned() }));
    assert!(decide(Fact::DigestAgrees, &Evidence::Digest { header: None, body: Vec::new() }));
    let other = Evidence::Digest { header: Some("blake3=00".to_owned()), body: Vec::new() };
    assert!(!decide(Fact::DigestAgrees, &other));
    let absent = Evidence::IfMatch { header: Some("\"00\"".to_owned()), existing: None };
    assert!(!decide(Fact::IfMatchHolds, &absent));
    let hops = |hop: u32| Evidence::Hops {
        kind: ConverseKind::Request,
        hop,
        binding: Some("max_hops = 3\n".to_owned()),
    };
    assert!(decide(Fact::HopsWithinBound, &hops(2)));
    assert!(!decide(Fact::HopsWithinBound, &hops(3)));
    let sealed = |integrity: String| Evidence::Integrity { data: b" null".to_vec(), integrity };
    assert!(decide(Fact::IntegrityAgrees, &sealed(blake3::hash(b"null").to_hex().to_string())));
    assert!(!decide(Fact::IntegrityAgrees, &sealed(String::new())));
    let torn = Evidence::Integrity { data: b"{".to_vec(), integrity: blake3::hash(b"{").to_hex().to_string() };
    assert!(!decide(Fact::IntegrityAgrees, &torn));
}

#[test]
fn a_settled_run_does_nothing_more() {
    let mut run = Run::start(list_molecules());
    to_admission(&mut run);
    run.judge(&Evidence::Told(true), None).unwrap();
    run.settle();
    assert_eq!(run.answer(0), Some(200));
}

#[test]
fn a_metered_refusal_is_counted() {
    let run = Run::start(get_molecule());
    let r = run.reject(401, "missing_authorization", None);
    assert_eq!(r.error.status, 401);
    assert!(r.counted);
}

fn performs(plan: &[Stage], wanted: Effect) -> bool {
    plan.iter().any(|s| matches!(s, Stage::Perform { effect } if *effect == wanted))
}

fn scopes_of(plan: &[Stage]) -> Vec<ScopeRule> {
    plan.iter()
        .filter_map(|s| match s {
            Stage::Scope { rule, .. } => Some(*rule),
            _ => None,
        })
        .collect()
}

#[test]
fn plans_ask_for_the_scope_of_what_they_do() {
    assert_eq!(scopes_of(&get_molecule()), vec![ScopeRule::MoleculeRead]);
    assert_eq!(scopes_of(&list_molecules()), vec![ScopeRule::MoleculeRead]);
    assert_eq!(scopes_of(&post_molecule()), vec![ScopeRule::MoleculeWrite]);
    assert!(scopes_of(&tackle_molecule()).contains(&ScopeRule::WorkerSpawn));
    assert!(scopes_of(&run_molecule()).contains(&ScopeRule::WorkerSpawn));
    let asks = DoneBody { no_auto_propel: Some(false), max_retries: Some(2), ..done_body() };
    let no_retries = DoneBody { no_auto_propel: Some(false), max_retries: Some(0), ..done_body() };
    let kept_back = DoneBody { no_auto_propel: None, max_retries: Some(2), ..done_body() };
    for body in [None, Some(&done_body()), Some(&no_retries), Some(&kept_back)] {
        assert!(!scopes_of(&done_molecule(body)).contains(&ScopeRule::WorkerSpawn));
    }
    assert!(scopes_of(&done_molecule(Some(&asks))).contains(&ScopeRule::WorkerSpawn));
    assert_eq!(scopes_of(&push_artifact()), vec![ScopeRule::ArtifactWrite]);
    assert_eq!(scopes_of(&require_valid_bearer(RequiredScope::Write)), vec![ScopeRule::MoleculeWrite]);
    assert!(performs(&freeze_molecule(FreezeState::Frozen), Effect::Freeze));
    assert!(performs(&freeze_molecule(FreezeState::Active), Effect::Thaw));
}

// The operator's routes

#[test]
fn the_operators_routes_start_at_the_seal() {
    for plan in [provision_habilitation(), list_habilitations()] {
        assert!(matches!(plan[0], Stage::Seal));
    }
    assert_eq!(federation_status(true), 201);
    assert_eq!(federation_status(false), 200);
}

#[test]
fn a_provisioned_binding_shows_its_seal() {
    let out = ProvisionOutcome {
        created: true,
        noyau_created: false,
        habilitation_id: "h".to_owned(),
        noyau: "n".to_owned(),
        binding_path: "/p".to_owned(),
        seal: "abc".to_owned(),
    };
    let shown = provisioned(out, "req-1");
    assert_eq!(shown.seal, "blake3:abc");
    assert!(shown.reloaded);
}

#[test]
fn a_failed_reload_is_answered_so() {
    let mut outcome = ReloadOutcome {
        bindings_before: 0,
        bindings_after: 0,
        new_noyaux: Vec::new(),
        init_report: None,
        error: None,
    };
    assert!(check_reload(&outcome).is_ok());
    outcome.error = Some("boom".to_owned());
    let e = check_reload(&outcome).unwrap_err();
    assert_eq!((e.status, e.label), (503, "reload_failed"));
}
