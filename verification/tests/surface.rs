use cosmon_rpp_adapter::frozen_api_surface;
use cosmon_rpp_adapter::json::{parse_json, Json};
use cosmon_rpp_adapter::jwt::ValidatedJwt;
use cosmon_rpp_adapter::metrics::StatusClassCounts;
use cosmon_rpp_adapter::nucleon_map::{DrainBounds, HabilitationId, HabilitationMap, Noyau, OidcIdentity, OidcClaims, IdentityFile, DrainBoundsSpec};
use cosmon_rpp_adapter::paths::expand_tilde;
use cosmon_rpp_adapter::phone_home::{
    ingest, materialize_reports, parse_header, sanitize_token, MAX_REPORTS_PER_HEADER,
};
use cosmon_rpp_adapter::preflight::{
    check, check_declared_credentials, check_worker_credential, lookup_env, models_url, precondition_of,
    probe_local_backend, LoginFault, Precondition, PreflightRefusal, Probe, ProbeOutcome,
};
use cosmon_rpp_adapter::rate_limit::{
    bucket_path, clamp_millis, elapsed_ms, filename_safe, hash_sub, Clock, SystemClock,
};
use cosmon_rpp_adapter::routes::auth_me::{days_to_ymd, format_exp_iso8601, get_auth_me};
use cosmon_rpp_adapter::routes::avatar::{
    accept_message, accept_perception, audit_reply, binding_file, binding_max_hops, converse_reply, grant_file_name,
    grant_reply, grant_text, has_payload, hops_within_bound, incarnate_reply, instance_dir, integrity_agrees,
    is_known_canal, ledger_documents, mould_config, mould_reply, perceive_reply, perception_agrees,
    sanitise_source_name, source_flag, status_reply, Bound, ConverseKind, ConverseResponse, GrantBody, IncarnateBody,
    DEFAULT_MAX_CONVERSE_HOPS,
};
use cosmon_rpp_adapter::routes::dist::{
    binary_url_path, known_platforms, read_refusal, serve_binary, DistState, ReadFailure,
};
use cosmon_rpp_adapter::routes::noyaux::list_noyaux;
use cosmon_rpp_adapter::routes::observability::{
    diagnostics, escape_label, render_prometheus, BackendHealth, BackendStatus, MetricsSnapshot,
};
use cosmon_rpp_adapter::routes::quota::{effective_bounds, format_reset_iso, shown_bounds};
use cosmon_rpp_adapter::routes::{
    build_config_set_block, healthz, request_base_url, serve_dist_justfile, serve_install_sh, InstallTemplating,
};
use cosmon_rpp_adapter::surface::{route_table, served_path, versioned_paths, Handler, Method};
use cosmon_rpp_adapter::Posture;

fn token(iss: &str, sub: &str, aud: &str) -> ValidatedJwt {
    ValidatedJwt {
        iss: iss.to_owned(),
        sub: sub.to_owned(),
        aud: aud.to_owned(),
        scopes: vec!["cosmon:molecule:read".to_owned()],
        exp: 1_700_000_000,
    }
}

fn one_binding() -> HabilitationMap {
    HabilitationMap::builder()
        .insert("https://idp", "you", HabilitationId::new("nuc"), Noyau::new("tenant-demo"), "aud")
        .build()
}

// Reports of client errors

#[test]
fn parse_header_happy_path() {
    let pairs = parse_header("req-1:503_tackle_unavailable,req-2:409_reserved_name");
    assert_eq!(
        pairs,
        vec![
            ("req-1".to_owned(), "503_tackle_unavailable".to_owned()),
            ("req-2".to_owned(), "409_reserved_name".to_owned()),
        ]
    );
}

#[test]
fn parse_header_caps_pair_count() {
    let value = (0..20).map(|i| format!("req-{i}:503_x")).collect::<Vec<_>>().join(",");
    assert_eq!(parse_header(&value).len(), MAX_REPORTS_PER_HEADER);
}

#[test]
fn sanitize_blocks_path_traversal() {
    assert_eq!(sanitize_token("../../etc/passwd").as_deref(), Some("....etcpasswd"));
    assert!(sanitize_token("..").is_none());
    assert!(sanitize_token("/").is_none());
    assert!(sanitize_token("").is_none());
    let pairs = parse_header("../../x:503_y");
    assert_eq!(pairs.len(), 1);
    assert!(!pairs[0].0.contains('/'));
}

#[test]
fn report_never_contains_raw_sub_or_free_text() {
    let raw_sub = "tenant-demo-operator";
    let pairs = parse_header("req-77:503_tackle_unavailable,evil:contenu du casier!");
    let reports = materialize_reports("/inbox", "tenant-demo", &hash_sub(raw_sub), &pairs, "2026-06-11T00:00:00Z");
    assert_eq!(reports.len(), 2);
    for r in &reports {
        let text = format!("{r:?}");
        assert!(!text.contains(raw_sub), "raw sub leaked: {text}");
        assert_eq!(r.sub_hash, hash_sub(raw_sub));
        for field in [&r.reported_request_id, &r.error_code] {
            assert!(
                field.chars().all(|c| c.is_ascii_alphanumeric() || ".-_".contains(c)),
                "unsanitised content: {field}"
            );
        }
    }
}

#[test]
fn materialize_writes_expected_shape() {
    let pairs = vec![("req-abc".to_owned(), "502_token_exchange".to_owned())];
    let reports = materialize_reports("/inbox", "tenant-demo", "deadbeef", &pairs, "2026-06-11T00:00:00Z");
    assert_eq!(reports.len(), 1);
    assert_eq!(reports[0].path, "/inbox/phone-home/req-abc.json");
    assert_eq!(reports[0].reported_request_id, "req-abc");
    assert_eq!(reports[0].error_code, "502_token_exchange");
    assert_eq!(reports[0].noyau, "tenant-demo");
    assert_eq!(reports[0].sub_hash, "deadbeef");
    assert_eq!(reports[0].reported_at, "2026-06-11T00:00:00Z");
}

#[test]
fn every_report_has_a_file_of_its_own() {
    let pairs = parse_header("-:503_a,-:502_b,req-1:409_c,-:500_d");
    let reports = materialize_reports("/inbox", "n", "h", &pairs, "t");
    let paths: Vec<&str> = reports.iter().map(|r| r.path.as_str()).collect();
    assert_eq!(
        paths,
        vec![
            "/inbox/phone-home/unknown.json",
            "/inbox/phone-home/unknown~2.json",
            "/inbox/phone-home/req-1.json",
            "/inbox/phone-home/unknown~3.json",
        ]
    );
    let codes: Vec<&str> = reports.iter().map(|r| r.error_code.as_str()).collect();
    assert_eq!(codes, vec!["503_a", "502_b", "409_c", "500_d"]);
}

#[test]
fn no_header_leads_out_of_the_inbox() {
    let header = "../../etc/x:503_a,req-1:../b,req-2:409_c";
    let kept = ingest(header, &token("https://idp", "you", "aud"), &one_binding(), "/inbox", "t");
    assert!(!kept.is_empty());
    for report in &kept {
        let name = report.path.strip_prefix("/inbox/phone-home/").unwrap();
        assert!(!name.contains('/'));
        assert!(name.ends_with(".json"));
    }
}

#[test]
fn an_unbound_principal_leaves_no_report() {
    let map = one_binding();
    assert!(ingest("a:b", &token("https://idp", "stranger", "aud"), &map, "/inbox", "t").is_empty());
    let kept = ingest("a:b", &token("https://idp", "you", "aud"), &map, "/inbox", "t");
    assert_eq!(kept.len(), 1);
    assert_eq!(kept[0].noyau, "tenant-demo");
    assert_eq!(kept[0].sub_hash, blake3::hash(b"you").to_hex().to_string());
}

// Rate limits

#[test]
fn buckets_are_named_by_the_hash_of_the_subject() {
    let hash = hash_sub("you");
    assert_eq!(hash, blake3::hash(b"you").to_hex().to_string());
    assert_eq!(bucket_path("/b", &hash), format!("/b/{hash}.json"));
    assert_eq!(filename_safe("a/b.c"), "a_b_c");
}

#[test]
fn a_clock_that_goes_back_leaks_nothing() {
    assert_eq!(elapsed_ms(10, 4), 6);
    assert_eq!(elapsed_ms(4, 10), 0);
    assert_eq!(elapsed_ms(i64::MAX, i64::MIN), i64::MAX);
    assert_eq!(clamp_millis(Some(u128::MAX)), i64::MAX);
    assert_eq!(clamp_millis(None), 0);
    assert!(SystemClock.now_ms() > 1_600_000_000_000);
}

// Preconditions of a worker

fn credentialed() -> Vec<String> {
    vec!["hosted".to_owned()]
}

#[test]
fn adapters_state_what_they_need() {
    assert_eq!(precondition_of("hosted", &credentialed()), Precondition::Credential);
    assert_eq!(precondition_of("local", &credentialed()), Precondition::Backend);
    assert_eq!(precondition_of("ollama", &credentialed()), Precondition::Backend);
    assert_eq!(precondition_of("direct-api", &credentialed()), Precondition::Nothing);
    let declared = check("hosted", &credentialed(), &Some("/c.json".to_owned()), &None);
    assert!(matches!(declared, Probe::DeclaredCredentials { path } if path == "/c.json"));
    assert!(matches!(check("hosted", &credentialed(), &None, &None), Probe::WorkerCredentials));
    assert!(matches!(check("local", &credentialed(), &None, &None), Probe::Nothing));
    let dialled = check("local", &credentialed(), &None, &Some("http://b".to_owned()));
    assert!(matches!(dialled, Probe::Backend { base_url } if base_url == "http://b"));
}

#[test]
fn an_unusable_login_refuses_with_its_remedy() {
    assert!(check_declared_credentials("hosted", "Acme", "/c.json", true, "valid").is_ok());
    let refusal = check_declared_credentials("hosted", "Acme", "/c.json", false, "expired").unwrap_err();
    assert_eq!(refusal.label(), "worker_credential_missing");
    match refusal {
        PreflightRefusal::WorkerCredentialMissing { adapter, detail, remedy } => {
            assert_eq!(adapter, "hosted");
            assert_eq!(detail, "the credentials file this deployment declares is expired (/c.json)");
            assert!(remedy.starts_with("Complete the Acme login on this instance (`cs-remote login hosted`, or the "));
        }
        other => panic!("{other:?}"),
    }
    assert!(check_worker_credential("hosted", &None).is_ok());
    let fault = LoginFault { detail: "no login".to_owned(), remedy: "log in".to_owned() };
    assert_eq!(check_worker_credential("hosted", &Some(fault)).unwrap_err().label(), "worker_credential_missing");
}

#[test]
fn token_absent_from_the_worker_env_has_no_value() {
    let env = vec![("HOME".to_owned(), "/h".to_owned()), ("HOME".to_owned(), "/second".to_owned())];
    assert_eq!(lookup_env(&env, "HOME").as_deref(), Some("/h"));
    assert_eq!(lookup_env(&env, "TOKEN"), None);
}

#[test]
fn unreachable_backend_refuses_with_adapter_backend_unreachable() {
    let outcome = ProbeOutcome::NoAnswer { error: "connection refused".to_owned() };
    let refusal = probe_local_backend("local", "http://127.0.0.1:1", Some("qwen3:8b"), &outcome).unwrap_err();
    assert_eq!(refusal.label(), "adapter_backend_unreachable");
    match refusal {
        PreflightRefusal::AdapterBackendUnreachable { detail, .. } => {
            assert_eq!(detail, "backend at http://127.0.0.1:1 did not answer: connection refused");
        }
        other => panic!("{other:?}"),
    }
}

#[test]
fn a_backend_must_serve_the_pinned_model() {
    let models = ProbeOutcome::Models(vec!["a".to_owned(), "b".to_owned()]);
    assert!(probe_local_backend("local", "http://b", Some("b"), &models).is_ok());
    assert!(probe_local_backend("local", "http://b", None, &models).is_ok());
    let detail = |m: &str, o: &ProbeOutcome| match probe_local_backend("local", "http://b", Some(m), o) {
        Err(PreflightRefusal::AdapterBackendUnreachable { detail, .. }) => detail,
        other => panic!("{other:?}"),
    };
    assert_eq!(detail("c", &models), "backend at http://b cannot serve model 'c' — it serves: a, b");
    assert_eq!(
        detail("c", &ProbeOutcome::Models(Vec::new())),
        "backend at http://b cannot serve model 'c' — it serves no models at all — none have been pulled"
    );
    assert_eq!(
        detail("c", &ProbeOutcome::Refused { status: "500".to_owned() }),
        "backend at http://b answered HTTP 500"
    );
    assert_eq!(
        detail("c", &ProbeOutcome::Unreadable { error: "e".to_owned() }),
        "unreadable /v1/models response from http://b: e"
    );
    assert_eq!(
        detail("c", &ProbeOutcome::NoClient { error: "e".to_owned() }),
        "http client build failed: e"
    );
    assert_eq!(
        detail("c", &ProbeOutcome::NoRuntime { error: "e".to_owned() }),
        "could not build the probe runtime: e"
    );
    assert_eq!(models_url("http://b//"), "http://b/v1/models");
}

// Dates

#[test]
fn format_exp_iso8601_known_values() {
    assert_eq!(format_exp_iso8601(0), "1970-01-01T00:00:00Z");
    assert_eq!(format_exp_iso8601(1_700_000_000), "2023-11-14T22:13:20Z");
    assert_eq!(format_exp_iso8601(1_779_451_200), "2026-05-22T12:00:00Z");
}

#[test]
fn days_to_ymd_handles_leap_years() {
    let (y, m, d) = days_to_ymd(19_782);
    assert_eq!((y, m, d), (2024, 2, 29));
    let (y, m, d) = days_to_ymd(20_595);
    assert_eq!((y, m, d), (2026, 5, 22));
}

#[test]
fn dates_at_the_ends_of_years_and_centuries() {
    assert_eq!(days_to_ymd(0), (1970, 1, 1));
    assert_eq!(days_to_ymd(364), (1970, 12, 31));
    assert_eq!(days_to_ymd(365), (1971, 1, 1));
    assert_eq!(days_to_ymd(11_016), (2000, 2, 29));
    assert_eq!(days_to_ymd(47_540), (2100, 2, 28));
    assert_eq!(days_to_ymd(47_541), (2100, 3, 1));
}

#[test]
fn a_caller_is_told_what_its_token_says() {
    let me = get_auth_me(&token("https://idp", "you", "aud"), &one_binding(), Some(true), "0.2.1", 7);
    assert_eq!(me.sub, "you");
    assert_eq!(me.aud, vec!["aud".to_owned()]);
    assert_eq!(me.noyau.as_deref(), Some("tenant-demo"));
    assert_eq!(me.expires_at, "2023-11-14T22:13:20Z");
    assert_eq!(me.claude_credentials_present, Some(true));
    let stranger = get_auth_me(&token("https://idp", "other", "aud"), &one_binding(), None, "0.2.1", 7);
    assert_eq!(stranger.noyau, None);
}

// Avatars

#[test]
fn sanitise_replaces_slashes_and_special_chars() {
    assert_eq!(sanitise_source_name("foo/bar"), "foo_bar");
    assert_eq!(sanitise_source_name("https://example.com"), "https___example.com");
    assert_eq!(sanitise_source_name("safe-name_v2.0"), "safe-name_v2.0");
}

#[test]
fn binding_max_hops_reads_override_and_falls_back() {
    assert_eq!(binding_max_hops(Some("target = \"x\"\nmax_hops = 3\n")), 3);
    assert_eq!(binding_max_hops(Some("target = \"x\"\n")), DEFAULT_MAX_CONVERSE_HOPS);
    assert_eq!(binding_max_hops(Some("not toml [[")), DEFAULT_MAX_CONVERSE_HOPS);
    assert_eq!(binding_max_hops(None), DEFAULT_MAX_CONVERSE_HOPS);
    assert_eq!(binding_max_hops(Some("max_hops = -1\n")), DEFAULT_MAX_CONVERSE_HOPS);
    assert_eq!(binding_max_hops(Some("max_hops = 4294967296\n")), DEFAULT_MAX_CONVERSE_HOPS);
}

#[test]
fn requests_end_and_announcements_pass() {
    assert!(hops_within_bound(ConverseKind::Request, 7, 8));
    assert!(!hops_within_bound(ConverseKind::Request, 8, 8));
    assert!(hops_within_bound(ConverseKind::Announce, 99, 8));
    assert_eq!(accept_message("req-1").message_id, "msg-req-1");
    assert_eq!(accept_perception("req-1").perception_id, "prc-req-1");
}

#[test]
fn integrity_covers_what_was_sent() {
    let hex = |b: &[u8]| blake3::hash(b).to_hex().to_string();
    let text = Json::Text("aGVsbG8=".to_owned());
    assert!(integrity_agrees(&text, &b"\"aGVsbG8=\"".to_vec(), &hex(b"hello")));
    assert!(!integrity_agrees(&text, &b"\"aGVsbG8=\"".to_vec(), &hex(b"\"aGVsbG8=\"")));
    // Bits behind the last byte, or padding left out: no base64 text.
    for odd in ["aGVsbG9=", "aGVsbG8", "aGVsbG8=="] {
        let sent = format!("\"{odd}\"").into_bytes();
        assert!(integrity_agrees(&Json::Text(odd.to_owned()), &sent, &hex(&sent)));
    }
    let object = parse_json(b"{\"a\":1}").unwrap();
    assert!(integrity_agrees(&object, &b"{\"a\":1}".to_vec(), &hex(b"{\"a\":1}")));
    assert!(!integrity_agrees(&object, &b"{\"a\":2}".to_vec(), &hex(b"{\"a\":1}")));
    assert!(has_payload(&object));
    assert!(!has_payload(&Json::Null));
}

#[test]
fn a_perception_is_hashed_as_it_is_written_out() {
    let hex = |b: &[u8]| blake3::hash(b).to_hex().to_string();
    assert_eq!(perception_agrees(b"{ \"b\": 1, \"a\": [true, null] }", &hex(b"{\"a\":[true,null],\"b\":1}")), Some(true));
    assert_eq!(perception_agrees(b"{ \"a\": 1 }", &hex(b"{ \"a\": 1 }")), Some(false));
    assert_eq!(perception_agrees(b"true", &hex(b"")), Some(false));
    assert_eq!(perception_agrees(b"true", &hex(b"true")), Some(true));
    assert_eq!(perception_agrees(b" \"aGVsbG8=\"", &hex(b"hello")), Some(true));
    assert_eq!(perception_agrees(b"{", &hex(b"{")), None);
}

#[test]
fn a_mould_is_read_from_its_file() {
    assert!(matches!(mould_config(false, Some("a = 1")), Json::Null));
    assert!(matches!(mould_config(true, Some("a =")), Json::Null));
    match mould_config(true, None) {
        Json::Object(fields) => assert!(fields.is_empty()),
        other => panic!("an unreadable file counts as an empty one, not as {other:?}"),
    }
    let config = mould_config(true, Some("name = \"m\"\n[limits]\nhops = 3\n"));
    assert_eq!(config.get("name").and_then(Json::as_text), Some("m"));
    assert!(matches!(config.get("limits").and_then(|l| l.get("hops")), Some(Json::Number(n)) if n == "3"));
}

/// A document as `serde_json` has it.
fn value(document: &Json) -> serde_json::Value {
    match document {
        Json::Null => serde_json::Value::Null,
        Json::Bool(b) => serde_json::Value::Bool(*b),
        Json::Number(text) => serde_json::from_str(text).unwrap(),
        Json::Text(text) => serde_json::Value::String(text.clone()),
        Json::Array(items) => serde_json::Value::Array(items.iter().map(value).collect()),
        Json::Object(fields) => {
            serde_json::Value::Object(fields.iter().map(|(k, v)| (k.clone(), value(v))).collect())
        }
    }
}

fn written(text: &str) -> serde_json::Value {
    serde_json::from_str(text).unwrap()
}

fn bound() -> Bound {
    Bound {
        cicatrice: "c1ca".to_owned(),
        pilote_id: "did:key:z6Mk".to_owned(),
        juridiction: "FR".to_owned(),
        tenant_id: "tenant-demo".to_owned(),
        incarnated_at: "2026-05-01T00:00:00+00:00".to_owned(),
    }
}

#[test]
fn an_instance_is_a_mould_until_it_is_taken() {
    assert_eq!(
        value(&status_reply("req-1", "inst-1", None)),
        written(r#"{"request_id":"req-1","avatar_status":{"state":"mould","instance_id":"inst-1"}}"#)
    );
    assert_eq!(
        value(&status_reply("req-1", "inst-1", Some(&bound()))),
        written(
            r#"{"request_id":"req-1","avatar_status":{"state":"avatar","instance_id":"inst-1","cicatrice":"c1ca",
                "pilote_id":"did:key:z6Mk","juridiction":"FR","tenant_id":"tenant-demo",
                "incarnated_at":"2026-05-01T00:00:00+00:00"}}"#
        )
    );
    let asked = IncarnateBody {
        pilote_id: "did:key:z6Mk".to_owned(),
        tenant_id: "tenant-demo".to_owned(),
        juridiction: "FR".to_owned(),
    };
    assert_eq!(
        value(&incarnate_reply("req-1", "inst-1", &asked, "c1ca", "2026-05-01T00:00:00+00:00")),
        written(
            r#"{"request_id":"req-1","incarnate":{"instance_id":"inst-1","cicatrice":"c1ca",
                "pilote_id":"did:key:z6Mk","juridiction":"FR","tenant_id":"tenant-demo",
                "incarnated_at":"2026-05-01T00:00:00+00:00"}}"#
        )
    );
}

#[test]
fn an_audit_shows_every_event_of_the_ledger() {
    let ledger = b"{\"kind\":\"born\"}\nnot json\n\n{\"kind\":\"taken\",\"n\":2}\n".to_vec();
    assert_eq!(
        value(&audit_reply("req-1", "inst-1", None, &ledger)),
        written(
            r#"{"request_id":"req-1","audit":{"instance_id":"inst-1","state":"mould",
                "events":[{"kind":"born"},{"kind":"taken","n":2}]}}"#
        )
    );
    assert_eq!(
        value(&audit_reply("req-1", "inst-1", Some(&bound()), &Vec::new())),
        written(
            r#"{"request_id":"req-1","audit":{"instance_id":"inst-1","state":"avatar","cicatrice":"c1ca",
                "incarnation":{"pilote_id":"did:key:z6Mk","juridiction":"FR","tenant_id":"tenant-demo",
                    "ts":"2026-05-01T00:00:00+00:00"},
                "events":[]}}"#
        )
    );
}

#[test]
fn moulds_and_grants_are_answered_with_what_they_hold() {
    let info = mould_reply("req-1", "inst-1", true, Some("name = \"m\"\nlimit = 3\n"));
    assert_eq!(
        value(&info),
        written(
            r#"{"request_id":"req-1","mould_info":{"instance_id":"inst-1","state":"mould",
                "config":{"name":"m","limit":3},"ready_for_incarnation":true}}"#
        )
    );
    assert!(value(&mould_reply("req-1", "inst-1", false, None))["mould_info"]["config"].is_null());
    let asked = GrantBody { canal: "b".to_owned(), target: "peer".to_owned() };
    assert_eq!(
        value(&grant_reply("req-1", "inst-1", &asked)),
        written(
            r#"{"request_id":"req-1","grant":{"instance_id":"inst-1","canal":"b","target":"peer","granted":true}}"#
        )
    );
}

#[test]
fn messages_and_perceptions_are_answered_under_the_id_of_the_request() {
    assert_eq!(
        value(&converse_reply("req-1", accept_message("req-1"))),
        written(r#"{"request_id":"req-1","converse":{"message_id":"msg-req-1","accepted":true}}"#)
    );
    let answered =
        ConverseResponse { message_id: "m".to_owned(), accepted: true, response: Some(Json::text("hello")) };
    assert_eq!(value(&converse_reply("req-1", answered))["converse"]["response"], "hello");
    let perceived = value(&perceive_reply("req-1", &accept_perception("req-1")));
    assert_eq!(perceived["perceive"]["accepted"], true);
    assert_eq!(perceived["perceive"]["perception_id"], accept_perception("req-1").perception_id);
}

#[test]
fn avatars_lie_under_the_state_of_their_noyau() {
    assert_eq!(binding_file("/g", "n", "ava-1"), "/g/n/.cosmon/state/bindings/ava-1.toml");
    assert_eq!(source_flag("/g", "n", "a/b"), "/g/n/.cosmon/state/perception/sources/a_b.toml");
    assert_eq!(instance_dir("/g", "n", "i-1"), "/g/n/.cosmon/state/instances/i-1");
    assert!(is_known_canal("b") && is_known_canal("c") && is_known_canal("d"));
    assert!(!is_known_canal("a"));
    assert_eq!(grant_file_name("b", "x/y"), "canal-b-x_y.toml");
    assert_eq!(grant_text("b", "x", "t"), "canal = \"b\"\ntarget = \"x\"\ngranted_at = \"t\"\n");
}

#[test]
fn ledgers_are_read_line_by_line() {
    let docs = ledger_documents(&b"{\"a\":1}\nnot json\n\n[2]".to_vec());
    assert_eq!(docs.len(), 2);
    assert!(matches!(docs[1], Json::Array(_)));
    assert!(matches!(docs[0].get("a"), Some(Json::Number(n)) if n == "1"));
}

// Binaries

#[test]
fn known_platforms_accept() {
    let s = DistState::new("/tmp/dist");
    for p in known_platforms() {
        assert!(s.binary_path(p).is_some(), "platform {p} rejected");
    }
}

#[test]
fn unknown_platform_rejected() {
    let s = DistState::new("/tmp/dist");
    assert!(s.binary_path("freebsd-arm64").is_none());
    assert!(s.binary_path("../etc/passwd").is_none());
    assert!(s.binary_path("").is_none());
}

#[test]
fn binary_path_layout() {
    let s = DistState::new("/srv/binaries");
    let p = s.binary_path("linux-amd64").unwrap();
    assert_eq!(p, "/srv/binaries/linux-amd64/cosmon-remote");
}

#[test]
fn binary_url_path_layout() {
    assert_eq!(binary_url_path("linux-amd64"), "/dist/binary/linux-amd64/cosmon-remote");
    assert_eq!(binary_url_path("$PLATFORM"), "/dist/binary/$PLATFORM/cosmon-remote");
}

#[test]
fn a_refused_binary_says_why() {
    let s = DistState::new("/d");
    let (status, text) = serve_binary(&s, "a\"b").unwrap_err();
    assert_eq!(status, 404);
    assert_eq!(text, "unknown platform \"a\\\"b\" — known: macos-arm64, macos-amd64, linux-arm64, linux-amd64");
    assert_eq!(read_refusal("/d/x", &ReadFailure::Missing).0, 404);
    assert_eq!(
        read_refusal("/d/x", &ReadFailure::Other { error: "e".to_owned() }),
        (500, "read /d/x: e".to_owned())
    );
}

// Metrics

#[test]
fn escape_label_quotes_and_backslash() {
    assert_eq!(escape_label("plain"), "plain");
    assert_eq!(escape_label("with \"quote\""), "with \\\"quote\\\"");
    assert_eq!(escape_label("back\\slash"), "back\\\\slash");
    assert_eq!(escape_label("multi\nline"), "multi\\nline");
}

fn snapshot() -> MetricsSnapshot {
    MetricsSnapshot {
        uptime_seconds: 5,
        version: "0.2.1".to_owned(),
        posture: Posture::Prepared,
        statuses: StatusClassCounts {
            responses_1xx: 0,
            responses_2xx: 2,
            responses_3xx: 0,
            responses_4xx: 1,
            responses_5xx: 0,
        },
        rejects: Vec::new(),
        rate_limit_capacity: "30".to_owned(),
        rate_limit_leak_per_minute: "10".to_owned(),
        backends: vec![BackendHealth {
            name: "a\"b".to_owned(),
            status: BackendStatus::Degraded,
            latency_p95_ms: Some(12),
        }],
        jwks_keys_by_issuer: vec![("https://idp".to_owned(), 3)],
        bindings: 2,
        noyaux: 1,
        subscribers: 0,
    }
}

#[test]
fn a_scrape_shows_every_family() {
    let text = render_prometheus(&snapshot());
    for line in [
        "cosmon_adapter_uptime_seconds 5",
        "cosmon_adapter_build_info{version=\"0.2.1\",posture=\"prepared\"} 1",
        "cosmon_adapter_http_responses_total{class=\"2xx\"} 2",
        "cosmon_adapter_admission_rejects_total{reason=\"none\"} 0",
        "cosmon_adapter_rate_limit_capacity 30",
        "cosmon_adapter_backend_status{backend=\"a\\\"b\"} 2",
    ] {
        assert!(text.lines().any(|l| l == line), "{line} is missing in\n{text}");
    }
    let mut some = snapshot();
    some.rejects = vec![("expired", 4)];
    assert!(render_prometheus(&some).contains("cosmon_adapter_admission_rejects_total{reason=\"expired\"} 4\n"));
}

#[test]
fn diagnostics_sum_what_the_scrape_lists() {
    let d = diagnostics(&snapshot(), 4);
    assert_eq!(d.posture, "prepared");
    assert_eq!(d.issuer_count, 1);
    assert_eq!(d.total_keys, 3);
    assert_eq!(d.backend_count, 1);
    assert_eq!(d.rejects_total, 4);
    assert_eq!(d.http_responses.total(), 3);
}

// Quota and noyaux

#[test]
fn the_quota_shows_the_bounds_that_drains_run_under() {
    let identity = OidcIdentity {
        nucleon_id: "nuc".to_owned(),
        phase: "Biological".to_owned(),
        noyau: "tenant".to_owned(),
        oidc: OidcClaims {
            issuer: "https://idp".to_owned(),
            sub: "you".to_owned(),
            audience: "aud".to_owned(),
            sealed_at: String::new(),
        },
        scopes: None,
        drain_bounds: Some(DrainBoundsSpec { budget: Some(9), max_depth: None, max_molecules: None }),
    };
    let map = HabilitationMap::load(&vec![IdentityFile {
        name: "oidc-identity.toml".to_owned(),
        text: Some("x".to_owned()),
        parsed: Some(identity),
    }]);
    let here = token("https://idp", "you", "aud");
    let elsewhere = token("https://idp", "you", "another");
    assert_eq!(effective_bounds(&map, &here).budget, 9);
    assert_eq!(shown_bounds(&map, &here).budget, 9);
    assert_eq!(effective_bounds(&map, &elsewhere), DrainBounds::default());
    assert_eq!(format_reset_iso(0), "1970-01-01T00:00:00Z");
    assert_eq!(format_reset_iso(-1), "1969-12-31T23:59:59Z");
    assert_eq!(format_reset_iso(i64::MAX), "1970-01-01T00:00:00Z");
    assert_eq!(format_reset_iso(253_402_300_799_999), format_exp_iso8601(253_402_300_799));
    assert_eq!(format_reset_iso(1_700_000_000_500), "2023-11-14T22:13:20Z");
}

#[test]
fn a_caller_sees_its_own_noyaux() {
    let rows = list_noyaux(&one_binding(), "you", "/g").noyaux;
    assert_eq!(rows.len(), 1);
    assert_eq!(rows[0].id, "tenant-demo");
    assert_eq!(rows[0].binding_count, 1);
    assert_eq!(rows[0].galaxies_root, "/g/tenant-demo");
    assert!(list_noyaux(&one_binding(), "stranger", "/g").noyaux.is_empty());
}

// Templates and the surface

#[test]
fn the_base_url_follows_the_proxy() {
    assert_eq!(request_base_url(Some("h:1"), None), "http://h:1");
    assert_eq!(request_base_url(Some("h"), Some(" https , http")), "https://h");
    assert_eq!(request_base_url(None, Some(" ")), "http://localhost");
}

#[test]
fn templates_are_served_for_their_host() {
    assert_eq!(serve_dist_justfile("a __COSMON_HOST__ b", "http://h"), "a http://h b");
    let t = InstallTemplating {
        sub: "s".to_owned(),
        aud: String::new(),
        oidc_url: "__COSMON_HOST__/oidc".to_owned(),
        noyau: "it's".to_owned(),
    };
    let text = serve_install_sh("H=__COSMON_HOST__\n__COSMON_CONFIG_SET_BLOCK__", "http://h", &t);
    assert_eq!(
        text,
        "H=http://h\n\"$BIN_PATH\" --profile \"$PROFILE\" config set sub 's'\n\
         \"$BIN_PATH\" --profile \"$PROFILE\" config set oidc-url 'http://h/oidc'\n\
         # skipped noyau: value contains a single quote, set it manually\n"
    );
    assert_eq!(
        build_config_set_block("", "", "", ""),
        "# (no per-deployment fields configured server-side — set sub/aud/oidc-url/noyau manually)\n"
    );
}

#[test]
fn the_frozen_surface_stands_in_the_order_of_the_table() {
    let mut seen: Vec<&str> = Vec::new();
    for line in route_table() {
        if line.path.starts_with("/v1/") && !seen.contains(&line.path) {
            seen.push(line.path);
        }
    }
    assert_eq!(frozen_api_surface(), seen);
    assert_eq!(seen[..3], ["/v1/molecules", "/v1/molecules/{id}", "/v1/molecules/{id}/tags"]);
    let lines = vec![route_table()[2], route_table()[0], route_table()[1]];
    assert_eq!(versioned_paths(&lines), vec!["/v1/molecules", "/v1/molecules/{id}"]);
}

#[test]
fn every_line_is_served_under_the_names_of_the_deployment() {
    let path_of = |handler: Handler| {
        let line = route_table().into_iter().find(|r| r.handler == handler).unwrap();
        served_path(&line, "acme", "AGENT.md")
    };
    assert_eq!(path_of(Handler::LoginStart), "/v1/auth/acme/start");
    assert_eq!(path_of(Handler::LoginForget), "/v1/auth/acme/{session_id}");
    assert_eq!(path_of(Handler::DistDocument), "/dist/AGENT.md");
    assert_eq!(path_of(Handler::GetMolecule), "/v1/molecules/{id}");
}

#[test]
fn the_frozen_surface_is_the_versioned_part() {
    let paths = frozen_api_surface();
    assert!(paths.iter().all(|p| p.starts_with("/v1/")));
    let mut unique = paths.clone();
    unique.sort_unstable();
    unique.dedup();
    assert_eq!(unique.len(), paths.len());
    assert!(paths.contains(&"/v1/molecules/{id}/tackle"));
    assert!(!paths.contains(&"/healthz"));
    assert!(!paths.contains(&"/v1/molecules/{id}/done"));
    let health = healthz("0.2.1", paths.len());
    assert!(health.ok);
    assert_eq!(health.service, "cosmon-rpp-adapter");
    assert_eq!(health.api_surface_version, paths.len());
}

#[test]
fn a_path_has_one_handler_per_method() {
    let table = route_table();
    for (i, a) in table.iter().enumerate() {
        for b in &table[i + 1..] {
            assert!(a.method != b.method || a.path != b.path, "{} is mounted twice", a.path);
        }
    }
    assert!(table
        .iter()
        .any(|r| r.method == Method::Get && r.path == "/healthz" && r.handler == Handler::Healthz));
}

#[test]
fn a_tilde_stands_for_the_home() {
    assert_eq!(expand_tilde("~/x", Some("/home/a")), "/home/a/x");
    assert_eq!(expand_tilde("/x", Some("/home/a")), "/x");
    assert_eq!(expand_tilde("~/x", None), "~/x");
}
