use cosmon_rpp_adapter::clock::{timestamp_text, within, Timestamp};
use cosmon_rpp_adapter::json::Json;
use cosmon_rpp_adapter::routes::artifacts::{
    artifact_dir_for, artifact_token, base32_encode, detect_content_type, digest_matches, find_by_token,
    if_match_allows, parse_digest_header, pushed_entry, reject_unsafe_segment, scan_artifact_dir, DirListing,
    ScannedFile,
};
use cosmon_rpp_adapter::routes::result::{
    derive_result_status, molecule_dir_for, resolve_canonical_result, result_body, result_reply, stall_timeout,
    Liveness, MoleculeData, MoleculeStatus, ResolvedResult, ResultProbe, ResultStatus, ResultSubject,
    DEFAULT_STALL_TIMEOUT_SECS,
};
use sha2::Digest;

// Artifacts

#[test]
fn artifact_token_is_stable_per_pair() {
    let a = artifact_token("task-1", "haiku.txt");
    let b = artifact_token("task-1", "haiku.txt");
    assert_eq!(a, b);
    assert!(a.starts_with("art_"));
    assert_eq!(a.len(), 28);
}

#[test]
fn artifact_token_differs_per_molecule() {
    let a = artifact_token("task-1", "haiku.txt");
    let b = artifact_token("task-2", "haiku.txt");
    assert_ne!(a, b);
}

#[test]
fn artifact_token_differs_per_name() {
    let a = artifact_token("task-1", "haiku.txt");
    let b = artifact_token("task-1", "report.md");
    assert_ne!(a, b);
}

#[test]
fn token_uses_only_url_safe_chars() {
    let t = artifact_token("task-1", "haiku.txt");
    assert!(t.chars().all(|c| c.is_ascii_alphanumeric() || c == '_'));
}

#[test]
fn detect_content_type_known_extensions() {
    assert_eq!(detect_content_type("haiku.txt"), "text/plain");
    assert_eq!(detect_content_type("REPORT.MD"), "text/plain");
    assert_eq!(detect_content_type("data.json"), "application/json");
    assert_eq!(detect_content_type("graph.png"), "image/png");
    assert_eq!(detect_content_type("no-ext"), "application/octet-stream");
}

#[test]
fn parse_digest_header_accepts_blake3_prefix() {
    assert_eq!(parse_digest_header("blake3=deadbeef").as_deref(), Some("deadbeef"));
    assert_eq!(parse_digest_header("blake3=\"deadbeef\"").as_deref(), Some("deadbeef"));
}

#[test]
fn parse_digest_header_rejects_other_algos() {
    assert!(parse_digest_header("sha256=deadbeef").is_none());
    assert!(parse_digest_header("no-equals").is_none());
    assert!(parse_digest_header("blake3=not-hex!").is_none());
}

#[test]
fn artifact_dir_compose() {
    let d = artifact_dir_for("/tmp/cosmon", "tenant-demo", "task-1");
    assert_eq!(d, "/tmp/cosmon/tenant-demo/task-1");
}

#[test]
fn scan_missing_dir_returns_empty() {
    let entries = scan_artifact_dir(&DirListing::Missing, "task-1").unwrap();
    assert!(entries.is_empty());
}

fn scanned(name: &str, bytes: &[u8]) -> ScannedFile {
    ScannedFile { name: name.to_owned(), bytes: bytes.to_vec(), modified: Timestamp { secs: 0, nanos: 0 } }
}

#[test]
fn scan_lists_regular_files_and_sorts() {
    let listing =
        DirListing::Files(vec![scanned("b.txt", b"two"), scanned("a.txt", b"one"), scanned(".hidden", b"skipped")]);
    let entries = scan_artifact_dir(&listing, "task-1").unwrap();
    assert_eq!(entries.len(), 2);
    assert_eq!(entries[0].name, "a.txt");
    assert_eq!(entries[1].name, "b.txt");
    assert_eq!(entries[0].size_bytes, 3);
    assert_eq!(entries[0].integrity.algo, "blake3");
    assert_eq!(entries[0].integrity.hex, blake3::hash(b"one").to_hex().to_string());
    assert_eq!(entries[0].created_at, "1970-01-01T00:00:00+00:00");
    assert_eq!(find_by_token(&entries, &artifact_token("task-1", "b.txt")), Some(1));
    assert_eq!(find_by_token(&entries, "art_none"), None);
}

#[test]
fn every_listed_file_is_found_by_its_token() {
    let names = ["z.log", "a.txt", "m.json", "b"];
    let listing = DirListing::Files(names.iter().map(|n| scanned(n, n.as_bytes())).collect());
    let entries = scan_artifact_dir(&listing, "task-1").unwrap();
    for name in names {
        let at = find_by_token(&entries, &artifact_token("task-1", name)).unwrap();
        assert_eq!(entries[at].name, name);
        assert_eq!(entries[at].integrity.hex, blake3::hash(name.as_bytes()).to_hex().to_string());
    }
}

#[test]
fn an_unreadable_directory_is_no_empty_one() {
    assert!(scan_artifact_dir(&DirListing::Unreadable, "task-1").is_err());
}

#[test]
fn base32_encode_is_lowercase_and_correct_length() {
    let out = base32_encode(&vec![0xff; 15]);
    assert_eq!(out.len(), 24);
    assert!(out.chars().all(|c| c.is_ascii_alphanumeric()));
    assert!(out.chars().all(|c| c.is_ascii_lowercase() || c.is_ascii_digit()));
}

/// Reads a base 32 text, with the bits that are left over.
fn base32_decode(text: &str) -> (Vec<u8>, u32) {
    let (mut out, mut held, mut bits) = (Vec::new(), 0u32, 0);
    for c in text.chars() {
        let v = "0123456789abcdefghjkmnpqrstvwxyz".find(c).unwrap() as u32;
        held = held << 5 | v;
        bits += 5;
        if bits >= 8 {
            bits -= 8;
            out.push((held >> bits) as u8);
            held &= (1 << bits) - 1;
        }
    }
    (out, held)
}

#[test]
fn base32_texts_are_read_back() {
    let all: Vec<u8> = (0..=255).collect();
    for len in [0, 1, 2, 3, 4, 5, 6, 15, 16, 100, 256] {
        let bytes = all[256 - len..].to_vec();
        let text = base32_encode(&bytes);
        assert_eq!(text.len(), (8 * len + 4) / 5);
        assert_eq!(base32_decode(&text), (bytes, 0));
    }
}

#[test]
fn base32_of_known_bytes() {
    assert_eq!(base32_encode(&b"foobar".to_vec()), "csqpyrk1e8");
    assert_eq!(base32_encode(&Vec::new()), "");
    assert_eq!(base32_encode(&vec![0]), "00");
}

#[test]
fn a_token_is_the_head_of_the_digest() {
    let digest = sha2::Sha256::digest(b"task-1/haiku.txt");
    let head = base32_encode(&digest[..15].to_vec());
    assert_eq!(artifact_token("task-1", "haiku.txt"), format!("art_{head}"));
}

#[test]
fn unsafe_artifact_segments_are_refused() {
    for bad in ["", "..", "a/b", "a\\b", "a..b"] {
        assert!(reject_unsafe_segment(bad, "req-1").is_err(), "{bad:?}");
    }
    assert!(reject_unsafe_segment("haiku.txt", "req-1").is_ok());
    let e = reject_unsafe_segment("a/b", "req-1").unwrap_err();
    assert_eq!(e.status, 400);
    assert_eq!(e.request_id.as_deref(), Some("req-1"));
}

#[test]
fn an_upload_must_match_the_digest_it_declares() {
    let body = b"haiku".to_vec();
    let hex = blake3::hash(b"haiku").to_hex().to_string();
    assert!(digest_matches(None, &body));
    assert!(digest_matches(Some(&format!("blake3={hex}")), &body));
    assert!(!digest_matches(Some(&format!("blake3={hex}")), &b"other".to_vec()));
}

#[test]
fn the_current_etag_allows_the_upload() {
    let existing = Some(b"old".to_vec());
    let hex = blake3::hash(b"old").to_hex().to_string();
    assert!(if_match_allows(None, &existing));
    assert!(if_match_allows(Some(&format!("\"{hex}\"")), &existing));
    assert!(!if_match_allows(Some("\"00\""), &existing));
    assert!(!if_match_allows(Some("\"00\""), &None));
}

#[test]
fn a_pushed_artifact_is_described_by_its_bytes() {
    let now = Timestamp { secs: 1_779_451_200, nanos: 0 };
    let e = pushed_entry("task-1", "data.json", None, &b"{}".to_vec(), now);
    assert_eq!(e.content_type, "application/json");
    assert_eq!(e.size_bytes, 2);
    assert_eq!(e.created_at, "2026-05-22T12:00:00+00:00");
    assert_eq!(e.token, artifact_token("task-1", "data.json"));
    let declared = pushed_entry("task-1", "data.json", Some("text/x"), &b"{}".to_vec(), now);
    assert_eq!(declared.content_type, "text/x");
}

#[test]
fn instants_compare_to_the_nanosecond() {
    let t = |secs: i64, nanos: u32| Timestamp { secs, nanos };
    assert!(within(t(0, 0), t(900, 0), 900));
    assert!(!within(t(0, 0), t(900, 1), 900));
    assert!(within(t(0, 5), t(900, 5), 900));
    assert_eq!(timestamp_text(t(0, 500_000_000)), "1970-01-01T00:00:00.500+00:00");
    assert_eq!(timestamp_text(t(0, 5_000)), "1970-01-01T00:00:00.000005+00:00");
    assert_eq!(timestamp_text(t(0, 1_500)), "1970-01-01T00:00:00.000001500+00:00");
    assert_eq!(timestamp_text(t(951_782_400, 0)), "2000-02-29T00:00:00+00:00");
    assert_eq!(timestamp_text(t(253_402_300_799, 0)), "9999-12-31T23:59:59+00:00");
    assert_eq!(timestamp_text(t(8_210_266_876_799, 0)), "+262142-12-31T23:59:59+00:00");
    assert_eq!(timestamp_text(t(-8_334_601_228_800, 0)), "-262143-01-01T00:00:00+00:00");
}

// Results

fn probe() -> ResultProbe {
    ResultProbe { molecule_result: false, molecule_synthesis: false, artifact_result: false, artifact_files: Vec::new() }
}

fn resolve(p: &ResultProbe) -> Option<ResolvedResult> {
    resolve_canonical_result("/mol", "/art", p)
}

#[test]
fn resolve_prefers_molecule_result_md() {
    let r = resolve(&ResultProbe { molecule_result: true, molecule_synthesis: true, ..probe() }).unwrap();
    assert_eq!(r.source, "result.md");
    assert_eq!(r.path, "/mol/result.md");
}

#[test]
fn resolve_falls_back_to_synthesis_md() {
    let r = resolve(&ResultProbe { molecule_synthesis: true, ..probe() }).unwrap();
    assert_eq!(r.source, "synthesis.md");
}

#[test]
fn resolve_reads_artifact_result_md_when_molecule_dir_bare() {
    let r = resolve(&ResultProbe {
        artifact_result: true,
        artifact_files: vec!["result.md".to_owned()],
        ..probe()
    })
    .unwrap();
    assert_eq!(r.source, "artifact:result.md");
}

#[test]
fn resolve_single_artifact_file_is_unambiguous() {
    let r = resolve(&ResultProbe {
        artifact_files: vec!["haiku.txt".to_owned(), ".hidden".to_owned()],
        ..probe()
    })
    .unwrap();
    assert_eq!(r.source, "artifact:haiku.txt");
}

#[test]
fn resolve_multiple_artifacts_disambiguate_to_result_prefix() {
    let r = resolve(&ResultProbe {
        artifact_files: vec!["notes.txt".to_owned(), "result.json".to_owned()],
        ..probe()
    })
    .unwrap();
    assert_eq!(r.source, "artifact:result.json");
    assert_eq!(r.path, "/art/result.json");
}

#[test]
fn a_name_that_begins_with_result_stands_out() {
    let of = |names: &[&str]| {
        let p = ResultProbe { artifact_files: names.iter().map(|n| (*n).to_owned()).collect(), ..probe() };
        resolve(&p).map(|r| r.source)
    };
    assert_eq!(of(&["notes.txt", "result.tar.gz"]), Some("artifact:result.tar.gz".to_owned()));
    assert_eq!(of(&["notes.txt", "RESULT.Json", "result.txt"]), Some("artifact:RESULT.Json".to_owned()));
    assert_eq!(of(&["notes.txt", "results.txt", "my.result.txt"]), None);
}

#[test]
fn resolve_multiple_ambiguous_artifacts_yields_none() {
    let p = ResultProbe { artifact_files: vec!["a.txt".to_owned(), "b.txt".to_owned()], ..probe() };
    assert!(resolve(&p).is_none());
}

#[test]
fn resolve_nothing_present_yields_none() {
    assert!(resolve(&probe()).is_none());
}

#[test]
fn resolve_tolerates_missing_dirs() {
    let r = resolve_canonical_result("/nonexistent/mol", "/nonexistent/art", &probe());
    assert!(r.is_none());
}

/// 2026-06-14T00:00:00Z.
const MIDNIGHT: i64 = 1_781_395_200;

fn at(minute: i64) -> Option<Timestamp> {
    Some(Timestamp { secs: MIDNIGHT + 60 * minute, nanos: 0 })
}

fn now() -> Timestamp {
    Timestamp { secs: MIDNIGHT + 3600, nanos: 0 }
}

fn timeout() -> i64 {
    DEFAULT_STALL_TIMEOUT_SECS
}

fn mol(status: MoleculeStatus, process_active: Option<bool>, tackled_at: Option<Timestamp>) -> MoleculeData {
    MoleculeData { status, process_active, tackled_at }
}

fn ready_marker() -> ResolvedResult {
    ResolvedResult { source: "result.md".to_owned(), path: "/seed/result.md".to_owned() }
}

#[test]
fn derive_pending_when_never_tackled() {
    assert_eq!(timestamp_text(now()), "2026-06-14T01:00:00+00:00");
    let m = mol(MoleculeStatus::Pending, None, None);
    assert_eq!(derive_result_status(&m, None, now(), timeout()), ResultStatus::Pending);
}

#[test]
fn derive_running_when_fresh_and_process_active() {
    let m = mol(MoleculeStatus::Running, Some(true), at(55));
    assert_eq!(derive_result_status(&m, None, now(), timeout()), ResultStatus::Running);
}

#[test]
fn derive_stalled_when_past_tackle_decree() {
    let m = mol(MoleculeStatus::Running, Some(true), at(0));
    assert_eq!(derive_result_status(&m, None, now(), timeout()), ResultStatus::Stalled);
}

#[test]
fn derive_stalled_when_process_dead_even_if_fresh() {
    let m = mol(MoleculeStatus::Running, Some(false), at(59));
    assert_eq!(derive_result_status(&m, None, now(), timeout()), ResultStatus::Stalled);
}

#[test]
fn derive_done_no_deliverable_when_completed_without_file() {
    let m = mol(MoleculeStatus::Completed, None, None);
    assert_eq!(derive_result_status(&m, None, now(), timeout()), ResultStatus::DoneNoDeliverable);
}

#[test]
fn derive_ready_only_with_disk_proof() {
    let m = mol(MoleculeStatus::Completed, None, None);
    assert_eq!(derive_result_status(&m, Some(&ready_marker()), now(), timeout()), ResultStatus::Ready);
}

#[test]
fn derive_ready_when_file_present_mid_run() {
    let m = mol(MoleculeStatus::Running, Some(true), at(59));
    assert_eq!(derive_result_status(&m, Some(&ready_marker()), now(), timeout()), ResultStatus::Ready);
}

#[test]
fn derive_failed_when_collapsed() {
    let m = mol(MoleculeStatus::Collapsed, None, None);
    assert_eq!(derive_result_status(&m, None, now(), timeout()), ResultStatus::Failed);
}

#[test]
fn derive_failed_beats_disk_for_collapsed() {
    let m = mol(MoleculeStatus::Collapsed, None, None);
    assert_eq!(derive_result_status(&m, Some(&ready_marker()), now(), timeout()), ResultStatus::Failed);
}

#[test]
fn derive_failed_when_frozen_or_starved() {
    for status in [MoleculeStatus::Frozen, MoleculeStatus::Starved] {
        let m = mol(status, None, None);
        assert_eq!(derive_result_status(&m, None, now(), timeout()), ResultStatus::Failed);
    }
}

#[test]
fn stall_timeout_default_is_fifteen_minutes() {
    assert_eq!(DEFAULT_STALL_TIMEOUT_SECS, 15 * 60);
}

#[test]
fn the_stall_window_is_never_empty() {
    assert_eq!(stall_timeout(None), 900);
    assert_eq!(stall_timeout(Some("60")), 60);
    assert_eq!(stall_timeout(Some("0")), 900);
    assert_eq!(stall_timeout(Some("-5")), 900);
    assert_eq!(stall_timeout(Some("soon")), 900);
}

/// A document as `serde_json` has it.
fn value(document: &Json) -> serde_json::Value {
    match document {
        Json::Null => serde_json::Value::Null,
        Json::Bool(b) => serde_json::Value::Bool(*b),
        Json::Number(text) => serde_json::from_str(text).unwrap(),
        Json::Text(text) => serde_json::Value::String(text.clone()),
        Json::Array(items) => serde_json::Value::Array(items.iter().map(value).collect()),
        Json::Object(fields) => {
            serde_json::Value::Object(fields.iter().map(|(k, v)| (k.clone(), value(v))).collect())
        }
    }
}

fn written(text: &str) -> serde_json::Value {
    serde_json::from_str(text).unwrap()
}

fn subject(status: MoleculeStatus, word: &str) -> ResultSubject {
    ResultSubject {
        molecule_id: "task-1".to_owned(),
        status_text: word.to_owned(),
        data: mol(status, None, None),
        liveness: Liveness {
            process: Json::Null,
            heartbeat_at: Json::Null,
            tackled_at: Json::text("2026-05-01T00:00:00Z"),
        },
    }
}

#[test]
fn a_result_is_ready_with_the_bytes_that_were_read() {
    let done = subject(MoleculeStatus::Completed, "completed");
    let said = result_reply("req-1", done, Some((ready_marker(), b"canonical".to_vec())), now(), 60);
    let hex = blake3::hash(b"canonical").to_hex().to_string();
    assert_eq!(
        value(&said),
        written(&format!(
            r#"{{"request_id":"req-1","molecule_id":"task-1","status":"completed","result_status":"ready",
                "liveness":{{"process":null,"heartbeat_at":null,"tackled_at":"2026-05-01T00:00:00Z","stale_after_s":60}},
                "result":{{"source":"result.md","content_type":"text/plain","encoding":"utf8","content":"canonical",
                    "size_bytes":9,"integrity":{{"algo":"blake3","hex":"{hex}"}}}}}}"#
        ))
    );
}

#[test]
fn a_result_that_could_not_be_read_is_not_ready() {
    let said = value(&result_reply("req-1", subject(MoleculeStatus::Completed, "completed"), None, now(), 900));
    assert_eq!(said["result_status"], "done-no-deliverable");
    assert!(said["result"].is_null());
    assert_eq!(said["liveness"]["stale_after_s"], 900);
    let failed = subject(MoleculeStatus::Collapsed, "collapsed");
    let said = value(&result_reply("req-1", failed, Some((ready_marker(), vec![0xff])), now(), 900));
    assert_eq!(said["result_status"], "failed");
    assert_eq!(said["result"]["encoding"], "base64");
    assert_eq!(said["result"]["content"], "/w==");
}

#[test]
fn a_deliverable_is_shown_as_text_or_base64() {
    let text = result_body(&ready_marker(), b"canonical".to_vec());
    assert_eq!(text.encoding, "utf8");
    assert_eq!(text.content, "canonical");
    assert_eq!(text.size_bytes, 9);
    assert_eq!(text.content_type, "text/plain");
    assert_eq!(text.integrity.hex, blake3::hash(b"canonical").to_hex().to_string());
    let raw = result_body(&ready_marker(), vec![0xff, 0xfe]);
    assert_eq!(raw.encoding, "base64");
    assert_eq!(raw.content, "//4=");
    assert_eq!(result_body(&ready_marker(), vec![0xff]).content, "/w==");
    assert_eq!(result_body(&ready_marker(), vec![0xff, 0x00, 0x10]).content, "/wAQ");
    assert_eq!(result_body(&ready_marker(), vec![0xfb, 0xef, 0xbe, 0x80]).content, "++++gA==");
}

#[test]
fn a_molecule_lives_under_its_fleet() {
    assert_eq!(molecule_dir_for("/s", "default", "task-1"), "/s/fleets/default/molecules/task-1");
    assert_eq!(ResultStatus::DoneNoDeliverable.as_str(), "done-no-deliverable");
}
