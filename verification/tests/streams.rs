use cosmon_rpp_adapter::routes::events_stream::{
    concerns_subscriber, forward, is_fresh, parse_last_event_id, resume_floor, EventsQuery,
};
use cosmon_rpp_adapter::routes::logs_stream::{
    clamp_poll_ms, diff_new_lines_pure, lines, reject_unsafe_segment, tmux_session_for, NextLook, PanePoller,
    DEFAULT_POLL_MS,
};

fn owned(rows: &[&str]) -> Vec<String> {
    rows.iter().map(|s| (*s).to_owned()).collect()
}

#[test]
fn clamp_poll_ms_defaults_to_500() {
    assert_eq!(clamp_poll_ms(None), DEFAULT_POLL_MS);
    assert_eq!(DEFAULT_POLL_MS, 500);
}

#[test]
fn clamp_poll_ms_clamps_below_floor() {
    assert_eq!(clamp_poll_ms(Some(0)), 50);
    assert_eq!(clamp_poll_ms(Some(10)), 50);
}

#[test]
fn clamp_poll_ms_clamps_above_ceiling() {
    assert_eq!(clamp_poll_ms(Some(60_000)), 5000);
}

#[test]
fn clamp_poll_ms_passes_in_band() {
    assert_eq!(clamp_poll_ms(Some(250)), 250);
    assert_eq!(clamp_poll_ms(Some(1500)), 1500);
}

#[test]
fn tmux_session_for_matches_cs_tackle_convention() {
    assert_eq!(tmux_session_for("task-20260514-f02f"), "cosmon-task-20260514-f02f");
}

#[test]
fn logs_stream_last_event_id_parses_decimal() {
    assert_eq!(parse_last_event_id(Some("42")), Some(42));
}

#[test]
fn logs_stream_last_event_id_missing_yields_none() {
    assert_eq!(parse_last_event_id(None), None);
}

#[test]
fn logs_stream_last_event_id_malformed_yields_none() {
    assert_eq!(parse_last_event_id(Some("not-a-number")), None);
}

#[test]
fn events_stream_last_event_id_parses_decimal() {
    assert_eq!(parse_last_event_id(Some("42")), Some(42));
}

#[test]
fn events_stream_last_event_id_missing_yields_none() {
    assert_eq!(parse_last_event_id(None), None);
}

#[test]
fn events_stream_last_event_id_malformed_yields_none() {
    assert_eq!(parse_last_event_id(Some("not-a-number")), None);
}

#[test]
fn an_event_id_that_fits_no_counter_is_malformed() {
    assert_eq!(parse_last_event_id(Some("18446744073709551615")), Some(u64::MAX));
    assert_eq!(parse_last_event_id(Some("18446744073709551616")), None);
    assert_eq!(parse_last_event_id(Some("-1")), None);
    assert_eq!(parse_last_event_id(Some("")), None);
}

#[test]
fn a_resumed_stream_starts_behind_what_was_seen() {
    assert_eq!(resume_floor(Some("42")), 42);
    assert_eq!(resume_floor(None), 0);
    assert!(!is_fresh(42, 42));
    assert!(is_fresh(43, 42));
}

#[test]
fn events_stay_in_their_noyau() {
    let all = EventsQuery { molecule_id: None };
    let one = EventsQuery { molecule_id: Some("task-1".to_owned()) };
    assert!(concerns_subscriber("a", &all, "a", "task-2"));
    assert!(!concerns_subscriber("a", &all, "b", "task-2"));
    assert!(concerns_subscriber("a", &one, "a", "task-1"));
    assert!(!concerns_subscriber("a", &one, "a", "task-2"));
}

#[test]
fn only_forwarded_events_take_numbers() {
    let all = EventsQuery { molecule_id: None };
    let mut next = 1;
    assert_eq!(forward(&mut next, "a", &all, 0, "b", "m"), None);
    assert_eq!(next, 1);
    assert_eq!(forward(&mut next, "a", &all, 1, "a", "m"), None);
    assert_eq!(forward(&mut next, "a", &all, 1, "a", "m"), Some(2));
    assert_eq!(next, 3);
}

#[test]
fn diff_new_lines_strict_extension() {
    assert_eq!(diff_new_lines_pure(&owned(&["a", "b"]), &owned(&["a", "b", "c", "d"])), owned(&["c", "d"]));
}

#[test]
fn diff_new_lines_scrolled_pane() {
    assert_eq!(diff_new_lines_pure(&owned(&["a", "b"]), &owned(&["b", "c"])), owned(&["c"]));
}

#[test]
fn diff_new_lines_no_overlap_emits_full_buffer() {
    assert_eq!(diff_new_lines_pure(&owned(&["x"]), &owned(&["y", "z"])), owned(&["y", "z"]));
}

#[test]
fn diff_new_lines_empty_new_yields_nothing() {
    assert!(diff_new_lines_pure(&owned(&["a"]), &Vec::new()).is_empty());
}

#[test]
fn diff_new_lines_identical_yields_nothing() {
    assert!(diff_new_lines_pure(&owned(&["a", "b"]), &owned(&["a", "b"])).is_empty());
}

#[test]
fn lines_end_with_the_newline() {
    assert_eq!(lines("a\nb\n"), owned(&["a", "b"]));
    assert_eq!(lines("a\r\nb"), owned(&["a", "b"]));
    assert_eq!(lines("a\n\n"), owned(&["a", ""]));
    assert_eq!(lines(""), Vec::<String>::new());
}

#[test]
fn a_poller_shows_each_line_once() {
    let mut p = PanePoller::new(true);
    let (shown, next) = p.look(Some("a\nb\n"));
    assert_eq!(shown, owned(&["a", "b"]));
    assert_eq!(next, NextLook::Again);
    let (shown, _) = p.look(Some("a\nb\nc\n"));
    assert_eq!(shown, owned(&["c"]));
    let (shown, _) = p.look(Some("a\nb\nc\n"));
    assert!(shown.is_empty());
}

#[test]
fn a_poller_that_does_not_follow_looks_once() {
    let mut p = PanePoller::new(false);
    let (shown, next) = p.look(Some("a\n"));
    assert_eq!(shown, owned(&["a"]));
    assert_eq!(next, NextLook::Stop);
}

#[test]
fn reject_unsafe_segment_accepts_kebab_id() {
    assert!(reject_unsafe_segment("task-20260523-ad25", "req-test").is_ok());
}

#[test]
fn reject_unsafe_segment_rejects_slash() {
    assert!(reject_unsafe_segment("foo/bar", "req-test").is_err());
}

#[test]
fn reject_unsafe_segment_rejects_dotdot() {
    assert!(reject_unsafe_segment("..", "req-test").is_err());
    assert!(reject_unsafe_segment("a..b", "req-test").is_err());
}

#[test]
fn reject_unsafe_segment_rejects_shell_metachars() {
    for bad in ["$(whoami)", "a;b", "a&b", "a|b", "a`b`", "a b"] {
        assert!(reject_unsafe_segment(bad, "req-test").is_err(), "must reject {bad:?}");
    }
}

#[test]
fn reject_unsafe_segment_rejects_empty() {
    assert!(reject_unsafe_segment("", "req-test").is_err());
}

#[test]
fn reject_unsafe_segment_rejects_overlong() {
    let s = "a".repeat(129);
    assert!(reject_unsafe_segment(&s, "req-test").is_err());
    let s = "a".repeat(128);
    assert!(reject_unsafe_segment(&s, "req-test").is_ok());
}
