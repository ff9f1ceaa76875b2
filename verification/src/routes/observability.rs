//! The Prometheus text of `/metrics` and the figures of `/diagnostics`.

use vstd::prelude::*;
use crate::metrics::StatusClassCounts;
use crate::numbers;
use crate::numbers::push_decimal;
use crate::reload;
use crate::reload::total_keys;
use crate::text::chars_of;
use crate::Posture;

verus! {

pub const PROMETHEUS_CONTENT_TYPE: &'static str = "text/plain; version=0.0.4; charset=utf-8";

/// How a language-model backend has been doing.
#[derive(Clone, Copy, Debug, PartialEq, Eq, Structural)]
pub enum BackendStatus {
    Healthy,
    Degraded,
    Down,
    ConfiguredButUnused,
}

/// One backend, with its 95th-percentile latency where enough calls are known.
#[derive(Clone, Debug)]
pub struct BackendHealth {
    pub name: String,
    pub status: BackendStatus,
    pub latency_p95_ms: Option<u64>,
}

/// Everything a scrape shows. The two rate-limit figures are texts because they
/// are fractional.
pub struct MetricsSnapshot {
    pub uptime_seconds: u64,
    pub version: String,
    pub posture: Posture,
    pub statuses: StatusClassCounts,
    pub rejects: Vec<(&'static str, u64)>,
    pub rate_limit_capacity: String,
    pub rate_limit_leak_per_minute: String,
    pub backends: Vec<BackendHealth>,
    pub jwks_keys_by_issuer: Vec<(String, usize)>,
    pub bindings: usize,
    pub noyaux: usize,
    pub subscribers: usize,
}

// ---------------------------------------------------------------------------
// Label values
// ---------------------------------------------------------------------------

/// A character as it stands inside a label value.
pub open spec fn escaped_char(c: char) -> Seq<char> {
    if c == '\\' {
        seq!['\\', '\\']
    } else if c == '"' {
        seq!['\\', '"']
    } else if c == '\n' {
        seq!['\\', 'n']
    } else {
        seq![c]
    }
}

/// A label value with backslashes, quotes and newlines escaped.
pub open spec fn escaped(s: Seq<char>) -> Seq<char>
    decreases s.len(),
{
    if s.len() == 0 {
        Seq::empty()
    } else {
        escaped(s.drop_last()) + escaped_char(s.last())
    }
}

fn push_escaped(out: &mut String, s: &str)
    ensures
        final(out)@ == old(out)@ + escaped(s@),
{
    let cs = chars_of(s);
    let ghost start = out@;
    let mut i: usize = 0;
    assert(cs@.take(0) =~= Seq::<char>::empty());
    assert(out@ =~= start + escaped(cs@.take(0)));
    while i < cs.len()
        invariant
            i <= cs@.len(),
            out@ == start + escaped(cs@.take(i as int)),
        decreases cs@.len() - i,
    {
        let c = cs[i];
        let ghost before = out@;
        assert(cs@.take(i + 1).drop_last() =~= cs@.take(i as int));
        if c == '\\' {
            out.push('\\');
            out.push('\\');
        } else if c == '"' {
            out.push('\\');
            out.push('"');
        } else if c == '\n' {
            out.push('\\');
            out.push('n');
        } else {
            out.push(c);
        }
        assert(out@ =~= before + escaped_char(c));
        assert(out@ =~= start + escaped(cs@.take(i + 1)));
        i += 1;
    }
    assert(cs@.take(i as int) =~= s@);
}

/// A label value with backslashes, quotes and newlines escaped.
pub fn escape_label(s: &str) -> (r: String)
    ensures
        r@ == escaped(s@),
{
    let mut out: String = String::new();
    push_escaped(&mut out, s);
    assert(out@ =~= escaped(s@));
    out
}

// ---------------------------------------------------------------------------
// Lines
// ---------------------------------------------------------------------------

/// The two comment lines that head a metric family.
pub open spec fn family(name: Seq<char>, help: Seq<char>, kind: Seq<char>) -> Seq<char> {
    "# HELP "@ + name + " "@ + help + "\n# TYPE "@ + name + " "@ + kind + "\n"@
}

/// A sample without labels.
pub open spec fn sample(name: Seq<char>, value: Seq<char>) -> Seq<char> {
    name + " "@ + value + "\n"@
}

/// A sample with one label.
pub open spec fn labelled(name: Seq<char>, label: Seq<char>, label_value: Seq<char>, value: Seq<char>) -> Seq<char> {
    name + "{"@ + label + "=\""@ + escaped(label_value) + "\"} "@ + value + "\n"@
}

fn push_family(out: &mut String, name: &str, help: &str, kind: &str)
    ensures
        final(out)@ == old(out)@ + family(name@, help@, kind@),
{
    let ghost start = out@;
    out.push_str("# HELP ");
    out.push_str(name);
    out.push_str(" ");
    out.push_str(help);
    out.push_str("\n# TYPE ");
    out.push_str(name);
    out.push_str(" ");
    out.push_str(kind);
    out.push_str("\n");
    assert(out@ =~= start + family(name@, help@, kind@));
}

fn push_sample_text(out: &mut String, name: &str, value: &str)
    ensures
        final(out)@ == old(out)@ + sample(name@, value@),
{
    let ghost start = out@;
    out.push_str(name);
    out.push_str(" ");
    out.push_str(value);
    out.push_str("\n");
    assert(out@ =~= start + sample(name@, value@));
}

fn push_sample(out: &mut String, name: &str, value: u64)
    ensures
        final(out)@ == old(out)@ + sample(name@, numbers::decimal(value as nat)),
{
    let ghost start = out@;
    out.push_str(name);
    out.push_str(" ");
    push_decimal(out, value);
    out.push_str("\n");
    assert(out@ =~= start + sample(name@, numbers::decimal(value as nat)));
}

fn push_labelled(out: &mut String, name: &str, label: &str, label_value: &str, value: u64)
    ensures
        final(out)@ == old(out)@ + labelled(name@, label@, label_value@, numbers::decimal(value as nat)),
{
    let ghost start = out@;
    out.push_str(name);
    out.push_str("{");
    out.push_str(label);
    out.push_str("=\"");
    push_escaped(out, label_value);
    out.push_str("\"} ");
    push_decimal(out, value);
    out.push_str("\n");
    assert(out@ =~= start + labelled(name@, label@, label_value@, numbers::decimal(value as nat)));
}

// ---------------------------------------------------------------------------
// Families
// ---------------------------------------------------------------------------

pub open spec fn uptime_family(s: MetricsSnapshot) -> Seq<char> {
    family(
        "cosmon_adapter_uptime_seconds"@,
        "Adapter uptime in seconds since process boot."@,
        "gauge"@,
    ) + sample("cosmon_adapter_uptime_seconds"@, numbers::decimal(s.uptime_seconds as nat))
}

pub open spec fn build_family(s: MetricsSnapshot) -> Seq<char> {
    family("cosmon_adapter_build_info"@, "Static build metadata (version, posture)."@, "gauge"@)
        + "cosmon_adapter_build_info{version=\""@ + s.version@ + "\",posture=\""@ + crate::posture_name(s.posture)
        + "\"} 1\n"@
}

pub open spec fn class_sample(class: Seq<char>, count: u64) -> Seq<char> {
    labelled("cosmon_adapter_http_responses_total"@, "class"@, class, numbers::decimal(count as nat))
}

pub open spec fn responses_family(s: MetricsSnapshot) -> Seq<char> {
    family("cosmon_adapter_http_responses_total"@, "HTTP response count by status class."@, "counter"@)
        + class_sample("1xx"@, s.statuses.responses_1xx) + class_sample("2xx"@, s.statuses.responses_2xx)
        + class_sample("3xx"@, s.statuses.responses_3xx) + class_sample("4xx"@, s.statuses.responses_4xx)
        + class_sample("5xx"@, s.statuses.responses_5xx)
}

pub open spec fn reject_sample(reason: Seq<char>, count: u64) -> Seq<char> {
    labelled("cosmon_adapter_admission_rejects_total"@, "reason"@, reason, numbers::decimal(count as nat))
}

pub open spec fn reject_samples(rows: Seq<(&'static str, u64)>) -> Seq<char>
    decreases rows.len(),
{
    if rows.len() == 0 {
        Seq::empty()
    } else {
        reject_samples(rows.drop_last()) + reject_sample(rows.last().0@, rows.last().1)
    }
}

/// A registry without rejects still shows one sample.
pub open spec fn rejects_family(s: MetricsSnapshot) -> Seq<char> {
    family("cosmon_adapter_admission_rejects_total"@, "Admission-stage rejects by reason."@, "counter"@) + (
    if s.rejects@.len() == 0 {
        reject_sample("none"@, 0)
    } else {
        reject_samples(s.rejects@)
    })
}

pub open spec fn rate_limit_families(s: MetricsSnapshot) -> Seq<char> {
    family(
        "cosmon_adapter_rate_limit_capacity"@,
        "Per-sub leaky-bucket burst capacity (tokens)."@,
        "gauge"@,
    ) + sample("cosmon_adapter_rate_limit_capacity"@, s.rate_limit_capacity@) + family(
        "cosmon_adapter_rate_limit_leak_per_minute"@,
        "Per-sub leaky-bucket drain rate (tokens/min)."@,
        "gauge"@,
    ) + sample("cosmon_adapter_rate_limit_leak_per_minute"@, s.rate_limit_leak_per_minute@)
}

/// The number a status is shown as.
pub open spec fn status_level(s: BackendStatus) -> u64 {
    match s {
        BackendStatus::Healthy => 3,
        BackendStatus::Degraded => 2,
        BackendStatus::Down => 1,
        BackendStatus::ConfiguredButUnused => 0,
    }
}

pub open spec fn status_sample(name: Seq<char>, level: u64) -> Seq<char> {
    labelled("cosmon_adapter_backend_status"@, "backend"@, name, numbers::decimal(level as nat))
}

pub open spec fn status_samples(backends: Seq<BackendHealth>) -> Seq<char>
    decreases backends.len(),
{
    if backends.len() == 0 {
        Seq::empty()
    } else {
        status_samples(backends.drop_last()) + status_sample(
            backends.last().name@,
            status_level(backends.last().status),
        )
    }
}

pub open spec fn latency_samples(backends: Seq<BackendHealth>) -> Seq<char>
    decreases backends.len(),
{
    if backends.len() == 0 {
        Seq::empty()
    } else {
        let head = latency_samples(backends.drop_last());
        match backends.last().latency_p95_ms {
            Some(p95) => head + labelled(
                "cosmon_adapter_backend_latency_p95_ms"@,
                "backend"@,
                backends.last().name@,
                numbers::decimal(p95 as nat),
            ),
            None => head,
        }
    }
}

pub open spec fn backend_families(s: MetricsSnapshot) -> Seq<char> {
    family(
        "cosmon_adapter_backend_status"@,
        "LLM backend rolling status (3=ok, 2=degraded, 1=down, 0=configured-but-unused)."@,
        "gauge"@,
    ) + (if s.backends@.len() == 0 {
        status_sample("none"@, 0)
    } else {
        status_samples(s.backends@)
    }) + family(
        "cosmon_adapter_backend_latency_p95_ms"@,
        "95th-percentile call latency over the recent window."@,
        "gauge"@,
    ) + latency_samples(s.backends@)
}

pub open spec fn jwks_sample(issuer: Seq<char>, keys: usize) -> Seq<char> {
    labelled("cosmon_adapter_jwks_keys_loaded"@, "issuer"@, issuer, numbers::decimal(keys as nat))
}

pub open spec fn jwks_samples(rows: Seq<(String, usize)>) -> Seq<char>
    decreases rows.len(),
{
    if rows.len() == 0 {
        Seq::empty()
    } else {
        jwks_samples(rows.drop_last()) + jwks_sample(rows.last().0@, rows.last().1)
    }
}

pub open spec fn jwks_family(s: MetricsSnapshot) -> Seq<char> {
    family("cosmon_adapter_jwks_keys_loaded"@, "JWKS keys loaded per pinned issuer."@, "gauge"@) + (
    if s.jwks_keys_by_issuer@.len() == 0 {
        jwks_sample("none"@, 0)
    } else {
        jwks_samples(s.jwks_keys_by_issuer@)
    })
}

pub open spec fn map_families(s: MetricsSnapshot) -> Seq<char> {
    family(
        "cosmon_adapter_nucleon_bindings"@,
        "Active `(iss, sub)` bindings in the sealed nucleon map."@,
        "gauge"@,
    ) + sample("cosmon_adapter_nucleon_bindings"@, numbers::decimal(s.bindings as nat)) + family(
        "cosmon_adapter_nucleon_noyaux"@,
        "Distinct noyaux covered by the nucleon map."@,
        "gauge"@,
    ) + sample("cosmon_adapter_nucleon_noyaux"@, numbers::decimal(s.noyaux as nat))
}

pub open spec fn events_family(s: MetricsSnapshot) -> Seq<char> {
    family("cosmon_adapter_events_subscribers"@, "Current subscribers to the SSE event bus."@, "gauge"@) + sample(
        "cosmon_adapter_events_subscribers"@,
        numbers::decimal(s.subscribers as nat),
    )
}

/// The whole exposition, family by family.
pub open spec fn exposition(s: MetricsSnapshot) -> Seq<char> {
    uptime_family(s) + build_family(s) + responses_family(s) + rejects_family(s) + rate_limit_families(s)
        + backend_families(s) + jwks_family(s) + map_families(s) + events_family(s)
}

fn push_uptime(out: &mut String, s: &MetricsSnapshot)
    ensures
        final(out)@ == old(out)@ + uptime_family(*s),
{
    let ghost start = out@;
    push_family(
        out,
        "cosmon_adapter_uptime_seconds",
        "Adapter uptime in seconds since process boot.",
        "gauge",
    );
    push_sample(out, "cosmon_adapter_uptime_seconds", s.uptime_seconds);
    assert(out@ =~= start + uptime_family(*s));
}

fn push_build(out: &mut String, s: &MetricsSnapshot)
    ensures
        final(out)@ == old(out)@ + build_family(*s),
{
    let ghost start = out@;
    push_family(out, "cosmon_adapter_build_info", "Static build metadata (version, posture).", "gauge");
    out.push_str("cosmon_adapter_build_info{version=\"");
    out.push_str(s.version.as_str());
    out.push_str("\",posture=\"");
    out.push_str(s.posture.as_str());
    out.push_str("\"} 1\n");
    assert(out@ =~= start + build_family(*s));
}

fn push_responses(out: &mut String, s: &MetricsSnapshot)
    ensures
        final(out)@ == old(out)@ + responses_family(*s),
{
    let ghost start = out@;
    let name = "cosmon_adapter_http_responses_total";
    push_family(out, name, "HTTP response count by status class.", "counter");
    push_labelled(out, name, "class", "1xx", s.statuses.responses_1xx);
    push_labelled(out, name, "class", "2xx", s.statuses.responses_2xx);
    push_labelled(out, name, "class", "3xx", s.statuses.responses_3xx);
    push_labelled(out, name, "class", "4xx", s.statuses.responses_4xx);
    push_labelled(out, name, "class", "5xx", s.statuses.responses_5xx);
    assert(out@ =~= start + responses_family(*s));
}

fn push_rejects(out: &mut String, s: &MetricsSnapshot)
    ensures
        final(out)@ == old(out)@ + rejects_family(*s),
{
    let ghost start = out@;
    let name = "cosmon_adapter_admission_rejects_total";
    push_family(out, name, "Admission-stage rejects by reason.", "counter");
    let ghost headed = out@;
    if s.rejects.len() == 0 {
        push_labelled(out, name, "reason", "none", 0);
        assert(out@ =~= start + rejects_family(*s));
        return;
    }
    let mut i: usize = 0;
    assert(s.rejects@.take(0) =~= Seq::<(&'static str, u64)>::empty());
    assert(out@ =~= headed + reject_samples(s.rejects@.take(0)));
    while i < s.rejects.len()
        invariant
            i <= s.rejects@.len(),
            name@ == "cosmon_adapter_admission_rejects_total"@,
            out@ == headed + reject_samples(s.rejects@.take(i as int)),
        decreases s.rejects@.len() - i,
    {
        let (reason, count) = s.rejects[i];
        assert(s.rejects@.take(i + 1).drop_last() =~= s.rejects@.take(i as int));
        push_labelled(out, name, "reason", reason, count);
        assert(out@ =~= headed + reject_samples(s.rejects@.take(i + 1)));
        i += 1;
    }
    assert(s.rejects@.take(i as int) =~= s.rejects@);
    assert(out@ =~= start + rejects_family(*s));
}

fn push_rate_limit(out: &mut String, s: &MetricsSnapshot)
    ensures
        final(out)@ == old(out)@ + rate_limit_families(*s),
{
    let ghost start = out@;
    push_family(
        out,
        "cosmon_adapter_rate_limit_capacity",
        "Per-sub leaky-bucket burst capacity (tokens).",
        "gauge",
    );
    push_sample_text(out, "cosmon_adapter_rate_limit_capacity", s.rate_limit_capacity.as_str());
    push_family(
        out,
        "cosmon_adapter_rate_limit_leak_per_minute",
        "Per-sub leaky-bucket drain rate (tokens/min).",
        "gauge",
    );
    push_sample_text(out, "cosmon_adapter_rate_limit_leak_per_minute", s.rate_limit_leak_per_minute.as_str());
    assert(out@ =~= start + rate_limit_families(*s));
}

fn level_of(s: BackendStatus) -> (r: u64)
    ensures
        r == status_level(s),
{
    match s {
        BackendStatus::Healthy => 3,
        BackendStatus::Degraded => 2,
        BackendStatus::Down => 1,
        BackendStatus::ConfiguredButUnused => 0,
    }
}

fn push_status_samples(out: &mut String, backends: &Vec<BackendHealth>)
    ensures
        final(out)@ == old(out)@ + (if backends@.len() == 0 {
            status_sample("none"@, 0)
        } else {
            status_samples(backends@)
        }),
{
    let ghost start = out@;
    let name = "cosmon_adapter_backend_status";
    if backends.len() == 0 {
        push_labelled(out, name, "backend", "none", 0);
        return;
    }
    let mut i: usize = 0;
    assert(backends@.take(0) =~= Seq::<BackendHealth>::empty());
    assert(out@ =~= start + status_samples(backends@.take(0)));
    while i < backends.len()
        invariant
            i <= backends@.len(),
            name@ == "cosmon_adapter_backend_status"@,
            out@ == start + status_samples(backends@.take(i as int)),
        decreases backends@.len() - i,
    {
        let b = &backends[i];
        assert(backends@.take(i + 1).drop_last() =~= backends@.take(i as int));
        push_labelled(out, name, "backend", b.name.as_str(), level_of(b.status));
        assert(out@ =~= start + status_samples(backends@.take(i + 1)));
        i += 1;
    }
    assert(backends@.take(i as int) =~= backends@);
}

fn push_latency_samples(out: &mut String, backends: &Vec<BackendHealth>)
    ensures
        final(out)@ == old(out)@ + latency_samples(backends@),
{
    let ghost start = out@;
    let mut i: usize = 0;
    assert(backends@.take(0) =~= Seq::<BackendHealth>::empty());
    assert(out@ =~= start + latency_samples(backends@.take(0)));
    while i < backends.len()
        invariant
            i <= backends@.len(),
            out@ == start + latency_samples(backends@.take(i as int)),
        decreases backends@.len() - i,
    {
        let b = &backends[i];
        assert(backends@.take(i + 1).drop_last() =~= backends@.take(i as int));
        if let Some(p95) = b.latency_p95_ms {
            push_labelled(out, "cosmon_adapter_backend_latency_p95_ms", "backend", b.name.as_str(), p95);
        }
        assert(out@ =~= start + latency_samples(backends@.take(i + 1)));
        i += 1;
    }
    assert(backends@.take(i as int) =~= backends@);
}

fn push_backends(out: &mut String, s: &MetricsSnapshot)
    ensures
        final(out)@ == old(out)@ + backend_families(*s),
{
    let ghost start = out@;
    push_family(
        out,
        "cosmon_adapter_backend_status",
        "LLM backend rolling status (3=ok, 2=degraded, 1=down, 0=configured-but-unused).",
        "gauge",
    );
    push_status_samples(out, &s.backends);
    push_family(
        out,
        "cosmon_adapter_backend_latency_p95_ms",
        "95th-percentile call latency over the recent window.",
        "gauge",
    );
    push_latency_samples(out, &s.backends);
    assert(out@ =~= start + backend_families(*s));
}

fn push_jwks(out: &mut String, s: &MetricsSnapshot)
    ensures
        final(out)@ == old(out)@ + jwks_family(*s),
{
    let ghost start = out@;
    let name = "cosmon_adapter_jwks_keys_loaded";
    push_family(out, name, "JWKS keys loaded per pinned issuer.", "gauge");
    let ghost headed = out@;
    let rows = &s.jwks_keys_by_issuer;
    if rows.len() == 0 {
        push_labelled(out, name, "issuer", "none", 0);
        assert(out@ =~= start + jwks_family(*s));
        return;
    }
    let mut i: usize = 0;
    assert(rows@.take(0) =~= Seq::<(String, usize)>::empty());
    assert(out@ =~= headed + jwks_samples(rows@.take(0)));
    while i < rows.len()
        invariant
            i <= rows@.len(),
            name@ == "cosmon_adapter_jwks_keys_loaded"@,
            out@ == headed + jwks_samples(rows@.take(i as int)),
        decreases rows@.len() - i,
    {
        assert(rows@.take(i + 1).drop_last() =~= rows@.take(i as int));
        push_labelled(out, name, "issuer", rows[i].0.as_str(), rows[i].1 as u64);
        assert(out@ =~= headed + jwks_samples(rows@.take(i + 1)));
        i += 1;
    }
    assert(rows@.take(i as int) =~= rows@);
    assert(out@ =~= start + jwks_family(*s));
}

fn push_map(out: &mut String, s: &MetricsSnapshot)
    ensures
        final(out)@ == old(out)@ + map_families(*s),
{
    let ghost start = out@;
    push_family(
        out,
        "cosmon_adapter_nucleon_bindings",
        "Active `(iss, sub)` bindings in the sealed nucleon map.",
        "gauge",
    );
    push_sample(out, "cosmon_adapter_nucleon_bindings", s.bindings as u64);
    push_family(
        out,
        "cosmon_adapter_nucleon_noyaux",
        "Distinct noyaux covered by the nucleon map.",
        "gauge",
    );
    push_sample(out, "cosmon_adapter_nucleon_noyaux", s.noyaux as u64);
    assert(out@ =~= start + map_families(*s));
}

fn push_events(out: &mut String, s: &MetricsSnapshot)
    ensures
        final(out)@ == old(out)@ + events_family(*s),
{
    let ghost start = out@;
    push_family(out, "cosmon_adapter_events_subscribers", "Current subscribers to the SSE event bus.", "gauge");
    push_sample(out, "cosmon_adapter_events_subscribers", s.subscribers as u64);
    assert(out@ =~= start + events_family(*s));
}

/// The Prometheus text of a snapshot.
pub fn render_prometheus(s: &MetricsSnapshot) -> (r: String)
    ensures
        r@ == exposition(*s),
{
    let mut out: String = String::new();
    push_uptime(&mut out, s);
    push_build(&mut out, s);
    push_responses(&mut out, s);
    push_rejects(&mut out, s);
    push_rate_limit(&mut out, s);
    push_backends(&mut out, s);
    push_jwks(&mut out, s);
    push_map(&mut out, s);
    push_events(&mut out, s);
    assert(out@ =~= exposition(*s));
    out
}

// ---------------------------------------------------------------------------
// Diagnostics
// ---------------------------------------------------------------------------

/// The figures of `/diagnostics` that are counted rather than measured.
#[derive(Debug)]
pub struct Diagnostics {
    pub posture: &'static str,
    pub uptime_seconds: u64,
    pub bindings: usize,
    pub noyaux: usize,
    pub issuer_count: usize,
    pub total_keys: usize,
    pub backend_count: usize,
    pub subscribers: usize,
    pub rejects_total: u64,
    pub http_responses: StatusClassCounts,
}

/// The figures of a snapshot, with the total of its rejects.
pub fn diagnostics(s: &MetricsSnapshot, rejects_total: u64) -> (r: Diagnostics)
    requires
        reload::key_sum(s.jwks_keys_by_issuer@) <= usize::MAX,
    ensures
        r.posture@ == crate::posture_name(s.posture),
        r.uptime_seconds == s.uptime_seconds,
        r.bindings == s.bindings,
        r.noyaux == s.noyaux,
        r.issuer_count == s.jwks_keys_by_issuer@.len(),
        r.total_keys == reload::key_sum(s.jwks_keys_by_issuer@),
        r.backend_count == s.backends@.len(),
        r.subscribers == s.subscribers,
        r.rejects_total == rejects_total,
        r.http_responses == s.statuses,
{
    Diagnostics {
        posture: s.posture.as_str(),
        uptime_seconds: s.uptime_seconds,
        bindings: s.bindings,
        noyaux: s.noyaux,
        issuer_count: s.jwks_keys_by_issuer.len(),
        total_keys: total_keys(&s.jwks_keys_by_issuer),
        backend_count: s.backends.len(),
        subscribers: s.subscribers,
        rejects_total,
        http_responses: s.statuses,
    }
}

// ---------------------------------------------------------------------------
// Laws
// ---------------------------------------------------------------------------

/// An escaped label value holds no newline: a sample always stays on one line.
pub proof fn law_escaped_labels_stay_on_one_line(s: Seq<char>)
    ensures
        !escaped(s).contains('\n'),
    decreases s.len(),
{
    if s.len() > 0 {
        law_escaped_labels_stay_on_one_line(s.drop_last());
        let head = escaped(s.drop_last());
        let tail = escaped_char(s.last());
        if escaped(s).contains('\n') {
            let i = choose|i: int| 0 <= i < escaped(s).len() && escaped(s)[i] == '\n';
            if i < head.len() {
                assert(head[i] == '\n');
            } else {
                assert(tail[i - head.len()] == '\n');
            }
        }
    }
}

/// Inside an escaped label value every quote follows a backslash, so that no
/// value can end its label.
pub proof fn law_escaped_quotes_are_guarded(s: Seq<char>, i: int)
    requires
        0 <= i < escaped(s).len(),
        escaped(s)[i] == '"',
    ensures
        i > 0 && escaped(s)[i - 1] == '\\',
    decreases s.len(),
{
    if s.len() > 0 {
        let head = escaped(s.drop_last());
        let tail = escaped_char(s.last());
        if i < head.len() {
            assert(head[i] == '"');
            law_escaped_quotes_are_guarded(s.drop_last(), i);
        } else {
            assert(tail[i - head.len()] == '"');
        }
    }
}

/// A value without backslashes, quotes and newlines is shown as it is.
pub proof fn law_plain_labels_are_untouched(s: Seq<char>)
    requires
        forall|i: int| 0 <= i < s.len() ==> #[trigger] s[i] != '\\' && s[i] != '"' && s[i] != '\n',
    ensures
        escaped(s) == s,
    decreases s.len(),
{
    if s.len() > 0 {
        assert forall|i: int| 0 <= i < s.drop_last().len() implies #[trigger] s.drop_last()[i] != '\\'
            && s.drop_last()[i] != '"' && s.drop_last()[i] != '\n' by {
            assert(s[i] != '\\');
        }
        law_plain_labels_are_untouched(s.drop_last());
        assert(s[s.len() - 1] != '\\');
        assert(escaped(s) =~= s);
    }
}

/// A label value is escaped character by character: backslash, quote and newline get a
/// backslash before them, and nothing else does.
pub proof fn law_escaping(s: Seq<char>, c: char)
    ensures
        escaped(Seq::empty()).len() == 0,
        escaped(s.push('\\')) == escaped(s) + seq!['\\', '\\'],
        escaped(s.push('"')) == escaped(s) + seq!['\\', '"'],
        escaped(s.push('\n')) == escaped(s) + seq!['\\', 'n'],
        c != '\\' && c != '"' && c != '\n' ==> escaped(s.push(c)) == escaped(s) + seq![c],
{
    assert(s.push('\\').drop_last() =~= s);
    assert(s.push('"').drop_last() =~= s);
    assert(s.push('\n').drop_last() =~= s);
    assert(s.push(c).drop_last() =~= s);
}

/// A family is headed by what it is and of which kind; a sample is a name, a label
/// where it has one, and a value, on one line.
pub proof fn law_lines_of_the_exposition(name: Seq<char>, help: Seq<char>, kind: Seq<char>, label: Seq<char>, value: Seq<char>)
    ensures
        family(name, help, kind) == "# HELP "@ + name + " "@ + help + "\n# TYPE "@ + name + " "@ + kind + "\n"@,
        sample(name, value) == name + " "@ + value + "\n"@,
        labelled(name, label, help, value) == name + "{"@ + label + "=\""@ + escaped(help) + "\"} "@ + value + "\n"@,
{
}

/// The state of a backend is shown as a number, the better the higher.
pub proof fn law_levels()
    ensures
        status_level(BackendStatus::Healthy) == 3,
        status_level(BackendStatus::Degraded) == 2,
        status_level(BackendStatus::Down) == 1,
        status_level(BackendStatus::ConfiguredButUnused) == 0,
{
}

/// Each row is shown by a sample of its own, in order; of latencies, those that were
/// measured.
pub proof fn law_rows_are_shown(
    rows: Seq<(&'static str, u64)>,
    reason: &'static str,
    n: u64,
    keys: Seq<(String, usize)>,
    issuer: String,
    count: usize,
    backends: Seq<BackendHealth>,
    b: BackendHealth,
)
    ensures
        reject_samples(Seq::empty()).len() == 0,
        reject_samples(rows.push((reason, n))) == reject_samples(rows) + labelled(
            "cosmon_adapter_admission_rejects_total"@,
            "reason"@,
            reason@,
            numbers::decimal(n as nat),
        ),
        jwks_samples(Seq::empty()).len() == 0,
        jwks_samples(keys.push((issuer, count))) == jwks_samples(keys) + labelled(
            "cosmon_adapter_jwks_keys_loaded"@,
            "issuer"@,
            issuer@,
            numbers::decimal(count as nat),
        ),
        status_samples(Seq::empty()).len() == 0,
        status_samples(backends.push(b)) == status_samples(backends) + labelled(
            "cosmon_adapter_backend_status"@,
            "backend"@,
            b.name@,
            numbers::decimal(status_level(b.status) as nat),
        ),
        latency_samples(Seq::empty()).len() == 0,
        b.latency_p95_ms matches Some(p95) ==> latency_samples(backends.push(b)) == latency_samples(backends) + labelled(
            "cosmon_adapter_backend_latency_p95_ms"@,
            "backend"@,
            b.name@,
            numbers::decimal(p95 as nat),
        ),
        b.latency_p95_ms is None ==> latency_samples(backends.push(b)) == latency_samples(backends),
{
    assert(rows.push((reason, n)).drop_last() =~= rows);
    assert(keys.push((issuer, count)).drop_last() =~= keys);
    assert(backends.push(b).drop_last() =~= backends);
}

/// Which numbers the exposition shows, under which names.
pub proof fn law_families_show_their_numbers(s: MetricsSnapshot)
    ensures
        uptime_family(s) == family(
            "cosmon_adapter_uptime_seconds"@,
            "Adapter uptime in seconds since process boot."@,
            "gauge"@,
        ) + sample("cosmon_adapter_uptime_seconds"@, numbers::decimal(s.uptime_seconds as nat)),
        build_family(s) == family("cosmon_adapter_build_info"@, "Static build metadata (version, posture)."@, "gauge"@)
            + "cosmon_adapter_build_info{version=\""@ + s.version@ + "\",posture=\""@ + crate::posture_name(s.posture)
            + "\"} 1\n"@,
        responses_family(s) == family("cosmon_adapter_http_responses_total"@, "HTTP response count by status class."@, "counter"@)
            + class_sample("1xx"@, s.statuses.responses_1xx) + class_sample("2xx"@, s.statuses.responses_2xx)
            + class_sample("3xx"@, s.statuses.responses_3xx) + class_sample("4xx"@, s.statuses.responses_4xx)
            + class_sample("5xx"@, s.statuses.responses_5xx),
        rejects_family(s) == family("cosmon_adapter_admission_rejects_total"@, "Admission-stage rejects by reason."@, "counter"@) + (
        if s.rejects@.len() == 0 {
            reject_sample("none"@, 0)
        } else {
            reject_samples(s.rejects@)
        }),
        rate_limit_families(s) == family(
            "cosmon_adapter_rate_limit_capacity"@,
            "Per-sub leaky-bucket burst capacity (tokens)."@,
            "gauge"@,
        ) + sample("cosmon_adapter_rate_limit_capacity"@, s.rate_limit_capacity@) + family(
            "cosmon_adapter_rate_limit_leak_per_minute"@,
            "Per-sub leaky-bucket drain rate (tokens/min)."@,
            "gauge"@,
        ) + sample("cosmon_adapter_rate_limit_leak_per_minute"@, s.rate_limit_leak_per_minute@),
        backend_families(s) == family(
            "cosmon_adapter_backend_status"@,
            "LLM backend rolling status (3=ok, 2=degraded, 1=down, 0=configured-but-unused)."@,
            "gauge"@,
        ) + (if s.backends@.len() == 0 {
            status_sample("none"@, 0)
        } else {
            status_samples(s.backends@)
        }) + family(
            "cosmon_adapter_backend_latency_p95_ms"@,
            "95th-percentile call latency over the recent window."@,
            "gauge"@,
        ) + latency_samples(s.backends@),
        jwks_family(s) == family("cosmon_adapter_jwks_keys_loaded"@, "JWKS keys loaded per pinned issuer."@, "gauge"@) + (
        if s.jwks_keys_by_issuer@.len() == 0 {
            jwks_sample("none"@, 0)
        } else {
            jwks_samples(s.jwks_keys_by_issuer@)
        }),
        map_families(s) == family(
            "cosmon_adapter_nucleon_bindings"@,
            "Active `(iss, sub)` bindings in the sealed nucleon map."@,
            "gauge"@,
        ) + sample("cosmon_adapter_nucleon_bindings"@, numbers::decimal(s.bindings as nat)) + family(
            "cosmon_adapter_nucleon_noyaux"@,
            "Distinct noyaux covered by the nucleon map."@,
            "gauge"@,
        ) + sample("cosmon_adapter_nucleon_noyaux"@, numbers::decimal(s.noyaux as nat)),
        events_family(s) == family("cosmon_adapter_events_subscribers"@, "Current subscribers to the SSE event bus."@, "gauge"@) + sample(
            "cosmon_adapter_events_subscribers"@,
            numbers::decimal(s.subscribers as nat),
        ),
        exposition(s) == uptime_family(s) + build_family(s) + responses_family(s) + rejects_family(s) + rate_limit_families(s)
            + backend_families(s) + jwks_family(s) + map_families(s) + events_family(s),
        forall|class: Seq<char>, count: u64| #[trigger]
            class_sample(class, count) == labelled(
                "cosmon_adapter_http_responses_total"@,
                "class"@,
                class,
                numbers::decimal(count as nat),
            ),
        reject_sample("none"@, 0) == labelled(
            "cosmon_adapter_admission_rejects_total"@,
            "reason"@,
            "none"@,
            numbers::decimal(0),
        ),
        jwks_sample("none"@, 0) == labelled("cosmon_adapter_jwks_keys_loaded"@, "issuer"@, "none"@, numbers::decimal(0)),
        status_sample("none"@, 0) == labelled("cosmon_adapter_backend_status"@, "backend"@, "none"@, numbers::decimal(0)),
{
}

} // verus!
