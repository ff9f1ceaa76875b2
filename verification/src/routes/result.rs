//! `GET /v1/molecules/{id}/result`: the deliverable of a molecule, and how far
//! it is.

use vstd::prelude::*;
use crate::clock::{within, Timestamp};
use crate::digest;
use crate::digest::{base64_text, blake3_hex, text_from_utf8};
use crate::json;
use crate::json::{Json, JsonView};
use crate::numbers;
use crate::numbers::parse_i64;
use crate::order;
use crate::order::{place, Placement};
use crate::paths;
use crate::paths::{file_name_lossy, join};
use crate::routes::artifacts;
use crate::routes::artifacts::{detect_content_type, IntegrityHash};
use crate::text;
use crate::text::{chars_of, concat, has_prefix, lowercase};
use crate::pipeline::{check, Effect, Fact, Stage, Verb};
use crate::scopes::ScopeRule;

verus! {

// ---------------------------------------------------------------------------
// Where the deliverable lies
// ---------------------------------------------------------------------------

/// The directory of a molecule in its tenant's state.
pub fn molecule_dir_for(state_dir: &str, fleet_id: &str, molecule_id: &str) -> (r: String)
    ensures
        r@ == paths::joined(
            paths::joined(paths::joined(paths::joined(state_dir@, "fleets"@), fleet_id@), "molecules"@),
            molecule_id@,
        ),
{
    let fleets = join(state_dir, "fleets");
    let fleet = join(fleets.as_str(), fleet_id);
    let molecules = join(fleet.as_str(), "molecules");
    join(molecules.as_str(), molecule_id)
}

/// The regular files found in the two directories that may hold a deliverable.
#[derive(Clone, Debug)]
pub struct ResultProbe {
    /// `result.md` lies in the molecule's directory.
    pub molecule_result: bool,
    /// `synthesis.md` lies in the molecule's directory.
    pub molecule_synthesis: bool,
    /// `result.md` lies in the artifact directory.
    pub artifact_result: bool,
    /// The names of the regular files of the artifact directory; none where it
    /// is missing.
    pub artifact_files: Vec<String>,
}

/// A deliverable: by which convention it was found, and where it lies.
#[derive(Clone, Debug, PartialEq, Eq)]
pub struct ResolvedResult {
    pub source: String,
    pub path: String,
}

/// The name begins with `result.`, in any case.
pub open spec fn named_result(name: Seq<char>) -> bool {
    text::starts_with(text::lower_text(name), "result."@)
}

/// The shown names among the files of a directory.
pub open spec fn shown_names(names: Seq<Seq<char>>) -> Seq<Seq<char>>
    decreases names.len(),
{
    if names.len() == 0 {
        Seq::empty()
    } else if artifacts::shown(names.last()) {
        shown_names(names.drop_last()).push(names.last())
    } else {
        shown_names(names.drop_last())
    }
}

/// The file that stands for the deliverable where the artifact directory holds no
/// `result.md`: the only shown file, or, of several, the first in name order
/// whose name begins with `result.`.
pub open spec fn stands_for_result(names: Seq<Seq<char>>, pick: Option<Seq<char>>) -> bool {
    let seen = shown_names(names);
    if seen.len() == 1 {
        pick == Some(seen[0])
    } else {
        match pick {
            Some(name) => {
                &&& seen.contains(name)
                &&& named_result(name)
                &&& forall|i: int|
                    0 <= i < seen.len() && named_result(#[trigger] seen[i]) ==> order::text_le(name, seen[i])
            },
            None => forall|i: int| 0 <= i < seen.len() ==> !named_result(#[trigger] seen[i]),
        }
    }
}

/// The deliverable that the rules pick: a `result.md` or else a `synthesis.md` of
/// the molecule, or else a file of the artifact directory.
pub open spec fn canonical(
    molecule_dir: Seq<char>,
    artifact_dir: Seq<char>,
    probe: ResultProbe,
    pick: Option<(Seq<char>, Seq<char>)>,
) -> bool {
    if probe.molecule_result {
        pick == Some(("result.md"@, paths::joined(molecule_dir, "result.md"@)))
    } else if probe.molecule_synthesis {
        pick == Some(("synthesis.md"@, paths::joined(molecule_dir, "synthesis.md"@)))
    } else if probe.artifact_result {
        pick == Some(("artifact:result.md"@, paths::joined(artifact_dir, "result.md"@)))
    } else {
        exists|name: Option<Seq<char>>|
            {
                &&& #[trigger] stands_for_result(text::views(probe.artifact_files@), name)
                &&& pick == match name {
                    Some(n) => Some(("artifact:"@ + n, paths::joined(artifact_dir, n))),
                    None => None,
                }
            }
    }
}

pub open spec fn resolved_view(r: Option<ResolvedResult>) -> Option<(Seq<char>, Seq<char>)> {
    match r {
        Some(v) => Some((v.source@, v.path@)),
        None => None,
    }
}

fn is_named_result(name: &str) -> (r: bool)
    ensures
        r == named_result(name@),
{
    let lower = lowercase(name);
    has_prefix(lower.as_str(), "result.")
}

/// The shown names among the files of a directory, in the order they were found.
fn visible_files(names: &Vec<String>) -> (r: Vec<String>)
    ensures
        text::views(r@) == shown_names(text::views(names@)),
{
    let ghost all = text::views(names@);
    let mut out: Vec<String> = Vec::new();
    let mut i: usize = 0;
    assert(all.take(0) =~= Seq::<Seq<char>>::empty());
    assert(text::views(out@) =~= shown_names(all.take(0)));
    while i < names.len()
        invariant
            i <= names@.len(),
            all == text::views(names@),
            text::views(out@) == shown_names(all.take(i as int)),
        decreases names@.len() - i,
    {
        let ghost before = text::views(out@);
        let cs = chars_of(names[i].as_str());
        proof {
            assert(all.take(i + 1).drop_last() =~= all.take(i as int));
            assert(all.take(i + 1).last() == names@[i as int]@);
        }
        if !(cs.len() > 0 && cs[0] == '.') {
            out.push(names[i].clone());
            assert(text::views(out@) =~= before.push(names@[i as int]@));
        }
        i += 1;
    }
    assert(all.take(i as int) =~= all);
    out
}

fn pick_artifact(names: &Vec<String>) -> (r: Option<String>)
    ensures
        stands_for_result(text::views(names@), crate::nucleon_map::optional(r)),
{
    let seen = visible_files(names);
    let ghost all = text::views(seen@);
    assert(all.len() == seen@.len());
    if seen.len() == 1 {
        assert(all[0] == seen@[0]@);
        return Some(seen[0].clone());
    }
    let mut best: Option<usize> = None;
    let mut i: usize = 0;
    while i < seen.len()
        invariant
            i <= seen@.len(),
            all == text::views(seen@),
            all.len() == seen@.len(),
            match best {
                Some(b) => {
                    &&& b < i
                    &&& named_result(all[b as int])
                    &&& forall|k: int|
                        0 <= k < i && named_result(#[trigger] all[k]) ==> order::text_le(all[b as int], all[k])
                },
                None => forall|k: int| 0 <= k < i ==> !named_result(#[trigger] all[k]),
            },
        decreases seen@.len() - i,
    {
        let ghost before = best;
        assert(all[i as int] == seen@[i as int]@);
        if is_named_result(seen[i].as_str()) {
            match best {
                None => {
                    best = Some(i);
                },
                Some(b) => {
                    assert(all[b as int] == seen@[b as int]@);
                    proof {
                        order::lemma_text_total(all[i as int], all[b as int]);
                    }
                    if place(seen[i].as_str(), seen[b].as_str()) == Placement::Before {
                        best = Some(i);
                        proof {
                            assert forall|k: int| 0 <= k < i + 1 && named_result(#[trigger] all[k]) implies order::text_le(
                                all[i as int],
                                all[k],
                            ) by {
                                if k < i && all[b as int] != all[k] {
                                    order::lemma_text_transitive(all[i as int], all[b as int], all[k]);
                                }
                            }
                        }
                    }
                },
            }
        }
        i += 1;
    }
    match best {
        Some(b) => {
            assert(all[b as int] == seen@[b as int]@);
            assert(all.contains(all[b as int]));
            Some(seen[b].clone())
        },
        None => None,
    }
}

/// The deliverable of a molecule. Nothing is read: the answer follows from which
/// files there are.
pub fn resolve_canonical_result(molecule_dir: &str, artifact_dir: &str, probe: &ResultProbe) -> (r: Option<
    ResolvedResult,
>)
    ensures
        canonical(molecule_dir@, artifact_dir@, *probe, resolved_view(r)),
{
    if probe.molecule_result {
        return Some(ResolvedResult { source: "result.md".to_owned(), path: join(molecule_dir, "result.md") });
    }
    if probe.molecule_synthesis {
        return Some(ResolvedResult { source: "synthesis.md".to_owned(), path: join(molecule_dir, "synthesis.md") });
    }
    if probe.artifact_result {
        return Some(
            ResolvedResult { source: "artifact:result.md".to_owned(), path: join(artifact_dir, "result.md") },
        );
    }
    let pick = pick_artifact(&probe.artifact_files);
    assert(stands_for_result(text::views(probe.artifact_files@), crate::nucleon_map::optional(pick)));
    match pick {
        Some(name) => Some(
            ResolvedResult { source: concat("artifact:", name.as_str()), path: join(artifact_dir, name.as_str()) },
        ),
        None => None,
    }
}

// ---------------------------------------------------------------------------
// How far the molecule is
// ---------------------------------------------------------------------------

/// The state of a molecule.
#[derive(Clone, Copy, Debug, PartialEq, Eq, Structural)]
pub enum MoleculeStatus {
    Pending,
    Queued,
    Running,
    Completed,
    Collapsed,
    Frozen,
    Starved,
}

/// What the state of a molecule says that its result status depends on.
#[derive(Clone, Copy, Debug, PartialEq, Eq, Structural)]
pub struct MoleculeData {
    pub status: MoleculeStatus,
    /// Whether the recorded worker process is active; none where no process is
    /// recorded.
    pub process_active: Option<bool>,
    pub tackled_at: Option<Timestamp>,
}

/// How far a result is.
#[derive(Clone, Copy, Debug, PartialEq, Eq, Structural)]
pub enum ResultStatus {
    Pending,
    Running,
    Ready,
    DoneNoDeliverable,
    Stalled,
    Failed,
}

pub open spec fn status_tag(s: ResultStatus) -> Seq<char> {
    match s {
        ResultStatus::Pending => "pending"@,
        ResultStatus::Running => "running"@,
        ResultStatus::Ready => "ready"@,
        ResultStatus::DoneNoDeliverable => "done-no-deliverable"@,
        ResultStatus::Stalled => "stalled"@,
        ResultStatus::Failed => "failed"@,
    }
}

impl ResultStatus {
    /// The stable tag on the wire.
    pub fn as_str(self) -> (r: &'static str)
        ensures
            r@ == status_tag(self),
    {
        match self {
            ResultStatus::Pending => "pending",
            ResultStatus::Running => "running",
            ResultStatus::Ready => "ready",
            ResultStatus::DoneNoDeliverable => "done-no-deliverable",
            ResultStatus::Stalled => "stalled",
            ResultStatus::Failed => "failed",
        }
    }
}

/// The seconds after which a running molecule counts as stalled.
pub const DEFAULT_STALL_TIMEOUT_SECS: i64 = 900;

/// The stall timeout in effect: a positive number that the deployment set, else
/// the default.
pub open spec fn timeout_of(setting: Option<Seq<char>>) -> int {
    match setting {
        Some(s) => match numbers::signed_value(s) {
            Some(n) => if 0 < n <= i64::MAX {
                n
            } else {
                DEFAULT_STALL_TIMEOUT_SECS as int
            },
            None => DEFAULT_STALL_TIMEOUT_SECS as int,
        },
        None => DEFAULT_STALL_TIMEOUT_SECS as int,
    }
}

/// The stall timeout in effect, in seconds, from what the deployment set.
pub fn stall_timeout(setting: Option<&str>) -> (r: i64)
    ensures
        r == timeout_of(crate::routes::view_of(setting)),
        r > 0,
{
    match setting {
        Some(s) => match parse_i64(s) {
            Some(n) => if n > 0 {
                n
            } else {
                DEFAULT_STALL_TIMEOUT_SECS
            },
            None => DEFAULT_STALL_TIMEOUT_SECS,
        },
        None => DEFAULT_STALL_TIMEOUT_SECS,
    }
}

/// The run is broken or arrested.
pub open spec fn is_failed(status: MoleculeStatus) -> bool {
    status == MoleculeStatus::Collapsed || status == MoleculeStatus::Frozen || status == MoleculeStatus::Starved
}

/// A worker is up, and was set to work no longer ago than the timeout.
pub open spec fn is_live(data: MoleculeData, now: Timestamp, stale_after: i64) -> bool {
    data.process_active == Some(true) && (data.tackled_at matches Some(t) && now.instant() - t.instant() <= stale_after
        * 1_000_000_000)
}

/// How far a result is: a failed run first, then a deliverable that was read,
/// then what the state says.
pub open spec fn result_status(data: MoleculeData, delivered: bool, now: Timestamp, stale_after: i64) -> ResultStatus {
    if is_failed(data.status) {
        ResultStatus::Failed
    } else if delivered {
        ResultStatus::Ready
    } else if data.status == MoleculeStatus::Completed {
        ResultStatus::DoneNoDeliverable
    } else if data.status == MoleculeStatus::Running {
        if is_live(data, now, stale_after) {
            ResultStatus::Running
        } else {
            ResultStatus::Stalled
        }
    } else {
        ResultStatus::Pending
    }
}

/// How far a result is. `resolved` is a deliverable whose bytes were read.
pub fn derive_result_status(
    data: &MoleculeData,
    resolved: Option<&ResolvedResult>,
    now: Timestamp,
    stale_after: i64,
) -> (r: ResultStatus)
    ensures
        r == result_status(*data, resolved is Some, now, stale_after),
        data.status == MoleculeStatus::Collapsed || data.status == MoleculeStatus::Frozen || data.status
            == MoleculeStatus::Starved <==> r == ResultStatus::Failed,
        r == ResultStatus::Ready <==> r != ResultStatus::Failed && resolved is Some,
        r == ResultStatus::DoneNoDeliverable <==> data.status == MoleculeStatus::Completed && resolved is None,
        r == ResultStatus::Pending <==> (data.status == MoleculeStatus::Pending || data.status == MoleculeStatus::Queued)
            && resolved is None,
        r == ResultStatus::Running || r == ResultStatus::Stalled <==> data.status == MoleculeStatus::Running
            && resolved is None,
{
    match data.status {
        MoleculeStatus::Collapsed => return ResultStatus::Failed,
        MoleculeStatus::Frozen => return ResultStatus::Failed,
        MoleculeStatus::Starved => return ResultStatus::Failed,
        _ => {},
    }
    if resolved.is_some() {
        return ResultStatus::Ready;
    }
    match data.status {
        MoleculeStatus::Completed => ResultStatus::DoneNoDeliverable,
        MoleculeStatus::Running => {
            let up = match data.process_active {
                Some(active) => active,
                None => false,
            };
            let fresh = match data.tackled_at {
                Some(t) => within(t, now, stale_after),
                None => false,
            };
            if up && fresh {
                ResultStatus::Running
            } else {
                ResultStatus::Stalled
            }
        },
        _ => ResultStatus::Pending,
    }
}

// ---------------------------------------------------------------------------
// The deliverable on the wire
// ---------------------------------------------------------------------------

/// A deliverable as it goes on the wire.
#[derive(Clone, Debug)]
pub struct ResultBody {
    pub source: String,
    pub content_type: String,
    pub encoding: &'static str,
    pub content: String,
    pub size_bytes: u64,
    pub integrity: IntegrityHash,
}

/// The deliverable on the wire: text as it is, anything else in base64.
pub fn result_body(resolved: &ResolvedResult, bytes: Vec<u8>) -> (r: ResultBody)
    requires
        4 * ((bytes@.len() + 2) / 3) <= isize::MAX,
    ensures
        r.source@ == resolved.source@,
        r.content_type@ == artifacts::media_type(artifacts::lower_extension(paths::file_name_of(resolved.path@))),
        r.size_bytes == bytes@.len(),
        r.integrity.algo@ == "blake3"@,
        r.integrity.hex@ == digest::blake3_hex_of(bytes@),
        if vstd::utf8::valid_utf8(bytes@) {
            r.encoding@ == "utf8"@ && digest::utf8(r.content@) == bytes@
        } else {
            r.encoding@ == "base64"@ && r.content@ == digest::base64_of(bytes@)
        },
{
    let size_bytes: u64 = bytes.len() as u64;
    let hex = blake3_hex(bytes.as_slice());
    let name = file_name_lossy(resolved.path.as_str());
    let content_type = detect_content_type(name.as_str()).to_owned();
    let (encoding, content): (&'static str, String) = match text_from_utf8(bytes) {
        Ok(text) => ("utf8", text),
        Err(raw) => ("base64", base64_text(raw.as_slice())),
    };
    ResultBody {
        source: resolved.source.clone(),
        content_type,
        encoding,
        content,
        size_bytes,
        integrity: IntegrityHash { algo: "blake3".to_owned(), hex },
    }
}

/// What the deliverable's bytes are on the wire: the encoding, and the content in
/// it.
pub open spec fn encoded(bytes: Seq<u8>) -> (Seq<char>, Seq<char>) {
    if vstd::utf8::valid_utf8(bytes) {
        ("utf8"@, vstd::utf8::decode_utf8(bytes))
    } else {
        ("base64"@, digest::base64_of(bytes))
    }
}

/// A deliverable that was read, as a document.
pub open spec fn deliverable_view(resolved: ResolvedResult, bytes: Seq<u8>) -> JsonView {
    JsonView::Object(
        seq![
            json::text_field("source"@, resolved.source@),
            json::text_field(
                "content_type"@,
                artifacts::media_type(artifacts::lower_extension(paths::file_name_of(resolved.path@))),
            ),
            json::text_field("encoding"@, encoded(bytes).0),
            json::text_field("content"@, encoded(bytes).1),
            ("size_bytes"@, JsonView::Number(numbers::decimal(bytes.len()))),
            ("integrity"@, integrity_view(bytes)),
        ],
    )
}

/// The digest of a deliverable, as a document.
pub open spec fn integrity_view(bytes: Seq<u8>) -> JsonView {
    JsonView::Object(
        seq![json::text_field("algo"@, "blake3"@), json::text_field("hex"@, digest::blake3_hex_of(bytes))],
    )
}

fn deliverable(resolved: &ResolvedResult, bytes: Vec<u8>) -> (r: Json)
    requires
        4 * ((bytes@.len() + 2) / 3) <= isize::MAX,
    ensures
        r@ == deliverable_view(*resolved, bytes@),
{
    let body = result_body(resolved, bytes);
    proof {
        vstd::utf8::encode_utf8_decode_utf8(body.content@);
    }
    let integrity = Json::object().field("algo", Json::text(body.integrity.algo.as_str())).field(
        "hex",
        Json::text(body.integrity.hex.as_str()),
    );
    assert(integrity@->Object_0 =~= integrity_view(bytes@)->Object_0);
    let r = Json::object().field("source", Json::text(body.source.as_str())).field(
        "content_type",
        Json::text(body.content_type.as_str()),
    ).field("encoding", Json::text(body.encoding)).field("content", Json::text(body.content.as_str())).field(
        "size_bytes",
        Json::number(body.size_bytes),
    ).field("integrity", integrity);
    assert(r@->Object_0 =~= deliverable_view(*resolved, bytes@)->Object_0);
    r
}

/// What is said of how a molecule's worker does: the process on record, and when
/// it last moved and was set to work, as the store writes them.
#[derive(Debug)]
pub struct Liveness {
    pub process: Json,
    pub heartbeat_at: Json,
    pub tackled_at: Json,
}

/// How the worker does, and after which time without a result it counts as
/// stalled.
pub open spec fn liveness_view(liveness: Liveness, stale_after: i64) -> JsonView {
    JsonView::Object(
        seq![
            ("process"@, liveness.process@),
            ("heartbeat_at"@, liveness.heartbeat_at@),
            ("tackled_at"@, liveness.tackled_at@),
            ("stale_after_s"@, JsonView::Number(numbers::decimal(stale_after as nat))),
        ],
    )
}

/// A molecule as its result depends on it.
#[derive(Debug)]
pub struct ResultSubject {
    pub molecule_id: String,
    /// The word that its state goes by.
    pub status_text: String,
    pub data: MoleculeData,
    pub liveness: Liveness,
}

/// A deliverable that was found, and its bytes where they were read.
pub open spec fn delivered_view(found: Option<(ResolvedResult, Vec<u8>)>) -> JsonView {
    match found {
        Some((resolved, bytes)) => deliverable_view(resolved, bytes@),
        None => JsonView::Null,
    }
}

/// The answer of `GET /v1/molecules/{id}/result`. `found` is the deliverable with
/// the bytes that were read of it: the result is ready only with them, and they
/// are what is handed out.
pub open spec fn result_view(
    request_id: Seq<char>,
    subject: ResultSubject,
    found: Option<(ResolvedResult, Vec<u8>)>,
    now: Timestamp,
    stale_after: i64,
) -> JsonView {
    JsonView::Object(
        seq![
            json::text_field("request_id"@, request_id),
            json::text_field("molecule_id"@, subject.molecule_id@),
            json::text_field("status"@, subject.status_text@),
            json::text_field(
                "result_status"@,
                status_tag(result_status(subject.data, found is Some, now, stale_after)),
            ),
            ("liveness"@, liveness_view(subject.liveness, stale_after)),
            ("result"@, delivered_view(found)),
        ],
    )
}

/// The answer of `GET /v1/molecules/{id}/result`, from what was read.
pub fn result_reply(
    request_id: &str,
    subject: ResultSubject,
    found: Option<(ResolvedResult, Vec<u8>)>,
    now: Timestamp,
    stale_after: i64,
) -> (r: Json)
    requires
        stale_after >= 0,
        found matches Some((_, bytes)) ==> 4 * ((bytes@.len() + 2) / 3) <= isize::MAX,
    ensures
        r@ == result_view(request_id@, subject, found, now, stale_after),
{
    let resolved: Option<&ResolvedResult> = match &found {
        Some((resolved, _)) => Some(resolved),
        None => None,
    };
    let status = derive_result_status(&subject.data, resolved, now, stale_after);
    let result = match found {
        Some((resolved, bytes)) => deliverable(&resolved, bytes),
        None => Json::Null,
    };
    let liveness = Json::object().field("process", subject.liveness.process).field(
        "heartbeat_at",
        subject.liveness.heartbeat_at,
    ).field("tackled_at", subject.liveness.tackled_at).field("stale_after_s", Json::number(stale_after as u64));
    assert(liveness@->Object_0 =~= liveness_view(subject.liveness, stale_after)->Object_0);
    let r = Json::object().field("request_id", Json::text(request_id)).field(
        "molecule_id",
        Json::text(subject.molecule_id.as_str()),
    ).field("status", Json::text(subject.status_text.as_str())).field(
        "result_status",
        Json::text(status.as_str()),
    ).field("liveness", liveness).field("result", result);
    assert(r@->Object_0 =~= result_view(request_id@, subject, found, now, stale_after)->Object_0);
    r
}

// ---------------------------------------------------------------------------
// The plan
// ---------------------------------------------------------------------------

pub open spec fn get_result_plan() -> Seq<Stage> {
    seq![
        Stage::Bearer { metered: true },
        Stage::Token { metered: true },
        Stage::Scope { act: "result", rule: ScopeRule::MoleculeRead },
        Stage::Admit { verb: Verb::ObserveMolecule, targeted: true, metered: true },
        check(Fact::MoleculeIdValid, 404, "not_found"),
        check(Fact::TenantRootExists, 404, "not_found"),
        Stage::Perform { effect: Effect::LoadMolecule },
        Stage::Answer { status: 200 },
    ]
}

/// The plan of `GET /v1/molecules/{id}/result`.
pub fn get_result() -> (r: Vec<Stage>)
    ensures
        r@ == get_result_plan(),
{
    vec![
        Stage::Bearer { metered: true },
        Stage::Token { metered: true },
        Stage::Scope { act: "result", rule: ScopeRule::MoleculeRead },
        Stage::Admit { verb: Verb::ObserveMolecule, targeted: true, metered: true },
        check(Fact::MoleculeIdValid, 404, "not_found"),
        check(Fact::TenantRootExists, 404, "not_found"),
        Stage::Perform { effect: Effect::LoadMolecule },
        Stage::Answer { status: 200 },
    ]
}

// ---------------------------------------------------------------------------
// Laws
// ---------------------------------------------------------------------------

/// A result is ready only where a deliverable was read and the run did not fail;
/// that the molecule counts as completed is not enough.
pub proof fn law_ready_is_proven_by_the_deliverable(data: MoleculeData, delivered: bool, now: Timestamp, stale_after: i64)
    ensures
        result_status(data, delivered, now, stale_after) == ResultStatus::Ready <==> delivered && !is_failed(data.status),
{
}

/// An answer says ready only with a deliverable that was read, and then hands out
/// its bytes; without one it hands out none.
pub proof fn law_ready_answers_hand_out_what_was_read(
    request_id: Seq<char>,
    subject: ResultSubject,
    found: Option<(ResolvedResult, Vec<u8>)>,
    now: Timestamp,
    stale_after: i64,
)
    ensures
        ({
            let said = json::field_of(result_view(request_id, subject, found, now, stale_after), "result_status"@);
            let handed = json::field_of(result_view(request_id, subject, found, now, stale_after), "result"@);
            &&& said == Some(JsonView::Text("ready"@)) <==> found is Some && !is_failed(subject.data.status)
            &&& handed == Some(delivered_view(found))
            &&& handed == Some(JsonView::Null) <==> found is None
        }),
{
    reveal_strlit("request_id");
    reveal_strlit("molecule_id");
    reveal_strlit("status");
    reveal_strlit("result_status");
    reveal_strlit("liveness");
    reveal_strlit("result");
    reveal_strlit("ready");
    reveal_strlit("pending");
    reveal_strlit("running");
    reveal_strlit("done-no-deliverable");
    reveal_strlit("stalled");
    reveal_strlit("failed");
    let fields = result_view(request_id, subject, found, now, stale_after)->Object_0;
    reveal_with_fuel(json::first_field, 7);
    let (said, handed) = ("result_status"@, "result"@);
    assert(said.len() == 13 && handed.len() == 6 && "status"@[0] == 's' && handed[0] == 'r');
    assert(fields[0].0.len() == 10 && fields[1].0.len() == 11 && fields[2].0 == "status"@ && fields[2].0.len() == 6);
    assert(fields[3].0.len() == 13 && fields[4].0.len() == 8 && fields[5].0 == handed);
    assert(fields[0].0 != said && fields[1].0 != said && fields[2].0 != said);
    assert(fields[0].0 != handed && fields[1].0 != handed && fields[2].0 != handed && fields[3].0 != handed && fields[4].0
        != handed);
    assert(fields.skip(1).skip(1) =~= fields.skip(2));
    assert(fields.skip(2).skip(1) =~= fields.skip(3));
    assert(fields.skip(3).skip(1) =~= fields.skip(4));
    assert(fields.skip(4).skip(1) =~= fields.skip(5));
    assert(json::first_field(fields, said) == Some(fields[3].1));
    assert(json::first_field(fields, handed) == Some(fields[5].1));
    let status = result_status(subject.data, found is Some, now, stale_after);
    assert("ready"@.len() == 5 && "failed"@.len() == 6 && "pending"@.len() == 7);
    assert(status_tag(status) == "ready"@ <==> status == ResultStatus::Ready);
}

/// The wait is bounded: a running molecule without a deliverable counts as
/// stalled once the timeout has passed, and it stays so.
pub proof fn law_waiting_is_bounded(data: MoleculeData, now: Timestamp, later: Timestamp, stale_after: i64)
    requires
        data.status == MoleculeStatus::Running,
        result_status(data, false, now, stale_after) == ResultStatus::Stalled,
        now.instant() <= later.instant(),
    ensures
        result_status(data, false, later, stale_after) == ResultStatus::Stalled,
{
}

/// A running molecule whose timeout has passed counts as stalled, whatever its
/// worker process looks like.
pub proof fn law_timeout_beats_the_process(data: MoleculeData, t: Timestamp, now: Timestamp, stale_after: i64)
    requires
        data.status == MoleculeStatus::Running,
        data.tackled_at == Some(t),
        now.instant() - t.instant() > stale_after * 1_000_000_000,
    ensures
        result_status(data, false, now, stale_after) == ResultStatus::Stalled,
{
}

/// A failed run stays failed whatever lies on disk.
pub proof fn law_failure_beats_the_deliverable(data: MoleculeData, delivered: bool, now: Timestamp, stale_after: i64)
    requires
        is_failed(data.status),
    ensures
        result_status(data, delivered, now, stale_after) == ResultStatus::Failed,
{
}

/// The rules pick at most one deliverable.
pub proof fn law_deliverable_is_unique(
    molecule_dir: Seq<char>,
    artifact_dir: Seq<char>,
    probe: ResultProbe,
    a: Option<(Seq<char>, Seq<char>)>,
    b: Option<(Seq<char>, Seq<char>)>,
)
    requires
        canonical(molecule_dir, artifact_dir, probe, a),
        canonical(molecule_dir, artifact_dir, probe, b),
    ensures
        a == b,
{
    if !probe.molecule_result && !probe.molecule_synthesis && !probe.artifact_result {
        let names = text::views(probe.artifact_files@);
        let seen = shown_names(names);
        let x = choose|name: Option<Seq<char>>|
            {
                &&& #[trigger] stands_for_result(names, name)
                &&& a == match name {
                    Some(n) => Some(("artifact:"@ + n, paths::joined(artifact_dir, n))),
                    None => None,
                }
            };
        let y = choose|name: Option<Seq<char>>|
            {
                &&& #[trigger] stands_for_result(names, name)
                &&& b == match name {
                    Some(n) => Some(("artifact:"@ + n, paths::joined(artifact_dir, n))),
                    None => None,
                }
            };
        if seen.len() != 1 {
            if x is Some {
                let i = choose|i: int| 0 <= i < seen.len() && seen[i] == x->0;
                assert(named_result(seen[i]));
                if y is Some {
                    let j = choose|j: int| 0 <= j < seen.len() && seen[j] == y->0;
                    assert(named_result(seen[j]));
                    order::lemma_text_total(x->0, y->0);
                }
            } else if y is Some {
                let j = choose|j: int| 0 <= j < seen.len() && seen[j] == y->0;
                assert(named_result(seen[j]));
            }
        }
        assert(x == y);
    }
}

/// A molecule without any file has no deliverable.
pub proof fn law_no_files_no_deliverable(molecule_dir: Seq<char>, artifact_dir: Seq<char>, probe: ResultProbe)
    requires
        !probe.molecule_result,
        !probe.molecule_synthesis,
        !probe.artifact_result,
        probe.artifact_files@.len() == 0,
    ensures
        canonical(molecule_dir, artifact_dir, probe, None),
{
    assert(stands_for_result(text::views(probe.artifact_files@), None));
}

/// How far a result is, for each state that a molecule can be in: a collapsed,
/// frozen or starved one failed whatever lies on disk; of the others one whose
/// deliverable was read is ready; without one a completed molecule is done with
/// nothing to show, one that waits or is queued is pending and never stalled, and a
/// running one is running as long as its worker is up and was set to work within
/// the timeout, and stalled otherwise.
pub proof fn law_each_state_has_its_answer(data: MoleculeData, now: Timestamp, stale_after: i64)
    ensures
        data.status == MoleculeStatus::Collapsed || data.status == MoleculeStatus::Frozen || data.status
            == MoleculeStatus::Starved ==> result_status(data, true, now, stale_after) == ResultStatus::Failed
            && result_status(data, false, now, stale_after) == ResultStatus::Failed,
        data.status == MoleculeStatus::Pending || data.status == MoleculeStatus::Queued || data.status
            == MoleculeStatus::Running || data.status == MoleculeStatus::Completed ==> result_status(
            data,
            true,
            now,
            stale_after,
        ) == ResultStatus::Ready,
        data.status == MoleculeStatus::Completed ==> result_status(data, false, now, stale_after)
            == ResultStatus::DoneNoDeliverable,
        data.status == MoleculeStatus::Pending ==> result_status(data, false, now, stale_after) == ResultStatus::Pending,
        data.status == MoleculeStatus::Queued ==> result_status(data, false, now, stale_after) == ResultStatus::Pending,
        data.status == MoleculeStatus::Running ==> result_status(data, false, now, stale_after) == (if data.process_active
            == Some(true) && data.tackled_at is Some && (now.secs - (data.tackled_at->0).secs) * 1_000_000_000 + (now.nanos
            - (data.tackled_at->0).nanos) <= stale_after * 1_000_000_000 {
            ResultStatus::Running
        } else {
            ResultStatus::Stalled
        }),
{
}

/// A molecule is reported as stalled, which tells the caller to start it again,
/// only where it was running.
pub proof fn law_only_running_molecules_stall(data: MoleculeData, delivered: bool, now: Timestamp, stale_after: i64)
    ensures
        result_status(data, delivered, now, stale_after) == ResultStatus::Stalled ==> data.status
            == MoleculeStatus::Running && !delivered,
        result_status(data, delivered, now, stale_after) == ResultStatus::Running ==> data.status
            == MoleculeStatus::Running && !delivered,
{
}

/// The word that each status goes by.
pub proof fn law_status_words()
    ensures
        status_tag(ResultStatus::Pending) == "pending"@,
        status_tag(ResultStatus::Running) == "running"@,
        status_tag(ResultStatus::Ready) == "ready"@,
        status_tag(ResultStatus::DoneNoDeliverable) == "done-no-deliverable"@,
        status_tag(ResultStatus::Stalled) == "stalled"@,
        status_tag(ResultStatus::Failed) == "failed"@,
{
}

/// A run is given up on where it collapsed, was frozen or starved, and nowhere else.
pub proof fn law_failed_states()
    ensures
        is_failed(MoleculeStatus::Collapsed) && is_failed(MoleculeStatus::Frozen) && is_failed(MoleculeStatus::Starved),
        !is_failed(MoleculeStatus::Pending) && !is_failed(MoleculeStatus::Queued) && !is_failed(MoleculeStatus::Running)
            && !is_failed(MoleculeStatus::Completed),
{
}

/// A worker is live where its process is up and it was set to work no longer ago than
/// the timeout.
pub proof fn law_live_runs(data: MoleculeData, t: Timestamp, now: Timestamp, stale_after: i64)
    ensures
        data.process_active != Some(true) ==> !is_live(data, now, stale_after),
        data.tackled_at is None ==> !is_live(data, now, stale_after),
        data.process_active == Some(true) && data.tackled_at == Some(t) ==> is_live(data, now, stale_after) == ((now.secs
            - t.secs) * 1_000_000_000 + (now.nanos - t.nanos) <= stale_after * 1_000_000_000),
{
}

/// The timeout is the number of seconds that the deployment set, where that is a
/// positive number, and fifteen minutes otherwise.
pub proof fn law_timeouts(digits: Seq<char>, setting: Seq<char>)
    requires
        digits.len() > 0,
        forall|i: int| 0 <= i < digits.len() ==> '0' <= #[trigger] digits[i] <= '9',
    ensures
        timeout_of(None) == 15 * 60,
        0 < numbers::digits_value(digits) <= i64::MAX ==> timeout_of(Some(digits)) == numbers::digits_value(digits),
        numbers::digits_value(digits) == 0 || numbers::digits_value(digits) > i64::MAX ==> timeout_of(Some(digits)) == 900,
        timeout_of(Some(seq!['-'] + digits)) == 900,
        numbers::signed_value(setting) is None ==> timeout_of(Some(setting)) == 900,
{
    numbers::law_reading_numbers(digits);
}

/// A file stands for the deliverable by its name where that is `result`, in any case,
/// with an extension.
pub proof fn law_result_names(name: Seq<char>)
    ensures
        named_result(name) <==> name.len() >= 7 && (name[0] == 'r' || name[0] == 'R') && (name[1] == 'e' || name[1] == 'E') && (
        name[2] == 's' || name[2] == 'S') && (name[3] == 'u' || name[3] == 'U') && (name[4] == 'l' || name[4] == 'L') && (name[5]
            == 't' || name[5] == 'T') && name[6] == '.',
{
    reveal_strlit("result.");
    let low = text::lower_text(name);
    if name.len() >= 7 {
        let head = low.take(7);
        assert(head[0] == text::lower(name[0]) && head[1] == text::lower(name[1]) && head[2] == text::lower(name[2]));
        assert(head[3] == text::lower(name[3]) && head[4] == text::lower(name[4]) && head[5] == text::lower(name[5]));
        assert(head[6] == text::lower(name[6]));
        if head[0] == 'r' && head[1] == 'e' && head[2] == 's' && head[3] == 'u' && head[4] == 'l' && head[5] == 't' && head[6]
            == '.' {
            assert(head =~= "result."@);
        }
        if head == "result."@ {
            assert(head[0] == 'r' && head[1] == 'e' && head[2] == 's' && head[3] == 'u' && head[4] == 'l' && head[5] == 't'
                && head[6] == '.');
        }
    }
}

/// Files whose name begins with a dot are passed over; the others keep their order.
pub proof fn law_hidden_names(names: Seq<Seq<char>>, name: Seq<char>)
    ensures
        shown_names(Seq::empty()).len() == 0,
        name.len() > 0 && name[0] == '.' ==> shown_names(names.push(name)) == shown_names(names),
        name.len() == 0 || name[0] != '.' ==> shown_names(names.push(name)) == shown_names(names).push(name),
{
    assert(names.push(name).drop_last() =~= names);
}

/// Which deliverable is picked: the molecule's own `result.md`, else its synthesis,
/// else a `result.md` among its artifacts, each by a source that tells which.
pub proof fn law_pick_of_the_deliverable(
    molecule_dir: Seq<char>,
    artifact_dir: Seq<char>,
    probe: ResultProbe,
    pick: Option<(Seq<char>, Seq<char>)>,
)
    requires
        canonical(molecule_dir, artifact_dir, probe, pick),
    ensures
        probe.molecule_result ==> pick == Some(("result.md"@, paths::joined(molecule_dir, "result.md"@))),
        !probe.molecule_result && probe.molecule_synthesis ==> pick == Some(
            ("synthesis.md"@, paths::joined(molecule_dir, "synthesis.md"@)),
        ),
        !probe.molecule_result && !probe.molecule_synthesis && probe.artifact_result ==> pick == Some(
            ("artifact:result.md"@, paths::joined(artifact_dir, "result.md"@)),
        ),
{
}

/// Without one of these an artifact stands in: the only one that is shown, or else, of
/// those that are named for a result, the first by name; it is told by its name.
pub proof fn law_pick_among_artifacts(
    molecule_dir: Seq<char>,
    artifact_dir: Seq<char>,
    probe: ResultProbe,
    pick: Option<(Seq<char>, Seq<char>)>,
)
    requires
        canonical(molecule_dir, artifact_dir, probe, pick),
        !probe.molecule_result && !probe.molecule_synthesis && !probe.artifact_result,
    ensures
        ({
            let seen = shown_names(text::views(probe.artifact_files@));
            &&& seen.len() == 1 ==> pick == Some(("artifact:"@ + seen[0], paths::joined(artifact_dir, seen[0])))
            &&& seen.len() != 1 && pick is Some ==> exists|k: int|
                0 <= k < seen.len() && named_result(#[trigger] seen[k]) && pick == Some(
                    ("artifact:"@ + seen[k], paths::joined(artifact_dir, seen[k])),
                ) && (forall|i: int| 0 <= i < seen.len() && named_result(#[trigger] seen[i]) ==> order::text_le(seen[k], seen[i]))
            &&& seen.len() != 1 && pick is None ==> forall|k: int| 0 <= k < seen.len() ==> !named_result(#[trigger] seen[k])
        }),
{
    let names = text::views(probe.artifact_files@);
    let seen = shown_names(names);
    let name = choose|name: Option<Seq<char>>|
        {
            &&& #[trigger] stands_for_result(names, name)
            &&& pick == match name {
                Some(n) => Some(("artifact:"@ + n, paths::joined(artifact_dir, n))),
                None => None,
            }
        };
    if seen.len() != 1 && name is Some {
        let k = choose|k: int| 0 <= k < seen.len() && seen[k] == name->0;
        assert(named_result(seen[k]));
    }
}

/// The content of a deliverable gives its bytes back: as text where they are text, and
/// through base64 where they are not.
pub proof fn law_contents_give_the_bytes_back(bytes: Seq<u8>)
    ensures
        vstd::utf8::valid_utf8(bytes) ==> encoded(bytes).0 == "utf8"@ && digest::utf8(encoded(bytes).1) == bytes,
        !vstd::utf8::valid_utf8(bytes) ==> encoded(bytes).0 == "base64"@ && digest::base64_bytes_of(encoded(bytes).1) == Some(
            bytes,
        ),
{
    digest::law_base64_reads_back(bytes);
    if vstd::utf8::valid_utf8(bytes) {
        vstd::utf8::decode_utf8_encode_utf8(bytes);
    }
}

/// A deliverable is told by where it came from, its type, its encoding, its content,
/// its size and its digest.
pub proof fn law_deliverables_are_told(resolved: ResolvedResult, bytes: Seq<u8>)
    ensures
        ({
            let told = deliverable_view(resolved, bytes)->Object_0;
            &&& deliverable_view(resolved, bytes) is Object
            &&& told.len() == 6
            &&& told[0] == ("source"@, JsonView::Text(resolved.source@))
            &&& told[1] == (
                "content_type"@,
                JsonView::Text(artifacts::media_type(artifacts::lower_extension(paths::file_name_of(resolved.path@)))),
            )
            &&& told[2] == ("encoding"@, JsonView::Text(encoded(bytes).0))
            &&& told[3] == ("content"@, JsonView::Text(encoded(bytes).1))
            &&& told[4] == ("size_bytes"@, JsonView::Number(numbers::decimal(bytes.len())))
            &&& told[5].0 == "integrity"@
            &&& told[5].1 is Object
            &&& (told[5].1->Object_0).len() == 2
            &&& (told[5].1->Object_0)[0] == ("algo"@, JsonView::Text("blake3"@))
            &&& (told[5].1->Object_0)[1] == ("hex"@, JsonView::Text(digest::blake3_hex_of(bytes)))
        }),
{
}

/// The answer tells the request, the molecule, its state, how far its result is, how
/// its worker does, and the result.
pub proof fn law_results_are_told(
    request_id: Seq<char>,
    subject: ResultSubject,
    found: Option<(ResolvedResult, Vec<u8>)>,
    now: Timestamp,
    stale_after: i64,
)
    ensures
        ({
            let told = result_view(request_id, subject, found, now, stale_after)->Object_0;
            let live = told[4].1->Object_0;
            &&& result_view(request_id, subject, found, now, stale_after) is Object
            &&& told.len() == 6
            &&& told[0] == ("request_id"@, JsonView::Text(request_id))
            &&& told[1] == ("molecule_id"@, JsonView::Text(subject.molecule_id@))
            &&& told[2] == ("status"@, JsonView::Text(subject.status_text@))
            &&& told[3] == (
                "result_status"@,
                JsonView::Text(status_tag(result_status(subject.data, found is Some, now, stale_after))),
            )
            &&& told[4].0 == "liveness"@ && told[4].1 is Object && live.len() == 4
            &&& live[0] == ("process"@, subject.liveness.process@)
            &&& live[1] == ("heartbeat_at"@, subject.liveness.heartbeat_at@)
            &&& live[2] == ("tackled_at"@, subject.liveness.tackled_at@)
            &&& live[3] == ("stale_after_s"@, JsonView::Number(numbers::decimal(stale_after as nat)))
            &&& told[5].0 == "result"@
            &&& found matches Some((resolved, bytes)) ==> told[5].1 == deliverable_view(resolved, bytes@)
            &&& found is None ==> told[5].1 == JsonView::Null
        }),
{
}

/// What was resolved is seen by its source and its path.
pub proof fn law_resolved_results(r: ResolvedResult)
    ensures
        resolved_view(Some(r)) == Some((r.source@, r.path@)),
        resolved_view(None) is None,
{
}

} // verus!
