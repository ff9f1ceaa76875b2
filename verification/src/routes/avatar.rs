//! The routes of avatars: conversations, perceptions, and the life of an instance.

use vstd::prelude::*;
use crate::digest;
use crate::digest::{base64_bytes, blake3_hex};
use crate::json;
use crate::json::{canonical_bytes, document, parse_json, Json, JsonView};
use crate::paths;
use crate::paths::join;
use crate::pipeline::{check, early_check, Effect, Fact, Stage, Verb};
use crate::routes::logs_stream;
use crate::scopes::ScopeRule;
use crate::tenant;
use crate::tenant::tenant_paths;
use crate::text;
use crate::text::{ascii_alphanumeric, chars_of, concat, concat3, is_blank, same_text};

verus! {

// ---------------------------------------------------------------------------
// Conversations
// ---------------------------------------------------------------------------

/// How far a request may be relayed, unless its binding says otherwise.
pub const DEFAULT_MAX_CONVERSE_HOPS: u32 = 8;

/// Whether a message waits for an answer.
#[derive(Clone, Copy, Debug, PartialEq, Eq, Structural)]
pub enum ConverseKind {
    Request,
    Announce,
}

/// The body of `POST /v1/avatar/converse`.
#[derive(Debug)]
pub struct ConverseBody {
    pub avatar_id: String,
    pub message: Json,
    pub kind: ConverseKind,
    pub hop: u32,
}

/// The answer to an accepted message.
#[derive(Debug)]
pub struct ConverseResponse {
    pub message_id: String,
    pub accepted: bool,
    pub response: Option<Json>,
}

/// Tells whether a name says anything.
pub fn is_given(name: &str) -> (r: bool)
    ensures
        r == !text::blank(name@),
{
    !is_blank(name)
}

/// Tells whether a payload is there: null is none.
pub fn has_payload(value: &Json) -> (r: bool)
    ensures
        r == !(value@ is Null),
{
    match value {
        Json::Null => false,
        _ => true,
    }
}

/// The integer under a key of a TOML document, as the `toml` crate reads it; none
/// where the text is no document or holds no integer there.
pub uninterp spec fn toml_integer_of(raw: Seq<char>, key: Seq<char>) -> Option<i64>;

/// `str::parse::<toml::Table>`, `toml::Table::get` and `toml::Value::as_integer`:
/// the integer is a function of the text and the key. Which text holds which
/// integer is not said here.
#[verifier::external_body]
fn toml_integer(raw: &str, key: &str) -> (r: Option<i64>)
    ensures
        r == toml_integer_of(raw@, key@),
{
    raw.parse::<toml::Table>().ok().and_then(|t| t.get(key).and_then(|v| v.as_integer()))
}

/// The bound that a binding sets: the default where it sets none that fits.
pub open spec fn hops_of(setting: Option<i64>) -> u32 {
    match setting {
        Some(n) => if 0 <= n <= u32::MAX {
            n as u32
        } else {
            DEFAULT_MAX_CONVERSE_HOPS
        },
        None => DEFAULT_MAX_CONVERSE_HOPS,
    }
}

/// The bound that a setting stands for.
pub fn max_hops_of(setting: Option<i64>) -> (r: u32)
    ensures
        r == hops_of(setting),
{
    match setting {
        Some(n) => if 0 <= n && n <= u32::MAX as i64 {
            n as u32
        } else {
            DEFAULT_MAX_CONVERSE_HOPS
        },
        None => DEFAULT_MAX_CONVERSE_HOPS,
    }
}

/// The bound that the text of a binding sets. Where the binding cannot be read,
/// is no document or sets none that fits, the default holds: a broken binding
/// neither lifts the bound nor refuses the message.
pub fn binding_max_hops(raw: Option<&str>) -> (r: u32)
    ensures
        r == match raw {
            Some(text) => hops_of(toml_integer_of(text@, "max_hops"@)),
            None => DEFAULT_MAX_CONVERSE_HOPS,
        },
{
    match raw {
        Some(text) => max_hops_of(toml_integer(text, "max_hops")),
        None => DEFAULT_MAX_CONVERSE_HOPS,
    }
}

/// A message may be relayed: a request only below the bound; an announcement
/// waits for nobody and always may.
pub open spec fn may_relay(kind: ConverseKind, hop: u32, max_hops: u32) -> bool {
    kind == ConverseKind::Request ==> hop < max_hops
}

/// Tells whether a message may be relayed.
pub fn hops_within_bound(kind: ConverseKind, hop: u32, max_hops: u32) -> (r: bool)
    ensures
        r == may_relay(kind, hop, max_hops),
{
    match kind {
        ConverseKind::Request => hop < max_hops,
        ConverseKind::Announce => true,
    }
}

/// The binding that lets an avatar be spoken to.
pub fn binding_file(galaxies_root: &str, noyau: &str, avatar_id: &str) -> (r: String)
    ensures
        r@ == paths::joined(
            paths::joined(tenant::state_dir_of(galaxies_root@, noyau@), "bindings"@),
            avatar_id@ + ".toml"@,
        ),
{
    let state = tenant_paths(galaxies_root, noyau).state_dir;
    let dir = join(state.as_str(), "bindings");
    let name = concat(avatar_id, ".toml");
    join(dir.as_str(), name.as_str())
}

/// The answer to an accepted message: its id is that of the request.
pub fn accept_message(request_id: &str) -> (r: ConverseResponse)
    ensures
        r.message_id@ == "msg-"@ + request_id@,
        r.accepted,
        r.response is None,
{
    ConverseResponse { message_id: concat("msg-", request_id), accepted: true, response: None }
}

// ---------------------------------------------------------------------------
// Perceptions
// ---------------------------------------------------------------------------

/// The body of `POST /v1/avatar/perceive`.
#[derive(Debug)]
pub struct PerceiveBody {
    pub source: String,
    pub data: Json,
    pub integrity: String,
}

/// The answer to an accepted perception.
#[derive(Clone, Debug)]
pub struct PerceiveResponse {
    pub perception_id: String,
    pub accepted: bool,
}

/// The bytes that the integrity of a perception covers: those that a base64 text
/// stands for, and for any other payload its canonical serialisation.
pub open spec fn covered_bytes(data: JsonView, serialised: Seq<u8>) -> Seq<u8> {
    match data {
        JsonView::Text(s) => match digest::base64_bytes_of(s) {
            Some(bytes) => bytes,
            None => serialised,
        },
        _ => serialised,
    }
}

/// Tells whether the declared integrity is the hash of what it covers.
pub fn integrity_agrees(data: &Json, serialised: &Vec<u8>, integrity: &str) -> (r: bool)
    ensures
        r == (integrity@ == digest::blake3_hex_of(covered_bytes(data@, serialised@))),
{
    let decoded: Option<Vec<u8>> = match data {
        Json::Text(s) => base64_bytes(s.as_str()),
        _ => None,
    };
    let computed = match decoded {
        Some(bytes) => blake3_hex(bytes.as_slice()),
        None => blake3_hex(serialised.as_slice()),
    };
    same_text(computed.as_str(), integrity)
}

/// Whether the integrity declared for a payload, which is there as JSON text, is
/// the hash of what it covers; none where the text is no JSON.
pub open spec fn perception_verdict(data: Seq<u8>, integrity: Seq<char>) -> Option<bool> {
    match json::json_of(data) {
        Some(j) => Some(integrity == digest::blake3_hex_of(covered_bytes(j, json::canonical_of(data)->0))),
        None => None,
    }
}

/// Tells whether the integrity declared for a payload is the hash of what it
/// covers. The payload is there as JSON text; none where it is no JSON.
pub fn perception_agrees(data: &[u8], integrity: &str) -> (r: Option<bool>)
    ensures
        r == perception_verdict(data@, integrity@),
{
    match parse_json(data) {
        Some(j) => match canonical_bytes(data) {
            Some(serialised) => Some(integrity_agrees(&j, &serialised, integrity)),
            None => None,
        },
        None => None,
    }
}

pub open spec fn plain_char(c: char) -> char {
    if logs_stream::segment_char(c) {
        c
    } else {
        '_'
    }
}

/// A name with every character but letters, digits, `-`, `_` and `.` replaced.
pub open spec fn sanitised(name: Seq<char>) -> Seq<char> {
    Seq::new(name.len(), |i: int| plain_char(name[i]))
}

/// A name that can stand as a segment of a path.
pub fn sanitise_source_name(name: &str) -> (r: String)
    ensures
        r@ == sanitised(name@),
{
    let cs = chars_of(name);
    let mut out: String = String::new();
    let mut i: usize = 0;
    while i < cs.len()
        invariant
            i <= cs@.len(),
            cs@ == name@,
            out@.len() == i,
            forall|k: int| 0 <= k < i ==> #[trigger] out@[k] == plain_char(name@[k]),
        decreases cs@.len() - i,
    {
        let c = cs[i];
        if ascii_alphanumeric(c) || c == '-' || c == '_' || c == '.' {
            out.push(c);
        } else {
            out.push('_');
        }
        i += 1;
    }
    assert(out@ =~= sanitised(name@));
    out
}

/// The file that enables a source.
pub fn source_flag(galaxies_root: &str, noyau: &str, source: &str) -> (r: String)
    ensures
        r@ == paths::joined(
            paths::joined(paths::joined(tenant::state_dir_of(galaxies_root@, noyau@), "perception"@), "sources"@),
            sanitised(source@) + ".toml"@,
        ),
{
    let state = tenant_paths(galaxies_root, noyau).state_dir;
    let perception = join(state.as_str(), "perception");
    let sources = join(perception.as_str(), "sources");
    let plain = sanitise_source_name(source);
    let name = concat(plain.as_str(), ".toml");
    join(sources.as_str(), name.as_str())
}

/// The answer to an accepted perception: its id is that of the request.
pub fn accept_perception(request_id: &str) -> (r: PerceiveResponse)
    ensures
        r.perception_id@ == "prc-"@ + request_id@,
        r.accepted,
{
    PerceiveResponse { perception_id: concat("prc-", request_id), accepted: true }
}

// ---------------------------------------------------------------------------
// Instances
// ---------------------------------------------------------------------------

/// The file that an instance's events are appended to.
pub const INSTANCE_LEDGER: &'static str = "events.jsonl";

/// The body of `POST /v1/avatar/{instance_id}/incarnate`.
#[derive(Clone, Debug)]
pub struct IncarnateBody {
    pub pilote_id: String,
    pub tenant_id: String,
    pub juridiction: String,
}

/// The body of `POST /v1/avatar/{instance_id}/grant`.
#[derive(Clone, Debug)]
pub struct GrantBody {
    pub canal: String,
    pub target: String,
}

/// The directory of an instance.
pub open spec fn instance_dir_of(galaxies_root: Seq<char>, noyau: Seq<char>, instance_id: Seq<char>) -> Seq<char> {
    paths::joined(paths::joined(tenant::state_dir_of(galaxies_root, noyau), "instances"@), instance_id)
}

/// The directory of an instance.
pub fn instance_dir(galaxies_root: &str, noyau: &str, instance_id: &str) -> (r: String)
    ensures
        r@ == instance_dir_of(galaxies_root@, noyau@, instance_id@),
{
    let state = tenant_paths(galaxies_root, noyau).state_dir;
    let instances = join(state.as_str(), "instances");
    join(instances.as_str(), instance_id)
}

/// The document that a TOML text stands for, as `toml::from_str` reads it into a
/// `serde_json::Value`; none where the text is no TOML.
pub uninterp spec fn mould_of(raw: Seq<char>) -> Option<JsonView>;

/// `toml::from_str` into a `serde_json::Value`: the document is a function of the
/// text. Which text stands for which document is not said here.
#[verifier::external_body]
fn read_mould(raw: &str) -> (r: Option<serde_json::Value>)
    ensures
        match r {
            Some(v) => mould_of(raw@) == Some(json::value_holds(v)),
            None => mould_of(raw@) is None,
        },
{
    toml::from_str::<serde_json::Value>(raw).ok()
}

/// The configuration of a mould, by its file: null where there is no file, or one
/// that is no TOML. A file that cannot be read counts as an empty one.
pub open spec fn mould_view(file_exists: bool, text: Option<Seq<char>>) -> JsonView {
    let raw = match text {
        Some(t) => t,
        None => Seq::empty(),
    };
    match mould_of(raw) {
        Some(j) => if file_exists {
            j
        } else {
            JsonView::Null
        },
        None => JsonView::Null,
    }
}

/// The configuration of a mould, by its file.
pub fn mould_config(file_exists: bool, text: Option<&str>) -> (r: Json)
    ensures
        r@ == mould_view(file_exists, crate::routes::view_of(text)),
{
    if !file_exists {
        return Json::Null;
    }
    let raw: &str = match text {
        Some(t) => t,
        None => "",
    };
    proof {
        reveal_strlit("");
        assert(""@ =~= Seq::<char>::empty());
    }
    match read_mould(raw) {
        Some(v) => document(v),
        None => Json::Null,
    }
}

/// The ledger of an instance.
pub fn ledger_file(galaxies_root: &str, noyau: &str, instance_id: &str) -> (r: String)
    ensures
        r@ == paths::joined(instance_dir_of(galaxies_root@, noyau@, instance_id@), "events.jsonl"@),
{
    let dir = instance_dir(galaxies_root, noyau, instance_id);
    join(dir.as_str(), INSTANCE_LEDGER)
}

/// The canals that can be granted.
pub open spec fn known_canal(canal: Seq<char>) -> bool {
    canal == "b"@ || canal == "c"@ || canal == "d"@
}

/// Tells whether the canal can be granted.
pub fn is_known_canal(canal: &str) -> (r: bool)
    ensures
        r == known_canal(canal@),
{
    same_text(canal, "b") || same_text(canal, "c") || same_text(canal, "d")
}

/// The name of the file that records a grant.
pub fn grant_file_name(canal: &str, target: &str) -> (r: String)
    ensures
        r@ == "canal-"@ + canal@ + "-"@ + sanitised(target@) + ".toml"@,
{
    let head = concat3("canal-", canal, "-");
    let plain = sanitise_source_name(target);
    concat3(head.as_str(), plain.as_str(), ".toml")
}

/// The text that records a grant.
pub fn grant_text(canal: &str, target: &str, granted_at: &str) -> (r: String)
    ensures
        r@ == "canal = \""@ + canal@ + "\"\ntarget = \""@ + target@ + "\"\ngranted_at = \""@ + granted_at@ + "\"\n"@,
{
    let mut out: String = "canal = \"".to_owned();
    out.push_str(canal);
    out.push_str("\"\ntarget = \"");
    out.push_str(target);
    out.push_str("\"\ngranted_at = \"");
    out.push_str(granted_at);
    out.push_str("\"\n");
    out
}

/// Where the first line of a byte string ends: at its first newline, or at its
/// end.
pub open spec fn line_end(s: Seq<u8>) -> int
    decreases s.len(),
{
    if s.len() == 0 || s[0] == 10 {
        0
    } else {
        1 + line_end(s.skip(1))
    }
}

/// The documents of a ledger, in order: one for each line that holds one.
pub open spec fn documents_of(s: Seq<u8>) -> Seq<JsonView>
    decreases s.len(),
{
    if s.len() == 0 {
        Seq::empty()
    } else {
        let n = line_end(s);
        let head = match json::json_of(s.take(n)) {
            Some(doc) => if n > 0 {
                seq![doc]
            } else {
                Seq::empty()
            },
            None => Seq::empty(),
        };
        if 0 <= n < s.len() {
            head + documents_of(s.skip(n + 1))
        } else {
            head
        }
    }
}

proof fn lemma_line_end(s: Seq<u8>, n: int)
    requires
        0 <= n <= s.len(),
        forall|k: int| 0 <= k < n ==> s[k] != 10,
        n < s.len() ==> s[n] == 10,
    ensures
        line_end(s) == n,
    decreases s.len(),
{
    if n > 0 {
        let t = s.skip(1);
        assert forall|k: int| 0 <= k < n - 1 implies t[k] != 10 by {
            assert(s[k + 1] != 10);
        }
        lemma_line_end(t, n - 1);
    }
}

fn bytes_between(raw: &Vec<u8>, from: usize, to: usize) -> (r: Vec<u8>)
    requires
        from <= to <= raw@.len(),
    ensures
        r@ == raw@.subrange(from as int, to as int),
{
    let mut out: Vec<u8> = Vec::new();
    let mut i: usize = from;
    while i < to
        invariant
            from <= i <= to <= raw@.len(),
            out@ == raw@.subrange(from as int, i as int),
        decreases to - i,
    {
        out.push(raw[i]);
        assert(raw@.subrange(from as int, i + 1) =~= raw@.subrange(from as int, i as int).push(raw@[i as int]));
        i += 1;
    }
    out
}

/// The documents of a ledger, in order. Lines that hold none are left out.
pub fn ledger_documents(raw: &Vec<u8>) -> (r: Vec<Json>)
    ensures
        json::views_of(r@) == documents_of(raw@),
{
    let mut out: Vec<Json> = Vec::new();
    let mut from: usize = 0;
    let count: usize = raw.len();
    assert(raw@.skip(0) =~= raw@);
    assert(json::views_of(out@) + documents_of(raw@) =~= documents_of(raw@));
    while from < count
        invariant
            count == raw@.len(),
            from <= count,
            json::views_of(out@) + documents_of(raw@.skip(from as int)) == documents_of(raw@),
        decreases count - from,
    {
        let ghost rest = raw@.skip(from as int);
        let ghost before = json::views_of(out@);
        let mut to: usize = from;
        while to < count && raw[to] != 10
            invariant
                count == raw@.len(),
                from <= to <= count,
                forall|k: int| from <= k < to ==> raw@[k] != 10,
            decreases count - to,
        {
            to += 1;
        }
        proof {
            lemma_line_end(rest, to - from);
        }
        let line = bytes_between(raw, from, to);
        assert(line@ =~= rest.take(to - from));
        if line.len() > 0 {
            match parse_json(line.as_slice()) {
                Some(doc) => {
                    out.push(doc);
                    assert(json::views_of(out@) =~= before.push(doc@));
                    assert(before.push(doc@) =~= before + seq![doc@]);
                },
                None => {},
            }
        }
        if to < count {
            proof {
                assert(rest.skip(to - from + 1) =~= raw@.skip(to + 1));
                assert(json::views_of(out@) + documents_of(raw@.skip(to + 1)) =~= before + documents_of(rest));
            }
            from = to + 1;
        } else {
            proof {
                assert(json::views_of(out@) =~= before + documents_of(rest));
                assert(raw@.skip(count as int) =~= Seq::<u8>::empty());
                assert(json::views_of(out@) + documents_of(raw@.skip(count as int)) =~= json::views_of(out@));
            }
            from = count;
        }
    }
    proof {
        assert(raw@.skip(count as int) =~= Seq::<u8>::empty());
        assert(json::views_of(out@) + documents_of(raw@.skip(count as int)) =~= json::views_of(out@));
    }
    out
}

// ---------------------------------------------------------------------------
// The answers
// ---------------------------------------------------------------------------

/// Who has taken an instance, as its ledger tells.
#[derive(Clone, Debug)]
pub struct Bound {
    pub cicatrice: String,
    pub pilote_id: String,
    pub juridiction: String,
    pub tenant_id: String,
    pub incarnated_at: String,
}

/// An answer: the id of the request, and what was asked for under its name.
pub open spec fn answer_view(request_id: Seq<char>, name: Seq<char>, body: JsonView) -> JsonView {
    JsonView::Object(seq![json::text_field("request_id"@, request_id), (name, body)])
}

fn answer(request_id: &str, name: &str, body: Json) -> (r: Json)
    ensures
        r@ == answer_view(request_id@, name@, body@),
{
    let r = Json::object().field("request_id", Json::text(request_id)).field(name, body);
    assert(r@->Object_0 =~= answer_view(request_id@, name@, body@)->Object_0);
    r
}

/// What an accepted message is answered; a response is there where there is one.
pub open spec fn converse_view(accepted: ConverseResponse) -> JsonView {
    let fields = seq![json::text_field("message_id"@, accepted.message_id@), ("accepted"@, JsonView::Bool(accepted.accepted))];
    match accepted.response {
        Some(doc) => JsonView::Object(fields.push(("response"@, doc@))),
        None => JsonView::Object(fields),
    }
}

/// The answer to a conversation.
pub fn converse_reply(request_id: &str, accepted: ConverseResponse) -> (r: Json)
    ensures
        r@ == answer_view(request_id@, "converse"@, converse_view(accepted)),
{
    let body = Json::object().field("message_id", Json::text(accepted.message_id.as_str())).field(
        "accepted",
        Json::Bool(accepted.accepted),
    );
    let body = match accepted.response {
        Some(doc) => body.field("response", doc),
        None => body,
    };
    assert(body@->Object_0 =~= converse_view(accepted)->Object_0);
    answer(request_id, "converse", body)
}

/// What an accepted perception is answered.
pub open spec fn perceive_view(accepted: PerceiveResponse) -> JsonView {
    JsonView::Object(
        seq![json::text_field("perception_id"@, accepted.perception_id@), ("accepted"@, JsonView::Bool(accepted.accepted))],
    )
}

/// The answer to a perception.
pub fn perceive_reply(request_id: &str, accepted: &PerceiveResponse) -> (r: Json)
    ensures
        r@ == answer_view(request_id@, "perceive"@, perceive_view(*accepted)),
{
    let body = Json::object().field("perception_id", Json::text(accepted.perception_id.as_str())).field(
        "accepted",
        Json::Bool(accepted.accepted),
    );
    assert(body@->Object_0 =~= perceive_view(*accepted)->Object_0);
    answer(request_id, "perceive", body)
}

/// The state of an instance: a mould until it is taken, and then an avatar, with
/// who has taken it.
pub open spec fn status_view(instance_id: Seq<char>, bound: Option<&Bound>) -> JsonView {
    match bound {
        Some(b) => JsonView::Object(
            seq![
                json::text_field("state"@, "avatar"@),
                json::text_field("instance_id"@, instance_id),
                json::text_field("cicatrice"@, b.cicatrice@),
                json::text_field("pilote_id"@, b.pilote_id@),
                json::text_field("juridiction"@, b.juridiction@),
                json::text_field("tenant_id"@, b.tenant_id@),
                json::text_field("incarnated_at"@, b.incarnated_at@),
            ],
        ),
        None => JsonView::Object(seq![json::text_field("state"@, "mould"@), json::text_field("instance_id"@, instance_id)]),
    }
}

/// The answer to a look at an instance.
pub fn status_reply(request_id: &str, instance_id: &str, bound: Option<&Bound>) -> (r: Json)
    ensures
        r@ == answer_view(request_id@, "avatar_status"@, status_view(instance_id@, bound)),
{
    let body = match bound {
        Some(b) => Json::object().field("state", Json::text("avatar")).field("instance_id", Json::text(instance_id)).field(
            "cicatrice",
            Json::text(b.cicatrice.as_str()),
        ).field("pilote_id", Json::text(b.pilote_id.as_str())).field(
            "juridiction",
            Json::text(b.juridiction.as_str()),
        ).field("tenant_id", Json::text(b.tenant_id.as_str())).field(
            "incarnated_at",
            Json::text(b.incarnated_at.as_str()),
        ),
        None => Json::object().field("state", Json::text("mould")).field("instance_id", Json::text(instance_id)),
    };
    assert(body@->Object_0 =~= status_view(instance_id@, bound)->Object_0);
    answer(request_id, "avatar_status", body)
}

/// What an incarnation is answered: who took the instance, and under which mark.
pub open spec fn incarnate_view(
    instance_id: Seq<char>,
    asked: IncarnateBody,
    cicatrice: Seq<char>,
    incarnated_at: Seq<char>,
) -> JsonView {
    JsonView::Object(
        seq![
            json::text_field("instance_id"@, instance_id),
            json::text_field("cicatrice"@, cicatrice),
            json::text_field("pilote_id"@, asked.pilote_id@),
            json::text_field("juridiction"@, asked.juridiction@),
            json::text_field("tenant_id"@, asked.tenant_id@),
            json::text_field("incarnated_at"@, incarnated_at),
        ],
    )
}

/// The answer to an incarnation: who took the instance, and under which mark.
pub fn incarnate_reply(
    request_id: &str,
    instance_id: &str,
    asked: &IncarnateBody,
    cicatrice: &str,
    incarnated_at: &str,
) -> (r: Json)
    ensures
        r@ == answer_view(request_id@, "incarnate"@, incarnate_view(instance_id@, *asked, cicatrice@, incarnated_at@)),
{
    let body = Json::object().field("instance_id", Json::text(instance_id)).field(
        "cicatrice",
        Json::text(cicatrice),
    ).field("pilote_id", Json::text(asked.pilote_id.as_str())).field(
        "juridiction",
        Json::text(asked.juridiction.as_str()),
    ).field("tenant_id", Json::text(asked.tenant_id.as_str())).field("incarnated_at", Json::text(incarnated_at));
    assert(body@->Object_0 =~= incarnate_view(instance_id@, *asked, cicatrice@, incarnated_at@)->Object_0);
    answer(request_id, "incarnate", body)
}

/// What a grant is answered.
pub open spec fn grant_view(instance_id: Seq<char>, asked: GrantBody) -> JsonView {
    JsonView::Object(
        seq![
            json::text_field("instance_id"@, instance_id),
            json::text_field("canal"@, asked.canal@),
            json::text_field("target"@, asked.target@),
            ("granted"@, JsonView::Bool(true)),
        ],
    )
}

/// The answer to a grant.
pub fn grant_reply(request_id: &str, instance_id: &str, asked: &GrantBody) -> (r: Json)
    ensures
        r@ == answer_view(request_id@, "grant"@, grant_view(instance_id@, *asked)),
{
    let body = Json::object().field("instance_id", Json::text(instance_id)).field(
        "canal",
        Json::text(asked.canal.as_str()),
    ).field("target", Json::text(asked.target.as_str())).field("granted", Json::Bool(true));
    assert(body@->Object_0 =~= grant_view(instance_id@, *asked)->Object_0);
    answer(request_id, "grant", body)
}

/// Who has taken an instance, and when.
pub open spec fn incarnation_view(b: Bound) -> JsonView {
    JsonView::Object(
        seq![
            json::text_field("pilote_id"@, b.pilote_id@),
            json::text_field("juridiction"@, b.juridiction@),
            json::text_field("tenant_id"@, b.tenant_id@),
            json::text_field("ts"@, b.incarnated_at@),
        ],
    )
}

/// What an instance has been through: every event of its ledger, in order, and
/// who has taken it, where it is taken.
pub open spec fn audit_view(instance_id: Seq<char>, bound: Option<&Bound>, ledger: Seq<u8>) -> JsonView {
    let events = ("events"@, JsonView::Array(documents_of(ledger)));
    match bound {
        Some(b) => JsonView::Object(
            seq![
                json::text_field("instance_id"@, instance_id),
                json::text_field("state"@, "avatar"@),
                json::text_field("cicatrice"@, b.cicatrice@),
                ("incarnation"@, incarnation_view(*b)),
                events,
            ],
        ),
        None => JsonView::Object(
            seq![json::text_field("instance_id"@, instance_id), json::text_field("state"@, "mould"@), events],
        ),
    }
}

/// The answer to an audit of an instance, by its ledger.
pub fn audit_reply(request_id: &str, instance_id: &str, bound: Option<&Bound>, ledger: &Vec<u8>) -> (r: Json)
    ensures
        r@ == answer_view(request_id@, "audit"@, audit_view(instance_id@, bound, ledger@)),
{
    let events = Json::array(ledger_documents(ledger));
    let body = match bound {
        Some(b) => {
            let incarnation = Json::object().field("pilote_id", Json::text(b.pilote_id.as_str())).field(
                "juridiction",
                Json::text(b.juridiction.as_str()),
            ).field("tenant_id", Json::text(b.tenant_id.as_str())).field("ts", Json::text(b.incarnated_at.as_str()));
            assert(incarnation@->Object_0 =~= incarnation_view(*b)->Object_0);
            Json::object().field("instance_id", Json::text(instance_id)).field("state", Json::text("avatar")).field(
                "cicatrice",
                Json::text(b.cicatrice.as_str()),
            ).field("incarnation", incarnation).field("events", events)
        },
        None => Json::object().field("instance_id", Json::text(instance_id)).field("state", Json::text("mould")).field(
            "events",
            events,
        ),
    };
    assert(body@->Object_0 =~= audit_view(instance_id@, bound, ledger@)->Object_0);
    answer(request_id, "audit", body)
}

/// What is said of a mould: its configuration, and that it can be taken.
pub open spec fn mould_info_view(instance_id: Seq<char>, file_exists: bool, text: Option<Seq<char>>) -> JsonView {
    JsonView::Object(
        seq![
            json::text_field("instance_id"@, instance_id),
            json::text_field("state"@, "mould"@),
            ("config"@, mould_view(file_exists, text)),
            ("ready_for_incarnation"@, JsonView::Bool(true)),
        ],
    )
}

/// The answer to a look at a mould, by its configuration file.
pub fn mould_reply(request_id: &str, instance_id: &str, file_exists: bool, text: Option<&str>) -> (r: Json)
    ensures
        r@ == answer_view(request_id@, "mould_info"@, mould_info_view(instance_id@, file_exists, crate::routes::view_of(text))),
{
    let body = Json::object().field("instance_id", Json::text(instance_id)).field("state", Json::text("mould")).field(
        "config",
        mould_config(file_exists, text),
    ).field("ready_for_incarnation", Json::Bool(true));
    assert(body@->Object_0 =~= mould_info_view(instance_id@, file_exists, crate::routes::view_of(text))->Object_0);
    answer(request_id, "mould_info", body)
}

// ---------------------------------------------------------------------------
// The plans
// ---------------------------------------------------------------------------

pub open spec fn converse_plan() -> Seq<Stage> {
    seq![
        Stage::Bearer { metered: false },
        Stage::Token { metered: false },
        Stage::Scope { act: "converse_avatar", rule: ScopeRule::PiloteConverse },
        early_check(Fact::JsonBody, 400, "invalid_json_body"),
        early_check(Fact::AvatarIdGiven, 400, "missing_avatar_id"),
        early_check(Fact::MessageGiven, 400, "missing_message"),
        Stage::Admit { verb: Verb::ConverseAvatar, targeted: false, metered: false },
        check(Fact::TenantRootExists, 503, "tenant_unavailable"),
        check(Fact::BindingExists, 503, "no_binding"),
        check(Fact::HopsWithinBound, 409, "max_hops_exceeded"),
        Stage::Answer { status: 200 },
    ]
}

/// The plan of `POST /v1/avatar/converse`.
pub fn converse() -> (r: Vec<Stage>)
    ensures
        r@ == converse_plan(),
{
    vec![
        Stage::Bearer { metered: false },
        Stage::Token { metered: false },
        Stage::Scope { act: "converse_avatar", rule: ScopeRule::PiloteConverse },
        early_check(Fact::JsonBody, 400, "invalid_json_body"),
        early_check(Fact::AvatarIdGiven, 400, "missing_avatar_id"),
        early_check(Fact::MessageGiven, 400, "missing_message"),
        Stage::Admit { verb: Verb::ConverseAvatar, targeted: false, metered: false },
        check(Fact::TenantRootExists, 503, "tenant_unavailable"),
        check(Fact::BindingExists, 503, "no_binding"),
        check(Fact::HopsWithinBound, 409, "max_hops_exceeded"),
        Stage::Answer { status: 200 },
    ]
}

pub open spec fn perceive_plan() -> Seq<Stage> {
    seq![
        Stage::Bearer { metered: false },
        Stage::Token { metered: false },
        Stage::Scope { act: "perceive_avatar", rule: ScopeRule::WorldObserve },
        early_check(Fact::JsonBody, 400, "invalid_json_body"),
        early_check(Fact::SourceGiven, 400, "missing_source"),
        early_check(Fact::DataGiven, 400, "missing_data"),
        early_check(Fact::IntegrityGiven, 400, "missing_integrity"),
        early_check(Fact::IntegrityAgrees, 400, "integrity_mismatch"),
        Stage::Admit { verb: Verb::PerceiveAvatar, targeted: false, metered: false },
        check(Fact::TenantRootExists, 503, "tenant_unavailable"),
        check(Fact::SourceEnabled, 503, "source_not_enabled"),
        Stage::Answer { status: 200 },
    ]
}

/// The plan of `POST /v1/avatar/perceive`.
pub fn perceive() -> (r: Vec<Stage>)
    ensures
        r@ == perceive_plan(),
{
    vec![
        Stage::Bearer { metered: false },
        Stage::Token { metered: false },
        Stage::Scope { act: "perceive_avatar", rule: ScopeRule::WorldObserve },
        early_check(Fact::JsonBody, 400, "invalid_json_body"),
        early_check(Fact::SourceGiven, 400, "missing_source"),
        early_check(Fact::DataGiven, 400, "missing_data"),
        early_check(Fact::IntegrityGiven, 400, "missing_integrity"),
        early_check(Fact::IntegrityAgrees, 400, "integrity_mismatch"),
        Stage::Admit { verb: Verb::PerceiveAvatar, targeted: false, metered: false },
        check(Fact::TenantRootExists, 503, "tenant_unavailable"),
        check(Fact::SourceEnabled, 503, "source_not_enabled"),
        Stage::Answer { status: 200 },
    ]
}

pub open spec fn avatar_status_plan() -> Seq<Stage> {
    seq![
        Stage::Bearer { metered: false },
        Stage::Token { metered: false },
        Stage::Scope { act: "avatar_status", rule: ScopeRule::WorldObserve },
        Stage::Admit { verb: Verb::PerceiveAvatar, targeted: false, metered: false },
        Stage::Perform { effect: Effect::ReadLedger },
        Stage::Answer { status: 200 },
    ]
}

/// The plan of `GET /v1/avatar/{instance_id}/status`.
pub fn avatar_status() -> (r: Vec<Stage>)
    ensures
        r@ == avatar_status_plan(),
{
    vec![
        Stage::Bearer { metered: false },
        Stage::Token { metered: false },
        Stage::Scope { act: "avatar_status", rule: ScopeRule::WorldObserve },
        Stage::Admit { verb: Verb::PerceiveAvatar, targeted: false, metered: false },
        Stage::Perform { effect: Effect::ReadLedger },
        Stage::Answer { status: 200 },
    ]
}

pub open spec fn avatar_incarnate_plan() -> Seq<Stage> {
    seq![
        Stage::Bearer { metered: false },
        Stage::Token { metered: false },
        Stage::Scope { act: "avatar_incarnate", rule: ScopeRule::PiloteConverse },
        Stage::Admit { verb: Verb::ConverseAvatar, targeted: false, metered: false },
        early_check(Fact::JsonBody, 400, "invalid_json_body"),
        check(Fact::NotIncarnated, 409, "already_incarnated"),
        check(Fact::PiloteIdValid, 400, "invalid_pilote_id"),
        check(Fact::JurisdictionValid, 400, "invalid_juridiction"),
        check(Fact::TenantIdValid, 400, "invalid_tenant_id"),
        check(Fact::InstanceIdValid, 400, "invalid_instance_id"),
        check(Fact::EventWritable, 500, "serialization_error"),
        check(Fact::DirectoryMade, 500, "io_error"),
        check(Fact::LedgerOpened, 500, "io_error"),
        check(Fact::EventAppended, 500, "io_error"),
        Stage::Answer { status: 200 },
    ]
}

/// The plan of `POST /v1/avatar/{instance_id}/incarnate`.
pub fn avatar_incarnate() -> (r: Vec<Stage>)
    ensures
        r@ == avatar_incarnate_plan(),
{
    vec![
        Stage::Bearer { metered: false },
        Stage::Token { metered: false },
        Stage::Scope { act: "avatar_incarnate", rule: ScopeRule::PiloteConverse },
        Stage::Admit { verb: Verb::ConverseAvatar, targeted: false, metered: false },
        early_check(Fact::JsonBody, 400, "invalid_json_body"),
        check(Fact::NotIncarnated, 409, "already_incarnated"),
        check(Fact::PiloteIdValid, 400, "invalid_pilote_id"),
        check(Fact::JurisdictionValid, 400, "invalid_juridiction"),
        check(Fact::TenantIdValid, 400, "invalid_tenant_id"),
        check(Fact::InstanceIdValid, 400, "invalid_instance_id"),
        check(Fact::EventWritable, 500, "serialization_error"),
        check(Fact::DirectoryMade, 500, "io_error"),
        check(Fact::LedgerOpened, 500, "io_error"),
        check(Fact::EventAppended, 500, "io_error"),
        Stage::Answer { status: 200 },
    ]
}

pub open spec fn avatar_grant_plan() -> Seq<Stage> {
    seq![
        Stage::Bearer { metered: false },
        Stage::Token { metered: false },
        Stage::Scope { act: "avatar_grant", rule: ScopeRule::PiloteConverse },
        Stage::Admit { verb: Verb::ConverseAvatar, targeted: false, metered: false },
        early_check(Fact::JsonBody, 400, "invalid_json_body"),
        check(Fact::CanalKnown, 400, "invalid_canal"),
        check(Fact::InstanceExists, 404, "instance_not_found"),
        check(Fact::Incarnated, 409, "not_incarnated"),
        check(Fact::DirectoryMade, 500, "io_error"),
        check(Fact::FileWritten, 500, "io_error"),
        Stage::Answer { status: 200 },
    ]
}

/// The plan of `POST /v1/avatar/{instance_id}/grant`.
pub fn avatar_grant() -> (r: Vec<Stage>)
    ensures
        r@ == avatar_grant_plan(),
{
    vec![
        Stage::Bearer { metered: false },
        Stage::Token { metered: false },
        Stage::Scope { act: "avatar_grant", rule: ScopeRule::PiloteConverse },
        Stage::Admit { verb: Verb::ConverseAvatar, targeted: false, metered: false },
        early_check(Fact::JsonBody, 400, "invalid_json_body"),
        check(Fact::CanalKnown, 400, "invalid_canal"),
        check(Fact::InstanceExists, 404, "instance_not_found"),
        check(Fact::Incarnated, 409, "not_incarnated"),
        check(Fact::DirectoryMade, 500, "io_error"),
        check(Fact::FileWritten, 500, "io_error"),
        Stage::Answer { status: 200 },
    ]
}

pub open spec fn avatar_audit_plan() -> Seq<Stage> {
    seq![
        Stage::Bearer { metered: false },
        Stage::Token { metered: false },
        Stage::Scope { act: "avatar_audit", rule: ScopeRule::WorldObserve },
        Stage::Admit { verb: Verb::PerceiveAvatar, targeted: false, metered: false },
        check(Fact::InstanceExists, 404, "instance_not_found"),
        Stage::Perform { effect: Effect::ReadLedger },
        Stage::Answer { status: 200 },
    ]
}

/// The plan of `GET /v1/avatar/{instance_id}/audit`.
pub fn avatar_audit() -> (r: Vec<Stage>)
    ensures
        r@ == avatar_audit_plan(),
{
    vec![
        Stage::Bearer { metered: false },
        Stage::Token { metered: false },
        Stage::Scope { act: "avatar_audit", rule: ScopeRule::WorldObserve },
        Stage::Admit { verb: Verb::PerceiveAvatar, targeted: false, metered: false },
        check(Fact::InstanceExists, 404, "instance_not_found"),
        Stage::Perform { effect: Effect::ReadLedger },
        Stage::Answer { status: 200 },
    ]
}

pub open spec fn avatar_mould_info_plan() -> Seq<Stage> {
    seq![
        Stage::Bearer { metered: false },
        Stage::Token { metered: false },
        Stage::Scope { act: "avatar_mould_info", rule: ScopeRule::WorldObserve },
        Stage::Admit { verb: Verb::PerceiveAvatar, targeted: false, metered: false },
        check(Fact::NotIncarnated, 409, "already_incarnated"),
        Stage::Answer { status: 200 },
    ]
}

/// The plan of `GET /v1/avatar/{instance_id}/mould-info`.
pub fn avatar_mould_info() -> (r: Vec<Stage>)
    ensures
        r@ == avatar_mould_info_plan(),
{
    vec![
        Stage::Bearer { metered: false },
        Stage::Token { metered: false },
        Stage::Scope { act: "avatar_mould_info", rule: ScopeRule::WorldObserve },
        Stage::Admit { verb: Verb::PerceiveAvatar, targeted: false, metered: false },
        check(Fact::NotIncarnated, 409, "already_incarnated"),
        Stage::Answer { status: 200 },
    ]
}

// ---------------------------------------------------------------------------
// Laws
// ---------------------------------------------------------------------------

/// A chain of relayed requests ends, whatever the bindings say: where every relay
/// is further than the one before, no more of them pass than the bound that the
/// binding sets.
pub proof fn law_request_chains_end(chain: Seq<u32>, setting: Option<i64>)
    requires
        forall|i: int| 0 <= i < chain.len() ==> may_relay(ConverseKind::Request, #[trigger] chain[i], hops_of(setting)),
        forall|i: int, j: int| 0 <= i < j < chain.len() ==> #[trigger] chain[i] < #[trigger] chain[j],
    ensures
        chain.len() <= hops_of(setting),
{
    if chain.len() > 0 {
        lemma_chain_climbs(chain, chain.len() - 1);
        assert(may_relay(ConverseKind::Request, chain[chain.len() - 1], hops_of(setting)));
    }
}

proof fn lemma_chain_climbs(chain: Seq<u32>, i: int)
    requires
        0 <= i < chain.len(),
        forall|i: int, j: int| 0 <= i < j < chain.len() ==> #[trigger] chain[i] < #[trigger] chain[j],
    ensures
        chain[i] >= i,
    decreases i,
{
    if i > 0 {
        lemma_chain_climbs(chain, i - 1);
        assert(chain[i - 1] < chain[i]);
    }
}

/// A sanitised name has no separators, and sanitising it again changes nothing.
pub proof fn law_sanitised_names_are_plain(name: Seq<char>)
    ensures
        !sanitised(name).contains('/'),
        !sanitised(name).contains('\\'),
        sanitised(sanitised(name)) == sanitised(name),
        sanitised(name).len() == name.len(),
{
    assert(sanitised(sanitised(name)) =~= sanitised(name));
}

/// A binding bounds the relays where it sets a number that can be one, and otherwise
/// eight is the bound; a request stops at it, and an announcement never does.
pub proof fn law_relays(n: i64, hop: u32, max_hops: u32)
    ensures
        hops_of(None) == 8,
        0 <= n <= 4_294_967_295 ==> hops_of(Some(n)) == n,
        n < 0 || n > 4_294_967_295 ==> hops_of(Some(n)) == 8,
        may_relay(ConverseKind::Request, hop, max_hops) == (hop < max_hops),
        may_relay(ConverseKind::Announce, hop, max_hops),
{
}

/// The integrity of a perception covers the bytes that a base64 text stands for, and
/// of anything else the document as it is written out.
pub proof fn law_covered_bytes(bytes: Seq<u8>, data: JsonView, serialised: Seq<u8>)
    ensures
        covered_bytes(JsonView::Text(digest::base64_of(bytes)), serialised) == bytes,
        !(data is Text) ==> covered_bytes(data, serialised) == serialised,
        data matches JsonView::Text(s) ==> (digest::base64_bytes_of(s) is None ==> covered_bytes(data, serialised)
            == serialised),
{
    digest::law_base64_reads_back(bytes);
}

/// A perception is judged by whether what was declared is the digest of what it covers.
pub proof fn law_perceptions_are_judged(data: Seq<u8>, integrity: Seq<char>)
    ensures
        json::json_of(data) is None ==> perception_verdict(data, integrity) is None,
        json::json_of(data) matches Some(j) ==> perception_verdict(data, integrity) == Some(
            integrity == digest::blake3_hex_of(covered_bytes(j, json::canonical_of(data)->0)),
        ),
{
}

/// A name is made plain character by character: what may stand in a file name stays,
/// and anything else becomes an underscore.
pub proof fn law_plain_names(name: Seq<char>, i: int)
    requires
        0 <= i < name.len(),
    ensures
        sanitised(name).len() == name.len(),
        ({
            let c = name[i];
            if '0' <= c <= '9' || 'a' <= c <= 'z' || 'A' <= c <= 'Z' || c == '-' || c == '_' || c == '.' {
                sanitised(name)[i] == c
            } else {
                sanitised(name)[i] == '_'
            }
        }),
{
}

/// An instance lies below the state of its noyau, under its own name.
pub proof fn law_instances_lie_in_their_noyau(root: Seq<char>, noyau: Seq<char>, instance_id: Seq<char>)
    ensures
        instance_dir_of(root, noyau, instance_id) == paths::joined(
            paths::joined(tenant::state_dir_of(root, noyau), "instances"@),
            instance_id,
        ),
{
}

/// Three canals can be granted.
pub proof fn law_canals(canal: Seq<char>)
    ensures
        known_canal("b"@) && known_canal("c"@) && known_canal("d"@),
        known_canal(canal) ==> canal == "b"@ || canal == "c"@ || canal == "d"@,
{
}

/// A mould has the configuration that its file holds, and none where there is no file
/// or the file holds no TOML.
pub proof fn law_moulds(raw: Seq<char>)
    ensures
        mould_view(false, Some(raw)) == JsonView::Null,
        mould_view(false, None) == JsonView::Null,
        mould_of(raw) matches Some(j) ==> mould_view(true, Some(raw)) == j,
        mould_of(raw) is None ==> mould_view(true, Some(raw)) == JsonView::Null,
        mould_view(true, None) == mould_view(true, Some(Seq::empty())),
{
}

/// A ledger is read line by line: a line that holds a document gives it, and any other
/// gives nothing; the last line needs no newline.
pub proof fn law_ledgers_are_read_by_line(line: Seq<u8>, rest: Seq<u8>)
    requires
        !line.contains(10),
    ensures
        line.len() > 0 && json::json_of(line) is Some ==> documents_of(line + seq![10u8] + rest) == seq![
            json::json_of(line)->0,
        ] + documents_of(rest),
        line.len() == 0 || json::json_of(line) is None ==> documents_of(line + seq![10u8] + rest) == documents_of(rest),
        line.len() > 0 && json::json_of(line) is Some ==> documents_of(line) == seq![json::json_of(line)->0],
        line.len() == 0 || json::json_of(line) is None ==> documents_of(line).len() == 0,
{
    let s = line + seq![10u8] + rest;
    assert forall|k: int| 0 <= k < line.len() implies s[k] != 10 by {
        assert(line[k] == s[k]);
    }
    assert forall|k: int| 0 <= k < line.len() implies line[k] != 10 by {
        assert(line.contains(line[k]));
    }
    lemma_line_end(s, line.len() as int);
    lemma_line_end(line, line.len() as int);
    assert(s.take(line.len() as int) =~= line);
    assert(s.skip(line.len() as int + 1) =~= rest);
    assert(line.take(line.len() as int) =~= line);
    assert(Seq::<JsonView>::empty() + documents_of(rest) =~= documents_of(rest));
}

/// An answer carries the id of the request, and what was asked for under its name.
pub proof fn law_answers_name_their_request(request_id: Seq<char>, name: Seq<char>, body: JsonView)
    ensures
        ({
            let told = answer_view(request_id, name, body)->Object_0;
            &&& answer_view(request_id, name, body) is Object
            &&& told.len() == 2
            &&& told[0] == ("request_id"@, JsonView::Text(request_id))
            &&& told[1] == (name, body)
        }),
{
}

/// An instance that is taken is an avatar, told with who has taken it.
pub proof fn law_taken_instances_are_told(instance_id: Seq<char>, b: Bound)
    ensures
        ({
            let told = status_view(instance_id, Some(&b))->Object_0;
            &&& status_view(instance_id, Some(&b)) is Object
            &&& told.len() == 7
            &&& told[0] == ("state"@, JsonView::Text("avatar"@))
            &&& told[1] == ("instance_id"@, JsonView::Text(instance_id))
            &&& told[2] == ("cicatrice"@, JsonView::Text(b.cicatrice@))
            &&& told[3] == ("pilote_id"@, JsonView::Text(b.pilote_id@))
            &&& told[4] == ("juridiction"@, JsonView::Text(b.juridiction@))
            &&& told[5] == ("tenant_id"@, JsonView::Text(b.tenant_id@))
            &&& told[6] == ("incarnated_at"@, JsonView::Text(b.incarnated_at@))
        }),
{
}

/// An instance that is not taken is a mould, and nobody is told of.
pub proof fn law_free_instances_are_moulds(instance_id: Seq<char>)
    ensures
        ({
            let told = status_view(instance_id, None)->Object_0;
            &&& status_view(instance_id, None) is Object
            &&& told.len() == 2
            &&& told[0] == ("state"@, JsonView::Text("mould"@))
            &&& told[1] == ("instance_id"@, JsonView::Text(instance_id))
        }),
{
}

/// An incarnation is told with who asked for it, its mark and its time.
pub proof fn law_incarnations_are_told(instance_id: Seq<char>, asked: IncarnateBody, cicatrice: Seq<char>, at: Seq<char>)
    ensures
        ({
            let told = incarnate_view(instance_id, asked, cicatrice, at)->Object_0;
            &&& incarnate_view(instance_id, asked, cicatrice, at) is Object
            &&& told.len() == 6
            &&& told[0] == ("instance_id"@, JsonView::Text(instance_id))
            &&& told[1] == ("cicatrice"@, JsonView::Text(cicatrice))
            &&& told[2] == ("pilote_id"@, JsonView::Text(asked.pilote_id@))
            &&& told[3] == ("juridiction"@, JsonView::Text(asked.juridiction@))
            &&& told[4] == ("tenant_id"@, JsonView::Text(asked.tenant_id@))
            &&& told[5] == ("incarnated_at"@, JsonView::Text(at))
        }),
{
}

/// A grant is told with the canal and to whom.
pub proof fn law_grants_are_told(instance_id: Seq<char>, asked: GrantBody)
    ensures
        ({
            let told = grant_view(instance_id, asked)->Object_0;
            &&& grant_view(instance_id, asked) is Object
            &&& told.len() == 4
            &&& told[0] == ("instance_id"@, JsonView::Text(instance_id))
            &&& told[1] == ("canal"@, JsonView::Text(asked.canal@))
            &&& told[2] == ("target"@, JsonView::Text(asked.target@))
            &&& told[3] == ("granted"@, JsonView::Bool(true))
        }),
{
}

/// An audit of an avatar tells its mark, who took it and when, and every document of its ledger.
pub proof fn law_audits_of_avatars(instance_id: Seq<char>, b: Bound, ledger: Seq<u8>)
    ensures
        ({
            let told = audit_view(instance_id, Some(&b), ledger)->Object_0;
            &&& audit_view(instance_id, Some(&b), ledger) is Object
            &&& told.len() == 5
            &&& told[0] == ("instance_id"@, JsonView::Text(instance_id))
            &&& told[1] == ("state"@, JsonView::Text("avatar"@))
            &&& told[2] == ("cicatrice"@, JsonView::Text(b.cicatrice@))
            &&& told[3] == ("incarnation"@, incarnation_view(b))
            &&& told[4] == ("events"@, JsonView::Array(documents_of(ledger)))
            &&& incarnation_view(b) is Object
            &&& (incarnation_view(b)->Object_0).len() == 4
            &&& (incarnation_view(b)->Object_0)[0] == ("pilote_id"@, JsonView::Text(b.pilote_id@))
            &&& (incarnation_view(b)->Object_0)[1] == ("juridiction"@, JsonView::Text(b.juridiction@))
            &&& (incarnation_view(b)->Object_0)[2] == ("tenant_id"@, JsonView::Text(b.tenant_id@))
            &&& (incarnation_view(b)->Object_0)[3] == ("ts"@, JsonView::Text(b.incarnated_at@))
        }),
{
}

/// An audit of a mould tells every document of its ledger.
pub proof fn law_audits_of_moulds(instance_id: Seq<char>, ledger: Seq<u8>)
    ensures
        ({
            let told = audit_view(instance_id, None, ledger)->Object_0;
            &&& audit_view(instance_id, None, ledger) is Object
            &&& told.len() == 3
            &&& told[0] == ("instance_id"@, JsonView::Text(instance_id))
            &&& told[1] == ("state"@, JsonView::Text("mould"@))
            &&& told[2] == ("events"@, JsonView::Array(documents_of(ledger)))
        }),
{
}

/// A mould is told with its configuration, and as one that can be taken.
pub proof fn law_mould_infos(instance_id: Seq<char>, file_exists: bool, text: Option<Seq<char>>)
    ensures
        ({
            let told = mould_info_view(instance_id, file_exists, text)->Object_0;
            &&& mould_info_view(instance_id, file_exists, text) is Object
            &&& told.len() == 4
            &&& told[0] == ("instance_id"@, JsonView::Text(instance_id))
            &&& told[1] == ("state"@, JsonView::Text("mould"@))
            &&& told[2] == ("config"@, mould_view(file_exists, text))
            &&& told[3] == ("ready_for_incarnation"@, JsonView::Bool(true))
        }),
{
}

/// A message that was accepted is told by its id, and with its response where there is one.
pub proof fn law_accepted_messages(accepted: ConverseResponse)
    ensures
        ({
            let told = converse_view(accepted)->Object_0;
            &&& converse_view(accepted) is Object
            &&& told.len() >= 2
            &&& told[0] == ("message_id"@, JsonView::Text(accepted.message_id@))
            &&& told[1] == ("accepted"@, JsonView::Bool(accepted.accepted))
            &&& accepted.response is None ==> told.len() == 2
            &&& accepted.response matches Some(doc) ==> told.len() == 3 && told[2] == ("response"@, doc@)
        }),
{
}

/// A perception that was accepted is told by its id.
pub proof fn law_accepted_perceptions(accepted: PerceiveResponse)
    ensures
        ({
            let told = perceive_view(accepted)->Object_0;
            &&& perceive_view(accepted) is Object
            &&& told.len() == 2
            &&& told[0] == ("perception_id"@, JsonView::Text(accepted.perception_id@))
            &&& told[1] == ("accepted"@, JsonView::Bool(accepted.accepted))
        }),
{
}

} // verus!
