//! Reports that a client sends along with its next request: which request failed,
//! and how.

use vstd::prelude::*;
use crate::digest;
use crate::jwt::ValidatedJwt;
use crate::nucleon_map;
use crate::nucleon_map::HabilitationMap;
use crate::numbers;
use crate::numbers::push_decimal;
use crate::paths;
use crate::paths::join;
use crate::rate_limit::hash_sub;
use crate::routes::logs_stream;
use crate::text;
use crate::text::{ascii_alphanumeric, chars_of, same_text, split, split_once};

verus! {

pub const PHONE_HOME_HEADER: &'static str = "x-cosmon-phone-home";

/// How many reports of one header are taken.
pub const MAX_REPORTS_PER_HEADER: usize = 8;

/// How long a token may be.
pub const MAX_TOKEN_LEN: usize = 64;

/// The characters of a text that may stand in a token, in order.
pub open spec fn kept(s: Seq<char>) -> Seq<char>
    decreases s.len(),
{
    if s.len() == 0 {
        Seq::empty()
    } else if logs_stream::segment_char(s.last()) {
        kept(s.drop_last()).push(s.last())
    } else {
        kept(s.drop_last())
    }
}

pub open spec fn cut(s: Seq<char>) -> Seq<char> {
    if s.len() > MAX_TOKEN_LEN {
        s.take(MAX_TOKEN_LEN as int)
    } else {
        s
    }
}

pub open spec fn has_alphanumeric(s: Seq<char>) -> bool {
    exists|i: int| 0 <= i < s.len() && text::is_alphanumeric(#[trigger] s[i])
}

/// A text as a token: what may stand in one, up to the length of one; none where
/// no letter or digit is left.
pub open spec fn token_of(s: Seq<char>) -> Option<Seq<char>> {
    if has_alphanumeric(cut(kept(s))) {
        Some(cut(kept(s)))
    } else {
        None
    }
}

proof fn lemma_kept_grows(s: Seq<char>, n: int)
    requires
        0 <= n <= s.len(),
    ensures
        kept(s.take(n)).len() <= kept(s).len(),
        kept(s).take(kept(s.take(n)).len() as int) == kept(s.take(n)),
    decreases s.len(),
{
    if n == s.len() {
        assert(s.take(n) =~= s);
        assert(kept(s).take(kept(s).len() as int) =~= kept(s));
    } else {
        assert(s.drop_last().take(n) =~= s.take(n));
        lemma_kept_grows(s.drop_last(), n);
        assert(kept(s).take(kept(s.take(n)).len() as int) =~= kept(s.drop_last()).take(kept(s.take(n)).len() as int));
    }
}

/// A text as a token.
pub fn sanitize_token(raw: &str) -> (r: Option<String>)
    ensures
        nucleon_map::optional(r) == token_of(raw@),
{
    let cs = chars_of(raw);
    let mut out: String = String::new();
    let mut len: usize = 0;
    let mut named = false;
    let mut i: usize = 0;
    assert(cs@.take(0) =~= Seq::<char>::empty());
    while i < cs.len() && len < MAX_TOKEN_LEN
        invariant
            i <= cs@.len(),
            len <= MAX_TOKEN_LEN,
            len == out@.len(),
            out@ == kept(cs@.take(i as int)),
            named == has_alphanumeric(out@),
        decreases cs@.len() - i,
    {
        let c = cs[i];
        let ghost before = out@;
        proof {
            assert(cs@.take(i + 1).drop_last() =~= cs@.take(i as int));
            assert(cs@.take(i + 1).last() == c);
        }
        if ascii_alphanumeric(c) || c == '.' || c == '_' || c == '-' {
            out.push(c);
            len += 1;
            if ascii_alphanumeric(c) {
                named = true;
                assert(text::is_alphanumeric(out@[before.len() as int]));
            }
            proof {
                if has_alphanumeric(before) {
                    let k = choose|k: int| 0 <= k < before.len() && text::is_alphanumeric(#[trigger] before[k]);
                    assert(text::is_alphanumeric(out@[k]));
                }
                if has_alphanumeric(out@) && !text::is_alphanumeric(c) {
                    let k = choose|k: int| 0 <= k < out@.len() && text::is_alphanumeric(#[trigger] out@[k]);
                    assert(text::is_alphanumeric(before[k]));
                }
            }
        }
        i += 1;
    }
    proof {
        assert(cs@ == raw@);
        lemma_kept_grows(cs@, i as int);
        if i == cs@.len() {
            assert(cs@.take(i as int) =~= cs@);
        }
        if kept(raw@).len() <= MAX_TOKEN_LEN {
            assert(kept(raw@).take(out@.len() as int) =~= out@);
            if i < cs@.len() {
                assert(kept(raw@) =~= out@);
            }
        }
        assert(out@ =~= cut(kept(raw@)));
    }
    if named {
        Some(out)
    } else {
        None
    }
}

/// A report: the request that failed, and the code of its failure.
pub open spec fn report_in(pair: Seq<char>) -> Option<(Seq<char>, Seq<char>)> {
    let at = text::first_at(pair, ':');
    if 0 <= at < pair.len() {
        match token_of(pair.skip(at + 1)) {
            Some(code) => Some(
                (
                    match token_of(pair.take(at)) {
                        Some(id) => id,
                        None => "unknown"@,
                    },
                    code,
                ),
            ),
            None => None,
        }
    } else {
        None
    }
}

/// The reports among texts, in order.
pub open spec fn reports_in(parts: Seq<Seq<char>>) -> Seq<(Seq<char>, Seq<char>)>
    decreases parts.len(),
{
    if parts.len() == 0 {
        Seq::empty()
    } else {
        match report_in(parts.last()) {
            Some(report) => reports_in(parts.drop_last()).push(report),
            None => reports_in(parts.drop_last()),
        }
    }
}

/// The parts of a header that are looked at.
pub open spec fn looked_at(value: Seq<char>) -> Seq<Seq<char>> {
    let parts = text::split_parts(value, ',');
    if parts.len() > MAX_REPORTS_PER_HEADER {
        parts.take(MAX_REPORTS_PER_HEADER as int)
    } else {
        parts
    }
}

pub open spec fn report_views(v: Seq<(String, String)>) -> Seq<(Seq<char>, Seq<char>)> {
    Seq::new(v.len(), |i: int| (v[i].0@, v[i].1@))
}

fn parse_pair(pair: &str) -> (r: Option<(String, String)>)
    ensures
        match r {
            Some(p) => report_in(pair@) == Some((p.0@, p.1@)),
            None => report_in(pair@) is None,
        },
{
    proof {
        text::lemma_first_at(pair@, ':');
    }
    match split_once(pair, ':') {
        None => None,
        Some((rid, code)) => match sanitize_token(code.as_str()) {
            None => None,
            Some(code) => {
                let id = match sanitize_token(rid.as_str()) {
                    Some(id) => id,
                    None => "unknown".to_owned(),
                };
                Some((id, code))
            },
        },
    }
}

/// The reports of a header: the first few, without those that cannot be read.
pub fn parse_header(value: &str) -> (r: Vec<(String, String)>)
    ensures
        report_views(r@) == reports_in(looked_at(value@)),
        r@.len() <= MAX_REPORTS_PER_HEADER,
{
    let parts = split(value, ',');
    let ghost all = text::split_parts(value@, ',');
    assert(all == text::views(parts@));
    assert(all.len() == parts@.len());
    let count: usize = if parts.len() > MAX_REPORTS_PER_HEADER {
        MAX_REPORTS_PER_HEADER
    } else {
        parts.len()
    };
    let mut out: Vec<(String, String)> = Vec::new();
    let mut i: usize = 0;
    assert(all.take(0) =~= Seq::<Seq<char>>::empty());
    assert(report_views(out@) =~= reports_in(all.take(0)));
    while i < count
        invariant
            i <= count <= parts@.len(),
            count <= MAX_REPORTS_PER_HEADER,
            all == text::views(parts@),
            all.len() == parts@.len(),
            report_views(out@) == reports_in(all.take(i as int)),
            out@.len() <= i,
        decreases count - i,
    {
        let ghost before = report_views(out@);
        proof {
            assert(all.take(i + 1).drop_last() =~= all.take(i as int));
            assert(all.take(i + 1).last() == parts@[i as int]@);
        }
        match parse_pair(parts[i].as_str()) {
            Some(p) => {
                out.push(p);
                assert(report_views(out@) =~= before.push((p.0@, p.1@)));
            },
            None => {},
        }
        i += 1;
    }
    assert(all.take(count as int) =~= looked_at(value@));
    out
}

/// A report as it is kept, and where.
#[derive(Clone, Debug)]
pub struct PhoneHomeReport {
    pub path: String,
    pub reported_request_id: String,
    pub error_code: String,
    pub noyau: String,
    pub sub_hash: String,
    pub reported_at: String,
}

/// What a file name has behind the id: nothing for the first name of an id, and a
/// number from two on for the others.
pub open spec fn name_suffix(n: nat) -> Seq<char> {
    if n == 0 {
        Seq::empty()
    } else {
        "~"@ + numbers::decimal(n + 1)
    }
}

/// The file name of an id, by how many names came before it.
pub open spec fn report_name(id: Seq<char>, n: nat) -> Seq<char> {
    id + name_suffix(n) + ".json"@
}

/// The directory of the reports.
pub open spec fn report_dir(inbox_root: Seq<char>) -> Seq<char> {
    paths::joined(inbox_root, "phone-home"@)
}

/// The first name of an id whose path is not taken.
pub open spec fn first_free(taken: Seq<Seq<char>>, dir: Seq<char>, id: Seq<char>, n: nat) -> bool {
    &&& !taken.contains(paths::joined(dir, report_name(id, n)))
    &&& forall|m: nat| m < n ==> taken.contains(paths::joined(dir, #[trigger] report_name(id, m)))
}

/// The paths of reports.
pub open spec fn report_paths(v: Seq<PhoneHomeReport>) -> Seq<Seq<char>> {
    Seq::new(v.len(), |i: int| v[i].path@)
}

/// The report keeps what was reported, under the first name of the request's id
/// whose path the reports before it leave free, and of the caller only its noyau
/// and the hash of its subject.
pub open spec fn keeps(
    r: PhoneHomeReport,
    taken: Seq<Seq<char>>,
    inbox_root: Seq<char>,
    noyau: Seq<char>,
    sub_hash: Seq<char>,
    report: (Seq<char>, Seq<char>),
    reported_at: Seq<char>,
) -> bool {
    &&& exists|n: nat| #[trigger]
        first_free(taken, report_dir(inbox_root), report.0, n) && r.path@ == paths::joined(
            report_dir(inbox_root),
            report_name(report.0, n),
        )
    &&& r.reported_request_id@ == report.0
    &&& r.error_code@ == report.1
    &&& r.noyau@ == noyau
    &&& r.sub_hash@ == sub_hash
    &&& r.reported_at@ == reported_at
}

/// No two reports have one path.
pub open spec fn paths_differ(v: Seq<PhoneHomeReport>) -> bool {
    forall|i: int, j: int| 0 <= i < j < v.len() ==> (#[trigger] v[i]).path@ != (#[trigger] v[j]).path@
}

/// Different names of an id have different paths.
proof fn lemma_names_differ(dir: Seq<char>, id: Seq<char>, n: nat, m: nat)
    requires
        paths::joined(dir, report_name(id, n)) == paths::joined(dir, report_name(id, m)),
    ensures
        n == m,
{
    reveal_strlit("~");
    reveal_strlit(".json");
    let (a, b) = (report_name(id, n), report_name(id, m));
    let rel = if dir.len() == 0 || dir.last() == '/' { dir } else { dir + seq!['/'] };
    if id.len() > 0 {
        assert(a[0] == id[0] && b[0] == id[0]);
    } else {
        assert(a[0] == if n == 0 { '.' } else { '~' });
        assert(b[0] == if m == 0 { '.' } else { '~' });
    }
    if a[0] != '/' {
        assert(paths::joined(dir, a).skip(rel.len() as int) =~= a);
        assert(paths::joined(dir, b).skip(rel.len() as int) =~= b);
    }
    assert(a == b);
    assert(a.len() == id.len() + name_suffix(n).len() + 5);
    assert(b.len() == id.len() + name_suffix(m).len() + 5);
    assert(a.subrange(id.len() as int, a.len() - 5) =~= name_suffix(n));
    assert(b.subrange(id.len() as int, b.len() - 5) =~= name_suffix(m));
    if n > 0 && m > 0 {
        assert(name_suffix(n).skip(1) =~= numbers::decimal(n + 1));
        assert(name_suffix(m).skip(1) =~= numbers::decimal(m + 1));
        numbers::lemma_decimal_value(n + 1);
        numbers::lemma_decimal_value(m + 1);
    }
}

/// As many paths as there are cannot take one name more.
proof fn lemma_a_name_is_free(taken: Seq<Seq<char>>, dir: Seq<char>, id: Seq<char>)
    ensures
        exists|m: nat| m <= taken.len() && !taken.contains(paths::joined(dir, #[trigger] report_name(id, m))),
{
    let all = Seq::new(taken.len() + 1, |i: int| paths::joined(dir, report_name(id, i as nat)));
    assert(all.no_duplicates()) by {
        assert forall|i: int, j: int| 0 <= i < all.len() && 0 <= j < all.len() && i != j implies all[i] != all[j] by {
            if all[i] == all[j] {
                lemma_names_differ(dir, id, i as nat, j as nat);
            }
        }
    }
    all.unique_seq_to_set();
    taken.lemma_cardinality_of_set();
    if forall|m: nat| m <= taken.len() ==> taken.contains(paths::joined(dir, #[trigger] report_name(id, m))) {
        assert forall|p: Seq<char>| all.to_set().contains(p) implies taken.to_set().contains(p) by {
            let i = choose|i: int| 0 <= i < all.len() && all[i] == p;
            assert(taken.contains(paths::joined(dir, report_name(id, i as nat))));
        }
        vstd::set_lib::lemma_len_subset(all.to_set(), taken.to_set());
    }
}

fn is_taken(v: &Vec<PhoneHomeReport>, path: &str) -> (r: bool)
    ensures
        r == report_paths(v@).contains(path@),
{
    let mut i: usize = 0;
    while i < v.len()
        invariant
            i <= v@.len(),
            forall|k: int| 0 <= k < i ==> (#[trigger] v@[k]).path@ != path@,
        decreases v@.len() - i,
    {
        if same_text(v[i].path.as_str(), path) {
            assert(report_paths(v@)[i as int] == path@);
            return true;
        }
        i += 1;
    }
    false
}

fn path_for(dir: &str, id: &str, n: usize) -> (r: String)
    requires
        n < usize::MAX,
    ensures
        r@ == paths::joined(dir@, report_name(id@, n as nat)),
{
    let mut name: String = id.to_owned();
    if n > 0 {
        name.push_str("~");
        push_decimal(&mut name, n as u64 + 1);
    }
    assert(name@ =~= id@ + name_suffix(n as nat));
    name.push_str(".json");
    assert(name@ =~= report_name(id@, n as nat));
    join(dir, name.as_str())
}

fn free_path(taken: &Vec<PhoneHomeReport>, dir: &str, id: &str) -> (r: String)
    requires
        taken@.len() < usize::MAX,
    ensures
        exists|n: nat| #[trigger]
            first_free(report_paths(taken@), dir@, id@, n) && r@ == paths::joined(dir@, report_name(id@, n)),
{
    let ghost all = report_paths(taken@);
    let mut n: usize = 0;
    let mut path = path_for(dir, id, n);
    while is_taken(taken, path.as_str())
        invariant
            n <= taken@.len() < usize::MAX,
            all == report_paths(taken@),
            path@ == paths::joined(dir@, report_name(id@, n as nat)),
            forall|m: nat| m < n ==> all.contains(paths::joined(dir@, #[trigger] report_name(id@, m))),
        decreases taken@.len() - n,
    {
        proof {
            lemma_a_name_is_free(all, dir@, id@);
            let free = choose|m: nat|
                m <= all.len() && !all.contains(paths::joined(dir@, #[trigger] report_name(id@, m)));
            assert(n < free);
        }
        n += 1;
        path = path_for(dir, id, n);
    }
    assert(first_free(all, dir@, id@, n as nat));
    path
}

/// The reports as they are kept, one file for each pair.
pub fn materialize_reports(
    inbox_root: &str,
    noyau: &str,
    sub_hash: &str,
    pairs: &Vec<(String, String)>,
    reported_at: &str,
) -> (r: Vec<PhoneHomeReport>)
    ensures
        r@.len() == pairs@.len(),
        paths_differ(r@),
        forall|i: int|
            0 <= i < r@.len() ==> keeps(
                #[trigger] r@[i],
                report_paths(r@.take(i)),
                inbox_root@,
                noyau@,
                sub_hash@,
                (pairs@[i].0@, pairs@[i].1@),
                reported_at@,
            ),
{
    let dir = join(inbox_root, "phone-home");
    let mut out: Vec<PhoneHomeReport> = Vec::new();
    let mut i: usize = 0;
    while i < pairs.len()
        invariant
            i <= pairs@.len(),
            out@.len() == i,
            dir@ == report_dir(inbox_root@),
            paths_differ(out@),
            forall|k: int|
                0 <= k < i ==> keeps(
                    #[trigger] out@[k],
                    report_paths(out@.take(k)),
                    inbox_root@,
                    noyau@,
                    sub_hash@,
                    (pairs@[k].0@, pairs@[k].1@),
                    reported_at@,
                ),
        decreases pairs@.len() - i,
    {
        let ghost before = out@;
        let path = free_path(&out, dir.as_str(), pairs[i].0.as_str());
        proof {
            assert forall|k: int| 0 <= k < before.len() implies (#[trigger] before[k]).path@ != path@ by {
                assert(report_paths(before)[k] == before[k].path@);
            }
        }
        out.push(
            PhoneHomeReport {
                path,
                reported_request_id: pairs[i].0.clone(),
                error_code: pairs[i].1.clone(),
                noyau: noyau.to_owned(),
                sub_hash: sub_hash.to_owned(),
                reported_at: reported_at.to_owned(),
            },
        );
        proof {
            assert forall|k: int| 0 <= k < i + 1 implies keeps(
                #[trigger] out@[k],
                report_paths(out@.take(k)),
                inbox_root@,
                noyau@,
                sub_hash@,
                (pairs@[k].0@, pairs@[k].1@),
                reported_at@,
            ) by {
                assert(out@.take(k) =~= before.take(k));
                if k == i {
                    assert(before.take(k) =~= before);
                } else {
                    assert(out@[k] == before[k]);
                }
            }
        }
        i += 1;
    }
    out
}

/// The reports to keep of a header that came with a verified token: none where
/// the principal is bound to no noyau.
pub fn ingest(
    value: &str,
    jwt: &ValidatedJwt,
    map: &HabilitationMap,
    inbox_root: &str,
    reported_at: &str,
) -> (r: Vec<PhoneHomeReport>)
    requires
        map.wf(),
    ensures
        match nucleon_map::principal_binding(map.bindings(), jwt.iss@, jwt.sub@) {
            None => r@.len() == 0,
            Some(b) => {
                &&& r@.len() == reports_in(looked_at(value@)).len()
                &&& paths_differ(r@)
                &&& forall|i: int|
                    0 <= i < r@.len() ==> keeps(
                        #[trigger] r@[i],
                        report_paths(r@.take(i)),
                        inbox_root@,
                        b.noyau,
                        digest::blake3_hex_of(digest::utf8(jwt.sub@)),
                        reports_in(looked_at(value@))[i],
                        reported_at@,
                    )
            },
        },
{
    match map.resolve(jwt.iss.as_str(), jwt.sub.as_str()) {
        None => Vec::new(),
        Some(resolved) => {
            let pairs = parse_header(value);
            let sub_hash = hash_sub(jwt.sub.as_str());
            let reports = materialize_reports(
                inbox_root,
                resolved.noyau.as_str(),
                sub_hash.as_str(),
                &pairs,
                reported_at,
            );
            proof {
                assert forall|i: int| 0 <= i < pairs@.len() implies (pairs@[i].0@, pairs@[i].1@) == #[trigger] reports_in(
                    looked_at(value@),
                )[i] by {
                    assert(report_views(pairs@)[i] == (pairs@[i].0@, pairs@[i].1@));
                }
                assert(report_views(pairs@).len() == pairs@.len());
            }
            reports
        },
    }
}

// ---------------------------------------------------------------------------
// Laws
// ---------------------------------------------------------------------------

proof fn lemma_kept_chars(s: Seq<char>, i: int)
    requires
        0 <= i < kept(s).len(),
    ensures
        logs_stream::segment_char(kept(s)[i]),
    decreases s.len(),
{
    if s.len() > 0 && i < kept(s.drop_last()).len() {
        lemma_kept_chars(s.drop_last(), i);
    }
}

/// A token can stand as a file name: it has no separators, is not `.` or `..`,
/// and is no longer than a token may be.
pub proof fn law_tokens_are_file_names(s: Seq<char>, t: Seq<char>)
    requires
        token_of(s) == Some(t),
    ensures
        0 < t.len() <= MAX_TOKEN_LEN,
        forall|i: int| 0 <= i < t.len() ==> logs_stream::segment_char(#[trigger] t[i]),
        !t.contains('/'),
        !t.contains('\\'),
        t != "."@,
        t != ".."@,
{
    assert forall|i: int| 0 <= i < t.len() implies logs_stream::segment_char(#[trigger] t[i]) by {
        lemma_kept_chars(s, i);
    }
    reveal_strlit(".");
    reveal_strlit("..");
}

/// The id of a report can stand in a file name: it has no separator, and none of
/// the marks that tell the names of an id apart.
proof fn lemma_report_id(pair: Seq<char>, report: (Seq<char>, Seq<char>))
    requires
        report_in(pair) == Some(report),
    ensures
        !report.0.contains('/'),
        !report.0.contains('~'),
        report.0.len() > 0,
{
    reveal_strlit("unknown");
    let at = text::first_at(pair, ':');
    match token_of(pair.take(at)) {
        Some(id) => {
            law_tokens_are_file_names(pair.take(at), id);
        },
        None => {},
    }
}

proof fn lemma_name_chars(id: Seq<char>, n: nat, c: char)
    requires
        !id.contains(c),
        c == '/' || c == '~' && n == 0,
    ensures
        !report_name(id, n).contains(c),
{
    reveal_strlit(".json");
    reveal_strlit("~");
    let name = report_name(id, n);
    let suffix = name_suffix(n);
    numbers::lemma_decimal_digits(n + 1);
    assert forall|i: int| 0 <= i < name.len() implies #[trigger] name[i] != c by {
        if i < id.len() {
            assert(name[i] == id[i]);
            assert(id.contains(id[i]));
        } else if i < id.len() + suffix.len() {
            assert(name[i] == suffix[i - id.len()]);
            if i > id.len() {
                assert(suffix[i - id.len()] == numbers::decimal(n + 1)[i - id.len() - 1]);
            }
        } else {
            assert(name[i] == ".json"@[i - id.len() - suffix.len()]);
        }
    }
}

/// A report is kept in the inbox, whatever the header says: its file, under
/// whichever name of its id, lies right under the directory of the reports.
pub proof fn law_reports_stay_in_the_inbox(
    pair: Seq<char>,
    report: (Seq<char>, Seq<char>),
    inbox_root: Seq<char>,
    n: nat,
)
    requires
        report_in(pair) == Some(report),
    ensures
        !report_name(report.0, n).contains('/'),
        ({
            let dir = report_dir(inbox_root);
            let file = paths::joined(dir, report_name(report.0, n));
            text::starts_with(dir, inbox_root) && file == dir + seq!['/'] + report_name(report.0, n)
        }),
{
    reveal_strlit("phone-home");
    lemma_report_id(pair, report);
    lemma_name_chars(report.0, n, '/');
    let name = report_name(report.0, n);
    let dir = report_dir(inbox_root);
    assert(dir.take(inbox_root.len() as int) =~= inbox_root);
    assert(dir.last() == 'e');
    assert(name[0] == report.0[0]);
    assert(report.0.contains(report.0[0]));
}

/// The first report under an id has the id itself as its name, whatever reports of
/// other ids came before it.
pub proof fn law_first_report_has_the_plain_name(
    dir: Seq<char>,
    id: Seq<char>,
    earlier: Seq<(Seq<char>, nat)>,
    n: nat,
)
    requires
        id.len() > 0,
        !id.contains('/'),
        !id.contains('~'),
        forall|i: int|
            0 <= i < earlier.len() ==> (#[trigger] earlier[i]).0 != id && earlier[i].0.len() > 0
                && !earlier[i].0.contains('/'),
        first_free(
            Seq::new(earlier.len(), |i: int| paths::joined(dir, report_name(earlier[i].0, earlier[i].1))),
            dir,
            id,
            n,
        ),
    ensures
        n == 0,
{
    let taken = Seq::new(earlier.len(), |i: int| paths::joined(dir, report_name(earlier[i].0, earlier[i].1)));
    let plain = report_name(id, 0);
    reveal_strlit(".json");
    reveal_strlit("~");
    lemma_name_chars(id, 0, '~');
    assert(plain[0] == id[0]);
    assert(id.contains(id[0]));
    let rel = if dir.len() == 0 || dir.last() == '/' { dir } else { dir + seq!['/'] };
    assert forall|i: int| 0 <= i < earlier.len() implies #[trigger] taken[i] != paths::joined(dir, plain) by {
        let (other, m) = earlier[i];
        let name = report_name(other, m);
        assert(name[0] == other[0]);
        assert(other.contains(other[0]));
        if taken[i] == paths::joined(dir, plain) {
            assert(paths::joined(dir, name).skip(rel.len() as int) =~= name);
            assert(paths::joined(dir, plain).skip(rel.len() as int) =~= plain);
            if m == 0 {
                assert(name.take(name.len() - 5) =~= other);
                assert(plain.take(plain.len() - 5) =~= id);
            } else {
                assert(name[other.len() as int] == '~');
                assert(plain.contains('~'));
            }
        }
    }
    if n > 0 {
        assert(taken.contains(paths::joined(dir, report_name(id, 0))));
    }
}

/// A token keeps the characters that may stand in one, in order, and drops the rest.
pub proof fn law_tokens_keep_what_they_may(s: Seq<char>, c: char)
    ensures
        kept(Seq::empty()).len() == 0,
        '0' <= c <= '9' || 'a' <= c <= 'z' || 'A' <= c <= 'Z' || c == '-' || c == '_' || c == '.' ==> kept(s.push(c))
            == kept(s).push(c),
        !('0' <= c <= '9' || 'a' <= c <= 'z' || 'A' <= c <= 'Z' || c == '-' || c == '_' || c == '.') ==> kept(s.push(c))
            == kept(s),
{
    assert(s.push(c).drop_last() =~= s);
}

/// A token has at most 64 characters, the first ones, and at least one letter or
/// digit; a text that has none to give is no token.
pub proof fn law_tokens_are_short_and_say_something(s: Seq<char>)
    ensures
        token_of(s) matches Some(t) ==> {
            &&& t.len() <= 64
            &&& kept(s).len() <= 64 ==> t == kept(s)
            &&& kept(s).len() > 64 ==> t == kept(s).take(64)
            &&& exists|i: int|
                0 <= i < t.len() && ('0' <= #[trigger] t[i] <= '9' || 'a' <= t[i] <= 'z' || 'A' <= t[i] <= 'Z')
        },
        token_of(s) is None ==> {
            let t = if kept(s).len() > 64 {
                kept(s).take(64)
            } else {
                kept(s)
            };
            forall|i: int|
                0 <= i < t.len() ==> !('0' <= #[trigger] t[i] <= '9' || 'a' <= t[i] <= 'z' || 'A' <= t[i] <= 'Z')
        },
        MAX_TOKEN_LEN == 64 && MAX_REPORTS_PER_HEADER == 8,
{
    let t = cut(kept(s));
    if has_alphanumeric(t) {
        let i = choose|i: int| 0 <= i < t.len() && text::is_alphanumeric(#[trigger] t[i]);
        assert('0' <= t[i] <= '9' || 'a' <= t[i] <= 'z' || 'A' <= t[i] <= 'Z');
    } else {
        assert forall|i: int| 0 <= i < t.len() implies !('0' <= #[trigger] t[i] <= '9' || 'a' <= t[i] <= 'z' || 'A' <= t[i]
            <= 'Z') by {
            assert(!text::is_alphanumeric(t[i]));
        }
    }
}

/// A report names the request that failed before a colon and the code of the failure
/// behind it. Without a code it is none; without a request it is of an unknown one.
pub proof fn law_reports(id: Seq<char>, code: Seq<char>)
    requires
        !id.contains(':'),
    ensures
        report_in(id) is None,
        token_of(code) is None ==> report_in(id + seq![':'] + code) is None,
        token_of(code) is Some && token_of(id) is Some ==> report_in(id + seq![':'] + code) == Some(
            (token_of(id)->0, token_of(code)->0),
        ),
        token_of(code) is Some && token_of(id) is None ==> report_in(id + seq![':'] + code) == Some(
            ("unknown"@, token_of(code)->0),
        ),
{
    let pair = id + seq![':'] + code;
    text::lemma_first_behind(id, ':', code);
    assert(pair.take(id.len() as int) =~= id);
    assert(pair.skip(id.len() as int + 1) =~= code);
}

/// Reports are taken in order, and what is none is passed over; of a header the first
/// eight parts between commas are looked at.
pub proof fn law_reports_of_a_header(parts: Seq<Seq<char>>, pair: Seq<char>, value: Seq<char>)
    ensures
        reports_in(Seq::empty()).len() == 0,
        report_in(pair) matches Some(r) ==> reports_in(parts.push(pair)) == reports_in(parts).push(r),
        report_in(pair) is None ==> reports_in(parts.push(pair)) == reports_in(parts),
        text::split_parts(value, ',').len() <= 8 ==> looked_at(value) == text::split_parts(value, ','),
        text::split_parts(value, ',').len() > 8 ==> looked_at(value) == text::split_parts(value, ',').take(8),
{
    assert(parts.push(pair).drop_last() =~= parts);
}

/// The reports of one request get names of their own: the first is named by its id,
/// and those after it by the id and a number from two on.
pub proof fn law_report_names(id: Seq<char>, n: nat, inbox_root: Seq<char>)
    ensures
        report_name(id, 0) == id + ".json"@,
        n > 0 ==> report_name(id, n) == id + "~"@ + numbers::decimal(n + 1) + ".json"@,
        report_dir(inbox_root) == paths::joined(inbox_root, "phone-home"@),
{
    assert(id + Seq::<char>::empty() =~= id);
    if n > 0 {
        assert(id + ("~"@ + numbers::decimal(n + 1)) + ".json"@ =~= id + "~"@ + numbers::decimal(n + 1) + ".json"@);
    }
}

/// A report keeps the request, the code, the noyau, the hash of the subject and the
/// time, under a name of its request.
pub proof fn law_reports_are_kept(
    r: PhoneHomeReport,
    taken: Seq<Seq<char>>,
    inbox_root: Seq<char>,
    noyau: Seq<char>,
    sub_hash: Seq<char>,
    report: (Seq<char>, Seq<char>),
    reported_at: Seq<char>,
)
    requires
        keeps(r, taken, inbox_root, noyau, sub_hash, report, reported_at),
    ensures
        r.reported_request_id@ == report.0,
        r.error_code@ == report.1,
        r.noyau@ == noyau,
        r.sub_hash@ == sub_hash,
        r.reported_at@ == reported_at,
        !taken.contains(r.path@),
        exists|n: nat|
            r.path@ == paths::joined(paths::joined(inbox_root, "phone-home"@), #[trigger] report_name(report.0, n)) && (forall|
                m: nat,
            |
                m < n ==> taken.contains(
                    paths::joined(paths::joined(inbox_root, "phone-home"@), #[trigger] report_name(report.0, m)),
                )),
{
    let n = choose|n: nat| #[trigger]
        first_free(taken, report_dir(inbox_root), report.0, n) && r.path@ == paths::joined(
            report_dir(inbox_root),
            report_name(report.0, n),
        );
    assert(r.path@ == paths::joined(paths::joined(inbox_root, "phone-home"@), report_name(report.0, n)));
}

/// Reports are seen as pairs, and told apart by their paths.
pub proof fn law_pairs_of_reports(v: Seq<(String, String)>, r: Seq<PhoneHomeReport>, i: int, j: int)
    ensures
        report_views(v).len() == v.len(),
        0 <= i < v.len() ==> report_views(v)[i] == (v[i].0@, v[i].1@),
        report_paths(r).len() == r.len(),
        0 <= i < r.len() ==> report_paths(r)[i] == r[i].path@,
        paths_differ(r) && 0 <= i < j < r.len() ==> r[i].path@ != r[j].path@,
{
}

} // verus!
