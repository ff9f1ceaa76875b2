//! `GET /v1/molecules/{id}/logs`: following a worker's terminal pane.

use vstd::prelude::*;
use crate::digest;
use crate::error;
use crate::error::ApiError;
use crate::text;
use crate::text::{ascii_alphanumeric, chars_of, concat, contains_double_dot, list_contains, same_text, split, text_between};
use crate::pipeline::{check, Effect, Fact, Stage, Verb};
use crate::scopes::ScopeRule;

verus! {

/// How often a pane is looked at, in milliseconds, unless asked otherwise.
pub const DEFAULT_POLL_MS: u64 = 500;

/// How many lines may wait for a slow subscriber.
pub const CHANNEL_BUFFER: usize = 1024;

/// How many lines of the pane are looked at.
pub const CAPTURE_LINES: i32 = 4000;

pub const KEEP_ALIVE_SECS: u64 = 30;

/// The query of the log stream.
#[derive(Clone, Copy, Debug)]
pub struct LogsQuery {
    pub follow: bool,
    pub poll_ms: Option<u64>,
}

/// A stream is followed unless asked otherwise.
pub fn default_follow() -> (r: bool)
    ensures
        r,
{
    true
}

/// The cadence in effect: the one asked for, within 50 ms and 5 s.
pub fn clamp_poll_ms(requested: Option<u64>) -> (r: u64)
    ensures
        r == ({
            let raw = match requested {
                Some(ms) => ms,
                None => DEFAULT_POLL_MS,
            };
            if raw < 50 {
                50
            } else if raw > 5000 {
                5000
            } else {
                raw
            }
        }),
{
    let raw: u64 = requested.unwrap_or(DEFAULT_POLL_MS);
    if raw < 50 {
        50
    } else if raw > 5000 {
        5000
    } else {
        raw
    }
}

/// The terminal session of a molecule.
pub fn tmux_session_for(molecule_id: &str) -> (r: String)
    ensures
        r@ == "cosmon-"@ + molecule_id@,
{
    concat("cosmon-", molecule_id)
}

// ---------------------------------------------------------------------------
// Path segments
// ---------------------------------------------------------------------------

pub open spec fn segment_char(c: char) -> bool {
    text::is_alphanumeric(c) || c == '-' || c == '_' || c == '.'
}

/// A molecule id that may be handed to the terminal multiplexer.
pub open spec fn safe_segment(s: Seq<char>) -> bool {
    &&& s.len() > 0
    &&& digest::utf8(s).len() <= 128
    &&& forall|i: int| 0 <= i < s.len() ==> segment_char(#[trigger] s[i])
    &&& !text::has_double_dot(s)
}

fn only_segment_chars(s: &str) -> (r: bool)
    ensures
        r == forall|i: int| 0 <= i < s@.len() ==> segment_char(#[trigger] s@[i]),
{
    let cs = chars_of(s);
    let mut i: usize = 0;
    while i < cs.len()
        invariant
            i <= cs@.len(),
            cs@ == s@,
            forall|k: int| 0 <= k < i ==> segment_char(#[trigger] s@[k]),
        decreases cs@.len() - i,
    {
        let c = cs[i];
        if !(ascii_alphanumeric(c) || c == '-' || c == '_' || c == '.') {
            assert(!segment_char(s@[i as int]));
            return false;
        }
        i += 1;
    }
    true
}

/// Tells whether a molecule id may be handed to the terminal multiplexer.
pub fn is_safe_segment(segment: &str) -> (r: bool)
    ensures
        r == safe_segment(segment@),
{
    !segment.is_empty() && segment_bytes(segment) <= 128 && only_segment_chars(segment) && !contains_double_dot(segment)
}

/// Refuses an id that is not made of letters, digits, `-`, `_` and single dots.
pub fn reject_unsafe_segment(segment: &str, request_id: &str) -> (r: Result<(), ApiError>)
    ensures
        match r {
            Ok(_) => safe_segment(segment@),
            Err(e) => {
                &&& !safe_segment(segment@)
                &&& error::says(e, 400, "invalid_path_segment"@)
                &&& e.request_id is Some
                &&& (e.request_id->0)@ == request_id@
            },
        },
{
    if is_safe_segment(segment) {
        Ok(())
    } else {
        Err(ApiError::of_request(400, "invalid_path_segment", request_id))
    }
}

fn segment_bytes(s: &str) -> (r: usize)
    ensures
        r == digest::utf8(s@).len(),
{
    s.as_bytes().len()
}

// ---------------------------------------------------------------------------
// Lines
// ---------------------------------------------------------------------------

/// A line without the carriage return that ends it.
pub open spec fn without_return(s: Seq<char>) -> Seq<char> {
    if s.len() > 0 && s.last() == '\r' {
        s.drop_last()
    } else {
        s
    }
}

/// The lines of a text: newlines end them, with or without a carriage return
/// before; the last line needs none.
pub open spec fn lines_of(s: Seq<char>) -> Seq<Seq<char>> {
    let parts = text::split_parts(s, '\n');
    let ended = Seq::new((parts.len() - 1) as nat, |i: int| without_return(parts[i]));
    if parts.last().len() == 0 {
        ended
    } else {
        ended.push(parts.last())
    }
}

/// The lines of a text.
pub fn lines(s: &str) -> (r: Vec<String>)
    ensures
        text::views(r@) == lines_of(s@),
{
    let parts = split(s, '\n');
    let ghost all = text::split_parts(s@, '\n');
    let mut out: Vec<String> = Vec::new();
    assert(all.len() > 0);
    assert(text::views(parts@).len() == parts@.len());
    let last: usize = parts.len() - 1;
    let mut i: usize = 0;
    while i < last
        invariant
            i <= last < parts@.len(),
            all == text::views(parts@),
            out@.len() == i,
            forall|k: int| 0 <= k < i ==> (#[trigger] out@[k])@ == without_return(all[k]),
        decreases last - i,
    {
        let cs = chars_of(parts[i].as_str());
        assert(all[i as int] == parts@[i as int]@);
        if cs.len() > 0 && cs[cs.len() - 1] == '\r' {
            let cut = text_between(&cs, 0, cs.len() - 1);
            assert(cut@ =~= cs@.drop_last());
            out.push(cut);
        } else {
            out.push(parts[i].clone());
        }
        i += 1;
    }
    assert(parts@[last as int]@ == all.last());
    if !parts[last].as_str().is_empty() {
        out.push(parts[last].clone());
    }
    assert(text::views(out@) =~= lines_of(s@));
    out
}

// ---------------------------------------------------------------------------
// New lines
// ---------------------------------------------------------------------------

/// `old` begins `new`.
pub open spec fn extends(old: Seq<Seq<char>>, new: Seq<Seq<char>>) -> bool {
    old.len() <= new.len() && new.take(old.len() as int) == old
}

/// The last `k` lines of `old` are the first `k` of `new`.
pub open spec fn overlaps(old: Seq<Seq<char>>, new: Seq<Seq<char>>, k: int) -> bool {
    old.skip(old.len() - k) == new.take(k)
}

/// The largest overlap of at most `k` lines.
pub open spec fn overlap_up_to(old: Seq<Seq<char>>, new: Seq<Seq<char>>, k: int) -> int
    decreases k,
{
    if k <= 0 {
        0
    } else if overlaps(old, new, k) {
        k
    } else {
        overlap_up_to(old, new, k - 1)
    }
}

/// The lines that do not occur among others.
pub open spec fn not_among(lines: Seq<Seq<char>>, others: Seq<Seq<char>>) -> Seq<Seq<char>>
    decreases lines.len(),
{
    if lines.len() == 0 {
        Seq::empty()
    } else {
        let head = not_among(lines.drop_last(), others);
        if others.contains(lines.last()) {
            head
        } else {
            head.push(lines.last())
        }
    }
}

/// The lines of `new` that a reader of `old` has not seen. Where `new` extends
/// `old`, they are what it adds. Where the pane has fewer lines than before, they
/// are those that did not occur before at any position. Otherwise they are what
/// follows the longest end of `old` that begins `new`.
pub open spec fn unseen(old: Seq<Seq<char>>, new: Seq<Seq<char>>) -> Seq<Seq<char>> {
    if extends(old, new) {
        new.skip(old.len() as int)
    } else if new.len() < old.len() {
        not_among(new, old)
    } else {
        new.skip(overlap_up_to(old, new, old.len() as int))
    }
}

fn same_lines(a: &Vec<String>, from: usize, b: &Vec<String>, n: usize) -> (r: bool)
    requires
        from + n <= a@.len(),
        n <= b@.len(),
    ensures
        r == (text::views(a@).subrange(from as int, from + n) == text::views(b@).take(n as int)),
{
    let ghost x = text::views(a@).subrange(from as int, from + n);
    let ghost y = text::views(b@).take(n as int);
    let count: usize = a.len();
    let mut i: usize = 0;
    while i < n
        invariant
            i <= n,
            from + n <= a@.len(),
            count == a@.len(),
            n <= b@.len(),
            x == text::views(a@).subrange(from as int, from + n),
            y == text::views(b@).take(n as int),
            forall|k: int| 0 <= k < i ==> x[k] == y[k],
        decreases n - i,
    {
        if !same_text(a[from + i].as_str(), b[i].as_str()) {
            assert(x[i as int] == a@[from + i]@);
            assert(y[i as int] == b@[i as int]@);
            return false;
        }
        assert(x[i as int] == a@[from + i]@);
        i += 1;
    }
    assert(x =~= y);
    true
}

fn lines_from(v: &Vec<String>, from: usize) -> (r: Vec<String>)
    requires
        from <= v@.len(),
    ensures
        text::views(r@) == text::views(v@).skip(from as int),
{
    let mut out: Vec<String> = Vec::new();
    let mut i: usize = from;
    while i < v.len()
        invariant
            from <= i <= v@.len(),
            out@.len() == i - from,
            forall|k: int| 0 <= k < i - from ==> #[trigger] out@[k] == v@[from + k],
        decreases v@.len() - i,
    {
        out.push(v[i].clone());
        i += 1;
    }
    assert(text::views(out@) =~= text::views(v@).skip(from as int));
    out
}

/// The lines of `new` that a reader of `old` has not seen.
pub fn diff_new_lines_pure(old: &Vec<String>, new: &Vec<String>) -> (r: Vec<String>)
    ensures
        text::views(r@) == unseen(text::views(old@), text::views(new@)),
{
    let ghost o = text::views(old@);
    let ghost n = text::views(new@);
    if new.len() >= old.len() {
        assert(n.subrange(0, o.len() as int) =~= n.take(o.len() as int));
        assert(o.take(o.len() as int) =~= o);
        if same_lines(new, 0, old, old.len()) {
            return lines_from(new, old.len());
        }
        let mut k: usize = old.len();
        while k > 0
            invariant
                k <= old@.len() <= new@.len(),
                o == text::views(old@),
                n == text::views(new@),
                !extends(o, n),
                overlap_up_to(o, n, old@.len() as int) == overlap_up_to(o, n, k as int),
            decreases k,
        {
            assert(o.subrange(old@.len() - k, old@.len() - k + k) =~= o.skip(o.len() - k));
            if same_lines(old, old.len() - k, new, k) {
                return lines_from(new, k);
            }
            k -= 1;
        }
        return lines_from(new, 0);
    }
    let mut out: Vec<String> = Vec::new();
    let mut i: usize = 0;
    assert(n.take(0) =~= Seq::<Seq<char>>::empty());
    assert(text::views(out@) =~= not_among(n.take(0), o));
    while i < new.len()
        invariant
            i <= new@.len(),
            o == text::views(old@),
            n == text::views(new@),
            text::views(out@) == not_among(n.take(i as int), o),
        decreases new@.len() - i,
    {
        let ghost before = text::views(out@);
        proof {
            assert(n.take(i + 1).drop_last() =~= n.take(i as int));
            assert(n.take(i + 1).last() == new@[i as int]@);
            text::lemma_listed(old@, new@[i as int]@);
        }
        if !list_contains(old, new[i].as_str()) {
            out.push(new[i].clone());
            assert(text::views(out@) =~= before.push(new@[i as int]@));
        }
        i += 1;
    }
    assert(n.take(i as int) =~= n);
    out
}

/// The lines of `new` that a reader of `old` has not seen.
pub fn diff_new_lines(old: &Vec<String>, new: &Vec<String>) -> (r: Vec<String>)
    ensures
        text::views(r@) == unseen(text::views(old@), text::views(new@)),
{
    diff_new_lines_pure(old, new)
}

// ---------------------------------------------------------------------------
// The poller
// ---------------------------------------------------------------------------

/// What follows a look at the pane.
#[derive(Clone, Copy, Debug, PartialEq, Eq, Structural)]
pub enum NextLook {
    /// Look again after the cadence.
    Again,
    /// Close the stream.
    Stop,
}

/// A subscriber's view of a pane.
pub struct PanePoller {
    pub last_lines: Vec<String>,
    pub follow: bool,
}

impl PanePoller {
    /// A subscriber that has seen nothing yet.
    pub fn new(follow: bool) -> (r: Self)
        ensures
            r.follow == follow,
            text::views(r.last_lines@) == Seq::<Seq<char>>::empty(),
    {
        let r = PanePoller { last_lines: Vec::new(), follow };
        assert(text::views(r.last_lines@) =~= Seq::<Seq<char>>::empty());
        r
    }

    /// Takes what the pane holds now, or nothing where the session is gone: the
    /// lines to send, and whether to look again. A stream that is not followed
    /// ends after one look.
    pub fn look(&mut self, captured: Option<&str>) -> (r: (Vec<String>, NextLook))
        ensures
            final(self).follow == old(self).follow,
            match captured {
                None => {
                    &&& text::views((r.0)@) == Seq::<Seq<char>>::empty()
                    &&& r.1 == NextLook::Stop
                    &&& final(self).last_lines == old(self).last_lines
                },
                Some(pane) => {
                    &&& text::views((r.0)@) == unseen(text::views(old(self).last_lines@), lines_of(pane@))
                    &&& r.1 == (if old(self).follow {
                        NextLook::Again
                    } else {
                        NextLook::Stop
                    })
                    &&& text::views(final(self).last_lines@) == lines_of(pane@)
                },
            },
    {
        match captured {
            None => {
                let none: Vec<String> = Vec::new();
                assert(text::views(none@) =~= Seq::<Seq<char>>::empty());
                (none, NextLook::Stop)
            },
            Some(pane) => {
                let now = lines(pane);
                let fresh = diff_new_lines(&self.last_lines, &now);
                self.last_lines = now;
                if self.follow {
                    (fresh, NextLook::Again)
                } else {
                    (fresh, NextLook::Stop)
                }
            },
        }
    }
}

// ---------------------------------------------------------------------------
// The plan
// ---------------------------------------------------------------------------

pub open spec fn logs_stream_plan() -> Seq<Stage> {
    seq![
        Stage::Bearer { metered: false },
        Stage::Token { metered: false },
        Stage::Scope { act: "logs_subscribe", rule: ScopeRule::LogsSubscribe },
        Stage::Admit { verb: Verb::SubscribeLogs, targeted: true, metered: false },
        check(Fact::PaneSegmentSafe, 400, "invalid_path_segment"),
        Stage::Perform { effect: Effect::OpenStream },
        Stage::Answer { status: 200 },
    ]
}

/// The plan of `GET /v1/molecules/{id}/logs`.
pub fn logs_stream() -> (r: Vec<Stage>)
    ensures
        r@ == logs_stream_plan(),
{
    vec![
        Stage::Bearer { metered: false },
        Stage::Token { metered: false },
        Stage::Scope { act: "logs_subscribe", rule: ScopeRule::LogsSubscribe },
        Stage::Admit { verb: Verb::SubscribeLogs, targeted: true, metered: false },
        check(Fact::PaneSegmentSafe, 400, "invalid_path_segment"),
        Stage::Perform { effect: Effect::OpenStream },
        Stage::Answer { status: 200 },
    ]
}

// ---------------------------------------------------------------------------
// Laws
// ---------------------------------------------------------------------------

/// A pane that has not changed shows nothing new.
pub proof fn law_unchanged_pane_is_silent(pane: Seq<Seq<char>>)
    ensures
        unseen(pane, pane).len() == 0,
{
    assert(pane.take(pane.len() as int) =~= pane);
}

/// The first look at a pane shows all of it.
pub proof fn law_first_look_shows_everything(pane: Seq<Seq<char>>)
    ensures
        unseen(Seq::empty(), pane) == pane,
{
    assert(pane.take(0) =~= Seq::<Seq<char>>::empty());
    assert(pane.skip(0) =~= pane);
}

/// A pane that only grew shows exactly what was added.
pub proof fn law_growth_shows_the_addition(old: Seq<Seq<char>>, added: Seq<Seq<char>>)
    ensures
        unseen(old, old + added) == added,
{
    assert((old + added).take(old.len() as int) =~= old);
    assert((old + added).skip(old.len() as int) =~= added);
}

proof fn lemma_not_among(lines: Seq<Seq<char>>, others: Seq<Seq<char>>, t: Seq<char>)
    ensures
        not_among(lines, others).contains(t) ==> lines.contains(t) && !others.contains(t),
    decreases lines.len(),
{
    if lines.len() > 0 {
        let head = not_among(lines.drop_last(), others);
        lemma_not_among(lines.drop_last(), others, t);
        if not_among(lines, others).contains(t) {
            let i = choose|i: int| 0 <= i < not_among(lines, others).len() && not_among(lines, others)[i] == t;
            if i < head.len() {
                assert(head[i] == t);
                let j = choose|j: int| 0 <= j < lines.drop_last().len() && lines.drop_last()[j] == t;
                assert(lines[j] == t);
            } else {
                assert(lines[lines.len() - 1] == t);
            }
        }
    }
}

/// Whatever is shown as new stands in the pane.
pub proof fn law_new_lines_come_from_the_pane(old: Seq<Seq<char>>, new: Seq<Seq<char>>, t: Seq<char>)
    requires
        unseen(old, new).contains(t),
    ensures
        new.contains(t),
{
    lemma_overlap_bounds(old, new, old.len() as int);
    let u = unseen(old, new);
    let i = choose|i: int| 0 <= i < u.len() && u[i] == t;
    if extends(old, new) {
        assert(new[i + old.len()] == t);
    } else if new.len() < old.len() {
        lemma_not_among(new, old, t);
    } else {
        let k = overlap_up_to(old, new, old.len() as int);
        assert(new[i + k] == t);
    }
}

proof fn lemma_overlap_bounds(old: Seq<Seq<char>>, new: Seq<Seq<char>>, k: int)
    requires
        0 <= k,
    ensures
        0 <= overlap_up_to(old, new, k) <= k,
        forall|j: int| overlap_up_to(old, new, k) < j <= k ==> !overlaps(old, new, j),
        overlap_up_to(old, new, k) > 0 ==> overlaps(old, new, overlap_up_to(old, new, k)),
    decreases k,
{
    if k > 0 && !overlaps(old, new, k) {
        lemma_overlap_bounds(old, new, k - 1);
    }
}

/// The overlap that is skipped is the longest there is.
pub proof fn law_overlap_is_the_longest(old: Seq<Seq<char>>, new: Seq<Seq<char>>, j: int)
    requires
        0 < j <= old.len(),
        overlaps(old, new, j),
    ensures
        j <= overlap_up_to(old, new, old.len() as int),
{
    lemma_overlap_bounds(old, new, old.len() as int);
}

/// A safe id holds nothing that a shell or a path would take for more than a
/// name.
pub proof fn law_safe_segments_are_plain(s: Seq<char>)
    requires
        safe_segment(s),
    ensures
        !s.contains('/'),
        !s.contains('\\'),
        !s.contains(' '),
        !s.contains(';'),
        !s.contains('$'),
        !s.contains('`'),
        !s.contains('&'),
        !s.contains('|'),
        s != ".."@,
{
    reveal_strlit("..");
    if s == ".."@ {
        assert(s[0] == '.' && s[1] == '.');
    }
}

/// A pane that scrolled loses nothing: where it dropped its first `gone` lines and
/// gained others, and what it kept is the longest end of the old pane that begins
/// the new one, exactly the gained lines are shown, also those whose text stood on
/// the pane before.
pub proof fn law_scrolled_pane_shows_the_addition(old: Seq<Seq<char>>, gone: int, added: Seq<Seq<char>>)
    requires
        0 <= gone <= old.len(),
        added.len() >= gone,
        forall|j: int|
            0 <= j < gone ==> #[trigger] old.skip(j) != (old.skip(gone) + added).take(old.len() - j),
    ensures
        unseen(old, old.skip(gone) + added) == added,
{
    let new = old.skip(gone) + added;
    let kept = old.len() - gone;
    assert(new.len() >= old.len());
    assert(old.skip(0) =~= old);
    if gone == 0 {
        assert(new =~= old + added);
        law_growth_shows_the_addition(old, added);
    } else {
        assert(!extends(old, new));
        lemma_overlap_bounds(old, new, old.len() as int);
        let k = overlap_up_to(old, new, old.len() as int);
        assert(new.take(kept) =~= old.skip(gone));
        if k > kept {
            assert(old.skip(old.len() - k) == new.take(k));
            assert(old.skip(old.len() - k) != new.take(old.len() - (old.len() - k)));
        }
        if k < kept {
            assert(overlaps(old, new, kept));
        }
        assert(new.skip(kept) =~= added);
    }
}

/// A reader who keeps what it has seen and takes what is shown has the whole of a
/// pane that did not shrink: what is shown stands behind an end of the old pane.
pub proof fn law_shown_lines_complete_the_pane(old: Seq<Seq<char>>, new: Seq<Seq<char>>)
    requires
        new.len() >= old.len(),
    ensures
        exists|gone: int|
            0 <= gone <= old.len() && #[trigger] old.skip(gone) + unseen(old, new) == new && (forall|j: int|
                0 <= j < gone ==> #[trigger] old.skip(j) != new.take(old.len() - j)),
{
    if extends(old, new) {
        assert(old.skip(0) =~= old);
        assert(old.skip(0) + unseen(old, new) =~= new);
    } else {
        lemma_overlap_bounds(old, new, old.len() as int);
        let k = overlap_up_to(old, new, old.len() as int);
        let gone = old.len() - k;
        assert(old.skip(old.len() - k) =~= new.take(k)) by {
            if k == 0 {
                assert(old.skip(old.len() as int) =~= new.take(0));
            }
        }
        assert(old.skip(gone) + unseen(old, new) =~= new);
        assert forall|j: int| 0 <= j < gone implies #[trigger] old.skip(j) != new.take(old.len() - j) by {
            assert(!overlaps(old, new, old.len() - j));
        }
    }
}

proof fn lemma_not_among_filters(lines: Seq<Seq<char>>, others: Seq<Seq<char>>)
    ensures
        not_among(lines, others) == lines.filter(|t: Seq<char>| !others.contains(t)),
    decreases lines.len(),
{
    reveal(Seq::filter);
    if lines.len() > 0 {
        lemma_not_among_filters(lines.drop_last(), others);
    }
}

/// A pane with fewer lines than before shows those of its lines, in order, whose
/// text did not stand on the old pane.
pub proof fn law_cleared_pane_shows_what_was_not_there(old: Seq<Seq<char>>, new: Seq<Seq<char>>)
    requires
        new.len() < old.len(),
    ensures
        unseen(old, new) == new.filter(|t: Seq<char>| !old.contains(t)),
{
    lemma_not_among_filters(new, old);
}

/// A line ends at a newline, and a carriage return before it is no part of it; what
/// follows the last newline is a line where there is anything.
pub proof fn law_lines(line: Seq<char>, rest: Seq<char>)
    requires
        !line.contains('\n'),
    ensures
        line.len() == 0 || line.last() != '\r' ==> lines_of(line + seq!['\n'] + rest) == seq![line] + lines_of(rest),
        lines_of(line + seq!['\r'] + seq!['\n'] + rest) == seq![line] + lines_of(rest),
        line.len() > 0 ==> lines_of(line) == seq![line],
        lines_of(Seq::empty()).len() == 0,
{
    lemma_first_line(line, rest);
    let returned = line + seq!['\r'];
    assert(!returned.contains('\n')) by {
        if returned.contains('\n') {
            let i = choose|i: int| 0 <= i < returned.len() && returned[i] == '\n';
            assert(line[i] == '\n');
        }
    }
    lemma_first_line(returned, rest);
    assert(returned.drop_last() =~= line);
    text::law_splitting(line, '\n', rest);
    let none = Seq::<char>::empty();
    text::law_splitting(none, '\n', rest);
    assert(lines_of(none) =~= Seq::<Seq<char>>::empty());
    if line.len() > 0 {
        assert(lines_of(line) =~= seq![line]);
    }
}

proof fn lemma_first_line(line: Seq<char>, rest: Seq<char>)
    requires
        !line.contains('\n'),
    ensures
        lines_of(line + seq!['\n'] + rest) == seq![without_return(line)] + lines_of(rest),
{
    text::law_splitting(line, '\n', rest);
    let s = line + seq!['\n'] + rest;
    let parts = text::split_parts(s, '\n');
    let tail = text::split_parts(rest, '\n');
    assert(parts == seq![line] + tail);
    assert(tail.len() > 0);
    assert(parts.last() == tail.last());
    assert(lines_of(s) =~= seq![without_return(line)] + lines_of(rest));
}

/// What may be handed to the terminal: letters, digits, and three marks, up to 128
/// bytes, and no two dots in a row.
pub proof fn law_safe_segments(s: Seq<char>, c: char)
    ensures
        safe_segment(s) <==> s.len() > 0 && digest::utf8(s).len() <= 128 && (forall|i: int|
            0 <= i < s.len() ==> segment_char(#[trigger] s[i])) && (forall|i: int|
            0 <= i < s.len() - 1 && #[trigger] s[i] == '.' ==> s[i + 1] != '.'),
        segment_char(c) <==> '0' <= c <= '9' || 'a' <= c <= 'z' || 'A' <= c <= 'Z' || c == '-' || c == '_' || c == '.',
        DEFAULT_POLL_MS == 500 && CHANNEL_BUFFER == 1024 && CAPTURE_LINES == 4000 && KEEP_ALIVE_SECS == 30,
{
}

} // verus!
