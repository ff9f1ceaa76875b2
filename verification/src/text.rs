//! Text primitives: the string operations the adapter's rules are written in,
//! each with a contract over the sequence of characters.

use vstd::prelude::*;

verus! {

/// `String::push`: appends one character.
pub assume_specification[ String::push ](s: &mut String, c: char)
    ensures
        final(s)@ == old(s)@.push(c),
;

/// `String::push_str`: appends a string slice.
pub assume_specification[ String::push_str ](s: &mut String, other: &str)
    ensures
        final(s)@ == old(s)@ + other@,
;

/// The characters with Unicode's `White_Space` property.
pub open spec fn is_white_space(c: char) -> bool {
    let n = c as int;
    ||| 0x9 <= n <= 0xD
    ||| n == 0x20
    ||| n == 0x85
    ||| n == 0xA0
    ||| n == 0x1680
    ||| 0x2000 <= n <= 0x200A
    ||| n == 0x2028
    ||| n == 0x2029
    ||| n == 0x202F
    ||| n == 0x205F
    ||| n == 0x3000
}

/// `char::is_whitespace`: tells whether a character has the `White_Space`
/// property, whose members are the ones that `is_white_space` lists.
pub assume_specification[ char::is_whitespace ](c: char) -> (r: bool)
    ensures
        r == is_white_space(c),
;

// ---------------------------------------------------------------------------
// Character classes
// ---------------------------------------------------------------------------

pub open spec fn is_digit(c: char) -> bool {
    '0' <= c <= '9'
}

pub open spec fn is_alphanumeric(c: char) -> bool {
    is_digit(c) || 'a' <= c <= 'z' || 'A' <= c <= 'Z'
}

pub open spec fn is_hex_digit(c: char) -> bool {
    is_digit(c) || 'a' <= c <= 'f' || 'A' <= c <= 'F'
}

/// The ASCII lower-case form of a character; others stay as they are.
pub open spec fn lower(c: char) -> char {
    if 'A' <= c <= 'Z' {
        ((c as u8) + 32) as char
    } else {
        c
    }
}

pub open spec fn lower_text(s: Seq<char>) -> Seq<char> {
    Seq::new(s.len(), |i: int| lower(s[i]))
}

/// Tells an ASCII digit.
pub fn ascii_digit(c: char) -> (r: bool)
    ensures
        r == is_digit(c),
{
    '0' <= c && c <= '9'
}

/// Tells an ASCII letter or digit.
pub fn ascii_alphanumeric(c: char) -> (r: bool)
    ensures
        r == is_alphanumeric(c),
{
    ascii_digit(c) || ('a' <= c && c <= 'z') || ('A' <= c && c <= 'Z')
}

/// Tells a hexadecimal digit.
pub fn ascii_hex_digit(c: char) -> (r: bool)
    ensures
        r == is_hex_digit(c),
{
    ascii_digit(c) || ('a' <= c && c <= 'f') || ('A' <= c && c <= 'F')
}

/// The ASCII lower-case form of a character.
pub fn ascii_lower(c: char) -> (r: char)
    ensures
        r == lower(c),
{
    if 'A' <= c && c <= 'Z' {
        ((c as u8) + 32) as char
    } else {
        c
    }
}

// ---------------------------------------------------------------------------
// Characters and strings
// ---------------------------------------------------------------------------

/// The characters of a string, in order.
pub fn chars_of(s: &str) -> (r: Vec<char>)
    ensures
        r@ == s@,
{
    let mut out: Vec<char> = Vec::new();
    for c in it: s.chars()
        invariant
            out@ =~= s@.take(it.index()),
            it.seq() == s@,
    {
        out.push(c);
    }
    out
}

/// The string of the characters from `from` up to `to`.
pub fn text_between(cs: &Vec<char>, from: usize, to: usize) -> (r: String)
    requires
        from <= to <= cs@.len(),
    ensures
        r@ == cs@.subrange(from as int, to as int),
{
    let mut out: String = String::new();
    let mut i: usize = from;
    while i < to
        invariant
            from <= i <= to <= cs@.len(),
            out@ =~= cs@.subrange(from as int, i as int),
        decreases to - i,
    {
        out.push(cs[i]);
        i += 1;
    }
    out
}

/// Tells whether two strings hold the same characters.
pub fn same_text(a: &str, b: &str) -> (r: bool)
    ensures
        r == (a@ == b@),
{
    a.to_owned() == b.to_owned()
}

/// The concatenation of two strings.
pub fn concat(a: &str, b: &str) -> (r: String)
    ensures
        r@ == a@ + b@,
{
    let mut out: String = a.to_owned();
    out.push_str(b);
    out
}

/// The concatenation of three strings.
pub fn concat3(a: &str, b: &str, c: &str) -> (r: String)
    ensures
        r@ == a@ + b@ + c@,
{
    let mut out: String = concat(a, b);
    out.push_str(c);
    out
}

/// Tells whether `s` begins with `prefix`.
pub open spec fn starts_with(s: Seq<char>, prefix: Seq<char>) -> bool {
    prefix.len() <= s.len() && s.take(prefix.len() as int) == prefix
}

/// Tells whether a text begins with another.
pub fn has_prefix(s: &str, prefix: &str) -> (r: bool)
    ensures
        r == starts_with(s@, prefix@),
{
    let cs = chars_of(s);
    let ps = chars_of(prefix);
    if ps.len() > cs.len() {
        return false;
    }
    let mut i: usize = 0;
    while i < ps.len()
        invariant
            i <= ps@.len() <= cs@.len(),
            cs@ == s@,
            ps@ == prefix@,
            forall|k: int| 0 <= k < i ==> cs@[k] == ps@[k],
        decreases ps@.len() - i,
    {
        if cs[i] != ps[i] {
            assert(s@.take(prefix@.len() as int)[i as int] != prefix@[i as int]);
            return false;
        }
        i += 1;
    }
    assert(s@.take(prefix@.len() as int) =~= prefix@);
    true
}

/// What follows `prefix` in `s`, where `s` begins with it.
pub fn without_prefix(s: &str, prefix: &str) -> (r: Option<String>)
    ensures
        r is Some <==> starts_with(s@, prefix@),
        r is Some ==> r->0@ == s@.skip(prefix@.len() as int),
{
    if has_prefix(s, prefix) {
        let cs = chars_of(s);
        let n: usize = chars_of(prefix).len();
        let rest = text_between(&cs, n, cs.len());
        assert(cs@.subrange(n as int, cs@.len() as int) =~= s@.skip(prefix@.len() as int));
        Some(rest)
    } else {
        None
    }
}

/// Tells whether `c` occurs in `s`.
pub fn contains_char(s: &str, c: char) -> (r: bool)
    ensures
        r == s@.contains(c),
{
    let cs = chars_of(s);
    let mut i: usize = 0;
    while i < cs.len()
        invariant
            i <= cs@.len(),
            cs@ == s@,
            forall|k: int| 0 <= k < i ==> cs@[k] != c,
        decreases cs@.len() - i,
    {
        if cs[i] == c {
            assert(s@[i as int] == c);
            return true;
        }
        i += 1;
    }
    false
}

/// Tells whether two dots in a row occur in `s`.
pub open spec fn has_double_dot(s: Seq<char>) -> bool {
    exists|i: int| 0 <= i < s.len() - 1 && #[trigger] s[i] == '.' && s[i + 1] == '.'
}

/// Tells whether a text holds two dots in a row.
pub fn contains_double_dot(s: &str) -> (r: bool)
    ensures
        r == has_double_dot(s@),
{
    let cs = chars_of(s);
    let mut i: usize = 0;
    while i < cs.len()
        invariant
            cs@ == s@,
            i <= cs@.len(),
            forall|k: int| 0 <= k < i && k + 1 < cs@.len() ==> !(#[trigger] cs@[k] == '.' && cs@[k + 1] == '.'),
        decreases cs@.len() - i,
    {
        if i + 1 < cs.len() && cs[i] == '.' && cs[i + 1] == '.' {
            assert(s@[i as int] == '.');
            return true;
        }
        i += 1;
    }
    false
}

// ---------------------------------------------------------------------------
// Trimming
// ---------------------------------------------------------------------------

/// `s` without its leading white space.
pub open spec fn trim_start(s: Seq<char>) -> Seq<char>
    decreases s.len(),
{
    if s.len() > 0 && is_white_space(s[0]) {
        trim_start(s.skip(1))
    } else {
        s
    }
}

/// `s` without its trailing white space.
pub open spec fn trim_end(s: Seq<char>) -> Seq<char>
    decreases s.len(),
{
    if s.len() > 0 && is_white_space(s.last()) {
        trim_end(s.drop_last())
    } else {
        s
    }
}

/// `s` without the white space around it.
pub open spec fn trimmed(s: Seq<char>) -> Seq<char> {
    trim_end(trim_start(s))
}

/// Nothing but white space.
pub open spec fn blank(s: Seq<char>) -> bool {
    trimmed(s).len() == 0
}

/// `s` without the white space around it.
pub fn trim(s: &str) -> (r: String)
    ensures
        r@ == trimmed(s@),
{
    let cs = chars_of(s);
    let n: usize = cs.len();
    let mut from: usize = 0;
    assert(cs@.skip(0) =~= cs@);
    while from < n && cs[from].is_whitespace()
        invariant
            from <= n == cs@.len(),
            trim_start(cs@) == trim_start(cs@.skip(from as int)),
        decreases n - from,
    {
        assert(cs@.skip(from as int).skip(1) =~= cs@.skip(from as int + 1));
        from += 1;
    }
    let mut to: usize = n;
    assert(trim_start(cs@) == cs@.skip(from as int));
    assert(cs@.subrange(from as int, n as int) =~= cs@.skip(from as int));
    while to > from && cs[to - 1].is_whitespace()
        invariant
            from <= to <= n == cs@.len(),
            trim_end(cs@.skip(from as int)) == trim_end(cs@.subrange(from as int, to as int)),
        decreases to - from,
    {
        assert(cs@.subrange(from as int, to as int).drop_last() =~= cs@.subrange(from as int, to as int - 1));
        to -= 1;
    }
    text_between(&cs, from, to)
}

/// Tells whether `s` is nothing but white space.
pub fn is_blank(s: &str) -> (r: bool)
    ensures
        r == blank(s@),
{
    trim(s).as_str().is_empty()
}

/// Trimming leaves text that neither begins nor ends with white space.
pub proof fn lemma_trimmed_edges(s: Seq<char>)
    ensures
        trimmed(s).len() > 0 ==> !is_white_space(trimmed(s)[0]) && !is_white_space(trimmed(s).last()),
        trimmed(s).len() <= s.len(),
{
    lemma_trim_start_edge(s);
    lemma_trim_end_edge(trim_start(s));
}

proof fn lemma_trim_start_edge(s: Seq<char>)
    ensures
        trim_start(s).len() > 0 ==> !is_white_space(trim_start(s)[0]),
        trim_start(s).len() <= s.len(),
    decreases s.len(),
{
    if s.len() > 0 && is_white_space(s[0]) {
        lemma_trim_start_edge(s.skip(1));
    }
}

proof fn lemma_trim_end_edge(s: Seq<char>)
    ensures
        trim_end(s).len() > 0 ==> !is_white_space(trim_end(s).last()) && trim_end(s)[0] == s[0],
        trim_end(s).len() <= s.len(),
    decreases s.len(),
{
    if s.len() > 0 && is_white_space(s.last()) {
        lemma_trim_end_edge(s.drop_last());
    }
}

/// Trimming twice is trimming once.
pub proof fn lemma_trimmed_idempotent(s: Seq<char>)
    ensures
        trimmed(trimmed(s)) == trimmed(s),
{
    lemma_trimmed_edges(s);
}

/// `s` without the occurrences of `c` that end it.
pub open spec fn trim_end_char(s: Seq<char>, c: char) -> Seq<char>
    decreases s.len(),
{
    if s.len() > 0 && s.last() == c {
        trim_end_char(s.drop_last(), c)
    } else {
        s
    }
}

/// `s` without the occurrences of `c` that begin it.
pub open spec fn trim_start_char(s: Seq<char>, c: char) -> Seq<char>
    decreases s.len(),
{
    if s.len() > 0 && s[0] == c {
        trim_start_char(s.skip(1), c)
    } else {
        s
    }
}

/// `s` without the occurrences of `c` around it.
pub open spec fn trim_char(s: Seq<char>, c: char) -> Seq<char> {
    trim_end_char(trim_start_char(s, c), c)
}

/// A text without the run of a character at its end.
pub fn without_trailing(s: &str, c: char) -> (r: String)
    ensures
        r@ == trim_end_char(s@, c),
{
    let cs = chars_of(s);
    let mut to: usize = cs.len();
    assert(cs@.take(to as int) =~= cs@);
    while to > 0 && cs[to - 1] == c
        invariant
            to <= cs@.len(),
            trim_end_char(cs@, c) == trim_end_char(cs@.take(to as int), c),
        decreases to,
    {
        assert(cs@.take(to as int).drop_last() =~= cs@.take(to as int - 1));
        to -= 1;
    }
    assert(cs@.subrange(0, to as int) =~= cs@.take(to as int));
    text_between(&cs, 0, to)
}

/// A text without the runs of a character at both ends.
pub fn without_surrounding(s: &str, c: char) -> (r: String)
    ensures
        r@ == trim_char(s@, c),
{
    let cs = chars_of(s);
    let mut from: usize = 0;
    assert(cs@.skip(0) =~= cs@);
    while from < cs.len() && cs[from] == c
        invariant
            from <= cs@.len(),
            trim_start_char(cs@, c) == trim_start_char(cs@.skip(from as int), c),
        decreases cs@.len() - from,
    {
        assert(cs@.skip(from as int).skip(1) =~= cs@.skip(from as int + 1));
        from += 1;
    }
    let rest = text_between(&cs, from, cs.len());
    assert(cs@.subrange(from as int, cs@.len() as int) =~= cs@.skip(from as int));
    without_trailing(rest.as_str(), c)
}

// ---------------------------------------------------------------------------
// Splitting
// ---------------------------------------------------------------------------

/// The position of the first `c` in `s`; the length of `s` where there is none.
pub open spec fn first_at(s: Seq<char>, c: char) -> int
    decreases s.len(),
{
    if s.len() == 0 || s[0] == c {
        0
    } else {
        1 + first_at(s.skip(1), c)
    }
}

pub proof fn lemma_first_at(s: Seq<char>, c: char)
    ensures
        0 <= first_at(s, c) <= s.len(),
        first_at(s, c) < s.len() ==> s[first_at(s, c)] == c,
        forall|k: int| 0 <= k < first_at(s, c) ==> s[k] != c,
        first_at(s, c) < s.len() <==> s.contains(c),
    decreases s.len(),
{
    if s.len() > 0 && s[0] != c {
        let t = s.skip(1);
        lemma_first_at(t, c);
        assert forall|k: int| 0 <= k < first_at(s, c) implies s[k] != c by {
            if k > 0 {
                assert(t[k - 1] == s[k]);
            }
        }
    }
}

/// The position of the last `c` in `s`, or -1 where there is none.
pub open spec fn last_at(s: Seq<char>, c: char) -> int
    decreases s.len(),
{
    if s.len() == 0 {
        -1
    } else if s.last() == c {
        s.len() - 1
    } else {
        last_at(s.drop_last(), c)
    }
}

pub proof fn lemma_last_at(s: Seq<char>, c: char)
    ensures
        -1 <= last_at(s, c) < s.len(),
        last_at(s, c) >= 0 ==> s[last_at(s, c)] == c,
        forall|k: int| last_at(s, c) < k < s.len() ==> s[k] != c,
    decreases s.len(),
{
    if s.len() > 0 && s.last() != c {
        lemma_last_at(s.drop_last(), c);
        assert forall|k: int| last_at(s, c) < k < s.len() implies s[k] != c by {
            if k < s.len() - 1 {
                assert(s.drop_last()[k] == s[k]);
            }
        }
    }
}

/// The position of the first `c` at or behind `from`; the length where there
/// is none.
pub fn find_char(cs: &Vec<char>, from: usize, c: char) -> (r: usize)
    requires
        from <= cs@.len(),
    ensures
        from <= r <= cs@.len(),
        r - from == first_at(cs@.skip(from as int), c),
{
    let mut i: usize = from;
    assert(cs@.skip(from as int).skip(0) =~= cs@.skip(from as int));
    while i < cs.len() && cs[i] != c
        invariant
            from <= i <= cs@.len(),
            first_at(cs@.skip(from as int), c) == (i - from) + first_at(cs@.skip(i as int), c),
        decreases cs@.len() - i,
    {
        assert(cs@.skip(i as int).skip(1) =~= cs@.skip(i as int + 1));
        i += 1;
    }
    i
}

/// The parts before and behind the first `sep`, where there is one.
pub fn split_once(s: &str, sep: char) -> (r: Option<(String, String)>)
    ensures
        r is Some <==> s@.contains(sep),
        r is Some ==> {
            &&& (r->0).0@ == s@.take(first_at(s@, sep))
            &&& (r->0).1@ == s@.skip(first_at(s@, sep) + 1)
        },
{
    let cs = chars_of(s);
    assert(cs@.skip(0) =~= cs@);
    let at: usize = find_char(&cs, 0, sep);
    proof {
        lemma_first_at(s@, sep);
    }
    if at == cs.len() {
        None
    } else {
        let a = text_between(&cs, 0, at);
        let b = text_between(&cs, at + 1, cs.len());
        assert(cs@.subrange(0, at as int) =~= s@.take(first_at(s@, sep)));
        assert(cs@.subrange(at as int + 1, cs@.len() as int) =~= s@.skip(first_at(s@, sep) + 1));
        Some((a, b))
    }
}

/// The parts before and behind the last `sep`, where there is one.
pub fn split_last(s: &str, sep: char) -> (r: Option<(String, String)>)
    ensures
        r is Some <==> last_at(s@, sep) >= 0,
        r is Some ==> {
            &&& (r->0).0@ == s@.take(last_at(s@, sep))
            &&& (r->0).1@ == s@.skip(last_at(s@, sep) + 1)
        },
{
    let cs = chars_of(s);
    let mut end: usize = cs.len();
    assert(cs@.take(end as int) =~= cs@);
    while end > 0 && cs[end - 1] != sep
        invariant
            end <= cs@.len(),
            last_at(cs@, sep) == last_at(cs@.take(end as int), sep),
        decreases end,
    {
        assert(cs@.take(end as int).drop_last() =~= cs@.take(end as int - 1));
        end -= 1;
    }
    if end == 0 {
        None
    } else {
        let at: usize = end - 1;
        let a = text_between(&cs, 0, at);
        let b = text_between(&cs, at + 1, cs.len());
        assert(cs@.subrange(0, at as int) =~= s@.take(at as int));
        assert(cs@.subrange(at as int + 1, cs@.len() as int) =~= s@.skip(at as int + 1));
        Some((a, b))
    }
}

/// The parts of `s` between the occurrences of `sep`.
pub open spec fn split_parts(s: Seq<char>, sep: char) -> Seq<Seq<char>>
    decreases s.len(),
{
    let at = first_at(s, sep);
    if 0 <= at < s.len() {
        seq![s.take(at)] + split_parts(s.skip(at + 1), sep)
    } else {
        seq![s]
    }
}

/// The views of a list of strings.
pub open spec fn views(v: Seq<String>) -> Seq<Seq<char>> {
    Seq::new(v.len(), |i: int| v[i]@)
}

/// The parts of `s` between the occurrences of `sep`, in order.
pub fn split(s: &str, sep: char) -> (r: Vec<String>)
    ensures
        views(r@) == split_parts(s@, sep),
{
    let cs = chars_of(s);
    let mut out: Vec<String> = Vec::new();
    let mut from: usize = 0;
    assert(cs@.skip(0) =~= cs@);
    assert(views(out@) + split_parts(cs@, sep) =~= split_parts(cs@, sep));
    loop
        invariant
            from <= cs@.len(),
            cs@ == s@,
            views(out@) + split_parts(cs@.skip(from as int), sep) == split_parts(s@, sep),
        decreases cs@.len() - from,
    {
        let at: usize = find_char(&cs, from, sep);
        let ghost tail = cs@.skip(from as int);
        let ghost before = out@;
        proof {
            lemma_first_at(tail, sep);
            lemma_first_at(s@, sep);
        }
        let part = text_between(&cs, from, at);
        assert(cs@.subrange(from as int, at as int) =~= tail.take(at - from));
        out.push(part);
        assert(views(out@) =~= views(before).push(part@));
        if at == cs.len() {
            assert(part@ =~= tail);
            assert(views(before) + seq![tail] =~= views(out@));
            return out;
        }
        assert(tail.skip(at - from + 1) =~= cs@.skip(at as int + 1));
        assert(views(before) + (seq![part@] + split_parts(cs@.skip(at as int + 1), sep)) =~= views(out@)
            + split_parts(cs@.skip(at as int + 1), sep));
        from = at + 1;
    }
}

// ---------------------------------------------------------------------------
// ASCII case
// ---------------------------------------------------------------------------

/// A text in ASCII lower case.
pub fn lowercase(s: &str) -> (r: String)
    ensures
        r@ == lower_text(s@),
{
    let cs = chars_of(s);
    let mut out: String = String::new();
    let mut i: usize = 0;
    while i < cs.len()
        invariant
            i <= cs@.len(),
            cs@ == s@,
            out@ =~= lower_text(s@).take(i as int),
        decreases cs@.len() - i,
    {
        out.push(ascii_lower(cs[i]));
        i += 1;
    }
    out
}

/// Tells whether two texts are the same but for ASCII case.
pub fn same_text_ignoring_case(a: &str, b: &str) -> (r: bool)
    ensures
        r == (lower_text(a@) == lower_text(b@)),
{
    same_text(lowercase(a).as_str(), lowercase(b).as_str())
}

// ---------------------------------------------------------------------------
// Lists of strings
// ---------------------------------------------------------------------------

/// Tells whether the list holds the text.
pub open spec fn lists(v: Seq<String>, s: Seq<char>) -> bool {
    exists|i: int| 0 <= i < v.len() && #[trigger] v[i]@ == s
}

/// A list holds a text exactly where the sequence of its texts does.
pub proof fn lemma_listed(v: Seq<String>, s: Seq<char>)
    ensures
        lists(v, s) <==> views(v).contains(s),
{
    if lists(v, s) {
        let i = choose|i: int| 0 <= i < v.len() && #[trigger] v[i]@ == s;
        assert(views(v)[i] == s);
    }
    if views(v).contains(s) {
        let i = choose|i: int| 0 <= i < views(v).len() && views(v)[i] == s;
        assert(v[i]@ == s);
    }
}

/// Tells whether a list holds a text.
pub fn list_contains(v: &Vec<String>, s: &str) -> (r: bool)
    ensures
        r == lists(v@, s@),
{
    let mut i: usize = 0;
    while i < v.len()
        invariant
            i <= v@.len(),
            forall|k: int| 0 <= k < i ==> #[trigger] v@[k]@ != s@,
        decreases v@.len() - i,
    {
        if same_text(v[i].as_str(), s) {
            return true;
        }
        i += 1;
    }
    false
}

/// A copy of a list of strings.
pub fn copy_list(v: &Vec<String>) -> (r: Vec<String>)
    ensures
        r@ == v@,
{
    let mut out: Vec<String> = Vec::new();
    let mut i: usize = 0;
    while i < v.len()
        invariant
            i <= v@.len(),
            out@ =~= v@.take(i as int),
        decreases v@.len() - i,
    {
        out.push(v[i].clone());
        i += 1;
    }
    out
}

// ---------------------------------------------------------------------------
// Quoting
// ---------------------------------------------------------------------------

/// A text as a Rust string literal, as `str`'s `Debug` writes it.
pub uninterp spec fn quoted_of(s: Seq<char>) -> Seq<char>;

/// `format!("{:?}", ..)` of a `str`: a text that is a function of the string. How
/// it escapes is not said here.
#[verifier::external_body]
pub(crate) fn quoted(s: &str) -> (r: String)
    ensures
        r@ == quoted_of(s@),
{
    format!("{:?}", s)
}

// ---------------------------------------------------------------------------
// Laws
// ---------------------------------------------------------------------------


/// The classes of characters, by their members.
pub proof fn law_classes_of_characters(c: char)
    ensures
        is_digit(c) <==> "0123456789"@.contains(c),
        is_hex_digit(c) <==> "0123456789abcdefABCDEF"@.contains(c),
        is_alphanumeric(c) <==> "0123456789abcdefghijklmnopqrstuvwxyzABCDEFGHIJKLMNOPQRSTUVWXYZ"@.contains(c),
        is_white_space(' ') && is_white_space('\t') && is_white_space('\n') && is_white_space('\r'),
        '!' <= c <= '~' ==> !is_white_space(c),
        is_white_space(c) <==> 9 <= c as int <= 13 || c as int == 32 || c as int == 133 || c as int == 160 || c as int == 5760
            || 8192 <= c as int <= 8202 || c as int == 8232 || c as int == 8233 || c as int == 8239 || c as int == 8287 || c as int
            == 12288,
{
    reveal_strlit("0123456789");
    reveal_strlit("0123456789abcdefABCDEF");
    reveal_strlit("0123456789abcdefghijklmnopqrstuvwxyzABCDEFGHIJKLMNOPQRSTUVWXYZ");
    let digits = "0123456789"@;
    let hex = "0123456789abcdefABCDEF"@;
    let all = "0123456789abcdefghijklmnopqrstuvwxyzABCDEFGHIJKLMNOPQRSTUVWXYZ"@;
    let n = c as int;
    if is_digit(c) {
        assert(digits[n - 48] == c);
        assert(hex[n - 48] == c);
        assert(all[n - 48] == c);
    }
    if 'a' <= c <= 'z' {
        assert(all[n - 97 + 10] == c);
        if c <= 'f' {
            assert(hex[n - 97 + 10] == c);
        }
    }
    if 'A' <= c <= 'Z' {
        assert(all[n - 65 + 36] == c);
        if c <= 'F' {
            assert(hex[n - 65 + 16] == c);
        }
    }
}

/// Lower case touches the letters from A to Z, each on its own, and leaves the rest.
pub proof fn law_lower_case(s: Seq<char>, i: int)
    requires
        0 <= i < s.len(),
    ensures
        lower_text(s).len() == s.len(),
        'A' <= s[i] <= 'Z' ==> lower_text(s)[i] as int == s[i] as int + 32,
        !('A' <= s[i] <= 'Z') ==> lower_text(s)[i] == s[i],
{
}

/// A text begins with another exactly where it is the other with something behind.
pub proof fn law_prefixes(s: Seq<char>, prefix: Seq<char>, rest: Seq<char>)
    ensures
        starts_with(prefix + rest, prefix),
        starts_with(s, prefix) ==> s == prefix + s.skip(prefix.len() as int),
{
    assert((prefix + rest).take(prefix.len() as int) =~= prefix);
    if starts_with(s, prefix) {
        assert(s =~= prefix + s.skip(prefix.len() as int));
    }
}

/// Two dots in a row stand in a text exactly where it can be taken apart around them.
pub proof fn law_double_dots(a: Seq<char>, b: Seq<char>, s: Seq<char>)
    ensures
        has_double_dot(a + ".."@ + b),
        !s.contains('.') ==> !has_double_dot(s),
        has_double_dot(s) ==> exists|k: int| 0 <= k < s.len() - 1 && #[trigger] s[k] == '.' && s[k + 1] == '.',
{
    reveal_strlit("..");
    let t = a + ".."@ + b;
    assert(t[a.len() as int] == '.' && t[a.len() as int + 1] == '.');
}

/// Trimming takes white space off either end, character by character, and nothing
/// else: a text that begins and ends with another character stays as it is.
pub proof fn law_trimming(s: Seq<char>, c: char)
    ensures
        is_white_space(c) ==> trimmed(seq![c] + s) == trimmed(s),
        is_white_space(c) ==> trim_end(s.push(c)) == trim_end(s),
        s.len() == 0 || (!is_white_space(s[0]) && !is_white_space(s.last())) ==> trimmed(s) == s,
        s.len() == 0 || !is_white_space(s[0]) ==> trim_start(s) == s,
        s.len() == 0 || !is_white_space(s.last()) ==> trim_end(s) == s,
        is_white_space(c) ==> trim_start(seq![c] + s) == trim_start(s),
        trimmed(s) == trim_end(trim_start(s)),
{
    assert((seq![c] + s).skip(1) =~= s);
    assert(s.push(c).drop_last() =~= s);
}

proof fn lemma_blank(s: Seq<char>)
    ensures
        (forall|i: int| 0 <= i < s.len() ==> is_white_space(#[trigger] s[i])) ==> trim_start(s).len() == 0,
        forall|i: int| 0 <= i < s.len() && !is_white_space(#[trigger] s[i]) ==> trim_start(s).len() > 0,
    decreases s.len(),
{
    if s.len() > 0 && is_white_space(s[0]) {
        let t = s.skip(1);
        lemma_blank(t);
        assert(forall|i: int| 0 <= i < t.len() ==> #[trigger] t[i] == s[i + 1]);
        if forall|i: int| 0 <= i < s.len() ==> is_white_space(#[trigger] s[i]) {
            assert forall|i: int| 0 <= i < t.len() implies is_white_space(#[trigger] t[i]) by {
                assert(is_white_space(s[i + 1]));
            }
        }
        assert forall|i: int| 0 <= i < s.len() && !is_white_space(#[trigger] s[i]) implies trim_start(s).len() > 0 by {
            assert(t[i - 1] == s[i]);
        }
    }
}

/// A text is blank exactly where it holds nothing but white space.
pub proof fn law_blank_texts(s: Seq<char>)
    ensures
        blank(s) <==> forall|i: int| 0 <= i < s.len() ==> is_white_space(#[trigger] s[i]),
{
    lemma_blank(s);
    let t = trim_start(s);
    lemma_trim_start_edge(s);
    if t.len() > 0 {
        assert(trim_end(t).len() > 0) by {
            lemma_trim_end_keeps(t);
        }
    }
    if !(forall|i: int| 0 <= i < s.len() ==> is_white_space(#[trigger] s[i])) {
        let i = choose|i: int| 0 <= i < s.len() && !is_white_space(#[trigger] s[i]);
        assert(t.len() > 0);
    }
}

proof fn lemma_trim_end_keeps(s: Seq<char>)
    requires
        s.len() > 0,
        !is_white_space(s[0]),
    ensures
        trim_end(s).len() > 0,
    decreases s.len(),
{
    if is_white_space(s.last()) {
        assert(s.drop_last()[0] == s[0]);
        lemma_trim_end_keeps(s.drop_last());
    }
}

/// A character that surrounds a text is taken off either end, each time it stands
/// there, and no other is.
pub proof fn law_trimming_a_character(s: Seq<char>, c: char)
    ensures
        trim_end_char(s.push(c), c) == trim_end_char(s, c),
        trim_start_char(seq![c] + s, c) == trim_start_char(s, c),
        s.len() == 0 || s.last() != c ==> trim_end_char(s, c) == s,
        s.len() == 0 || s[0] != c ==> trim_start_char(s, c) == s,
        trim_char(s, c) == trim_end_char(trim_start_char(s, c), c),
{
    assert((seq![c] + s).skip(1) =~= s);
    assert(s.push(c).drop_last() =~= s);
}

pub proof fn lemma_first_behind(a: Seq<char>, c: char, b: Seq<char>)
    requires
        !a.contains(c),
    ensures
        first_at(a + seq![c] + b, c) == a.len(),
        first_at(a, c) == a.len(),
{
    let s = a + seq![c] + b;
    lemma_first_at(s, c);
    lemma_first_at(a, c);
    assert(s[a.len() as int] == c);
    assert(s.contains(c));
    if first_at(s, c) < a.len() {
        assert(a[first_at(s, c)] == c);
    }
}

/// A text is taken apart at every separator: what stands before the first is the
/// first part, and the parts of the rest follow. Without one it is one part.
pub proof fn law_splitting(a: Seq<char>, sep: char, b: Seq<char>)
    requires
        !a.contains(sep),
    ensures
        split_parts(a + seq![sep] + b, sep) == seq![a] + split_parts(b, sep),
        split_parts(a, sep) == seq![a],
{
    let s = a + seq![sep] + b;
    lemma_first_behind(a, sep, b);
    assert(s.take(a.len() as int) =~= a);
    assert(s.skip(a.len() as int + 1) =~= b);
}

/// The views of a list are those of its strings, in order, and the list holds a text
/// where one of them is it.
pub proof fn law_lists(v: Seq<String>, s: Seq<char>, i: int)
    ensures
        views(v).len() == v.len(),
        0 <= i < v.len() ==> views(v)[i] == v[i]@,
        0 <= i < v.len() && v[i]@ == s ==> lists(v, s),
        lists(v, s) <==> views(v).contains(s),
{
    lemma_listed(v, s);
}

/// What a trimmed text holds, the text held.
pub proof fn lemma_trimmed_within(s: Seq<char>, c: char)
    requires
        trimmed(s).contains(c),
    ensures
        s.contains(c),
{
    lemma_trim_end_within(trim_start(s), c);
    lemma_trim_start_within(s, c);
}

proof fn lemma_trim_end_within(s: Seq<char>, c: char)
    requires
        trim_end(s).contains(c),
    ensures
        s.contains(c),
    decreases s.len(),
{
    if s.len() > 0 && is_white_space(s.last()) {
        lemma_trim_end_within(s.drop_last(), c);
        let i = choose|i: int| 0 <= i < s.drop_last().len() && s.drop_last()[i] == c;
        assert(s[i] == c);
    }
}

proof fn lemma_trim_start_within(s: Seq<char>, c: char)
    requires
        trim_start(s).contains(c),
    ensures
        s.contains(c),
    decreases s.len(),
{
    if s.len() > 0 && is_white_space(s[0]) {
        lemma_trim_start_within(s.skip(1), c);
        let i = choose|i: int| 0 <= i < s.skip(1).len() && s.skip(1)[i] == c;
        assert(s[i + 1] == c);
    }
}

} // verus!
