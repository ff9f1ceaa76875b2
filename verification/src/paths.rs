//! File paths as text, with `/` between the segments.

use vstd::prelude::*;
use crate::text;
use crate::text::{chars_of, concat, concat3, contains_char, same_text, same_text_ignoring_case, split_last, text_between, without_prefix};

verus! {

/// `part` put behind `base`: an absolute `part` stands alone; otherwise one `/`
/// parts the two, unless `base` is empty or already ends with one.
pub open spec fn joined(base: Seq<char>, part: Seq<char>) -> Seq<char> {
    if part.len() > 0 && part[0] == '/' {
        part
    } else if base.len() == 0 || base.last() == '/' {
        base + part
    } else {
        base + seq!['/'] + part
    }
}

/// The path of a part below a base.
pub fn join(base: &str, part: &str) -> (r: String)
    ensures
        r@ == joined(base@, part@),
{
    let b = chars_of(base);
    let p = chars_of(part);
    if p.len() > 0 && p[0] == '/' {
        part.to_owned()
    } else if b.len() == 0 || b[b.len() - 1] == '/' {
        concat(base, part)
    } else {
        proof {
            reveal_strlit("/");
            assert("/"@ =~= seq!['/']);
        }
        concat3(base, "/", part)
    }
}

/// A name that stands for one entry of a directory: not empty, without a
/// separator, and neither the directory itself nor the one above it.
pub open spec fn one_segment(s: Seq<char>) -> bool {
    s.len() > 0 && !s.contains('/') && s != "."@ && s != ".."@
}

/// Tells whether a name stands for one entry of a directory.
pub fn is_one_segment(s: &str) -> (r: bool)
    ensures
        r == one_segment(s@),
{
    !s.is_empty() && !contains_char(s, '/') && !same_text(s, ".") && !same_text(s, "..")
}

/// A path without the slashes and the `.` segments that end it.
pub open spec fn without_tail(p: Seq<char>) -> Seq<char>
    decreases p.len(),
{
    if p.len() > 0 && p.last() == '/' {
        without_tail(p.drop_last())
    } else if p.len() > 1 && p.last() == '.' && p[p.len() - 2] == '/' {
        without_tail(p.drop_last())
    } else {
        p
    }
}

/// The segment behind the last `/`.
pub open spec fn last_segment(p: Seq<char>) -> Seq<char> {
    p.skip(text::last_at(p, '/') + 1)
}

/// The name a path ends in; empty where it ends in no name (`/`, `.`, `..`).
pub open spec fn file_name_of(p: Seq<char>) -> Seq<char> {
    let name = last_segment(without_tail(p));
    if name == seq!['.'] || name == seq!['.', '.'] {
        Seq::empty()
    } else {
        name
    }
}

/// The name a path ends in; empty where it ends in no name (`/`, `.`, `..`).
pub fn file_name_lossy(path: &str) -> (r: String)
    ensures
        r@ == file_name_of(path@),
{
    let cs = chars_of(path);
    let mut end: usize = cs.len();
    assert(cs@.take(end as int) =~= cs@);
    while end > 0 && (cs[end - 1] == '/' || (end > 1 && cs[end - 1] == '.' && cs[end - 2] == '/'))
        invariant
            end <= cs@.len(),
            without_tail(cs@) == without_tail(cs@.take(end as int)),
        decreases end,
    {
        assert(cs@.take(end as int).drop_last() =~= cs@.take(end as int - 1));
        end -= 1;
    }
    let body = text_between(&cs, 0, end);
    assert(cs@.subrange(0, end as int) =~= cs@.take(end as int));
    proof {
        text::lemma_last_at(body@, '/');
        reveal_strlit(".");
        reveal_strlit("..");
        assert("."@ =~= seq!['.']);
        assert(".."@ =~= seq!['.', '.']);
    }
    let name = match split_last(body.as_str(), '/') {
        Some((_, name)) => name,
        None => {
            assert(last_segment(body@) =~= body@);
            body
        },
    };
    if same_text(name.as_str(), ".") || same_text(name.as_str(), "..") {
        String::new()
    } else {
        name
    }
}

/// The part of a file name behind its last dot, where it has one that does not
/// begin the name.
pub open spec fn extension_of(name: Seq<char>) -> Option<Seq<char>> {
    if text::last_at(name, '.') > 0 {
        Some(name.skip(text::last_at(name, '.') + 1))
    } else {
        None
    }
}

/// Tells whether the path names a TOML file.
pub open spec fn names_toml(path: Seq<char>) -> bool {
    extension_of(file_name_of(path)) matches Some(ext) && text::lower_text(ext) == text::lower_text("toml"@)
}

/// Tells whether the path names a TOML file.
pub fn is_toml(path: &str) -> (r: bool)
    ensures
        r == names_toml(path@),
{
    let name = file_name_lossy(path);
    proof {
        text::lemma_last_at(name@, '.');
    }
    match split_last(name.as_str(), '.') {
        Some((stem, ext)) => {
            if stem.as_str().is_empty() {
                false
            } else {
                same_text_ignoring_case(ext.as_str(), "toml")
            }
        },
        None => false,
    }
}

/// A path with a leading `~/` put below the home directory, where there is one.
pub open spec fn expanded(path: Seq<char>, home: Option<Seq<char>>) -> Seq<char> {
    match home {
        Some(h) => if text::starts_with(path, "~/"@) {
            joined(h, path.skip(2))
        } else {
            path
        },
        None => path,
    }
}

/// A path with a leading `~/` put below the home directory, where there is one.
pub fn expand_tilde(path: &str, home: Option<&str>) -> (r: String)
    ensures
        r@ == expanded(path@, crate::routes::view_of(home)),
{
    proof {
        reveal_strlit("~/");
    }
    match home {
        Some(h) => match without_prefix(path, "~/") {
            Some(rest) => join(h, rest.as_str()),
            None => path.to_owned(),
        },
        None => path.to_owned(),
    }
}

// ---------------------------------------------------------------------------
// Laws
// ---------------------------------------------------------------------------


/// A path and a name below it are parted by one slash, also where the path ends in
/// one; an absolute part stands alone, and nothing is put before the first.
pub proof fn law_joining(base: Seq<char>, part: Seq<char>)
    ensures
        part.len() > 0 && part[0] == '/' ==> joined(base, part) == part,
        (part.len() == 0 || part[0] != '/') && base.len() > 0 && base.last() != '/' ==> joined(base, part) == base + seq![
            '/',
        ] + part,
        (part.len() == 0 || part[0] != '/') && base.len() > 0 && base.last() == '/' ==> joined(base, part) == base + part,
        (part.len() == 0 || part[0] != '/') ==> joined(Seq::empty(), part) == part,
{
    assert(Seq::<char>::empty() + part =~= part);
}

/// One segment is a name without a slash that is neither of the two names every
/// directory has.
pub proof fn law_segments(s: Seq<char>)
    ensures
        one_segment(s) <==> s.len() > 0 && !s.contains('/') && s != "."@ && s != ".."@,
{
}

proof fn lemma_last_behind(a: Seq<char>, c: char, b: Seq<char>)
    requires
        !b.contains(c),
    ensures
        text::last_at(a + seq![c] + b, c) == a.len(),
        text::last_at(b, c) == -1,
{
    let s = a + seq![c] + b;
    text::lemma_last_at(s, c);
    text::lemma_last_at(b, c);
    assert(s[a.len() as int] == c);
    if text::last_at(s, c) > a.len() {
        assert(b[text::last_at(s, c) - a.len() - 1] == c);
    }
    if text::last_at(b, c) >= 0 {
        assert(b[text::last_at(b, c)] == c);
    }
}

/// The name of a file is what stands behind the last slash of its path, and the name
/// itself where there is none.
pub proof fn law_file_names(dir: Seq<char>, name: Seq<char>)
    requires
        one_segment(name),
    ensures
        file_name_of(dir + seq!['/'] + name) == name,
        file_name_of(name) == name,
{
    reveal_strlit(".");
    reveal_strlit("..");
    let p = dir + seq!['/'] + name;
    assert(name.contains(name.last()));
    assert(p.last() == name.last());
    assert("."@ =~= seq!['.']);
    assert(".."@ =~= seq!['.', '.']);
    if name.len() == 1 && name.last() == '.' {
        assert(name =~= "."@);
    }
    if name.len() > 1 {
        assert(name.contains(name[name.len() - 2]));
        assert(p[p.len() - 2] == name[name.len() - 2]);
    }
    assert(without_tail(p) == p);
    assert(without_tail(name) == name);
    lemma_last_behind(dir, '/', name);
    assert(p.skip(dir.len() as int + 1) =~= name);
    assert(name.skip(0) =~= name);
}

/// A slash at the end of a path does not change the name it ends in.
pub proof fn law_trailing_slashes(p: Seq<char>)
    ensures
        file_name_of(p.push('/')) == file_name_of(p),
{
    assert(p.push('/').drop_last() =~= p);
}

/// The extension is what stands behind the last dot of a name, unless that dot begins
/// it; a name without a dot has none.
pub proof fn law_extensions(stem: Seq<char>, ext: Seq<char>)
    requires
        !ext.contains('.'),
    ensures
        stem.len() > 0 ==> extension_of(stem + seq!['.'] + ext) == Some(ext),
        extension_of(seq!['.'] + ext) is None,
        extension_of(ext) is None,
{
    lemma_last_behind(stem, '.', ext);
    lemma_last_behind(Seq::empty(), '.', ext);
    assert((stem + seq!['.'] + ext).skip(stem.len() as int + 1) =~= ext);
    assert(Seq::<char>::empty() + seq!['.'] + ext =~= seq!['.'] + ext);
}

/// A path names a TOML file where its name ends in a dot and `toml`, in any case.
pub proof fn law_toml_files(dir: Seq<char>, stem: Seq<char>, ext: Seq<char>)
    requires
        stem.len() > 0,
        !ext.contains('.'),
        one_segment(stem + seq!['.'] + ext),
    ensures
        names_toml(dir + seq!['/'] + (stem + seq!['.'] + ext)) <==> ext.len() == 4 && (ext[0] == 't' || ext[0] == 'T') && (ext[1]
            == 'o' || ext[1] == 'O') && (ext[2] == 'm' || ext[2] == 'M') && (ext[3] == 'l' || ext[3] == 'L'),
{
    let name = stem + seq!['.'] + ext;
    law_file_names(dir, name);
    law_extensions(stem, ext);
    reveal_strlit("toml");
    let low = text::lower_text(ext);
    let word = text::lower_text("toml"@);
    assert(word.len() == 4 && word[0] == 't' && word[1] == 'o' && word[2] == 'm' && word[3] == 'l');
    if ext.len() == 4 {
        assert(low[0] == text::lower(ext[0]) && low[1] == text::lower(ext[1]) && low[2] == text::lower(ext[2]) && low[3]
            == text::lower(ext[3]));
        if low == word {
            assert(low[0] == 't' && low[1] == 'o' && low[2] == 'm' && low[3] == 'l');
        }
        if low[0] == 't' && low[1] == 'o' && low[2] == 'm' && low[3] == 'l' {
            assert(low =~= word);
        }
    } else {
        assert(low.len() != word.len());
    }
}

/// A path that begins with a tilde and a slash lies below the home directory; any
/// other, and one without a home, stays as it is.
pub proof fn law_home_paths(rest: Seq<char>, path: Seq<char>, home: Seq<char>)
    ensures
        expanded("~/"@ + rest, Some(home)) == joined(home, rest),
        expanded(path, None) == path,
        path.len() < 2 || path[0] != '~' || path[1] != '/' ==> expanded(path, Some(home)) == path,
{
    reveal_strlit("~/");
    let p = "~/"@ + rest;
    assert(p.take(2) =~= "~/"@);
    assert(p.skip(2) =~= rest);
    if path.len() >= 2 && text::starts_with(path, "~/"@) {
        assert(path.take(2)[0] == '~' && path.take(2)[1] == '/');
    }
}

} // verus!
