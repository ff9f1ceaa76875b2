//! The order of texts: character by character, by code point, a proper prefix
//! before what it is a prefix of.

use vstd::prelude::*;
use crate::text::chars_of;

verus! {

/// `a` comes strictly before `b`.
pub open spec fn text_lt(a: Seq<char>, b: Seq<char>) -> bool
    decreases a.len(),
{
    if b.len() == 0 {
        false
    } else if a.len() == 0 {
        true
    } else if a[0] != b[0] {
        a[0] < b[0]
    } else {
        text_lt(a.skip(1), b.skip(1))
    }
}

/// `a` comes before `b` or is the same text.
pub open spec fn text_le(a: Seq<char>, b: Seq<char>) -> bool {
    a == b || text_lt(a, b)
}

/// No text comes before itself.
pub proof fn lemma_text_irreflexive(a: Seq<char>)
    ensures
        !text_lt(a, a),
    decreases a.len(),
{
    if a.len() > 0 {
        lemma_text_irreflexive(a.skip(1));
    }
}

/// Of two different texts exactly one comes first.
pub proof fn lemma_text_total(a: Seq<char>, b: Seq<char>)
    ensures
        a != b ==> (text_lt(a, b) <==> !text_lt(b, a)),
        a == b ==> !text_lt(a, b),
    decreases a.len(),
{
    if a == b {
        lemma_text_irreflexive(a);
    } else if a.len() > 0 && b.len() > 0 && a[0] == b[0] {
        if a.skip(1) == b.skip(1) {
            assert(a =~= seq![a[0]] + a.skip(1));
            assert(b =~= seq![b[0]] + b.skip(1));
        }
        lemma_text_total(a.skip(1), b.skip(1));
    } else if a.len() == 0 && b.len() == 0 {
        assert(a =~= b);
    }
}

/// The order is transitive.
pub proof fn lemma_text_transitive(a: Seq<char>, b: Seq<char>, c: Seq<char>)
    requires
        text_lt(a, b),
        text_lt(b, c),
    ensures
        text_lt(a, c),
    decreases a.len(),
{
    if a.len() > 0 && a[0] == b[0] && b[0] == c[0] {
        lemma_text_transitive(a.skip(1), b.skip(1), c.skip(1));
    }
}

proof fn lemma_common_prefix(a: Seq<char>, b: Seq<char>, k: int)
    requires
        0 <= k <= a.len(),
        k <= b.len(),
        forall|i: int| 0 <= i < k ==> a[i] == b[i],
    ensures
        text_lt(a, b) == text_lt(a.skip(k), b.skip(k)),
    decreases k,
{
    if k == 0 {
        assert(a.skip(0) =~= a);
        assert(b.skip(0) =~= b);
    } else {
        let a1 = a.skip(1);
        let b1 = b.skip(1);
        assert forall|i: int| 0 <= i < k - 1 implies a1[i] == b1[i] by {
            assert(a[i + 1] == b[i + 1]);
        }
        lemma_common_prefix(a1, b1, k - 1);
        assert(a1.skip(k - 1) =~= a.skip(k));
        assert(b1.skip(k - 1) =~= b.skip(k));
        assert(a[0] == b[0]);
    }
}

/// How two texts stand to each other.
#[derive(Clone, Copy, PartialEq, Eq, Debug, Structural)]
pub enum Placement {
    Before,
    Same,
    After,
}

pub open spec fn placement(a: Seq<char>, b: Seq<char>) -> Placement {
    if a == b {
        Placement::Same
    } else if text_lt(a, b) {
        Placement::Before
    } else {
        Placement::After
    }
}

/// How `a` stands to `b` in the order of texts.
pub fn place(a: &str, b: &str) -> (r: Placement)
    ensures
        r == placement(a@, b@),
{
    let x = chars_of(a);
    let y = chars_of(b);
    let mut i: usize = 0;
    while i < x.len() && i < y.len() && x[i] == y[i]
        invariant
            i <= x@.len(),
            i <= y@.len(),
            forall|k: int| 0 <= k < i ==> x@[k] == y@[k],
        decreases x@.len() - i,
    {
        i += 1;
    }
    proof {
        lemma_common_prefix(x@, y@, i as int);
    }
    if i == x.len() {
        if i == y.len() {
            assert(x@ =~= y@);
            Placement::Same
        } else {
            Placement::Before
        }
    } else if i == y.len() {
        Placement::After
    } else if x[i] < y[i] {
        Placement::Before
    } else {
        Placement::After
    }
}

/// Items with a name, in the order of their names.
pub open spec fn in_name_order<T>(s: Seq<(String, T)>) -> bool {
    forall|i: int, j: int| 0 <= i < j < s.len() ==> text_le((#[trigger] s[i]).0@, (#[trigger] s[j]).0@)
}

/// Sorts items by name. The result holds the same items.
pub fn sort_by_name<T>(items: Vec<(String, T)>) -> (r: Vec<(String, T)>)
    ensures
        in_name_order(r@),
        r@.to_multiset() == items@.to_multiset(),
        r@.len() == items@.len(),
{
    let ghost all = items@;
    let mut rest = items;
    let mut out: Vec<(String, T)> = Vec::new();
    proof {
        broadcast use vstd::seq_lib::group_to_multiset_ensures;
        assert(all.to_multiset() =~= rest@.to_multiset().add(out@.to_multiset()));
    }
    while rest.len() > 0
        invariant
            in_name_order(out@),
            all.to_multiset() == rest@.to_multiset().add(out@.to_multiset()),
            all.len() == rest@.len() + out@.len(),
        decreases rest@.len(),
    {
        let ghost rest0 = rest@;
        let ghost out0 = out@;
        let item = rest.remove(rest.len() - 1);
        let ghost name = item.0@;
        let mut at: usize = 0;
        while at < out.len() && place(out[at].0.as_str(), item.0.as_str()) == Placement::Before
            invariant
                at <= out@.len(),
                out@ == out0,
                name == item.0@,
                forall|k: int| 0 <= k < at ==> text_lt((#[trigger] out@[k]).0@, name),
            decreases out@.len() - at,
        {
            at += 1;
        }
        proof {
            assert forall|k: int| at <= k < out0.len() implies text_le(name, (#[trigger] out0[k]).0@) by {
                let first = out0[at as int].0@;
                lemma_text_total(first, name);
                assert(text_le(name, first));
                if k > at {
                    assert(text_le(first, out0[k].0@));
                    if name != first && first != out0[k].0@ {
                        lemma_text_transitive(name, first, out0[k].0@);
                    }
                }
            }
        }
        out.insert(at, item);
        proof {
            broadcast use vstd::seq_lib::group_to_multiset_ensures;
            vstd::seq_lib::to_multiset_insert(out0, at as int, item);
            assert(out@ =~= out0.insert(at as int, item));
            vstd::seq_lib::to_multiset_remove(rest0, rest0.len() - 1);
            assert(rest@ =~= rest0.remove(rest0.len() - 1));
            assert(rest0[rest0.len() - 1] == item);
            assert(rest0.to_multiset().contains(item)) by {
                assert(rest0.contains(item));
            }
            assert(all.to_multiset() =~= rest@.to_multiset().add(out@.to_multiset()));
            assert forall|i: int, j: int| 0 <= i < j < out@.len() implies text_le(
                (#[trigger] out@[i]).0@,
                (#[trigger] out@[j]).0@,
            ) by {
                let si = if i < at { i } else { i - 1 };
                let sj = if j < at { j } else { j - 1 };
                if i == at {
                    assert(out@[j] == out0[sj]);
                } else if j == at {
                    assert(out@[i] == out0[si]);
                } else {
                    assert(out@[i] == out0[si]);
                    assert(out@[j] == out0[sj]);
                }
            }
        }
    }
    proof {
        broadcast use vstd::seq_lib::group_to_multiset_ensures;
        assert(rest@ =~= Seq::<(String, T)>::empty());
        assert(rest@.to_multiset() =~= vstd::multiset::Multiset::empty());
        assert(all.to_multiset() =~= out@.to_multiset());
    }
    out
}

// ---------------------------------------------------------------------------
// Laws
// ---------------------------------------------------------------------------


/// Texts are ordered by the first character in which they differ, and a text before
/// any that goes on behind it.
pub proof fn law_order_of_texts(head: Seq<char>, a: char, b: char, s: Seq<char>, t: Seq<char>)
    ensures
        a < b ==> text_lt(head + seq![a] + s, head + seq![b] + t),
        text_lt(head, head + seq![a] + s),
        !text_lt(head + seq![a] + s, head),
        !text_lt(head, head),
        text_le(s, t) <==> s == t || text_lt(s, t),
        placement(s, t) == Placement::Same <==> s == t,
        s != t && text_lt(s, t) ==> placement(s, t) == Placement::Before,
        s != t && !text_lt(s, t) ==> placement(s, t) == Placement::After,
    decreases head.len(),
{
    let x = head + seq![a] + s;
    let y = head + seq![b] + t;
    if head.len() > 0 {
        law_order_of_texts(head.skip(1), a, b, s, t);
        assert(x.skip(1) =~= head.skip(1) + seq![a] + s);
        assert(y.skip(1) =~= head.skip(1) + seq![b] + t);
        assert(x[0] == head[0] && y[0] == head[0]);
    } else {
        assert(x[0] == a && y[0] == b);
    }
}

/// Items are in the order of their names where no name comes before an earlier one.
pub proof fn law_name_order<T>(s: Seq<(String, T)>, i: int, j: int)
    requires
        in_name_order(s),
        0 <= i < j < s.len(),
    ensures
        s[i].0@ == s[j].0@ || text_lt(s[i].0@, s[j].0@),
{
}

} // verus!
