//! An ordered map keyed by the `(iss, sub, aud)` claim triple.

use vstd::prelude::*;
use crate::order;
use crate::order::{place, Placement};

verus! {

/// A claim triple: issuer, subject, audience.
#[derive(Clone, Debug)]
pub struct ClaimKey {
    pub iss: String,
    pub sub: String,
    pub aud: String,
}

/// What a claim triple says.
#[verifier::ext_equal]
pub struct KeyView {
    pub iss: Seq<char>,
    pub sub: Seq<char>,
    pub aud: Seq<char>,
}

impl View for ClaimKey {
    type V = KeyView;

    open spec fn view(&self) -> KeyView {
        KeyView { iss: self.iss@, sub: self.sub@, aud: self.aud@ }
    }
}

/// Triples are ordered by issuer, then subject, then audience.
pub open spec fn key_lt(a: KeyView, b: KeyView) -> bool {
    ||| order::text_lt(a.iss, b.iss)
    ||| a.iss == b.iss && order::text_lt(a.sub, b.sub)
    ||| a.iss == b.iss && a.sub == b.sub && order::text_lt(a.aud, b.aud)
}

pub proof fn lemma_key_irreflexive(a: KeyView)
    ensures
        !key_lt(a, a),
{
    order::lemma_text_irreflexive(a.iss);
    order::lemma_text_irreflexive(a.sub);
    order::lemma_text_irreflexive(a.aud);
}

pub proof fn lemma_key_transitive(a: KeyView, b: KeyView, c: KeyView)
    requires
        key_lt(a, b),
        key_lt(b, c),
    ensures
        key_lt(a, c),
{
    if order::text_lt(a.iss, b.iss) && order::text_lt(b.iss, c.iss) {
        order::lemma_text_transitive(a.iss, b.iss, c.iss);
    }
    if order::text_lt(a.sub, b.sub) && order::text_lt(b.sub, c.sub) {
        order::lemma_text_transitive(a.sub, b.sub, c.sub);
    }
    if order::text_lt(a.aud, b.aud) && order::text_lt(b.aud, c.aud) {
        order::lemma_text_transitive(a.aud, b.aud, c.aud);
    }
}

/// Compares two triples.
pub fn place_key(a: &ClaimKey, b: &ClaimKey) -> (r: Placement)
    ensures
        r == (if a@ == b@ {
            Placement::Same
        } else if key_lt(a@, b@) {
            Placement::Before
        } else {
            Placement::After
        }),
{
    proof {
        order::lemma_text_total(a.iss@, b.iss@);
        order::lemma_text_total(a.sub@, b.sub@);
        order::lemma_text_total(a.aud@, b.aud@);
    }
    let p = place(a.iss.as_str(), b.iss.as_str());
    if p != Placement::Same {
        return p;
    }
    let q = place(a.sub.as_str(), b.sub.as_str());
    if q != Placement::Same {
        return q;
    }
    place(a.aud.as_str(), b.aud.as_str())
}

/// A copy of a key.
pub fn copy_key(k: &ClaimKey) -> (r: ClaimKey)
    ensures
        r == *k,
{
    ClaimKey { iss: k.iss.clone(), sub: k.sub.clone(), aud: k.aud.clone() }
}

/// The map that a list of insertions leaves behind: of two insertions under one
/// key, the later one stays.
pub open spec fn insertions<V>(s: Seq<(ClaimKey, V)>) -> Map<KeyView, V>
    decreases s.len(),
{
    if s.len() == 0 {
        Map::empty()
    } else {
        insertions(s.drop_last()).insert(s.last().0@, s.last().1)
    }
}

/// Entries in strictly increasing key order.
pub open spec fn sorted<V>(s: Seq<(ClaimKey, V)>) -> bool {
    forall|i: int, j: int| 0 <= i < j < s.len() ==> key_lt((#[trigger] s[i]).0@, (#[trigger] s[j]).0@)
}

pub proof fn lemma_insertions_domain<V>(s: Seq<(ClaimKey, V)>, k: KeyView)
    ensures
        insertions(s).contains_key(k) <==> exists|i: int| 0 <= i < s.len() && (#[trigger] s[i]).0@ == k,
    decreases s.len(),
{
    if s.len() > 0 {
        let t = s.drop_last();
        lemma_insertions_domain(t, k);
        if insertions(s).contains_key(k) {
            if s.last().0@ == k {
                assert(s[s.len() - 1].0@ == k);
            } else {
                let i = choose|i: int| 0 <= i < t.len() && (#[trigger] t[i]).0@ == k;
                assert(s[i].0@ == k);
            }
        }
        if exists|i: int| 0 <= i < s.len() && (#[trigger] s[i]).0@ == k {
            let i = choose|i: int| 0 <= i < s.len() && (#[trigger] s[i]).0@ == k;
            if i < t.len() {
                assert(t[i].0@ == k);
            }
        }
    }
}

pub proof fn lemma_insertions_at<V>(s: Seq<(ClaimKey, V)>, i: int)
    requires
        sorted(s),
        0 <= i < s.len(),
    ensures
        insertions(s).contains_key(s[i].0@),
        insertions(s)[s[i].0@] == s[i].1,
    decreases s.len(),
{
    if i < s.len() - 1 {
        let t = s.drop_last();
        lemma_insertions_at(t, i);
        assert(t[i] == s[i]);
        assert(key_lt(s[i].0@, s[s.len() - 1].0@));
        lemma_key_irreflexive(s[i].0@);
    }
}

proof fn lemma_insert_at<V>(s: Seq<(ClaimKey, V)>, at: int, e: (ClaimKey, V))
    requires
        0 <= at <= s.len(),
        sorted(s),
        forall|i: int| 0 <= i < at ==> key_lt((#[trigger] s[i]).0@, e.0@),
        forall|i: int| at <= i < s.len() ==> key_lt(e.0@, (#[trigger] s[i]).0@),
    ensures
        sorted(s.insert(at, e)),
        insertions(s.insert(at, e)) == insertions(s).insert(e.0@, e.1),
    decreases s.len(),
{
    let t = s.insert(at, e);
    assert(sorted(t)) by {
        assert forall|i: int, j: int| 0 <= i < j < t.len() implies key_lt((#[trigger] t[i]).0@, (#[trigger] t[j]).0@) by {
            let si = if i < at { i } else { i - 1 };
            let sj = if j < at { j } else { j - 1 };
            if i == at {
                assert(t[j] == s[sj]);
            } else if j == at {
                assert(t[i] == s[si]);
            } else {
                assert(t[i] == s[si]);
                assert(t[j] == s[sj]);
            }
        }
    }
    if at == s.len() {
        assert(t.drop_last() =~= s);
    } else {
        let u = s.drop_last();
        lemma_insert_at(u, at, e);
        assert(t.drop_last() =~= u.insert(at, e));
        assert(t.last() == s.last());
        lemma_key_irreflexive(e.0@);
        assert(s[s.len() - 1].0@ != e.0@);
        assert(insertions(t) =~= insertions(s).insert(e.0@, e.1));
    }
}

proof fn lemma_update_at<V>(s: Seq<(ClaimKey, V)>, at: int, e: (ClaimKey, V))
    requires
        0 <= at < s.len(),
        sorted(s),
        s[at].0@ == e.0@,
    ensures
        sorted(s.update(at, e)),
        insertions(s.update(at, e)) == insertions(s).insert(e.0@, e.1),
    decreases s.len(),
{
    let t = s.update(at, e);
    assert(sorted(t)) by {
        assert forall|i: int, j: int| 0 <= i < j < t.len() implies key_lt((#[trigger] t[i]).0@, (#[trigger] t[j]).0@) by {
            assert(t[i].0@ == s[i].0@);
            assert(t[j].0@ == s[j].0@);
        }
    }
    if at == s.len() - 1 {
        assert(t.drop_last() =~= s.drop_last());
        assert(insertions(t) =~= insertions(s).insert(e.0@, e.1));
    } else {
        let u = s.drop_last();
        assert(u[at] == s[at]);
        lemma_update_at(u, at, e);
        assert(t.drop_last() =~= u.update(at, e));
        assert(key_lt(s[at].0@, s[s.len() - 1].0@));
        lemma_key_irreflexive(e.0@);
        assert(insertions(t) =~= insertions(s).insert(e.0@, e.1));
    }
}

proof fn lemma_remove_at<V>(s: Seq<(ClaimKey, V)>, at: int)
    requires
        0 <= at < s.len(),
        sorted(s),
    ensures
        sorted(s.remove(at)),
        insertions(s.remove(at)) == insertions(s).remove(s[at].0@),
    decreases s.len(),
{
    let t = s.remove(at);
    assert(sorted(t)) by {
        assert forall|i: int, j: int| 0 <= i < j < t.len() implies key_lt((#[trigger] t[i]).0@, (#[trigger] t[j]).0@) by {
            assert(t[i] == s[if i < at { i } else { i + 1 }]);
            assert(t[j] == s[if j < at { j } else { j + 1 }]);
        }
    }
    let u = s.drop_last();
    if at == s.len() - 1 {
        assert(t =~= u);
        assert forall|k: KeyView| insertions(u).contains_key(k) implies k != s[at].0@ by {
            lemma_insertions_domain(u, k);
            let i = choose|i: int| 0 <= i < u.len() && (#[trigger] u[i]).0@ == k;
            assert(key_lt(s[i].0@, s[at].0@));
            lemma_key_irreflexive(k);
        }
        assert(insertions(t) =~= insertions(s).remove(s[at].0@));
    } else {
        lemma_remove_at(u, at);
        assert(u[at] == s[at]);
        assert(t.drop_last() =~= u.remove(at));
        assert(t.last() == s.last());
        assert(key_lt(s[at].0@, s[s.len() - 1].0@));
        lemma_key_irreflexive(s[at].0@);
        assert(insertions(t) =~= insertions(s).remove(s[at].0@));
    }
}

/// A map from claim triples, kept in key order.
pub struct Keyed<V> {
    pub entries: Vec<(ClaimKey, V)>,
}

impl<V> View for Keyed<V> {
    type V = Map<KeyView, V>;

    open spec fn view(&self) -> Map<KeyView, V> {
        insertions(self.entries@)
    }
}

impl<V> Keyed<V> {
    pub open spec fn wf(&self) -> bool {
        sorted(self.entries@)
    }

    /// The empty map.
    pub fn new() -> (r: Self)
        ensures
            r.wf(),
            r@ == Map::<KeyView, V>::empty(),
    {
        Keyed { entries: Vec::new() }
    }

    /// The position of the first entry whose key is not before `key`.
    fn lower_bound(&self, key: &ClaimKey) -> (r: usize)
        requires
            self.wf(),
        ensures
            r <= self.entries@.len(),
            forall|i: int| 0 <= i < r ==> key_lt((#[trigger] self.entries@[i]).0@, key@),
            forall|i: int| r < i < self.entries@.len() ==> key_lt(key@, (#[trigger] self.entries@[i]).0@),
            r < self.entries@.len() ==> self.entries@[r as int].0@ == key@ || key_lt(key@, self.entries@[r as int].0@),
    {
        let mut i: usize = 0;
        while i < self.entries.len()
            invariant
                i <= self.entries@.len(),
                self.wf(),
                forall|k: int| 0 <= k < i ==> key_lt((#[trigger] self.entries@[k]).0@, key@),
            decreases self.entries@.len() - i,
        {
            let p = place_key(&self.entries[i].0, key);
            if p != Placement::Before {
                proof {
                    let at = self.entries@[i as int].0@;
                    lemma_key_total(at, key@);
                    assert forall|j: int| i < j < self.entries@.len() implies key_lt(key@, (#[trigger] self.entries@[j]).0@) by {
                        assert(key_lt(at, self.entries@[j].0@));
                        if at != key@ {
                            lemma_key_transitive(key@, at, self.entries@[j].0@);
                        }
                    }
                }
                return i;
            }
            i += 1;
        }
        i
    }

    /// Puts `value` under `key`, in place of what was there.
    pub fn insert(&mut self, key: ClaimKey, value: V)
        requires
            old(self).wf(),
        ensures
            final(self).wf(),
            final(self)@ == old(self)@.insert(key@, value),
    {
        let at: usize = self.lower_bound(&key);
        let found: bool = if at < self.entries.len() {
            place_key(&self.entries[at].0, &key) == Placement::Same
        } else {
            false
        };
        if found {
            proof {
                lemma_update_at(self.entries@, at as int, (key, value));
            }
            self.entries.set(at, (key, value));
        } else {
            proof {
                lemma_insert_at(self.entries@, at as int, (key, value));
            }
            self.entries.insert(at, (key, value));
        }
    }

    /// Takes out what stands under `key`, if anything does.
    pub fn remove(&mut self, key: &ClaimKey)
        requires
            old(self).wf(),
        ensures
            final(self).wf(),
            final(self)@ == old(self)@.remove(key@),
    {
        let at: usize = self.lower_bound(key);
        let found: bool = if at < self.entries.len() {
            place_key(&self.entries[at].0, key) == Placement::Same
        } else {
            false
        };
        proof {
            lemma_insertions_domain(self.entries@, key@);
            lemma_key_irreflexive(key@);
        }
        if found {
            proof {
                lemma_remove_at(self.entries@, at as int);
            }
            self.entries.remove(at);
        } else {
            assert(!self@.contains_key(key@));
            assert(self@.remove(key@) =~= self@);
        }
    }

    /// What stands under `key`.
    pub fn get(&self, key: &ClaimKey) -> (r: Option<&V>)
        requires
            self.wf(),
        ensures
            r is Some <==> self@.contains_key(key@),
            r is Some ==> *r->0 == self@[key@],
    {
        let at: usize = self.lower_bound(key);
        proof {
            lemma_insertions_domain(self.entries@, key@);
            lemma_key_irreflexive(key@);
        }
        if at < self.entries.len() {
            if place_key(&self.entries[at].0, key) == Placement::Same {
                proof {
                    lemma_insertions_at(self.entries@, at as int);
                }
                return Some(&self.entries[at].1);
            }
        }
        None
    }
}

/// Of two different triples exactly one comes first.
pub proof fn lemma_key_total(a: KeyView, b: KeyView)
    ensures
        a != b ==> (key_lt(a, b) <==> !key_lt(b, a)),
        a == b ==> !key_lt(a, b),
{
    order::lemma_text_total(a.iss, b.iss);
    order::lemma_text_total(a.sub, b.sub);
    order::lemma_text_total(a.aud, b.aud);
    if a == b {
        lemma_key_irreflexive(a);
    }
}

/// Two lists of keys in increasing order that hold the same keys are the same.
pub proof fn lemma_sorted_keys_unique(a: Seq<KeyView>, b: Seq<KeyView>)
    requires
        forall|i: int, j: int| 0 <= i < j < a.len() ==> key_lt(#[trigger] a[i], #[trigger] a[j]),
        forall|i: int, j: int| 0 <= i < j < b.len() ==> key_lt(#[trigger] b[i], #[trigger] b[j]),
        forall|k: KeyView| a.contains(k) <==> b.contains(k),
    ensures
        a == b,
    decreases a.len(),
{
    if a.len() == 0 {
        if b.len() > 0 {
            assert(b.contains(b[0]));
        }
        assert(a =~= b);
    } else {
        let x = a.last();
        assert(a.contains(x));
        let j = choose|j: int| 0 <= j < b.len() && b[j] == x;
        let y = b.last();
        assert(b.contains(y));
        let i = choose|i: int| 0 <= i < a.len() && a[i] == y;
        if x != y {
            assert(key_lt(b[j], b[b.len() - 1]));
            assert(key_lt(a[i], a[a.len() - 1]));
            lemma_key_total(x, y);
        }
        let ra = a.drop_last();
        let rb = b.drop_last();
        assert forall|k: KeyView| ra.contains(k) <==> rb.contains(k) by {
            if ra.contains(k) {
                let i = choose|i: int| 0 <= i < ra.len() && ra[i] == k;
                assert(key_lt(a[i], a[a.len() - 1]));
                lemma_key_irreflexive(x);
                assert(a.contains(k));
                let j = choose|j: int| 0 <= j < b.len() && b[j] == k;
                assert(rb[j] == k);
            }
            if rb.contains(k) {
                let j = choose|j: int| 0 <= j < rb.len() && rb[j] == k;
                assert(key_lt(b[j], b[b.len() - 1]));
                lemma_key_irreflexive(x);
                assert(b.contains(k));
                let i = choose|i: int| 0 <= i < a.len() && a[i] == k;
                assert(ra[i] == k);
            }
        }
        assert forall|i: int, j: int| 0 <= i < j < ra.len() implies key_lt(#[trigger] ra[i], #[trigger] ra[j]) by {
            assert(key_lt(a[i], a[j]));
        }
        assert forall|i: int, j: int| 0 <= i < j < rb.len() implies key_lt(#[trigger] rb[i], #[trigger] rb[j]) by {
            assert(key_lt(b[i], b[j]));
        }
        lemma_sorted_keys_unique(ra, rb);
        assert(a =~= ra.push(x));
        assert(b =~= rb.push(y));
    }
}

// ---------------------------------------------------------------------------
// Laws
// ---------------------------------------------------------------------------


/// Triples are ordered by issuer, within an issuer by subject, and within a subject by
/// audience.
pub proof fn law_order_of_triples(a: KeyView, b: KeyView)
    ensures
        a.iss != b.iss ==> key_lt(a, b) == order::text_lt(a.iss, b.iss),
        a.iss == b.iss && a.sub != b.sub ==> key_lt(a, b) == order::text_lt(a.sub, b.sub),
        a.iss == b.iss && a.sub == b.sub ==> key_lt(a, b) == order::text_lt(a.aud, b.aud),
{
    order::lemma_text_irreflexive(a.iss);
    order::lemma_text_irreflexive(a.sub);
}

/// Of two insertions under one key the later one stays, and no other key is touched.
pub proof fn law_later_insertions_stay<V>(s: Seq<(ClaimKey, V)>, k: ClaimKey, v: V, other: KeyView)
    ensures
        insertions(Seq::<(ClaimKey, V)>::empty()) == Map::<KeyView, V>::empty(),
        insertions(s.push((k, v))).contains_key(KeyView { iss: k.iss@, sub: k.sub@, aud: k.aud@ }),
        insertions(s.push((k, v)))[KeyView { iss: k.iss@, sub: k.sub@, aud: k.aud@ }] == v,
        other != (KeyView { iss: k.iss@, sub: k.sub@, aud: k.aud@ }) ==> insertions(s.push((k, v))).contains_key(other)
            == insertions(s).contains_key(other),
        other != (KeyView { iss: k.iss@, sub: k.sub@, aud: k.aud@ }) && insertions(s).contains_key(other) ==> insertions(
            s.push((k, v)),
        )[other] == insertions(s)[other],
{
    assert(s.push((k, v)).drop_last() =~= s);
    assert(s.push((k, v)).last() == (k, v));
}

/// A key is seen as its three claims, and entries are in order where every key comes
/// before the next.
pub proof fn law_keys_are_seen<V>(k: ClaimKey, m: Keyed<V>, i: int, j: int)
    ensures
        k@.iss == k.iss@ && k@.sub == k.sub@ && k@.aud == k.aud@,
        sorted(m.entries@) && 0 <= i < j < m.entries@.len() ==> key_lt(m.entries@[i].0@, m.entries@[j].0@),
        m@ == insertions(m.entries@),
{
}

} // verus!
