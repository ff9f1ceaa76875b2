//! Reloading the bindings and the signing keys of a running adapter.

use vstd::prelude::*;
use crate::nucleon_map;
use crate::nucleon_map::{holds_noyau, HabilitationMap, Noyau};
use crate::text;
use crate::text::concat3;

verus! {

/// What came of laying out the galaxy trees of new noyaux.
#[derive(Clone, Debug)]
pub struct ImageInitReport {
    pub ok: bool,
}

impl ImageInitReport {
    /// Nothing went wrong.
    pub fn all_ok(&self) -> (r: bool)
        ensures
            r == self.ok,
    {
        self.ok
    }
}

/// What came of a reload of the bindings.
#[derive(Debug)]
pub struct ReloadOutcome {
    pub bindings_before: usize,
    pub bindings_after: usize,
    pub new_noyaux: Vec<Noyau>,
    pub init_report: Option<ImageInitReport>,
    pub error: Option<String>,
}

impl ReloadOutcome {
    /// The reload went through.
    pub fn is_ok(&self) -> (r: bool)
        ensures
            r == (self.error is None && (self.init_report is None || (self.init_report->0).ok)),
    {
        if self.error.is_some() {
            return false;
        }
        match &self.init_report {
            Some(report) => report.all_ok(),
            None => true,
        }
    }
}

/// The texts of the first list that the second does not hold.
pub open spec fn missing_from(fresh: Seq<Seq<char>>, live: Seq<Seq<char>>) -> Seq<Seq<char>>
    decreases fresh.len(),
{
    if fresh.len() == 0 {
        Seq::empty()
    } else {
        let head = missing_from(fresh.drop_last(), live);
        if live.contains(fresh.last()) {
            head
        } else {
            head.push(fresh.last())
        }
    }
}

/// The distinct noyaux of a map, in key order.
pub open spec fn noyaux_of(m: HabilitationMap) -> Seq<Seq<char>> {
    nucleon_map::distinct(nucleon_map::noyaux_in_order(m.order(), m.bindings()))
}

/// A reload that is over: its outcome, and the map to publish. There is none to
/// publish where the bindings could not be read.
pub struct Reloaded {
    pub outcome: ReloadOutcome,
    pub publish: Option<HabilitationMap>,
}

/// A reload that has read its bindings and waits for the new noyaux to be laid
/// out. The map it holds comes out of it against the report, and in no other way.
pub struct LayingOut {
    bindings_before: usize,
    bindings_after: usize,
    new_noyaux: Vec<Noyau>,
    fresh: HabilitationMap,
}

impl LayingOut {
    /// How many bindings were live.
    pub closed spec fn before(self) -> int {
        self.bindings_before as int
    }

    /// How many bindings were read.
    pub closed spec fn after(self) -> int {
        self.bindings_after as int
    }

    /// The noyaux to lay out.
    pub closed spec fn new_texts(self) -> Seq<Seq<char>> {
        nucleon_map::noyau_texts(self.new_noyaux@)
    }

    /// The map to publish afterwards.
    pub closed spec fn fresh(self) -> HabilitationMap {
        self.fresh
    }

    /// There is something to lay out.
    pub open spec fn wf(self) -> bool {
        self.new_texts().len() > 0
    }

    /// The noyaux to lay out.
    pub fn noyaux(&self) -> (r: &Vec<Noyau>)
        ensures
            nucleon_map::noyau_texts(r@) == self.new_texts(),
    {
        &self.new_noyaux
    }

    /// Takes the report on the noyaux, whatever it says: the outcome carries it,
    /// and the map is published.
    pub fn laid_out(self, report: ImageInitReport) -> (r: Reloaded)
        requires
            self.wf(),
        ensures
            r.outcome.bindings_before == self.before(),
            r.outcome.bindings_after == self.after(),
            nucleon_map::noyau_texts(r.outcome.new_noyaux@) == self.new_texts(),
            r.outcome.init_report == Some(report),
            r.outcome.error is None,
            r.publish == Some(self.fresh()),
            reported_iff_new(r.outcome),
    {
        Reloaded {
            outcome: ReloadOutcome {
                bindings_before: self.bindings_before,
                bindings_after: self.bindings_after,
                new_noyaux: self.new_noyaux,
                init_report: Some(report),
                error: None,
            },
            publish: Some(self.fresh),
        }
    }
}

/// An outcome carries a report exactly where noyaux came new.
pub open spec fn reported_iff_new(outcome: ReloadOutcome) -> bool {
    outcome.init_report is Some <==> outcome.new_noyaux@.len() > 0
}

/// What a reload comes to: it is over, or new noyaux are to be laid out first.
pub enum Reloading {
    Settled(Reloaded),
    LayOut(LayingOut),
}

/// Weighs freshly loaded bindings against the live ones. Where they could not be
/// read, the live map stays and the fault is reported. Where they bring noyaux
/// that the live ones lack, those are laid out before the map is published.
pub fn reload(live: &HabilitationMap, loaded: Result<HabilitationMap, String>, state_dir: &str) -> (r: Reloading)
    requires
        live.wf(),
        loaded is Ok ==> (loaded->Ok_0).wf(),
    ensures
        match loaded {
            Ok(fresh) => {
                let news = missing_from(noyaux_of(fresh), noyaux_of(*live));
                match r {
                    Reloading::LayOut(next) => {
                        &&& news.len() > 0
                        &&& next.wf()
                        &&& next.before() == live.order().len()
                        &&& next.after() == fresh.order().len()
                        &&& next.new_texts() == news
                        &&& next.fresh() == fresh
                    },
                    Reloading::Settled(done) => {
                        &&& news.len() == 0
                        &&& done.outcome.bindings_before == live.order().len()
                        &&& done.outcome.bindings_after == fresh.order().len()
                        &&& done.outcome.new_noyaux@.len() == 0
                        &&& done.outcome.init_report is None
                        &&& done.outcome.error is None
                        &&& done.publish == Some(fresh)
                        &&& reported_iff_new(done.outcome)
                    },
                }
            },
            Err(fault) => match r {
                Reloading::LayOut(_) => false,
                Reloading::Settled(done) => {
                    &&& done.outcome.bindings_before == live.order().len()
                    &&& done.outcome.bindings_after == live.order().len()
                    &&& done.outcome.new_noyaux@.len() == 0
                    &&& done.outcome.init_report is None
                    &&& done.outcome.error is Some
                    &&& (done.outcome.error->0)@ == "read "@ + state_dir@ + "/nucleons: "@ + fault@
                    &&& done.publish is None
                    &&& reported_iff_new(done.outcome)
                },
            },
        },
{
    let before = live.noyaux();
    let bindings_before: usize = live.binding_count();
    match loaded {
        Err(fault) => {
            let head = concat3("read ", state_dir, "/nucleons: ");
            let message = text::concat(head.as_str(), fault.as_str());
            Reloading::Settled(Reloaded {
                outcome: ReloadOutcome {
                    bindings_before,
                    bindings_after: bindings_before,
                    new_noyaux: Vec::new(),
                    init_report: None,
                    error: Some(message),
                },
                publish: None,
            })
        },
        Ok(fresh) => {
            let all = fresh.noyaux();
            let mut new_noyaux: Vec<Noyau> = Vec::new();
            let mut i: usize = 0;
            let ghost names = nucleon_map::noyau_texts(all@);
            let ghost known = nucleon_map::noyau_texts(before@);
            assert(names.take(0) =~= Seq::<Seq<char>>::empty());
            assert(nucleon_map::noyau_texts(new_noyaux@) =~= missing_from(names.take(0), known));
            while i < all.len()
                invariant
                    i <= all@.len(),
                    names == nucleon_map::noyau_texts(all@),
                    known == nucleon_map::noyau_texts(before@),
                    nucleon_map::noyau_texts(new_noyaux@) == missing_from(names.take(i as int), known),
                decreases all@.len() - i,
            {
                let ghost so_far = nucleon_map::noyau_texts(new_noyaux@);
                proof {
                    assert(names.take(i + 1).drop_last() =~= names.take(i as int));
                    assert(names.take(i + 1).last() == all@[i as int].0@);
                }
                if !holds_noyau(&before, all[i].as_str()) {
                    new_noyaux.push(all[i].clone());
                    assert(nucleon_map::noyau_texts(new_noyaux@) =~= so_far.push(all@[i as int].0@));
                }
                i += 1;
            }
            assert(names.take(i as int) =~= names);
            let bindings_after: usize = fresh.binding_count();
            assert(nucleon_map::noyau_texts(new_noyaux@).len() == new_noyaux@.len());
            if new_noyaux.len() > 0 {
                return Reloading::LayOut(LayingOut { bindings_before, bindings_after, new_noyaux, fresh });
            }
            Reloading::Settled(Reloaded {
                outcome: ReloadOutcome {
                    bindings_before,
                    bindings_after,
                    new_noyaux,
                    init_report: None,
                    error: None,
                },
                publish: Some(fresh),
            })
        },
    }
}

/// What came of a reload of the signing keys.
#[derive(Clone, Debug)]
pub struct JwksReloadOutcome {
    pub issuers_before: usize,
    pub issuers_after: usize,
    pub keys_after: usize,
    pub error: Option<String>,
}

impl JwksReloadOutcome {
    /// The reload went through.
    pub fn is_ok(&self) -> (r: bool)
        ensures
            r == (self.error is None),
    {
        self.error.is_none()
    }
}

/// The sum of the counts.
pub open spec fn key_sum(rows: Seq<(String, usize)>) -> int
    decreases rows.len(),
{
    if rows.len() == 0 {
        0
    } else {
        key_sum(rows.drop_last()) + rows.last().1
    }
}

proof fn lemma_key_sum_prefix(rows: Seq<(String, usize)>, k: int)
    requires
        0 <= k <= rows.len(),
    ensures
        0 <= key_sum(rows.take(k)) <= key_sum(rows),
    decreases rows.len(),
{
    if k == rows.len() {
        assert(rows.take(k) =~= rows);
        if rows.len() > 0 {
            lemma_key_sum_prefix(rows.drop_last(), rows.len() - 1);
            assert(rows.drop_last().take(rows.len() - 1) =~= rows.drop_last());
        }
    } else {
        lemma_key_sum_prefix(rows.drop_last(), k);
        assert(rows.drop_last().take(k) =~= rows.take(k));
    }
}

/// How many keys all issuers have together.
pub fn total_keys(rows: &Vec<(String, usize)>) -> (r: usize)
    requires
        key_sum(rows@) <= usize::MAX,
    ensures
        r == key_sum(rows@),
{
    let mut total: usize = 0;
    let mut i: usize = 0;
    assert(rows@.take(0) =~= Seq::<(String, usize)>::empty());
    while i < rows.len()
        invariant
            i <= rows@.len(),
            key_sum(rows@) <= usize::MAX,
            total == key_sum(rows@.take(i as int)),
        decreases rows@.len() - i,
    {
        proof {
            assert(rows@.take(i + 1).drop_last() =~= rows@.take(i as int));
            lemma_key_sum_prefix(rows@, i + 1);
        }
        total = total + rows[i].1;
        i += 1;
    }
    assert(rows@.take(i as int) =~= rows@);
    total
}

/// Weighs freshly loaded signing keys: `loaded` holds the key count of each
/// issuer. Where they could not be read, the live store stays, with its keys.
pub fn reload_jwks(
    issuers_before: usize,
    keys_before: usize,
    loaded: &Result<Vec<(String, usize)>, String>,
    state_dir: &str,
) -> (r: JwksReloadOutcome)
    requires
        loaded is Ok ==> key_sum((loaded->Ok_0)@) <= usize::MAX,
    ensures
        r.issuers_before == issuers_before,
        match loaded {
            Ok(rows) => r.error is None && r.issuers_after == rows@.len() && r.keys_after == key_sum(rows@),
            Err(fault) => {
                &&& r.error is Some
                &&& (r.error->0)@ == "read "@ + state_dir@ + "/security/jwks: "@ + fault@
                &&& r.issuers_after == issuers_before
                &&& r.keys_after == keys_before
            },
        },
{
    match loaded {
        Err(fault) => {
            let head = concat3("read ", state_dir, "/security/jwks: ");
            let message = text::concat(head.as_str(), fault.as_str());
            JwksReloadOutcome {
                issuers_before,
                issuers_after: issuers_before,
                keys_after: keys_before,
                error: Some(message),
            }
        },
        Ok(rows) => JwksReloadOutcome {
            issuers_before,
            issuers_after: rows.len(),
            keys_after: total_keys(rows),
            error: None,
        },
    }
}

// ---------------------------------------------------------------------------
// Laws
// ---------------------------------------------------------------------------

proof fn lemma_missing(fresh: Seq<Seq<char>>, live: Seq<Seq<char>>, t: Seq<char>)
    ensures
        missing_from(fresh, live).contains(t) <==> fresh.contains(t) && !live.contains(t),
    decreases fresh.len(),
{
    if fresh.len() > 0 {
        let head = missing_from(fresh.drop_last(), live);
        lemma_missing(fresh.drop_last(), live, t);
        if fresh.contains(t) {
            let i = choose|i: int| 0 <= i < fresh.len() && fresh[i] == t;
            if i < fresh.len() - 1 {
                assert(fresh.drop_last()[i] == t);
            }
        }
        if fresh.drop_last().contains(t) {
            let i = choose|i: int| 0 <= i < fresh.drop_last().len() && fresh.drop_last()[i] == t;
            assert(fresh[i] == t);
        }
        if head.contains(t) {
            let i = choose|i: int| 0 <= i < head.len() && head[i] == t;
            assert(head.push(fresh.last())[i] == t);
        }
        assert(fresh[fresh.len() - 1] == fresh.last());
        assert(head.push(fresh.last())[head.len() as int] == fresh.last());
        if missing_from(fresh, live).contains(t) {
            let i = choose|i: int| 0 <= i < missing_from(fresh, live).len() && missing_from(fresh, live)[i] == t;
            if i < head.len() {
                assert(head[i] == t);
            }
        }
    }
}

/// A reload lays out exactly the noyaux that were not there before: none that
/// the live map already covers, and every one that it does not.
pub proof fn law_reload_delta(fresh: Seq<Seq<char>>, live: Seq<Seq<char>>)
    ensures
        forall|t: Seq<char>|
            missing_from(fresh, live).contains(t) <==> fresh.contains(t) && !live.contains(t),
{
    assert forall|t: Seq<char>|
        missing_from(fresh, live).contains(t) <==> fresh.contains(t) && !live.contains(t) by {
        lemma_missing(fresh, live, t);
    }
}

/// A reload of what is already live lays out nothing.
pub proof fn law_reload_without_change_is_empty(live: Seq<Seq<char>>)
    ensures
        missing_from(live, live).len() == 0,
{
    if missing_from(live, live).len() > 0 {
        let t = missing_from(live, live)[0];
        lemma_missing(live, live, t);
        assert(missing_from(live, live).contains(t));
    }
}

/// The texts that are missing are kept in order, each time they stand there.
pub proof fn law_missing_texts(fresh: Seq<Seq<char>>, live: Seq<Seq<char>>, t: Seq<char>)
    ensures
        missing_from(Seq::empty(), live).len() == 0,
        live.contains(t) ==> missing_from(fresh.push(t), live) == missing_from(fresh, live),
        !live.contains(t) ==> missing_from(fresh.push(t), live) == missing_from(fresh, live).push(t),
{
    assert(fresh.push(t).drop_last() =~= fresh);
}

/// The noyaux of a map are the distinct ones that its triples are bound to, in the
/// order of the triples.
pub proof fn law_noyaux_of_a_map(m: HabilitationMap)
    ensures
        noyaux_of(m) == nucleon_map::distinct(nucleon_map::noyaux_in_order(m.order(), m.bindings())),
{
}

/// The keys of all issuers add up, each issuer's once.
pub proof fn law_keys_add_up(rows: Seq<(String, usize)>, issuer: String, n: usize)
    ensures
        key_sum(Seq::empty()) == 0,
        key_sum(rows.push((issuer, n))) == key_sum(rows) + n,
{
    assert(rows.push((issuer, n)).drop_last() =~= rows);
}

/// An outcome carries a report where noyaux came new, and only there.
pub proof fn law_reports_come_with_new_noyaux(outcome: ReloadOutcome)
    ensures
        reported_iff_new(outcome) <==> (outcome.init_report is Some) == (outcome.new_noyaux@.len() > 0),
{
}

} // verus!
