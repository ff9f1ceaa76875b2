//! `GET /v1/noyaux`: the noyaux a caller is bound to.

use vstd::prelude::*;
use crate::keyed::KeyView;
use crate::nucleon_map;
use crate::nucleon_map::{HabilitationMap, ResolvedView};
use crate::paths;
use crate::paths::join;
use crate::pipeline::Stage;

verus! {

/// One noyau of the caller.
#[derive(Clone, Debug)]
pub struct NoyauEntry {
    pub id: String,
    pub binding_count: usize,
    pub galaxies_root: String,
}

/// The body of `GET /v1/noyaux`.
#[derive(Clone, Debug)]
pub struct NoyauxResponse {
    pub noyaux: Vec<NoyauEntry>,
}

pub open spec fn ids_of(rows: Seq<NoyauEntry>) -> Seq<Seq<char>> {
    Seq::new(rows.len(), |i: int| rows[i].id@)
}

/// The noyaux that the subject is bound to, each once, with how many of its
/// bindings lead there and where the noyau lies.
pub fn list_noyaux(map: &HabilitationMap, sub: &str, galaxies_root: &str) -> (r: NoyauxResponse)
    requires
        map.wf(),
    ensures
        ids_of(r.noyaux@) == nucleon_map::distinct(nucleon_map::noyaux_of_sub(map.order(), map.bindings(), sub@)),
        forall|i: int|
            #![trigger r.noyaux@[i]]
            0 <= i < r.noyaux@.len() ==> {
                &&& r.noyaux@[i].binding_count == nucleon_map::occurrences(
                    nucleon_map::noyaux_of_sub(map.order(), map.bindings(), sub@),
                    r.noyaux@[i].id@,
                )
                &&& r.noyaux@[i].galaxies_root@ == paths::joined(galaxies_root@, r.noyaux@[i].id@)
            },
{
    let rows = map.noyaux_for_sub(sub);
    let ghost all = nucleon_map::noyaux_of_sub(map.order(), map.bindings(), sub@);
    let mut out: Vec<NoyauEntry> = Vec::new();
    let mut i: usize = 0;
    while i < rows.len()
        invariant
            i <= rows@.len(),
            out@.len() == i,
            forall|k: int| 0 <= k < rows@.len() ==> (#[trigger] rows@[k]).1 == nucleon_map::occurrences(all, rows@[k].0.0@),
            forall|k: int|
                #![trigger out@[k]]
                0 <= k < i ==> {
                    &&& out@[k].id@ == rows@[k].0.0@
                    &&& out@[k].binding_count == rows@[k].1
                    &&& out@[k].galaxies_root@ == paths::joined(galaxies_root@, rows@[k].0.0@)
                },
        decreases rows@.len() - i,
    {
        let id = rows[i].0.as_str();
        out.push(
            NoyauEntry { id: id.to_owned(), binding_count: rows[i].1, galaxies_root: join(galaxies_root, id) },
        );
        i += 1;
    }
    assert(ids_of(out@) =~= nucleon_map::row_texts(rows@));
    NoyauxResponse { noyaux: out }
}

/// A caller is shown a noyau exactly where some binding of its subject leads
/// there: a caller without bindings is shown none, and none sees another's.
pub proof fn law_callers_see_their_noyaux_only(map: HabilitationMap, sub: Seq<char>, noyau: Seq<char>)
    requires
        map.wf(),
    ensures
        nucleon_map::distinct(nucleon_map::noyaux_of_sub(map.order(), map.bindings(), sub)).contains(noyau) <==> exists|
            k: KeyView,
        |
            #[trigger] map.bindings().contains_key(k) && k.sub == sub && map.bindings()[k].noyau == noyau,
{
    let keys = map.order();
    let m = map.bindings();
    let all = nucleon_map::noyaux_of_sub(keys, m, sub);
    nucleon_map::law_noyaux_are_distinct_and_complete(all);
    map.law_order_lists_every_binding_once();
    lemma_noyaux_of_sub(keys, m, sub, noyau);
    if all.contains(noyau) {
        let i = choose|i: int| 0 <= i < keys.len() && (#[trigger] keys[i]).sub == sub && m[keys[i]].noyau == noyau;
        assert(keys.contains(keys[i]));
        assert(m.contains_key(keys[i]));
    }
    if exists|k: KeyView| #[trigger] m.contains_key(k) && k.sub == sub && m[k].noyau == noyau {
        let k = choose|k: KeyView| #[trigger] m.contains_key(k) && k.sub == sub && m[k].noyau == noyau;
        assert(keys.contains(k));
        let i = choose|i: int| 0 <= i < keys.len() && keys[i] == k;
        assert(keys[i].sub == sub);
    }
}

proof fn lemma_noyaux_of_sub(keys: Seq<KeyView>, m: Map<KeyView, ResolvedView>, sub: Seq<char>, noyau: Seq<char>)
    ensures
        nucleon_map::noyaux_of_sub(keys, m, sub).contains(noyau) <==> exists|i: int|
            0 <= i < keys.len() && (#[trigger] keys[i]).sub == sub && m[keys[i]].noyau == noyau,
    decreases keys.len(),
{
    if keys.len() > 0 {
        let rest = keys.drop_last();
        let head = nucleon_map::noyaux_of_sub(rest, m, sub);
        let all = nucleon_map::noyaux_of_sub(keys, m, sub);
        lemma_noyaux_of_sub(rest, m, sub, noyau);
        if all.contains(noyau) {
            let j = choose|j: int| 0 <= j < all.len() && all[j] == noyau;
            if j < head.len() {
                assert(head[j] == noyau);
                let i = choose|i: int| 0 <= i < rest.len() && (#[trigger] rest[i]).sub == sub && m[rest[i]].noyau == noyau;
                assert(keys[i] == rest[i]);
            } else {
                assert(keys[keys.len() - 1].sub == sub);
            }
        }
        if exists|i: int| 0 <= i < keys.len() && (#[trigger] keys[i]).sub == sub && m[keys[i]].noyau == noyau {
            let i = choose|i: int| 0 <= i < keys.len() && (#[trigger] keys[i]).sub == sub && m[keys[i]].noyau == noyau;
            if i < rest.len() {
                assert(rest[i] == keys[i]);
                let j = choose|j: int| 0 <= j < head.len() && head[j] == noyau;
                assert(all[j] == noyau);
            } else {
                assert(all[head.len() as int] == noyau);
            }
        }
    }
}

// ---------------------------------------------------------------------------
// The plan
// ---------------------------------------------------------------------------

pub open spec fn list_noyaux_plan() -> Seq<Stage> {
    seq![
        Stage::Bearer { metered: false },
        Stage::Token { metered: false },
        Stage::Answer { status: 200 },
    ]
}

/// The plan of `GET /v1/noyaux`: a token that verifies is all it takes.
pub fn list_noyaux_stages() -> (r: Vec<Stage>)
    ensures
        r@ == list_noyaux_plan(),
{
    vec![
        Stage::Bearer { metered: false },
        Stage::Token { metered: false },
        Stage::Answer { status: 200 },
    ]
}

// ---------------------------------------------------------------------------
// Laws
// ---------------------------------------------------------------------------


/// The ids of a list of noyaux are those of its rows, in order.
pub proof fn law_ids_of_rows(rows: Seq<NoyauEntry>, i: int)
    ensures
        ids_of(rows).len() == rows.len(),
        0 <= i < rows.len() ==> ids_of(rows)[i] == rows[i].id@,
{
}

} // verus!
