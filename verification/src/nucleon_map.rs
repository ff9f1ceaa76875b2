//! The sealed `(iss, sub, aud)` to noyau mapping.
//!
//! Each identity file is sealed with its BLAKE3 hash when it is loaded; a later
//! edit on disk shows as a live seal that differs from the recorded one.

use vstd::prelude::*;
use crate::digest;
use crate::digest::blake3_hex;
use crate::keyed;
use crate::keyed::{copy_key, ClaimKey, KeyView, Keyed};
use crate::order;
use crate::paths;
use crate::paths::is_toml;
use crate::text;
use crate::text::{chars_of, concat3, copy_list, has_prefix, same_text, trim};

verus! {

// ---------------------------------------------------------------------------
// Identifiers
// ---------------------------------------------------------------------------

/// A tenant axis.
#[derive(Debug, PartialEq, Eq, Hash)]
pub struct Noyau(pub String);

impl Noyau {
    pub fn new(value: &str) -> (r: Self)
        ensures
            r.0@ == value@,
    {
        Noyau(value.to_owned())
    }

    pub fn as_str(&self) -> (r: &str)
        ensures
            r@ == self.0@,
    {
        self.0.as_str()
    }
}

impl Clone for Noyau {
    fn clone(&self) -> (r: Self)
        ensures
            r == *self,
    {
        Noyau(self.0.clone())
    }
}

/// The directory name of a habilitation under `nucleons/`.
#[derive(Debug, PartialEq, Eq, Hash)]
pub struct HabilitationId(pub String);

impl HabilitationId {
    pub fn new(value: &str) -> (r: Self)
        ensures
            r.0@ == value@,
    {
        HabilitationId(value.to_owned())
    }

    pub fn as_str(&self) -> (r: &str)
        ensures
            r@ == self.0@,
    {
        self.0.as_str()
    }
}

impl Clone for HabilitationId {
    fn clone(&self) -> (r: Self)
        ensures
            r == *self,
    {
        HabilitationId(self.0.clone())
    }
}

// ---------------------------------------------------------------------------
// Identity files
// ---------------------------------------------------------------------------

/// The contents of an `oidc-identity.toml` file.
#[derive(Clone, Debug)]
pub struct OidcIdentity {
    pub nucleon_id: String,
    pub phase: String,
    pub noyau: String,
    pub oidc: OidcClaims,
    pub scopes: Option<ScopesGrant>,
    pub drain_bounds: Option<DrainBoundsSpec>,
}

/// The scopes that a binding grants on top of the token's own.
#[derive(Clone, Debug)]
pub struct ScopesGrant {
    pub allowed: Vec<String>,
}

/// The claim triple an identity file pins.
#[derive(Clone, Debug)]
pub struct OidcClaims {
    pub issuer: String,
    pub sub: String,
    pub audience: String,
    pub sealed_at: String,
}

/// Drain bounds as an identity file states them.
#[derive(Clone, Copy, Debug)]
pub struct DrainBoundsSpec {
    pub budget: Option<u64>,
    pub max_depth: Option<u32>,
    pub max_molecules: Option<u64>,
}

pub const DEFAULT_DRAIN_BUDGET: u64 = 128;

pub const DEFAULT_DRAIN_MAX_DEPTH: u32 = 8;

pub const DEFAULT_DRAIN_MAX_MOLECULES: u64 = 256;

/// Drain bounds in effect: always finite.
#[derive(Clone, Copy, Debug, PartialEq, Eq, Structural)]
pub struct DrainBounds {
    pub budget: u64,
    pub max_depth: u32,
    pub max_molecules: u64,
}

pub open spec fn default_bounds() -> DrainBounds {
    DrainBounds {
        budget: DEFAULT_DRAIN_BUDGET,
        max_depth: DEFAULT_DRAIN_MAX_DEPTH,
        max_molecules: DEFAULT_DRAIN_MAX_MOLECULES,
    }
}

/// The bounds in effect for what an identity file states: each bound it leaves
/// out takes its default.
pub open spec fn bounds_in_effect(spec: Option<DrainBoundsSpec>) -> DrainBounds {
    match spec {
        None => default_bounds(),
        Some(s) => DrainBounds {
            budget: match s.budget {
                Some(b) => b,
                None => DEFAULT_DRAIN_BUDGET,
            },
            max_depth: match s.max_depth {
                Some(d) => d,
                None => DEFAULT_DRAIN_MAX_DEPTH,
            },
            max_molecules: match s.max_molecules {
                Some(m) => m,
                None => DEFAULT_DRAIN_MAX_MOLECULES,
            },
        },
    }
}

impl Default for DrainBounds {
    fn default() -> (r: Self)
        ensures
            r == default_bounds(),
    {
        DrainBounds {
            budget: DEFAULT_DRAIN_BUDGET,
            max_depth: DEFAULT_DRAIN_MAX_DEPTH,
            max_molecules: DEFAULT_DRAIN_MAX_MOLECULES,
        }
    }
}

impl DrainBounds {
    /// The bounds in effect: what the section sets, and the defaults for the rest.
    pub fn from_spec(spec: Option<&DrainBoundsSpec>) -> (r: Self)
        ensures
            r == bounds_in_effect(match spec {
                Some(s) => Some(*s),
                None => None,
            }),
    {
        let d = DrainBounds::default();
        match spec {
            None => d,
            Some(s) => DrainBounds {
                budget: s.budget.unwrap_or(d.budget),
                max_depth: s.max_depth.unwrap_or(d.max_depth),
                max_molecules: s.max_molecules.unwrap_or(d.max_molecules),
            },
        }
    }
}

/// One file of a nucleon directory: its name, its text where it could be read,
/// and what the text parses to where it does.
#[derive(Clone, Debug)]
pub struct IdentityFile {
    pub name: String,
    pub text: Option<String>,
    pub parsed: Option<OidcIdentity>,
}

/// The files of the directory `nucleons/<id>`.
#[derive(Clone, Debug)]
pub struct NucleonDir {
    pub id: String,
    pub files: Vec<IdentityFile>,
}

/// A name under which identity files are looked for.
pub open spec fn identity_name(name: Seq<char>) -> bool {
    text::starts_with(name, "oidc-identity"@) && paths::names_toml(name)
}

/// A file that carries a binding: well named, readable and well formed.
pub open spec fn carries_binding(f: IdentityFile) -> bool {
    identity_name(f.name@) && f.text is Some && f.parsed is Some
}

pub open spec fn identity_key(id: OidcIdentity) -> KeyView {
    KeyView { iss: id.oidc.issuer@, sub: id.oidc.sub@, aud: id.oidc.audience@ }
}

/// The seal of a file: the BLAKE3 hash of its text.
pub open spec fn seal_of(file_text: Seq<char>) -> Seq<char> {
    digest::blake3_hex_of(digest::utf8(file_text))
}

fn is_identity_name(name: &str) -> (r: bool)
    ensures
        r == identity_name(name@),
{
    has_prefix(name, "oidc-identity") && is_toml(name)
}

// ---------------------------------------------------------------------------
// Bindings
// ---------------------------------------------------------------------------

/// What a claim triple is bound to.
#[derive(Debug)]
pub struct Resolved {
    pub nucleon_id: HabilitationId,
    pub noyau: Noyau,
    pub audience: String,
    pub allowed_scopes: Vec<String>,
    pub drain_bounds: DrainBounds,
}

/// A binding as a mathematical value.
#[verifier::ext_equal]
pub struct ResolvedView {
    pub nucleon_id: Seq<char>,
    pub noyau: Seq<char>,
    pub audience: Seq<char>,
    pub allowed_scopes: Seq<Seq<char>>,
    pub drain_bounds: DrainBounds,
}

impl View for Resolved {
    type V = ResolvedView;

    open spec fn view(&self) -> ResolvedView {
        ResolvedView {
            nucleon_id: self.nucleon_id.0@,
            noyau: self.noyau.0@,
            audience: self.audience@,
            allowed_scopes: text::views(self.allowed_scopes@),
            drain_bounds: self.drain_bounds,
        }
    }
}

impl Clone for Resolved {
    fn clone(&self) -> (r: Self)
        ensures
            r@ == self@,
    {
        Resolved {
            nucleon_id: self.nucleon_id.clone(),
            noyau: self.noyau.clone(),
            audience: self.audience.clone(),
            allowed_scopes: copy_list(&self.allowed_scopes),
            drain_bounds: self.drain_bounds,
        }
    }
}

/// The binding that an identity file carries.
pub open spec fn identity_binding(id: OidcIdentity) -> ResolvedView {
    ResolvedView {
        nucleon_id: id.nucleon_id@,
        noyau: id.noyau@,
        audience: id.oidc.audience@,
        allowed_scopes: match id.scopes {
            Some(grant) => text::views(grant.allowed@),
            None => Seq::empty(),
        },
        drain_bounds: bounds_in_effect(id.drain_bounds),
    }
}

/// One binding, as the operator lists it.
#[derive(Clone, Debug)]
pub struct BindingSummary {
    pub issuer: String,
    pub sub: String,
    pub habilitation_id: String,
    pub noyau: String,
    pub audience: String,
    pub allowed_scopes: Vec<String>,
}

/// The summary lists the binding that stands under the key.
pub open spec fn summarises(s: BindingSummary, k: KeyView, b: ResolvedView) -> bool {
    &&& s.issuer@ == k.iss
    &&& s.sub@ == k.sub
    &&& s.habilitation_id@ == b.nucleon_id
    &&& s.noyau@ == b.noyau
    &&& s.audience@ == b.audience
    &&& text::views(s.allowed_scopes@) == b.allowed_scopes
}

pub open spec fn key(iss: Seq<char>, sub: Seq<char>, aud: Seq<char>) -> KeyView {
    KeyView { iss, sub, aud }
}

/// `aud` is the first audience, in text order, that `(iss, sub)` is bound for.
pub open spec fn first_audience(
    m: Map<KeyView, ResolvedView>,
    iss: Seq<char>,
    sub: Seq<char>,
    aud: Seq<char>,
) -> bool {
    &&& m.contains_key(key(iss, sub, aud))
    &&& forall|other: Seq<char>| #[trigger]
        m.contains_key(key(iss, sub, other)) ==> order::text_le(aud, other)
}

/// The binding of `(iss, sub)` for its first audience.
pub open spec fn principal_binding(m: Map<KeyView, ResolvedView>, iss: Seq<char>, sub: Seq<char>) -> Option<
    ResolvedView,
> {
    if exists|aud: Seq<char>| first_audience(m, iss, sub, aud) {
        Some(m[key(iss, sub, choose|aud: Seq<char>| first_audience(m, iss, sub, aud))])
    } else {
        None
    }
}

/// The binding of a claim triple.
pub open spec fn triple_binding(
    m: Map<KeyView, ResolvedView>,
    iss: Seq<char>,
    sub: Seq<char>,
    aud: Seq<char>,
) -> Option<ResolvedView> {
    if m.contains_key(key(iss, sub, aud)) {
        Some(m[key(iss, sub, aud)])
    } else {
        None
    }
}

pub open spec fn scopes_of(b: Option<ResolvedView>) -> Seq<Seq<char>> {
    match b {
        Some(r) => r.allowed_scopes,
        None => Seq::empty(),
    }
}

/// Every recorded seal of the principal is still the live one; a principal
/// without recorded seals has no live ones either.
pub open spec fn principal_sealed(
    recorded: Map<KeyView, Seq<char>>,
    live: Map<KeyView, Seq<char>>,
    iss: Seq<char>,
    sub: Seq<char>,
) -> bool {
    if exists|aud: Seq<char>| #[trigger] recorded.contains_key(key(iss, sub, aud)) {
        forall|aud: Seq<char>| #[trigger]
            recorded.contains_key(key(iss, sub, aud)) ==> live.contains_key(key(iss, sub, aud))
                && live[key(iss, sub, aud)] == recorded[key(iss, sub, aud)]
    } else {
        forall|aud: Seq<char>| !(#[trigger] live.contains_key(key(iss, sub, aud)))
    }
}

/// The recorded and the live seal of the triple agree, or both are absent.
pub open spec fn triple_sealed(
    recorded: Map<KeyView, Seq<char>>,
    live: Map<KeyView, Seq<char>>,
    k: KeyView,
) -> bool {
    if recorded.contains_key(k) {
        live.contains_key(k) && live[k] == recorded[k]
    } else {
        !live.contains_key(k)
    }
}

/// A list without the texts that came before in it.
pub open spec fn distinct(s: Seq<Seq<char>>) -> Seq<Seq<char>>
    decreases s.len(),
{
    if s.len() == 0 {
        Seq::empty()
    } else {
        let head = distinct(s.drop_last());
        if head.contains(s.last()) {
            head
        } else {
            head.push(s.last())
        }
    }
}

/// How often a text occurs in a list.
pub open spec fn occurrences(s: Seq<Seq<char>>, t: Seq<char>) -> nat
    decreases s.len(),
{
    if s.len() == 0 {
        0
    } else {
        occurrences(s.drop_last(), t) + if s.last() == t {
            1nat
        } else {
            0nat
        }
    }
}

/// The noyaux that the keys are bound to, in the order of the keys.
pub open spec fn noyaux_in_order(keys: Seq<KeyView>, m: Map<KeyView, ResolvedView>) -> Seq<Seq<char>> {
    Seq::new(keys.len(), |i: int| m[keys[i]].noyau)
}

/// The noyaux that the keys of one subject are bound to, in key order.
pub open spec fn noyaux_of_sub(keys: Seq<KeyView>, m: Map<KeyView, ResolvedView>, sub: Seq<char>) -> Seq<Seq<char>>
    decreases keys.len(),
{
    if keys.len() == 0 {
        Seq::empty()
    } else {
        let head = noyaux_of_sub(keys.drop_last(), m, sub);
        if keys.last().sub == sub {
            head.push(m[keys.last()].noyau)
        } else {
            head
        }
    }
}

/// The bindings that a run of files leaves behind: of two files for one triple,
/// the later one counts.
pub open spec fn loaded_bindings(files: Seq<IdentityFile>) -> Map<KeyView, ResolvedView>
    decreases files.len(),
{
    if files.len() == 0 {
        Map::empty()
    } else {
        let f = files.last();
        let before = loaded_bindings(files.drop_last());
        if carries_binding(f) {
            before.insert(identity_key(f.parsed->0), identity_binding(f.parsed->0))
        } else {
            before
        }
    }
}

/// The seals that a run of files leaves behind.
pub open spec fn loaded_seals(files: Seq<IdentityFile>) -> Map<KeyView, Seq<char>>
    decreases files.len(),
{
    if files.len() == 0 {
        Map::empty()
    } else {
        let f = files.last();
        let before = loaded_seals(files.drop_last());
        if carries_binding(f) {
            before.insert(identity_key(f.parsed->0), seal_of((f.text->0)@))
        } else {
            before
        }
    }
}

/// The seal of the first file that carries a binding for the triple.
pub open spec fn seal_on_disk(files: Seq<IdentityFile>, k: KeyView) -> Option<Seq<char>>
    decreases files.len(),
{
    if files.len() == 0 {
        None
    } else if carries_binding(files[0]) && identity_key(files[0].parsed->0) == k {
        Some(seal_of((files[0].text->0)@))
    } else {
        seal_on_disk(files.skip(1), k)
    }
}

/// The files of the first directory of that name; none where there is none.
pub open spec fn files_of(dirs: Seq<NucleonDir>, id: Seq<char>) -> Seq<IdentityFile>
    decreases dirs.len(),
{
    if dirs.len() == 0 {
        Seq::empty()
    } else if dirs[0].id@ == id {
        dirs[0].files@
    } else {
        files_of(dirs.skip(1), id)
    }
}

/// The live seals once the directories have been read again: those of bound
/// triples come from disk, the others stay.
pub open spec fn refreshed(
    live: Map<KeyView, Seq<char>>,
    bindings: Map<KeyView, ResolvedView>,
    dirs: Seq<NucleonDir>,
) -> Map<KeyView, Seq<char>> {
    Map::new(
        |k: KeyView|
            if bindings.contains_key(k) {
                seal_on_disk(files_of(dirs, bindings[k].nucleon_id), k) is Some
            } else {
                live.contains_key(k)
            },
        |k: KeyView|
            if bindings.contains_key(k) {
                seal_on_disk(files_of(dirs, bindings[k].nucleon_id), k)->0
            } else {
                live[k]
            },
    )
}

/// The sealed mapping.
pub struct HabilitationMap {
    by_key: Keyed<Resolved>,
    seals: Keyed<String>,
    live_seals: Keyed<String>,
}

spec fn resolved_views(m: Map<KeyView, Resolved>) -> Map<KeyView, ResolvedView> {
    Map::new(|k: KeyView| m.contains_key(k), |k: KeyView| m[k]@)
}

spec fn text_views(m: Map<KeyView, String>) -> Map<KeyView, Seq<char>> {
    Map::new(|k: KeyView| m.contains_key(k), |k: KeyView| m[k]@)
}

impl Default for HabilitationMap {
    fn default() -> (r: Self)
        ensures
            r.wf(),
            r.bindings() == Map::<KeyView, ResolvedView>::empty(),
            r.recorded() == Map::<KeyView, Seq<char>>::empty(),
            r.live() == Map::<KeyView, Seq<char>>::empty(),
    {
        let r = HabilitationMap { by_key: Keyed::new(), seals: Keyed::new(), live_seals: Keyed::new() };
        assert(r.bindings() =~= Map::<KeyView, ResolvedView>::empty());
        assert(r.recorded() =~= Map::<KeyView, Seq<char>>::empty());
        assert(r.live() =~= Map::<KeyView, Seq<char>>::empty());
        r
    }
}

impl HabilitationMap {
    pub closed spec fn wf(&self) -> bool {
        self.by_key.wf() && self.seals.wf() && self.live_seals.wf()
    }

    /// What each claim triple is bound to.
    pub closed spec fn bindings(&self) -> Map<KeyView, ResolvedView> {
        resolved_views(self.by_key@)
    }

    /// The seals taken when the files were loaded.
    pub closed spec fn recorded(&self) -> Map<KeyView, Seq<char>> {
        text_views(self.seals@)
    }

    /// The seals of the files as last seen on disk.
    pub closed spec fn live(&self) -> Map<KeyView, Seq<char>> {
        text_views(self.live_seals@)
    }

    /// The bound triples, in key order.
    pub closed spec fn order(&self) -> Seq<KeyView> {
        Seq::new(self.by_key.entries@.len(), |i: int| self.by_key.entries@[i].0@)
    }

    /// The order lists every bound triple once, in increasing order.
    pub proof fn law_order_lists_every_binding_once(&self)
        requires
            self.wf(),
        ensures
            forall|i: int, j: int| 0 <= i < j < self.order().len() ==> keyed::key_lt(
                #[trigger] self.order()[i],
                #[trigger] self.order()[j],
            ),
            forall|k: KeyView| self.bindings().contains_key(k) <==> self.order().contains(k),
    {
        let s = self.by_key.entries@;
        let o = self.order();
        assert forall|i: int, j: int| 0 <= i < j < o.len() implies keyed::key_lt(#[trigger] o[i], #[trigger] o[j]) by {
            assert(keyed::key_lt(s[i].0@, s[j].0@));
        }
        assert forall|k: KeyView| self.bindings().contains_key(k) <==> o.contains(k) by {
            keyed::lemma_insertions_domain(s, k);
            if o.contains(k) {
                let i = choose|i: int| 0 <= i < o.len() && o[i] == k;
                assert(s[i].0@ == k);
            }
            if exists|i: int| 0 <= i < s.len() && (#[trigger] s[i]).0@ == k {
                let i = choose|i: int| 0 <= i < s.len() && (#[trigger] s[i]).0@ == k;
                assert(o[i] == k);
            }
        }
    }

    proof fn lemma_entry(&self, i: int)
        requires
            self.wf(),
            0 <= i < self.by_key.entries@.len(),
        ensures
            self.bindings().contains_key(self.by_key.entries@[i].0@),
            self.bindings()[self.by_key.entries@[i].0@] == self.by_key.entries@[i].1@,
            self.order()[i] == self.by_key.entries@[i].0@,
    {
        keyed::lemma_insertions_at(self.by_key.entries@, i);
    }

    /// The binding of `(iss, sub)` for its first audience in text order.
    pub fn resolve(&self, iss: &str, sub: &str) -> (r: Option<&Resolved>)
        requires
            self.wf(),
        ensures
            r is Some <==> principal_binding(self.bindings(), iss@, sub@) is Some,
            r is Some ==> (*r->0)@ == principal_binding(self.bindings(), iss@, sub@)->0,
    {
        let ghost m = self.bindings();
        let mut i: usize = 0;
        while i < self.by_key.entries.len()
            invariant
                i <= self.by_key.entries@.len(),
                self.wf(),
                m == self.bindings(),
                forall|k: int|
                    0 <= k < i ==> !((#[trigger] self.by_key.entries@[k]).0@.iss == iss@
                        && self.by_key.entries@[k].0@.sub == sub@),
            decreases self.by_key.entries@.len() - i,
        {
            let e = &self.by_key.entries[i];
            if same_text(e.0.iss.as_str(), iss) && same_text(e.0.sub.as_str(), sub) {
                proof {
                    self.lemma_entry(i as int);
                    let aud = e.0.aud@;
                    assert(e.0@ == key(iss@, sub@, aud));
                    assert forall|other: Seq<char>| #[trigger] m.contains_key(key(iss@, sub@, other)) implies order::text_le(
                        aud,
                        other,
                    ) by {
                        keyed::lemma_insertions_domain(self.by_key.entries@, key(iss@, sub@, other));
                        let j = choose|j: int|
                            0 <= j < self.by_key.entries@.len() && (#[trigger] self.by_key.entries@[j]).0@ == key(
                                iss@,
                                sub@,
                                other,
                            );
                        if j > i {
                            assert(keyed::key_lt(self.by_key.entries@[i as int].0@, self.by_key.entries@[j].0@));
                            order::lemma_text_irreflexive(iss@);
                            order::lemma_text_irreflexive(sub@);
                        }
                    }
                    assert(first_audience(m, iss@, sub@, aud));
                    let c = choose|c: Seq<char>| first_audience(m, iss@, sub@, c);
                    assert(m.contains_key(key(iss@, sub@, c)));
                    assert(order::text_le(c, aud) && order::text_le(aud, c));
                    order::lemma_text_total(c, aud);
                }
                return Some(&e.1);
            }
            i += 1;
        }
        proof {
            if exists|aud: Seq<char>| first_audience(m, iss@, sub@, aud) {
                let aud = choose|aud: Seq<char>| first_audience(m, iss@, sub@, aud);
                keyed::lemma_insertions_domain(self.by_key.entries@, key(iss@, sub@, aud));
            }
        }
        None
    }

    /// The binding of the claim triple.
    pub fn resolve_for_audience(&self, iss: &str, sub: &str, aud: &str) -> (r: Option<&Resolved>)
        requires
            self.wf(),
        ensures
            r is Some <==> triple_binding(self.bindings(), iss@, sub@, aud@) is Some,
            r is Some ==> (*r->0)@ == triple_binding(self.bindings(), iss@, sub@, aud@)->0,
    {
        let k = ClaimKey { iss: iss.to_owned(), sub: sub.to_owned(), aud: aud.to_owned() };
        assert(k@ == key(iss@, sub@, aud@));
        self.by_key.get(&k)
    }

    /// How many triples are bound.
    pub fn binding_count(&self) -> (r: usize)
        ensures
            r == self.order().len(),
    {
        self.by_key.entries.len()
    }

    /// The distinct noyaux, in the order of the first triple bound to each.
    pub fn noyaux(&self) -> (r: Vec<Noyau>)
        requires
            self.wf(),
        ensures
            noyau_texts(r@) == distinct(noyaux_in_order(self.order(), self.bindings())),
    {
        let ghost all = noyaux_in_order(self.order(), self.bindings());
        let mut out: Vec<Noyau> = Vec::new();
        let mut i: usize = 0;
        assert(noyau_texts(out@) =~= distinct(all.take(0)));
        while i < self.by_key.entries.len()
            invariant
                i <= self.by_key.entries@.len(),
                self.wf(),
                all == noyaux_in_order(self.order(), self.bindings()),
                noyau_texts(out@) == distinct(all.take(i as int)),
            decreases self.by_key.entries@.len() - i,
        {
            let n = &self.by_key.entries[i].1.noyau;
            proof {
                self.lemma_entry(i as int);
                assert(all.take(i + 1).drop_last() =~= all.take(i as int));
                assert(all.take(i + 1).last() == n.0@);
            }
            if !holds_noyau(&out, n.as_str()) {
                out.push(n.clone());
                assert(noyau_texts(out@) =~= distinct(all.take(i as int)).push(n.0@));
            }
            i += 1;
        }
        assert(all.take(i as int) =~= all);
        out
    }

    /// The distinct noyaux that the subject is bound to under any issuer, with
    /// the number of its bindings to each.
    pub fn noyaux_for_sub(&self, sub: &str) -> (r: Vec<(Noyau, usize)>)
        requires
            self.wf(),
        ensures
            row_texts(r@) == distinct(noyaux_of_sub(self.order(), self.bindings(), sub@)),
            forall|i: int|
                0 <= i < r@.len() ==> (#[trigger] r@[i]).1 == occurrences(
                    noyaux_of_sub(self.order(), self.bindings(), sub@),
                    r@[i].0.0@,
                ),
    {
        let ghost keys = self.order();
        let ghost m = self.bindings();
        let mut out: Vec<(Noyau, usize)> = Vec::new();
        let mut i: usize = 0;
        assert(keys.take(0) =~= Seq::<KeyView>::empty());
        assert(row_texts(out@) =~= distinct(noyaux_of_sub(keys.take(0), m, sub@)));
        while i < self.by_key.entries.len()
            invariant
                i <= self.by_key.entries@.len(),
                self.wf(),
                keys == self.order(),
                m == self.bindings(),
                row_texts(out@) == distinct(noyaux_of_sub(keys.take(i as int), m, sub@)),
                forall|j: int|
                    0 <= j < out@.len() ==> (#[trigger] out@[j]).1 == occurrences(
                        noyaux_of_sub(keys.take(i as int), m, sub@),
                        out@[j].0.0@,
                    ),
            decreases self.by_key.entries@.len() - i,
        {
            let e = &self.by_key.entries[i];
            let ghost seen = noyaux_of_sub(keys.take(i as int), m, sub@);
            let ghost next = noyaux_of_sub(keys.take(i + 1), m, sub@);
            proof {
                self.lemma_entry(i as int);
                assert(keys.take(i + 1).drop_last() =~= keys.take(i as int));
                assert(keys.take(i + 1).last() == e.0@);
            }
            if same_text(e.0.sub.as_str(), sub) {
                let ghost n = e.1.noyau.0@;
                proof {
                    assert(next == seen.push(n));
                    assert(next.drop_last() =~= seen);
                    lemma_occurrences_bound(seen, n);
                    lemma_order_length(keys.take(i as int), m, sub@);
                }
                match find_row(&out, e.1.noyau.as_str()) {
                    Some(at) => {
                        let ghost before = out@;
                        assert(row_texts(before)[at as int] == n);
                        assert(before[at as int].1 == occurrences(seen, n));
                        let count: usize = out[at].1 + 1;
                        let name = out[at].0.clone();
                        out.set(at, (name, count));
                        assert(row_texts(out@) =~= row_texts(before));
                        proof {
                            assert forall|j: int| 0 <= j < out@.len() implies (#[trigger] out@[j]).1 == occurrences(
                                next,
                                out@[j].0.0@,
                            ) by {
                                assert(out@[j].0.0@ == before[j].0.0@);
                                if j != at {
                                    assert(row_texts(before)[j] == before[j].0.0@);
                                    lemma_distinct_unique(seen, j, at as int);
                                }
                            }
                        }
                    },
                    None => {
                        let ghost before = out@;
                        out.push((e.1.noyau.clone(), 1));
                        assert(row_texts(out@) =~= row_texts(before).push(n));
                        proof {
                            lemma_distinct_contains(seen, n);
                            lemma_not_listed(seen, n);
                            assert forall|j: int| 0 <= j < out@.len() implies (#[trigger] out@[j]).1 == occurrences(
                                next,
                                out@[j].0.0@,
                            ) by {
                                if j < before.len() {
                                    assert(out@[j] == before[j]);
                                    assert(row_texts(before)[j] == before[j].0.0@);
                                    assert(before[j].0.0@ != n);
                                }
                            }
                        }
                    },
                }
            }
            i += 1;
        }
        assert(keys.take(i as int) =~= keys);
        out
    }

    /// The scopes granted to `(iss, sub)` for its first audience.
    pub fn allowed_scopes_for(&self, iss: &str, sub: &str) -> (r: Vec<String>)
        requires
            self.wf(),
        ensures
            text::views(r@) == scopes_of(principal_binding(self.bindings(), iss@, sub@)),
    {
        match self.resolve(iss, sub) {
            Some(r) => copy_list(&r.allowed_scopes),
            None => {
                let none: Vec<String> = Vec::new();
                assert(text::views(none@) =~= Seq::<Seq<char>>::empty());
                none
            },
        }
    }

    /// The scopes granted to the claim triple.
    pub fn allowed_scopes_for_audience(&self, iss: &str, sub: &str, aud: &str) -> (r: Vec<String>)
        requires
            self.wf(),
        ensures
            text::views(r@) == scopes_of(triple_binding(self.bindings(), iss@, sub@, aud@)),
    {
        match self.resolve_for_audience(iss, sub, aud) {
            Some(r) => copy_list(&r.allowed_scopes),
            None => {
                let none: Vec<String> = Vec::new();
                assert(text::views(none@) =~= Seq::<Seq<char>>::empty());
                none
            },
        }
    }

    /// Every binding, in key order.
    pub fn summaries(&self) -> (r: Vec<BindingSummary>)
        requires
            self.wf(),
        ensures
            r@.len() == self.order().len(),
            forall|i: int|
                0 <= i < r@.len() ==> summarises(
                    #[trigger] r@[i],
                    self.order()[i],
                    self.bindings()[self.order()[i]],
                ),
    {
        let mut out: Vec<BindingSummary> = Vec::new();
        let mut i: usize = 0;
        while i < self.by_key.entries.len()
            invariant
                i <= self.by_key.entries@.len(),
                self.wf(),
                out@.len() == i,
                forall|j: int|
                    0 <= j < i ==> summarises(#[trigger] out@[j], self.order()[j], self.bindings()[self.order()[j]]),
            decreases self.by_key.entries@.len() - i,
        {
            let e = &self.by_key.entries[i];
            proof {
                self.lemma_entry(i as int);
            }
            out.push(
                BindingSummary {
                    issuer: e.0.iss.clone(),
                    sub: e.0.sub.clone(),
                    habilitation_id: e.1.nucleon_id.as_str().to_owned(),
                    noyau: e.1.noyau.as_str().to_owned(),
                    audience: e.1.audience.clone(),
                    allowed_scopes: copy_list(&e.1.allowed_scopes),
                },
            );
            i += 1;
        }
        out
    }

    /// Tells whether no file of the principal has changed since it was loaded.
    pub fn seal_intact(&self, iss: &str, sub: &str) -> (r: bool)
        requires
            self.wf(),
        ensures
            r == principal_sealed(self.recorded(), self.live(), iss@, sub@),
    {
        let ghost rec = self.recorded();
        let ghost live = self.live();
        let mut any: bool = false;
        let mut i: usize = 0;
        while i < self.seals.entries.len()
            invariant
                i <= self.seals.entries@.len(),
                self.wf(),
                rec == self.recorded(),
                live == self.live(),
                any <==> exists|k: int|
                    0 <= k < i && (#[trigger] self.seals.entries@[k]).0@.iss == iss@
                        && self.seals.entries@[k].0@.sub == sub@,
                forall|k: int|
                    #![trigger self.seals.entries@[k]]
                    0 <= k < i && self.seals.entries@[k].0@.iss == iss@ && self.seals.entries@[k].0@.sub == sub@ ==> {
                        let at = self.seals.entries@[k].0@;
                        live.contains_key(at) && live[at] == rec[at]
                    },
            decreases self.seals.entries@.len() - i,
        {
            let e = &self.seals.entries[i];
            proof {
                keyed::lemma_insertions_at(self.seals.entries@, i as int);
            }
            if same_text(e.0.iss.as_str(), iss) && same_text(e.0.sub.as_str(), sub) {
                any = true;
                assert(e.0@ == key(iss@, sub@, e.0.aud@));
                match self.live_seals.get(&e.0) {
                    Some(l) => {
                        if !same_text(l.as_str(), e.1.as_str()) {
                            assert(rec.contains_key(key(iss@, sub@, e.0.aud@)));
                            return false;
                        }
                    },
                    None => {
                        assert(rec.contains_key(key(iss@, sub@, e.0.aud@)));
                        return false;
                    },
                }
            }
            i += 1;
        }
        if any {
            proof {
                let k = choose|k: int|
                    0 <= k < i && (#[trigger] self.seals.entries@[k]).0@.iss == iss@
                        && self.seals.entries@[k].0@.sub == sub@;
                keyed::lemma_insertions_at(self.seals.entries@, k);
                let at = self.seals.entries@[k].0@;
                assert(at == key(iss@, sub@, at.aud));
                assert(rec.contains_key(key(iss@, sub@, at.aud)));
                assert forall|aud: Seq<char>| #[trigger] rec.contains_key(key(iss@, sub@, aud)) implies live.contains_key(
                    key(iss@, sub@, aud),
                ) && live[key(iss@, sub@, aud)] == rec[key(iss@, sub@, aud)] by {
                    keyed::lemma_insertions_domain(self.seals.entries@, key(iss@, sub@, aud));
                }
            }
            return true;
        }
        proof {
            assert forall|aud: Seq<char>| !(#[trigger] rec.contains_key(key(iss@, sub@, aud))) by {
                keyed::lemma_insertions_domain(self.seals.entries@, key(iss@, sub@, aud));
            }
        }
        let mut j: usize = 0;
        while j < self.live_seals.entries.len()
            invariant
                j <= self.live_seals.entries@.len(),
                self.wf(),
                rec == self.recorded(),
                live == self.live(),
                forall|aud: Seq<char>| !(#[trigger] rec.contains_key(key(iss@, sub@, aud))),
                forall|k: int|
                    0 <= k < j ==> !((#[trigger] self.live_seals.entries@[k]).0@.iss == iss@
                        && self.live_seals.entries@[k].0@.sub == sub@),
            decreases self.live_seals.entries@.len() - j,
        {
            let e = &self.live_seals.entries[j];
            if same_text(e.0.iss.as_str(), iss) && same_text(e.0.sub.as_str(), sub) {
                proof {
                    keyed::lemma_insertions_at(self.live_seals.entries@, j as int);
                    assert(e.0@ == key(iss@, sub@, e.0.aud@));
                    assert(live.contains_key(key(iss@, sub@, e.0.aud@)));
                }
                return false;
            }
            j += 1;
        }
        proof {
            assert forall|aud: Seq<char>| !(#[trigger] live.contains_key(key(iss@, sub@, aud))) by {
                keyed::lemma_insertions_domain(self.live_seals.entries@, key(iss@, sub@, aud));
            }
        }
        true
    }

    /// Tells whether the file of the claim triple has not changed since it was
    /// loaded.
    pub fn seal_intact_for_audience(&self, iss: &str, sub: &str, aud: &str) -> (r: bool)
        requires
            self.wf(),
        ensures
            r == triple_sealed(self.recorded(), self.live(), key(iss@, sub@, aud@)),
    {
        let k = ClaimKey { iss: iss.to_owned(), sub: sub.to_owned(), aud: aud.to_owned() };
        assert(k@ == key(iss@, sub@, aud@));
        match self.seals.get(&k) {
            Some(recorded) => match self.live_seals.get(&k) {
                Some(live) => same_text(recorded.as_str(), live.as_str()),
                None => false,
            },
            None => match self.live_seals.get(&k) {
                Some(_) => false,
                None => true,
            },
        }
    }

    /// The mapping that the given files make up, each sealed as it is read.
    pub fn load(files: &Vec<IdentityFile>) -> (r: Self)
        ensures
            r.wf(),
            r.bindings() == loaded_bindings(files@),
            r.recorded() == loaded_seals(files@),
            r.live() == loaded_seals(files@),
    {
        let mut out = HabilitationMap::default();
        let mut i: usize = 0;
        assert(files@.take(0) =~= Seq::<IdentityFile>::empty());
        while i < files.len()
            invariant
                i <= files@.len(),
                out.wf(),
                out.bindings() == loaded_bindings(files@.take(i as int)),
                out.recorded() == loaded_seals(files@.take(i as int)),
                out.live() == loaded_seals(files@.take(i as int)),
            decreases files@.len() - i,
        {
            let f = &files[i];
            proof {
                assert(files@.take(i + 1).drop_last() =~= files@.take(i as int));
                assert(files@.take(i + 1).last() == *f);
            }
            if is_identity_name(f.name.as_str()) {
                if let Some(t) = &f.text {
                    if let Some(id) = &f.parsed {
                        out.take_in(t.as_str(), id);
                    }
                }
            }
            i += 1;
        }
        assert(files@.take(i as int) =~= files@);
        out
    }

    /// Takes in one identity file: its binding, and its seal as both the
    /// recorded and the live one.
    fn take_in(&mut self, file_text: &str, id: &OidcIdentity)
        requires
            old(self).wf(),
        ensures
            final(self).wf(),
            final(self).bindings() == old(self).bindings().insert(identity_key(*id), identity_binding(*id)),
            final(self).recorded() == old(self).recorded().insert(identity_key(*id), seal_of(file_text@)),
            final(self).live() == old(self).live().insert(identity_key(*id), seal_of(file_text@)),
    {
        let seal = blake3_hex(file_text.as_bytes());
        let k = ClaimKey {
            iss: id.oidc.issuer.clone(),
            sub: id.oidc.sub.clone(),
            aud: id.oidc.audience.clone(),
        };
        let allowed_scopes: Vec<String> = match &id.scopes {
            Some(grant) => copy_list(&grant.allowed),
            None => Vec::new(),
        };
        let bounds = match &id.drain_bounds {
            Some(b) => DrainBounds::from_spec(Some(b)),
            None => DrainBounds::from_spec(None),
        };
        let resolved = Resolved {
            nucleon_id: HabilitationId(id.nucleon_id.clone()),
            noyau: Noyau(id.noyau.clone()),
            audience: id.oidc.audience.clone(),
            allowed_scopes,
            drain_bounds: bounds,
        };
        assert(resolved@ =~= identity_binding(*id));
        self.seals.insert(copy_key(&k), seal.clone());
        self.live_seals.insert(copy_key(&k), seal);
        self.by_key.insert(k, resolved);
        assert(self.bindings() =~= old(self).bindings().insert(identity_key(*id), identity_binding(*id)));
        assert(self.recorded() =~= old(self).recorded().insert(identity_key(*id), seal_of(file_text@)));
        assert(self.live() =~= old(self).live().insert(identity_key(*id), seal_of(file_text@)));
    }

    /// Takes the live seal of every bound triple from the directories as they
    /// are now.
    pub fn refresh_live_seals(&mut self, dirs: &Vec<NucleonDir>)
        requires
            old(self).wf(),
        ensures
            final(self).wf(),
            final(self).bindings() == old(self).bindings(),
            final(self).order() == old(self).order(),
            final(self).recorded() == old(self).recorded(),
            final(self).live() == refreshed(old(self).live(), old(self).bindings(), dirs@),
    {
        let ghost m = self.bindings();
        let ghost before = self.live();
        let ghost after = refreshed(before, m, dirs@);
        let mut i: usize = 0;
        while i < self.by_key.entries.len()
            invariant
                i <= self.by_key.entries@.len(),
                self.wf(),
                self.by_key == old(self).by_key,
                self.seals == old(self).seals,
                m == self.bindings(),
                after == refreshed(before, m, dirs@),
                forall|k: int|
                    0 <= k < i ==> same_at(self.live(), after, (#[trigger] self.by_key.entries@[k]).0@),
                forall|k: KeyView|
                    #![trigger self.live().contains_key(k)]
                    (forall|j: int| 0 <= j < i ==> (#[trigger] self.by_key.entries@[j]).0@ != k) ==> same_at(
                        self.live(),
                        before,
                        k,
                    ),
            decreases self.by_key.entries@.len() - i,
        {
            let ghost live0 = self.live();
            let k = copy_key(&self.by_key.entries[i].0);
            let ghost at = k@;
            proof {
                self.lemma_entry(i as int);
            }
            let found = {
                let id = self.by_key.entries[i].1.nucleon_id.as_str();
                live_seal(dirs, id, &k)
            };
            match found {
                Some(seal) => {
                    self.live_seals.insert(k, seal);
                    assert(self.live() =~= live0.insert(at, seal@));
                },
                None => {
                    self.live_seals.remove(&k);
                    assert(self.live() =~= live0.remove(at));
                },
            }
            proof {
                assert(same_at(self.live(), after, at));
                assert forall|x: int| 0 <= x < i + 1 implies same_at(
                    self.live(),
                    after,
                    (#[trigger] self.by_key.entries@[x]).0@,
                ) by {
                    if x < i {
                        assert(keyed::key_lt(self.by_key.entries@[x].0@, self.by_key.entries@[i as int].0@));
                        keyed::lemma_key_irreflexive(at);
                        assert(same_at(live0, after, self.by_key.entries@[x].0@));
                    }
                }
                assert forall|x: KeyView|
                    #![trigger self.live().contains_key(x)]
                    (forall|j: int| 0 <= j < i + 1 ==> (#[trigger] self.by_key.entries@[j]).0@ != x) implies same_at(
                    self.live(),
                    before,
                    x,
                ) by {
                    assert(self.by_key.entries@[i as int].0@ != x);
                    assert(live0.contains_key(x) == live0.contains_key(x));
                    assert(same_at(live0, before, x));
                }
            }
            i += 1;
        }
        proof {
            assert forall|k: KeyView| same_at(self.live(), after, k) by {
                keyed::lemma_insertions_domain(self.by_key.entries@, k);
                if m.contains_key(k) {
                    let j = choose|j: int|
                        0 <= j < self.by_key.entries@.len() && (#[trigger] self.by_key.entries@[j]).0@ == k;
                    assert(same_at(self.live(), after, self.by_key.entries@[j].0@));
                } else {
                    assert(self.live().contains_key(k) == self.live().contains_key(k));
                    assert(same_at(self.live(), before, k));
                }
            }
            assert forall|k: KeyView| self.live().contains_key(k) == after.contains_key(k) by {
                assert(same_at(self.live(), after, k));
            }
            assert forall|k: KeyView| self.live().contains_key(k) implies self.live()[k] == after[k] by {
                assert(same_at(self.live(), after, k));
            }
            assert(self.live() =~= after);
        }
    }

    /// A builder without entries.
    pub fn builder() -> (r: HabilitationMapBuilder)
        ensures
            r@ == Seq::<(KeyView, ResolvedView)>::empty(),
    {
        HabilitationMapBuilder { entries: Vec::new() }
    }
}

/// Both maps say the same of one key.
spec fn same_at(a: Map<KeyView, Seq<char>>, b: Map<KeyView, Seq<char>>, k: KeyView) -> bool {
    a.contains_key(k) == b.contains_key(k) && (a.contains_key(k) ==> a[k] == b[k])
}

fn live_seal(dirs: &Vec<NucleonDir>, id: &str, k: &ClaimKey) -> (r: Option<String>)
    ensures
        r is Some <==> seal_on_disk(files_of(dirs@, id@), k@) is Some,
        r is Some ==> (r->0)@ == seal_on_disk(files_of(dirs@, id@), k@)->0,
{
    let mut d: usize = 0;
    assert(dirs@.skip(0) =~= dirs@);
    while d < dirs.len() && !same_text(dirs[d].id.as_str(), id)
        invariant
            d <= dirs@.len(),
            files_of(dirs@, id@) == files_of(dirs@.skip(d as int), id@),
        decreases dirs@.len() - d,
    {
        assert(dirs@.skip(d as int).skip(1) =~= dirs@.skip(d + 1));
        d += 1;
    }
    if d == dirs.len() {
        return None;
    }
    let files = &dirs[d].files;
    let mut i: usize = 0;
    assert(files@.skip(0) =~= files@);
    while i < files.len()
        invariant
            i <= files@.len(),
            files_of(dirs@, id@) == files@,
            seal_on_disk(files@, k@) == seal_on_disk(files@.skip(i as int), k@),
        decreases files@.len() - i,
    {
        let f = &files[i];
        assert(files@.skip(i as int)[0] == *f);
        assert(files@.skip(i as int).skip(1) =~= files@.skip(i + 1));
        if is_identity_name(f.name.as_str()) {
            if let Some(t) = &f.text {
                if let Some(parsed) = &f.parsed {
                    if same_text(parsed.oidc.issuer.as_str(), k.iss.as_str()) && same_text(
                        parsed.oidc.sub.as_str(),
                        k.sub.as_str(),
                    ) && same_text(parsed.oidc.audience.as_str(), k.aud.as_str()) {
                        assert(identity_key(*parsed) =~= k@);
                        return Some(blake3_hex(t.as_str().as_bytes()));
                    }
                }
            }
        }
        i += 1;
    }
    None
}

// ---------------------------------------------------------------------------
// Lists of noyaux
// ---------------------------------------------------------------------------

pub open spec fn noyau_texts(v: Seq<Noyau>) -> Seq<Seq<char>> {
    Seq::new(v.len(), |i: int| v[i].0@)
}

pub open spec fn row_texts(v: Seq<(Noyau, usize)>) -> Seq<Seq<char>> {
    Seq::new(v.len(), |i: int| v[i].0.0@)
}

/// Tells whether the list holds the noyau.
pub fn holds_noyau(v: &Vec<Noyau>, n: &str) -> (r: bool)
    ensures
        r == noyau_texts(v@).contains(n@),
{
    let mut i: usize = 0;
    while i < v.len()
        invariant
            i <= v@.len(),
            forall|k: int| 0 <= k < i ==> noyau_texts(v@)[k] != n@,
        decreases v@.len() - i,
    {
        if same_text(v[i].as_str(), n) {
            assert(noyau_texts(v@)[i as int] == n@);
            return true;
        }
        i += 1;
    }
    false
}

fn find_row(v: &Vec<(Noyau, usize)>, n: &str) -> (r: Option<usize>)
    ensures
        match r {
            Some(i) => i < v@.len() && row_texts(v@)[i as int] == n@,
            None => !row_texts(v@).contains(n@),
        },
{
    let mut i: usize = 0;
    while i < v.len()
        invariant
            i <= v@.len(),
            forall|k: int| 0 <= k < i ==> row_texts(v@)[k] != n@,
        decreases v@.len() - i,
    {
        if same_text(v[i].0.as_str(), n) {
            return Some(i);
        }
        i += 1;
    }
    None
}

proof fn lemma_distinct_contains(s: Seq<Seq<char>>, t: Seq<char>)
    ensures
        distinct(s).contains(t) <==> s.contains(t),
    decreases s.len(),
{
    if s.len() > 0 {
        lemma_distinct_contains(s.drop_last(), t);
        let head = distinct(s.drop_last());
        if s.contains(t) {
            let i = choose|i: int| 0 <= i < s.len() && s[i] == t;
            if i < s.len() - 1 {
                assert(s.drop_last()[i] == t);
                let j = choose|j: int| 0 <= j < head.len() && head[j] == t;
                assert(head.push(s.last())[j] == t);
            } else {
                assert(head.push(s.last())[head.len() as int] == t);
            }
        }
        if distinct(s).contains(t) {
            let j = choose|j: int| 0 <= j < distinct(s).len() && distinct(s)[j] == t;
            if j < head.len() {
                assert(head[j] == t);
                let i = choose|i: int| 0 <= i < s.drop_last().len() && s.drop_last()[i] == t;
                assert(s[i] == t);
            } else {
                assert(s[s.len() - 1] == t);
            }
        }
    }
}

proof fn lemma_distinct_unique(s: Seq<Seq<char>>, i: int, j: int)
    requires
        0 <= i < distinct(s).len(),
        0 <= j < distinct(s).len(),
        i != j,
    ensures
        distinct(s)[i] != distinct(s)[j],
    decreases s.len(),
{
    let head = distinct(s.drop_last());
    if i < head.len() && j < head.len() {
        lemma_distinct_unique(s.drop_last(), i, j);
    } else {
        assert(!head.contains(s.last()));
        if i < head.len() {
            assert(head.contains(head[i]));
        } else {
            assert(head.contains(head[j]));
        }
    }
}

proof fn lemma_not_listed(s: Seq<Seq<char>>, t: Seq<char>)
    ensures
        !s.contains(t) ==> occurrences(s, t) == 0,
    decreases s.len(),
{
    if s.len() > 0 {
        lemma_not_listed(s.drop_last(), t);
        if !s.contains(t) {
            assert(s[s.len() - 1] != t);
            if s.drop_last().contains(t) {
                let i = choose|i: int| 0 <= i < s.drop_last().len() && s.drop_last()[i] == t;
                assert(s[i] == t);
            }
        }
    }
}

proof fn lemma_occurrences_bound(s: Seq<Seq<char>>, t: Seq<char>)
    ensures
        occurrences(s, t) <= s.len(),
    decreases s.len(),
{
    if s.len() > 0 {
        lemma_occurrences_bound(s.drop_last(), t);
    }
}

proof fn lemma_order_length(keys: Seq<KeyView>, m: Map<KeyView, ResolvedView>, sub: Seq<char>)
    ensures
        noyaux_of_sub(keys, m, sub).len() <= keys.len(),
    decreases keys.len(),
{
    if keys.len() > 0 {
        lemma_order_length(keys.drop_last(), m, sub);
    }
}

// ---------------------------------------------------------------------------
// Builder
// ---------------------------------------------------------------------------

/// Collects bindings by hand; a map built from them carries no seals.
pub struct HabilitationMapBuilder {
    pub entries: Vec<(ClaimKey, Resolved)>,
}

impl View for HabilitationMapBuilder {
    type V = Seq<(KeyView, ResolvedView)>;

    open spec fn view(&self) -> Seq<(KeyView, ResolvedView)> {
        Seq::new(self.entries@.len(), |i: int| (self.entries@[i].0@, self.entries@[i].1@))
    }
}

/// The map that a list of bindings makes up: the later of two bindings under
/// one triple stays.
pub open spec fn built(s: Seq<(KeyView, ResolvedView)>) -> Map<KeyView, ResolvedView>
    decreases s.len(),
{
    if s.len() == 0 {
        Map::empty()
    } else {
        built(s.drop_last()).insert(s.last().0, s.last().1)
    }
}

impl HabilitationMapBuilder {
    /// Adds a binding without scopes.
    pub fn insert(self, iss: &str, sub: &str, nucleon_id: HabilitationId, noyau: Noyau, audience: &str) -> (r: Self)
        ensures
            r@ == self@.push(
                (
                    key(iss@, sub@, audience@),
                    ResolvedView {
                        nucleon_id: nucleon_id.0@,
                        noyau: noyau.0@,
                        audience: audience@,
                        allowed_scopes: Seq::empty(),
                        drain_bounds: default_bounds(),
                    },
                ),
            ),
    {
        let none: Vec<String> = Vec::new();
        assert(text::views(none@) =~= Seq::<Seq<char>>::empty());
        self.insert_with_scopes(iss, sub, nucleon_id, noyau, audience, none)
    }

    /// Adds a binding that grants scopes.
    pub fn insert_with_scopes(
        self,
        iss: &str,
        sub: &str,
        nucleon_id: HabilitationId,
        noyau: Noyau,
        audience: &str,
        allowed_scopes: Vec<String>,
    ) -> (r: Self)
        ensures
            r@ == self@.push(
                (
                    key(iss@, sub@, audience@),
                    ResolvedView {
                        nucleon_id: nucleon_id.0@,
                        noyau: noyau.0@,
                        audience: audience@,
                        allowed_scopes: text::views(allowed_scopes@),
                        drain_bounds: default_bounds(),
                    },
                ),
            ),
    {
        let ghost before = self@;
        let mut entries = self.entries;
        let k = ClaimKey { iss: iss.to_owned(), sub: sub.to_owned(), aud: audience.to_owned() };
        let resolved = Resolved {
            nucleon_id,
            noyau,
            audience: audience.to_owned(),
            allowed_scopes,
            drain_bounds: DrainBounds::default(),
        };
        let ghost pair = (k@, resolved@);
        entries.push((k, resolved));
        let r = HabilitationMapBuilder { entries };
        assert(r@ =~= before.push(pair));
        r
    }

    /// The map of the collected bindings.
    pub fn build(self) -> (r: HabilitationMap)
        ensures
            r.wf(),
            r.bindings() == built(self@),
            r.recorded() == Map::<KeyView, Seq<char>>::empty(),
            r.live() == Map::<KeyView, Seq<char>>::empty(),
    {
        let mut map = HabilitationMap::default();
        let mut i: usize = 0;
        assert(self@.take(0) =~= Seq::<(KeyView, ResolvedView)>::empty());
        while i < self.entries.len()
            invariant
                i <= self.entries@.len(),
                map.wf(),
                map.bindings() == built(self@.take(i as int)),
                map.recorded() == Map::<KeyView, Seq<char>>::empty(),
                map.live() == Map::<KeyView, Seq<char>>::empty(),
            decreases self.entries@.len() - i,
        {
            let ghost m = map.bindings();
            let e = &self.entries[i];
            proof {
                assert(self@.take(i + 1).drop_last() =~= self@.take(i as int));
                assert(self@.take(i + 1).last() == self@[i as int]);
            }
            map.by_key.insert(copy_key(&e.0), e.1.clone());
            assert(map.bindings() =~= m.insert(e.0@, e.1@));
            i += 1;
        }
        assert(self@.take(i as int) =~= self@);
        map
    }
}

// ---------------------------------------------------------------------------
// Rendering a binding
// ---------------------------------------------------------------------------

/// What an operator asks to bind.
#[derive(Clone, Debug)]
pub struct HabilitationBindingSpec {
    pub noyau: String,
    pub sub: String,
    pub issuer: String,
    pub audience: String,
    pub nucleon_id: Option<String>,
    pub phase: Option<String>,
    pub scopes: Vec<String>,
    pub sealed_at: Option<String>,
}

/// Why a binding is not rendered.
#[derive(Clone, Debug, PartialEq, Eq)]
pub enum RenderError {
    EmptyField(&'static str),
    NotAbsoluteUrl { field: &'static str, value: String },
    MalformedScope(String),
    Serialize(String),
}

/// A refusal to render, as a mathematical value.
pub enum RenderErrorView {
    EmptyField(Seq<char>),
    NotAbsoluteUrl { field: Seq<char>, value: Seq<char> },
    MalformedScope(Seq<char>),
    Serialize(Seq<char>),
}

impl View for RenderError {
    type V = RenderErrorView;

    open spec fn view(&self) -> RenderErrorView {
        match self {
            RenderError::EmptyField(name) => RenderErrorView::EmptyField(name@),
            RenderError::NotAbsoluteUrl { field, value } => RenderErrorView::NotAbsoluteUrl {
                field: field@,
                value: value@,
            },
            RenderError::MalformedScope(s) => RenderErrorView::MalformedScope(s@),
            RenderError::Serialize(e) => RenderErrorView::Serialize(e@),
        }
    }
}

/// The sentence an operator reads for an error.
pub open spec fn error_sentence(e: RenderErrorView) -> Seq<char> {
    match e {
        RenderErrorView::EmptyField(name) => "field `"@ + name + "` must not be empty"@,
        RenderErrorView::NotAbsoluteUrl { field, value } => "field `"@ + field
            + "` must be an absolute http(s):// URL, got `"@ + value + "`"@,
        RenderErrorView::MalformedScope(s) => "scope `"@ + s + "` is empty or contains whitespace"@,
        RenderErrorView::Serialize(e) => "toml serialization failed: "@ + e,
    }
}

impl RenderError {
    /// The sentence an operator reads.
    pub fn message(&self) -> (r: String)
        ensures
            r@ == error_sentence(self@),
    {
        match self {
            RenderError::EmptyField(name) => concat3("field `", name, "` must not be empty"),
            RenderError::NotAbsoluteUrl { field, value } => {
                let head = concat3("field `", field, "` must be an absolute http(s):// URL, got `");
                concat3(head.as_str(), value.as_str(), "`")
            },
            RenderError::MalformedScope(s) => concat3("scope `", s.as_str(), "` is empty or contains whitespace"),
            RenderError::Serialize(e) => text::concat("toml serialization failed: ", e.as_str()),
        }
    }
}

/// A field that must say something: its text without the space around it.
pub open spec fn required_text(name: Seq<char>, value: Seq<char>) -> Result<Seq<char>, RenderErrorView> {
    if text::blank(value) {
        Err(RenderErrorView::EmptyField(name))
    } else {
        Ok(text::trimmed(value))
    }
}

pub open spec fn absolute_url(v: Seq<char>) -> bool {
    text::starts_with(v, "http://"@) || text::starts_with(v, "https://"@)
}

/// A field that must hold an absolute URL.
pub open spec fn required_url(name: Seq<char>, value: Seq<char>) -> Result<Seq<char>, RenderErrorView> {
    match required_text(name, value) {
        Err(e) => Err(e),
        Ok(v) => if absolute_url(v) {
            Ok(v)
        } else {
            Err(RenderErrorView::NotAbsoluteUrl { field: name, value: v })
        },
    }
}

pub open spec fn result_view(r: Result<String, RenderError>) -> Result<Seq<char>, RenderErrorView> {
    match r {
        Ok(v) => Ok(v@),
        Err(e) => Err(e@),
    }
}

/// The value without the white space around it; an error where nothing is left.
pub fn require_non_empty(name: &'static str, value: &str) -> (r: Result<String, RenderError>)
    ensures
        result_view(r) == required_text(name@, value@),
{
    let trimmed = trim(value);
    if trimmed.as_str().is_empty() {
        return Err(RenderError::EmptyField(name));
    }
    Ok(trimmed)
}

/// The value as an absolute URL of http or https; an error where it is none.
pub fn require_absolute_url(field: &'static str, value: &str) -> (r: Result<String, RenderError>)
    ensures
        result_view(r) == required_url(field@, value@),
{
    match require_non_empty(field, value) {
        Err(e) => Err(e),
        Ok(v) => {
            if has_prefix(v.as_str(), "http://") || has_prefix(v.as_str(), "https://") {
                Ok(v)
            } else {
                Err(RenderError::NotAbsoluteUrl { field, value: v })
            }
        },
    }
}

pub open spec fn malformed_scope(s: Seq<char>) -> bool {
    s.len() == 0 || exists|i: int| 0 <= i < s.len() && text::is_white_space(#[trigger] s[i])
}

fn is_malformed_scope(s: &str) -> (r: bool)
    ensures
        r == malformed_scope(s@),
{
    let cs = chars_of(s);
    let mut i: usize = 0;
    while i < cs.len()
        invariant
            i <= cs@.len(),
            cs@ == s@,
            forall|k: int| 0 <= k < i ==> !text::is_white_space(#[trigger] s@[k]),
        decreases cs@.len() - i,
    {
        if cs[i].is_whitespace() {
            assert(text::is_white_space(s@[i as int]));
            return true;
        }
        i += 1;
    }
    cs.len() == 0
}

/// The first malformed scope of a list.
pub open spec fn first_malformed(scopes: Seq<Seq<char>>) -> Option<Seq<char>>
    decreases scopes.len(),
{
    if scopes.len() == 0 {
        None
    } else if malformed_scope(scopes[0]) {
        Some(scopes[0])
    } else {
        first_malformed(scopes.skip(1))
    }
}

/// A binding file as a mathematical value.
pub struct OidcIdentityView {
    pub nucleon_id: Seq<char>,
    pub phase: Seq<char>,
    pub noyau: Seq<char>,
    pub issuer: Seq<char>,
    pub sub: Seq<char>,
    pub audience: Seq<char>,
    pub sealed_at: Seq<char>,
    pub scopes: Option<Seq<Seq<char>>>,
    pub drain_bounds: Option<DrainBoundsSpec>,
}

impl View for OidcIdentity {
    type V = OidcIdentityView;

    open spec fn view(&self) -> OidcIdentityView {
        OidcIdentityView {
            nucleon_id: self.nucleon_id@,
            phase: self.phase@,
            noyau: self.noyau@,
            issuer: self.oidc.issuer@,
            sub: self.oidc.sub@,
            audience: self.oidc.audience@,
            sealed_at: self.oidc.sealed_at@,
            scopes: match self.scopes {
                Some(g) => Some(text::views(g.allowed@)),
                None => None,
            },
            drain_bounds: self.drain_bounds,
        }
    }
}

/// A request for a binding, as a mathematical value.
pub struct BindingSpecView {
    pub noyau: Seq<char>,
    pub sub: Seq<char>,
    pub issuer: Seq<char>,
    pub audience: Seq<char>,
    pub nucleon_id: Option<Seq<char>>,
    pub phase: Option<Seq<char>>,
    pub scopes: Seq<Seq<char>>,
    pub sealed_at: Option<Seq<char>>,
}

pub open spec fn optional(s: Option<String>) -> Option<Seq<char>> {
    match s {
        Some(v) => Some(v@),
        None => None,
    }
}

impl View for HabilitationBindingSpec {
    type V = BindingSpecView;

    open spec fn view(&self) -> BindingSpecView {
        BindingSpecView {
            noyau: self.noyau@,
            sub: self.sub@,
            issuer: self.issuer@,
            audience: self.audience@,
            nucleon_id: optional(self.nucleon_id),
            phase: optional(self.phase),
            scopes: text::views(self.scopes@),
            sealed_at: optional(self.sealed_at),
        }
    }
}

/// A field that may be left out, with what stands in for it.
pub open spec fn optional_text(name: Seq<char>, value: Option<Seq<char>>, otherwise: Seq<char>) -> Result<
    Seq<char>,
    RenderErrorView,
> {
    match value {
        Some(v) => required_text(name, v),
        None => Ok(otherwise),
    }
}

/// The binding that a request renders to. The fields are checked in the order
/// noyau, sub, issuer, audience, nucleon id, phase, scopes; the first fault is
/// the one reported.
pub open spec fn rendered_binding(s: BindingSpecView) -> Result<OidcIdentityView, RenderErrorView> {
    match required_text("noyau"@, s.noyau) {
        Err(e) => Err(e),
        Ok(noyau) => match required_text("sub"@, s.sub) {
            Err(e) => Err(e),
            Ok(sub) => match required_url("issuer"@, s.issuer) {
                Err(e) => Err(e),
                Ok(issuer) => match required_text("audience"@, s.audience) {
                    Err(e) => Err(e),
                    Ok(audience) => match optional_text("nucleon_id"@, s.nucleon_id, noyau) {
                        Err(e) => Err(e),
                        Ok(nucleon_id) => match optional_text("phase"@, s.phase, "Biological"@) {
                            Err(e) => Err(e),
                            Ok(phase) => match first_malformed(s.scopes) {
                                Some(bad) => Err(RenderErrorView::MalformedScope(bad)),
                                None => Ok(
                                    OidcIdentityView {
                                        nucleon_id,
                                        phase,
                                        noyau,
                                        issuer,
                                        sub,
                                        audience,
                                        sealed_at: match s.sealed_at {
                                            Some(at) => at,
                                            None => Seq::empty(),
                                        },
                                        scopes: if s.scopes.len() == 0 {
                                            None
                                        } else {
                                            Some(s.scopes)
                                        },
                                        drain_bounds: None,
                                    },
                                ),
                            },
                        },
                    },
                },
            },
        },
    }
}

pub const DEFAULT_BINDING_PHASE: &'static str = "Biological";

fn checked_scopes(scopes: &Vec<String>) -> (r: Result<Vec<String>, RenderError>)
    ensures
        match r {
            Ok(v) => v@ == scopes@ && first_malformed(text::views(scopes@)) is None,
            Err(e) => first_malformed(text::views(scopes@)) matches Some(bad)
                && e@ == RenderErrorView::MalformedScope(bad),
        },
{
    let ghost all = text::views(scopes@);
    let mut i: usize = 0;
    assert(all.skip(0) =~= all);
    while i < scopes.len()
        invariant
            i <= scopes@.len(),
            all == text::views(scopes@),
            first_malformed(all) == first_malformed(all.skip(i as int)),
        decreases scopes@.len() - i,
    {
        assert(all.skip(i as int)[0] == scopes@[i as int]@);
        assert(all.skip(i as int).skip(1) =~= all.skip(i + 1));
        if is_malformed_scope(scopes[i].as_str()) {
            return Err(RenderError::MalformedScope(scopes[i].clone()));
        }
        i += 1;
    }
    Ok(copy_list(scopes))
}

/// Validates a request and renders it to the binding it asks for.
pub fn build_binding(spec: &HabilitationBindingSpec) -> (r: Result<OidcIdentity, RenderError>)
    ensures
        match r {
            Ok(id) => rendered_binding(spec@) == Ok::<OidcIdentityView, RenderErrorView>(id@),
            Err(e) => rendered_binding(spec@) == Err::<OidcIdentityView, RenderErrorView>(e@),
        },
{
    let noyau = match require_non_empty("noyau", spec.noyau.as_str()) {
        Ok(v) => v,
        Err(e) => return Err(e),
    };
    let sub = match require_non_empty("sub", spec.sub.as_str()) {
        Ok(v) => v,
        Err(e) => return Err(e),
    };
    let issuer = match require_absolute_url("issuer", spec.issuer.as_str()) {
        Ok(v) => v,
        Err(e) => return Err(e),
    };
    let audience = match require_non_empty("audience", spec.audience.as_str()) {
        Ok(v) => v,
        Err(e) => return Err(e),
    };
    let nucleon_id = match &spec.nucleon_id {
        Some(id) => match require_non_empty("nucleon_id", id.as_str()) {
            Ok(v) => v,
            Err(e) => return Err(e),
        },
        None => noyau.clone(),
    };
    let phase = match &spec.phase {
        Some(p) => match require_non_empty("phase", p.as_str()) {
            Ok(v) => v,
            Err(e) => return Err(e),
        },
        None => DEFAULT_BINDING_PHASE.to_owned(),
    };
    let allowed = match checked_scopes(&spec.scopes) {
        Ok(v) => v,
        Err(e) => return Err(e),
    };
    let scopes = if allowed.len() == 0 {
        None
    } else {
        Some(ScopesGrant { allowed })
    };
    let sealed_at = match &spec.sealed_at {
        Some(at) => at.clone(),
        None => String::new(),
    };
    Ok(
        OidcIdentity {
            drain_bounds: None,
            nucleon_id,
            phase,
            noyau,
            oidc: OidcClaims { issuer, sub, audience, sealed_at },
            scopes,
        },
    )
}

/// The comment that heads a rendered identity file.
pub open spec fn document_header() -> Seq<char> {
    "# Nucleon binding — (iss, sub) → noyau. Rendered by the audited\n# cosmon-rpp-adapter `nucleon render` path (Pierre hardening P2,\n# task-20260605-e26a). issuer + audience must match the IdP and the\n# JWT byte-for-byte (wiring contract A). Cross-noyau pivot stays\n# structurally impossible (ADR-080 §8j clauses (a)+(e)).\n"@
}

/// The text of an identity file, given the TOML that its binding serialises to.
pub fn oidc_identity_document(body: &str) -> (r: String)
    ensures
        r@ == document_header() + body@,
{
    text::concat(
        "# Nucleon binding — (iss, sub) → noyau. Rendered by the audited\n# cosmon-rpp-adapter `nucleon render` path (Pierre hardening P2,\n# task-20260605-e26a). issuer + audience must match the IdP and the\n# JWT byte-for-byte (wiring contract A). Cross-noyau pivot stays\n# structurally impossible (ADR-080 §8j clauses (a)+(e)).\n",
        body,
    )
}

// ---------------------------------------------------------------------------
// Laws
// ---------------------------------------------------------------------------

/// A loaded map binds every triple for its own audience: no binding of one
/// audience is ever found under another.
pub proof fn law_loaded_bindings_pin_their_audience(files: Seq<IdentityFile>, k: KeyView)
    requires
        loaded_bindings(files).contains_key(k),
    ensures
        loaded_bindings(files)[k].audience == k.aud,
    decreases files.len(),
{
    if files.len() > 0 {
        let before = loaded_bindings(files.drop_last());
        let f = files.last();
        if !(carries_binding(f) && identity_key(f.parsed->0) == k) {
            assert(before.contains_key(k));
            law_loaded_bindings_pin_their_audience(files.drop_last(), k);
        }
    }
}

/// Loading seals exactly the triples that it binds.
pub proof fn law_loaded_triples_are_sealed(files: Seq<IdentityFile>)
    ensures
        loaded_bindings(files).dom() == loaded_seals(files).dom(),
    decreases files.len(),
{
    if files.len() > 0 {
        law_loaded_triples_are_sealed(files.drop_last());
        assert(loaded_bindings(files).dom() =~= loaded_seals(files).dom());
    } else {
        assert(loaded_bindings(files).dom() =~= loaded_seals(files).dom());
    }
}

/// A map that was just loaded is intact, for every principal and every triple.
pub proof fn law_fresh_seals_are_intact(
    files: Seq<IdentityFile>,
    iss: Seq<char>,
    sub: Seq<char>,
    aud: Seq<char>,
)
    ensures
        principal_sealed(loaded_seals(files), loaded_seals(files), iss, sub),
        triple_sealed(loaded_seals(files), loaded_seals(files), key(iss, sub, aud)),
{
}

/// A map built by hand carries no seals and is intact.
pub proof fn law_built_map_is_intact(iss: Seq<char>, sub: Seq<char>, aud: Seq<char>)
    ensures
        principal_sealed(Map::empty(), Map::empty(), iss, sub),
        triple_sealed(Map::empty(), Map::empty(), key(iss, sub, aud)),
{
}

/// After the directories are read again, a bound triple is intact exactly where
/// the first file that carries it still hashes to the recorded seal.
pub proof fn law_refresh_detects_edits(
    recorded: Map<KeyView, Seq<char>>,
    live: Map<KeyView, Seq<char>>,
    bindings: Map<KeyView, ResolvedView>,
    dirs: Seq<NucleonDir>,
    k: KeyView,
)
    requires
        bindings.contains_key(k),
        recorded.contains_key(k),
    ensures
        triple_sealed(recorded, refreshed(live, bindings, dirs), k) <==> seal_on_disk(
            files_of(dirs, bindings[k].nucleon_id),
            k,
        ) == Some(recorded[k]),
{
}

/// One triple that lost its seal breaks the seal of its whole principal.
pub proof fn law_one_broken_triple_breaks_the_principal(
    recorded: Map<KeyView, Seq<char>>,
    live: Map<KeyView, Seq<char>>,
    iss: Seq<char>,
    sub: Seq<char>,
    aud: Seq<char>,
)
    requires
        recorded.contains_key(key(iss, sub, aud)),
        !triple_sealed(recorded, live, key(iss, sub, aud)),
    ensures
        !principal_sealed(recorded, live, iss, sub),
{
}

/// The scopes of a triple are those of its own binding; a triple that is not
/// bound is granted none.
pub proof fn law_unbound_triple_has_no_scopes(
    m: Map<KeyView, ResolvedView>,
    iss: Seq<char>,
    sub: Seq<char>,
    aud: Seq<char>,
)
    ensures
        !m.contains_key(key(iss, sub, aud)) ==> scopes_of(triple_binding(m, iss, sub, aud)).len() == 0,
        m.contains_key(key(iss, sub, aud)) ==> scopes_of(triple_binding(m, iss, sub, aud)) == m[key(
            iss,
            sub,
            aud,
        )].allowed_scopes,
{
}

/// Where a principal is bound for one audience only, looking it up without the
/// audience finds that binding.
pub proof fn law_single_audience_principal(
    m: Map<KeyView, ResolvedView>,
    iss: Seq<char>,
    sub: Seq<char>,
    aud: Seq<char>,
)
    requires
        m.contains_key(key(iss, sub, aud)),
        forall|other: Seq<char>| #[trigger] m.contains_key(key(iss, sub, other)) ==> other == aud,
    ensures
        principal_binding(m, iss, sub) == triple_binding(m, iss, sub, aud),
{
    assert(first_audience(m, iss, sub, aud));
}

/// The order is a matter of the bindings alone: two maps that bind the same triples
/// list them alike, in whatever order they were bound.
pub proof fn law_order_is_determined(a: HabilitationMap, b: HabilitationMap)
    requires
        a.wf(),
        b.wf(),
        a.bindings().dom() == b.bindings().dom(),
    ensures
        a.order() == b.order(),
{
    a.law_order_lists_every_binding_once();
    b.law_order_lists_every_binding_once();
    assert forall|k: KeyView| a.order().contains(k) <==> b.order().contains(k) by {
        assert(a.bindings().contains_key(k) <==> a.order().contains(k));
        assert(b.bindings().contains_key(k) <==> b.order().contains(k));
        assert(a.bindings().dom().contains(k) <==> b.bindings().dom().contains(k));
    }
    keyed::lemma_sorted_keys_unique(a.order(), b.order());
}

/// The list of distinct noyaux holds every noyau of the bindings, each once.
pub proof fn law_noyaux_are_distinct_and_complete(all: Seq<Seq<char>>)
    ensures
        forall|t: Seq<char>| distinct(all).contains(t) <==> all.contains(t),
        forall|i: int, j: int|
            0 <= i < j < distinct(all).len() ==> #[trigger] distinct(all)[i] != #[trigger] distinct(all)[j],
{
    assert forall|t: Seq<char>| distinct(all).contains(t) <==> all.contains(t) by {
        lemma_distinct_contains(all, t);
    }
    assert forall|i: int, j: int| 0 <= i < j < distinct(all).len() implies #[trigger] distinct(all)[i]
        != #[trigger] distinct(all)[j] by {
        lemma_distinct_unique(all, i, j);
    }
}

/// The request that a rendered binding amounts to.
pub open spec fn as_request(b: OidcIdentityView) -> BindingSpecView {
    BindingSpecView {
        noyau: b.noyau,
        sub: b.sub,
        issuer: b.issuer,
        audience: b.audience,
        nucleon_id: Some(b.nucleon_id),
        phase: Some(b.phase),
        scopes: match b.scopes {
            Some(s) => s,
            None => Seq::empty(),
        },
        sealed_at: Some(b.sealed_at),
    }
}

/// Rendering what was rendered changes nothing: every field of a rendered
/// binding already passes the checks as it stands.
pub proof fn law_rendering_is_stable(s: BindingSpecView)
    requires
        rendered_binding(s) is Ok,
    ensures
        rendered_binding(as_request(rendered_binding(s)->Ok_0)) == rendered_binding(s),
{
    text::lemma_trimmed_idempotent(s.noyau);
    text::lemma_trimmed_idempotent(s.sub);
    text::lemma_trimmed_idempotent(s.issuer);
    text::lemma_trimmed_idempotent(s.audience);
    if let Some(id) = s.nucleon_id {
        text::lemma_trimmed_idempotent(id);
    }
    if let Some(p) = s.phase {
        text::lemma_trimmed_idempotent(p);
    }
    reveal_strlit("Biological");
    assert(text::trim_start("Biological"@) == "Biological"@);
    assert(text::trimmed("Biological"@) == "Biological"@);
    assert(first_malformed(Seq::<Seq<char>>::empty()) is None);
}

/// A rendered binding pins an absolute issuer and leaves no identifying field
/// empty.
pub proof fn law_rendered_binding_is_pinned(s: BindingSpecView)
    requires
        rendered_binding(s) is Ok,
    ensures
        absolute_url(rendered_binding(s)->Ok_0.issuer),
        rendered_binding(s)->Ok_0.issuer == text::trimmed(s.issuer),
        rendered_binding(s)->Ok_0.noyau.len() > 0,
        rendered_binding(s)->Ok_0.sub.len() > 0,
        rendered_binding(s)->Ok_0.audience.len() > 0,
        rendered_binding(s)->Ok_0.nucleon_id.len() > 0,
{
}

/// A bound that is set is in effect, each on its own; 128 steps, 8 levels and 256
/// molecules go for those that are not.
pub proof fn law_bounds(s: DrainBoundsSpec)
    ensures
        bounds_in_effect(None) == (DrainBounds { budget: 128, max_depth: 8, max_molecules: 256 }),
        default_bounds() == (DrainBounds { budget: 128, max_depth: 8, max_molecules: 256 }),
        s.budget is Some ==> bounds_in_effect(Some(s)).budget == s.budget->0,
        s.budget is None ==> bounds_in_effect(Some(s)).budget == 128,
        s.max_depth is Some ==> bounds_in_effect(Some(s)).max_depth == s.max_depth->0,
        s.max_depth is None ==> bounds_in_effect(Some(s)).max_depth == 8,
        s.max_molecules is Some ==> bounds_in_effect(Some(s)).max_molecules == s.max_molecules->0,
        s.max_molecules is None ==> bounds_in_effect(Some(s)).max_molecules == 256,
{
}

/// A file carries a binding where it is named for one, was read and is well formed.
pub proof fn law_files_that_bind(f: IdentityFile)
    ensures
        carries_binding(f) <==> identity_name(f.name@) && f.text is Some && f.parsed is Some,
        identity_name(f.name@) <==> text::starts_with(f.name@, "oidc-identity"@) && paths::names_toml(f.name@),
{
}

/// What a file binds: the triple of its claims, to its noyau, with the scopes and the
/// bounds it states.
pub proof fn law_what_a_file_binds(id: OidcIdentity)
    ensures
        identity_key(id).iss == id.oidc.issuer@,
        identity_key(id).sub == id.oidc.sub@,
        identity_key(id).aud == id.oidc.audience@,
        identity_binding(id).nucleon_id == id.nucleon_id@,
        identity_binding(id).noyau == id.noyau@,
        identity_binding(id).audience == id.oidc.audience@,
        id.scopes is Some ==> identity_binding(id).allowed_scopes == text::views((id.scopes->0).allowed@),
        id.scopes is None ==> identity_binding(id).allowed_scopes.len() == 0,
        identity_binding(id).drain_bounds == bounds_in_effect(id.drain_bounds),
{
}

/// The seal of a file is the hash of its text.
pub proof fn law_seals_are_hashes(t: Seq<char>)
    ensures
        seal_of(t) == digest::blake3_hex_of(digest::utf8(t)),
{
}

/// A summary tells a binding as it stands, under its own triple.
pub proof fn law_summaries(s: BindingSummary, k: KeyView, b: ResolvedView)
    ensures
        summarises(s, k, b) <==> s.issuer@ == k.iss && s.sub@ == k.sub && s.habilitation_id@ == b.nucleon_id && s.noyau@
            == b.noyau && s.audience@ == b.audience && text::views(s.allowed_scopes@) == b.allowed_scopes,
{
}

/// A caller is found by issuer, subject and audience together; without the audience,
/// by the first of those it is bound for, in the order of texts; and one that is bound
/// for none is not found.
pub proof fn law_callers_are_found(m: Map<KeyView, ResolvedView>, iss: Seq<char>, sub: Seq<char>, aud: Seq<char>)
    ensures
        key(iss, sub, aud) == (KeyView { iss, sub, aud }),
        m.contains_key(KeyView { iss, sub, aud }) ==> triple_binding(m, iss, sub, aud) == Some(m[KeyView { iss, sub, aud }]),
        !m.contains_key(KeyView { iss, sub, aud }) ==> triple_binding(m, iss, sub, aud) is None,
        m.contains_key(key(iss, sub, aud)) && (forall|other: Seq<char>| #[trigger]
            m.contains_key(key(iss, sub, other)) ==> aud == other || order::text_lt(aud, other)) ==> principal_binding(
            m,
            iss,
            sub,
        ) == Some(m[KeyView { iss, sub, aud }]),
        (forall|other: Seq<char>| !(#[trigger] m.contains_key(key(iss, sub, other)))) ==> principal_binding(m, iss, sub) is None,
{
    if m.contains_key(key(iss, sub, aud)) && (forall|other: Seq<char>| #[trigger]
        m.contains_key(key(iss, sub, other)) ==> aud == other || order::text_lt(aud, other)) {
        assert(first_audience(m, iss, sub, aud));
        let first = choose|a: Seq<char>| first_audience(m, iss, sub, a);
        assert(first_audience(m, iss, sub, first));
        assert(order::text_le(aud, first) && order::text_le(first, aud));
        if aud != first {
            order::lemma_text_transitive(aud, first, aud);
            order::lemma_text_irreflexive(aud);
        }
    }
}

/// A binding carries its scopes, and where there is none there are no scopes.
pub proof fn law_scopes_of_bindings(b: ResolvedView)
    ensures
        scopes_of(Some(b)) == b.allowed_scopes,
        scopes_of(None).len() == 0,
{
}

/// A triple is intact where the seal on disk is the one that was taken, and where
/// neither is there; a principal is intact where every triple with a seal is, and,
/// without any, where none has come up since.
pub proof fn law_seals_are_compared(
    recorded: Map<KeyView, Seq<char>>,
    live: Map<KeyView, Seq<char>>,
    iss: Seq<char>,
    sub: Seq<char>,
    k: KeyView,
)
    ensures
        recorded.contains_key(k) && live.contains_key(k) ==> triple_sealed(recorded, live, k) == (live[k] == recorded[k]),
        recorded.contains_key(k) && !live.contains_key(k) ==> !triple_sealed(recorded, live, k),
        !recorded.contains_key(k) && live.contains_key(k) ==> !triple_sealed(recorded, live, k),
        !recorded.contains_key(k) && !live.contains_key(k) ==> triple_sealed(recorded, live, k),
        (exists|aud: Seq<char>| #[trigger] recorded.contains_key(key(iss, sub, aud))) ==> (principal_sealed(
            recorded,
            live,
            iss,
            sub,
        ) <==> forall|aud: Seq<char>| #[trigger]
            recorded.contains_key(key(iss, sub, aud)) ==> live.contains_key(key(iss, sub, aud)) && live[key(iss, sub, aud)]
                == recorded[key(iss, sub, aud)]),
        (forall|aud: Seq<char>| !(#[trigger] recorded.contains_key(key(iss, sub, aud)))) ==> (principal_sealed(
            recorded,
            live,
            iss,
            sub,
        ) <==> forall|aud: Seq<char>| !(#[trigger] live.contains_key(key(iss, sub, aud)))),
{
}

/// Distinct texts stand where they first stood, and each time a text occurs counts.
pub proof fn law_distinct_texts(s: Seq<Seq<char>>, t: Seq<char>, u: Seq<char>)
    ensures
        distinct(Seq::empty()).len() == 0,
        s.contains(t) ==> distinct(s.push(t)) == distinct(s),
        !s.contains(t) ==> distinct(s.push(t)) == distinct(s).push(t),
        occurrences(Seq::empty(), t) == 0,
        occurrences(s.push(t), t) == occurrences(s, t) + 1,
        u != t ==> occurrences(s.push(u), t) == occurrences(s, t),
{
    assert(s.push(t).drop_last() =~= s);
    assert(s.push(u).drop_last() =~= s);
    law_noyaux_are_distinct_and_complete(s);
    assert(distinct(s).contains(t) <==> s.contains(t));
}

/// The noyaux of a list of triples are those that they are bound to, in order; those
/// of a subject are those of its own triples.
pub proof fn law_noyaux_of_triples(keys: Seq<KeyView>, k: KeyView, m: Map<KeyView, ResolvedView>, sub: Seq<char>, i: int)
    ensures
        noyaux_in_order(keys, m).len() == keys.len(),
        0 <= i < keys.len() ==> noyaux_in_order(keys, m)[i] == m[keys[i]].noyau,
        noyaux_of_sub(Seq::empty(), m, sub).len() == 0,
        k.sub == sub ==> noyaux_of_sub(keys.push(k), m, sub) == noyaux_of_sub(keys, m, sub).push(m[k].noyau),
        k.sub != sub ==> noyaux_of_sub(keys.push(k), m, sub) == noyaux_of_sub(keys, m, sub),
{
    assert(keys.push(k).drop_last() =~= keys);
}

/// Files are loaded one after the other: one that carries a binding puts it and its
/// seal under the triple of its claims, over what stood there, and any other changes
/// nothing.
pub proof fn law_files_are_loaded_in_turn(files: Seq<IdentityFile>, f: IdentityFile)
    ensures
        loaded_bindings(Seq::empty()) == Map::<KeyView, ResolvedView>::empty(),
        loaded_seals(Seq::empty()) == Map::<KeyView, Seq<char>>::empty(),
        carries_binding(f) ==> loaded_bindings(files.push(f)) == loaded_bindings(files).insert(
            identity_key(f.parsed->0),
            identity_binding(f.parsed->0),
        ),
        carries_binding(f) ==> loaded_seals(files.push(f)) == loaded_seals(files).insert(
            identity_key(f.parsed->0),
            digest::blake3_hex_of(digest::utf8((f.text->0)@)),
        ),
        !carries_binding(f) ==> loaded_bindings(files.push(f)) == loaded_bindings(files) && loaded_seals(files.push(f))
            == loaded_seals(files),
{
    assert(files.push(f).drop_last() =~= files);
}

/// The seal on disk is that of the first file that carries the triple, in the first
/// directory of the habilitation's name.
pub proof fn law_seals_on_disk(f: IdentityFile, files: Seq<IdentityFile>, k: KeyView, d: NucleonDir, dirs: Seq<NucleonDir>, id: Seq<char>)
    ensures
        seal_on_disk(Seq::empty(), k) is None,
        carries_binding(f) && identity_key(f.parsed->0) == k ==> seal_on_disk(seq![f] + files, k) == Some(
            digest::blake3_hex_of(digest::utf8((f.text->0)@)),
        ),
        !carries_binding(f) || identity_key(f.parsed->0) != k ==> seal_on_disk(seq![f] + files, k) == seal_on_disk(files, k),
        files_of(Seq::empty(), id).len() == 0,
        d.id@ == id ==> files_of(seq![d] + dirs, id) == d.files@,
        d.id@ != id ==> files_of(seq![d] + dirs, id) == files_of(dirs, id),
{
    assert((seq![f] + files).skip(1) =~= files);
    assert((seq![f] + files)[0] == f);
    assert((seq![d] + dirs).skip(1) =~= dirs);
    assert((seq![d] + dirs)[0] == d);
}

/// A refresh takes the seal of every bound triple from the directory of its
/// habilitation, and none where it is not there; the others stay.
pub proof fn law_refreshed_seals(
    live: Map<KeyView, Seq<char>>,
    bindings: Map<KeyView, ResolvedView>,
    dirs: Seq<NucleonDir>,
    k: KeyView,
)
    ensures
        bindings.contains_key(k) ==> (match seal_on_disk(files_of(dirs, bindings[k].nucleon_id), k) {
            Some(seal) => refreshed(live, bindings, dirs).contains_key(k) && refreshed(live, bindings, dirs)[k] == seal,
            None => !refreshed(live, bindings, dirs).contains_key(k),
        }),
        !bindings.contains_key(k) ==> refreshed(live, bindings, dirs).contains_key(k) == live.contains_key(k) && (
        live.contains_key(k) ==> refreshed(live, bindings, dirs)[k] == live[k]),
{
}

/// Of two bindings under one triple the later one stays.
pub proof fn law_built_maps(s: Seq<(KeyView, ResolvedView)>, k: KeyView, b: ResolvedView)
    ensures
        built(Seq::empty()) == Map::<KeyView, ResolvedView>::empty(),
        built(s.push((k, b))) == built(s).insert(k, b),
{
    assert(s.push((k, b)).drop_last() =~= s);
}

/// What an operator reads for each fault.
pub proof fn law_sentences(a: Seq<char>, b: Seq<char>)
    ensures
        error_sentence(RenderErrorView::EmptyField(a)) == "field `"@ + a + "` must not be empty"@,
        error_sentence(RenderErrorView::NotAbsoluteUrl { field: a, value: b }) == "field `"@ + a
            + "` must be an absolute http(s):// URL, got `"@ + b + "`"@,
        error_sentence(RenderErrorView::MalformedScope(a)) == "scope `"@ + a + "` is empty or contains whitespace"@,
        error_sentence(RenderErrorView::Serialize(a)) == "toml serialization failed: "@ + a,
{
}

/// A field must say something, and is taken without the space around it; a URL must
/// begin with its scheme; a scope must be one word.
pub proof fn law_fields_are_checked(name: Seq<char>, value: Seq<char>, rest: Seq<char>)
    ensures
        text::blank(value) ==> required_text(name, value) == Err::<Seq<char>, _>(RenderErrorView::EmptyField(name)),
        !text::blank(value) ==> required_text(name, value) == Ok::<_, RenderErrorView>(text::trimmed(value)),
        absolute_url("http://"@ + rest) && absolute_url("https://"@ + rest),
        absolute_url(value) ==> value.len() >= 7 && value[0] == 'h' && value[1] == 't' && value[2] == 't' && value[3] == 'p',
        text::blank(value) ==> required_url(name, value) == Err::<Seq<char>, _>(RenderErrorView::EmptyField(name)),
        !text::blank(value) && absolute_url(text::trimmed(value)) ==> required_url(name, value) == Ok::<_, RenderErrorView>(
            text::trimmed(value),
        ),
        !text::blank(value) && !absolute_url(text::trimmed(value)) ==> required_url(name, value) == Err::<Seq<char>, _>(
            RenderErrorView::NotAbsoluteUrl { field: name, value: text::trimmed(value) },
        ),
        optional_text(name, None, rest) == Ok::<_, RenderErrorView>(rest),
        optional_text(name, Some(value), rest) == required_text(name, value),
        malformed_scope(value) <==> value.len() == 0 || exists|i: int|
            0 <= i < value.len() && text::is_white_space(#[trigger] value[i]),
{
    reveal_strlit("http://");
    reveal_strlit("https://");
    text::law_prefixes(value, "http://"@, rest);
    text::law_prefixes(value, "https://"@, rest);
    if absolute_url(value) {
        if text::starts_with(value, "http://"@) {
            assert(value.take(7)[0] == value[0] && value.take(7)[1] == value[1] && value.take(7)[2] == value[2] && value.take(
                7,
            )[3] == value[3]);
        } else {
            assert(value.take(8)[0] == value[0] && value.take(8)[1] == value[1] && value.take(8)[2] == value[2] && value.take(
                8,
            )[3] == value[3]);
        }
    }
}

/// The first scope that is not one word is the one that is told.
pub proof fn law_first_malformed_scope(s: Seq<char>, rest: Seq<Seq<char>>)
    ensures
        first_malformed(Seq::empty()) is None,
        malformed_scope(s) ==> first_malformed(seq![s] + rest) == Some(s),
        !malformed_scope(s) ==> first_malformed(seq![s] + rest) == first_malformed(rest),
{
    assert((seq![s] + rest).skip(1) =~= rest);
    assert((seq![s] + rest)[0] == s);
}

/// A binding is made of the fields of its request, without the space around them: the
/// habilitation is named for the noyau where it has no name, the phase is the living
/// one where none is given, and nothing bounds its drains but the defaults.
pub proof fn law_rendered_fields(s: BindingSpecView)
    requires
        rendered_binding(s) is Ok,
    ensures
        ({
            let b = rendered_binding(s)->Ok_0;
            &&& b.noyau == text::trimmed(s.noyau)
            &&& b.sub == text::trimmed(s.sub)
            &&& b.issuer == text::trimmed(s.issuer)
            &&& b.audience == text::trimmed(s.audience)
            &&& s.nucleon_id matches Some(n) ==> b.nucleon_id == text::trimmed(n)
            &&& s.nucleon_id is None ==> b.nucleon_id == text::trimmed(s.noyau)
            &&& s.phase matches Some(p) ==> b.phase == text::trimmed(p)
            &&& s.phase is None ==> b.phase == "Biological"@
            &&& s.scopes.len() == 0 ==> b.scopes is None
            &&& s.scopes.len() > 0 ==> b.scopes == Some(s.scopes)
            &&& s.sealed_at matches Some(at) ==> b.sealed_at == at
            &&& s.sealed_at is None ==> b.sealed_at.len() == 0
            &&& b.drain_bounds is None
        }),
        !text::blank(s.noyau) && !text::blank(s.sub) && !text::blank(s.issuer) && !text::blank(s.audience),
        absolute_url(text::trimmed(s.issuer)),
        s.nucleon_id matches Some(n) ==> !text::blank(n),
        s.phase matches Some(p) ==> !text::blank(p),
        first_malformed(s.scopes) is None,
{
}

/// The first field that is at fault is the one that is told, in the order noyau,
/// subject, issuer, audience, habilitation, phase, scopes; without a fault there is a
/// binding.
pub proof fn law_first_fault_is_told(s: BindingSpecView)
    ensures
        ({
            let r = rendered_binding(s);
            let empty = |f: Seq<char>| Err::<OidcIdentityView, _>(RenderErrorView::EmptyField(f));
            if text::blank(s.noyau) {
                r == empty("noyau"@)
            } else if text::blank(s.sub) {
                r == empty("sub"@)
            } else if text::blank(s.issuer) {
                r == empty("issuer"@)
            } else if !absolute_url(text::trimmed(s.issuer)) {
                r == Err::<OidcIdentityView, _>(
                    RenderErrorView::NotAbsoluteUrl { field: "issuer"@, value: text::trimmed(s.issuer) },
                )
            } else if text::blank(s.audience) {
                r == empty("audience"@)
            } else if s.nucleon_id is Some && text::blank(s.nucleon_id->0) {
                r == empty("nucleon_id"@)
            } else if s.phase is Some && text::blank(s.phase->0) {
                r == empty("phase"@)
            } else if first_malformed(s.scopes) is Some {
                r == Err::<OidcIdentityView, _>(RenderErrorView::MalformedScope(first_malformed(s.scopes)->0))
            } else {
                r is Ok
            }
        }),
{
}

/// Requests and bindings are seen field by field, and lists in order.
pub proof fn law_fields_are_seen(spec: HabilitationBindingSpec, id: OidcIdentity, v: Seq<Noyau>, rows: Seq<(Noyau, usize)>, i: int)
    ensures
        spec@.noyau == spec.noyau@ && spec@.sub == spec.sub@ && spec@.issuer == spec.issuer@ && spec@.audience
            == spec.audience@ && spec@.scopes == text::views(spec.scopes@),
        spec@.nucleon_id == optional(spec.nucleon_id) && spec@.phase == optional(spec.phase) && spec@.sealed_at == optional(
            spec.sealed_at,
        ),
        id@.nucleon_id == id.nucleon_id@ && id@.phase == id.phase@ && id@.noyau == id.noyau@ && id@.issuer == id.oidc.issuer@
            && id@.sub == id.oidc.sub@ && id@.audience == id.oidc.audience@ && id@.sealed_at == id.oidc.sealed_at@
            && id@.drain_bounds == id.drain_bounds,
        id.scopes is Some ==> id@.scopes == Some(text::views((id.scopes->0).allowed@)),
        id.scopes is None ==> id@.scopes is None,
        noyau_texts(v).len() == v.len(),
        0 <= i < v.len() ==> noyau_texts(v)[i] == v[i].0@,
        row_texts(rows).len() == rows.len(),
        0 <= i < rows.len() ==> row_texts(rows)[i] == rows[i].0.0@,
{
}

/// A text that is there is seen.
pub proof fn law_optional_strings(s: String)
    ensures
        optional(Some(s)) == Some(s@),
        optional(None) is None,
{
}

/// A binding, a built map and a rendering error are seen as they are.
pub proof fn law_bindings_are_seen(b: Resolved, m: HabilitationMapBuilder, i: int, e: RenderError)
    ensures
        b@.nucleon_id == b.nucleon_id.0@ && b@.noyau == b.noyau.0@ && b@.audience == b.audience@,
        b@.allowed_scopes == text::views(b.allowed_scopes@) && b@.drain_bounds == b.drain_bounds,
        m@.len() == m.entries@.len(),
        0 <= i < m@.len() ==> m@[i].0 == m.entries@[i].0@ && m@[i].1 == m.entries@[i].1@,
        e matches RenderError::EmptyField(name) ==> e@ == RenderErrorView::EmptyField(name@),
        e matches RenderError::NotAbsoluteUrl { field, value } ==> e@ == (RenderErrorView::NotAbsoluteUrl {
            field: field@,
            value: value@,
        }),
        e matches RenderError::MalformedScope(s) ==> e@ == RenderErrorView::MalformedScope(s@),
        e matches RenderError::Serialize(s) ==> e@ == RenderErrorView::Serialize(s@),
{
}

/// Of several audiences the one that comes first in text order is taken.
pub proof fn law_first_audiences(
    m: Map<KeyView, ResolvedView>,
    iss: Seq<char>,
    sub: Seq<char>,
    aud: Seq<char>,
    other: Seq<char>,
)
    requires
        first_audience(m, iss, sub, aud),
    ensures
        m.contains_key(KeyView { iss, sub, aud }),
        m.contains_key(KeyView { iss, sub, aud: other }) ==> order::text_le(aud, other),
        m.contains_key(KeyView { iss, sub, aud: other }) && first_audience(m, iss, sub, other) ==> other == aud,
{
    assert(key(iss, sub, other) == (KeyView { iss, sub, aud: other }));
    if m.contains_key(key(iss, sub, other)) && first_audience(m, iss, sub, other) {
        assert(m.contains_key(key(iss, sub, aud)));
        if aud != other {
            order::lemma_text_transitive(aud, other, aud);
            order::lemma_text_irreflexive(aud);
        }
    }
}

/// What a reader of a rendered identity file finds at its head.
pub proof fn law_rendered_files_say_what_they_are()
    ensures
        document_header() == "# Nucleon binding — (iss, sub) → noyau. Rendered by the audited\n# cosmon-rpp-adapter `nucleon render` path (Pierre hardening P2,\n# task-20260605-e26a). issuer + audience must match the IdP and the\n# JWT byte-for-byte (wiring contract A). Cross-noyau pivot stays\n# structurally impossible (ADR-080 §8j clauses (a)+(e)).\n"@,
{
}

} // verus!
