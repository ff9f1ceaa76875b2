//! One-gesture federation: a partner is federated on a set of galaxies, one
//! habilitation per galaxy, grouped as one relation.

use vstd::prelude::*;
use crate::error;
use crate::error::ApiError;
use crate::nucleon_map;
use crate::nucleon_map::{BindingSpecView, HabilitationBindingSpec};
use crate::order;
use crate::order::sort_by_name;
use crate::provisioner;
use crate::provisioner::{ProvisionOutcome, Undo, UndoView};
use crate::text;
use crate::text::{chars_of, concat, concat3, contains_char, copy_list, list_contains, same_text, trim};

verus! {

pub const DEFAULT_AUDIENCE_PREFIX: &'static str = "cosmon-rpp-";

/// The foreign identity a relation is with.
#[derive(Clone, Debug)]
pub struct PartnerIdentity {
    pub issuer: String,
    pub sub: String,
}

/// One galaxy of a relation.
#[derive(Clone, Debug)]
pub struct PorteeMember {
    pub galaxy: String,
    pub audience: String,
    pub habilitation_id: String,
}

/// The record that groups the habilitations of a relation.
#[derive(Clone, Debug)]
pub struct PorteeManifest {
    pub portee_id: String,
    pub partner: PartnerIdentity,
    pub scopes: Vec<String>,
    pub members: Vec<PorteeMember>,
    pub created_at: String,
}

/// What an operator asks to federate.
#[derive(Clone, Debug)]
pub struct PorteeSpec {
    pub portee_id: Option<String>,
    pub partner: PartnerIdentity,
    pub galaxies: Vec<String>,
    pub scopes: Vec<String>,
    pub create_noyau: bool,
    pub created_at: Option<String>,
}

/// What came of a federation.
#[derive(Clone, Debug)]
pub struct PorteeOutcome {
    pub portee_id: String,
    pub created: bool,
    pub members: Vec<PorteeMember>,
    pub galaxies_created: Vec<String>,
}

/// A relation, as the operator lists it.
#[derive(Clone, Debug)]
pub struct PorteeView {
    pub portee_id: String,
    pub partner: PartnerIdentity,
    pub scopes: Vec<String>,
    pub members: Vec<PorteeMember>,
    pub created_at: String,
}

impl From<PorteeManifest> for PorteeView {
    fn from(m: PorteeManifest) -> (r: Self) {
        PorteeView {
            portee_id: m.portee_id,
            partner: m.partner,
            scopes: m.scopes,
            members: m.members,
            created_at: m.created_at,
        }
    }
}

impl vstd::std_specs::convert::FromSpecImpl<PorteeManifest> for PorteeView {
    open spec fn obeys_from_spec() -> bool {
        true
    }

    open spec fn from_spec(m: PorteeManifest) -> Self {
        PorteeView {
            portee_id: m.portee_id,
            partner: m.partner,
            scopes: m.scopes,
            members: m.members,
            created_at: m.created_at,
        }
    }
}

/// A member as a mathematical value.
pub struct MemberView {
    pub galaxy: Seq<char>,
    pub audience: Seq<char>,
    pub habilitation_id: Seq<char>,
}

impl View for PorteeMember {
    type V = MemberView;

    open spec fn view(&self) -> MemberView {
        MemberView { galaxy: self.galaxy@, audience: self.audience@, habilitation_id: self.habilitation_id@ }
    }
}

pub open spec fn member_views(v: Seq<PorteeMember>) -> Seq<MemberView> {
    Seq::new(v.len(), |i: int| v[i]@)
}

/// The audience of a galaxy.
pub open spec fn audience_of(galaxy: Seq<char>) -> Seq<char> {
    "cosmon-rpp-"@ + galaxy
}

/// The habilitation of a relation on a galaxy.
pub open spec fn habilitation_of(portee_id: Seq<char>, galaxy: Seq<char>) -> Seq<char> {
    portee_id + "--"@ + galaxy
}

/// The audience of a galaxy.
pub fn audience_for_galaxy(galaxy: &str) -> (r: String)
    ensures
        r@ == audience_of(galaxy@),
{
    concat(DEFAULT_AUDIENCE_PREFIX, galaxy)
}

/// The habilitation of a portee on a galaxy.
pub fn habilitation_id_for(portee_id: &str, galaxy: &str) -> (r: String)
    ensures
        r@ == habilitation_of(portee_id@, galaxy@),
{
    concat3(portee_id, "--", galaxy)
}

// ---------------------------------------------------------------------------
// Checking a request
// ---------------------------------------------------------------------------

/// A name that can stand as one path segment.
pub open spec fn token_ok(t: Seq<char>) -> bool {
    &&& t.len() > 0
    &&& forall|i: int| 0 <= i < t.len() ==> !text::is_white_space(#[trigger] t[i])
    &&& !t.contains('/')
    &&& !t.contains('\\')
    &&& t != "."@
    &&& t != ".."@
}

fn has_white_space(s: &str) -> (r: bool)
    ensures
        r == exists|i: int| 0 <= i < s@.len() && text::is_white_space(#[trigger] s@[i]),
{
    let cs = chars_of(s);
    let mut i: usize = 0;
    while i < cs.len()
        invariant
            i <= cs@.len(),
            cs@ == s@,
            forall|k: int| 0 <= k < i ==> !text::is_white_space(#[trigger] s@[k]),
        decreases cs@.len() - i,
    {
        if cs[i].is_whitespace() {
            assert(text::is_white_space(s@[i as int]));
            return true;
        }
        i += 1;
    }
    false
}

/// Takes a name without the space around it, where it can stand as one path
/// segment.
pub fn validate_token(value: &str) -> (r: Result<String, ApiError>)
    ensures
        match r {
            Ok(t) => token_ok(text::trimmed(value@)) && t@ == text::trimmed(value@),
            Err(e) => !token_ok(text::trimmed(value@)) && e == error::refusal(400, "malformed_portee"),
        },
{
    let t = trim(value);
    if t.as_str().is_empty() || has_white_space(t.as_str()) || contains_char(t.as_str(), '/') || contains_char(
        t.as_str(),
        '\\',
    ) || same_text(t.as_str(), ".") || same_text(t.as_str(), "..") {
        return Err(ApiError::with_status(400, "malformed_portee"));
    }
    Ok(t)
}

/// The relation id that a request names: its own, or the partner's subject.
pub open spec fn named_id(s: PorteeSpec) -> Seq<char> {
    match s.portee_id {
        Some(id) => text::trimmed(id@),
        None => text::trimmed(s.partner.sub@),
    }
}

pub open spec fn trimmed_all(v: Seq<String>) -> Seq<Seq<char>> {
    Seq::new(v.len(), |i: int| text::trimmed(v[i]@))
}

/// A request that can be carried out.
pub open spec fn well_formed_request(s: PorteeSpec) -> bool {
    &&& token_ok(named_id(s))
    &&& s.galaxies@.len() > 0
    &&& forall|i: int| 0 <= i < s.galaxies@.len() ==> token_ok(#[trigger] trimmed_all(s.galaxies@)[i])
}

/// The galaxies of a request, each once, in the order they were first named.
pub open spec fn galaxies_of(s: PorteeSpec) -> Seq<Seq<char>> {
    nucleon_map::distinct(trimmed_all(s.galaxies@))
}

/// A checked request.
#[derive(Clone, Debug)]
pub struct FederationRequest {
    pub portee_id: String,
    pub galaxies: Vec<String>,
}

/// Checks a request: the relation id and every galaxy must be a name, and there
/// must be a galaxy.
pub fn check_federation(spec: &PorteeSpec) -> (r: Result<FederationRequest, ApiError>)
    ensures
        match r {
            Ok(req) => {
                &&& well_formed_request(*spec)
                &&& req.portee_id@ == named_id(*spec)
                &&& spec.portee_id is None ==> req.portee_id@ == text::trimmed(spec.partner.sub@)
                &&& spec.portee_id matches Some(id) ==> req.portee_id@ == text::trimmed(id@)
                &&& text::views(req.galaxies@) == galaxies_of(*spec)
            },
            Err(e) => !well_formed_request(*spec) && e == error::refusal(400, "malformed_portee"),
        },
{
    let named = match &spec.portee_id {
        Some(id) => validate_token(id.as_str()),
        None => validate_token(spec.partner.sub.as_str()),
    };
    let portee_id = match named {
        Ok(id) => id,
        Err(e) => return Err(e),
    };
    if spec.galaxies.len() == 0 {
        return Err(ApiError::with_status(400, "malformed_portee"));
    }
    let ghost all = trimmed_all(spec.galaxies@);
    let mut galaxies: Vec<String> = Vec::new();
    let mut i: usize = 0;
    assert(all.take(0) =~= Seq::<Seq<char>>::empty());
    assert(text::views(galaxies@) =~= nucleon_map::distinct(all.take(0)));
    while i < spec.galaxies.len()
        invariant
            i <= spec.galaxies@.len(),
            all == trimmed_all(spec.galaxies@),
            text::views(galaxies@) == nucleon_map::distinct(all.take(i as int)),
            forall|k: int| 0 <= k < i ==> token_ok(#[trigger] all[k]),
        decreases spec.galaxies@.len() - i,
    {
        let g = match validate_token(spec.galaxies[i].as_str()) {
            Ok(g) => g,
            Err(e) => {
                assert(!token_ok(all[i as int]));
                return Err(e);
            },
        };
        proof {
            assert(all.take(i + 1).drop_last() =~= all.take(i as int));
            assert(all.take(i + 1).last() == g@);
            text::lemma_listed(galaxies@, g@);
        }
        if !list_contains(&galaxies, g.as_str()) {
            let ghost before = text::views(galaxies@);
            galaxies.push(g);
            assert(text::views(galaxies@) =~= before.push(all[i as int]));
        }
        i += 1;
    }
    assert(all.take(i as int) =~= all);
    Ok(FederationRequest { portee_id, galaxies })
}

// ---------------------------------------------------------------------------
// Carrying a request out, galaxy by galaxy
// ---------------------------------------------------------------------------

/// Where a federation stands.
pub struct FederationView {
    pub portee_id: Seq<char>,
    pub galaxies: Seq<Seq<char>>,
    pub done: int,
    pub members: Seq<MemberView>,
    /// What undoes the writes of this federation, oldest first.
    pub undo: Seq<UndoView>,
    pub galaxies_created: Seq<Seq<char>>,
}

pub open spec fn has_galaxy(members: Seq<MemberView>, galaxy: Seq<char>) -> bool {
    exists|i: int| 0 <= i < members.len() && (#[trigger] members[i]).galaxy == galaxy
}

pub open spec fn member_for(portee_id: Seq<char>, galaxy: Seq<char>) -> MemberView {
    MemberView { galaxy, audience: audience_of(galaxy), habilitation_id: habilitation_of(portee_id, galaxy) }
}

/// What came of the binding of a galaxy: whether its tree was made, and what undoes
/// the write, where one was needed.
pub struct StepView {
    pub noyau_created: bool,
    pub undo: Option<UndoView>,
}

/// The step back that was handed in.
pub open spec fn undo_view(u: Option<Undo>) -> Option<UndoView> {
    match u {
        Some(step) => Some(step@),
        None => None,
    }
}

pub open spec fn undo_views(v: Seq<Undo>) -> Seq<UndoView> {
    Seq::new(v.len(), |i: int| v[i]@)
}

/// The federation once the binding of its next galaxy is in place.
pub open spec fn provisioned(f: FederationView, step: StepView) -> FederationView {
    let galaxy = f.galaxies[f.done];
    FederationView {
        portee_id: f.portee_id,
        galaxies: f.galaxies,
        done: f.done + 1,
        members: if has_galaxy(f.members, galaxy) {
            f.members
        } else {
            f.members.push(member_for(f.portee_id, galaxy))
        },
        undo: match step.undo {
            Some(u) => f.undo.push(u),
            None => f.undo,
        },
        galaxies_created: if step.noyau_created {
            f.galaxies_created.push(galaxy)
        } else {
            f.galaxies_created
        },
    }
}

/// The binding to provision for a galaxy of a request.
pub open spec fn binding_for(s: PorteeSpec, portee_id: Seq<char>, galaxy: Seq<char>) -> BindingSpecView {
    BindingSpecView {
        noyau: galaxy,
        sub: s.partner.sub@,
        issuer: s.partner.issuer@,
        audience: audience_of(galaxy),
        nucleon_id: Some(habilitation_of(portee_id, galaxy)),
        phase: None,
        scopes: text::views(s.scopes@),
        sealed_at: nucleon_map::optional(s.created_at),
    }
}

/// A federation under way.
pub struct Federation {
    pub spec: PorteeSpec,
    pub portee_id: String,
    pub galaxies: Vec<String>,
    pub done: usize,
    pub existing_created_at: Option<String>,
    pub members: Vec<PorteeMember>,
    pub undo: Vec<Undo>,
    pub galaxies_created: Vec<String>,
}

impl View for Federation {
    type V = FederationView;

    open spec fn view(&self) -> FederationView {
        FederationView {
            portee_id: self.portee_id@,
            galaxies: text::views(self.galaxies@),
            done: self.done as int,
            members: member_views(self.members@),
            undo: undo_views(self.undo@),
            galaxies_created: text::views(self.galaxies_created@),
        }
    }
}

fn copy_member(m: &PorteeMember) -> (r: PorteeMember)
    ensures
        r == *m,
{
    PorteeMember {
        galaxy: m.galaxy.clone(),
        audience: m.audience.clone(),
        habilitation_id: m.habilitation_id.clone(),
    }
}

fn copy_members(v: &Vec<PorteeMember>) -> (r: Vec<PorteeMember>)
    ensures
        r@ == v@,
{
    let mut out: Vec<PorteeMember> = Vec::new();
    let mut i: usize = 0;
    while i < v.len()
        invariant
            i <= v@.len(),
            out@ =~= v@.take(i as int),
        decreases v@.len() - i,
    {
        out.push(copy_member(&v[i]));
        i += 1;
    }
    out
}

fn copy_undo(u: &Undo) -> (r: Undo)
    ensures
        r@ == u@,
{
    let restore = match &u.restore {
        Some(text) => Some(text.clone()),
        None => None,
    };
    Undo { habilitation_id: u.habilitation_id.clone(), restore }
}

fn find_galaxy(v: &Vec<PorteeMember>, galaxy: &str) -> (r: Option<usize>)
    ensures
        match r {
            Some(i) => {
                &&& i < v@.len()
                &&& v@[i as int].galaxy@ == galaxy@
                &&& forall|k: int| 0 <= k < i ==> (#[trigger] v@[k]).galaxy@ != galaxy@
            },
            None => forall|k: int| 0 <= k < v@.len() ==> (#[trigger] v@[k]).galaxy@ != galaxy@,
        },
{
    let mut i: usize = 0;
    while i < v.len()
        invariant
            i <= v@.len(),
            forall|k: int| 0 <= k < i ==> (#[trigger] v@[k]).galaxy@ != galaxy@,
        decreases v@.len() - i,
    {
        if same_text(v[i].galaxy.as_str(), galaxy) {
            return Some(i);
        }
        i += 1;
    }
    None
}

impl Federation {
    pub open spec fn wf(&self) -> bool {
        self.done <= self.galaxies@.len()
    }

    /// Starts a federation. The members of an existing relation stay.
    pub fn begin(spec: PorteeSpec, request: FederationRequest, existing: Option<&PorteeManifest>) -> (r: Self)
        ensures
            r.wf(),
            r.spec == spec,
            r.existing_created_at is Some <==> existing is Some,
            existing is Some ==> (r.existing_created_at->0)@ == (existing->0).created_at@,
            r@ == (FederationView {
                portee_id: request.portee_id@,
                galaxies: text::views(request.galaxies@),
                done: 0,
                members: match existing {
                    Some(m) => member_views(m.members@),
                    None => Seq::empty(),
                },
                undo: Seq::empty(),
                galaxies_created: Seq::empty(),
            }),
    {
        let members: Vec<PorteeMember> = match existing {
            Some(m) => copy_members(&m.members),
            None => Vec::new(),
        };
        let existing_created_at = match existing {
            Some(m) => Some(m.created_at.clone()),
            None => None,
        };
        let r = Federation {
            spec,
            portee_id: request.portee_id,
            galaxies: request.galaxies,
            done: 0,
            existing_created_at,
            members,
            undo: Vec::new(),
            galaxies_created: Vec::new(),
        };
        assert(undo_views(r.undo@) =~= Seq::<UndoView>::empty());
        assert(text::views(r.galaxies_created@) =~= Seq::<Seq<char>>::empty());
        assert(existing is None ==> member_views(r.members@) =~= Seq::<MemberView>::empty());
        r
    }

    /// The binding to provision next; none once every galaxy has its own.
    pub fn next_binding(&self) -> (r: Option<HabilitationBindingSpec>)
        requires
            self.wf(),
        ensures
            r is Some <==> self@.done < self@.galaxies.len(),
            r is Some ==> (r->0)@ == binding_for(self.spec, self@.portee_id, self@.galaxies[self@.done]),
    {
        if self.done >= self.galaxies.len() {
            return None;
        }
        let galaxy = self.galaxies[self.done].as_str();
        let sealed_at = match &self.spec.created_at {
            Some(at) => Some(at.clone()),
            None => None,
        };
        Some(
            HabilitationBindingSpec {
                noyau: galaxy.to_owned(),
                sub: self.spec.partner.sub.clone(),
                issuer: self.spec.partner.issuer.clone(),
                audience: audience_for_galaxy(galaxy),
                nucleon_id: Some(habilitation_id_for(self.portee_id.as_str(), galaxy)),
                phase: None,
                scopes: copy_list(&self.spec.scopes),
                sealed_at,
            },
        )
    }

    /// Takes note that the next binding is in place, and of what undoes its write
    /// where it was written.
    pub fn settle(&mut self, out: &ProvisionOutcome, undo: Option<Undo>)
        requires
            old(self).wf(),
            old(self)@.done < old(self)@.galaxies.len(),
        ensures
            final(self).wf(),
            final(self).spec == old(self).spec,
            final(self).existing_created_at == old(self).existing_created_at,
            final(self)@ == provisioned(
                old(self)@,
                (StepView { noyau_created: out.noyau_created, undo: undo_view(undo) }),
            ),
    {
        let ghost before = self@;
        let ghost after = provisioned(
            before,
            StepView { noyau_created: out.noyau_created, undo: undo_view(undo) },
        );
        let count: usize = self.galaxies.len();
        let galaxy = self.galaxies[self.done].clone();
        let habilitation_id = habilitation_id_for(self.portee_id.as_str(), galaxy.as_str());
        if let Some(step) = undo {
            self.undo.push(step);
        }
        assert(undo_views(self.undo@) =~= after.undo);
        if out.noyau_created {
            self.galaxies_created.push(galaxy.clone());
        }
        assert(text::views(self.galaxies_created@) =~= after.galaxies_created);
        let found = find_galaxy(&self.members, galaxy.as_str());
        proof {
            if found is Some {
                assert(before.members[found->0 as int].galaxy == galaxy@);
            } else {
                assert forall|i: int| 0 <= i < before.members.len() implies (#[trigger] before.members[i]).galaxy
                    != galaxy@ by {
                    assert(self.members@[i].galaxy@ != galaxy@);
                }
            }
        }
        if found.is_none() {
            let audience = audience_for_galaxy(galaxy.as_str());
            self.members.push(PorteeMember { galaxy, audience, habilitation_id });
        }
        assert(member_views(self.members@) =~= after.members);
        assert(self.done < count);
        self.done = self.done + 1;
    }

    /// What undoes every write of this federation when a binding fails, newest
    /// first.
    pub fn abort(&self) -> (r: Vec<Undo>)
        ensures
            undo_views(r@) == self@.undo.reverse(),
    {
        let mut out: Vec<Undo> = Vec::new();
        let n: usize = self.undo.len();
        let mut i: usize = n;
        while i > 0
            invariant
                i <= n == self.undo@.len(),
                out@.len() == n - i,
                forall|k: int| 0 <= k < n - i ==> (#[trigger] out@[k])@ == self.undo@[n - 1 - k]@,
            decreases i,
        {
            i -= 1;
            out.push(copy_undo(&self.undo[i]));
        }
        assert(undo_views(out@) =~= self@.undo.reverse());
        out
    }

    /// The record to write once every galaxy has its binding. Its date is the
    /// request's, else the one of the relation as it stood.
    pub fn manifest(&self) -> (r: PorteeManifest)
        ensures
            r.portee_id@ == self@.portee_id,
            r.partner.issuer@ == self.spec.partner.issuer@,
            r.partner.sub@ == self.spec.partner.sub@,
            r.scopes@ == self.spec.scopes@,
            r.members@ == self.members@,
            r.created_at@ == (match self.spec.created_at {
                Some(at) => at@,
                None => match self.existing_created_at {
                    Some(at) => at@,
                    None => Seq::empty(),
                },
            }),
    {
        let created_at = match &self.spec.created_at {
            Some(at) => at.clone(),
            None => match &self.existing_created_at {
                Some(at) => at.clone(),
                None => String::new(),
            },
        };
        PorteeManifest {
            portee_id: self.portee_id.clone(),
            partner: PartnerIdentity {
                issuer: self.spec.partner.issuer.clone(),
                sub: self.spec.partner.sub.clone(),
            },
            scopes: copy_list(&self.spec.scopes),
            members: copy_members(&self.members),
            created_at,
        }
    }

    /// Closes the federation. The bindings stand even where the record could not
    /// be written.
    pub fn finish(self, manifest_written: bool) -> (r: Result<PorteeOutcome, ApiError>)
        ensures
            match r {
                Ok(out) => {
                    &&& manifest_written
                    &&& out.portee_id == self.portee_id
                    &&& out.created == (self.existing_created_at is None)
                    &&& out.members == self.members
                    &&& out.galaxies_created == self.galaxies_created
                },
                Err(e) => !manifest_written && e == error::refusal(500, "portee_manifest_io_error"),
            },
    {
        if !manifest_written {
            return Err(manifest_fault());
        }
        let created: bool = self.existing_created_at.is_none();
        Ok(
            PorteeOutcome {
                portee_id: self.portee_id,
                created,
                members: self.members,
                galaxies_created: self.galaxies_created,
            },
        )
    }
}

/// What a record that cannot be written or removed is answered with.
pub fn manifest_fault() -> (r: ApiError)
    ensures
        r == error::refusal(500, "portee_manifest_io_error"),
{
    ApiError::with_status(500, "portee_manifest_io_error")
}

// ---------------------------------------------------------------------------
// Listing, dissolving, revoking
// ---------------------------------------------------------------------------

/// The relations that could be read, in the order of their directories.
pub fn list(dirs: Vec<(String, Option<PorteeManifest>)>) -> (r: Vec<PorteeView>)
    ensures
        exists|sorted: Seq<(String, Option<PorteeManifest>)>|
            {
                &&& order::in_name_order(sorted)
                &&& sorted.to_multiset() == dirs@.to_multiset()
                &&& r@ == readable(sorted)
            },
{
    let mut rest = sort_by_name(dirs);
    let ghost sorted = rest@;
    let mut out: Vec<PorteeView> = Vec::new();
    assert(out@ + readable(rest@) =~= readable(sorted));
    while rest.len() > 0
        invariant
            out@ + readable(rest@) == readable(sorted),
        decreases rest@.len(),
    {
        let ghost before = rest@;
        let ghost out0 = out@;
        let (_, manifest) = rest.remove(0);
        assert(rest@ =~= before.skip(1));
        if let Some(m) = manifest {
            let view = PorteeView::from(m);
            out.push(view);
            assert(out@ + readable(rest@) =~= out0 + readable(before));
        }
    }
    assert(readable(rest@) =~= Seq::<PorteeView>::empty());
    assert(out@ =~= readable(sorted));
    out
}

/// The relations of the directories whose record could be read.
pub open spec fn readable(dirs: Seq<(String, Option<PorteeManifest>)>) -> Seq<PorteeView>
    decreases dirs.len(),
{
    if dirs.len() == 0 {
        Seq::empty()
    } else {
        let tail = readable(dirs.skip(1));
        match dirs[0].1 {
            Some(m) => seq![
                PorteeView {
                    portee_id: m.portee_id,
                    partner: m.partner,
                    scopes: m.scopes,
                    members: m.members,
                    created_at: m.created_at,
                },
            ] + tail,
            None => tail,
        }
    }
}

/// The habilitations to revoke when a relation is dissolved.
pub fn dissolve(manifest: Option<&PorteeManifest>) -> (r: Result<Vec<String>, ApiError>)
    ensures
        match r {
            Ok(ids) => {
                &&& manifest is Some
                &&& text::views(ids@) == Seq::new(
                    (manifest->0).members@.len(),
                    |i: int| (manifest->0).members@[i].habilitation_id@,
                )
            },
            Err(e) => manifest is None && e == error::refusal(404, "portee_not_found"),
        },
{
    match manifest {
        None => Err(ApiError::with_status(404, "portee_not_found")),
        Some(m) => {
            let mut ids: Vec<String> = Vec::new();
            let mut i: usize = 0;
            while i < m.members.len()
                invariant
                    i <= m.members@.len(),
                    ids@.len() == i,
                    forall|k: int| 0 <= k < i ==> #[trigger] ids@[k] == m.members@[k].habilitation_id,
                decreases m.members@.len() - i,
            {
                ids.push(m.members[i].habilitation_id.clone());
                i += 1;
            }
            assert(text::views(ids@) =~= Seq::new(m.members@.len(), |i: int| m.members@[i].habilitation_id@));
            Ok(ids)
        },
    }
}

/// How many of the answers are yes.
pub open spec fn yes_count(v: Seq<bool>) -> nat
    decreases v.len(),
{
    if v.len() == 0 {
        0
    } else {
        yes_count(v.drop_last()) + if v.last() {
            1nat
        } else {
            0nat
        }
    }
}

proof fn lemma_yes_count(v: Seq<bool>)
    ensures
        yes_count(v) <= v.len(),
    decreases v.len(),
{
    if v.len() > 0 {
        lemma_yes_count(v.drop_last());
    }
}

/// Closes a dissolution: the number of habilitations that were revoked. A member
/// that was gone already is no fault.
pub fn dissolved(revoked: &Vec<bool>, record_removed: bool) -> (r: Result<usize, ApiError>)
    ensures
        match r {
            Ok(n) => record_removed && n == yes_count(revoked@),
            Err(e) => !record_removed && e == error::refusal(500, "portee_manifest_io_error"),
        },
{
    if !record_removed {
        return Err(manifest_fault());
    }
    let mut n: usize = 0;
    let mut i: usize = 0;
    assert(revoked@.take(0) =~= Seq::<bool>::empty());
    while i < revoked.len()
        invariant
            i <= revoked@.len(),
            n == yes_count(revoked@.take(i as int)),
            n <= i,
        decreases revoked@.len() - i,
    {
        assert(revoked@.take(i + 1).drop_last() =~= revoked@.take(i as int));
        if revoked[i] {
            n += 1;
        }
        i += 1;
    }
    assert(revoked@.take(i as int) =~= revoked@);
    Ok(n)
}

/// Takes the first member with that galaxy out of a relation: the relation that
/// is left, and the member whose habilitation is to be revoked.
pub fn revoke_galaxy(manifest: Option<PorteeManifest>, galaxy: &str) -> (r: Result<
    (PorteeManifest, PorteeMember),
    ApiError,
>)
    ensures
        match r {
            Ok((left, member)) => {
                &&& manifest is Some
                &&& exists|i: int|
                    {
                        &&& 0 <= i < (manifest->0).members@.len()
                        &&& (#[trigger] (manifest->0).members@[i]).galaxy@ == galaxy@
                        &&& forall|k: int| 0 <= k < i ==> (#[trigger] (manifest->0).members@[k]).galaxy@ != galaxy@
                        &&& member == (manifest->0).members@[i]
                        &&& left.members@ == (manifest->0).members@.remove(i)
                    }
                &&& left.portee_id == (manifest->0).portee_id
                &&& left.partner == (manifest->0).partner
                &&& left.scopes == (manifest->0).scopes
                &&& left.created_at == (manifest->0).created_at
            },
            Err(e) => {
                ||| manifest is None && e == error::refusal(404, "portee_not_found")
                ||| manifest is Some && !has_galaxy(member_views((manifest->0).members@), galaxy@) && e
                    == error::refusal(404, "galaxy_not_in_portee")
            },
        },
{
    match manifest {
        None => Err(ApiError::with_status(404, "portee_not_found")),
        Some(m) => {
            let mut left = m;
            match find_galaxy(&left.members, galaxy) {
                None => Err(ApiError::with_status(404, "galaxy_not_in_portee")),
                Some(at) => {
                    let member = left.members.remove(at);
                    Ok((left, member))
                },
            }
        },
    }
}

// ---------------------------------------------------------------------------
// Laws
// ---------------------------------------------------------------------------

/// A federation after a run of bindings.
pub open spec fn after_run(f: FederationView, run: Seq<StepView>) -> FederationView
    decreases run.len(),
{
    if run.len() == 0 {
        f
    } else {
        let before = after_run(f, run.drop_last());
        provisioned(before, run.last())
    }
}

proof fn lemma_run_frame(f: FederationView, run: Seq<StepView>)
    ensures
        after_run(f, run).portee_id == f.portee_id,
        after_run(f, run).galaxies == f.galaxies,
        after_run(f, run).done == f.done + run.len(),
    decreases run.len(),
{
    if run.len() > 0 {
        lemma_run_frame(f, run.drop_last());
    }
}

/// The binding files, by habilitation, before and after a galaxy had its turn: its
/// file was written, and the step back holds what stood there; or nothing was.
pub open spec fn wrote(
    before: Map<Seq<char>, Seq<char>>,
    undo: Option<UndoView>,
    after: Map<Seq<char>, Seq<char>>,
) -> bool {
    match undo {
        None => after == before,
        Some(u) => {
            &&& u.restore == if before.contains_key(u.habilitation_id) {
                Some(before[u.habilitation_id])
            } else {
                None
            }
            &&& after.contains_key(u.habilitation_id)
            &&& after == before.insert(u.habilitation_id, after[u.habilitation_id])
        },
    }
}

/// A failed federation leaves nothing behind: the steps back, newest first, give
/// back every binding file as it was before the first galaxy had its turn, the
/// files that were rewritten in place as well as those that were new. `files`
/// holds the binding files before each turn, and after the last.
pub proof fn law_abort_restores_every_binding(
    f: FederationView,
    run: Seq<StepView>,
    files: Seq<Map<Seq<char>, Seq<char>>>,
)
    requires
        f.undo.len() == 0,
        files.len() == run.len() + 1,
        forall|i: int| 0 <= i < run.len() ==> wrote(#[trigger] files[i], run[i].undo, files[i + 1]),
    ensures
        provisioner::undone(files.last(), after_run(f, run).undo.reverse()) == files[0],
    decreases run.len(),
{
    if run.len() == 0 {
        assert(after_run(f, run).undo.reverse() =~= Seq::<UndoView>::empty());
    } else {
        let n = run.len() as int;
        let earlier = after_run(f, run.drop_last()).undo;
        let now = after_run(f, run).undo;
        let rest = files.drop_last();
        assert forall|i: int| 0 <= i < run.drop_last().len() implies wrote(
            #[trigger] rest[i],
            run.drop_last()[i].undo,
            rest[i + 1],
        ) by {
            assert(wrote(files[i], run[i].undo, files[i + 1]));
        }
        law_abort_restores_every_binding(f, run.drop_last(), rest);
        assert(wrote(files[n - 1], run[n - 1].undo, files[n]));
        match run.last().undo {
            None => {},
            Some(u) => {
                assert(now == earlier.push(u));
                assert(now.reverse()[0] == u);
                assert(now.reverse().skip(1) =~= earlier.reverse());
                assert(provisioner::undone_once(files[n], u) =~= files[n - 1]);
            },
        }
    }
}

/// Federating is additive: the members that a relation had stay, in their
/// places.
pub proof fn law_federation_keeps_existing_members(f: FederationView, run: Seq<StepView>)
    ensures
        f.members.len() <= after_run(f, run).members.len(),
        forall|i: int| 0 <= i < f.members.len() ==> after_run(f, run).members[i] == #[trigger] f.members[i],
    decreases run.len(),
{
    if run.len() > 0 {
        law_federation_keeps_existing_members(f, run.drop_last());
    }
}

/// Every galaxy that a run went through is a member afterwards.
pub proof fn law_federation_covers_its_galaxies(f: FederationView, run: Seq<StepView>, i: int)
    requires
        0 <= f.done,
        f.done + run.len() <= f.galaxies.len(),
        f.done <= i < f.done + run.len(),
    ensures
        has_galaxy(after_run(f, run).members, f.galaxies[i]),
    decreases run.len(),
{
    let before = after_run(f, run.drop_last());
    lemma_run_frame(f, run.drop_last());
    let after = after_run(f, run);
    if i == f.done + run.len() - 1 {
        if !has_galaxy(before.members, f.galaxies[i]) {
            assert(after.members[before.members.len() as int].galaxy == f.galaxies[i]);
        }
    } else {
        law_federation_covers_its_galaxies(f, run.drop_last(), i);
        let k = choose|k: int| 0 <= k < before.members.len() && (#[trigger] before.members[k]).galaxy == f.galaxies[i];
        assert(after.members[k] == before.members[k]);
    }
}

/// A relation names each galaxy once, and stays so.
pub open spec fn one_member_per_galaxy(members: Seq<MemberView>) -> bool {
    forall|i: int, j: int|
        0 <= i < j < members.len() ==> (#[trigger] members[i]).galaxy != (#[trigger] members[j]).galaxy
}

/// No run of a federation, whatever came of its steps, gives a galaxy a second
/// member.
pub proof fn law_one_member_per_galaxy_is_kept(f: FederationView, run: Seq<StepView>)
    requires
        one_member_per_galaxy(f.members),
    ensures
        one_member_per_galaxy(after_run(f, run).members),
    decreases run.len(),
{
    if run.len() > 0 {
        law_one_member_per_galaxy_is_kept(f, run.drop_last());
        let before = after_run(f, run.drop_last());
        let after = after_run(f, run);
        let galaxy = before.galaxies[before.done];
        if !has_galaxy(before.members, galaxy) {
            assert forall|i: int, j: int| 0 <= i < j < after.members.len() implies (#[trigger] after.members[i]).galaxy
                != (#[trigger] after.members[j]).galaxy by {
                assert(after.members[i] == before.members[i]);
                if j < before.members.len() {
                    assert(after.members[j] == before.members[j]);
                }
            }
        }
    }
}

/// Federating again on galaxies that are members already changes no member.
pub proof fn law_federation_is_idempotent(f: FederationView, run: Seq<StepView>)
    requires
        0 <= f.done,
        f.done + run.len() <= f.galaxies.len(),
        forall|i: int| f.done <= i < f.done + run.len() ==> has_galaxy(f.members, #[trigger] f.galaxies[i]),
    ensures
        after_run(f, run).members == f.members,
    decreases run.len(),
{
    if run.len() > 0 {
        law_federation_is_idempotent(f, run.drop_last());
        lemma_run_frame(f, run.drop_last());
        assert(has_galaxy(f.members, f.galaxies[f.done + run.len() - 1]));
    }
}

/// Galaxies of one relation never share an audience or a habilitation.
pub proof fn law_galaxies_are_kept_apart(portee_id: Seq<char>, a: Seq<char>, b: Seq<char>)
    requires
        a != b,
    ensures
        audience_of(a) != audience_of(b),
        habilitation_of(portee_id, a) != habilitation_of(portee_id, b),
{
    let p = "cosmon-rpp-"@;
    if audience_of(a) == audience_of(b) {
        assert(audience_of(a).skip(p.len() as int) =~= a);
        assert(audience_of(b).skip(p.len() as int) =~= b);
    }
    let q = portee_id + "--"@;
    if habilitation_of(portee_id, a) == habilitation_of(portee_id, b) {
        assert(habilitation_of(portee_id, a).skip(q.len() as int) =~= a);
        assert(habilitation_of(portee_id, b).skip(q.len() as int) =~= b);
    }
}

/// A relation is named by the id that the request gives it, and without one by the
/// partner's subject, in either case without the space around it.
pub proof fn law_relations_are_named_by_id_or_subject(s: PorteeSpec)
    ensures
        s.portee_id is Some ==> named_id(s) == text::trimmed((s.portee_id->0)@),
        s.portee_id is None ==> named_id(s) == text::trimmed(s.partner.sub@),
{
}

/// Who issues the partner's tokens decides nothing about whether a request is well
/// formed, under which id it goes and which galaxies it covers; nor do the scopes.
pub proof fn law_requests_are_judged_by_names_alone(a: PorteeSpec, b: PorteeSpec)
    requires
        a.portee_id == b.portee_id,
        a.partner.sub@ == b.partner.sub@,
        a.galaxies == b.galaxies,
    ensures
        well_formed_request(a) == well_formed_request(b),
        named_id(a) == named_id(b),
        galaxies_of(a) == galaxies_of(b),
{
}

/// A name can stand as one path segment: it is not empty, holds no space and no
/// separator, and is neither of the two names that every directory has.
pub proof fn law_names_are_path_segments(s: Seq<char>)
    ensures
        token_ok(s) <==> s.len() > 0 && !s.contains('/') && !s.contains('\\') && s != "."@ && s != ".."@ && (forall|i: int|
            0 <= i < s.len() ==> !text::is_white_space(#[trigger] s[i])),
{
}

/// A request is accepted exactly where its relation has a name, it names a galaxy,
/// and every galaxy it names is a name.
pub proof fn law_accepted_requests(s: PorteeSpec)
    ensures
        well_formed_request(s) <==> token_ok(
            text::trimmed(
                if s.portee_id is Some {
                    (s.portee_id->0)@
                } else {
                    s.partner.sub@
                },
            ),
        ) && s.galaxies@.len() > 0 && (forall|i: int|
            0 <= i < s.galaxies@.len() ==> token_ok(text::trimmed((#[trigger] s.galaxies@[i])@))),
{
    assert forall|i: int| 0 <= i < s.galaxies@.len() implies trimmed_all(s.galaxies@)[i] == text::trimmed(
        (#[trigger] s.galaxies@[i])@,
    ) by {}
    if forall|i: int| 0 <= i < s.galaxies@.len() ==> token_ok(text::trimmed((#[trigger] s.galaxies@[i])@)) {
        assert forall|i: int| 0 <= i < s.galaxies@.len() implies token_ok(#[trigger] trimmed_all(s.galaxies@)[i]) by {
            assert(token_ok(text::trimmed(s.galaxies@[i]@)));
        }
    }
    if forall|i: int| 0 <= i < s.galaxies@.len() ==> token_ok(#[trigger] trimmed_all(s.galaxies@)[i]) {
        assert forall|i: int| 0 <= i < s.galaxies@.len() implies token_ok(text::trimmed((#[trigger] s.galaxies@[i])@)) by {
            assert(token_ok(trimmed_all(s.galaxies@)[i]));
        }
    }
}

/// A galaxy is pinned to the audience of its name, and a relation has on it the
/// habilitation that is named for both.
pub proof fn law_names_on_a_galaxy(portee_id: Seq<char>, galaxy: Seq<char>)
    ensures
        audience_of(galaxy) == "cosmon-rpp-"@ + galaxy,
        habilitation_of(portee_id, galaxy) == portee_id + "--"@ + galaxy,
        member_for(portee_id, galaxy).galaxy == galaxy,
        member_for(portee_id, galaxy).audience == "cosmon-rpp-"@ + galaxy,
        member_for(portee_id, galaxy).habilitation_id == portee_id + "--"@ + galaxy,
{
}

/// The galaxies of a request are those that it names, without the space around them,
/// each once, and a galaxy that it names again changes nothing.
pub proof fn law_galaxies_of_a_request(s: PorteeSpec, galaxy: Seq<char>)
    ensures
        galaxies_of(s).no_duplicates(),
        galaxies_of(s).contains(galaxy) <==> exists|i: int|
            0 <= i < s.galaxies@.len() && text::trimmed((#[trigger] s.galaxies@[i])@) == galaxy,
{
    let all = trimmed_all(s.galaxies@);
    nucleon_map::law_noyaux_are_distinct_and_complete(all);
    if all.contains(galaxy) {
        let i = choose|i: int| 0 <= i < all.len() && all[i] == galaxy;
        assert(text::trimmed(s.galaxies@[i]@) == galaxy);
    }
    if exists|i: int| 0 <= i < s.galaxies@.len() && text::trimmed((#[trigger] s.galaxies@[i])@) == galaxy {
        let i = choose|i: int| 0 <= i < s.galaxies@.len() && text::trimmed((#[trigger] s.galaxies@[i])@) == galaxy;
        assert(all[i] == galaxy);
    }
}

/// The binding of a galaxy lets the partner in, by issuer and subject, into the noyau
/// of the galaxy's name, for the galaxy's audience and with the scopes of the request.
pub proof fn law_bindings_of_a_federation(s: PorteeSpec, portee_id: Seq<char>, galaxy: Seq<char>)
    ensures
        ({
            let b = binding_for(s, portee_id, galaxy);
            &&& b.noyau == galaxy
            &&& b.issuer == s.partner.issuer@
            &&& b.sub == s.partner.sub@
            &&& b.audience == "cosmon-rpp-"@ + galaxy
            &&& b.nucleon_id == Some(portee_id + "--"@ + galaxy)
            &&& b.phase is None
            &&& b.scopes == text::views(s.scopes@)
            &&& s.created_at matches Some(at) ==> b.sealed_at == Some(at@)
            &&& s.created_at is None ==> b.sealed_at is None
        }),
{
}

/// A galaxy whose binding is in place becomes a member unless it is one, is noted as
/// new where its noyau is, leaves the step that undoes its write, and hands over to
/// the next; nothing else of the federation changes.
pub proof fn law_galaxies_take_their_turn(f: FederationView, step: StepView)
    requires
        0 <= f.done < f.galaxies.len(),
    ensures
        ({
            let galaxy = f.galaxies[f.done];
            let next = provisioned(f, step);
            let known = exists|i: int| 0 <= i < f.members.len() && (#[trigger] f.members[i]).galaxy == galaxy;
            &&& next.portee_id == f.portee_id
            &&& next.galaxies == f.galaxies
            &&& next.done == f.done + 1
            &&& known ==> next.members == f.members
            &&& !known ==> next.members == f.members.push(
                MemberView {
                    galaxy,
                    audience: "cosmon-rpp-"@ + galaxy,
                    habilitation_id: f.portee_id + "--"@ + galaxy,
                },
            )
            &&& step.undo matches Some(u) ==> next.undo == f.undo.push(u)
            &&& step.undo is None ==> next.undo == f.undo
            &&& step.noyau_created ==> next.galaxies_created == f.galaxies_created.push(galaxy)
            &&& !step.noyau_created ==> next.galaxies_created == f.galaxies_created
        }),
{
}

/// A list of relations shows each record that could be read, in order and as it is,
/// and passes over the others.
pub proof fn law_readable_relations(name: String, m: PorteeManifest, rest: Seq<(String, Option<PorteeManifest>)>)
    ensures
        readable(Seq::empty()).len() == 0,
        readable(seq![(name, None::<PorteeManifest>)] + rest) == readable(rest),
        readable(seq![(name, Some(m))] + rest).len() == readable(rest).len() + 1,
        readable(seq![(name, Some(m))] + rest)[0].portee_id == m.portee_id,
        readable(seq![(name, Some(m))] + rest)[0].partner == m.partner,
        readable(seq![(name, Some(m))] + rest)[0].scopes == m.scopes,
        readable(seq![(name, Some(m))] + rest)[0].members == m.members,
        readable(seq![(name, Some(m))] + rest)[0].created_at == m.created_at,
        readable(seq![(name, Some(m))] + rest).skip(1) == readable(rest),
{
    let dark = seq![(name, None::<PorteeManifest>)] + rest;
    let lit = seq![(name, Some(m))] + rest;
    assert(dark.skip(1) =~= rest);
    assert(lit.skip(1) =~= rest);
    assert(lit[0] == (name, Some(m)) && dark[0] == (name, None::<PorteeManifest>));
    assert(readable(lit).skip(1) =~= readable(rest));
}

/// Every yes counts once.
pub proof fn law_yeses_count(v: Seq<bool>)
    ensures
        yes_count(Seq::empty()) == 0,
        yes_count(v.push(true)) == yes_count(v) + 1,
        yes_count(v.push(false)) == yes_count(v),
{
    assert(v.push(true).drop_last() =~= v);
    assert(v.push(false).drop_last() =~= v);
}

/// Members and steps back are seen as they are, in order.
pub proof fn law_members_are_seen(v: Seq<PorteeMember>, undo: Seq<Undo>, i: int)
    ensures
        member_views(v).len() == v.len(),
        0 <= i < v.len() ==> member_views(v)[i].galaxy == v[i].galaxy@ && member_views(v)[i].audience == v[i].audience@
            && member_views(v)[i].habilitation_id == v[i].habilitation_id@,
        undo_views(undo).len() == undo.len(),
        0 <= i < undo.len() ==> undo_views(undo)[i].habilitation_id == undo[i].habilitation_id@,
        0 <= i < undo.len() && undo[i].restore is Some ==> undo_views(undo)[i].restore == Some((undo[i].restore->0)@),
        0 <= i < undo.len() && undo[i].restore is None ==> undo_views(undo)[i].restore is None,
        0 <= i < undo.len() ==> undo_view(Some(undo[i])) == Some(undo_views(undo)[i]),
        undo_view(None) is None,
{
}

/// A relation is shown with what its manifest says, field by field.
pub proof fn law_manifests_are_shown(m: PorteeManifest)
    ensures
        ({
            let v = <PorteeView as vstd::std_specs::convert::FromSpec<PorteeManifest>>::from_spec(m);
            &&& v.portee_id == m.portee_id
            &&& v.partner == m.partner
            &&& v.scopes == m.scopes
            &&& v.members == m.members
            &&& v.created_at == m.created_at
        }),
{
}

} // verus!
