//! Provisioning one habilitation: what is checked, in which order, before a
//! binding file is written and the map that holds it is published.
//!
//! The steps that touch the disk are the caller's; each step here takes what the
//! disk said and tells what comes next.

use vstd::prelude::*;
use crate::digest::blake3_hex;
use crate::error;
use crate::error::ApiError;
use crate::keyed::KeyView;
use crate::nucleon_map;
use crate::nucleon_map::{
    build_binding, HabilitationBindingSpec, HabilitationMap, OidcIdentity, RenderError, ResolvedView,
};
use crate::paths;
use crate::paths::{is_one_segment, join};
use crate::text::same_text;

verus! {

/// What came of a provisioning request.
#[derive(Clone, Debug)]
pub struct ProvisionOutcome {
    pub created: bool,
    pub noyau_created: bool,
    pub habilitation_id: String,
    pub noyau: String,
    pub binding_path: String,
    pub seal: String,
}

impl ProvisionOutcome {
    /// `201` for a fresh binding, `200` for one that was there.
    pub fn status_code(&self) -> (r: u16)
        ensures
            r == if self.created {
                201u16
            } else {
                200u16
            },
    {
        if self.created {
            201
        } else {
            200
        }
    }
}

/// The outcome for a binding and its file.
pub open spec fn reports(
    out: ProvisionOutcome,
    id: OidcIdentity,
    body: Seq<char>,
    path: Seq<char>,
    created: bool,
    noyau_created: bool,
) -> bool {
    &&& out.created == created
    &&& out.noyau_created == noyau_created
    &&& out.habilitation_id@ == id.nucleon_id@
    &&& out.noyau@ == id.noyau@
    &&& out.binding_path@ == path
    &&& out.seal@ == nucleon_map::seal_of(body)
}

/// The file that holds the binding of a habilitation.
pub open spec fn binding_path_of(state_dir: Seq<char>, id: Seq<char>) -> Seq<char> {
    paths::joined(paths::joined(paths::joined(state_dir, "nucleons"@), id), "oidc-identity.toml"@)
}

/// Where the binding of a habilitation lies.
pub fn binding_path(state_dir: &str, habilitation_id: &str) -> (r: String)
    ensures
        r@ == binding_path_of(state_dir@, habilitation_id@),
{
    let root = join(state_dir, "nucleons");
    let dir = join(root.as_str(), habilitation_id);
    join(dir.as_str(), "oidc-identity.toml")
}

/// Every rendering fault is the caller's: `400 malformed_binding`.
pub fn render_to_api(e: &RenderError) -> (r: ApiError)
    ensures
        r == error::refusal(400, "malformed_binding"),
{
    ApiError::with_status(400, "malformed_binding")
}

/// Validates a request.
pub fn check_request(spec: &HabilitationBindingSpec) -> (r: Result<OidcIdentity, ApiError>)
    ensures
        match r {
            Ok(id) => nucleon_map::rendered_binding(spec@) == Ok::<
                nucleon_map::OidcIdentityView,
                nucleon_map::RenderErrorView,
            >(id@),
            Err(e) => nucleon_map::rendered_binding(spec@) is Err && e == error::refusal(400, "malformed_binding"),
        },
{
    match build_binding(spec) {
        Ok(id) => Ok(id),
        Err(e) => Err(render_to_api(&e)),
    }
}

/// The triple is already bound, to another noyau.
pub open spec fn rebinds(m: Map<KeyView, ResolvedView>, id: OidcIdentity) -> bool {
    let k = nucleon_map::identity_key(id);
    m.contains_key(k) && m[k].noyau != id.noyau@
}

/// The map resolves the triple of the binding to its noyau.
pub open spec fn resolves_to(m: Map<KeyView, ResolvedView>, id: OidcIdentity) -> bool {
    let k = nucleon_map::identity_key(id);
    m.contains_key(k) && m[k].noyau == id.noyau@
}

/// A request that passed validation and the conflict check.
pub struct Provisioning {
    pub identity: OidcIdentity,
    pub body: String,
    pub existed: bool,
}

/// What stands at the binding's path: the text of the file where it can be read,
/// and what it parses to where it does.
#[derive(Clone, Debug)]
pub struct PriorFile {
    pub text: Option<String>,
    pub parsed: Option<OidcIdentity>,
}

/// The file holds the binding of another triple.
pub open spec fn other_binding(prior: PriorFile, id: OidcIdentity) -> bool {
    &&& prior.text is Some
    &&& prior.parsed is Some
    &&& nucleon_map::identity_key(prior.parsed->0) != nucleon_map::identity_key(id)
}

/// The file already says what would be written.
pub open spec fn already_written(prior: PriorFile, body: Seq<char>) -> bool {
    prior.text is Some && (prior.text->0)@ == body
}

/// What to do once the file at the path is known.
pub enum Weighed {
    /// Nothing: the binding is written and resolves.
    Settled(ProvisionOutcome),
    /// Write the binding.
    Write(PendingWrite),
}

/// A binding that is to be written, with what its file held before.
pub struct PendingWrite {
    pub identity: OidcIdentity,
    pub body: String,
    pub existed: bool,
    pub path: String,
    pub prior: Option<String>,
}

/// A write that is to be undone: the text to put back, or none where the file
/// is to be removed.
pub struct Rollback {
    pub restore: Option<String>,
    pub error: ApiError,
}

/// What puts the binding file of a habilitation back as it was: the text it held,
/// or none where there was no file.
#[derive(Clone, Debug)]
pub struct Undo {
    pub habilitation_id: String,
    pub restore: Option<String>,
}

/// A step back as a mathematical value.
pub struct UndoView {
    pub habilitation_id: Seq<char>,
    pub restore: Option<Seq<char>>,
}

impl View for Undo {
    type V = UndoView;

    open spec fn view(&self) -> UndoView {
        UndoView { habilitation_id: self.habilitation_id@, restore: nucleon_map::optional(self.restore) }
    }
}

/// The binding files, by habilitation, after one step back.
pub open spec fn undone_once(files: Map<Seq<char>, Seq<char>>, step: UndoView) -> Map<Seq<char>, Seq<char>> {
    match step.restore {
        Some(text) => files.insert(step.habilitation_id, text),
        None => files.remove(step.habilitation_id),
    }
}

/// The binding files, by habilitation, after steps back, the first one first.
pub open spec fn undone(files: Map<Seq<char>, Seq<char>>, steps: Seq<UndoView>) -> Map<Seq<char>, Seq<char>>
    decreases steps.len(),
{
    if steps.len() == 0 {
        files
    } else {
        undone(undone_once(files, steps[0]), steps.skip(1))
    }
}

pub open spec fn same_optional(a: Option<String>, b: Option<String>) -> bool {
    match a {
        Some(x) => b is Some && (b->0)@ == x@,
        None => b is None,
    }
}

impl Provisioning {
    /// Checks the binding against the live map. The same triple may not be
    /// pointed at another noyau.
    pub fn open(identity: OidcIdentity, body: String, live: &HabilitationMap) -> (r: Result<Self, ApiError>)
        requires
            live.wf(),
        ensures
            match r {
                Ok(p) => {
                    &&& !rebinds(live.bindings(), identity)
                    &&& p.identity == identity
                    &&& p.body == body
                    &&& p.existed == live.bindings().contains_key(nucleon_map::identity_key(identity))
                },
                Err(e) => rebinds(live.bindings(), identity) && e == error::refusal(
                    409,
                    "cross_noyau_rebind_refused",
                ),
            },
    {
        let existed: bool = match live.resolve_for_audience(
            identity.oidc.issuer.as_str(),
            identity.oidc.sub.as_str(),
            identity.oidc.audience.as_str(),
        ) {
            Some(resolved) => {
                if !same_text(resolved.noyau.as_str(), identity.noyau.as_str()) {
                    return Err(ApiError::with_status(409, "cross_noyau_rebind_refused"));
                }
                true
            },
            None => false,
        };
        Ok(Provisioning { identity, body, existed })
    }

    /// Weighs the file that stands at the path. A file of another triple is never
    /// overwritten; a file that already holds the binding, where the
    /// binding resolves, is left alone.
    pub fn weigh_prior(self, path: &str, prior: &PriorFile) -> (r: Result<Weighed, ApiError>)
        ensures
            match r {
                Err(e) => other_binding(*prior, self.identity) && e == error::refusal(
                    409,
                    "habilitation_id_collision",
                ),
                Ok(Weighed::Settled(out)) => {
                    &&& !other_binding(*prior, self.identity)
                    &&& already_written(*prior, self.body@) && self.existed
                    &&& reports(out, self.identity, self.body@, path@, false, false)
                },
                Ok(Weighed::Write(w)) => {
                    &&& !other_binding(*prior, self.identity)
                    &&& !(already_written(*prior, self.body@) && self.existed)
                    &&& w.identity == self.identity
                    &&& w.body == self.body
                    &&& w.existed == self.existed
                    &&& w.path@ == path@
                    &&& same_optional(w.prior, prior.text)
                },
            },
    {
        match &prior.text {
            Some(file_text) => {
                if let Some(prev) = &prior.parsed {
                    if !same_text(prev.oidc.issuer.as_str(), self.identity.oidc.issuer.as_str()) || !same_text(
                        prev.oidc.sub.as_str(),
                        self.identity.oidc.sub.as_str(),
                    ) || !same_text(prev.oidc.audience.as_str(), self.identity.oidc.audience.as_str()) {
                        return Err(ApiError::with_status(409, "habilitation_id_collision"));
                    }
                }
                if same_text(file_text.as_str(), self.body.as_str()) && self.existed {
                    return Ok(
                        Weighed::Settled(
                            ProvisionOutcome {
                                created: false,
                                noyau_created: false,
                                habilitation_id: self.identity.nucleon_id.clone(),
                                noyau: self.identity.noyau.clone(),
                                binding_path: path.to_owned(),
                                seal: blake3_hex(self.body.as_str().as_bytes()),
                            },
                        ),
                    );
                }
                let restore = file_text.clone();
                Ok(
                    Weighed::Write(
                        PendingWrite {
                            identity: self.identity,
                            body: self.body,
                            existed: self.existed,
                            path: path.to_owned(),
                            prior: Some(restore),
                        },
                    ),
                )
            },
            None => Ok(
                Weighed::Write(
                    PendingWrite {
                        identity: self.identity,
                        body: self.body,
                        existed: self.existed,
                        path: path.to_owned(),
                        prior: None,
                    },
                ),
            ),
        }
    }
}

/// The galaxy tree is materialised where that was asked for and it is absent.
pub fn wants_noyau(create_noyau: bool, exists: bool) -> (r: bool)
    ensures
        r == (create_noyau && !exists),
{
    create_noyau && !exists
}

/// What a binding file that cannot be written or removed is answered with.
pub fn io_fault() -> (r: ApiError)
    ensures
        r == error::refusal(500, "provision_io_error"),
{
    ApiError::with_status(500, "provision_io_error")
}

impl PendingWrite {
    /// What undoes the write: the file goes back to what it held, or goes.
    pub fn undo(&self) -> (r: Undo)
        ensures
            r@ == (UndoView {
                habilitation_id: self.identity.nucleon_id@,
                restore: nucleon_map::optional(self.prior),
            }),
    {
        let restore = match &self.prior {
            Some(text) => Some(text.clone()),
            None => None,
        };
        Undo { habilitation_id: self.identity.nucleon_id.clone(), restore }
    }

    /// Decides over the map that was loaded after the write: it is published
    /// where it resolves the triple to the noyau; otherwise the file goes back
    /// to what it held.
    pub fn settle(self, fresh: Option<&HabilitationMap>, noyau_created: bool) -> (r: Result<
        ProvisionOutcome,
        Rollback,
    >)
        requires
            fresh is Some ==> (fresh->0).wf(),
        ensures
            match r {
                Ok(out) => {
                    &&& fresh is Some
                    &&& resolves_to((fresh->0).bindings(), self.identity)
                    &&& reports(out, self.identity, self.body@, self.path@, !self.existed, noyau_created)
                },
                Err(back) => {
                    &&& fresh is None || !resolves_to((fresh->0).bindings(), self.identity)
                    &&& back.restore == self.prior
                    &&& back.error == error::refusal(503, "reload_failed")
                },
            },
    {
        let resolves: bool = match fresh {
            Some(map) => match map.resolve_for_audience(
                self.identity.oidc.issuer.as_str(),
                self.identity.oidc.sub.as_str(),
                self.identity.oidc.audience.as_str(),
            ) {
                Some(resolved) => same_text(resolved.noyau.as_str(), self.identity.noyau.as_str()),
                None => false,
            },
            None => false,
        };
        if resolves {
            let seal = blake3_hex(self.body.as_str().as_bytes());
            Ok(
                ProvisionOutcome {
                    created: !self.existed,
                    noyau_created,
                    habilitation_id: self.identity.nucleon_id,
                    noyau: self.identity.noyau,
                    binding_path: self.path,
                    seal,
                },
            )
        } else {
            Err(Rollback { restore: self.prior, error: ApiError::with_status(503, "reload_failed") })
        }
    }
}

/// Revoking takes an id that names one directory of the habilitations, and that
/// directory.
pub fn check_revoke(habilitation_id: &str, dir_exists: bool) -> (r: Result<(), ApiError>)
    ensures
        match r {
            Ok(_) => paths::one_segment(habilitation_id@) && dir_exists,
            Err(e) => !(paths::one_segment(habilitation_id@) && dir_exists) && e == error::refusal(
                404,
                "habilitation_not_found",
            ),
        },
{
    if is_one_segment(habilitation_id) && dir_exists {
        Ok(())
    } else {
        Err(ApiError::with_status(404, "habilitation_not_found"))
    }
}

// ---------------------------------------------------------------------------
// Laws
// ---------------------------------------------------------------------------

/// A triple that the live map binds keeps its noyau: a request that passes the
/// conflict check and is published resolves to the noyau that was bound before.
pub proof fn law_no_cross_noyau_rebind(
    live: Map<KeyView, ResolvedView>,
    fresh: Map<KeyView, ResolvedView>,
    id: OidcIdentity,
)
    requires
        live.contains_key(nucleon_map::identity_key(id)),
        !rebinds(live, id),
        resolves_to(fresh, id),
    ensures
        fresh[nucleon_map::identity_key(id)].noyau == live[nucleon_map::identity_key(id)].noyau,
{
}

/// Two galaxies of one principal do not stand in each other's way: a binding for
/// an audience that is not yet bound is never a rebind.
pub proof fn law_new_audience_is_no_rebind(live: Map<KeyView, ResolvedView>, id: OidcIdentity)
    requires
        !live.contains_key(nucleon_map::identity_key(id)),
    ensures
        !rebinds(live, id),
{
}

/// A file that carries the binding resolves it, whatever else is loaded: what is
/// written is what the reload looks for, unless a file read later binds the same
/// triple to another noyau.
pub proof fn law_written_binding_resolves(
    before: Seq<nucleon_map::IdentityFile>,
    file: nucleon_map::IdentityFile,
    after: Seq<nucleon_map::IdentityFile>,
)
    requires
        nucleon_map::carries_binding(file),
        forall|i: int|
            0 <= i < after.len() && nucleon_map::carries_binding(#[trigger] after[i]) && nucleon_map::identity_key(
                after[i].parsed->0,
            ) == nucleon_map::identity_key(file.parsed->0) ==> (after[i].parsed->0).noyau@ == (file.parsed->0).noyau@,
    ensures
        resolves_to(nucleon_map::loaded_bindings(before.push(file) + after), file.parsed->0),
    decreases after.len(),
{
    let files = before.push(file) + after;
    if after.len() == 0 {
        assert(files =~= before.push(file));
        assert(files.drop_last() =~= before);
    } else {
        let rest = after.drop_last();
        assert(files.drop_last() =~= before.push(file) + rest);
        assert(files.last() == after[after.len() - 1]);
        assert forall|i: int|
            0 <= i < rest.len() && nucleon_map::carries_binding(#[trigger] rest[i]) && nucleon_map::identity_key(
                rest[i].parsed->0,
            ) == nucleon_map::identity_key(file.parsed->0) implies (rest[i].parsed->0).noyau@ == (file.parsed->0).noyau@ by {
            assert(rest[i] == after[i]);
        }
        law_written_binding_resolves(before, file, rest);
    }
}

/// Provisioning is idempotent: where a binding was written and published, asking
/// for it again finds no conflict, finds the triple bound and the file as it would
/// be written, and so settles without a write.
pub proof fn law_provisioning_is_idempotent(fresh: Map<KeyView, ResolvedView>, id: OidcIdentity, prior: PriorFile, body: Seq<char>)
    requires
        resolves_to(fresh, id),
        prior.text is Some,
        (prior.text->0)@ == body,
        prior.parsed matches Some(read) ==> nucleon_map::identity_key(read) == nucleon_map::identity_key(id),
    ensures
        !rebinds(fresh, id),
        fresh.contains_key(nucleon_map::identity_key(id)),
        !other_binding(prior, id),
        already_written(prior, body),
{
}

/// The files at a place that holds one file or none.
pub open spec fn held(old: Option<nucleon_map::IdentityFile>) -> Seq<nucleon_map::IdentityFile> {
    match old {
        Some(f) => seq![f],
        None => Seq::empty(),
    }
}

/// Two maps bind the same triples alike, but for one.
spec fn alike_but(a: Map<KeyView, ResolvedView>, b: Map<KeyView, ResolvedView>, k: KeyView) -> bool {
    forall|other: KeyView| #![trigger a.contains_key(other)] #![trigger b.contains_key(other)]
        other != k ==> a.contains_key(other) == b.contains_key(other) && (a.contains_key(other) ==> a[other] == b[other])
}

proof fn lemma_more_files(
    a: Seq<nucleon_map::IdentityFile>,
    b: Seq<nucleon_map::IdentityFile>,
    more: Seq<nucleon_map::IdentityFile>,
    k: KeyView,
)
    requires
        alike_but(nucleon_map::loaded_bindings(a), nucleon_map::loaded_bindings(b), k),
        nucleon_map::loaded_bindings(b).contains_key(k),
    ensures
        ({
            let x = nucleon_map::loaded_bindings(a + more);
            let y = nucleon_map::loaded_bindings(b + more);
            &&& alike_but(x, y, k)
            &&& y.contains_key(k)
            &&& (x.contains_key(k) && x[k] == y[k]) || y[k] == nucleon_map::loaded_bindings(b)[k]
        }),
    decreases more.len(),
{
    if more.len() == 0 {
        assert(a + more =~= a);
        assert(b + more =~= b);
    } else {
        lemma_more_files(a, b, more.drop_last(), k);
        assert((a + more).drop_last() =~= a + more.drop_last());
        assert((b + more).drop_last() =~= b + more.drop_last());
        assert((a + more).last() == more.last());
        assert((b + more).last() == more.last());
    }
}

/// Provisioning only adds. Where a binding that passes the conflict check is
/// written, into a place that is free, that holds no binding, or that holds one of
/// the same triple, every triple that resolved before still resolves to the same
/// noyau, every other triple to the same binding, and the new triple resolves.
pub proof fn law_provisioning_only_adds(
    before: Seq<nucleon_map::IdentityFile>,
    old: Option<nucleon_map::IdentityFile>,
    file: nucleon_map::IdentityFile,
    after: Seq<nucleon_map::IdentityFile>,
)
    requires
        nucleon_map::carries_binding(file),
        old matches Some(f) ==> !other_binding((PriorFile { text: f.text, parsed: f.parsed }), file.parsed->0),
        !rebinds(nucleon_map::loaded_bindings(before + held(old) + after), file.parsed->0),
    ensures
        ({
            let k = nucleon_map::identity_key(file.parsed->0);
            let live = nucleon_map::loaded_bindings(before + held(old) + after);
            let fresh = nucleon_map::loaded_bindings(before.push(file) + after);
            &&& resolves_to(fresh, file.parsed->0)
            &&& forall|t: KeyView| #[trigger]
                live.contains_key(t) ==> fresh.contains_key(t) && fresh[t].noyau == live[t].noyau
            &&& forall|t: KeyView|
                t != k && #[trigger] live.contains_key(t) ==> fresh.contains_key(t) && fresh[t] == live[t]
            &&& forall|t: KeyView| t != k && #[trigger] fresh.contains_key(t) ==> live.contains_key(t)
        }),
{
    let id = file.parsed->0;
    let k = nucleon_map::identity_key(id);
    let a = before + held(old);
    let b = before.push(file);
    assert(b.drop_last() =~= before);
    assert(b.last() == file);
    match old {
        Some(f) => {
            assert(a.drop_last() =~= before);
            assert(a.last() == f);
        },
        None => {
            assert(a =~= before);
        },
    }
    assert(alike_but(nucleon_map::loaded_bindings(a), nucleon_map::loaded_bindings(b), k));
    lemma_more_files(a, b, after, k);
    let live = nucleon_map::loaded_bindings(a + after);
    let fresh = nucleon_map::loaded_bindings(b + after);
    assert(nucleon_map::loaded_bindings(b)[k].noyau == id.noyau@);
    assert(fresh[k].noyau == id.noyau@);
    assert forall|t: KeyView| #[trigger] live.contains_key(t) implies fresh.contains_key(t) && fresh[t].noyau
        == live[t].noyau by {
        if t != k {
            assert(live[t] == fresh[t]);
        }
    }
}

/// A binding lies under its habilitation, in the directory of the habilitations.
pub proof fn law_bindings_lie_under_their_habilitation(state_dir: Seq<char>, id: Seq<char>)
    requires
        state_dir.len() > 0,
        state_dir.last() != '/',
        id.len() > 0,
        !id.contains('/'),
    ensures
        binding_path_of(state_dir, id) == state_dir + "/nucleons/"@ + id + "/oidc-identity.toml"@,
{
    reveal_strlit("nucleons");
    reveal_strlit("/nucleons/");
    reveal_strlit("oidc-identity.toml");
    reveal_strlit("/oidc-identity.toml");
    assert(id.contains(id[0]) && id.contains(id.last()));
    let a = paths::joined(state_dir, "nucleons"@);
    assert(a =~= state_dir + seq!['/'] + "nucleons"@);
    assert(a.last() == 's');
    let b = paths::joined(a, id);
    assert(b =~= a + seq!['/'] + id);
    assert(b.last() == id.last());
    assert(binding_path_of(state_dir, id) =~= state_dir + "/nucleons/"@ + id + "/oidc-identity.toml"@);
}

/// A triple that is bound to another noyau is not bound again; one that is bound to
/// the same noyau, or not at all, may be.
pub proof fn law_rebinding(m: Map<KeyView, ResolvedView>, id: OidcIdentity)
    ensures
        ({
            let k = nucleon_map::identity_key(id);
            &&& !m.contains_key(k) ==> !rebinds(m, id) && !resolves_to(m, id)
            &&& m.contains_key(k) && m[k].noyau == id.noyau@ ==> !rebinds(m, id) && resolves_to(m, id)
            &&& m.contains_key(k) && m[k].noyau != id.noyau@ ==> rebinds(m, id) && !resolves_to(m, id)
        }),
{
}

/// A file is another's where it holds the binding of another triple, in any of its
/// three parts; one that is missing or cannot be read is nobody's.
pub proof fn law_files_of_others(prior: PriorFile, id: OidcIdentity, body: Seq<char>)
    ensures
        prior.text is None || prior.parsed is None ==> !other_binding(prior, id),
        prior.text is Some && prior.parsed is Some ==> (other_binding(prior, id) <==> (prior.parsed->0).oidc.issuer@
            != id.oidc.issuer@ || (prior.parsed->0).oidc.sub@ != id.oidc.sub@ || (prior.parsed->0).oidc.audience@
            != id.oidc.audience@),
        already_written(prior, body) <==> prior.text is Some && (prior.text->0)@ == body,
{
}

/// An outcome tells what was made, where, for whom, and under which seal.
pub proof fn law_outcomes_tell_what_was_made(
    out: ProvisionOutcome,
    id: OidcIdentity,
    body: Seq<char>,
    path: Seq<char>,
    created: bool,
    noyau_created: bool,
)
    ensures
        reports(out, id, body, path, created, noyau_created) <==> out.created == created && out.noyau_created
            == noyau_created && out.habilitation_id@ == id.nucleon_id@ && out.noyau@ == id.noyau@ && out.binding_path@ == path
            && out.seal@ == nucleon_map::seal_of(body),
{
}

/// A step back puts the earlier text where it stood, or takes away what was not there,
/// and touches no other file; steps are taken one after the other.
pub proof fn law_steps_back(files: Map<Seq<char>, Seq<char>>, step: UndoView, rest: Seq<UndoView>, other: Seq<char>)
    ensures
        step.restore matches Some(t) ==> undone_once(files, step) == files.insert(step.habilitation_id, t),
        step.restore is None ==> !undone_once(files, step).contains_key(step.habilitation_id),
        other != step.habilitation_id ==> undone_once(files, step).contains_key(other) == files.contains_key(other) && (
        files.contains_key(other) ==> undone_once(files, step)[other] == files[other]),
        undone(files, Seq::empty()) == files,
        undone(files, seq![step] + rest) == undone(undone_once(files, step), rest),
{
    assert((seq![step] + rest).skip(1) =~= rest);
    assert((seq![step] + rest)[0] == step);
}

/// Two optional texts are the same where both are missing or both say the same.
pub proof fn law_same_optional_texts(a: String, b: String)
    ensures
        same_optional(None, None),
        !same_optional(Some(a), None),
        !same_optional(None, Some(b)),
        same_optional(Some(a), Some(b)) <==> a@ == b@,
{
}

} // verus!
