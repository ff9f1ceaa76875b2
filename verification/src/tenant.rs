//! Where a tenant's state lies, and what is handed to the workers that run for it
//! and told to those who watch it.

use vstd::prelude::*;
use crate::jwt::ValidatedJwt;
use crate::nucleon_map::DrainBounds;
use crate::paths;
use crate::paths::join;
use crate::routes::artifacts::artifact_dir_for;
use crate::text::concat;

verus! {

// ---------------------------------------------------------------------------
// Directories
// ---------------------------------------------------------------------------

/// The root of a noyau.
pub open spec fn root_of(galaxies_root: Seq<char>, noyau: Seq<char>) -> Seq<char> {
    paths::joined(galaxies_root, noyau)
}

/// What a noyau keeps beside its own files.
pub open spec fn cosmon_of(galaxies_root: Seq<char>, noyau: Seq<char>) -> Seq<char> {
    paths::joined(root_of(galaxies_root, noyau), ".cosmon"@)
}

/// The state directory of a noyau.
pub open spec fn state_dir_of(galaxies_root: Seq<char>, noyau: Seq<char>) -> Seq<char> {
    paths::joined(cosmon_of(galaxies_root, noyau), "state"@)
}

/// The directories of a noyau.
#[derive(Clone, Debug)]
pub struct TenantPaths {
    pub root: String,
    pub state_dir: String,
    pub formulas_dir: String,
    pub config_path: String,
}

/// The directories of the noyau that a request was admitted for. Nothing in the
/// request but the admission chooses them.
pub fn tenant_paths(galaxies_root: &str, noyau: &str) -> (r: TenantPaths)
    ensures
        r.root@ == root_of(galaxies_root@, noyau@),
        r.state_dir@ == state_dir_of(galaxies_root@, noyau@),
        r.formulas_dir@ == paths::joined(cosmon_of(galaxies_root@, noyau@), "formulas"@),
        r.config_path@ == paths::joined(cosmon_of(galaxies_root@, noyau@), "config.toml"@),
{
    let root = join(galaxies_root, noyau);
    let cosmon = join(root.as_str(), ".cosmon");
    TenantPaths {
        state_dir: join(cosmon.as_str(), "state"),
        formulas_dir: join(cosmon.as_str(), "formulas"),
        config_path: join(cosmon.as_str(), "config.toml"),
        root,
    }
}

/// The name under which a caller's acts are recorded.
pub fn subject_name(jwt: &ValidatedJwt) -> (r: String)
    ensures
        r@ == "jwt:"@ + jwt.sub@,
{
    concat("jwt:", jwt.sub.as_str())
}

// ---------------------------------------------------------------------------
// Workers
// ---------------------------------------------------------------------------

/// What a worker is started with.
#[derive(Clone, Debug)]
pub struct WorkerEnvelope {
    pub tenant_root: String,
    pub artifact_dir: String,
    pub api_key: Option<String>,
    pub model: Option<String>,
}

/// What the worker of a molecule is started with: the root of its noyau, and the
/// directory of its artifacts, in which alone they are looked for.
pub fn worker_envelope(
    galaxies_root: &str,
    artifact_root: &str,
    noyau: &str,
    molecule_id: &str,
    api_key: &Option<String>,
    model: &Option<String>,
) -> (r: WorkerEnvelope)
    ensures
        r.tenant_root@ == root_of(galaxies_root@, noyau@),
        r.artifact_dir@ == paths::joined(paths::joined(artifact_root@, noyau@), molecule_id@),
        r.api_key == *api_key,
        r.model == *model,
{
    WorkerEnvelope {
        tenant_root: join(galaxies_root, noyau),
        artifact_dir: artifact_dir_for(artifact_root, noyau, molecule_id),
        api_key: api_key.clone(),
        model: model.clone(),
    }
}

// ---------------------------------------------------------------------------
// Events
// ---------------------------------------------------------------------------

/// What is told to those who watch a noyau.
#[derive(Clone, Debug)]
pub enum Notice {
    /// A molecule went from one state to another.
    StateChanged { from: String, to: String },
    /// Something was written to a molecule's log.
    EventAppended { kind: &'static str },
    /// A drain of the molecules under this one began, within these bounds.
    DrainStarted { bounds: DrainBounds },
    /// It ended, for this reason.
    DrainTerminated { reason: String, detail: Option<String> },
}

/// A notice, and the molecule it is about.
#[derive(Clone, Debug)]
pub struct MoleculeNotice {
    pub noyau: String,
    pub molecule_id: String,
    pub notice: Notice,
}

impl MoleculeNotice {
    /// The notice is about this molecule of this noyau.
    pub open spec fn about(self, noyau: Seq<char>, molecule_id: Seq<char>) -> bool {
        self.noyau@ == noyau && self.molecule_id@ == molecule_id
    }
}

/// The molecule went from one state to another.
pub fn state_changed(noyau: &str, molecule_id: &str, from: &str, to: &str) -> (r: MoleculeNotice)
    ensures
        r.about(noyau@, molecule_id@),
        r.notice matches Notice::StateChanged { from: f, to: t } && f@ == from@ && t@ == to@,
{
    MoleculeNotice {
        noyau: noyau.to_owned(),
        molecule_id: molecule_id.to_owned(),
        notice: Notice::StateChanged { from: from.to_owned(), to: to.to_owned() },
    }
}

/// The molecule was made: it comes from no state.
pub fn nucleated(noyau: &str, molecule_id: &str, status: &str) -> (r: MoleculeNotice)
    ensures
        r.about(noyau@, molecule_id@),
        r.notice matches Notice::StateChanged { from, to } && from@ == ""@ && to@ == status@,
{
    state_changed(noyau, molecule_id, "", status)
}

/// The molecule was tackled: with no live worker before, it was pending.
pub fn tackled(noyau: &str, molecule_id: &str) -> (r: MoleculeNotice)
    ensures
        r.about(noyau@, molecule_id@),
        r.notice matches Notice::StateChanged { from, to } && from@ == "pending"@ && to@ == "running"@,
{
    state_changed(noyau, molecule_id, "pending", "running")
}

/// The molecule's tags changed, which is no change of its state.
pub fn tagged(noyau: &str, molecule_id: &str) -> (r: MoleculeNotice)
    ensures
        r.about(noyau@, molecule_id@),
        r.notice matches Notice::EventAppended { kind } && kind@ == "tag"@,
{
    MoleculeNotice {
        noyau: noyau.to_owned(),
        molecule_id: molecule_id.to_owned(),
        notice: Notice::EventAppended { kind: "tag" },
    }
}

/// A drain of the molecules under this one began.
pub fn drain_started(noyau: &str, root_id: &str, bounds: DrainBounds) -> (r: MoleculeNotice)
    ensures
        r.about(noyau@, root_id@),
        r.notice == (Notice::DrainStarted { bounds }),
{
    MoleculeNotice { noyau: noyau.to_owned(), molecule_id: root_id.to_owned(), notice: Notice::DrainStarted { bounds } }
}

/// How a drain ended, as the loop says.
#[derive(Clone, Debug)]
pub struct DrainOutcome {
    pub reason: String,
    pub detail: Option<String>,
}

/// The drain ended: for the reason that the loop gave, and as an error where the
/// loop was lost.
pub fn drain_terminated(noyau: &str, root_id: &str, outcome: Option<DrainOutcome>) -> (r: MoleculeNotice)
    ensures
        r.about(noyau@, root_id@),
        match outcome {
            Some(o) => r.notice == (Notice::DrainTerminated { reason: o.reason, detail: o.detail }),
            None => r.notice matches Notice::DrainTerminated { reason, detail } && reason@ == "error"@ && detail is None,
        },
{
    let notice = match outcome {
        Some(o) => Notice::DrainTerminated { reason: o.reason, detail: o.detail },
        None => Notice::DrainTerminated { reason: "error".to_owned(), detail: None },
    };
    MoleculeNotice { noyau: noyau.to_owned(), molecule_id: root_id.to_owned(), notice }
}

// ---------------------------------------------------------------------------
// Laws
// ---------------------------------------------------------------------------

/// Two noyaux whose names are single segments share neither a root nor a state
/// directory.
pub proof fn law_noyaux_lie_apart(galaxies_root: Seq<char>, a: Seq<char>, b: Seq<char>)
    requires
        a != b,
        a.len() > 0,
        b.len() > 0,
        !a.contains('/'),
        !b.contains('/'),
    ensures
        root_of(galaxies_root, a) != root_of(galaxies_root, b),
        state_dir_of(galaxies_root, a) != state_dir_of(galaxies_root, b),
{
    let lead = if galaxies_root.len() == 0 || galaxies_root.last() == '/' {
        galaxies_root
    } else {
        galaxies_root + seq!['/']
    };
    let tail = seq!['/'] + ".cosmon"@ + seq!['/'] + "state"@;
    assert forall|n: Seq<char>| n.len() > 0 && !n.contains('/') implies root_of(galaxies_root, n) == lead + n
        && #[trigger] state_dir_of(galaxies_root, n) == lead + n + tail by {
        assert(n.contains(n[0]));
        assert(n.contains(n.last()));
        reveal_strlit(".cosmon");
        reveal_strlit("state");
        assert((lead + n).last() == n.last());
        assert(root_of(galaxies_root, n) =~= lead + n);
        let cosmon = lead + n + seq!['/'] + ".cosmon"@;
        assert(cosmon_of(galaxies_root, n) =~= cosmon);
        assert(cosmon.last() == ".cosmon"@[6]);
        assert(state_dir_of(galaxies_root, n) =~= lead + n + tail);
    }
    assert(state_dir_of(galaxies_root, a) == lead + a + tail);
    assert(state_dir_of(galaxies_root, b) == lead + b + tail);
    if lead + a == lead + b {
        assert(a =~= (lead + a).skip(lead.len() as int));
        assert(b =~= (lead + b).skip(lead.len() as int));
    }
    if lead + a + tail == lead + b + tail {
        assert((lead + a + tail).len() == (lead + b + tail).len());
        assert(a =~= (lead + a + tail).subrange(lead.len() as int, (lead.len() + a.len()) as int));
        assert(b =~= (lead + b + tail).subrange(lead.len() as int, (lead.len() + b.len()) as int));
    }
}

/// Where a noyau lies: below the root of the galaxies under its own name, and its
/// state below that.
pub proof fn law_noyaux_lie_under_their_name(root: Seq<char>, noyau: Seq<char>)
    requires
        root.len() > 0,
        root.last() != '/',
        noyau.len() > 0,
        !noyau.contains('/'),
    ensures
        root_of(root, noyau) == root + seq!['/'] + noyau,
        cosmon_of(root, noyau) == root + seq!['/'] + noyau + "/.cosmon"@,
        state_dir_of(root, noyau) == root + seq!['/'] + noyau + "/.cosmon/state"@,
{
    reveal_strlit(".cosmon");
    reveal_strlit("state");
    reveal_strlit("/.cosmon");
    reveal_strlit("/.cosmon/state");
    assert(noyau.contains(noyau[0]) && noyau.contains(noyau.last()));
    let r = root + seq!['/'] + noyau;
    assert(root_of(root, noyau) =~= r);
    assert(r.last() == noyau.last());
    assert(cosmon_of(root, noyau) =~= r + "/.cosmon"@);
    assert((r + "/.cosmon"@).last() == 'n');
    assert(state_dir_of(root, noyau) =~= r + "/.cosmon/state"@);
}

/// A notice is about the molecule and the noyau that it names.
pub proof fn law_notices_name_their_molecule(n: MoleculeNotice, noyau: Seq<char>, molecule_id: Seq<char>)
    ensures
        n.about(noyau, molecule_id) <==> n.noyau@ == noyau && n.molecule_id@ == molecule_id,
{
}

} // verus!
