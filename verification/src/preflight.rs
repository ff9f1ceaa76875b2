//! What must hold before a worker is started: a credential it can use, or a
//! backend that can serve it.

use vstd::prelude::*;
use crate::text;
use crate::text::{concat, list_contains, same_text, without_trailing};

verus! {

/// Why a worker is not started.
#[derive(Clone, Debug)]
pub enum PreflightRefusal {
    WorkerCredentialMissing { adapter: String, detail: String, remedy: String },
    AdapterBackendUnreachable { adapter: String, detail: String },
}

pub open spec fn refusal_label(r: PreflightRefusal) -> Seq<char> {
    match r {
        PreflightRefusal::WorkerCredentialMissing { .. } => "worker_credential_missing"@,
        PreflightRefusal::AdapterBackendUnreachable { .. } => "adapter_backend_unreachable"@,
    }
}

impl PreflightRefusal {
    /// The stable label on the wire.
    pub fn label(&self) -> (r: &'static str)
        ensures
            r@ == refusal_label(*self),
    {
        match self {
            PreflightRefusal::WorkerCredentialMissing { .. } => "worker_credential_missing",
            PreflightRefusal::AdapterBackendUnreachable { .. } => "adapter_backend_unreachable",
        }
    }
}

/// What an adapter needs before it is started.
#[derive(Clone, Copy, Debug, PartialEq, Eq, Structural)]
pub enum Precondition {
    Credential,
    Backend,
    Nothing,
}

/// What an adapter needs, where the adapters in `credentialed` start workers of
/// a vendor that asks for a login.
pub open spec fn precondition_for(adapter: Seq<char>, credentialed: Seq<String>) -> Precondition {
    if text::lists(credentialed, adapter) {
        Precondition::Credential
    } else if adapter == "local"@ || adapter == "ollama"@ {
        Precondition::Backend
    } else {
        Precondition::Nothing
    }
}

/// What an adapter needs before it is started. A login is asked for before a
/// backend is.
pub fn precondition_of(adapter: &str, credentialed: &Vec<String>) -> (r: Precondition)
    ensures
        r == precondition_for(adapter@, credentialed@),
{
    if list_contains(credentialed, adapter) {
        Precondition::Credential
    } else if same_text(adapter, "local") || same_text(adapter, "ollama") {
        Precondition::Backend
    } else {
        Precondition::Nothing
    }
}

/// What is to be looked at before a worker is started.
#[derive(Clone, Debug)]
pub enum Probe {
    /// The credentials file that the deployment declares.
    DeclaredCredentials { path: String },
    /// What the worker's environment leads to.
    WorkerCredentials,
    /// The backend at this address.
    Backend { base_url: String },
    Nothing,
}

/// What is to be looked at: for a credential the declared file where there is
/// one, for a backend its address where the tenant declared one.
pub fn check(
    adapter: &str,
    credentialed: &Vec<String>,
    credentials_path: &Option<String>,
    base_url: &Option<String>,
) -> (r: Probe)
    ensures
        match precondition_for(adapter@, credentialed@) {
            Precondition::Credential => match *credentials_path {
                Some(p) => r matches Probe::DeclaredCredentials { path } && path@ == p@,
                None => r is WorkerCredentials,
            },
            Precondition::Backend => match *base_url {
                Some(u) => r matches Probe::Backend { base_url: b } && b@ == u@,
                None => r is Nothing,
            },
            Precondition::Nothing => r is Nothing,
        },
{
    match precondition_of(adapter, credentialed) {
        Precondition::Credential => match credentials_path {
            Some(p) => Probe::DeclaredCredentials { path: p.clone() },
            None => Probe::WorkerCredentials,
        },
        Precondition::Backend => match base_url {
            Some(u) => Probe::Backend { base_url: u.clone() },
            None => Probe::Nothing,
        },
        Precondition::Nothing => Probe::Nothing,
    }
}

/// What the caller is told to do about a missing login of a vendor.
pub open spec fn login_remedy(vendor: Seq<char>, adapter: Seq<char>) -> Seq<char> {
    "Complete the "@ + vendor + " login on this instance (`cs-remote login "@ + adapter
        + "`, or the operator flow that writes the credentials file), then retry the dispatch. `GET /v1/auth/me` reports the same verdict under `claude_credentials_status`."@
}

/// The verdict on the declared credentials file: started only where it is usable.
pub fn check_declared_credentials(adapter: &str, vendor: &str, path: &str, usable: bool, verdict: &str) -> (r: Result<
    (),
    PreflightRefusal,
>)
    ensures
        match r {
            Ok(_) => usable,
            Err(e) => !usable && (e matches PreflightRefusal::WorkerCredentialMissing { adapter: a, detail, remedy } && a@
                == adapter@ && detail@ == "the credentials file this deployment declares is "@ + verdict@ + " ("@ + path@
                + ")"@ && remedy@ == login_remedy(vendor@, adapter@)),
        },
{
    if usable {
        return Ok(());
    }
    let mut detail: String = "the credentials file this deployment declares is ".to_owned();
    detail.push_str(verdict);
    detail.push_str(" (");
    detail.push_str(path);
    detail.push_str(")");
    let mut remedy: String = "Complete the ".to_owned();
    remedy.push_str(vendor);
    remedy.push_str(" login on this instance (`cs-remote login ");
    remedy.push_str(adapter);
    remedy.push_str(
        "`, or the operator flow that writes the credentials file), then retry the dispatch. `GET /v1/auth/me` reports the same verdict under `claude_credentials_status`.",
    );
    Err(PreflightRefusal::WorkerCredentialMissing { adapter: adapter.to_owned(), detail, remedy })
}

/// Why a worker would find no login that it can use.
#[derive(Clone, Debug)]
pub struct LoginFault {
    pub detail: String,
    pub remedy: String,
}

/// The verdict on the login that a worker's own environment leads to: started
/// only where one was found.
pub fn check_worker_credential(adapter: &str, found: &Option<LoginFault>) -> (r: Result<(), PreflightRefusal>)
    ensures
        match *found {
            None => r is Ok,
            Some(fault) => r matches Err(PreflightRefusal::WorkerCredentialMissing { adapter: a, detail, remedy }) && a@
                == adapter@ && detail@ == fault.detail@ && remedy@ == fault.remedy@,
        },
{
    match found {
        None => Ok(()),
        Some(fault) => Err(
            PreflightRefusal::WorkerCredentialMissing {
                adapter: adapter.to_owned(),
                detail: fault.detail.clone(),
                remedy: fault.remedy.clone(),
            },
        ),
    }
}

/// The value of a variable: that of the first with the name.
pub open spec fn value_in(env: Seq<(String, String)>, key: Seq<char>) -> Option<Seq<char>>
    decreases env.len(),
{
    if env.len() == 0 {
        None
    } else if env[0].0@ == key {
        Some(env[0].1@)
    } else {
        value_in(env.skip(1), key)
    }
}

/// The value of a variable in the environment that a worker will see.
pub fn lookup_env(worker_env: &Vec<(String, String)>, key: &str) -> (r: Option<String>)
    ensures
        crate::nucleon_map::optional(r) == value_in(worker_env@, key@),
{
    let mut i: usize = 0;
    assert(worker_env@.skip(0) =~= worker_env@);
    while i < worker_env.len()
        invariant
            i <= worker_env@.len(),
            value_in(worker_env@, key@) == value_in(worker_env@.skip(i as int), key@),
        decreases worker_env@.len() - i,
    {
        assert(worker_env@.skip(i as int)[0] == worker_env@[i as int]);
        if same_text(worker_env[i].0.as_str(), key) {
            return Some(worker_env[i].1.clone());
        }
        assert(worker_env@.skip(i as int).skip(1) =~= worker_env@.skip(i + 1));
        i += 1;
    }
    None
}

/// Where a backend lists its models.
pub fn models_url(base_url: &str) -> (r: String)
    ensures
        r@ == text::trim_end_char(base_url@, '/') + "/v1/models"@,
{
    let base = without_trailing(base_url, '/');
    concat(base.as_str(), "/v1/models")
}

/// What a look at a backend found.
#[derive(Clone, Debug)]
pub enum ProbeOutcome {
    /// The look could not be started.
    NoRuntime { error: String },
    /// No client could be made.
    NoClient { error: String },
    /// The backend did not answer.
    NoAnswer { error: String },
    /// It answered with this status, which is no success.
    Refused { status: String },
    /// Its list of models could not be read.
    Unreadable { error: String },
    /// It serves these models.
    Models(Vec<String>),
}

pub open spec fn joined_with_commas(v: Seq<Seq<char>>) -> Seq<char>
    decreases v.len(),
{
    if v.len() == 0 {
        Seq::empty()
    } else if v.len() == 1 {
        v[0]
    } else {
        joined_with_commas(v.drop_last()) + ", "@ + v.last()
    }
}

fn join_with_commas(v: &Vec<String>) -> (r: String)
    ensures
        r@ == joined_with_commas(text::views(v@)),
{
    let ghost all = text::views(v@);
    let mut out: String = String::new();
    let mut i: usize = 0;
    assert(all.take(0) =~= Seq::<Seq<char>>::empty());
    while i < v.len()
        invariant
            i <= v@.len(),
            all == text::views(v@),
            out@ == joined_with_commas(all.take(i as int)),
        decreases v@.len() - i,
    {
        proof {
            assert(all.take(i + 1).drop_last() =~= all.take(i as int));
            assert(all.take(i + 1).last() == v@[i as int]@);
        }
        if i > 0 {
            out.push_str(", ");
        }
        out.push_str(v[i].as_str());
        proof {
            if i == 0 {
                assert(all.take(1)[0] == v@[0]@);
                assert(out@ =~= v@[0]@);
            }
        }
        i += 1;
    }
    assert(all.take(i as int) =~= all);
    out
}

/// What is said of the models that a backend serves.
pub open spec fn served_text(models: Seq<Seq<char>>) -> Seq<char> {
    if models.len() == 0 {
        "it serves no models at all — none have been pulled"@
    } else {
        "it serves: "@ + joined_with_commas(models)
    }
}

/// Why a backend cannot serve; none where it can. Without a model that is asked
/// for, an answer is enough.
pub open spec fn backend_fault(base_url: Seq<char>, model: Option<Seq<char>>, outcome: ProbeOutcome) -> Option<Seq<char>> {
    match outcome {
        ProbeOutcome::NoRuntime { error } => Some("could not build the probe runtime: "@ + error@),
        ProbeOutcome::NoClient { error } => Some("http client build failed: "@ + error@),
        ProbeOutcome::NoAnswer { error } => Some("backend at "@ + base_url + " did not answer: "@ + error@),
        ProbeOutcome::Refused { status } => Some("backend at "@ + base_url + " answered HTTP "@ + status@),
        ProbeOutcome::Unreadable { error } => Some("unreadable /v1/models response from "@ + base_url + ": "@ + error@),
        ProbeOutcome::Models(models) => match model {
            None => None,
            Some(m) => if text::lists(models@, m) {
                None
            } else {
                Some(
                    "backend at "@ + base_url + " cannot serve model '"@ + m + "' — "@ + served_text(text::views(models@)),
                )
            },
        },
    }
}

/// The verdict on a backend, from what a look at it found.
pub fn probe_local_backend(adapter: &str, base_url: &str, model: Option<&str>, outcome: &ProbeOutcome) -> (r: Result<
    (),
    PreflightRefusal,
>)
    ensures
        ({
            let fault = backend_fault(base_url@, crate::routes::view_of(model), *outcome);
            match r {
                Ok(_) => fault is None,
                Err(e) => e matches PreflightRefusal::AdapterBackendUnreachable { adapter: a, detail } && a@ == adapter@
                    && fault == Some(detail@),
            }
        }),
{
    let mut detail: String = String::new();
    match outcome {
        ProbeOutcome::NoRuntime { error } => {
            detail.push_str("could not build the probe runtime: ");
            detail.push_str(error.as_str());
            assert(detail@ =~= "could not build the probe runtime: "@ + error@);
        },
        ProbeOutcome::NoClient { error } => {
            detail.push_str("http client build failed: ");
            detail.push_str(error.as_str());
            assert(detail@ =~= "http client build failed: "@ + error@);
        },
        ProbeOutcome::NoAnswer { error } => {
            detail.push_str("backend at ");
            detail.push_str(base_url);
            detail.push_str(" did not answer: ");
            detail.push_str(error.as_str());
            assert(detail@ =~= "backend at "@ + base_url@ + " did not answer: "@ + error@);
        },
        ProbeOutcome::Refused { status } => {
            detail.push_str("backend at ");
            detail.push_str(base_url);
            detail.push_str(" answered HTTP ");
            detail.push_str(status.as_str());
            assert(detail@ =~= "backend at "@ + base_url@ + " answered HTTP "@ + status@);
        },
        ProbeOutcome::Unreadable { error } => {
            detail.push_str("unreadable /v1/models response from ");
            detail.push_str(base_url);
            detail.push_str(": ");
            detail.push_str(error.as_str());
            assert(detail@ =~= "unreadable /v1/models response from "@ + base_url@ + ": "@ + error@);
        },
        ProbeOutcome::Models(models) => {
            let wanted: &str = match model {
                None => return Ok(()),
                Some(m) => m,
            };
            if list_contains(models, wanted) {
                return Ok(());
            }
            detail.push_str("backend at ");
            detail.push_str(base_url);
            detail.push_str(" cannot serve model '");
            detail.push_str(wanted);
            detail.push_str("' — ");
            assert(text::views(models@).len() == models@.len());
            if models.len() == 0 {
                detail.push_str("it serves no models at all — none have been pulled");
                assert(detail@ =~= "backend at "@ + base_url@ + " cannot serve model '"@ + wanted@ + "' — "@ + served_text(
                    text::views(models@),
                ));
            } else {
                detail.push_str("it serves: ");
                let names = join_with_commas(models);
                detail.push_str(names.as_str());
                assert(detail@ =~= "backend at "@ + base_url@ + " cannot serve model '"@ + wanted@ + "' — "@ + served_text(
                    text::views(models@),
                ));
            }
        },
    }
    Err(PreflightRefusal::AdapterBackendUnreachable { adapter: adapter.to_owned(), detail })
}

// ---------------------------------------------------------------------------
// Laws
// ---------------------------------------------------------------------------

/// A backend that serves the model it is asked for passes, whatever else it
/// serves.
pub proof fn law_served_models_pass(base_url: Seq<char>, model: Seq<char>, models: Vec<String>)
    requires
        text::lists(models@, model),
    ensures
        backend_fault(base_url, Some(model), ProbeOutcome::Models(models)) is None,
{
}

/// A worker sees its own environment only: a variable that is not in it has no
/// value.
pub proof fn law_absent_variables_have_no_value(env: Seq<(String, String)>, key: Seq<char>)
    requires
        forall|i: int| 0 <= i < env.len() ==> (#[trigger] env[i]).0@ != key,
    ensures
        value_in(env, key) is None,
    decreases env.len(),
{
    if env.len() > 0 {
        assert(env[0].0@ != key);
        assert forall|i: int| 0 <= i < env.skip(1).len() implies (#[trigger] env.skip(1)[i]).0@ != key by {
            assert(env[i + 1].0@ != key);
        }
        law_absent_variables_have_no_value(env.skip(1), key);
    }
}

/// An adapter of the vendor needs its login, a local one its backend, and any other
/// nothing.
pub proof fn law_preconditions(adapter: Seq<char>, credentialed: Seq<String>)
    ensures
        text::lists(credentialed, adapter) ==> precondition_for(adapter, credentialed) == Precondition::Credential,
        !text::lists(credentialed, adapter) && (adapter == "local"@ || adapter == "ollama"@) ==> precondition_for(
            adapter,
            credentialed,
        ) == Precondition::Backend,
        !text::lists(credentialed, adapter) && adapter != "local"@ && adapter != "ollama"@ ==> precondition_for(
            adapter,
            credentialed,
        ) == Precondition::Nothing,
{
}

/// The label of each refusal.
pub proof fn law_refusals_have_their_label(r: PreflightRefusal)
    ensures
        r is WorkerCredentialMissing ==> refusal_label(r) == "worker_credential_missing"@,
        r is AdapterBackendUnreachable ==> refusal_label(r) == "adapter_backend_unreachable"@,
{
}

/// The first variable of a name is the one that counts.
pub proof fn law_first_variable_counts(name: String, value: String, rest: Seq<(String, String)>, key: Seq<char>)
    ensures
        value_in(Seq::empty(), key) is None,
        name@ == key ==> value_in(seq![(name, value)] + rest, key) == Some(value@),
        name@ != key ==> value_in(seq![(name, value)] + rest, key) == value_in(rest, key),
{
    let env = seq![(name, value)] + rest;
    assert(env.skip(1) =~= rest);
    assert(env[0] == (name, value));
}

/// Models are listed with commas between them, in order.
pub proof fn law_lists_of_models(v: Seq<Seq<char>>, m: Seq<char>)
    ensures
        joined_with_commas(Seq::empty()).len() == 0,
        joined_with_commas(seq![m]) == m,
        v.len() > 0 ==> joined_with_commas(v.push(m)) == joined_with_commas(v) + ", "@ + m,
        served_text(Seq::empty()) == "it serves no models at all — none have been pulled"@,
        v.len() > 0 ==> served_text(v) == "it serves: "@ + joined_with_commas(v),
{
    assert(v.push(m).drop_last() =~= v);
}

/// A backend will do where it answered and serves the model that is asked for, or any
/// where none is; otherwise what is wrong with it is told.
pub proof fn law_backends(base_url: Seq<char>, model: Seq<char>, outcome: ProbeOutcome)
    ensures
        outcome matches ProbeOutcome::Models(models) ==> {
            &&& backend_fault(base_url, None, outcome) is None
            &&& text::lists(models@, model) ==> backend_fault(base_url, Some(model), outcome) is None
            &&& !text::lists(models@, model) ==> backend_fault(base_url, Some(model), outcome) == Some(
                "backend at "@ + base_url + " cannot serve model '"@ + model + "' — "@ + served_text(text::views(models@)),
            )
        },
        outcome matches ProbeOutcome::NoRuntime { error } ==> backend_fault(base_url, Some(model), outcome) == Some(
            "could not build the probe runtime: "@ + error@,
        ),
        outcome matches ProbeOutcome::NoClient { error } ==> backend_fault(base_url, Some(model), outcome) == Some(
            "http client build failed: "@ + error@,
        ),
        outcome matches ProbeOutcome::NoAnswer { error } ==> backend_fault(base_url, Some(model), outcome) == Some(
            "backend at "@ + base_url + " did not answer: "@ + error@,
        ),
        outcome matches ProbeOutcome::Refused { status } ==> backend_fault(base_url, Some(model), outcome) == Some(
            "backend at "@ + base_url + " answered HTTP "@ + status@,
        ),
        outcome matches ProbeOutcome::Unreadable { error } ==> backend_fault(base_url, Some(model), outcome) == Some(
            "unreadable /v1/models response from "@ + base_url + ": "@ + error@,
        ),
        !(outcome is Models) ==> backend_fault(base_url, None, outcome) == backend_fault(base_url, Some(model), outcome),
{
}

/// What a caller without a login is told to do names the vendor and the adapter.
pub proof fn law_login_remedies(vendor: Seq<char>, adapter: Seq<char>)
    ensures
        login_remedy(vendor, adapter) == "Complete the "@ + vendor + " login on this instance (`cs-remote login "@ + adapter
            + "`, or the operator flow that writes the credentials file), then retry the dispatch. `GET /v1/auth/me` reports the same verdict under `claude_credentials_status`."@,
{
}

} // verus!
