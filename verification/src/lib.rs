//! The verified core of the remote pilot port adapter: who is admitted where, in
//! which order a request is checked, what is written and what is answered.

pub mod clock;
pub mod digest;
pub mod error;
pub mod evidence;
pub mod json;
pub mod jwt;
pub mod keyed;
pub mod metrics;
pub mod nucleon_map;
pub mod numbers;
pub mod oauth_discovery;
pub mod order;
pub mod paths;
pub mod phone_home;
pub mod pipeline;
pub mod portee;
pub mod preflight;
pub mod provisioner;
pub mod rate_limit;
pub mod reload;
pub mod routes;
pub mod scopes;
pub mod surface;
pub mod tenant;
pub mod text;

pub use crate::surface::frozen_api_surface;

use vstd::prelude::*;
use crate::text::{concat, same_text};

verus! {

/// The largest request body the router takes, in bytes.
pub const DEFAULT_BODY_LIMIT_BYTES: usize = 1_048_576;

/// How long a subprocess may take, in seconds.
pub const DEFAULT_SUBPROCESS_TIMEOUT_SECS: u64 = 30;

/// How long a resident drain may take, in seconds.
pub const DEFAULT_DRAIN_TIMEOUT_SECS: u64 = 3600;

/// How strictly tokens are judged.
#[derive(Clone, Copy, Debug, PartialEq, Eq, Structural)]
pub enum Posture {
    Prepared,
    Active,
}

impl Default for Posture {
    fn default() -> (r: Self)
        ensures
            r == Posture::Prepared,
    {
        Posture::Prepared
    }
}

/// The word a posture goes by on the wire.
pub open spec fn posture_name(p: Posture) -> Seq<char> {
    match p {
        Posture::Active => "active"@,
        Posture::Prepared => "prepared"@,
    }
}

impl Posture {
    /// The word a posture goes by on the wire.
    pub fn as_str(self) -> (r: &'static str)
        ensures
            r@ == posture_name(self),
    {
        match self {
            Posture::Active => "active",
            Posture::Prepared => "prepared",
        }
    }
}

/// The posture to start in: the one the command line names, else the configured
/// one.
pub fn choose_posture(named: Option<&str>, configured: Posture) -> (r: Result<Posture, String>)
    ensures
        match named {
            None => r == Ok::<_, String>(configured),
            Some(word) => if word@ == "active"@ {
                r == Ok::<_, String>(Posture::Active)
            } else if word@ == "prepared"@ {
                r == Ok::<_, String>(Posture::Prepared)
            } else {
                r matches Err(e) && e@ == "unknown posture: "@ + word@
            },
        },
{
    match named {
        None => Ok(configured),
        Some(word) => if same_text(word, "active") {
            Ok(Posture::Active)
        } else if same_text(word, "prepared") {
            Ok(Posture::Prepared)
        } else {
            Err(concat("unknown posture: ", word))
        },
    }
}

/// The noyaux that a resident drain is running in: at most one drain each.
pub struct DrainRegistry {
    active: Vec<String>,
}

impl View for DrainRegistry {
    type V = Set<Seq<char>>;

    closed spec fn view(&self) -> Set<Seq<char>> {
        text::views(self.active@).to_set()
    }
}

impl Default for DrainRegistry {
    fn default() -> (r: Self)
        ensures
            r.wf(),
            r@ == Set::<Seq<char>>::empty(),
    {
        let r = DrainRegistry { active: Vec::new() };
        assert(r@ =~= Set::<Seq<char>>::empty());
        r
    }
}

impl DrainRegistry {
    pub closed spec fn wf(&self) -> bool {
        text::views(self.active@).no_duplicates()
    }

    fn position(&self, noyau: &str) -> (r: Option<usize>)
        ensures
            match r {
                Some(i) => i < self.active@.len() && self.active@[i as int]@ == noyau@,
                None => !text::views(self.active@).contains(noyau@),
            },
    {
        let mut i: usize = 0;
        while i < self.active.len()
            invariant
                i <= self.active@.len(),
                forall|k: int| 0 <= k < i ==> text::views(self.active@)[k] != noyau@,
            decreases self.active@.len() - i,
        {
            if same_text(self.active[i].as_str(), noyau) {
                return Some(i);
            }
            i += 1;
        }
        None
    }

    /// Takes the noyau's slot where it is free.
    pub fn try_acquire(&mut self, noyau: &str) -> (r: bool)
        requires
            old(self).wf(),
        ensures
            final(self).wf(),
            r == !old(self)@.contains(noyau@),
            final(self)@ == old(self)@.insert(noyau@),
    {
        let ghost before = text::views(self.active@);
        match self.position(noyau) {
            Some(at) => {
                assert(before[at as int] == noyau@);
                assert(before.to_set().contains(noyau@));
                assert(self@ =~= self@.insert(noyau@));
                false
            },
            None => {
                self.active.push(noyau.to_owned());
                proof {
                    let after = text::views(self.active@);
                    assert(after =~= before.push(noyau@));
                    assert forall|t: Seq<char>| after.contains(t) <==> before.contains(t) || t == noyau@ by {
                        if before.contains(t) {
                            let i = choose|i: int| 0 <= i < before.len() && before[i] == t;
                            assert(after[i] == t);
                        }
                        assert(after[before.len() as int] == noyau@);
                    }
                    assert(self@ =~= old(self)@.insert(noyau@));
                }
                true
            },
        }
    }

    /// Frees the noyau's slot.
    pub fn release(&mut self, noyau: &str)
        requires
            old(self).wf(),
        ensures
            final(self).wf(),
            final(self)@ == old(self)@.remove(noyau@),
    {
        let ghost before = text::views(self.active@);
        match self.position(noyau) {
            Some(at) => {
                self.active.remove(at);
                proof {
                    let after = text::views(self.active@);
                    assert(after =~= before.remove(at as int));
                    assert forall|t: Seq<char>| after.contains(t) <==> before.contains(t) && t != noyau@ by {
                        if after.contains(t) {
                            let i = choose|i: int| 0 <= i < after.len() && after[i] == t;
                            let j = if i < at { i } else { i + 1 };
                            assert(before[j] == t);
                            assert(before[at as int] == noyau@);
                        }
                        if before.contains(t) && t != noyau@ {
                            let j = choose|j: int| 0 <= j < before.len() && before[j] == t;
                            let i = if j < at { j } else { j - 1 };
                            assert(after[i] == t);
                        }
                    }
                    assert(self@ =~= old(self)@.remove(noyau@));
                }
            },
            None => {
                assert(self@ =~= self@.remove(noyau@));
            },
        }
    }

    /// Tells whether a drain runs in the noyau.
    pub fn is_active(&self, noyau: &str) -> (r: bool)
        ensures
            r == self@.contains(noyau@),
    {
        match self.position(noyau) {
            Some(at) => {
                assert(text::views(self.active@)[at as int] == noyau@);
                true
            },
            None => false,
        }
    }
}

/// What is asked of the registry.
pub enum DrainStep {
    Acquire(Seq<char>),
    Release(Seq<char>),
}

/// The noyaux with a drain after a step.
pub open spec fn after_step(active: Set<Seq<char>>, step: DrainStep) -> Set<Seq<char>> {
    match step {
        DrainStep::Acquire(n) => active.insert(n),
        DrainStep::Release(n) => active.remove(n),
    }
}

/// The noyaux with a drain after the first `count` steps.
pub open spec fn after_steps(active: Set<Seq<char>>, steps: Seq<DrainStep>, count: nat) -> Set<Seq<char>>
    decreases count,
{
    if count == 0 {
        active
    } else {
        after_step(after_steps(active, steps, (count - 1) as nat), steps[count - 1])
    }
}

/// The step takes the slot of the noyau.
pub open spec fn takes(active: Set<Seq<char>>, steps: Seq<DrainStep>, i: int, noyau: Seq<char>) -> bool {
    steps[i] == DrainStep::Acquire(noyau) && !after_steps(active, steps, i as nat).contains(noyau)
}

/// A noyau never has two drains at once: between two steps that take its slot
/// stands one that frees it, whatever happens to the other noyaux.
pub proof fn law_one_drain_per_noyau(active: Set<Seq<char>>, steps: Seq<DrainStep>, i: int, j: int, noyau: Seq<char>)
    requires
        0 <= i < j < steps.len(),
        takes(active, steps, i, noyau),
        takes(active, steps, j, noyau),
    ensures
        exists|k: int| i < k < j && #[trigger] steps[k] == DrainStep::Release(noyau),
{
    if forall|k: int| i < k < j ==> #[trigger] steps[k] != DrainStep::Release(noyau) {
        lemma_slot_stays_taken(active, steps, i, j, noyau);
    }
}

proof fn lemma_slot_stays_taken(active: Set<Seq<char>>, steps: Seq<DrainStep>, i: int, j: int, noyau: Seq<char>)
    requires
        0 <= i < j <= steps.len(),
        steps[i] == DrainStep::Acquire(noyau),
        forall|k: int| i < k < j ==> #[trigger] steps[k] != DrainStep::Release(noyau),
    ensures
        after_steps(active, steps, j as nat).contains(noyau),
    decreases j - i,
{
    if j > i + 1 {
        lemma_slot_stays_taken(active, steps, i, j - 1, noyau);
        assert(steps[j - 1] != DrainStep::Release(noyau));
    }
}

// ---------------------------------------------------------------------------
// Laws
// ---------------------------------------------------------------------------


/// A posture goes by its name, and the limits in effect without a configuration.
pub proof fn law_postures_and_limits()
    ensures
        posture_name(Posture::Active) == "active"@,
        posture_name(Posture::Prepared) == "prepared"@,
        DEFAULT_BODY_LIMIT_BYTES == 1024 * 1024,
        DEFAULT_SUBPROCESS_TIMEOUT_SECS == 30,
        DEFAULT_DRAIN_TIMEOUT_SECS == 60 * 60,
{
}

/// A slot that is taken is held until it is freed, and no step touches another's.
pub proof fn law_slots(active: Set<Seq<char>>, noyau: Seq<char>, other: Seq<char>)
    ensures
        after_step(active, DrainStep::Acquire(noyau)).contains(noyau),
        !after_step(active, DrainStep::Release(noyau)).contains(noyau),
        other != noyau ==> after_step(active, DrainStep::Acquire(noyau)).contains(other) == active.contains(other),
        other != noyau ==> after_step(active, DrainStep::Release(noyau)).contains(other) == active.contains(other),
{
}

/// Steps are taken one after the other.
pub proof fn law_steps_follow_each_other(active: Set<Seq<char>>, steps: Seq<DrainStep>, count: nat, n: Seq<char>)
    requires
        count < steps.len(),
    ensures
        after_steps(active, steps, 0) == active,
        steps[count as int] == DrainStep::Acquire(n) ==> after_steps(active, steps, count + 1) == after_steps(
            active,
            steps,
            count,
        ).insert(n),
        steps[count as int] == DrainStep::Release(n) ==> after_steps(active, steps, count + 1) == after_steps(
            active,
            steps,
            count,
        ).remove(n),
{
}

} // verus!
