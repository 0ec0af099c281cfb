//! The contract registry: for each contract name, at most one resolution
//! (attach to a configured address, or deploy) is under way, and once it has
//! succeeded every caller gets the same handle.
//!
//! Each name is `Absent`, `Resolving` or `Resolved`. The registry itself is a
//! state machine whose steps are instantaneous: a caller claims a name with
//! [`ContractRegistry::begin_resolve`], performs the slow network work with no
//! lock held, and reports back with [`ContractRegistry::finish_resolve`].
//! Callers that find the name `Resolving` wait and ask again. A failed
//! resolution returns the name to `Absent`, so the next request retries.

use vstd::prelude::*;
use crate::client::{ContractHandle, EthereumClientError, HandleView};
use crate::pairs::{
    pairs_map, keys_unique, lemma_pairs_map_at, lemma_pairs_map_absent, lemma_pairs_map_push,
    lemma_pairs_map_update, lemma_pairs_map_remove,
};

verus! {

/// How a claimed name is to be resolved.
pub enum ResolvePlan {
    /// Attach to the contract at this configured address text.
    Attach(String),
    /// Deploy a fresh instance.
    Deploy,
}

/// What a caller of [`ContractRegistry::begin_resolve`] is to do next.
pub enum ResolveStep {
    /// The name is resolved: use this handle.
    Ready(ContractHandle),
    /// Another caller is resolving the name: wait, then ask again.
    Wait,
    /// The caller now holds the name and must resolve it as planned, then
    /// report with [`ContractRegistry::finish_resolve`].
    Resolve(ResolvePlan),
}

/// The state of a name that is not `Absent`.
pub enum Slot {
    Resolving,
    Resolved(ContractHandle),
}

pub enum PlanView {
    Attach(Seq<char>),
    Deploy,
}

pub enum StepView {
    Ready(HandleView),
    Wait,
    Resolve(PlanView),
}

pub enum SlotView {
    Resolving,
    Resolved(HandleView),
}

impl View for ResolvePlan {
    type V = PlanView;

    open spec fn view(&self) -> PlanView {
        match self {
            ResolvePlan::Attach(a) => PlanView::Attach(a@),
            ResolvePlan::Deploy => PlanView::Deploy,
        }
    }
}

impl View for ResolveStep {
    type V = StepView;

    open spec fn view(&self) -> StepView {
        match self {
            ResolveStep::Ready(h) => StepView::Ready(h@),
            ResolveStep::Wait => StepView::Wait,
            ResolveStep::Resolve(p) => StepView::Resolve(p@),
        }
    }
}

impl View for Slot {
    type V = SlotView;

    open spec fn view(&self) -> SlotView {
        match self {
            Slot::Resolving => SlotView::Resolving,
            Slot::Resolved(h) => SlotView::Resolved(h@),
        }
    }
}

/// The registry as a mathematical value: the configured address overrides,
/// and the state of each name that is not `Absent`.
pub struct RegistryView {
    pub overrides: Map<Seq<char>, Seq<char>>,
    pub slots: Map<Seq<char>, SlotView>,
}

/// The plan for a name seen `Absent`: attach where an address is configured.
pub open spec fn plan_for(v: RegistryView, name: Seq<char>) -> PlanView {
    if v.overrides.contains_key(name) {
        PlanView::Attach(v.overrides[name])
    } else {
        PlanView::Deploy
    }
}

/// One `begin_resolve` step: the next registry and what the caller is told.
pub open spec fn begin_step(v: RegistryView, name: Seq<char>) -> (RegistryView, StepView) {
    if v.slots.contains_key(name) {
        match v.slots[name] {
            SlotView::Resolving => (v, StepView::Wait),
            SlotView::Resolved(h) => (v, StepView::Ready(h)),
        }
    } else {
        (
            RegistryView { overrides: v.overrides, slots: v.slots.insert(name, SlotView::Resolving) },
            StepView::Resolve(plan_for(v, name)),
        )
    }
}

/// One `finish_resolve` step: a name being resolved becomes `Resolved` on
/// success and `Absent` on failure; any other registry stays as it is.
pub open spec fn finish_step(v: RegistryView, name: Seq<char>, outcome: Option<HandleView>) -> RegistryView {
    if v.slots.contains_key(name) && v.slots[name] is Resolving {
        match outcome {
            Some(h) => RegistryView {
                overrides: v.overrides,
                slots: v.slots.insert(name, SlotView::Resolved(h)),
            },
            None => RegistryView { overrides: v.overrides, slots: v.slots.remove(name) },
        }
    } else {
        v
    }
}

/// The handle of a resolved name.
pub open spec fn resolved_handle(v: RegistryView, name: Seq<char>) -> Option<HandleView> {
    if v.slots.contains_key(name) {
        match v.slots[name] {
            SlotView::Resolved(h) => Some(h),
            SlotView::Resolving => None,
        }
    } else {
        None
    }
}

/// The handle a resolution outcome carries, if it succeeded.
pub open spec fn outcome_handle(o: Result<ContractHandle, EthereumClientError>) -> Option<HandleView> {
    match o {
        Ok(h) => Some(h@),
        Err(_) => None,
    }
}

pub open spec fn override_pairs(o: Seq<(String, String)>) -> Seq<(Seq<char>, Seq<char>)> {
    o.map_values(|p: (String, String)| (p.0@, p.1@))
}

pub open spec fn entry_pairs_of(e: Seq<(String, Slot)>) -> Seq<(Seq<char>, SlotView)> {
    e.map_values(|e: (String, Slot)| (e.0@, e.1@))
}

/// Failure of a registry lookup.
#[derive(Debug)]
pub enum RegistryError {
    /// No handle for this name has been resolved yet.
    NotDeployed(String),
}

impl RegistryError {
    /// `contract <name> not deployed`.
    pub fn message(&self) -> (r: String)
        ensures
            self matches RegistryError::NotDeployed(n) ==> r@ == "contract "@ + n@ + " not deployed"@,
    {
        match self {
            RegistryError::NotDeployed(n) => String::from_str("contract ").concat(n.as_str()).concat(
                " not deployed",
            ),
        }
    }
}

/// Handles of live contracts by name, with each name resolved at most once
/// at a time.
pub struct ContractRegistry {
    overrides: Vec<(String, String)>,
    entries: Vec<(String, Slot)>,
}

impl View for ContractRegistry {
    type V = RegistryView;

    closed spec fn view(&self) -> RegistryView {
        RegistryView {
            overrides: pairs_map(override_pairs(self.overrides@)),
            slots: pairs_map(self.entry_pairs()),
        }
    }
}

/// Index of the first pair whose key is `name`.
fn find_entry(entries: &Vec<(String, Slot)>, name: &String) -> (r: Option<usize>)
    ensures
        r matches Some(i) ==> i < entries@.len() && entries@[i as int].0@ == name@,
        r is None ==> forall|j: int| 0 <= j < entries@.len() ==> entries@[j].0@ != name@,
{
    let mut i: usize = 0;
    while i < entries.len()
        invariant
            0 <= i <= entries@.len(),
            forall|j: int| 0 <= j < i ==> entries@[j].0@ != name@,
        decreases entries@.len() - i,
    {
        if entries[i].0 == *name {
            return Some(i);
        }
        i = i + 1;
    }
    None
}

/// Index of the last pair whose key is `name`.
fn find_override(overrides: &Vec<(String, String)>, name: &String) -> (r: Option<usize>)
    ensures
        r matches Some(i) ==> i < overrides@.len() && overrides@[i as int].0@ == name@ && forall|j: int|
            i < j < overrides@.len() ==> overrides@[j].0@ != name@,
        r is None ==> forall|j: int| 0 <= j < overrides@.len() ==> overrides@[j].0@ != name@,
{
    let mut i: usize = overrides.len();
    while i > 0
        invariant
            0 <= i <= overrides@.len(),
            forall|j: int| i <= j < overrides@.len() ==> overrides@[j].0@ != name@,
        decreases i,
    {
        i = i - 1;
        if overrides[i].0 == *name {
            return Some(i);
        }
    }
    None
}

impl ContractRegistry {
    closed spec fn entry_pairs(&self) -> Seq<(Seq<char>, SlotView)> {
        entry_pairs_of(self.entries@)
    }

    #[verifier::type_invariant]
    closed spec fn names_unique(&self) -> bool {
        keys_unique(self.entry_pairs())
    }

    /// An empty registry with the given address overrides (contract name,
    /// address text); for a name given twice the last pair counts.
    pub fn new(overrides: Vec<(String, String)>) -> (r: ContractRegistry)
        ensures
            r@.overrides == pairs_map(override_pairs(overrides@)),
            r@.slots == Map::<Seq<char>, SlotView>::empty(),
    {
        let r = ContractRegistry { overrides, entries: Vec::new() };
        assert(r.entry_pairs() =~= Seq::<(Seq<char>, SlotView)>::empty());
        r
    }

    /// The plan for a name that is not yet claimed.
    fn plan(&self, name: &String) -> (r: ResolvePlan)
        ensures
            r@ == plan_for(self@, name@),
    {
        let pairs = Ghost(override_pairs(self.overrides@));
        match find_override(&self.overrides, name) {
            Some(i) => {
                proof {
                    lemma_pairs_map_at(pairs@, i as int);
                }
                ResolvePlan::Attach(self.overrides[i].1.clone())
            },
            None => {
                proof {
                    lemma_pairs_map_absent(pairs@, name@);
                }
                ResolvePlan::Deploy
            },
        }
    }

    /// Claims `name` if it is `Absent`, returning the plan to resolve it;
    /// otherwise tells the caller to wait, or hands out the resolved handle.
    pub fn begin_resolve(&mut self, name: &str) -> (r: ResolveStep)
        ensures
            (final(self)@, r@) == begin_step(old(self)@, name@),
    {
        proof {
            use_type_invariant(&*self);
        }
        let key = String::from_str(name);
        let ghost pairs = self.entry_pairs();
        match find_entry(&self.entries, &key) {
            Some(i) => {
                proof {
                    assert(pairs[i as int].0 == name@);
                    lemma_pairs_map_at(pairs, i as int);
                }
                match &self.entries[i].1 {
                    Slot::Resolving => ResolveStep::Wait,
                    Slot::Resolved(h) => ResolveStep::Ready(h.share()),
                }
            },
            None => {
                proof {
                    lemma_pairs_map_absent(pairs, name@);
                    lemma_pairs_map_push(pairs, name@, SlotView::Resolving);
                }
                let plan = self.plan(&key);
                let mut entries = Vec::new();
                std::mem::swap(&mut entries, &mut self.entries);
                entries.push((key, Slot::Resolving));
                assert(entry_pairs_of(entries@) =~= pairs.push((name@, SlotView::Resolving)));
                self.entries = entries;
                ResolveStep::Resolve(plan)
            },
        }
    }

    /// Reports how the resolution of a claimed name ended, and hands the
    /// outcome back. A success installs the handle; a failure returns the
    /// name to `Absent`. A name not being resolved is left as it is.
    pub fn finish_resolve(&mut self, name: &str, outcome: Result<ContractHandle, EthereumClientError>) -> (r: Result<ContractHandle, EthereumClientError>)
        ensures
            final(self)@ == finish_step(old(self)@, name@, outcome_handle(outcome)),
            r == outcome,
    {
        proof {
            use_type_invariant(&*self);
        }
        let key = String::from_str(name);
        let ghost pairs = self.entry_pairs();
        let ghost before = self@;
        match find_entry(&self.entries, &key) {
            Some(i) => {
                proof {
                    lemma_pairs_map_at(pairs, i as int);
                }
                let resolving = match &self.entries[i].1 {
                    Slot::Resolving => true,
                    Slot::Resolved(_) => false,
                };
                if !resolving {
                    return outcome;
                }
                let mut entries = Vec::new();
                std::mem::swap(&mut entries, &mut self.entries);
                match &outcome {
                    Ok(h) => {
                        let ghost hv = h@;
                        proof {
                            lemma_pairs_map_update(pairs, i as int, SlotView::Resolved(hv));
                        }
                        entries.set(i, (key, Slot::Resolved(h.share())));
                        assert(entry_pairs_of(entries@) =~= pairs.update(i as int, (name@, SlotView::Resolved(hv))));
                        self.entries = entries;
                    },
                    Err(_) => {
                        proof {
                            lemma_pairs_map_remove(pairs, i as int);
                        }
                        entries.remove(i);
                        assert(entry_pairs_of(entries@) =~= pairs.remove(i as int));
                        assert(keys_unique(entry_pairs_of(entries@))) by {
                            assert forall|a: int, b: int| 0 <= a < b < pairs.len() - 1 implies
                                pairs.remove(i as int)[a].0 != pairs.remove(i as int)[b].0 by {
                                if a < i && b >= i {
                                    assert(pairs.remove(i as int)[b] == pairs[b + 1]);
                                } else if a >= i {
                                    assert(pairs.remove(i as int)[a] == pairs[a + 1]);
                                    assert(pairs.remove(i as int)[b] == pairs[b + 1]);
                                }
                            }
                        }
                        self.entries = entries;
                    },
                }
                outcome
            },
            None => {
                proof {
                    lemma_pairs_map_absent(pairs, name@);
                }
                outcome
            },
        }
    }

    /// The handle of a resolved name; never starts a resolution.
    pub fn lookup(&self, name: &str) -> (r: Result<ContractHandle, RegistryError>)
        ensures
            resolved_handle(self@, name@) matches Some(h) ==> (r matches Ok(x) && x@ == h),
            resolved_handle(self@, name@) is None ==> (r matches Err(RegistryError::NotDeployed(n))
                && n@ == name@),
    {
        proof {
            use_type_invariant(self);
        }
        let key = String::from_str(name);
        let ghost pairs = self.entry_pairs();
        match find_entry(&self.entries, &key) {
            Some(i) => {
                proof {
                    lemma_pairs_map_at(pairs, i as int);
                }
                match &self.entries[i].1 {
                    Slot::Resolved(h) => Ok(h.share()),
                    Slot::Resolving => Err(RegistryError::NotDeployed(key)),
                }
            },
            None => {
                proof {
                    lemma_pairs_map_absent(pairs, name@);
                }
                Err(RegistryError::NotDeployed(key))
            },
        }
    }
}

/// `n` successive `begin_resolve` calls for one name, with no report in
/// between: the registry after them and what each caller was told, in order.
pub open spec fn begin_repeated(v: RegistryView, name: Seq<char>, n: nat) -> (RegistryView, Seq<StepView>)
    decreases n,
{
    if n == 0 {
        (v, Seq::empty())
    } else {
        let (w, steps) = begin_repeated(v, name, (n - 1) as nat);
        let (x, step) = begin_step(w, name);
        (x, steps.push(step))
    }
}

/// Of `n` callers asking for a name that is `Absent`, the first is told to
/// resolve it and every later one to wait: resolution work is handed out once.
pub proof fn lemma_resolution_handed_out_once(v: RegistryView, name: Seq<char>, n: nat)
    requires
        !v.slots.contains_key(name),
        n >= 1,
    ensures
        begin_repeated(v, name, n).1.len() == n,
        begin_repeated(v, name, n).1[0] == StepView::Resolve(plan_for(v, name)),
        forall|k: int| 1 <= k < n ==> #[trigger] begin_repeated(v, name, n).1[k] == StepView::Wait,
        begin_repeated(v, name, n).0.slots == v.slots.insert(name, SlotView::Resolving),
        begin_repeated(v, name, n).0.overrides == v.overrides,
    decreases n,
{
    let prev = begin_repeated(v, name, (n - 1) as nat);
    if n > 1 {
        lemma_resolution_handed_out_once(v, name, (n - 1) as nat);
        assert(prev.1.push(begin_step(prev.0, name).1)[0] == prev.1[0]);
    } else {
        assert(prev.0 == v);
        assert(prev.1.len() == 0);
    }
}

/// Once a resolution has succeeded with handle `h`, every later caller for
/// that name is handed `h` and the registry does not change.
pub proof fn lemma_resolved_handle_shared(v: RegistryView, name: Seq<char>, h: HandleView, n: nat)
    requires
        v.slots.contains_key(name),
        v.slots[name] is Resolving,
    ensures
        begin_repeated(finish_step(v, name, Some(h)), name, n).1.len() == n,
        forall|k: int| 0 <= k < n ==> #[trigger] begin_repeated(finish_step(v, name, Some(h)), name, n).1[k]
            == StepView::Ready(h),
        begin_repeated(finish_step(v, name, Some(h)), name, n).0 == finish_step(v, name, Some(h)),
    decreases n,
{
    if n > 0 {
        lemma_resolved_handle_shared(v, name, h, (n - 1) as nat);
    }
}

/// Steps for one name neither change the state of another name nor what a
/// caller for that other name is told: a resolution in flight for `a` never
/// makes a caller for `b` wait.
pub proof fn lemma_names_independent(v: RegistryView, a: Seq<char>, b: Seq<char>, outcome: Option<HandleView>)
    requires
        a != b,
    ensures
        begin_step(v, a).0.slots.contains_key(b) == v.slots.contains_key(b),
        v.slots.contains_key(b) ==> begin_step(v, a).0.slots[b] == v.slots[b],
        begin_step(begin_step(v, a).0, b).1 == begin_step(v, b).1,
        finish_step(v, a, outcome).slots.contains_key(b) == v.slots.contains_key(b),
        v.slots.contains_key(b) ==> finish_step(v, a, outcome).slots[b] == v.slots[b],
        begin_step(finish_step(v, a, outcome), b).1 == begin_step(v, b).1,
{
}

/// A name with a configured address is never deployed: whenever a caller is
/// told to resolve it, the plan is to attach to that address, and no step
/// changes the configured addresses.
pub proof fn lemma_override_never_deploys(v: RegistryView, name: Seq<char>, other: Seq<char>, outcome: Option<HandleView>)
    requires
        v.overrides.contains_key(name),
    ensures
        begin_step(v, name).1 != StepView::Resolve(PlanView::Deploy),
        begin_step(v, name).1 is Resolve ==> begin_step(v, name).1 == StepView::Resolve(
            PlanView::Attach(v.overrides[name]),
        ),
        begin_step(v, other).0.overrides == v.overrides,
        finish_step(v, other, outcome).overrides == v.overrides,
{
}

/// A failed resolution leaves the name `Absent`: the next caller is told to
/// resolve it again rather than handed a failure.
pub proof fn lemma_failure_not_cached(v: RegistryView, name: Seq<char>)
    requires
        v.slots.contains_key(name),
        v.slots[name] is Resolving,
    ensures
        !finish_step(v, name, None).slots.contains_key(name),
        begin_step(finish_step(v, name, None), name).1 == StepView::Resolve(plan_for(v, name)),
{
}

/// A name never resolved has no handle to look up; after a successful
/// resolution the lookup finds its handle.
pub proof fn lemma_lookup_after_resolve(v: RegistryView, name: Seq<char>, h: HandleView)
    requires
        !v.slots.contains_key(name),
    ensures
        resolved_handle(v, name) is None,
        resolved_handle(begin_step(v, name).0, name) is None,
        resolved_handle(finish_step(begin_step(v, name).0, name, Some(h)), name) == Some(h),
{
}

} // verus!
