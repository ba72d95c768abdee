//! The steps of a run: what each adds to the pull requests that need annotation, and what it reports.
use std::collections::HashSet;

use vstd::prelude::*;

use crate::plan::{has_number, is_plan, law_listed_is_tagged, selected, tagged, AnnotationStats, PrAnnotation, TagsView};
use crate::project::{lemma_listed_push, listed, published};
use crate::state::{CrateRelease, CrateView, ReleaseView, RuntimeView, State, StateView};
use crate::text::texts;

verus! {

broadcast use vstd::std_specs::hash::group_hash_axioms;

/// A step of a run.
#[derive(Clone, Copy, PartialEq, Eq, Structural, Debug)]
pub enum Step {
    /// Discover new releases and the pull requests that they contain.
    Discover,
    /// Check which crates the downstream runtimes use.
    Downstream,
    /// Check on-chain spec versions for runtime upgrades.
    Onchain,
    /// Annotate the project with release tags and deployment status.
    Annotate,
}

/// The steps to run: all of them, in the order in which each builds on those before it, unless one is asked
/// for. To annotate, the downstream check comes first: it finds the pull requests to annotate.
pub open spec fn steps_of(step: Option<Step>) -> Seq<Step> {
    match step {
        None => seq![Step::Discover, Step::Onchain, Step::Downstream, Step::Annotate],
        Some(Step::Annotate) => seq![Step::Downstream, Step::Annotate],
        Some(s) => seq![s],
    }
}

/// Lists the steps to run.
pub fn steps_to_run(step: Option<Step>) -> (steps: Vec<Step>)
    ensures
        steps@ == steps_of(step),
{
    let mut steps: Vec<Step> = Vec::new();
    match step {
        None => {
            steps.push(Step::Discover);
            steps.push(Step::Onchain);
            steps.push(Step::Downstream);
            steps.push(Step::Annotate);
        },
        Some(Step::Annotate) => {
            steps.push(Step::Downstream);
            steps.push(Step::Annotate);
        },
        Some(s) => {
            steps.push(s);
        },
    }
    assert(steps@ =~= steps_of(step));
    steps
}

/// A crate whose version changed in a downstream runtime.
pub struct CrateUpdate {
    /// Name of the crate.
    pub name: String,
    /// New version.
    pub version: String,
}

/// A crate whose version changed: its name and its new version.
pub struct UpdateKey {
    pub name: Seq<char>,
    pub version: Seq<char>,
}

impl View for CrateUpdate {
    type V = UpdateKey;

    open spec fn view(&self) -> UpdateKey {
        UpdateKey { name: self.name@, version: self.version@ }
    }
}

/// The updates of crates that are in a set of names.
pub open spec fn updates_in(updates: Set<UpdateKey>, names: Set<Seq<char>>) -> Set<UpdateKey> {
    updates.filter(|u: UpdateKey| names.contains(u.name))
}

/// A set of crates whose version changed. None is in it twice.
pub struct CrateUpdates {
    items: Vec<CrateUpdate>,
}

/// The keys of a list of updates.
spec fn keys_of(items: Seq<CrateUpdate>) -> Seq<UpdateKey> {
    items.map_values(|u: CrateUpdate| u@)
}

impl View for CrateUpdates {
    type V = Set<UpdateKey>;

    closed spec fn view(&self) -> Set<UpdateKey> {
        keys_of(self.items@).to_set()
    }
}

impl CrateUpdates {
    #[verifier::type_invariant]
    spec fn well_formed(self) -> bool {
        keys_of(self.items@).no_duplicates()
    }

    /// An empty set.
    pub fn new() -> (set: Self)
        ensures
            set@ == Set::<UpdateKey>::empty(),
    {
        let set = CrateUpdates { items: Vec::new() };
        assert(set@ =~= Set::<UpdateKey>::empty());
        set
    }

    /// The number of updates.
    pub fn len(&self) -> (n: usize)
        ensures
            n == self@.len(),
            self@.finite(),
    {
        proof {
            use_type_invariant(self);
            keys_of(self.items@).unique_seq_to_set();
        }
        self.items.len()
    }

    /// Whether a crate is in the set with a version.
    pub fn contains(&self, name: &String, version: &String) -> (found: bool)
        ensures
            found == self@.contains(UpdateKey { name: name@, version: version@ }),
    {
        let ghost key = UpdateKey { name: name@, version: version@ };
        let mut i: usize = 0;
        while i < self.items.len()
            invariant
                i <= self.items.len(),
                key == (UpdateKey { name: name@, version: version@ }),
                forall|k: int| 0 <= k < i ==> keys_of(self.items@)[k] != key,
            decreases self.items.len() - i,
        {
            if self.items[i].name == *name && self.items[i].version == *version {
                assert(keys_of(self.items@)[i as int] == key);
                return true;
            }
            i += 1;
        }
        false
    }

    /// Adds an update.
    pub fn insert(&mut self, update: CrateUpdate)
        ensures
            final(self)@ == old(self)@.insert(update@),
    {
        proof {
            use_type_invariant(&*self);
        }
        if self.contains(&update.name, &update.version) {
            assert(self@.insert(update@) =~= self@);
            return;
        }
        let ghost before = *self;
        let mut items: Vec<CrateUpdate> = Vec::new();
        std::mem::swap(&mut items, &mut self.items);
        items.push(update);
        assert(keys_of(items@) =~= keys_of(before.items@).push(update@));
        assert(!keys_of(before.items@).contains(update@)) by {
            assert(before@.contains(update@) <==> keys_of(before.items@).contains(update@));
        }
        let set = CrateUpdates { items };
        proof {
            let a = keys_of(before.items@);
            let b = keys_of(set.items@);
            assert forall|k: UpdateKey| b.contains(k) <==> a.contains(k) || k == update@ by {
                if a.contains(k) {
                    assert(b[a.index_of(k)] == k);
                }
                assert(b[a.len() as int] == update@);
            }
            assert(set@ =~= before@.insert(update@));
        }
        *self = set;
    }

    /// Counts the updates of crates that are in a set of names.
    pub fn count_in(&self, names: &crate::collections::StringSet) -> (n: usize)
        ensures
            n == updates_in(self@, names@).len(),
    {
        proof {
            use_type_invariant(self);
        }
        let ghost keys = keys_of(self.items@);
        let ghost mut counted: Set<UpdateKey> = Set::empty();
        let mut n: usize = 0;
        let mut i: usize = 0;
        while i < self.items.len()
            invariant
                i <= self.items.len(),
                n <= i,
                keys == keys_of(self.items@),
                keys.no_duplicates(),
                counted.finite(),
                counted.len() == n,
                forall|u: UpdateKey| counted.contains(u) <==> keys.take(i as int).contains(u) && names@.contains(u.name),
            decreases self.items.len() - i,
        {
            let ghost key = keys[i as int];
            proof {
                let a = keys.take(i as int);
                let b = keys.take(i + 1);
                assert forall|u: UpdateKey| b.contains(u) <==> a.contains(u) || u == key by {
                    if a.contains(u) {
                        assert(b[a.index_of(u)] == u);
                    }
                    assert(b[i as int] == key);
                    if b.contains(u) && u != key {
                        assert(a[b.index_of(u)] == u);
                    }
                }
                assert(!a.contains(key));
            }
            if names.contains(self.items[i].name.as_str()) {
                n += 1;
                proof {
                    counted = counted.insert(key);
                }
            }
            i += 1;
        }
        proof {
            assert(keys.take(i as int) =~= keys);
            assert(counted =~= updates_in(self@, names@));
        }
        n
    }
}

/// The pull requests that the releases of some tags contain.
pub open spec fn prs_of_tags(releases: Seq<ReleaseView>, tags: Seq<Seq<char>>) -> Set<u64> {
    Set::new(|pr: u64| exists|tag: Seq<char>| #[trigger] tags.contains(tag) && tagged(releases, pr, tag))
}

/// The pull requests that the chosen ones of some published crates brought.
pub open spec fn prs_brought(crates: Seq<CrateView>, chosen: spec_fn(CrateView) -> bool) -> Set<u64> {
    Set::new(
        |pr: u64|
            exists|i: int| 0 <= i < crates.len() && chosen(#[trigger] crates[i]) && crates[i].prs.contains(pr),
    )
}

/// The pull requests that some crate updates brought downstream.
pub open spec fn prs_of_updates(releases: Seq<ReleaseView>, updates: Set<UpdateKey>) -> Set<u64> {
    prs_brought(
        published(releases),
        |c: CrateView| updates.contains(UpdateKey { name: c.name, version: c.version }),
    )
}

/// The crates that some runtimes depend on.
pub open spec fn deps_of(runtimes: Seq<RuntimeView>, indices: Seq<usize>) -> Set<Seq<char>> {
    Set::new(
        |name: Seq<char>|
            exists|k: int| 0 <= k < indices.len() && runtimes[(#[trigger] indices[k]) as int].deps.contains(name),
    )
}

/// The pull requests of the crates that some runtimes depend on.
pub open spec fn prs_of_runtimes(state: StateView, indices: Seq<usize>) -> Set<u64> {
    prs_brought(published(state.releases), |c: CrateView| deps_of(state.runtimes, indices).contains(c.name))
}

/// One crate more adds its pull requests where it is chosen.
proof fn lemma_brought_push(crates: Seq<CrateView>, c: CrateView, chosen: spec_fn(CrateView) -> bool, pr: u64)
    ensures
        prs_brought(crates.push(c), chosen).contains(pr) <==> prs_brought(crates, chosen).contains(pr) || (chosen(c)
            && c.prs.contains(pr)),
{
    let more = crates.push(c);
    if prs_brought(crates, chosen).contains(pr) {
        let i = choose|i: int| 0 <= i < crates.len() && chosen(#[trigger] crates[i]) && crates[i].prs.contains(pr);
        assert(more[i] == crates[i]);
    }
    if chosen(c) && c.prs.contains(pr) {
        assert(more[crates.len() as int] == c);
    }
    if prs_brought(more, chosen).contains(pr) {
        let i = choose|i: int| 0 <= i < more.len() && chosen(#[trigger] more[i]) && more[i].prs.contains(pr);
        if i < crates.len() {
            assert(crates[i] == more[i]);
        }
    }
}

/// Adds pull requests to a set.
fn add_prs(set: &mut HashSet<u64>, prs: &Vec<u64>)
    ensures
        forall|pr: u64| #[trigger] final(set)@.contains(pr) <==> old(set)@.contains(pr) || prs@.contains(pr),
{
    let ghost start = set@;
    let mut i: usize = 0;
    while i < prs.len()
        invariant
            i <= prs.len(),
            forall|pr: u64| #[trigger] set@.contains(pr) <==> start.contains(pr) || prs@.take(i as int).contains(pr),
        decreases prs.len() - i,
    {
        set.insert(prs[i]);
        proof {
            let a = prs@.take(i as int);
            let b = prs@.take(i + 1);
            assert forall|pr: u64| #[trigger] b.contains(pr) <==> a.contains(pr) || pr == prs@[i as int] by {
                if a.contains(pr) {
                    assert(b[a.index_of(pr)] == pr);
                }
                assert(b[i as int] == prs@[i as int]);
                if b.contains(pr) && pr != prs@[i as int] {
                    assert(a[b.index_of(pr)] == pr);
                }
            }
        }
        i += 1;
    }
    assert(prs@.take(i as int) =~= prs@);
}

/// The pull requests that need annotation, where not all do, after some were added.
pub open spec fn extended(dirty: Option<Set<u64>>, prs: Set<u64>) -> Option<Set<u64>> {
    match dirty {
        Some(set) => Some(set.union(prs)),
        None => None,
    }
}

/// Adding pull requests selects them and keeps the ones that were selected; where all are selected, they
/// stay so.
pub proof fn law_extending_selects(dirty: Option<Set<u64>>, prs: Set<u64>, pr: u64)
    ensures
        selected(extended(dirty, prs), pr) <==> selected(dirty, pr) || prs.contains(pr),
{
}

/// What is known of a runtime's code after the downstream check.
pub struct DownstreamSummary {
    /// Greatest spec version on-chain.
    pub current_spec: Option<u64>,
    /// Number of updated crates that the runtime depends on.
    pub crate_updates: usize,
}

/// What is known of a runtime on-chain after the on-chain check.
pub struct OnchainSummary {
    /// Greatest spec version on-chain before the check.
    pub previous: Option<u64>,
    /// Greatest spec version on-chain, or zero.
    pub current: u64,
}

/// What was annotated for a runtime.
pub struct AnnotateSummary {
    /// Spec version in the code.
    pub version: Option<u64>,
    /// Number of pull requests that have a status in the runtime.
    pub prs: usize,
}

/// What a step reports.
pub enum StepSummary {
    Discover { new_tags: Vec<String> },
    Downstream { runtimes: Vec<DownstreamSummary> },
    Onchain { runtimes: Vec<OnchainSummary> },
    Annotate { runtimes: Vec<AnnotateSummary>, details: Vec<PrAnnotation> },
}

/// What the outside work of a step found.
pub enum Outcome {
    /// Tags of the releases that are new in the state.
    Discovered { new_tags: Vec<String> },
    /// Crates whose version changed in a downstream runtime.
    Examined { crate_updates: CrateUpdates },
    /// Greatest spec versions on-chain before the check, and the runtimes that were upgraded since.
    Observed { previous: Vec<Option<u64>>, upgraded: Vec<usize> },
    /// What was annotated.
    Annotated { stats: AnnotationStats },
}

/// A run of the tracker.
pub struct Runner {
    /// The state, as far as it was brought up to date.
    pub state: State,
    /// Whether nothing is written.
    pub dry_run: bool,
    /// Whether annotations are listed.
    pub verbose: bool,
    /// Pull requests that need annotation; all, where there is no set.
    pub dirty_prs: Option<HashSet<u64>>,
}

/// The set of pull requests that need annotation, where not all do.
pub open spec fn dirty_view(dirty: Option<HashSet<u64>>) -> Option<Set<u64>> {
    match dirty {
        Some(set) => Some(set@),
        None => None,
    }
}

impl Runner {
    /// Begins a run. A state that no release was processed for yet has all pull requests annotated;
    /// otherwise only those that the run finds reason to.
    pub fn new(state: State, dry_run: bool, verbose: bool) -> (runner: Self)
        ensures
            runner.state == state,
            runner.dry_run == dry_run,
            runner.verbose == verbose,
            dirty_view(runner.dirty_prs) == if state@.last_processed_tag is Some {
                Some(Set::<u64>::empty())
            } else {
                None
            },
    {
        let dirty_prs: Option<HashSet<u64>> = if state.last_processed_tag.is_some() {
            Some(HashSet::new())
        } else {
            None
        };
        Runner { state, dry_run, verbose, dirty_prs }
    }

    /// The state to write after a step: none in a dry run.
    pub fn save_state(&self) -> (state: Option<&State>)
        ensures
            match state {
                Some(s) => !self.dry_run && *s == self.state,
                None => self.dry_run,
            },
    {
        if self.dry_run {
            None
        } else {
            Some(&self.state)
        }
    }

    /// Collects the pull requests of the releases that have one of the tags.
    pub fn prs_from_tags(&self, tags: &Vec<String>) -> (prs: HashSet<u64>)
        ensures
            prs@ == prs_of_tags(self.state@.releases, texts(tags@)),
    {
        let mut prs: HashSet<u64> = HashSet::new();
        let ghost releases = self.state@.releases;
        let ghost wanted = texts(tags@);
        let mut i: usize = 0;
        while i < self.state.releases.len()
            invariant
                i <= self.state.releases.len(),
                releases == self.state@.releases,
                wanted == texts(tags@),
                forall|pr: u64|
                    #[trigger] prs@.contains(pr) <==> prs_of_tags(releases.take(i as int), wanted).contains(pr),
            decreases self.state.releases.len() - i,
        {
            let release = &self.state.releases[i];
            let ghost start = prs@;
            let mut named: bool = false;
            let mut t: usize = 0;
            while t < tags.len()
                invariant
                    t <= tags.len(),
                    wanted == texts(tags@),
                    named <==> exists|k: int| 0 <= k < t && #[trigger] wanted[k] == release.tag@,
                decreases tags.len() - t,
            {
                if tags[t] == release.tag {
                    assert(wanted[t as int] == release.tag@);
                    named = true;
                }
                t += 1;
            }
            assert(named <==> wanted.contains(release.tag@));
            let ghost crates = release@.crates;
            if named {
                let mut j: usize = 0;
                while j < release.crates.len()
                    invariant
                        j <= release.crates.len(),
                        crates == release@.crates,
                        forall|pr: u64|
                            #[trigger] prs@.contains(pr) <==> start.contains(pr) || listed(crates.take(j as int), pr),
                    decreases release.crates.len() - j,
                {
                    let c = &release.crates[j];
                    add_prs(&mut prs, &c.prs);
                    proof {
                        assert(crates.take(j + 1) =~= crates.take(j as int).push(c@));
                        assert forall|pr: u64| #[trigger] listed(crates.take(j + 1), pr) <==> listed(crates.take(j as int), pr)
                            || c@.prs.contains(pr) by {
                            lemma_listed_push(crates.take(j as int), c@, pr);
                        }
                    }
                    j += 1;
                }
                assert(crates.take(j as int) =~= crates);
            }
            proof {
                assert(releases[i as int] == release@);
                assert forall|pr: u64| #[trigger] prs@.contains(pr) <==> prs_of_tags(releases.take(i + 1), wanted).contains(pr) by {
                    lemma_prs_of_tags_take(releases, wanted, i as int, pr);
                    assert(start.contains(pr) <==> prs_of_tags(releases.take(i as int), wanted).contains(pr));
                }
            }
            i += 1;
        }
        assert(releases.take(i as int) =~= releases);
        assert(prs@ =~= prs_of_tags(releases, wanted));
        prs
    }
}

/// A release more adds its pull requests where its tag is among those wanted.
proof fn lemma_prs_of_tags_take(releases: Seq<ReleaseView>, tags: Seq<Seq<char>>, n: int, pr: u64)
    requires
        0 <= n < releases.len(),
    ensures
        prs_of_tags(releases.take(n + 1), tags).contains(pr) <==> prs_of_tags(releases.take(n), tags).contains(pr)
            || (tags.contains(releases[n].tag) && listed(releases[n].crates, pr)),
{
    let a = releases.take(n);
    let b = releases.take(n + 1);
    if prs_of_tags(a, tags).contains(pr) {
        let tag = choose|tag: Seq<char>| #[trigger] tags.contains(tag) && tagged(a, pr, tag);
        let i = choose|i: int| 0 <= i < a.len() && (#[trigger] a[i]).tag == tag && listed(a[i].crates, pr);
        assert(b[i] == a[i]);
        assert(tagged(b, pr, tag));
    }
    if tags.contains(releases[n].tag) && listed(releases[n].crates, pr) {
        assert(b[n] == releases[n]);
        assert(tagged(b, pr, releases[n].tag));
    }
    if prs_of_tags(b, tags).contains(pr) {
        let tag = choose|tag: Seq<char>| #[trigger] tags.contains(tag) && tagged(b, pr, tag);
        let i = choose|i: int| 0 <= i < b.len() && (#[trigger] b[i]).tag == tag && listed(b[i].crates, pr);
        if i < n {
            assert(a[i] == b[i]);
            assert(tagged(a, pr, tag));
        }
    }
}

/// Which published crates to collect pull requests from.
enum Choice<'a> {
    /// Those that were updated.
    Updated(&'a CrateUpdates),
    /// Those that some runtimes depend on.
    Used(&'a Vec<usize>),
}

impl<'a> Choice<'a> {
    spec fn chosen(self, state: StateView) -> spec_fn(CrateView) -> bool {
        match self {
            Choice::Updated(updates) => |c: CrateView|
                updates@.contains(UpdateKey { name: c.name, version: c.version }),
            Choice::Used(indices) => |c: CrateView| deps_of(state.runtimes, indices@).contains(c.name),
        }
    }

    spec fn in_range(self, state: StateView) -> bool {
        self matches Choice::Used(indices) ==> forall|k: int|
            0 <= k < indices@.len() ==> #[trigger] indices@[k] < state.runtimes.len()
    }

    /// Whether a published crate is chosen.
    fn accepts(&self, state: &State, c: &CrateRelease) -> (yes: bool)
        requires
            self.in_range(state@),
        ensures
            yes == (self.chosen(state@))(c@),
    {
        match self {
            Choice::Updated(updates) => updates.contains(&c.name, &c.version),
            Choice::Used(indices) => {
                let mut k: usize = 0;
                while k < indices.len()
                    invariant
                        k <= indices.len(),
                        *self == Choice::Used(*indices),
                        forall|m: int| 0 <= m < indices@.len() ==> #[trigger] indices@[m] < state@.runtimes.len(),
                        forall|m: int|
                            0 <= m < k ==> !state@.runtimes[(#[trigger] indices@[m]) as int].deps.contains(c.name@),
                    decreases indices.len() - k,
                {
                    let index: usize = indices[k];
                    assert(indices@[k as int] == index);
                    if state.runtimes[index].downstream.deps.contains(c.name.as_str()) {
                        assert(state@.runtimes[indices@[k as int] as int].deps.contains(c.name@));
                        return true;
                    }
                    k += 1;
                }
                false
            },
        }
    }
}

impl Runner {
    /// Collects the pull requests of the chosen crates.
    fn prs_from_crates(&self, choice: &Choice) -> (prs: HashSet<u64>)
        requires
            choice.in_range(self.state@),
        ensures
            prs@ == prs_brought(published(self.state@.releases), choice.chosen(self.state@)),
    {
        let mut prs: HashSet<u64> = HashSet::new();
        let ghost releases = self.state@.releases;
        let ghost chosen = choice.chosen(self.state@);
        let mut i: usize = 0;
        while i < self.state.releases.len()
            invariant
                i <= self.state.releases.len(),
                releases == self.state@.releases,
                chosen == choice.chosen(self.state@),
                choice.in_range(self.state@),
                forall|pr: u64|
                    #[trigger] prs@.contains(pr) <==> prs_brought(published(releases.take(i as int)), chosen).contains(pr),
            decreases self.state.releases.len() - i,
        {
            let release = &self.state.releases[i];
            let ghost before = published(releases.take(i as int));
            let ghost views = release@.crates;
            assert(before + views.take(0) =~= before);
            let mut j: usize = 0;
            while j < release.crates.len()
                invariant
                    j <= release.crates.len(),
                    views == release@.crates,
                    chosen == choice.chosen(self.state@),
                    choice.in_range(self.state@),
                    forall|pr: u64|
                        #[trigger] prs@.contains(pr) <==> prs_brought(before + views.take(j as int), chosen).contains(pr),
                decreases release.crates.len() - j,
            {
                let c = &release.crates[j];
                let ghost done = before + views.take(j as int);
                if choice.accepts(&self.state, c) {
                    add_prs(&mut prs, &c.prs);
                }
                proof {
                    assert(before + views.take(j + 1) =~= done.push(c@));
                    assert forall|pr: u64| #[trigger] prs@.contains(pr) <==> prs_brought(
                        before + views.take(j + 1),
                        chosen,
                    ).contains(pr) by {
                        lemma_brought_push(done, c@, chosen, pr);
                    }
                }
                j += 1;
            }
            proof {
                assert(views.take(j as int) =~= views);
                assert(releases.take(i + 1).drop_last() =~= releases.take(i as int));
            }
            i += 1;
        }
        assert(releases.take(i as int) =~= releases);
        assert(prs@ =~= prs_brought(published(releases), chosen));
        prs
    }

    /// Collects the pull requests of the crate versions that are in a set of updates.
    pub fn prs_from_crate_updates(&self, updates: &CrateUpdates) -> (prs: HashSet<u64>)
        ensures
            prs@ == prs_of_updates(self.state@.releases, updates@),
    {
        let prs = self.prs_from_crates(&Choice::Updated(updates));
        assert(prs@ =~= prs_of_updates(self.state@.releases, updates@));
        prs
    }

    /// Collects the pull requests of the crates that some runtimes depend on.
    pub fn prs_from_runtimes(&self, runtime_indices: &Vec<usize>) -> (prs: HashSet<u64>)
        requires
            forall|k: int| 0 <= k < runtime_indices@.len() ==> #[trigger] runtime_indices@[k] < self.state.runtimes.len(),
        ensures
            prs@ == prs_of_runtimes(self.state@, runtime_indices@),
    {
        let prs = self.prs_from_crates(&Choice::Used(runtime_indices));
        assert(prs@ =~= prs_of_runtimes(self.state@, runtime_indices@));
        prs
    }

    /// Adds pull requests to those that need annotation. Where all do, they are among them already.
    pub fn add_dirty(&mut self, prs: HashSet<u64>)
        ensures
            dirty_view(final(self).dirty_prs) == extended(dirty_view(old(self).dirty_prs), prs@),
            final(self).state == old(self).state,
            final(self).dry_run == old(self).dry_run,
            final(self).verbose == old(self).verbose,
    {
        let mut dirty: Option<HashSet<u64>> = None;
        std::mem::swap(&mut dirty, &mut self.dirty_prs);
        if let Some(mut set) = dirty {
            let ghost start = set@;
            for pr in it: prs.iter()
                invariant
                    it.seq().unref().to_set() == prs@,
                    forall|p: u64|
                        #[trigger] set@.contains(p) <==> start.contains(p) || it.seq().unref().take(it.index() as int).contains(p),
                    it.index() == it.seq().len() ==> forall|p: u64|
                        #[trigger] set@.contains(p) <==> start.contains(p) || prs@.contains(p),
            {
                set.insert(*pr);
                proof {
                    let all = it.seq().unref();
                    let a = all.take(it.index() as int);
                    let b = all.take(it.index() + 1);
                    assert(b =~= a.push(*pr));
                    if b.len() == all.len() {
                        assert(b =~= all);
                        assert(forall|p: u64| #[trigger] prs@.contains(p) <==> all.to_set().contains(p));
                    }
                    assert forall|p: u64| #[trigger] b.contains(p) <==> a.contains(p) || p == *pr by {
                        if a.contains(p) {
                            assert(b[a.index_of(p)] == p);
                        }
                        assert(b[a.len() as int] == *pr);
                    }
                }
            }
            assert(set@ =~= start.union(prs@));
            self.dirty_prs = Some(set);
        }
    }
}

/// The pull requests that the outcome of a step gives reason to annotate.
pub open spec fn found_by(state: StateView, outcome: Outcome) -> Set<u64> {
    match outcome {
        Outcome::Discovered { new_tags } => prs_of_tags(state.releases, texts(new_tags@)),
        Outcome::Examined { crate_updates } => prs_of_updates(state.releases, crate_updates@),
        Outcome::Observed { upgraded, .. } => prs_of_runtimes(state, upgraded@),
        Outcome::Annotated { .. } => Set::empty(),
    }
}

/// Whether the outcome of a step fits the state: it speaks of each runtime, and of no others as upgraded.
pub open spec fn fits(state: StateView, outcome: Outcome) -> bool {
    match outcome {
        Outcome::Discovered { .. } => true,
        Outcome::Examined { .. } => true,
        Outcome::Observed { previous, upgraded } => {
            &&& previous@.len() >= state.runtimes.len()
            &&& forall|k: int| 0 <= k < upgraded@.len() ==> #[trigger] upgraded@[k] < state.runtimes.len()
        },
        Outcome::Annotated { stats } => stats.per_runtime@.len() >= state.runtimes.len(),
    }
}

/// Whether a summary reports the outcome of a step, one entry for each runtime in their order.
pub open spec fn reports(summary: StepSummary, state: StateView, outcome: Outcome) -> bool {
    match outcome {
        Outcome::Discovered { new_tags } => summary == (StepSummary::Discover { new_tags }),
        Outcome::Examined { crate_updates } => {
            &&& summary matches StepSummary::Downstream { runtimes }
            &&& runtimes@.len() == state.runtimes.len()
            &&& forall|i: int|
                0 <= i < runtimes@.len() ==> (#[trigger] runtimes@[i]) == (DownstreamSummary {
                    current_spec: state.runtimes[i].onchain_spec(),
                    crate_updates: updates_in(crate_updates@, state.runtimes[i].deps).len() as usize,
                })
        },
        Outcome::Observed { previous, .. } => {
            &&& summary matches StepSummary::Onchain { runtimes }
            &&& runtimes@.len() == state.runtimes.len()
            &&& forall|i: int|
                0 <= i < runtimes@.len() ==> (#[trigger] runtimes@[i]) == (OnchainSummary {
                    previous: previous@[i],
                    current: match state.runtimes[i].onchain_spec() {
                        Some(spec) => spec,
                        None => 0,
                    },
                })
        },
        Outcome::Annotated { stats } => {
            &&& summary matches StepSummary::Annotate { runtimes, details }
            &&& details == stats.details
            &&& runtimes@.len() == state.runtimes.len()
            &&& forall|i: int|
                0 <= i < runtimes@.len() ==> (#[trigger] runtimes@[i]) == (AnnotateSummary {
                    version: state.runtimes[i].code_spec,
                    prs: stats.per_runtime@[i],
                })
        },
    }
}

impl Runner {
    /// The greatest spec version on-chain of each runtime, to be taken before the on-chain check.
    pub fn previous_specs(&self) -> (specs: Vec<Option<u64>>)
        ensures
            specs@ == self.state@.runtimes.map_values(|r: RuntimeView| r.onchain_spec()),
    {
        let mut specs: Vec<Option<u64>> = Vec::new();
        let mut i: usize = 0;
        while i < self.state.runtimes.len()
            invariant
                i <= self.state.runtimes.len(),
                specs@.len() == i,
                forall|k: int| 0 <= k < i ==> #[trigger] specs@[k] == self.state@.runtimes[k].onchain_spec(),
            decreases self.state.runtimes.len() - i,
        {
            specs.push(self.state.runtimes[i].max_onchain_spec());
            i += 1;
        }
        assert(specs@ =~= self.state@.runtimes.map_values(|r: RuntimeView| r.onchain_spec()));
        specs
    }

    /// Ends a step, once its outside work is done and the state was brought up to date: the pull requests
    /// that its outcome concerns now need annotation, and the outcome is summed up.
    pub fn run_step(&mut self, outcome: Outcome) -> (summary: StepSummary)
        requires
            fits(old(self).state@, outcome),
        ensures
            final(self).state == old(self).state,
            final(self).dry_run == old(self).dry_run,
            final(self).verbose == old(self).verbose,
            dirty_view(final(self).dirty_prs) == extended(
                dirty_view(old(self).dirty_prs),
                found_by(old(self).state@, outcome),
            ),
            reports(summary, old(self).state@, outcome),
    {
        match outcome {
            Outcome::Discovered { new_tags } => {
                let prs = self.prs_from_tags(&new_tags);
                self.add_dirty(prs);
                StepSummary::Discover { new_tags }
            },
            Outcome::Examined { crate_updates } => {
                let prs = self.prs_from_crate_updates(&crate_updates);
                self.add_dirty(prs);
                StepSummary::Downstream { runtimes: self.downstream_summaries(&crate_updates) }
            },
            Outcome::Observed { previous, upgraded } => {
                let prs = self.prs_from_runtimes(&upgraded);
                self.add_dirty(prs);
                StepSummary::Onchain { runtimes: self.onchain_summaries(&previous) }
            },
            Outcome::Annotated { stats } => {
                proof {
                    if let Some(set) = dirty_view(self.dirty_prs) {
                        assert(set.union(Set::empty()) =~= set);
                    }
                }
                let runtimes = self.annotate_summaries(&stats.per_runtime);
                StepSummary::Annotate { runtimes, details: stats.details }
            },
        }
    }

    fn downstream_summaries(&self, updates: &CrateUpdates) -> (runtimes: Vec<DownstreamSummary>)
        ensures
            runtimes@.len() == self.state@.runtimes.len(),
            forall|i: int|
                0 <= i < runtimes@.len() ==> (#[trigger] runtimes@[i]) == (DownstreamSummary {
                    current_spec: self.state@.runtimes[i].onchain_spec(),
                    crate_updates: updates_in(updates@, self.state@.runtimes[i].deps).len() as usize,
                }),
    {
        let mut runtimes: Vec<DownstreamSummary> = Vec::new();
        let mut i: usize = 0;
        while i < self.state.runtimes.len()
            invariant
                i <= self.state.runtimes.len(),
                runtimes@.len() == i,
                forall|k: int|
                    0 <= k < i ==> (#[trigger] runtimes@[k]) == (DownstreamSummary {
                        current_spec: self.state@.runtimes[k].onchain_spec(),
                        crate_updates: updates_in(updates@, self.state@.runtimes[k].deps).len() as usize,
                    }),
            decreases self.state.runtimes.len() - i,
        {
            let runtime = &self.state.runtimes[i];
            let crate_updates: usize = updates.count_in(&runtime.downstream.deps);
            runtimes.push(DownstreamSummary { current_spec: runtime.max_onchain_spec(), crate_updates });
            i += 1;
        }
        runtimes
    }

    fn onchain_summaries(&self, previous: &Vec<Option<u64>>) -> (runtimes: Vec<OnchainSummary>)
        requires
            previous@.len() >= self.state@.runtimes.len(),
        ensures
            runtimes@.len() == self.state@.runtimes.len(),
            forall|i: int|
                0 <= i < runtimes@.len() ==> (#[trigger] runtimes@[i]) == (OnchainSummary {
                    previous: previous@[i],
                    current: match self.state@.runtimes[i].onchain_spec() {
                        Some(spec) => spec,
                        None => 0,
                    },
                }),
    {
        let mut runtimes: Vec<OnchainSummary> = Vec::new();
        let mut i: usize = 0;
        while i < self.state.runtimes.len()
            invariant
                i <= self.state.runtimes.len(),
                runtimes@.len() == i,
                previous@.len() >= self.state@.runtimes.len(),
                forall|k: int|
                    0 <= k < i ==> (#[trigger] runtimes@[k]) == (OnchainSummary {
                        previous: previous@[k],
                        current: match self.state@.runtimes[k].onchain_spec() {
                            Some(spec) => spec,
                            None => 0,
                        },
                    }),
            decreases self.state.runtimes.len() - i,
        {
            let current: u64 = match self.state.runtimes[i].max_onchain_spec() {
                Some(spec) => spec,
                None => 0,
            };
            runtimes.push(OnchainSummary { previous: previous[i], current });
            i += 1;
        }
        runtimes
    }

    fn annotate_summaries(&self, per_runtime: &Vec<usize>) -> (runtimes: Vec<AnnotateSummary>)
        requires
            per_runtime@.len() >= self.state@.runtimes.len(),
        ensures
            runtimes@.len() == self.state@.runtimes.len(),
            forall|i: int|
                0 <= i < runtimes@.len() ==> (#[trigger] runtimes@[i]) == (AnnotateSummary {
                    version: self.state@.runtimes[i].code_spec,
                    prs: per_runtime@[i],
                }),
    {
        let mut runtimes: Vec<AnnotateSummary> = Vec::new();
        let mut i: usize = 0;
        while i < self.state.runtimes.len()
            invariant
                i <= self.state.runtimes.len(),
                runtimes@.len() == i,
                per_runtime@.len() >= self.state@.runtimes.len(),
                forall|k: int|
                    0 <= k < i ==> (#[trigger] runtimes@[k]) == (AnnotateSummary {
                        version: self.state@.runtimes[k].code_spec,
                        prs: per_runtime@[k],
                    }),
            decreases self.state.runtimes.len() - i,
        {
            let version: Option<u64> = self.state.runtimes[i].downstream.spec_version;
            runtimes.push(AnnotateSummary { version, prs: per_runtime[i] });
            i += 1;
        }
        runtimes
    }
}

/// A pull request that a step found is annotated by the run: it stands in the list of what to annotate, once
/// the step has ended and whatever later steps add.
pub proof fn law_found_is_annotated(
    plan: Seq<TagsView>,
    state: StateView,
    dirty: Option<Set<u64>>,
    outcome: Outcome,
    later: Set<u64>,
    pr: u64,
)
    requires
        is_plan(plan, state.releases, extended(extended(dirty, found_by(state, outcome)), later)),
        found_by(state, outcome).contains(pr),
    ensures
        has_number(plan, pr),
{
    let all = extended(extended(dirty, found_by(state, outcome)), later);
    assert(selected(all, pr));
    assert(listed(published(state.releases), pr)) by {
        match outcome {
            Outcome::Discovered { new_tags } => {
                let tags = texts(new_tags@);
                let tag = choose|tag: Seq<char>| #[trigger] tags.contains(tag) && tagged(state.releases, pr, tag);
                assert(tagged(state.releases, pr, tag));
                law_listed_is_tagged(state.releases, pr);
            },
            _ => {
                let crates = published(state.releases);
                assert(exists|i: int| 0 <= i < crates.len() && #[trigger] crates[i].prs.contains(pr));
            },
        }
    }
}

/// In a run on a state that some release was processed for, a pull request that no step found is not
/// annotated.
pub proof fn law_only_found_is_annotated(
    plan: Seq<TagsView>,
    releases: Seq<ReleaseView>,
    found: Seq<Set<u64>>,
    pr: u64,
)
    requires
        is_plan(plan, releases, all_found(found)),
        has_number(plan, pr),
    ensures
        exists|i: int| 0 <= i < found.len() && #[trigger] found[i].contains(pr),
{
    assert(selected(all_found(found), pr));
    lemma_all_found(found, pr);
}

/// The pull requests that need annotation after some steps, where none did at first.
pub open spec fn all_found(found: Seq<Set<u64>>) -> Option<Set<u64>>
    decreases found.len(),
{
    if found.len() == 0 {
        Some(Set::empty())
    } else {
        extended(all_found(found.drop_last()), found.last())
    }
}

proof fn lemma_all_found(found: Seq<Set<u64>>, pr: u64)
    requires
        selected(all_found(found), pr),
    ensures
        all_found(found) is Some,
        exists|i: int| 0 <= i < found.len() && #[trigger] found[i].contains(pr),
    decreases found.len(),
{
    if found.len() > 0 {
        let init = found.drop_last();
        if selected(all_found(init), pr) {
            lemma_all_found(init, pr);
            let i = choose|i: int| 0 <= i < init.len() && #[trigger] init[i].contains(pr);
            assert(found[i].contains(pr));
        } else {
            assert(found[found.len() - 1].contains(pr));
        }
    }
}

} // verus!
