//! The tracker's persistent state: which releases exist, and what each downstream runtime runs.
use vstd::prelude::*;

use crate::collections::{StringMap, StringSet};
use crate::text::{contains, lowercase, push_decimal};

verus! {

/// The GitHub project that is annotated.
pub struct Project {
    /// Organisation that owns the project.
    pub org: String,
    /// Number of the project in the organisation.
    pub number: u64,
}

/// A runtime upgrade that was enacted on-chain.
pub struct Upgrade {
    /// Spec version that the upgrade brought.
    pub spec_version: u64,
    /// Block of the upgrade.
    pub block_number: u64,
    /// Hash of that block.
    pub block_hash: String,
    /// Date of that block.
    pub date: String,
    /// Page of that block in the block explorer.
    pub block_url: String,
}

/// What the code of a downstream runtime depends on.
pub struct DownstreamInfo {
    /// Crate name -> version in the lock file.
    pub versions: StringMap<String>,
    /// Crates that the runtime depends on.
    pub deps: StringSet,
    /// Spec version in the code.
    pub spec_version: Option<u64>,
}

/// A downstream runtime.
pub struct Runtime {
    /// Name of the runtime.
    pub runtime: String,
    /// Short name of the runtime.
    pub short: String,
    /// Repository, as `owner/name`.
    pub repo: String,
    /// Branch that is watched.
    pub branch: String,
    /// Path of the lock file in the repository.
    pub cargo_lock_path: String,
    /// Path of the manifest in the repository.
    pub cargo_toml_path: String,
    /// Path of the file that states the spec version.
    pub spec_version_path: String,
    /// Network that the runtime belongs to.
    pub network: String,
    /// HTTP endpoint of a node.
    pub rpc: String,
    /// WebSocket endpoint of a node.
    pub ws: String,
    /// Field of the project that shows the status of this runtime.
    pub field_name: String,
    /// Block explorer of the network.
    pub block_explorer_url: String,
    /// Commit of the branch that was last examined.
    pub last_seen_commit: Option<String>,
    /// Enacted upgrades.
    pub upgrades: Vec<Upgrade>,
    /// What the code depends on.
    pub downstream: DownstreamInfo,
}

/// A crate that a release published.
pub struct CrateRelease {
    /// Name of the crate.
    pub name: String,
    /// Published version.
    pub version: String,
    /// Date of publication.
    pub published: String,
    /// Pull requests that the version brought.
    pub prs: Vec<u64>,
}

/// A release.
pub struct Release {
    /// Tag of the release.
    pub tag: String,
    /// Tag of the release before it.
    pub prev_tag: String,
    /// Crates that the release published.
    pub crates: Vec<CrateRelease>,
}

/// The whole state.
pub struct State {
    /// Project to annotate.
    pub project: Project,
    /// Runtimes to track.
    pub runtimes: Vec<Runtime>,
    /// Tag of the last release that was processed.
    pub last_processed_tag: Option<String>,
    /// Releases that were processed.
    pub releases: Vec<Release>,
}

/// What the logic reads of a published crate.
pub struct CrateView {
    pub name: Seq<char>,
    pub version: Seq<char>,
    pub prs: Seq<u64>,
}

/// What the logic reads of a release.
pub struct ReleaseView {
    pub tag: Seq<char>,
    pub crates: Seq<CrateView>,
}

/// What the logic reads of a runtime.
pub struct RuntimeView {
    pub field_name: Seq<char>,
    pub versions: Map<Seq<char>, Seq<char>>,
    pub deps: Set<Seq<char>>,
    pub code_spec: Option<u64>,
    pub specs: Seq<u64>,
}

/// What the logic reads of the state.
pub struct StateView {
    pub org: Seq<char>,
    pub number: u64,
    pub runtimes: Seq<RuntimeView>,
    pub last_processed_tag: Option<Seq<char>>,
    pub releases: Seq<ReleaseView>,
}

impl View for CrateRelease {
    type V = CrateView;

    open spec fn view(&self) -> CrateView {
        CrateView { name: self.name@, version: self.version@, prs: self.prs@ }
    }
}

impl View for Release {
    type V = ReleaseView;

    open spec fn view(&self) -> ReleaseView {
        ReleaseView { tag: self.tag@, crates: self.crates@.map_values(|c: CrateRelease| c@) }
    }
}

impl View for Runtime {
    type V = RuntimeView;

    open spec fn view(&self) -> RuntimeView {
        RuntimeView {
            field_name: self.field_name@,
            versions: self.downstream.versions@.map_values(|v: String| v@),
            deps: self.downstream.deps@,
            code_spec: self.downstream.spec_version,
            specs: self.upgrades@.map_values(|u: Upgrade| u.spec_version),
        }
    }
}

/// The text of an optional string.
pub open spec fn optional_text(text: Option<String>) -> Option<Seq<char>> {
    match text {
        Some(t) => Some(t@),
        None => None,
    }
}

impl View for State {
    type V = StateView;

    open spec fn view(&self) -> StateView {
        StateView {
            org: self.project.org@,
            number: self.project.number,
            runtimes: self.runtimes@.map_values(|r: Runtime| r@),
            last_processed_tag: optional_text(self.last_processed_tag),
            releases: self.releases@.map_values(|r: Release| r@),
        }
    }
}

/// The greatest number of a list, if the list has one.
pub open spec fn greatest(numbers: Seq<u64>) -> Option<u64>
    decreases numbers.len(),
{
    if numbers.len() == 0 {
        None
    } else {
        match greatest(numbers.drop_last()) {
            Some(n) if n >= numbers.last() => Some(n),
            _ => Some(numbers.last()),
        }
    }
}

/// The greatest number of a list is one of them, and no other exceeds it; only the empty list has none.
pub proof fn law_greatest(numbers: Seq<u64>)
    ensures
        greatest(numbers) is None <==> numbers.len() == 0,
        greatest(numbers) matches Some(n) ==> {
            &&& numbers.contains(n)
            &&& forall|i: int| 0 <= i < numbers.len() ==> numbers[i] <= n
        },
    decreases numbers.len(),
{
    if numbers.len() > 0 {
        let init = numbers.drop_last();
        law_greatest(init);
        let n = greatest(numbers)->0;
        if init.contains(n) {
            assert(numbers[init.index_of(n)] == n);
        } else {
            assert(numbers[numbers.len() - 1] == n);
        }
        assert forall|i: int| 0 <= i < numbers.len() implies numbers[i] <= n by {
            if i < init.len() {
                assert(init[i] == numbers[i]);
            }
        }
    }
}

impl RuntimeView {
    /// The greatest spec version that was enacted on-chain.
    pub open spec fn onchain_spec(self) -> Option<u64> {
        greatest(self.specs)
    }
}

impl Runtime {
    /// The greatest spec version that was enacted on-chain.
    pub fn max_onchain_spec(&self) -> (spec: Option<u64>)
        ensures
            spec == self@.onchain_spec(),
    {
        let mut spec: Option<u64> = None;
        let mut i: usize = 0;
        while i < self.upgrades.len()
            invariant
                i <= self.upgrades.len(),
                spec == greatest(self@.specs.take(i as int)),
            decreases self.upgrades.len() - i,
        {
            let version: u64 = self.upgrades[i].spec_version;
            assert(self@.specs.take(i + 1).drop_last() =~= self@.specs.take(i as int));
            spec = match spec {
                Some(n) if n >= version => Some(n),
                _ => Some(version),
            };
            i += 1;
        }
        assert(self@.specs.take(i as int) =~= self@.specs);
        spec
    }
}

/// No runtime is left after filtering.
pub struct NoRuntime {
    /// Filter that was applied.
    pub filter: String,
    /// Number of runtimes before filtering.
    pub had: usize,
}

impl NoRuntime {
    /// What the error tells the user.
    pub fn message(&self) -> (text: String)
        ensures
            text@ == "no runtime matching '"@ + self.filter@ + "' (had "@ + crate::text::decimal(self.had as nat)
                + " runtimes)"@,
    {
        let mut text = "no runtime matching '".to_string();
        text.append(self.filter.as_str());
        text.append("' (had ");
        push_decimal(&mut text, self.had as u64);
        text.append(" runtimes)");
        text
    }
}

/// Whether the name of a runtime's field contains a filter, upper and lower case alike.
pub open spec fn matches_filter(field_name: Seq<char>, filter: Seq<char>) -> bool {
    crate::text::occurs(crate::text::lowercased(field_name), crate::text::lowercased(filter))
}

impl State {
    /// Keeps the runtimes whose field name contains the filter, upper and lower case alike. It is an
    /// error if none does.
    pub fn filter_runtimes(&mut self, filter: &str) -> (result: Result<(), NoRuntime>)
        ensures
            final(self).runtimes@ == old(self).runtimes@.filter(|r: Runtime| matches_filter(r@.field_name, filter@)),
            final(self).project == old(self).project,
            final(self).last_processed_tag == old(self).last_processed_tag,
            final(self).releases == old(self).releases,
            match result {
                Ok(_) => final(self).runtimes@.len() > 0,
                Err(e) => {
                    &&& final(self).runtimes@.len() == 0
                    &&& e.filter@ == filter@
                    &&& e.had == old(self).runtimes@.len()
                },
            },
    {
        let ghost all = self.runtimes@;
        let ghost kept = |r: Runtime| matches_filter(r@.field_name, filter@);
        let wanted = lowercase(filter);
        let had: usize = self.runtimes.len();
        let mut i: usize = 0;
        let mut seen: usize = 0;
        assert(self.runtimes@ =~= all.take(0).filter(kept) + all.skip(0));
        while i < self.runtimes.len()
            invariant
                wanted@ == crate::text::lowercased(filter@),
                kept == (|r: Runtime| matches_filter(r@.field_name, filter@)),
                seen <= all.len(),
                all.len() == had,
                i == all.take(seen as int).filter(kept).len(),
                self.runtimes@ == all.take(seen as int).filter(kept) + all.skip(seen as int),
                self.project == old(self).project,
                self.last_processed_tag == old(self).last_processed_tag,
                self.releases == old(self).releases,
            decreases had - seen,
        {
            let name = lowercase(self.runtimes[i].field_name.as_str());
            let ghost done = all.take(seen as int).filter(kept);
            let ghost current = self.runtimes@[i as int];
            proof {
                assert(current == all[seen as int]);
                let next = all.take(seen + 1);
                assert(next.drop_last() =~= all.take(seen as int));
                assert(next.last() == current);
                reveal(Seq::filter);
            }
            if contains(name.as_str(), wanted.as_str()) {
                assert(self.runtimes@ =~= done.push(current) + all.skip(seen + 1));
                i += 1;
            } else {
                self.runtimes.remove(i);
                assert(self.runtimes@ =~= done + all.skip(seen + 1));
            }
            seen += 1;
        }
        assert(all.skip(seen as int) =~= Seq::empty());
        assert(all.take(seen as int) =~= all);
        assert(self.runtimes@ =~= all.filter(kept));
        if self.runtimes.len() == 0 {
            return Err(NoRuntime { filter: filter.to_string(), had });
        }
        Ok(())
    }
}

} // verus!
