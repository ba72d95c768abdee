//! Laws of the steps of a run.
use std::collections::HashSet;

use vstd::prelude::*;

use crate::plan::AnnotationStats;
use crate::project::published;
use crate::runner::{
    deps_of, dirty_view, extended, fits, found_by, prs_of_tags, reports, steps_of, updates_in, CrateUpdate,
    CrateUpdates, Outcome, Step, StepSummary, UpdateKey,
};
use crate::state::{CrateView, State};
use crate::text::texts;

verus! {

/// Without a choice every step runs, once, and in the order discovery, on-chain check, downstream check and
/// annotation. With a choice that step runs, and no other but for the downstream check before an annotation.
pub proof fn law_steps(step: Step)
    ensures
        steps_of(None) == seq![Step::Discover, Step::Onchain, Step::Downstream, Step::Annotate],
        steps_of(Some(step)).last() == step,
        step != Step::Annotate ==> steps_of(Some(step)).len() == 1,
        steps_of(Some(Step::Annotate)) == seq![Step::Downstream, Step::Annotate],
{
    assert(steps_of(None) =~= seq![Step::Discover, Step::Onchain, Step::Downstream, Step::Annotate]);
}

/// What needs annotation after pull requests were found: what did before and what was found, where not all
/// pull requests need it anyway.
pub proof fn law_dirty(dirty: Option<HashSet<u64>>, found: Set<u64>, pr: u64)
    ensures
        dirty is None ==> extended(dirty_view(dirty), found) is None,
        dirty matches Some(set) ==> {
            &&& dirty_view(dirty) == Some(set@)
            &&& extended(dirty_view(dirty), found) is Some
            &&& extended(dirty_view(dirty), found)->0.contains(pr) <==> set@.contains(pr) || found.contains(pr)
        },
{
}

/// A discovery finds the pull requests of the new releases, and no others: those that a crate of a release with
/// one of the new tags brought.
pub proof fn law_discovery_finds(state: State, new_tags: Vec<String>, pr: u64)
    ensures
        found_by(state@, Outcome::Discovered { new_tags }).contains(pr) <==> exists|t: int, i: int, j: int|
            #![trigger new_tags@[t], state.releases@[i].crates@[j]]
            {
                &&& 0 <= t < new_tags@.len()
                &&& 0 <= i < state.releases@.len()
                &&& 0 <= j < state.releases@[i].crates@.len()
                &&& state.releases@[i].tag@ == new_tags@[t]@
                &&& state.releases@[i].crates@[j].prs@.contains(pr)
            },
{
    let tags = texts(new_tags@);
    let releases = state@.releases;
    if prs_of_tags(releases, tags).contains(pr) {
        let tag = choose|tag: Seq<char>| #[trigger] tags.contains(tag) && crate::plan::tagged(releases, pr, tag);
        let t = tags.index_of(tag);
        let i = choose|i: int|
            0 <= i < releases.len() && (#[trigger] releases[i]).tag == tag && crate::project::listed(releases[i].crates, pr);
        let crates = releases[i].crates;
        let j = choose|j: int| 0 <= j < crates.len() && #[trigger] crates[j].prs.contains(pr);
        assert(new_tags@[t]@ == tags[t]);
        assert(state.releases@[i].crates@[j].prs@.contains(pr));
    }
    if exists|t: int, i: int, j: int|
        #![trigger new_tags@[t], state.releases@[i].crates@[j]]
        {
            &&& 0 <= t < new_tags@.len()
            &&& 0 <= i < state.releases@.len()
            &&& 0 <= j < state.releases@[i].crates@.len()
            &&& state.releases@[i].tag@ == new_tags@[t]@
            &&& state.releases@[i].crates@[j].prs@.contains(pr)
        } {
        let (t, i, j) = choose|t: int, i: int, j: int|
            #![trigger new_tags@[t], state.releases@[i].crates@[j]]
            {
                &&& 0 <= t < new_tags@.len()
                &&& 0 <= i < state.releases@.len()
                &&& 0 <= j < state.releases@[i].crates@.len()
                &&& state.releases@[i].tag@ == new_tags@[t]@
                &&& state.releases@[i].crates@[j].prs@.contains(pr)
            };
        let tag = tags[t];
        let crates = releases[i].crates;
        assert(crates[j].prs.contains(pr));
        assert(crate::project::listed(crates, pr));
        assert(releases[i].tag == tag);
        assert(crate::plan::tagged(releases, pr, tag));
        assert(tags.contains(tag));
    }
}

/// The pull requests of chosen crates, release by release.
proof fn lemma_brought(state: State, chosen: spec_fn(CrateView) -> bool, pr: u64)
    ensures
        crate::runner::prs_brought(published(state@.releases), chosen).contains(pr) <==> exists|i: int, j: int|
            {
                &&& 0 <= i < state.releases@.len()
                &&& 0 <= j < state.releases@[i].crates@.len()
                &&& chosen((#[trigger] state.releases@[i].crates@[j])@)
                &&& state.releases@[i].crates@[j].prs@.contains(pr)
            },
{
    let releases = state@.releases;
    let all = published(releases);
    if crate::runner::prs_brought(all, chosen).contains(pr) {
        let k = choose|k: int| 0 <= k < all.len() && chosen(#[trigger] all[k]) && all[k].prs.contains(pr);
        crate::laws::project::law_published_by_a_release(releases, all[k]);
        assert(all.contains(all[k]));
        let (i, j) = choose|i: int, j: int|
            0 <= i < releases.len() && 0 <= j < releases[i].crates.len() && #[trigger] releases[i].crates[j] == all[k];
        assert(state.releases@[i].crates@[j]@ == all[k]);
    }
    if exists|i: int, j: int|
        {
            &&& 0 <= i < state.releases@.len()
            &&& 0 <= j < state.releases@[i].crates@.len()
            &&& chosen((#[trigger] state.releases@[i].crates@[j])@)
            &&& state.releases@[i].crates@[j].prs@.contains(pr)
        } {
        let (i, j) = choose|i: int, j: int|
            {
                &&& 0 <= i < state.releases@.len()
                &&& 0 <= j < state.releases@[i].crates@.len()
                &&& chosen((#[trigger] state.releases@[i].crates@[j])@)
                &&& state.releases@[i].crates@[j].prs@.contains(pr)
            };
        let c = state.releases@[i].crates@[j]@;
        assert(releases[i].crates[j] == c);
        crate::laws::project::law_published_by_a_release(releases, c);
        assert(all.contains(c));
        assert(chosen(all[all.index_of(c)]));
    }
}

/// A downstream check finds the pull requests of the updated crates, and no others: those that a released crate
/// brought whose name and version are among the updates.
pub proof fn law_downstream_check_finds(state: State, crate_updates: CrateUpdates, pr: u64)
    ensures
        found_by(state@, Outcome::Examined { crate_updates }).contains(pr) <==> exists|i: int, j: int|
            {
                &&& 0 <= i < state.releases@.len()
                &&& 0 <= j < state.releases@[i].crates@.len()
                &&& crate_updates@.contains(
                    UpdateKey {
                        name: (#[trigger] state.releases@[i].crates@[j]).name@,
                        version: state.releases@[i].crates@[j].version@,
                    },
                )
                &&& state.releases@[i].crates@[j].prs@.contains(pr)
            },
{
    let chosen = |c: CrateView| crate_updates@.contains(UpdateKey { name: c.name, version: c.version });
    lemma_brought(state, chosen, pr);
    assert(found_by(state@, Outcome::Examined { crate_updates }) =~= crate::runner::prs_brought(
        published(state@.releases),
        chosen,
    ));
    if found_by(state@, Outcome::Examined { crate_updates }).contains(pr) {
        let (i, j) = choose|i: int, j: int|
            {
                &&& 0 <= i < state.releases@.len()
                &&& 0 <= j < state.releases@[i].crates@.len()
                &&& chosen((#[trigger] state.releases@[i].crates@[j])@)
                &&& state.releases@[i].crates@[j].prs@.contains(pr)
            };
        assert(state.releases@[i].crates@[j].prs@.contains(pr));
    }
    if exists|i: int, j: int|
        {
            &&& 0 <= i < state.releases@.len()
            &&& 0 <= j < state.releases@[i].crates@.len()
            &&& crate_updates@.contains(
                UpdateKey {
                    name: (#[trigger] state.releases@[i].crates@[j]).name@,
                    version: state.releases@[i].crates@[j].version@,
                },
            )
            &&& state.releases@[i].crates@[j].prs@.contains(pr)
        } {
        let (i, j) = choose|i: int, j: int|
            {
                &&& 0 <= i < state.releases@.len()
                &&& 0 <= j < state.releases@[i].crates@.len()
                &&& crate_updates@.contains(
                    UpdateKey {
                        name: (#[trigger] state.releases@[i].crates@[j]).name@,
                        version: state.releases@[i].crates@[j].version@,
                    },
                )
                &&& state.releases@[i].crates@[j].prs@.contains(pr)
            };
        assert(chosen(state.releases@[i].crates@[j]@));
    }
}

/// An on-chain check finds the pull requests of the upgraded runtimes, of every one of them, and no others: those
/// that a released crate brought on which an upgraded runtime depends.
pub proof fn law_onchain_check_finds(state: State, previous: Vec<Option<u64>>, upgraded: Vec<usize>, pr: u64)
    requires
        forall|k: int| 0 <= k < upgraded@.len() ==> #[trigger] upgraded@[k] < state.runtimes@.len(),
    ensures
        found_by(state@, Outcome::Observed { previous, upgraded }).contains(pr) <==> exists|k: int, i: int, j: int|
            #![trigger upgraded@[k], state.releases@[i].crates@[j]]
            {
                &&& 0 <= k < upgraded@.len()
                &&& 0 <= i < state.releases@.len()
                &&& 0 <= j < state.releases@[i].crates@.len()
                &&& state.runtimes@[upgraded@[k] as int].downstream.deps@.contains(state.releases@[i].crates@[j].name@)
                &&& state.releases@[i].crates@[j].prs@.contains(pr)
            },
{
    let chosen = |c: CrateView| deps_of(state@.runtimes, upgraded@).contains(c.name);
    lemma_brought(state, chosen, pr);
    let outcome = Outcome::Observed { previous, upgraded };
    assert(found_by(state@, outcome) =~= crate::runner::prs_brought(published(state@.releases), chosen));
    if found_by(state@, outcome).contains(pr) {
        let (i, j) = choose|i: int, j: int|
            {
                &&& 0 <= i < state.releases@.len()
                &&& 0 <= j < state.releases@[i].crates@.len()
                &&& chosen((#[trigger] state.releases@[i].crates@[j])@)
                &&& state.releases@[i].crates@[j].prs@.contains(pr)
            };
        let name = state.releases@[i].crates@[j].name@;
        let k = choose|k: int|
            0 <= k < upgraded@.len() && state@.runtimes[(#[trigger] upgraded@[k]) as int].deps.contains(name);
        assert(state.runtimes@[upgraded@[k] as int].downstream.deps@.contains(name));
    }
    if exists|k: int, i: int, j: int|
        #![trigger upgraded@[k], state.releases@[i].crates@[j]]
        {
            &&& 0 <= k < upgraded@.len()
            &&& 0 <= i < state.releases@.len()
            &&& 0 <= j < state.releases@[i].crates@.len()
            &&& state.runtimes@[upgraded@[k] as int].downstream.deps@.contains(state.releases@[i].crates@[j].name@)
            &&& state.releases@[i].crates@[j].prs@.contains(pr)
        } {
        let (k, i, j) = choose|k: int, i: int, j: int|
            #![trigger upgraded@[k], state.releases@[i].crates@[j]]
            {
                &&& 0 <= k < upgraded@.len()
                &&& 0 <= i < state.releases@.len()
                &&& 0 <= j < state.releases@[i].crates@.len()
                &&& state.runtimes@[upgraded@[k] as int].downstream.deps@.contains(state.releases@[i].crates@[j].name@)
                &&& state.releases@[i].crates@[j].prs@.contains(pr)
            };
        assert(state@.runtimes[upgraded@[k] as int].deps.contains(state.releases@[i].crates@[j].name@));
        assert(chosen(state.releases@[i].crates@[j]@));
    }
}

/// An annotation finds nothing: it leaves what needs annotation as it is.
pub proof fn law_annotation_finds_nothing(state: State, stats: AnnotationStats, dirty: Option<HashSet<u64>>)
    ensures
        extended(dirty_view(dirty), found_by(state@, Outcome::Annotated { stats })) == dirty_view(dirty),
{
    if let Some(set) = dirty {
        assert(set@.union(found_by(state@, Outcome::Annotated { stats })) =~= set@);
    }
}

/// The report of a discovery gives the new tags.
pub proof fn law_discovery_report(summary: StepSummary, state: State, new_tags: Vec<String>)
    requires
        reports(summary, state@, Outcome::Discovered { new_tags }),
    ensures
        summary == (StepSummary::Discover { new_tags }),
{
}

/// The report of a downstream check gives, for each runtime, the greatest enacted spec version, and the number of
/// updates of crates on which it depends.
pub proof fn law_downstream_report(summary: StepSummary, state: State, crate_updates: CrateUpdates, k: int)
    requires
        reports(summary, state@, Outcome::Examined { crate_updates }),
        0 <= k < state.runtimes@.len(),
        Set::new(
            |u: UpdateKey| crate_updates@.contains(u) && state.runtimes@[k].downstream.deps@.contains(u.name),
        ).len() <= usize::MAX,
    ensures
        summary matches StepSummary::Downstream { runtimes } && {
            let entry = runtimes@[k];
            let upgrades = state.runtimes@[k].upgrades@;
            &&& runtimes@.len() == state.runtimes@.len()
            &&& entry.current_spec is None <==> upgrades.len() == 0
            &&& entry.current_spec matches Some(spec) ==> {
                &&& exists|i: int| 0 <= i < upgrades.len() && (#[trigger] upgrades[i]).spec_version == spec
                &&& forall|i: int| 0 <= i < upgrades.len() ==> (#[trigger] upgrades[i]).spec_version <= spec
            }
            &&& entry.crate_updates == Set::new(
                |u: UpdateKey| crate_updates@.contains(u) && state.runtimes@[k].downstream.deps@.contains(u.name),
            ).len()
        },
{
    lemma_greatest(state, k);
    assert(updates_in(crate_updates@, state.runtimes@[k].downstream.deps@) =~= Set::new(
        |u: UpdateKey| crate_updates@.contains(u) && state.runtimes@[k].downstream.deps@.contains(u.name),
    ));
}

proof fn lemma_greatest(state: State, k: int)
    requires
        0 <= k < state.runtimes@.len(),
    ensures
        ({
            let spec = state@.runtimes[k].onchain_spec();
            let upgrades = state.runtimes@[k].upgrades@;
            &&& spec is None <==> upgrades.len() == 0
            &&& spec matches Some(s) ==> {
                &&& exists|i: int| 0 <= i < upgrades.len() && (#[trigger] upgrades[i]).spec_version == s
                &&& forall|i: int| 0 <= i < upgrades.len() ==> (#[trigger] upgrades[i]).spec_version <= s
            }
        }),
{
    let runtime = state.runtimes@[k];
    let specs = runtime@.specs;
    let upgrades = runtime.upgrades@;
    crate::state::law_greatest(specs);
    assert forall|i: int| 0 <= i < upgrades.len() implies (#[trigger] upgrades[i]).spec_version == specs[i] by {}
    if let Some(s) = crate::state::greatest(specs) {
        let i = specs.index_of(s);
        assert(upgrades[i].spec_version == s);
    }
}

/// The report of an on-chain check gives, for each runtime, the spec version before, and the greatest enacted
/// one, or zero where there is none.
pub proof fn law_onchain_report(summary: StepSummary, state: State, previous: Vec<Option<u64>>, upgraded: Vec<usize>, k: int)
    requires
        reports(summary, state@, Outcome::Observed { previous, upgraded }),
        0 <= k < state.runtimes@.len(),
    ensures
        summary matches StepSummary::Onchain { runtimes } && {
            let entry = runtimes@[k];
            let upgrades = state.runtimes@[k].upgrades@;
            &&& runtimes@.len() == state.runtimes@.len()
            &&& entry.previous == previous@[k]
            &&& upgrades.len() == 0 ==> entry.current == 0
            &&& upgrades.len() > 0 ==> exists|i: int|
                0 <= i < upgrades.len() && (#[trigger] upgrades[i]).spec_version == entry.current
            &&& forall|i: int| 0 <= i < upgrades.len() ==> (#[trigger] upgrades[i]).spec_version <= entry.current
        },
{
    lemma_greatest(state, k);
}

/// The report of an annotation gives, for each runtime, the spec version of the code, and the number of pull
/// requests; and the annotations.
pub proof fn law_annotation_report(summary: StepSummary, state: State, stats: AnnotationStats, k: int)
    requires
        reports(summary, state@, Outcome::Annotated { stats }),
        0 <= k < state.runtimes@.len(),
    ensures
        summary matches StepSummary::Annotate { runtimes, details } && {
            &&& details == stats.details
            &&& runtimes@.len() == state.runtimes@.len()
            &&& runtimes@[k].version == state.runtimes@[k].downstream.spec_version
            &&& runtimes@[k].prs == stats.per_runtime@[k]
        },
{
}

/// What an outcome must meet to be reported on: each runtime has an entry, and none is upgraded that is not there.
pub proof fn law_fits(state: State, previous: Vec<Option<u64>>, upgraded: Vec<usize>, stats: AnnotationStats, new_tags: Vec<String>, crate_updates: CrateUpdates)
    ensures
        fits(state@, Outcome::Discovered { new_tags }),
        fits(state@, Outcome::Examined { crate_updates }),
        fits(state@, Outcome::Observed { previous, upgraded }) <==> previous@.len() >= state.runtimes@.len() && forall|k: int|
            0 <= k < upgraded@.len() ==> #[trigger] upgraded@[k] < state.runtimes@.len(),
        fits(state@, Outcome::Annotated { stats }) <==> stats.per_runtime@.len() >= state.runtimes@.len(),
{
    let n = state.runtimes@.len();
    assert(state@.runtimes.len() == n);
    let outcome = Outcome::Observed { previous, upgraded };
    if fits(state@, outcome) {
        assert(outcome->upgraded == upgraded);
        assert(forall|k: int| 0 <= k < upgraded@.len() ==> #[trigger] upgraded@[k] < state@.runtimes.len());
        assert forall|k: int| 0 <= k < upgraded@.len() implies #[trigger] upgraded@[k] < n by {}
    }
}

/// An update is known by its name and its version.
pub proof fn law_update_view(update: CrateUpdate)
    ensures
        update@.name == update.name@,
        update@.version == update.version@,
{
}

/// The updates that concern some crates are those of these crates, in whatever version.
pub proof fn law_updates_in(updates: Set<UpdateKey>, names: Set<Seq<char>>, update: UpdateKey)
    ensures
        updates_in(updates, names).contains(update) <==> updates.contains(update) && names.contains(update.name),
{
}

} // verus!
