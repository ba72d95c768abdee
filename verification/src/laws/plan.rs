//! Laws of what is annotated.
use std::collections::HashSet;

use vstd::prelude::*;

use crate::laws::project::{brought_by, enacted, known, law_listed, law_lookup, law_status, shown};
use crate::plan::{
    crates_for, has_number, is_plan, optional_set, pr_status, stats_of, tagged, tags_views, AnnotationStats, PrTags,
    TagsView,
};
use crate::project::{listed, pr_crates, published};
use crate::state::{law_greatest, ReleaseView, RuntimeView};
use crate::text::before;

verus! {

/// Whether a release of that tag holds a crate that brought the pull request.
pub open spec fn released_as(releases: Seq<ReleaseView>, pr: u64, tag: Seq<char>) -> bool {
    exists|i: int, j: int|
        0 <= i < releases.len() && 0 <= j < releases[i].crates.len() && releases[i].tag == tag && (
        #[trigger] releases[i].crates[j]).prs.contains(pr)
}

proof fn lemma_tagged(releases: Seq<ReleaseView>, pr: u64, tag: Seq<char>)
    ensures
        tagged(releases, pr, tag) <==> released_as(releases, pr, tag),
{
    if tagged(releases, pr, tag) {
        let i = choose|i: int|
            0 <= i < releases.len() && (#[trigger] releases[i]).tag == tag && listed(releases[i].crates, pr);
        let crates = releases[i].crates;
        let j = choose|j: int| 0 <= j < crates.len() && #[trigger] crates[j].prs.contains(pr);
        assert(releases[i].crates[j].prs.contains(pr));
    }
    if released_as(releases, pr, tag) {
        let (i, j) = choose|i: int, j: int|
            0 <= i < releases.len() && 0 <= j < releases[i].crates.len() && releases[i].tag == tag && (
            #[trigger] releases[i].crates[j]).prs.contains(pr);
        let crates = releases[i].crates;
        assert(crates[j].prs.contains(pr));
        assert(listed(crates, pr));
        assert(releases[i].tag == tag);
    }
}

/// What is annotated: a pull request exactly where a release holds a crate that brought it and, where there is a
/// set of those to annotate, it is in that set; each once, in ascending order.
pub proof fn law_plan_holds_the_selected(plan: Seq<TagsView>, releases: Seq<ReleaseView>, dirty: Option<Set<u64>>, pr: u64)
    requires
        is_plan(plan, releases, dirty),
    ensures
        (exists|i: int| 0 <= i < plan.len() && (#[trigger] plan[i]).number == pr) <==> known(releases, pr) && (dirty is None
            || dirty->0.contains(pr)),
        forall|i: int, j: int| 0 <= i < j < plan.len() ==> (#[trigger] plan[i]).number < (#[trigger] plan[j]).number,
{
    law_listed(releases, pr);
    assert(has_number(plan, pr) <==> exists|i: int| 0 <= i < plan.len() && (#[trigger] plan[i]).number == pr);
}

/// The tags of a pull request are those of the releases that hold a crate that brought it, in ascending order,
/// each once.
pub proof fn law_plan_holds_the_tags(plan: Seq<TagsView>, releases: Seq<ReleaseView>, dirty: Option<Set<u64>>, i: int, tag: Seq<char>)
    requires
        is_plan(plan, releases, dirty),
        0 <= i < plan.len(),
    ensures
        plan[i].tags.contains(tag) <==> released_as(releases, plan[i].number, tag),
        forall|a: int, b: int| 0 <= a < b < plan[i].tags.len() ==> before(#[trigger] plan[i].tags[a], #[trigger] plan[i].tags[b]),
{
    lemma_tagged(releases, plan[i].number, tag);
    assert(plan[i].tags.contains(tag) <==> tagged(releases, plan[i].number, tag));
}

/// What the logic reads of a plan is what the plan holds.
pub proof fn law_plan_view(plan: Seq<PrTags>, dirty: HashSet<u64>)
    ensures
        tags_views(plan).len() == plan.len(),
        forall|i: int|
            0 <= i < plan.len() ==> (#[trigger] tags_views(plan)[i]).number == plan[i].number && tags_views(plan)[i].tags.len()
                == plan[i].tags@.len(),
        forall|i: int, j: int|
            0 <= i < plan.len() && 0 <= j < plan[i].tags@.len() ==> #[trigger] tags_views(plan)[i].tags[j]
                == plan[i].tags@[j]@,
        optional_set(None) is None,
        optional_set(Some(&dirty)) == Some(dirty@),
{
}

/// The crates of a runtime's dependencies that brought a pull request.
pub open spec fn used_for(runtime: RuntimeView, releases: Seq<ReleaseView>, pr: u64) -> Set<Seq<char>> {
    Set::new(
        |name: Seq<char>| runtime.deps.contains(name) && exists|v: Seq<char>| brought_by(releases, pr, name, v),
    )
}

/// Those of them that the runtime locks in a version that brought it.
pub open spec fn picked_up_for(runtime: RuntimeView, releases: Seq<ReleaseView>, pr: u64) -> Set<Seq<char>> {
    Set::new(
        |name: Seq<char>|
            runtime.deps.contains(name) && runtime.versions.contains_key(name) && brought_by(
                releases,
                pr,
                name,
                runtime.versions[name],
            ),
    )
}

/// The status of a pull request in a runtime, from the releases: it follows from the crates that the runtime
/// depends on, which of them brought the pull request in the very version that the runtime locks, and the spec
/// versions of the code and on-chain.
pub proof fn law_pr_status(runtime: RuntimeView, releases: Seq<ReleaseView>, pr: u64, onchain: u64)
    requires
        enacted(runtime, onchain),
    ensures
        pr_status(runtime, releases, pr) == if picked_up_for(runtime, releases, pr).len() == 0 {
            Seq::empty()
        } else {
            shown(
                match runtime.code_spec {
                    Some(code) => code,
                    None => 0,
                },
                onchain,
                picked_up_for(runtime, releases, pr).len(),
                used_for(runtime, releases, pr).len(),
            )
        },
{
    let all = published(releases);
    let lookup = pr_crates(all);
    let picked = picked_up_for(runtime, releases, pr);
    let wanted = used_for(runtime, releases, pr);
    law_lookup(releases, pr, Seq::empty(), Seq::empty());
    if known(releases, pr) {
        let crates = lookup[pr];
        crate::laws::project::lemma_crates_finite(all, pr);
        law_status(runtime, crates, onchain);
        assert forall|name: Seq<char>| crate::laws::project::used(runtime, crates).contains(name) <==> wanted.contains(name) by {
            law_lookup(releases, pr, name, Seq::empty());
        }
        assert(crate::laws::project::used(runtime, crates) =~= wanted);
        assert forall|name: Seq<char>| crate::laws::project::picked_up(runtime, crates).contains(name) <==> picked.contains(
            name,
        ) by {
            law_lookup(releases, pr, name, runtime.versions[name]);
        }
        assert(crate::laws::project::picked_up(runtime, crates) =~= picked);
    } else {
        assert forall|name: Seq<char>| !picked.contains(name) by {
            if brought_by(releases, pr, name, runtime.versions[name]) {
                let (i, j) = choose|i: int, j: int|
                    0 <= i < releases.len() && 0 <= j < releases[i].crates.len() && (#[trigger] releases[i].crates[j]).name == name
                        && releases[i].crates[j].version == runtime.versions[name] && releases[i].crates[j].prs.contains(pr);
                assert(releases[i].crates[j].prs.contains(pr));
            }
        }
        assert(picked =~= Set::empty());
    }
}

/// A pull request has a status in a runtime exactly where a release holds a crate that brought it, on which the
/// runtime depends, in the very version that the runtime locks.
pub proof fn law_pr_has_status(runtime: RuntimeView, releases: Seq<ReleaseView>, pr: u64)
    ensures
        pr_status(runtime, releases, pr).len() > 0 <==> exists|i: int, j: int|
            {
                &&& 0 <= i < releases.len()
                &&& 0 <= j < releases[i].crates.len()
                &&& (#[trigger] releases[i].crates[j]).prs.contains(pr)
                &&& runtime.deps.contains(releases[i].crates[j].name)
                &&& runtime.versions.contains_key(releases[i].crates[j].name)
                &&& runtime.versions[releases[i].crates[j].name] == releases[i].crates[j].version
            },
{
    let onchain = match runtime.onchain_spec() {
        Some(n) => n,
        None => 0,
    };
    law_greatest(runtime.specs);
    law_pr_status(runtime, releases, pr, onchain);
    let picked = picked_up_for(runtime, releases, pr);
    reveal_strlit("pending v");
    reveal_strlit("v");
    reveal_strlit("pending > v");
    if picked.len() > 0 {
        let name = picked.choose();
        assert(picked.contains(name));
        let (i, j) = choose|i: int, j: int|
            0 <= i < releases.len() && 0 <= j < releases[i].crates.len() && (#[trigger] releases[i].crates[j]).name == name
                && releases[i].crates[j].version == runtime.versions[name] && releases[i].crates[j].prs.contains(pr);
        assert(releases[i].crates[j].prs.contains(pr));
    }
    if exists|i: int, j: int|
        {
            &&& 0 <= i < releases.len()
            &&& 0 <= j < releases[i].crates.len()
            &&& (#[trigger] releases[i].crates[j]).prs.contains(pr)
            &&& runtime.deps.contains(releases[i].crates[j].name)
            &&& runtime.versions.contains_key(releases[i].crates[j].name)
            &&& runtime.versions[releases[i].crates[j].name] == releases[i].crates[j].version
        } {
        let (i, j) = choose|i: int, j: int|
            {
                &&& 0 <= i < releases.len()
                &&& 0 <= j < releases[i].crates.len()
                &&& (#[trigger] releases[i].crates[j]).prs.contains(pr)
                &&& runtime.deps.contains(releases[i].crates[j].name)
                &&& runtime.versions.contains_key(releases[i].crates[j].name)
                &&& runtime.versions[releases[i].crates[j].name] == releases[i].crates[j].version
            };
        let name = releases[i].crates[j].name;
        assert(brought_by(releases, pr, name, runtime.versions[name]));
        assert(picked.contains(name));
        lemma_picked_finite(runtime, releases, pr);
        vstd::set_lib::lemma_set_empty_equivalency_len(picked);
    }
}

proof fn lemma_picked_finite(runtime: RuntimeView, releases: Seq<ReleaseView>, pr: u64)
    ensures
        picked_up_for(runtime, releases, pr).finite(),
{
    let all = published(releases);
    let picked = picked_up_for(runtime, releases, pr);
    crate::laws::project::lemma_crates_finite(all, pr);
    let names = crate::project::crates_with(all, pr).dom();
    assert forall|name: Seq<char>| picked.contains(name) implies names.contains(name) by {
        law_lookup(releases, pr, name, runtime.versions[name]);
        let (i, j) = choose|i: int, j: int|
            0 <= i < releases.len() && 0 <= j < releases[i].crates.len() && (#[trigger] releases[i].crates[j]).name == name
                && releases[i].crates[j].version == runtime.versions[name] && releases[i].crates[j].prs.contains(pr);
        assert(releases[i].crates[j].prs.contains(pr));
        assert(known(releases, pr));
    }
    vstd::set_lib::lemma_set_subset_finite(names, picked);
}

/// What annotations amount to: a count for each runtime and, only where they are asked for, an entry for each
/// pull request with a status for each runtime.
pub proof fn law_stats(plan: Seq<TagsView>, runtimes: Seq<RuntimeView>, releases: Seq<ReleaseView>, verbose: bool, i: int, k: int)
    ensures
        stats_of(plan, runtimes, releases, verbose).per_runtime.len() == runtimes.len(),
        stats_of(plan, runtimes, releases, verbose).details.len() == if verbose {
            plan.len()
        } else {
            0
        },
        verbose && 0 <= i < plan.len() ==> {
            let entry = stats_of(plan, runtimes, releases, verbose).details[i];
            &&& entry.number == plan[i].number
            &&& entry.statuses.len() == runtimes.len()
            &&& 0 <= k < runtimes.len() ==> entry.statuses[k] == pr_status(runtimes[k], releases, plan[i].number)
        },
{
}

/// A pull request more counts for a runtime exactly where it has a status in it.
pub proof fn law_stats_count(plan: Seq<TagsView>, entry: TagsView, runtimes: Seq<RuntimeView>, releases: Seq<ReleaseView>, verbose: bool, k: int)
    requires
        0 <= k < runtimes.len(),
    ensures
        stats_of(Seq::empty(), runtimes, releases, verbose).per_runtime[k] == 0,
        stats_of(plan.push(entry), runtimes, releases, verbose).per_runtime[k] == stats_of(
            plan,
            runtimes,
            releases,
            verbose,
        ).per_runtime[k] + if pr_status(runtimes[k], releases, entry.number).len() > 0 {
            1int
        } else {
            0
        },
{
    reveal(Seq::filter);
    assert(plan.push(entry).drop_last() =~= plan);
}

/// What the logic reads of the stats is what the stats hold.
pub proof fn law_stats_view(stats: AnnotationStats)
    ensures
        stats@.per_runtime.len() == stats.per_runtime@.len(),
        forall|k: int| 0 <= k < stats.per_runtime@.len() ==> #[trigger] stats@.per_runtime[k] == stats.per_runtime@[k],
        stats@.details.len() == stats.details@.len(),
        forall|i: int|
            0 <= i < stats.details@.len() ==> (#[trigger] stats@.details[i]).number == stats.details@[i].number
                && stats@.details[i].statuses.len() == stats.details@[i].statuses@.len(),
        forall|i: int, k: int|
            0 <= i < stats.details@.len() && 0 <= k < stats.details@[i].statuses@.len() ==> #[trigger]
                stats@.details[i].statuses[k] == stats.details@[i].statuses@[k]@,
{
}

/// The crates of a pull request in a lookup are those that the lookup has for it.
pub proof fn law_crates_for(lookup: Map<u64, Map<Seq<char>, Seq<Seq<char>>>>, pr: u64)
    ensures
        lookup.contains_key(pr) ==> crates_for(lookup, pr) == Some(lookup[pr]),
        !lookup.contains_key(pr) ==> crates_for(lookup, pr) is None,
{
}

} // verus!
