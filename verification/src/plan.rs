//! Which pull requests to annotate, and with what.
use std::collections::{HashMap, HashSet};

use vstd::prelude::*;

use crate::collections::StringMap;
use crate::project::{
    compute_runtime_status, crate_map_texts, lemma_listed_push, listed, pr_crates, published, status, version_texts,
};
use crate::state::{ReleaseView, Runtime, RuntimeView, State};
use crate::text::{ascending, before, insert_ascending, law_before_irreflexive, law_before_transitive, texts};

verus! {

broadcast use vstd::std_specs::hash::group_hash_axioms;

/// A pull request with the tags of the releases that contain it.
pub struct PrTags {
    /// Number of the pull request.
    pub number: u64,
    /// Tags of its releases.
    pub tags: Vec<String>,
}

/// A pull request with the tags of the releases that contain it.
pub struct TagsView {
    pub number: u64,
    pub tags: Seq<Seq<char>>,
}

impl View for PrTags {
    type V = TagsView;

    open spec fn view(&self) -> TagsView {
        TagsView { number: self.number, tags: texts(self.tags@) }
    }
}

/// A list of pull requests, each with its tags.
pub open spec fn tags_views(plan: Seq<PrTags>) -> Seq<TagsView> {
    plan.map_values(|p: PrTags| p@)
}

/// Whether a pull request is to be annotated: all are, unless there is a set of those that are.
pub open spec fn selected(dirty: Option<Set<u64>>, pr: u64) -> bool {
    dirty matches Some(set) ==> set.contains(pr)
}

/// Whether a release of that tag contains the pull request.
pub open spec fn tagged(releases: Seq<ReleaseView>, pr: u64, tag: Seq<char>) -> bool {
    exists|i: int|
        0 <= i < releases.len() && (#[trigger] releases[i]).tag == tag && listed(releases[i].crates, pr)
}

/// Whether a pull request stands in a list.
pub open spec fn has_number(plan: Seq<TagsView>, pr: u64) -> bool {
    exists|i: int| 0 <= i < plan.len() && (#[trigger] plan[i]).number == pr
}

/// Whether pull requests stand in ascending order, each once, and so do the tags of each.
pub open spec fn ordered(plan: Seq<TagsView>) -> bool {
    &&& forall|i: int, j: int| 0 <= i < j < plan.len() ==> (#[trigger] plan[i]).number < (#[trigger] plan[j]).number
    &&& forall|i: int| 0 <= i < plan.len() ==> ascending((#[trigger] plan[i]).tags)
}

/// What is to be annotated: the selected pull requests that a release contains, in ascending order, each
/// with the tags of all releases that contain it, in ascending order.
pub open spec fn is_plan(plan: Seq<TagsView>, releases: Seq<ReleaseView>, dirty: Option<Set<u64>>) -> bool {
    &&& ordered(plan)
    &&& forall|pr: u64| #[trigger] has_number(plan, pr) <==> selected(dirty, pr) && listed(published(releases), pr)
    &&& forall|i: int, tag: Seq<char>|
        0 <= i < plan.len() ==> ((#[trigger] plan[i]).tags.contains(tag) <==> #[trigger] tagged(
            releases,
            plan[i].number,
            tag,
        ))
}

/// Whether a list gives a pull request a tag.
spec fn notes(plan: Seq<TagsView>, pr: u64, tag: Seq<char>) -> bool {
    exists|i: int| 0 <= i < plan.len() && (#[trigger] plan[i]).number == pr && plan[i].tags.contains(tag)
}

/// Whether a list is in order and gives each pull request some tag.
spec fn well_formed(plan: Seq<TagsView>) -> bool {
    ordered(plan) && forall|i: int| 0 <= i < plan.len() ==> (#[trigger] plan[i]).tags.len() > 0
}

/// Gives a pull request a tag.
fn note_tag(plan: &mut Vec<PrTags>, pr: u64, tag: &str)
    requires
        well_formed(tags_views(old(plan)@)),
    ensures
        well_formed(tags_views(final(plan)@)),
        forall|p: u64, t: Seq<char>|
            notes(tags_views(final(plan)@), p, t) <==> notes(tags_views(old(plan)@), p, t) || (p == pr && t == tag@),
{
    let ghost start = tags_views(plan@);
    let mut i: usize = 0;
    while i < plan.len() && plan[i].number < pr
        invariant
            i <= plan.len(),
            plan@ == old(plan)@,
            start == tags_views(plan@),
            forall|k: int| 0 <= k < i ==> (#[trigger] start[k]).number < pr,
        decreases plan.len() - i,
    {
        i += 1;
    }
    if i < plan.len() && plan[i].number == pr {
        let mut entry = plan.remove(i);
        let ghost earlier = entry@;
        assert(earlier == start[i as int]);
        insert_ascending(&mut entry.tags, tag);
        let ghost later = entry@;
        plan.insert(i, entry);
        proof {
            let now = tags_views(plan@);
            assert(now =~= start.update(i as int, later));
            assert(later.tags.contains(tag@));
            assert(later.number == pr);
            assert forall|p: u64, t: Seq<char>| notes(now, p, t) <==> notes(start, p, t) || (p == pr && t == tag@) by {
                if notes(start, p, t) {
                    let k = choose|k: int| 0 <= k < start.len() && (#[trigger] start[k]).number == p && start[k].tags.contains(t);
                    assert(now[k].number == p && now[k].tags.contains(t));
                }
                if p == pr && t == tag@ {
                    assert(now[i as int].number == p && now[i as int].tags.contains(t));
                }
                if notes(now, p, t) {
                    let k = choose|k: int| 0 <= k < now.len() && (#[trigger] now[k]).number == p && now[k].tags.contains(t);
                    if k != i {
                        assert(start[k] == now[k]);
                    } else if t != tag@ {
                        assert(start[k].number == p && start[k].tags.contains(t));
                    }
                }
            }
        }
    } else {
        let mut tags: Vec<String> = Vec::new();
        tags.push(tag.to_string());
        let entry = PrTags { number: pr, tags };
        let ghost added = entry@;
        plan.insert(i, entry);
        proof {
            let now = tags_views(plan@);
            assert(added.tags =~= seq![tag@]);
            assert(added.tags[0] == tag@);
            assert(now =~= start.insert(i as int, added));
            assert forall|a: int, b: int| 0 <= a < b < now.len() implies (#[trigger] now[a]).number < (#[trigger] now[b]).number by {
                let a0 = if a < i { a } else { a - 1 };
                let b0 = if b < i { b } else { b - 1 };
                if a != i {
                    assert(now[a] == start[a0]);
                }
                if b != i {
                    assert(now[b] == start[b0]);
                }
                if a == i && b0 != i {
                    assert(start[i as int].number < start[b0].number);
                }
            }
            assert forall|a: int| 0 <= a < now.len() implies ascending((#[trigger] now[a]).tags) && now[a].tags.len() > 0 by {
                if a != i {
                    assert(now[a] == start[if a < i { a } else { a - 1 }]);
                }
            }
            assert forall|p: u64, t: Seq<char>| notes(now, p, t) <==> notes(start, p, t) || (p == pr && t == tag@) by {
                if notes(start, p, t) {
                    let k = choose|k: int| 0 <= k < start.len() && (#[trigger] start[k]).number == p && start[k].tags.contains(t);
                    let k1 = if k < i { k } else { k + 1 };
                    assert(now[k1] == start[k]);
                }
                if p == pr && t == tag@ {
                    assert(now[i as int].number == p && now[i as int].tags.contains(t));
                }
                if notes(now, p, t) {
                    let k = choose|k: int| 0 <= k < now.len() && (#[trigger] now[k]).number == p && now[k].tags.contains(t);
                    if k != i {
                        assert(start[if k < i { k } else { k - 1 }] == now[k]);
                    }
                }
            }
        }
    }
}

/// A release more adds its tag to its pull requests.
proof fn lemma_tagged_take(releases: Seq<ReleaseView>, n: int, pr: u64, tag: Seq<char>)
    requires
        0 <= n < releases.len(),
    ensures
        tagged(releases.take(n + 1), pr, tag) <==> tagged(releases.take(n), pr, tag) || (releases[n].tag == tag
            && listed(releases[n].crates, pr)),
{
    let a = releases.take(n);
    let b = releases.take(n + 1);
    if tagged(a, pr, tag) {
        let i = choose|i: int| 0 <= i < a.len() && (#[trigger] a[i]).tag == tag && listed(a[i].crates, pr);
        assert(b[i] == a[i]);
    }
    if releases[n].tag == tag && listed(releases[n].crates, pr) {
        assert(b[n] == releases[n]);
    }
    if tagged(b, pr, tag) {
        let i = choose|i: int| 0 <= i < b.len() && (#[trigger] b[i]).tag == tag && listed(b[i].crates, pr);
        if i < n {
            assert(a[i] == b[i]);
        }
    }
}

/// A pull request has a tag exactly where a published crate brought it.
pub proof fn law_listed_is_tagged(releases: Seq<ReleaseView>, pr: u64)
    ensures
        listed(published(releases), pr) <==> exists|tag: Seq<char>| tagged(releases, pr, tag),
    decreases releases.len(),
{
    if releases.len() > 0 {
        let init = releases.drop_last();
        let n = releases.len() - 1;
        law_listed_is_tagged(init, pr);
        assert(releases.take(n) =~= init);
        assert(releases.take(n + 1) =~= releases);
        let all = published(releases);
        let some = published(init);
        let last = releases.last().crates;
        if listed(all, pr) {
            let i = choose|i: int| 0 <= i < all.len() && #[trigger] all[i].prs.contains(pr);
            if i < some.len() {
                assert(some[i].prs.contains(pr));
                let tag = choose|tag: Seq<char>| tagged(init, pr, tag);
                lemma_tagged_take(releases, n, pr, tag);
            } else {
                assert(last[i - some.len()].prs.contains(pr));
                lemma_tagged_take(releases, n, pr, releases.last().tag);
                assert(tagged(releases, pr, releases.last().tag));
            }
        }
        if exists|tag: Seq<char>| tagged(releases, pr, tag) {
            let tag = choose|tag: Seq<char>| tagged(releases, pr, tag);
            lemma_tagged_take(releases, n, pr, tag);
            if tagged(init, pr, tag) {
                let i = choose|i: int| 0 <= i < some.len() && #[trigger] some[i].prs.contains(pr);
                assert(all[i].prs.contains(pr));
            } else {
                let i = choose|i: int| 0 <= i < last.len() && #[trigger] last[i].prs.contains(pr);
                assert(all[some.len() + i].prs.contains(pr));
            }
        }
    } else {
        assert(!listed(published(releases), pr));
    }
}

/// The set behind an optional reference.
pub open spec fn optional_set(dirty: Option<&HashSet<u64>>) -> Option<Set<u64>> {
    match dirty {
        Some(set) => Some(set@),
        None => None,
    }
}

/// Lists the pull requests to annotate with their release tags. With a set of pull requests, only those
/// are listed; without one, all are.
pub fn plan_annotations(state: &State, dirty: Option<&HashSet<u64>>) -> (plan: Vec<PrTags>)
    ensures
        is_plan(tags_views(plan@), state@.releases, optional_set(dirty)),
{
    let mut plan: Vec<PrTags> = Vec::new();
    let ghost releases = state@.releases;
    let ghost chosen = optional_set(dirty);
    let mut i: usize = 0;
    while i < state.releases.len()
        invariant
            i <= state.releases.len(),
            releases == state@.releases,
            chosen == optional_set(dirty),
            well_formed(tags_views(plan@)),
            forall|p: u64, t: Seq<char>|
                #[trigger] notes(tags_views(plan@), p, t) <==> selected(chosen, p) && tagged(
                    releases.take(i as int),
                    p,
                    t,
                ),
        decreases state.releases.len() - i,
    {
        let release = &state.releases[i];
        let ghost crates = release@.crates;
        let ghost base = tags_views(plan@);
        let mut j: usize = 0;
        while j < release.crates.len()
            invariant
                j <= release.crates.len(),
                crates == release@.crates,
                chosen == optional_set(dirty),
                well_formed(tags_views(plan@)),
                forall|p: u64, t: Seq<char>|
                    #[trigger] notes(tags_views(plan@), p, t) <==> notes(base, p, t) || (selected(chosen, p)
                        && t == release.tag@ && listed(crates.take(j as int), p)),
            decreases release.crates.len() - j,
        {
            let prs = &release.crates[j].prs;
            let ghost part = tags_views(plan@);
            let mut n: usize = 0;
            while n < prs.len()
                invariant
                    n <= prs.len(),
                    chosen == optional_set(dirty),
                    well_formed(tags_views(plan@)),
                    forall|p: u64, t: Seq<char>|
                        #[trigger] notes(tags_views(plan@), p, t) <==> notes(part, p, t) || (selected(chosen, p)
                            && t == release.tag@ && prs@.take(n as int).contains(p)),
                decreases prs.len() - n,
            {
                let pr: u64 = prs[n];
                let wanted: bool = match dirty {
                    Some(set) => set.contains(&pr),
                    None => true,
                };
                proof {
                    let a = prs@.take(n as int);
                    let b = prs@.take(n + 1);
                    assert forall|p: u64| #[trigger] b.contains(p) <==> a.contains(p) || p == pr by {
                        if a.contains(p) {
                            assert(b[a.index_of(p)] == p);
                        }
                        assert(b[n as int] == pr);
                        if b.contains(p) && p != pr {
                            assert(a[b.index_of(p)] == p);
                        }
                    }
                }
                if wanted {
                    note_tag(&mut plan, pr, release.tag.as_str());
                }
                n += 1;
            }
            proof {
                assert(prs@.take(n as int) =~= prs@);
                assert(crates[j as int].prs == prs@);
                assert(crates.take(j + 1) =~= crates.take(j as int).push(crates[j as int]));
                assert forall|p: u64, t: Seq<char>|
                    #[trigger] notes(tags_views(plan@), p, t) <==> notes(base, p, t) || (selected(chosen, p)
                        && t == release.tag@ && listed(crates.take(j + 1), p)) by {
                    lemma_listed_push(crates.take(j as int), crates[j as int], p);
                }
            }
            j += 1;
        }
        proof {
            assert(crates.take(j as int) =~= crates);
            assert(releases[i as int] == release@);
            assert forall|p: u64, t: Seq<char>|
                #[trigger] notes(tags_views(plan@), p, t) <==> selected(chosen, p) && tagged(
                    releases.take(i + 1),
                    p,
                    t,
                ) by {
                lemma_tagged_take(releases, i as int, p, t);
                assert(notes(base, p, t) <==> selected(chosen, p) && tagged(releases.take(i as int), p, t));
            }
        }
        i += 1;
    }
    proof {
        assert(releases.take(i as int) =~= releases);
        let views = tags_views(plan@);
        assert forall|k: int, t: Seq<char>| 0 <= k < views.len() implies ((#[trigger] views[k]).tags.contains(t) <==> #[trigger] tagged(
            releases,
            views[k].number,
            t,
        )) by {
            let pr = views[k].number;
            let first = views[k].tags[0];
            assert(views[k].tags.contains(first));
            assert(notes(views, pr, first));
            if notes(views, pr, t) {
                let m = choose|m: int| 0 <= m < views.len() && (#[trigger] views[m]).number == pr && views[m].tags.contains(t);
                assert(m == k);
            }
            assert(notes(views, pr, t) <==> views[k].tags.contains(t));
        }
        assert forall|pr: u64| #[trigger] has_number(views, pr) <==> selected(chosen, pr) && listed(published(releases), pr) by {
            law_listed_is_tagged(releases, pr);
            if has_number(views, pr) {
                let k = choose|k: int| 0 <= k < views.len() && (#[trigger] views[k]).number == pr;
                let t = views[k].tags[0];
                assert(views[k].tags.contains(t));
                assert(notes(views, pr, t));
            }
            if selected(chosen, pr) && listed(published(releases), pr) {
                let t = choose|t: Seq<char>| tagged(releases, pr, t);
                assert(notes(views, pr, t));
            }
        }
    }
    plan
}

/// Two ascending lists of the same texts are the same list.
proof fn lemma_ascending_unique(a: Seq<Seq<char>>, b: Seq<Seq<char>>)
    requires
        ascending(a),
        ascending(b),
        forall|t: Seq<char>| #[trigger] a.contains(t) <==> b.contains(t),
    ensures
        a == b,
    decreases a.len(),
{
    if a.len() == 0 {
        if b.len() > 0 {
            assert(b.contains(b[0]));
            assert(a.contains(b[0]));
        }
        assert(a =~= b);
    } else {
        assert(a.contains(a[0]));
        assert(b.len() > 0);
        let x = a.last();
        let y = b.last();
        assert(a.contains(x));
        assert(b.contains(y));
        assert(a.contains(y));
        let k = b.index_of(x);
        let m = a.index_of(y);
        if x != y {
            assert(before(b[k], b[b.len() - 1]));
            assert(before(a[m], a[a.len() - 1]));
            law_before_transitive(x, y, x);
            law_before_irreflexive(x);
        }
        let a0 = a.drop_last();
        let b0 = b.drop_last();
        assert forall|t: Seq<char>| #[trigger] a0.contains(t) <==> b0.contains(t) by {
            law_before_irreflexive(x);
            if a0.contains(t) {
                let i = a0.index_of(t);
                assert(a[i] == t && before(a[i], a[a.len() - 1]));
                assert(a.contains(t));
                let j = b.index_of(t);
                assert(b0[j] == t);
            }
            if b0.contains(t) {
                let i = b0.index_of(t);
                assert(b[i] == t && before(b[i], b[b.len() - 1]));
                assert(b.contains(t));
                assert(a.contains(t));
                let j = a.index_of(t);
                assert(a0[j] == t);
            }
        }
        assert(ascending(a0)) by {
            assert forall|i: int, j: int| 0 <= i < j < a0.len() implies before(#[trigger] a0[i], #[trigger] a0[j]) by {
                assert(before(a[i], a[j]));
            }
        }
        assert(ascending(b0)) by {
            assert forall|i: int, j: int| 0 <= i < j < b0.len() implies before(#[trigger] b0[i], #[trigger] b0[j]) by {
                assert(before(b[i], b[j]));
            }
        }
        lemma_ascending_unique(a0, b0);
        assert(a =~= a0.push(x));
        assert(b =~= b0.push(y));
    }
}

/// Two lists of the same pull requests in ascending order, with the same tags for each, are the same list.
proof fn lemma_ordered_unique(a: Seq<TagsView>, b: Seq<TagsView>)
    requires
        ordered(a),
        ordered(b),
        forall|pr: u64| #[trigger] has_number(a, pr) <==> has_number(b, pr),
        forall|i: int, j: int|
            0 <= i < a.len() && 0 <= j < b.len() && (#[trigger] a[i]).number == (#[trigger] b[j]).number ==> a[i]
                == b[j],
    ensures
        a == b,
    decreases a.len(),
{
    if a.len() == 0 {
        if b.len() > 0 {
            assert(has_number(b, b[0].number));
            assert(has_number(a, b[0].number));
        }
        assert(a =~= b);
    } else {
        assert(has_number(a, a[0].number));
        assert(b.len() > 0);
        let x = a.last();
        let y = b.last();
        assert(has_number(a, x.number));
        assert(has_number(b, y.number));
        assert(has_number(a, y.number));
        let k = choose|k: int| 0 <= k < b.len() && (#[trigger] b[k]).number == x.number;
        let m = choose|m: int| 0 <= m < a.len() && (#[trigger] a[m]).number == y.number;
        assert(x.number <= y.number);
        assert(y.number <= x.number);
        assert(a[a.len() - 1] == b[b.len() - 1]);
        let a0 = a.drop_last();
        let b0 = b.drop_last();
        assert forall|pr: u64| #[trigger] has_number(a0, pr) <==> has_number(b0, pr) by {
            if has_number(a0, pr) {
                let i = choose|i: int| 0 <= i < a0.len() && (#[trigger] a0[i]).number == pr;
                assert(a[i].number == pr && a[i].number < a[a.len() - 1].number);
                assert(has_number(a, pr));
                let j = choose|j: int| 0 <= j < b.len() && (#[trigger] b[j]).number == pr;
                assert(b0[j].number == pr);
            }
            if has_number(b0, pr) {
                let i = choose|i: int| 0 <= i < b0.len() && (#[trigger] b0[i]).number == pr;
                assert(b[i].number == pr && b[i].number < b[b.len() - 1].number);
                assert(has_number(b, pr));
                assert(has_number(a, pr));
                let j = choose|j: int| 0 <= j < a.len() && (#[trigger] a[j]).number == pr;
                assert(a0[j].number == pr);
            }
        }
        assert(ordered(a0)) by {
            assert forall|i: int, j: int| 0 <= i < j < a0.len() implies (#[trigger] a0[i]).number < (#[trigger] a0[j]).number by {
                assert(a[i].number < a[j].number);
            }
            assert forall|i: int| 0 <= i < a0.len() implies ascending((#[trigger] a0[i]).tags) by {
                assert(ascending(a[i].tags));
            }
        }
        assert(ordered(b0)) by {
            assert forall|i: int, j: int| 0 <= i < j < b0.len() implies (#[trigger] b0[i]).number < (#[trigger] b0[j]).number by {
                assert(b[i].number < b[j].number);
            }
            assert forall|i: int| 0 <= i < b0.len() implies ascending((#[trigger] b0[i]).tags) by {
                assert(ascending(b[i].tags));
            }
        }
        assert forall|i: int, j: int|
            0 <= i < a0.len() && 0 <= j < b0.len() && (#[trigger] a0[i]).number == (#[trigger] b0[j]).number implies a0[i]
            == b0[j] by {
            assert(a[i] == a0[i] && b[j] == b0[j]);
        }
        lemma_ordered_unique(a0, b0);
        assert(a =~= a0.push(x));
        assert(b =~= b0.push(y));
    }
}

/// The releases and the selection determine what is to be annotated.
pub proof fn law_plan_is_determined(
    a: Seq<TagsView>,
    b: Seq<TagsView>,
    releases: Seq<ReleaseView>,
    dirty: Option<Set<u64>>,
)
    requires
        is_plan(a, releases, dirty),
        is_plan(b, releases, dirty),
    ensures
        a == b,
{
    assert forall|pr: u64| #[trigger] has_number(a, pr) <==> has_number(b, pr) by {
        assert(has_number(b, pr) <==> selected(dirty, pr) && listed(published(releases), pr));
    }
    assert forall|i: int, j: int|
        0 <= i < a.len() && 0 <= j < b.len() && (#[trigger] a[i]).number == (#[trigger] b[j]).number implies a[i]
        == b[j] by {
        let pr = a[i].number;
        assert forall|t: Seq<char>| #[trigger] a[i].tags.contains(t) <==> b[j].tags.contains(t) by {
            assert(a[i].tags.contains(t) <==> tagged(releases, pr, t));
            assert(b[j].tags.contains(t) <==> tagged(releases, pr, t));
        }
        lemma_ascending_unique(a[i].tags, b[j].tags);
    }
    lemma_ordered_unique(a, b);
}

/// With a set of pull requests, what is to be annotated is what would be without one, less the others.
pub proof fn law_dirty_restricts(
    some: Seq<TagsView>,
    all: Seq<TagsView>,
    releases: Seq<ReleaseView>,
    dirty: Set<u64>,
)
    requires
        is_plan(some, releases, Some(dirty)),
        is_plan(all, releases, None),
    ensures
        forall|entry: TagsView| #[trigger] some.contains(entry) <==> all.contains(entry) && dirty.contains(entry.number),
{
    assert forall|i: int, j: int|
        0 <= i < some.len() && 0 <= j < all.len() && (#[trigger] some[i]).number == (#[trigger] all[j]).number implies some[i]
        == all[j] by {
        let pr = some[i].number;
        assert forall|t: Seq<char>| #[trigger] some[i].tags.contains(t) <==> all[j].tags.contains(t) by {
            assert(some[i].tags.contains(t) <==> tagged(releases, pr, t));
            assert(all[j].tags.contains(t) <==> tagged(releases, pr, t));
        }
        lemma_ascending_unique(some[i].tags, all[j].tags);
    }
    assert forall|entry: TagsView| #[trigger] some.contains(entry) <==> all.contains(entry) && dirty.contains(entry.number) by {
        if some.contains(entry) {
            let i = some.index_of(entry);
            assert(some[i].number == entry.number);
            assert(has_number(some, entry.number));
            assert(has_number(all, entry.number));
            let j = choose|j: int| 0 <= j < all.len() && (#[trigger] all[j]).number == entry.number;
            assert(all[j] == entry);
        }
        if all.contains(entry) && dirty.contains(entry.number) {
            let j = all.index_of(entry);
            assert(all[j].number == entry.number);
            assert(has_number(all, entry.number));
            assert(has_number(some, entry.number));
            let i = choose|i: int| 0 <= i < some.len() && (#[trigger] some[i]).number == entry.number;
            assert(some[i] == entry);
        }
    }
}

/// What a pull request is annotated with.
pub struct PrAnnotation {
    /// Number of the pull request.
    pub number: u64,
    /// Its status in each runtime, empty where it has none.
    pub statuses: Vec<String>,
}

/// What the annotations amount to.
pub struct AnnotationStats {
    /// For each runtime, the number of pull requests that have a status in it.
    pub per_runtime: Vec<usize>,
    /// The annotations, where they are asked for.
    pub details: Vec<PrAnnotation>,
}

/// What a pull request is annotated with.
pub struct AnnotationView {
    pub number: u64,
    pub statuses: Seq<Seq<char>>,
}

impl View for PrAnnotation {
    type V = AnnotationView;

    open spec fn view(&self) -> AnnotationView {
        AnnotationView { number: self.number, statuses: texts(self.statuses@) }
    }
}

/// What the annotations amount to.
pub struct StatsView {
    pub per_runtime: Seq<nat>,
    pub details: Seq<AnnotationView>,
}

impl View for AnnotationStats {
    type V = StatsView;

    open spec fn view(&self) -> StatsView {
        StatsView {
            per_runtime: self.per_runtime@.map_values(|n: usize| n as nat),
            details: self.details@.map_values(|d: PrAnnotation| d@),
        }
    }
}

/// The crates that brought a pull request, where any did.
pub open spec fn crates_for(
    crates: Map<u64, Map<Seq<char>, Seq<Seq<char>>>>,
    pr: u64,
) -> Option<Map<Seq<char>, Seq<Seq<char>>>> {
    if crates.contains_key(pr) {
        Some(crates[pr])
    } else {
        None
    }
}

/// The status of a pull request in a runtime, as the releases have it.
pub open spec fn pr_status(runtime: RuntimeView, releases: Seq<ReleaseView>, pr: u64) -> Seq<char> {
    status(runtime, crates_for(pr_crates(published(releases)), pr))
}

/// The pull requests of a list that have a status in a runtime.
pub open spec fn with_status(plan: Seq<TagsView>, runtime: RuntimeView, releases: Seq<ReleaseView>) -> Seq<TagsView> {
    plan.filter(|p: TagsView| pr_status(runtime, releases, p.number).len() > 0)
}

/// The annotation of a pull request: its status in each runtime.
pub open spec fn annotation(entry: TagsView, runtimes: Seq<RuntimeView>, releases: Seq<ReleaseView>) -> AnnotationView {
    AnnotationView {
        number: entry.number,
        statuses: Seq::new(runtimes.len(), |k: int| pr_status(runtimes[k], releases, entry.number)),
    }
}

/// What the annotations of a list of pull requests amount to.
pub open spec fn stats_of(
    plan: Seq<TagsView>,
    runtimes: Seq<RuntimeView>,
    releases: Seq<ReleaseView>,
    verbose: bool,
) -> StatsView {
    StatsView {
        per_runtime: Seq::new(runtimes.len(), |k: int| with_status(plan, runtimes[k], releases).len()),
        details: if verbose {
            Seq::new(plan.len(), |i: int| annotation(plan[i], runtimes, releases))
        } else {
            Seq::empty()
        },
    }
}

/// Where annotations are asked for, every pull request of the list has one, in the order of the list, with
/// its status in each runtime.
pub proof fn law_verbose_lists_every_pr(
    plan: Seq<TagsView>,
    runtimes: Seq<RuntimeView>,
    releases: Seq<ReleaseView>,
    i: int,
    k: int,
)
    requires
        0 <= i < plan.len(),
        0 <= k < runtimes.len(),
    ensures
        stats_of(plan, runtimes, releases, true).details.len() == plan.len(),
        stats_of(plan, runtimes, releases, true).details[i].number == plan[i].number,
        stats_of(plan, runtimes, releases, true).details[i].statuses[k] == pr_status(
            runtimes[k],
            releases,
            plan[i].number,
        ),
{
}

/// The number of pull requests that is counted for a runtime is that of the annotations that have a status
/// in it, and does not depend on whether the annotations are asked for.
pub proof fn law_counts_match_annotations(
    plan: Seq<TagsView>,
    runtimes: Seq<RuntimeView>,
    releases: Seq<ReleaseView>,
    verbose: bool,
    k: int,
)
    requires
        0 <= k < runtimes.len(),
    ensures
        stats_of(plan, runtimes, releases, verbose).per_runtime[k] == stats_of(
            plan,
            runtimes,
            releases,
            true,
        ).details.filter(|a: AnnotationView| a.statuses[k].len() > 0).len(),
    decreases plan.len(),
{
    let details = stats_of(plan, runtimes, releases, true).details;
    let counted = |a: AnnotationView| a.statuses[k].len() > 0;
    reveal(Seq::filter);
    if plan.len() > 0 {
        let init = plan.drop_last();
        law_counts_match_annotations(init, runtimes, releases, verbose, k);
        assert(details.drop_last() =~= stats_of(init, runtimes, releases, true).details);
        assert(details.last() == annotation(plan.last(), runtimes, releases));
        assert(details.last().statuses[k] == pr_status(runtimes[k], releases, plan.last().number));
    }
}

/// Computes the status of a pull request in a runtime from a map of all pull requests.
pub fn status_in(runtime: &Runtime, crates: &HashMap<u64, StringMap<Vec<String>>>, pr: u64) -> (text: String)
    ensures
        text@ == status(runtime@, crates_for(crate_map_texts(crates@), pr)),
{
    let found = crates.get(&pr);
    proof {
        if let Some(c) = found {
            assert(crate_map_texts(crates@)[pr] == version_texts(*c));
        }
    }
    compute_runtime_status(runtime, found)
}

/// Counts the pull requests of a list that have a status in a runtime.
fn count_with_status(runtime: &Runtime, plan: &Vec<PrTags>, crates: &HashMap<u64, StringMap<Vec<String>>>, state: &State) -> (count: usize)
    requires
        crate_map_texts(crates@) == pr_crates(published(state@.releases)),
    ensures
        count == with_status(tags_views(plan@), runtime@, state@.releases).len(),
{
    let ghost views = tags_views(plan@);
    let ghost counted = |p: TagsView| pr_status(runtime@, state@.releases, p.number).len() > 0;
    let mut count: usize = 0;
    let mut i: usize = 0;
    assert(views.take(0).filter(counted).len() == 0) by {
        reveal(Seq::filter);
    }
    while i < plan.len()
        invariant
            i <= plan.len(),
            count <= i,
            views == tags_views(plan@),
            counted == (|p: TagsView| pr_status(runtime@, state@.releases, p.number).len() > 0),
            crate_map_texts(crates@) == pr_crates(published(state@.releases)),
            count == views.take(i as int).filter(counted).len(),
        decreases plan.len() - i,
    {
        let text = status_in(runtime, crates, plan[i].number);
        proof {
            assert(views.take(i + 1).drop_last() =~= views.take(i as int));
            assert(views.take(i + 1).last() == views[i as int]);
            reveal(Seq::filter);
        }
        if !text.as_str().is_empty() {
            count += 1;
        }
        i += 1;
    }
    assert(views.take(i as int) =~= views);
    count
}

/// Counts, for each runtime, the pull requests that have a status in it, and lists their annotations
/// where they are asked for.
pub fn annotation_stats(
    state: &State,
    plan: &Vec<PrTags>,
    crates: &HashMap<u64, StringMap<Vec<String>>>,
    verbose: bool,
) -> (stats: AnnotationStats)
    requires
        crate_map_texts(crates@) == pr_crates(published(state@.releases)),
    ensures
        stats@ == stats_of(tags_views(plan@), state@.runtimes, state@.releases, verbose),
{
    let ghost views = tags_views(plan@);
    let ghost releases = state@.releases;
    let mut per_runtime: Vec<usize> = Vec::new();
    let mut k: usize = 0;
    while k < state.runtimes.len()
        invariant
            k <= state.runtimes.len(),
            views == tags_views(plan@),
            releases == state@.releases,
            crate_map_texts(crates@) == pr_crates(published(releases)),
            per_runtime@.len() == k,
            forall|m: int| 0 <= m < k ==> per_runtime@[m] == with_status(views, state@.runtimes[m], releases).len(),
        decreases state.runtimes.len() - k,
    {
        let count: usize = count_with_status(&state.runtimes[k], plan, crates, state);
        per_runtime.push(count);
        k += 1;
    }
    let mut details: Vec<PrAnnotation> = Vec::new();
    if verbose {
        let mut i: usize = 0;
        while i < plan.len()
            invariant
                i <= plan.len(),
                views == tags_views(plan@),
                releases == state@.releases,
                crate_map_texts(crates@) == pr_crates(published(releases)),
                details@.len() == i,
                forall|m: int| 0 <= m < i ==> (#[trigger] details@[m])@ == annotation(views[m], state@.runtimes, releases),
            decreases plan.len() - i,
        {
            let number: u64 = plan[i].number;
            let mut statuses: Vec<String> = Vec::new();
            let mut k: usize = 0;
            while k < state.runtimes.len()
                invariant
                    k <= state.runtimes.len(),
                    releases == state@.releases,
                    crate_map_texts(crates@) == pr_crates(published(releases)),
                    statuses@.len() == k,
                    forall|m: int| 0 <= m < k ==> (#[trigger] statuses@[m])@ == pr_status(state@.runtimes[m], releases, number),
                decreases state.runtimes.len() - k,
            {
                statuses.push(status_in(&state.runtimes[k], crates, number));
                k += 1;
            }
            let entry = PrAnnotation { number, statuses };
            assert(entry@.statuses =~= annotation(views[i as int], state@.runtimes, releases).statuses);
            details.push(entry);
            i += 1;
        }
    }
    let stats = AnnotationStats { per_runtime, details };
    assert(stats@.per_runtime =~= stats_of(views, state@.runtimes, releases, verbose).per_runtime);
    assert(stats@.details =~= stats_of(views, state@.runtimes, releases, verbose).details);
    stats
}

} // verus!
