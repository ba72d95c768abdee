//! Deployment status of pull requests, release by release and runtime by runtime.
use std::collections::HashMap;

use vstd::prelude::*;

use crate::collections::StringMap;
use crate::state::{CrateView, ReleaseView, Runtime, RuntimeView, State};
use crate::text::{decimal, push_decimal, texts};

verus! {

broadcast use vstd::std_specs::hash::group_hash_axioms;

/// The crates that a list of releases published, in order.
pub open spec fn published(releases: Seq<ReleaseView>) -> Seq<CrateView>
    decreases releases.len(),
{
    if releases.len() == 0 {
        Seq::empty()
    } else {
        published(releases.drop_last()) + releases.last().crates
    }
}

/// Whether a published crate brought a pull request.
pub open spec fn listed(crates: Seq<CrateView>, pr: u64) -> bool {
    exists|i: int| 0 <= i < crates.len() && #[trigger] crates[i].prs.contains(pr)
}

/// The versions of a crate that brought a pull request, each once, in the order of publication.
pub open spec fn versions_with(crates: Seq<CrateView>, pr: u64, name: Seq<char>) -> Seq<Seq<char>>
    decreases crates.len(),
{
    if crates.len() == 0 {
        Seq::empty()
    } else {
        let earlier = versions_with(crates.drop_last(), pr, name);
        let c = crates.last();
        if c.name == name && c.prs.contains(pr) && !earlier.contains(c.version) {
            earlier.push(c.version)
        } else {
            earlier
        }
    }
}

/// The crates that brought a pull request, each with the versions that did.
pub open spec fn crates_with(crates: Seq<CrateView>, pr: u64) -> Map<Seq<char>, Seq<Seq<char>>> {
    Map::new(
        |name: Seq<char>| versions_with(crates, pr, name).len() > 0,
        |name: Seq<char>| versions_with(crates, pr, name),
    )
}

/// For each pull request that a published crate brought, the crates that did, with their versions.
pub open spec fn pr_crates(crates: Seq<CrateView>) -> Map<u64, Map<Seq<char>, Seq<Seq<char>>>> {
    Map::new(|pr: u64| listed(crates, pr), |pr: u64| crates_with(crates, pr))
}

/// The versions of each crate, as texts.
pub open spec fn version_texts(crates: StringMap<Vec<String>>) -> Map<Seq<char>, Seq<Seq<char>>> {
    crates@.map_values(|versions: Vec<String>| texts(versions@))
}

/// The crates of each pull request, with the versions of each, as texts.
pub open spec fn crate_map_texts(
    map: Map<u64, StringMap<Vec<String>>>,
) -> Map<u64, Map<Seq<char>, Seq<Seq<char>>>> {
    map.map_values(|crates: StringMap<Vec<String>>| version_texts(crates))
}

/// A crate brought a pull request in some version exactly where a published crate of that name
/// lists the pull request with that version.
pub proof fn law_versions_with(crates: Seq<CrateView>, pr: u64, name: Seq<char>)
    ensures
        versions_with(crates, pr, name).no_duplicates(),
        forall|version: Seq<char>|
            versions_with(crates, pr, name).contains(version) <==> exists|i: int|
                0 <= i < crates.len() && (#[trigger] crates[i]).name == name && crates[i].version == version
                    && crates[i].prs.contains(pr),
    decreases crates.len(),
{
    if crates.len() > 0 {
        let init = crates.drop_last();
        let c = crates.last();
        law_versions_with(init, pr, name);
        let earlier = versions_with(init, pr, name);
        let all = versions_with(crates, pr, name);
        assert forall|version: Seq<char>|
            all.contains(version) <==> exists|i: int|
                0 <= i < crates.len() && (#[trigger] crates[i]).name == name && crates[i].version == version
                    && crates[i].prs.contains(pr) by {
            if earlier.contains(version) {
                assert(all[earlier.index_of(version)] == version);
                let i = choose|i: int|
                    0 <= i < init.len() && (#[trigger] init[i]).name == name && init[i].version == version
                        && init[i].prs.contains(pr);
                assert(crates[i] == init[i]);
            } else if c.name == name && c.prs.contains(pr) && c.version == version {
                assert(all[earlier.len() as int] == version);
                assert(crates[crates.len() - 1] == c);
            } else {
                assert forall|i: int| 0 <= i < crates.len() implies !((#[trigger] crates[i]).name == name
                    && crates[i].version == version && crates[i].prs.contains(pr)) by {
                    if i < init.len() {
                        assert(init[i] == crates[i]);
                    }
                }
            }
        }
    }
}

/// A crate more adds its pull requests.
pub(crate) proof fn lemma_listed_push(crates: Seq<CrateView>, c: CrateView, pr: u64)
    ensures
        listed(crates.push(c), pr) <==> listed(crates, pr) || c.prs.contains(pr),
{
    let more = crates.push(c);
    if listed(crates, pr) {
        let i = choose|i: int| 0 <= i < crates.len() && #[trigger] crates[i].prs.contains(pr);
        assert(more[i].prs.contains(pr));
    }
    if c.prs.contains(pr) {
        assert(more[crates.len() as int].prs.contains(pr));
    }
    if listed(more, pr) {
        let i = choose|i: int| 0 <= i < more.len() && #[trigger] more[i].prs.contains(pr);
        if i < crates.len() {
            assert(crates[i].prs.contains(pr));
        }
    }
}

/// Adds one pull request of one published crate to the map.
fn note_crate(map: &mut HashMap<u64, StringMap<Vec<String>>>, name: &String, version: &String, pr: u64)
    ensures
        final(map)@.dom() == old(map)@.dom().insert(pr),
        forall|p: u64| p != pr && old(map)@.contains_key(p) ==> final(map)@[p] == old(map)@[p],
        ({
            let earlier = if old(map)@.contains_key(pr) {
                version_texts(old(map)@[pr])
            } else {
                Map::empty()
            };
            let versions = if earlier.contains_key(name@) { earlier[name@] } else { Seq::empty() };
            version_texts(final(map)@[pr]) == earlier.insert(
                name@,
                if versions.contains(version@) { versions } else { versions.push(version@) },
            )
        }),
{
    let mut crates = match map.remove(&pr) {
        Some(crates) => crates,
        None => StringMap::new(),
    };
    let ghost earlier = version_texts(crates);
    assert(!old(map)@.contains_key(pr) ==> earlier =~= Map::empty());
    let mut versions: Vec<String> = match crates.get(name.as_str()) {
        Some(versions) => copy_strings(versions),
        None => Vec::new(),
    };
    let ghost start = texts(versions@);
    assert(start =~= if earlier.contains_key(name@) { earlier[name@] } else { Seq::empty() });
    let mut i: usize = 0;
    while i < versions.len() && versions[i] != *version
        invariant
            i <= versions.len(),
            start == texts(versions@),
            forall|k: int| 0 <= k < i ==> start[k] != version@,
        decreases versions.len() - i,
    {
        i += 1;
    }
    if i == versions.len() {
        assert(!start.contains(version@));
        versions.push(version.clone());
        assert(texts(versions@) =~= start.push(version@));
    } else {
        assert(start[i as int] == version@);
    }
    let ghost new_versions = texts(versions@);
    crates.insert(name.clone(), versions);
    assert(version_texts(crates) =~= earlier.insert(name@, new_versions));
    map.insert(pr, crates);
}

/// A copy of a list of strings.
pub(crate) fn copy_strings(list: &Vec<String>) -> (copy: Vec<String>)
    ensures
        texts(copy@) == texts(list@),
{
    let mut copy: Vec<String> = Vec::new();
    let mut i: usize = 0;
    while i < list.len()
        invariant
            i <= list.len(),
            copy@.len() == i,
            forall|k: int| 0 <= k < i ==> copy@[k]@ == list@[k]@,
        decreases list.len() - i,
    {
        copy.push(list[i].clone());
        i += 1;
    }
    assert(texts(copy@) =~= texts(list@));
    copy
}

/// The map after one more pull request of the last crate.
proof fn lemma_pr_crates_step(crates: Seq<CrateView>, c: CrateView, n: int, p: u64)
    requires
        0 <= n < c.prs.len(),
    ensures
        ({
            let shorter = CrateView { prs: c.prs.take(n), ..c };
            let longer = CrateView { prs: c.prs.take(n + 1), ..c };
            let earlier = crates_with(crates.push(shorter), p);
            let later = crates_with(crates.push(longer), p);
            let versions = if earlier.contains_key(c.name) { earlier[c.name] } else { Seq::empty() };
            &&& listed(crates.push(longer), p) <==> listed(crates.push(shorter), p) || p == c.prs[n]
            &&& !listed(crates.push(shorter), p) ==> earlier == Map::<Seq<char>, Seq<Seq<char>>>::empty()
            &&& p != c.prs[n] ==> later == earlier
            &&& p == c.prs[n] ==> later == earlier.insert(
                c.name,
                if versions.contains(c.version) { versions } else { versions.push(c.version) },
            )
        }),
{
    let shorter = CrateView { prs: c.prs.take(n), ..c };
    let longer = CrateView { prs: c.prs.take(n + 1), ..c };
    let a = crates.push(shorter);
    let b = crates.push(longer);
    lemma_listed_push(crates, shorter, p);
    lemma_listed_push(crates, longer, p);
    assert(longer.prs =~= shorter.prs.push(c.prs[n]));
    assert(longer.prs.contains(p) <==> shorter.prs.contains(p) || p == c.prs[n]) by {
        if shorter.prs.contains(p) {
            assert(longer.prs[shorter.prs.index_of(p)] == p);
        }
        assert(longer.prs[n] == c.prs[n]);
    }
    assert(a.drop_last() =~= crates && b.drop_last() =~= crates);
    let earlier = crates_with(a, p);
    let later = crates_with(b, p);
    if !listed(a, p) {
        assert forall|name: Seq<char>| #![auto] versions_with(a, p, name).len() == 0 by {
            law_versions_with(a, p, name);
            let versions = versions_with(a, p, name);
            if versions.len() > 0 {
                assert(versions.contains(versions[0]));
                let i = choose|i: int|
                    0 <= i < a.len() && (#[trigger] a[i]).name == name && a[i].version == versions[0]
                        && a[i].prs.contains(p);
                assert(a[i].prs.contains(p));
            }
        }
        assert(earlier =~= Map::empty());
    }
    assert forall|name: Seq<char>| name != c.name || p != c.prs[n] implies #[trigger] versions_with(b, p, name) == versions_with(a, p, name) by {}
    if p == c.prs[n] {
        let versions = versions_with(a, p, c.name);
        let base = versions_with(crates, p, c.name);
        assert(base.push(c.version).contains(c.version)) by {
            assert(base.push(c.version)[base.len() as int] == c.version);
        }
        assert(versions_with(b, p, c.name) =~= if versions.contains(c.version) {
            versions
        } else {
            versions.push(c.version)
        });
        if versions.contains(c.version) {
            assert(versions.len() > 0);
        } else if !earlier.contains_key(c.name) {
            assert(versions =~= Seq::empty());
        }
        assert(later =~= earlier.insert(
            c.name,
            if versions.contains(c.version) { versions } else { versions.push(c.version) },
        ));
    } else {
        assert(later =~= earlier);
    }
}

/// Builds a lookup from pull request to the crates that it touches and all known versions that
/// contain it. All versions are collected rather than the earliest: crates are published from
/// independent release branches, and a higher version need not contain all changes of a lower one.
pub fn build_pr_crate_map(state: &State) -> (map: HashMap<u64, StringMap<Vec<String>>>)
    ensures
        crate_map_texts(map@) == pr_crates(published(state@.releases)),
{
    let mut map: HashMap<u64, StringMap<Vec<String>>> = HashMap::new();
    let ghost releases = state@.releases;
    assert(crate_map_texts(map@) =~= pr_crates(published(releases.take(0))));
    let mut i: usize = 0;
    while i < state.releases.len()
        invariant
            i <= state.releases.len(),
            releases == state@.releases,
            crate_map_texts(map@) == pr_crates(published(releases.take(i as int))),
        decreases state.releases.len() - i,
    {
        let release = &state.releases[i];
        let ghost before = published(releases.take(i as int));
        let ghost views = release@.crates;
        assert(before + views.take(0) =~= before);
        let mut j: usize = 0;
        while j < release.crates.len()
            invariant
                j <= release.crates.len(),
                views == release@.crates,
                crate_map_texts(map@) == pr_crates(before + views.take(j as int)),
            decreases release.crates.len() - j,
        {
            let c = &release.crates[j];
            let ghost done = before + views.take(j as int);
            let mut n: usize = 0;
            proof {
                lemma_pr_crates_empty(done, c@);
                assert(c@.prs.take(0) =~= Seq::empty());
            }
            while n < c.prs.len()
                invariant
                    n <= c.prs.len(),
                    crate_map_texts(map@) == pr_crates(done.push(CrateView { prs: c@.prs.take(n as int), ..c@ })),
                decreases c.prs.len() - n,
            {
                let ghost earlier = map@;
                let ghost a = done.push(CrateView { prs: c@.prs.take(n as int), ..c@ });
                let ghost b = done.push(CrateView { prs: c@.prs.take(n + 1), ..c@ });
                note_crate(&mut map, &c.name, &c.version, c.prs[n]);
                proof {
                    assert forall|p: u64| #![auto]
                        (map@.contains_key(p) <==> listed(b, p)) && (map@.contains_key(p) ==> version_texts(map@[p]) == crates_with(b, p)) by {
                        lemma_pr_crates_step(done, c@, n as int, p);
                        assert(crate_map_texts(earlier).contains_key(p) <==> earlier.contains_key(p));
                        if earlier.contains_key(p) {
                            assert(crate_map_texts(earlier)[p] == version_texts(earlier[p]));
                        }
                    }
                    assert(crate_map_texts(map@) =~= pr_crates(b));
                }
                n += 1;
            }
            proof {
                assert(c@.prs.take(n as int) =~= c@.prs);
                assert(done.push(c@) =~= before + views.take(j + 1));
            }
            j += 1;
        }
        proof {
            assert(views.take(j as int) =~= views);
            assert(releases.take(i + 1).drop_last() =~= releases.take(i as int));
        }
        i += 1;
    }
    assert(releases.take(i as int) =~= releases);
    map
}

/// A crate that brought no pull request does not change the map.
proof fn lemma_pr_crates_empty(crates: Seq<CrateView>, c: CrateView)
    ensures
        pr_crates(crates.push(CrateView { prs: Seq::empty(), ..c })) == pr_crates(crates),
{
    let more = crates.push(CrateView { prs: Seq::empty(), ..c });
    assert(more.drop_last() =~= crates);
    assert forall|p: u64| #![auto] listed(more, p) == listed(crates, p) && crates_with(more, p) == crates_with(crates, p) by {
        lemma_listed_push(crates, more.last(), p);
        assert forall|name: Seq<char>| #![auto] versions_with(more, p, name) == versions_with(crates, p, name) by {}
        assert(crates_with(more, p) =~= crates_with(crates, p));
    }
    assert(pr_crates(more) =~= pr_crates(crates));
}

/// The crates of a pull request that a runtime depends on.
pub open spec fn relevant(runtime: RuntimeView, crates: Map<Seq<char>, Seq<Seq<char>>>) -> Set<Seq<char>> {
    crates.dom().intersect(runtime.deps)
}

/// Whether a runtime has locked a crate in one of the versions that contain the pull request. The
/// match is exact: versions come from independent release branches, so a higher version need not
/// contain the same backports.
pub open spec fn adopts(runtime: RuntimeView, crates: Map<Seq<char>, Seq<Seq<char>>>, name: Seq<char>) -> bool {
    runtime.versions.contains_key(name) && crates[name].contains(runtime.versions[name])
}

/// The crates of a pull request that a runtime depends on and has picked up.
pub open spec fn adopted(runtime: RuntimeView, crates: Map<Seq<char>, Seq<Seq<char>>>) -> Set<Seq<char>> {
    relevant(runtime, crates).filter(|name: Seq<char>| adopts(runtime, crates, name))
}

/// How far the runtime that picked a change up has been deployed.
pub open spec fn deployment(runtime: RuntimeView) -> Seq<char> {
    let onchain = runtime.onchain_spec().unwrap_or(0);
    let code = runtime.code_spec.unwrap_or(0);
    if code > onchain {
        "pending v"@ + decimal(code as nat)
    } else if onchain > 0 {
        "v"@ + decimal(onchain as nat)
    } else {
        "pending > v"@ + decimal(onchain as nat)
    }
}

/// What is appended when only some of the crates were picked up.
pub open spec fn partial_suffix(picked_up: nat, total: nat) -> Seq<char> {
    if picked_up < total {
        " ("@ + decimal(picked_up) + "/"@ + decimal(total) + " crates)"@
    } else {
        Seq::empty()
    }
}

/// The status of a pull request in a runtime, given the crates that brought it.
pub open spec fn status(runtime: RuntimeView, crates: Option<Map<Seq<char>, Seq<Seq<char>>>>) -> Seq<char> {
    match crates {
        Some(c) if adopted(runtime, c).len() > 0 => deployment(runtime) + partial_suffix(
            adopted(runtime, c).len(),
            relevant(runtime, c).len(),
        ),
        _ => Seq::empty(),
    }
}

/// The versions of each crate, where there are crates, as texts.
pub open spec fn optional_version_texts(
    crates: Option<&StringMap<Vec<String>>>,
) -> Option<Map<Seq<char>, Seq<Seq<char>>>> {
    match crates {
        Some(c) => Some(version_texts(*c)),
        None => None,
    }
}

/// Whether a text is in a list of strings.
fn in_list(list: &Vec<String>, wanted: &String) -> (found: bool)
    ensures
        found == texts(list@).contains(wanted@),
{
    let mut i: usize = 0;
    while i < list.len()
        invariant
            i <= list.len(),
            forall|k: int| 0 <= k < i ==> texts(list@)[k] != wanted@,
        decreases list.len() - i,
    {
        if list[i] == *wanted {
            assert(texts(list@)[i as int] == wanted@);
            return true;
        }
        i += 1;
    }
    false
}

/// Computes the status of a pull request in a runtime:
///   (empty)                  - crates not picked up downstream
///   pending > v{onchain}     - picked up, spec not bumped
///   pending v{code}          - picked up, spec bumped, not enacted on-chain
///   v{onchain}               - enacted on-chain
/// Partial adoption appends ` (N/M crates)`.
pub fn compute_runtime_status(runtime: &Runtime, pr_release_crates: Option<&StringMap<Vec<String>>>) -> (text: String)
    ensures
        text@ == status(runtime@, optional_version_texts(pr_release_crates)),
{
    let crates = match pr_release_crates {
        Some(c) => c,
        None => return String::new(),
    };
    let ghost view = version_texts(*crates);
    let ghost mut seen: Set<Seq<char>> = Set::empty();
    let ghost mut picked: Set<Seq<char>> = Set::empty();
    let count: usize = crates.len();
    let mut total: usize = 0;
    let mut adopted_count: usize = 0;
    let mut i: usize = 0;
    while i < count
        invariant
            i <= count,
            count == crates.keys().len(),
            crates.keys().no_duplicates(),
            view == version_texts(*crates),
            total <= i,
            adopted_count <= i,
            seen.finite(),
            picked.finite(),
            seen.len() == total,
            picked.len() == adopted_count,
            forall|name: Seq<char>|
                seen.contains(name) <==> crates.keys().take(i as int).contains(name) && runtime@.deps.contains(name),
            forall|name: Seq<char>| picked.contains(name) <==> seen.contains(name) && adopts(runtime@, view, name),
        decreases count - i,
    {
        let (name, versions) = crates.entry(i);
        proof {
            let before = crates.keys().take(i as int);
            let after = crates.keys().take(i + 1);
            assert(after =~= before.push(name@));
            assert forall|k: Seq<char>| after.contains(k) <==> before.contains(k) || k == name@ by {
                if before.contains(k) {
                    assert(after[before.index_of(k)] == k);
                }
                assert(after[i as int] == name@);
            }
            assert(!before.contains(name@));
        }
        if runtime.downstream.deps.contains(name.as_str()) {
            total += 1;
            proof {
                seen = seen.insert(name@);
            }
            let locked = runtime.downstream.versions.get(name.as_str());
            assert(view[name@] == texts(versions@));
            if let Some(version) = locked {
                assert(runtime@.versions[name@] == version@);
                if in_list(versions, version) {
                    adopted_count += 1;
                    proof {
                        picked = picked.insert(name@);
                    }
                }
            }
        }
        i += 1;
    }
    proof {
        assert(crates.keys().take(i as int) =~= crates.keys());
        assert forall|name: Seq<char>| crates.keys().contains(name) <==> view.dom().contains(name) by {
            assert(crates.keys().to_set().contains(name) <==> crates.keys().contains(name));
        }
        assert(seen =~= relevant(runtime@, view));
        assert(picked =~= adopted(runtime@, view));
    }
    if adopted_count == 0 {
        return String::new();
    }
    let onchain: u64 = match runtime.max_onchain_spec() {
        Some(n) => n,
        None => 0,
    };
    let code: u64 = match runtime.downstream.spec_version {
        Some(n) => n,
        None => 0,
    };
    let mut text;
    if code > onchain {
        text = "pending v".to_string();
        push_decimal(&mut text, code);
    } else if onchain > 0 {
        text = "v".to_string();
        push_decimal(&mut text, onchain);
    } else {
        text = "pending > v".to_string();
        push_decimal(&mut text, onchain);
    }
    assert(text@ == deployment(runtime@));
    if adopted_count < total {
        text.append(" (");
        push_decimal(&mut text, adopted_count as u64);
        text.append("/");
        push_decimal(&mut text, total as u64);
        text.append(" crates)");
    }
    assert(text@ =~= deployment(runtime@) + partial_suffix(adopted_count as nat, total as nat));
    text
}

/// A pull request has a status in a runtime exactly where the runtime locked one of its crates in a
/// version that contains it: no other version counts, higher or lower.
pub proof fn law_status_needs_exact_version(runtime: RuntimeView, crates: Map<Seq<char>, Seq<Seq<char>>>)
    requires
        crates.dom().finite(),
    ensures
        status(runtime, Some(crates)).len() > 0 <==> exists|name: Seq<char>|
            #![trigger adopts(runtime, crates, name)]
            relevant(runtime, crates).contains(name) && adopts(runtime, crates, name),
        status(runtime, None) == Seq::<char>::empty(),
{
    let picked = adopted(runtime, crates);
    assert(picked.subset_of(crates.dom()));
    vstd::set_lib::lemma_set_subset_finite(crates.dom(), picked);
    reveal_strlit("pending v");
    reveal_strlit("v");
    reveal_strlit("pending > v");
    if picked.len() > 0 {
        let name = picked.choose();
        assert(picked.contains(name));
        assert(adopts(runtime, crates, name));
    }
    if exists|name: Seq<char>|
        #![trigger adopts(runtime, crates, name)]
        relevant(runtime, crates).contains(name) && adopts(runtime, crates, name) {
        let name = choose|name: Seq<char>|
            #![trigger adopts(runtime, crates, name)]
            relevant(runtime, crates).contains(name) && adopts(runtime, crates, name);
        assert(picked.contains(name));
        if picked.len() == 0 {
            vstd::set_lib::lemma_set_empty_equivalency_len(picked);
        }
    }
}

/// A status carries the suffix ` (N/M crates)` exactly where a crate that the runtime depends on has
/// not been picked up, while another has.
pub proof fn law_status_partial(runtime: RuntimeView, crates: Map<Seq<char>, Seq<Seq<char>>>)
    requires
        crates.dom().finite(),
        adopted(runtime, crates).len() > 0,
    ensures
        adopted(runtime, crates) == relevant(runtime, crates) ==> status(runtime, Some(crates)) == deployment(runtime),
        adopted(runtime, crates) != relevant(runtime, crates) ==> status(runtime, Some(crates)) == deployment(runtime)
            + " ("@ + decimal(adopted(runtime, crates).len()) + "/"@ + decimal(relevant(runtime, crates).len())
            + " crates)"@,
{
    let picked = adopted(runtime, crates);
    let all = relevant(runtime, crates);
    assert(all.subset_of(crates.dom()));
    vstd::set_lib::lemma_set_subset_finite(crates.dom(), all);
    assert(picked.subset_of(all));
    vstd::set_lib::lemma_len_subset(picked, all);
    if picked.len() == all.len() {
        vstd::set_lib::lemma_subset_equality(picked, all);
    }
    assert(status(runtime, Some(crates)) =~= if picked == all {
        deployment(runtime)
    } else {
        deployment(runtime) + " ("@ + decimal(picked.len()) + "/"@ + decimal(all.len()) + " crates)"@
    });
}

/// Enacting the spec version of the code turns `pending v{code}` into `v{code}` and leaves the rest of
/// the status as it is.
pub proof fn law_enacting_makes_live(runtime: RuntimeView, crates: Map<Seq<char>, Seq<Seq<char>>>, code: u64)
    requires
        runtime.code_spec == Some(code),
        code > runtime.onchain_spec().unwrap_or(0),
        adopted(runtime, crates).len() > 0,
    ensures
        ({
            let enacted = RuntimeView { specs: runtime.specs.push(code), ..runtime };
            let suffix = partial_suffix(adopted(runtime, crates).len(), relevant(runtime, crates).len());
            &&& status(runtime, Some(crates)) == "pending v"@ + decimal(code as nat) + suffix
            &&& status(enacted, Some(crates)) == "v"@ + decimal(code as nat) + suffix
        }),
{
    let enacted = RuntimeView { specs: runtime.specs.push(code), ..runtime };
    assert(enacted.specs.drop_last() =~= runtime.specs);
    assert(relevant(enacted, crates) =~= relevant(runtime, crates));
    assert(adopted(enacted, crates) =~= adopted(runtime, crates));
}

} // verus!
