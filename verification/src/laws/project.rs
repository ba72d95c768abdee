//! Laws of the deployment status.
use vstd::prelude::*;

use crate::collections::StringMap;
use crate::project::{
    adopted, crate_map_texts, crates_with, law_versions_with, listed, optional_version_texts, pr_crates, published,
    relevant, status, version_texts, versions_with,
};
use crate::state::{law_greatest, CrateView, ReleaseView, Runtime, RuntimeView};
use crate::text::decimal;

verus! {

/// The crates that releases published are those of each release in turn.
pub proof fn law_published(a: Seq<ReleaseView>, b: Seq<ReleaseView>, release: ReleaseView)
    ensures
        published(Seq::empty()) == Seq::<CrateView>::empty(),
        published(seq![release]) == release.crates,
        published(a + b) == published(a) + published(b),
    decreases b.len(),
{
    assert(seq![release].drop_last() =~= Seq::empty());
    assert(published(Seq::empty()) =~= Seq::<CrateView>::empty());
    assert(published(seq![release]) =~= release.crates);
    if b.len() == 0 {
        assert(a + b =~= a);
        assert(published(a) + published(b) =~= published(a));
    } else {
        assert((a + b).drop_last() =~= a + b.drop_last());
        law_published(a, b.drop_last(), release);
        assert(published(a + b) =~= published(a) + published(b));
    }
}

/// A crate was published exactly where a release holds it.
pub proof fn law_published_by_a_release(releases: Seq<ReleaseView>, c: CrateView)
    ensures
        published(releases).contains(c) <==> exists|i: int, j: int|
            0 <= i < releases.len() && 0 <= j < releases[i].crates.len() && #[trigger] releases[i].crates[j] == c,
    decreases releases.len(),
{
    let all = published(releases);
    if releases.len() > 0 {
        let init = releases.drop_last();
        let earlier = published(init);
        let own = releases.last().crates;
        law_published_by_a_release(init, c);
        if earlier.contains(c) {
            assert(all[earlier.index_of(c)] == c);
            let (i, j) = choose|i: int, j: int|
                0 <= i < init.len() && 0 <= j < init[i].crates.len() && #[trigger] init[i].crates[j] == c;
            assert(releases[i].crates[j] == c);
        }
        if own.contains(c) {
            let j = own.index_of(c);
            assert(all[earlier.len() + j] == c);
            assert(releases[releases.len() - 1].crates[j] == c);
        }
        if all.contains(c) && !earlier.contains(c) {
            let k = all.index_of(c);
            if k < earlier.len() {
                assert(earlier[k] == c);
            } else {
                assert(own[k - earlier.len()] == c);
            }
        }
        if exists|i: int, j: int|
            0 <= i < releases.len() && 0 <= j < releases[i].crates.len() && #[trigger] releases[i].crates[j] == c {
            let (i, j) = choose|i: int, j: int|
                0 <= i < releases.len() && 0 <= j < releases[i].crates.len() && #[trigger] releases[i].crates[j] == c;
            if i < init.len() {
                assert(init[i].crates[j] == c);
            } else {
                assert(own[j] == c);
            }
        }
    }
}

/// Whether a release holds a crate of that name and version that brought a pull request.
pub open spec fn brought_by(releases: Seq<ReleaseView>, pr: u64, name: Seq<char>, version: Seq<char>) -> bool {
    exists|i: int, j: int|
        0 <= i < releases.len() && 0 <= j < releases[i].crates.len() && (#[trigger] releases[i].crates[j]).name == name
            && releases[i].crates[j].version == version && releases[i].crates[j].prs.contains(pr)
}

/// Whether a release holds a crate that brought a pull request.
pub open spec fn known(releases: Seq<ReleaseView>, pr: u64) -> bool {
    exists|i: int, j: int|
        0 <= i < releases.len() && 0 <= j < releases[i].crates.len() && (#[trigger] releases[i].crates[j]).prs.contains(pr)
}

/// A pull request is listed by what was published exactly where a release holds a crate that brought it.
pub proof fn law_listed(releases: Seq<ReleaseView>, pr: u64)
    ensures
        listed(published(releases), pr) <==> known(releases, pr),
{
    let all = published(releases);
    if listed(all, pr) {
        let k = choose|k: int| 0 <= k < all.len() && #[trigger] all[k].prs.contains(pr);
        assert(all.contains(all[k]));
        law_published_by_a_release(releases, all[k]);
        let (i, j) = choose|i: int, j: int|
            0 <= i < releases.len() && 0 <= j < releases[i].crates.len() && #[trigger] releases[i].crates[j] == all[k];
        assert(releases[i].crates[j].prs.contains(pr));
    }
    if known(releases, pr) {
        let (i, j) = choose|i: int, j: int|
            0 <= i < releases.len() && 0 <= j < releases[i].crates.len() && (#[trigger] releases[i].crates[j]).prs.contains(pr);
        let c = releases[i].crates[j];
        law_published_by_a_release(releases, c);
        assert(all.contains(c));
        assert(all[all.index_of(c)].prs.contains(pr));
    }
}

/// The versions of a crate that brought a pull request are those that a release holds.
proof fn lemma_versions(releases: Seq<ReleaseView>, pr: u64, name: Seq<char>, version: Seq<char>)
    ensures
        versions_with(published(releases), pr, name).contains(version) <==> brought_by(releases, pr, name, version),
{
    let all = published(releases);
    law_versions_with(all, pr, name);
    if versions_with(all, pr, name).contains(version) {
        let k = choose|k: int|
            0 <= k < all.len() && (#[trigger] all[k]).name == name && all[k].version == version && all[k].prs.contains(pr);
        assert(all.contains(all[k]));
        law_published_by_a_release(releases, all[k]);
        let (i, j) = choose|i: int, j: int|
            0 <= i < releases.len() && 0 <= j < releases[i].crates.len() && #[trigger] releases[i].crates[j] == all[k];
        assert(releases[i].crates[j].name == name);
    }
    if brought_by(releases, pr, name, version) {
        let (i, j) = choose|i: int, j: int|
            0 <= i < releases.len() && 0 <= j < releases[i].crates.len() && (#[trigger] releases[i].crates[j]).name == name
                && releases[i].crates[j].version == version && releases[i].crates[j].prs.contains(pr);
        let c = releases[i].crates[j];
        law_published_by_a_release(releases, c);
        assert(all.contains(c));
        assert(all[all.index_of(c)].name == name);
    }
}

/// The lookup knows a pull request exactly where a release holds a crate that brought it, gives for it exactly
/// the crates that brought it, and for each of them exactly the versions that did, each once.
pub proof fn law_lookup(releases: Seq<ReleaseView>, pr: u64, name: Seq<char>, version: Seq<char>)
    ensures
        pr_crates(published(releases)).contains_key(pr) <==> known(releases, pr),
        known(releases, pr) ==> {
            let crates = pr_crates(published(releases))[pr];
            &&& crates.contains_key(name) <==> exists|v: Seq<char>| brought_by(releases, pr, name, v)
            &&& crates.contains_key(name) ==> (crates[name].contains(version) <==> brought_by(releases, pr, name, version))
            &&& crates.contains_key(name) ==> crates[name].no_duplicates()
        },
{
    let all = published(releases);
    law_listed(releases, pr);
    law_versions_with(all, pr, name);
    lemma_versions(releases, pr, name, version);
    let versions = versions_with(all, pr, name);
    if versions.len() > 0 {
        assert(versions.contains(versions[0]));
        lemma_versions(releases, pr, name, versions[0]);
    }
    if exists|v: Seq<char>| brought_by(releases, pr, name, v) {
        let v = choose|v: Seq<char>| brought_by(releases, pr, name, v);
        lemma_versions(releases, pr, name, v);
        assert(versions.contains(v));
    }
}

/// The versions of a crate stand in the order in which they were first published: another crate at the end adds
/// its version at the end, or nothing.
pub proof fn law_versions_keep_their_order(crates: Seq<CrateView>, c: CrateView, pr: u64, name: Seq<char>)
    ensures
        versions_with(crates.push(c), pr, name) == if c.name == name && c.prs.contains(pr) && !versions_with(
            crates,
            pr,
            name,
        ).contains(c.version) {
            versions_with(crates, pr, name).push(c.version)
        } else {
            versions_with(crates, pr, name)
        },
{
    assert(crates.push(c).drop_last() =~= crates);
}

/// The texts of a lookup are those of its strings.
pub proof fn law_lookup_texts(map: Map<u64, StringMap<Vec<String>>>, pr: u64, name: Seq<char>, i: int)
    ensures
        crate_map_texts(map).dom() == map.dom(),
        map.contains_key(pr) ==> {
            let crates = crate_map_texts(map)[pr];
            &&& crates == version_texts(map[pr])
            &&& crates.dom() == map[pr]@.dom()
            &&& map[pr]@.contains_key(name) ==> crates[name].len() == map[pr]@[name]@.len()
            &&& map[pr]@.contains_key(name) && 0 <= i < crates[name].len() ==> crates[name][i] == map[pr]@[name]@[i]@
            &&& optional_version_texts(Some(&map[pr])) == Some(crates)
        },
        optional_version_texts(None) is None,
{
    assert(crate_map_texts(map).dom() =~= map.dom());
    if map.contains_key(pr) {
        assert(crate_map_texts(map)[pr].dom() =~= map[pr]@.dom());
    }
}

/// The crates of a pull request that a runtime depends on.
pub open spec fn used(runtime: RuntimeView, crates: Map<Seq<char>, Seq<Seq<char>>>) -> Set<Seq<char>> {
    Set::new(|name: Seq<char>| crates.contains_key(name) && runtime.deps.contains(name))
}

/// Those of them that the runtime locks in a version that contains the pull request.
pub open spec fn picked_up(runtime: RuntimeView, crates: Map<Seq<char>, Seq<Seq<char>>>) -> Set<Seq<char>> {
    Set::new(
        |name: Seq<char>|
            crates.contains_key(name) && runtime.deps.contains(name) && runtime.versions.contains_key(name)
                && crates[name].contains(runtime.versions[name]),
    )
}

/// Whether a number is the greatest spec version that was enacted, or zero where none was.
pub open spec fn enacted(runtime: RuntimeView, spec: u64) -> bool {
    if runtime.specs.len() == 0 {
        spec == 0
    } else {
        runtime.specs.contains(spec) && forall|i: int| 0 <= i < runtime.specs.len() ==> runtime.specs[i] <= spec
    }
}

/// The text that shows a deployment of so many crates, of those that a runtime depends on.
pub open spec fn shown(code: u64, onchain: u64, picked: nat, all: nat) -> Seq<char> {
    (if code > onchain {
        "pending v"@ + decimal(code as nat)
    } else if onchain > 0 {
        "v"@ + decimal(onchain as nat)
    } else {
        "pending > v"@ + decimal(0)
    }) + (if picked < all {
        " ("@ + decimal(picked) + "/"@ + decimal(all) + " crates)"@
    } else {
        Seq::empty()
    })
}

/// The status of a pull request in a runtime. It is empty unless the runtime depends on one of its crates and
/// locks it in a version that contains the pull request. Otherwise it shows the spec version of the code as
/// pending where that exceeds every enacted one, and the greatest enacted one where it does not; and of the
/// crates that the runtime depends on, how many it picked up, where it did not pick up all.
pub proof fn law_status(runtime: RuntimeView, crates: Map<Seq<char>, Seq<Seq<char>>>, onchain: u64)
    requires
        crates.dom().finite(),
        enacted(runtime, onchain),
    ensures
        status(runtime, None) == Seq::<char>::empty(),
        status(runtime, Some(crates)) == if picked_up(runtime, crates).len() == 0 {
            Seq::empty()
        } else {
            shown(
                match runtime.code_spec {
                    Some(code) => code,
                    None => 0,
                },
                onchain,
                picked_up(runtime, crates).len(),
                used(runtime, crates).len(),
            )
        },
        status(runtime, Some(crates)).len() > 0 <==> exists|name: Seq<char>|
            crates.contains_key(name) && #[trigger] runtime.deps.contains(name) && runtime.versions.contains_key(name)
                && crates[name].contains(runtime.versions[name]),
{
    law_greatest(runtime.specs);
    assert(adopted(runtime, crates) =~= picked_up(runtime, crates));
    assert(relevant(runtime, crates) =~= used(runtime, crates));
    let picked = picked_up(runtime, crates);
    assert(picked.subset_of(crates.dom()));
    vstd::set_lib::lemma_set_subset_finite(crates.dom(), picked);
    if runtime.specs.len() > 0 {
        let n = runtime.onchain_spec()->0;
        assert(runtime.specs[runtime.specs.index_of(n)] <= onchain);
        assert(runtime.specs[runtime.specs.index_of(onchain)] <= n);
    }
    reveal_strlit("pending v");
    reveal_strlit("v");
    reveal_strlit("pending > v");
    if picked.len() > 0 {
        let name = picked.choose();
        assert(picked.contains(name));
        assert(runtime.deps.contains(name));
    }
    if exists|name: Seq<char>|
        crates.contains_key(name) && #[trigger] runtime.deps.contains(name) && runtime.versions.contains_key(name)
            && crates[name].contains(runtime.versions[name]) {
        let name = choose|name: Seq<char>|
            crates.contains_key(name) && #[trigger] runtime.deps.contains(name) && runtime.versions.contains_key(name)
                && crates[name].contains(runtime.versions[name]);
        assert(picked.contains(name));
        vstd::set_lib::lemma_set_empty_equivalency_len(picked);
    }
}

/// A pull request has a status in a runtime only where one of its crates is a dependency of the runtime, and
/// the lock file has that crate in one of the versions that contain the pull request.
pub proof fn law_status_needs_a_dependency(runtime: Runtime, crates: StringMap<Vec<String>>)
    requires
        crates@.dom().finite(),
    ensures
        status(runtime@, optional_version_texts(Some(&crates))).len() > 0 <==> exists|name: Seq<char>, i: int|
            crates@.contains_key(name) && #[trigger] runtime.downstream.deps@.contains(name)
                && runtime.downstream.versions@.contains_key(name) && 0 <= i < crates@[name]@.len() && #[trigger]
            crates@[name]@[i]@ == runtime.downstream.versions@[name]@,
{
    let view = version_texts(crates);
    let onchain = match runtime@.onchain_spec() {
        Some(n) => n,
        None => 0,
    };
    assert(view.dom() =~= crates@.dom());
    law_greatest(runtime@.specs);
    law_status(runtime@, view, onchain);
    crate::laws::state::law_runtime_view(runtime);
    if exists|name: Seq<char>|
        view.contains_key(name) && #[trigger] runtime@.deps.contains(name) && runtime@.versions.contains_key(name)
            && view[name].contains(runtime@.versions[name]) {
        let name = choose|name: Seq<char>|
            view.contains_key(name) && #[trigger] runtime@.deps.contains(name) && runtime@.versions.contains_key(name)
                && view[name].contains(runtime@.versions[name]);
        let i = view[name].index_of(runtime@.versions[name]);
        assert(crates@[name]@[i]@ == view[name][i]);
        assert(runtime.downstream.deps@.contains(name));
    }
    if exists|name: Seq<char>, i: int|
        crates@.contains_key(name) && #[trigger] runtime.downstream.deps@.contains(name)
            && runtime.downstream.versions@.contains_key(name) && 0 <= i < crates@[name]@.len() && #[trigger]
        crates@[name]@[i]@ == runtime.downstream.versions@[name]@ {
        let (name, i) = choose|name: Seq<char>, i: int|
            crates@.contains_key(name) && #[trigger] runtime.downstream.deps@.contains(name)
                && runtime.downstream.versions@.contains_key(name) && 0 <= i < crates@[name]@.len() && #[trigger]
            crates@[name]@[i]@ == runtime.downstream.versions@[name]@;
        assert(view[name][i] == runtime@.versions[name]);
        assert(runtime@.deps.contains(name));
    }
}

/// A pull request is brought by finitely many crates.
pub(crate) proof fn lemma_crates_finite(crates: Seq<CrateView>, pr: u64)
    ensures
        crates_with(crates, pr).dom().finite(),
{
    let names = crates.map_values(|c: CrateView| c.name);
    let map = crates_with(crates, pr);
    assert forall|name: Seq<char>| map.dom().contains(name) implies names.to_set().contains(name) by {
        law_versions_with(crates, pr, name);
        let versions = versions_with(crates, pr, name);
        assert(versions.contains(versions[0]));
        let i = choose|i: int|
            0 <= i < crates.len() && (#[trigger] crates[i]).name == name && crates[i].version == versions[0]
                && crates[i].prs.contains(pr);
        assert(names[i] == name);
    }
    vstd::seq_lib::seq_to_set_is_finite(names);
    vstd::set_lib::lemma_set_subset_finite(names.to_set(), map.dom());
}

} // verus!
