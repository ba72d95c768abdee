//! Laws of the state.
use vstd::prelude::*;

use crate::state::{matches_filter, optional_text, Runtime, State};
use crate::text::lowercased;

verus! {

/// What the logic reads of a runtime is what the runtime holds.
pub proof fn law_runtime_view(runtime: Runtime)
    ensures
        runtime@.field_name == runtime.field_name@,
        runtime@.deps == runtime.downstream.deps@,
        runtime@.code_spec == runtime.downstream.spec_version,
        runtime@.versions.dom() == runtime.downstream.versions@.dom(),
        forall|name: Seq<char>| #[trigger]
            runtime.downstream.versions@.contains_key(name) ==> runtime@.versions[name] == runtime.downstream.versions@[name]@,
        runtime@.specs.len() == runtime.upgrades@.len(),
        forall|i: int|
            0 <= i < runtime.upgrades@.len() ==> #[trigger] runtime@.specs[i] == runtime.upgrades@[i].spec_version,
{
    assert(runtime@.versions.dom() =~= runtime.downstream.versions@.dom());
}

/// What the logic reads of the state is what the state holds: its project, its runtimes and its releases, each
/// with its crates and their pull requests, in order.
pub proof fn law_state_view(state: State)
    ensures
        state@.org == state.project.org@,
        state@.number == state.project.number,
        state@.last_processed_tag is Some <==> state.last_processed_tag is Some,
        state.last_processed_tag matches Some(tag) ==> state@.last_processed_tag == Some(tag@),
        state@.runtimes.len() == state.runtimes@.len(),
        forall|k: int| 0 <= k < state.runtimes@.len() ==> #[trigger] state@.runtimes[k] == state.runtimes@[k]@,
        state@.releases.len() == state.releases@.len(),
        forall|i: int|
            0 <= i < state.releases@.len() ==> (#[trigger] state@.releases[i]).tag == state.releases@[i].tag@
                && state@.releases[i].crates.len() == state.releases@[i].crates@.len(),
        forall|i: int, j: int|
            0 <= i < state.releases@.len() && 0 <= j < state.releases@[i].crates@.len() ==> {
                let c = #[trigger] state@.releases[i].crates[j];
                &&& c.name == state.releases@[i].crates@[j].name@
                &&& c.version == state.releases@[i].crates@[j].version@
                &&& c.prs == state.releases@[i].crates@[j].prs@
            },
        optional_text(None) is None,
{
}

/// A filter keeps a runtime exactly where the field name, in lower case, is the filter, in lower case, with
/// something before and after it. Nothing before or after it will do: so a filter keeps the runtime of that
/// name, and those whose name begins or ends with it.
pub proof fn law_filter(runtime: Runtime, filter: Seq<char>)
    ensures
        matches_filter(runtime@.field_name, filter) <==> exists|head: Seq<char>, tail: Seq<char>|
            lowercased(runtime.field_name@) == #[trigger] (head + lowercased(filter) + tail),
        filter == runtime.field_name@ ==> matches_filter(runtime@.field_name, filter),
        lowercased(filter).is_prefix_of(lowercased(runtime.field_name@)) ==> matches_filter(runtime@.field_name, filter),
{
    let name = lowercased(runtime.field_name@);
    let wanted = lowercased(filter);
    crate::laws::text::law_occurs(name, wanted);
    if wanted.is_prefix_of(name) {
        assert(name =~= Seq::<char>::empty() + wanted + name.skip(wanted.len() as int));
    }
    if wanted == name {
        assert(name =~= Seq::<char>::empty() + wanted + Seq::<char>::empty());
    }
}

/// Filtering keeps every runtime that the filter matches and no other, in their order.
pub proof fn law_filtered(runtimes: Seq<Runtime>, filter: Seq<char>, runtime: Runtime)
    ensures
        runtimes.filter(|r: Runtime| matches_filter(r@.field_name, filter)).contains(runtime) <==> runtimes.contains(runtime)
            && exists|head: Seq<char>, tail: Seq<char>|
            lowercased(runtime.field_name@) == #[trigger] (head + lowercased(filter) + tail),
    decreases runtimes.len(),
{
    let kept = |r: Runtime| matches_filter(r@.field_name, filter);
    law_filter(runtime, filter);
    reveal(Seq::filter);
    if runtimes.len() > 0 {
        let init = runtimes.drop_last();
        law_filtered(init, filter, runtime);
        let before = init.filter(kept);
        let now = runtimes.filter(kept);
        if init.contains(runtime) {
            assert(runtimes[init.index_of(runtime)] == runtime);
        }
        assert(runtimes[runtimes.len() - 1] == runtimes.last());
        if runtimes.contains(runtime) && runtime != runtimes.last() {
            assert(init[runtimes.index_of(runtime)] == runtime);
        }
        if before.contains(runtime) {
            assert(now[before.index_of(runtime)] == runtime);
        }
        if kept(runtimes.last()) {
            assert(now == before.push(runtimes.last()));
            assert(now[before.len() as int] == runtimes.last());
            if now.contains(runtime) && runtime != runtimes.last() {
                assert(before[now.index_of(runtime)] == runtime);
            }
        }
    }
}

} // verus!
