//! Laws of an annotation.
use vstd::prelude::*;

use crate::annotate::{
    added, finishes, is_start, known_at_last, settings, values_sent, AnnotatorView, PhaseView, Placement, Progress,
    ProgressView, RowView, PRS_PER_BATCH, RELEASE_TAGS, SDK_OWNER, SDK_REPO,
};
use crate::graphql::{add_items_call, field_call, item_id, node_ids, project_of, ResponseError, UpdateView};
use crate::json::Json;
use crate::laws::graphql::{law_node_ids, node_at};
use crate::plan::{is_plan, pr_status, TagsView};
use crate::state::State;
use crate::text::joined;

verus! {

/// The names that an annotation goes by: the repository of the pull requests, the field of their tags, and the
/// number of pull requests of a batch.
pub proof fn law_names()
    ensures
        SDK_OWNER@ == "paritytech"@,
        SDK_REPO@ == "polkadot-sdk"@,
        RELEASE_TAGS@ == "Release Tags"@,
        PRS_PER_BATCH == 20,
{
}

/// An annotation begins with the pull requests of a list, in their order: each with its tags, and its status in
/// each runtime, as the releases have it.
pub proof fn law_beginning(view: AnnotatorView, plan: Seq<TagsView>, state: State, dry_run: bool, i: int, k: int)
    requires
        is_start(view, plan, state@, dry_run),
    ensures
        view.dry_run == dry_run,
        view.phase is Project,
        view.names.len() == state.runtimes@.len(),
        0 <= k < view.names.len() ==> view.names[k] == state.runtimes@[k].field_name@,
        view.rows.len() == plan.len(),
        0 <= i < plan.len() ==> {
            &&& view.rows[i].number == plan[i].number
            &&& view.rows[i].tags == joined(plan[i].tags, ", "@)
            &&& view.rows[i].statuses.len() == state.runtimes@.len()
            &&& 0 <= k < state.runtimes@.len() ==> view.rows[i].statuses[k] == pr_status(
                state.runtimes@[k]@,
                state@.releases,
                plan[i].number,
            )
        },
{
}

/// A dry run ends as soon as the project was read.
pub proof fn law_dry_run_ends_at_once(view: AnnotatorView, response: Json)
    requires
        view.dry_run,
        view.phase is Project,
    ensures
        view.after(response) matches Some((_, progress)) ==> progress is Finished,
        view.after(response) is Some <==> project_of(response) is Some,
{
}

/// A batch has the next twenty pull requests, or those that are left, and asks for them in their order.
pub proof fn law_batch(view: AnnotatorView, start: nat, i: int)
    requires
        start <= view.rows.len(),
    ensures
        view.batch_end(start) == if view.rows.len() < start + 20 {
            view.rows.len()
        } else {
            start + 20
        },
        view.batch_numbers(start).len() == view.batch_end(start) - start,
        0 <= i < view.batch_end(start) - start ==> view.batch_numbers(start)[i] == view.rows[start + i].number,
{
}

/// Whether each pull request has a number of its own.
pub open spec fn numbers_differ(rows: Seq<RowView>) -> bool {
    forall|i: int, j: int| 0 <= i < j < rows.len() ==> (#[trigger] rows[i]).number != (#[trigger] rows[j]).number
}

proof fn lemma_batch_differs(view: AnnotatorView, start: nat)
    requires
        start <= view.rows.len(),
        numbers_differ(view.rows),
    ensures
        view.batch_numbers(start).no_duplicates(),
{
    let numbers = view.batch_numbers(start);
    assert forall|i: int, j: int| 0 <= i < numbers.len() && 0 <= j < numbers.len() && i != j implies numbers[i] != numbers[j] by {
        assert(numbers[i] == view.rows[start + i].number);
        assert(numbers[j] == view.rows[start + j].number);
        if i < j {
            assert(view.rows[start + i].number != view.rows[start + j].number);
        } else {
            assert(view.rows[start + j].number != view.rows[start + i].number);
        }
    }
}

/// The pull requests of a batch that are added to the project are those that the response has an identifier for,
/// and the call adds each of them, in their order, by the identifier that the response gives to its number.
pub proof fn law_added_by_number(view: AnnotatorView, response: Json, start: nat)
    requires
        view.phase == (PhaseView::NodeIds { start }),
    ensures
        view.after(response) matches Some((next, progress)) ==> (next.phase matches PhaseView::Items { start: s, found } ==> {
            let ids = node_ids(response, view.batch_numbers(start));
            &&& s == start
            &&& progress == ProgressView::Call(
                add_items_call(
                    view.project.id,
                    Seq::new(found.len(), |i: int| ids[view.rows[found[i] as int].number]),
                ),
            )
        }),
{
    let known = view.idle();
    assert(known.batch_numbers(start) =~= view.batch_numbers(start));
    let ids = node_ids(response, view.batch_numbers(start));
    let found = known.found_rows(start, known.batch_end(start), ids);
    assert(Seq::new(found.len(), |i: int| ids[known.rows[found[i] as int].number]) =~= Seq::new(
        found.len(),
        |i: int| ids[view.rows[found[i] as int].number],
    ));
}

/// A pull request of a batch is added to the project exactly where the response has an identifier under its place
/// in the batch; and the call adds, in their order, each of them by that very identifier.
pub proof fn law_added_by_place(view: AnnotatorView, response: Json, start: nat)
    requires
        view.phase == (PhaseView::NodeIds { start }),
        start < view.rows.len() <= usize::MAX,
        numbers_differ(view.rows),
    ensures
        view.after(response) is Some,
        ({
            let (next, progress) = view.after(response)->0;
            let some = exists|row: int| start <= row < view.batch_end(start) && #[trigger] node_at(response, (row - start) as nat) is Text;
            &&& next.phase is Items <==> some
            &&& next.phase matches PhaseView::Items { start: s, found } ==> {
                &&& s == start
                &&& forall|i: int| 0 <= i < found.len() ==> start <= #[trigger] found[i] < view.batch_end(start)
                &&& forall|row: usize|
                    found.contains(row) <==> start <= row < view.batch_end(start) && #[trigger] node_at(
                        response,
                        (row - start) as nat,
                    ) is Text
                &&& progress == ProgressView::Call(
                    add_items_call(
                        view.project.id,
                        Seq::new(found.len(), |i: int| node_at(response, (found[i] - start) as nat)->Text_0),
                    ),
                )
            }
        }),
{
    let known = view.idle();
    let numbers = view.batch_numbers(start);
    let end = view.batch_end(start);
    assert(known.batch_numbers(start) =~= numbers);
    let ids = node_ids(response, numbers);
    let found = known.found_rows(start, end, ids);
    lemma_batch_differs(view, start);
    assert forall|row: usize| found.contains(row) <==> start <= row < end && #[trigger] node_at(
        response,
        (row - start) as nat,
    ) is Text by {
        crate::annotate::law_found_rows(known, start, end, ids, row);
        if start <= row < end {
            law_node_ids(response, numbers, (row - start) as nat, 0);
            assert(numbers[row - start] == view.rows[row as int].number);
        }
    }
    let contents = Seq::new(found.len(), |i: int| ids[known.rows[found[i] as int].number]);
    assert forall|i: int| 0 <= i < found.len() implies start <= #[trigger] found[i] < end && contents[i] == node_at(
        response,
        (found[i] - start) as nat,
    )->Text_0 by {
        let row = found[i];
        assert(found.contains(row));
        assert(node_at(response, (row - start) as nat) is Text);
        law_node_ids(response, numbers, (row - start) as nat, 0);
        assert(numbers[row - start] == view.rows[row as int].number);
    }
    assert(contents =~= Seq::new(found.len(), |i: int| node_at(response, (found[i] - start) as nat)->Text_0));
    if exists|row: int| start <= row < end && #[trigger] node_at(response, (row - start) as nat) is Text {
        let row = choose|row: int| start <= row < end && #[trigger] node_at(response, (row - start) as nat) is Text;
        let r = row as usize;
        assert(node_at(response, (r - start) as nat) is Text);
        assert(found.contains(r));
        assert(found.len() > 0);
    }
    if found.len() > 0 {
        let row = found[0];
        assert(found.contains(row));
        assert(node_at(response, (row as int - start) as nat) is Text);
    }
}

/// What is set for one item: in the field of the release tags its tags, and in each runtime's field its status in
/// that runtime, each once.
pub proof fn law_row_updates(view: AnnotatorView, row: RowView, item: Seq<char>, k: int)
    ensures
        view.row_updates(row, item).len() == 1 + view.names.len(),
        view.row_updates(row, item)[0] == (UpdateView { item_id: item, field_id: view.tags_field, value: row.tags }),
        0 <= k < view.names.len() ==> view.row_updates(row, item)[1 + k] == (UpdateView {
            item_id: item,
            field_id: view.status_fields[view.names[k]],
            value: row.statuses[k],
        }),
{
}

/// What is set for a batch: for each added pull request in turn what is set for it, on the item that the response
/// gives for its position.
pub proof fn law_updates_for(view: AnnotatorView, found: Seq<usize>, row: usize, response: Json)
    ensures
        view.updates_for(Seq::empty(), response) == Seq::<UpdateView>::empty(),
        view.updates_for(found.push(row), response) == view.updates_for(found, response) + view.row_updates(
            view.rows[row as int],
            item_id(response, found.len())->0,
        ),
{
    assert(found.push(row).drop_last() =~= found);
}

/// What is set for added pull requests: for each in turn what is set for it.
pub proof fn law_settings(view: AnnotatorView, places: Seq<Placement>, place: Placement)
    ensures
        settings(view, Seq::empty()) == Seq::<UpdateView>::empty(),
        settings(view, places.push(place)) == settings(view, places) + view.row_updates(
            view.rows[place.row as int],
            place.item,
        ),
{
    assert(places.push(place).drop_last() =~= places);
}

proof fn lemma_settings_hold(view: AnnotatorView, places: Seq<Placement>, i: int, j: int)
    requires
        0 <= i < places.len(),
        0 <= j <= view.names.len(),
    ensures
        settings(view, places).contains(view.row_updates(view.rows[places[i].row as int], places[i].item)[j]),
    decreases places.len(),
{
    let init = places.drop_last();
    let earlier = settings(view, init);
    let own = view.row_updates(view.rows[places.last().row as int], places.last().item);
    let all = settings(view, places);
    let wanted = view.row_updates(view.rows[places[i].row as int], places[i].item)[j];
    assert(all == earlier + own);
    if i < init.len() {
        lemma_settings_hold(view, init, i, j);
        assert(init[i] == places[i]);
        assert(all[earlier.index_of(wanted)] == wanted);
    } else {
        assert(all[earlier.len() + j] == own[j]);
    }
}

/// An annotation that comes to its end has set, on the item of each pull request that was added to the project, the
/// tags of that pull request, and its status in each runtime as the releases have it.
pub proof fn law_run_sets_tags_and_statuses(
    view: AnnotatorView,
    plan: Seq<TagsView>,
    state: State,
    dry_run: bool,
    responses: Seq<Json>,
    i: int,
    k: int,
)
    requires
        is_start(view, plan, state@, dry_run),
        view.valid(),
        view.rows.len() <= usize::MAX,
        finishes(view, responses),
        0 <= i < added(view, responses).len(),
    ensures
        ({
            let place = added(view, responses)[i];
            let last = known_at_last(view, responses);
            let sent = values_sent(view, responses);
            &&& place.row < plan.len()
            &&& sent.contains(
                UpdateView {
                    item_id: place.item,
                    field_id: last.tags_field,
                    value: joined(plan[place.row as int].tags, ", "@),
                },
            )
            &&& 0 <= k < state.runtimes@.len() ==> sent.contains(
                UpdateView {
                    item_id: place.item,
                    field_id: last.status_fields[state.runtimes@[k].field_name@],
                    value: pr_status(state.runtimes@[k]@, state@.releases, plan[place.row as int].number),
                },
            )
        }),
{
    crate::annotate::law_only_fields_of_added_prs_are_set(view, responses);
    let places = added(view, responses);
    let place = places[i];
    let last = known_at_last(view, responses);
    law_beginning(view, plan, state, dry_run, place.row as int, k);
    let row = last.rows[place.row as int];
    law_row_updates(last, row, place.item, k);
    lemma_settings_hold(last, places, i, 0);
    if 0 <= k < state.runtimes@.len() {
        lemma_settings_hold(last, places, i, 1 + k);
    }
}

/// How many fields have an identifier once the fields from a position on were seen to: those before the one that is
/// being created, or all.
pub open spec fn fields_seen_to(view: AnnotatorView) -> nat {
    match view.phase {
        PhaseView::Field { index } => index,
        _ => view.names.len() + 1,
    }
}

proof fn lemma_field_ids(view: AnnotatorView, index: nat)
    requires
        index <= view.names.len() + 1,
    ensures
        ({
            let next = view.from_field(index).0;
            &&& next.names == view.names
            &&& index <= fields_seen_to(next) <= view.names.len() + 1
            &&& index > 0 ==> next.tags_field == view.tags_field
            &&& index == 0 && fields_seen_to(next) > 0 ==> {
                &&& view.project.fields.contains_key("Release Tags"@)
                &&& next.tags_field == view.project.fields["Release Tags"@]
            }
            &&& forall|k: int|
                index <= k + 1 < fields_seen_to(next) && 0 <= k ==> view.project.fields.contains_key(#[trigger] view.names[k])
                    && next.status_fields.contains_key(view.names[k]) && next.status_fields[view.names[k]]
                    == view.project.fields[view.names[k]]
        }),
    decreases view.names.len() + 1 - index,
{
    if index <= view.names.len() && view.project.fields.contains_key(view.field_name(index)) {
        let noted = view.with_field(index, view.project.fields[view.field_name(index)]);
        lemma_field_ids(noted, index + 1);
        let next = noted.from_field(index + 1).0;
        assert(view.from_field(index).0 == next);
        assert forall|k: int| index <= k + 1 < fields_seen_to(next) && 0 <= k implies view.project.fields.contains_key(
            #[trigger] view.names[k],
        ) && next.status_fields.contains_key(view.names[k]) && next.status_fields[view.names[k]]
            == view.project.fields[view.names[k]] by {
            if k + 1 == index {
                let name = view.names[k];
                if exists|m: int| index + 1 <= m + 1 < fields_seen_to(next) && 0 <= m && #[trigger] view.names[m] == name {
                    let m = choose|m: int| index + 1 <= m + 1 < fields_seen_to(next) && 0 <= m && #[trigger] view.names[m] == name;
                    assert(noted.names[m] == name);
                } else {
                    lemma_field_untouched(noted, index + 1, name);
                }
            } else {
                assert(noted.names[k] == view.names[k]);
            }
        }
    }
}

/// A field that is not among those that were seen to keeps its identifier.
proof fn lemma_field_untouched(view: AnnotatorView, index: nat, name: Seq<char>)
    requires
        index > 0,
        forall|m: int| index <= m + 1 < fields_seen_to(view.from_field(index).0) && 0 <= m ==> #[trigger] view.names[m] != name,
    ensures
        view.from_field(index).0.status_fields.contains_key(name) == view.status_fields.contains_key(name),
        view.from_field(index).0.status_fields[name] == view.status_fields[name],
    decreases view.names.len() + 1 - index,
{
    if index <= view.names.len() && view.project.fields.contains_key(view.field_name(index)) {
        let noted = view.with_field(index, view.project.fields[view.field_name(index)]);
        let next = noted.from_field(index + 1).0;
        assert(view.from_field(index).0 == next);
        lemma_seen(noted, index + 1);
        assert(view.names[index - 1] != name);
        assert forall|m: int| index + 1 <= m + 1 < fields_seen_to(next) && 0 <= m implies #[trigger] noted.names[m] != name by {
            assert(view.names[m] != name);
        }
        lemma_field_untouched(noted, index + 1, name);
    }
}

proof fn lemma_seen(view: AnnotatorView, index: nat)
    requires
        index <= view.names.len() + 1,
    ensures
        index <= fields_seen_to(view.from_field(index).0),
        view.from_field(index).0.names == view.names,
    decreases view.names.len() + 1 - index,
{
    if index <= view.names.len() && view.project.fields.contains_key(view.field_name(index)) {
        lemma_seen(view.with_field(index, view.project.fields[view.field_name(index)]), index + 1);
    }
}

/// Once the project was read, its fields are used for the release tags and for the runtimes, by their names, up to
/// the first that it lacks; that one is created next.
pub proof fn law_fields_of_the_project_are_used(view: AnnotatorView, response: Json, k: int)
    requires
        view.phase is Project,
        !view.dry_run,
        project_of(response) is Some,
    ensures
        ({
            let fields = project_of(response)->0.fields;
            let (next, progress) = view.after(response)->0;
            let seen = fields_seen_to(next);
            &&& view.after(response) is Some
            &&& seen > 0 ==> fields.contains_key("Release Tags"@) && next.tags_field == fields["Release Tags"@]
            &&& 0 <= k < view.names.len() && k + 1 < seen ==> fields.contains_key(view.names[k])
                && next.status_fields[view.names[k]] == fields[view.names[k]]
            &&& next.phase matches PhaseView::Field { index } ==> {
                let name = if index == 0 {
                    "Release Tags"@
                } else {
                    view.names[index - 1]
                };
                &&& !fields.contains_key(name)
                &&& progress == ProgressView::Call(field_call(project_of(response)->0.id, name))
            }
        }),
{
    let project = project_of(response)->0;
    let start = AnnotatorView { project, ..view.idle() };
    lemma_field_ids(start, 0);
    let next = start.from_field(0).0;
    if 0 <= k < view.names.len() && k + 1 < fields_seen_to(next) {
        assert(start.names[k] == view.names[k]);
    }
    lemma_first_lacking(start, 0);
}

proof fn lemma_first_lacking(view: AnnotatorView, index: nat)
    ensures
        ({
            let (next, progress) = view.from_field(index);
            next.phase matches PhaseView::Field { index: k } ==> {
                &&& index <= k <= view.names.len()
                &&& !view.project.fields.contains_key(view.field_name(k))
                &&& progress == ProgressView::Call(field_call(view.project.id, view.field_name(k)))
            }
        }),
    decreases view.names.len() + 1 - index,
{
    if index <= view.names.len() && view.project.fields.contains_key(view.field_name(index)) {
        let noted = view.with_field(index, view.project.fields[view.field_name(index)]);
        lemma_first_lacking(noted, index + 1);
        assert forall|k: nat| #[trigger] noted.field_name(k) == view.field_name(k) by {}
    }
}

/// A field that was created is used from now on, by the identifier that the response gives; those of the project
/// that follow it are used as they are, and those before it stay as they were.
pub proof fn law_created_field_is_used(view: AnnotatorView, response: Json, index: nat, id: Seq<char>, k: int)
    requires
        view.phase == (PhaseView::Field { index }),
        index <= view.names.len(),
        crate::graphql::created_field(response) == Some(id),
        !view.project.fields.contains_key(view.field_name(index)),
    ensures
        ({
            let fields = view.project.fields;
            let (next, _) = view.after(response)->0;
            let seen = fields_seen_to(next);
            &&& view.after(response) is Some
            &&& index == 0 ==> next.tags_field == id
            &&& index > 0 ==> next.tags_field == view.tags_field && next.status_fields[view.names[index - 1]] == id
            &&& 0 <= k < view.names.len() && index < k + 1 < seen ==> fields.contains_key(view.names[k])
                && next.status_fields[view.names[k]] == fields[view.names[k]]
            &&& 0 <= k < index - 1 && view.names.no_duplicates() ==> next.status_fields[view.names[k]]
                == view.status_fields[view.names[k]]
        }),
{
    let known = view.idle();
    let noted = known.with_field(index, id);
    lemma_field_ids(noted, index + 1);
    let next = noted.from_field(index + 1).0;
    if index > 0 {
        let name = view.names[index - 1];
        assert(view.field_name(index) == name);
        lemma_field_untouched(noted, index + 1, name);
    }
    if 0 <= k < view.names.len() && index < k + 1 < fields_seen_to(next) {
        assert(noted.names[k] == view.names[k]);
    }
    if 0 <= k < index - 1 && view.names.no_duplicates() {
        let name = view.names[k];
        assert(view.names[index - 1] != name);
        lemma_field_untouched(noted, index + 1, name);
    }
}

/// Which responses an annotation cannot go on from: one without the project, without a created field, or without the
/// item of an added pull request; and the error says which, the first item that is missing.
pub proof fn law_what_is_lacking(view: AnnotatorView, response: Json, error: ResponseError)
    ensures
        view.phase is Project ==> (view.after(response) is None <==> project_of(response) is None),
        view.phase is Field ==> (view.after(response) is None <==> crate::graphql::created_field(response) is None),
        view.phase matches PhaseView::Items { found, .. } ==> (view.after(response) is None <==> exists|i: nat|
            i < found.len() && #[trigger] item_id(response, i) is None),
        view.phase is NodeIds || view.phase is Values || view.phase is Done ==> view.after(response) is Some,
        view.phase is Done ==> (view.after(response) matches Some((_, progress)) && progress is Finished),
        view.phase is Project && view.lacks(response, error) ==> error is NoProjectId,
        view.phase is Field && view.lacks(response, error) ==> error is NoFieldId,
        view.lacks(response, error) ==> (view.phase matches PhaseView::Items { found, .. } ==> {
            &&& error matches ResponseError::NoItemId(k)
            &&& k < found.len()
            &&& item_id(response, k as nat) is None
            &&& forall|i: nat| i < k ==> #[trigger] item_id(response, i) is Some
        }),
{
    if let PhaseView::Items { found, .. } = view.phase {
        if view.after(response) is None {
            assert(!AnnotatorView::all_items(found.len(), response));
            let i = choose|i: nat| i < found.len() && !(#[trigger] item_id(response, i) is Some);
            assert(item_id(response, i) is None);
        }
    }
}

/// The pull requests that are passed over are those of the batch that the response has no identifier for.
pub proof fn law_passed_over(view: AnnotatorView, response: Json, row: int, start: nat)
    requires
        view.phase == (PhaseView::NodeIds { start }),
        start < view.rows.len(),
        numbers_differ(view.rows),
        start <= row < view.batch_end(start),
    ensures
        view.passed_over(response).contains(view.rows[row].number) <==> !(node_at(response, (row - start) as nat) is Text),
{
    let numbers = view.batch_numbers(start);
    lemma_batch_differs(view, start);
    assert(numbers[row - start] == view.rows[row].number);
    crate::graphql::law_resolved_or_not(response, numbers, view.rows[row].number);
    law_node_ids(response, numbers, (row - start) as nat, 0);
}

/// Nothing is passed over but where identifiers of pull requests were asked for.
pub proof fn law_nothing_else_is_passed_over(view: AnnotatorView, response: Json)
    requires
        !(view.phase is NodeIds),
    ensures
        view.passed_over(response).len() == 0,
{
}

/// What is to be done next is what the progress says.
pub proof fn law_progress_view(progress: Progress)
    ensures
        progress@ is Finished <==> progress is Finished,
        progress matches Progress::Call(call) ==> progress@ == ProgressView::Call(call@),
{
}

/// Once the batches begin, nothing changes but which response is awaited: the pull requests, the project and the
/// identifiers of the fields stay as they are. Before that, the pull requests and the names of the fields do.
pub proof fn law_what_stays(view: AnnotatorView, response: Json)
    ensures
        view.after(response) matches Some((next, _)) ==> {
            &&& next.dry_run == view.dry_run
            &&& next.names == view.names
            &&& next.rows == view.rows
            &&& !(view.phase is Project) ==> next.project == view.project
            &&& view.phase is NodeIds || view.phase is Items || view.phase is Values || view.phase is Done ==> {
                &&& next.tags_field == view.tags_field
                &&& next.status_fields == view.status_fields
            }
        },
{
    crate::annotate::lemma_after_keeps(view, response);
}

/// The pull requests of an annotation have each a number of its own.
pub proof fn law_numbers_differ(
    view: AnnotatorView,
    plan: Seq<TagsView>,
    state: State,
    dry_run: bool,
    dirty: Option<Set<u64>>,
)
    requires
        is_start(view, plan, state@, dry_run),
        is_plan(plan, state@.releases, dirty),
    ensures
        numbers_differ(view.rows),
{
    assert forall|i: int, j: int| 0 <= i < j < view.rows.len() implies (#[trigger] view.rows[i]).number != (
    #[trigger] view.rows[j]).number by {
        law_beginning(view, plan, state, dry_run, i, 0);
        law_beginning(view, plan, state, dry_run, j, 0);
        crate::laws::plan::law_plan_holds_the_selected(plan, state@.releases, dirty, 0);
        assert(plan[i].number < plan[j].number);
    }
}

/// What is set for a batch, by position: the values of the pull request that was added at a position follow those of
/// the pull requests that were added before it, and all of them go to the item at that position of the response.
pub proof fn law_updates_by_position(view: AnnotatorView, found: Seq<usize>, response: Json, i: int, j: int)
    ensures
        view.updates_for(found, response).len() == found.len() * (1 + view.names.len()),
        0 <= i < found.len() && 0 <= j <= view.names.len() ==> {
            &&& 0 <= i * (1 + view.names.len()) + j < view.updates_for(found, response).len()
            &&& view.updates_for(found, response)[i * (1 + view.names.len()) + j] == view.row_updates(
                view.rows[found[i] as int],
                item_id(response, i as nat)->0,
            )[j]
        },
    decreases found.len(),
{
    let n = 1 + view.names.len();
    if found.len() > 0 {
        let init = found.drop_last();
        let last = found.len() - 1;
        law_updates_by_position(view, init, response, i, j);
        assert(init.push(found.last()) =~= found);
        law_updates_for(view, init, found.last(), response);
        let earlier = view.updates_for(init, response);
        assert(found.len() * n == last * n + n) by (nonlinear_arith)
            requires
                last == found.len() - 1,
        ;
        assert(earlier.len() == last * n);
        if 0 <= i < last && 0 <= j < n {
            assert(i * n + j < last * n) by (nonlinear_arith)
                requires
                    0 <= i < last,
                    0 <= j < n,
            ;
            assert(0 <= i * n) by (nonlinear_arith)
                requires
                    0 <= i,
                    0 <= n,
            ;
            assert(init[i] == found[i]);
        } else if i == last && 0 <= j < n {
            assert(i * n == last * n);
            assert(0 <= last * n);
        }
    } else {
        assert(found.len() * n == 0) by (nonlinear_arith)
            requires
                found.len() == 0,
        ;
    }
}

/// From the identifiers to the values: a pull request is added by the identifier that the one response gives for it,
/// and its tags and statuses are set on the item that the other response gives for the same position.
pub proof fn law_values_go_to_the_own_item(view: AnnotatorView, nodes: Json, items: Json, start: nat, i: int, j: int)
    requires
        view.phase == (PhaseView::NodeIds { start }),
        view.valid(),
        view.rows.len() <= usize::MAX,
        numbers_differ(view.rows),
        0 <= j <= view.names.len(),
    ensures
        view.after(nodes) matches Some((added_view, added_call)) ==> (added_view.phase matches PhaseView::Items {
            found,
            ..
        } ==> (0 <= i < found.len() ==> {
            let ids = Seq::new(found.len(), |m: int| node_at(nodes, (found[m] - start) as nat)->Text_0);
            &&& added_call == ProgressView::Call(add_items_call(view.project.id, ids))
            &&& node_at(nodes, (found[i] - start) as nat) == Json::Text(ids[i])
            &&& added_view.after(items) matches Some((set_view, _)) ==> (set_view.phase matches PhaseView::Values {
                updates,
                ..
            } && {
                &&& 0 <= i * (1 + view.names.len()) + j < updates.len()
                &&& updates[i * (1 + view.names.len()) + j] == view.row_updates(
                    view.rows[found[i] as int],
                    item_id(items, i as nat)->0,
                )[j]
            })
        })),
{
    law_added_by_place(view, nodes, start);
    let (middle, _) = view.after(nodes)->0;
    law_what_stays(view, nodes);
    crate::annotate::lemma_after_valid(view, nodes);
    if let PhaseView::Items { start: s, found } = middle.phase {
        if 0 <= i < found.len() {
            assert(found.contains(found[i]));
            assert(node_at(nodes, (found[i] - start) as nat) is Text);
            crate::annotate::law_values_are_consecutive(middle, items);
            law_updates_by_position(middle.idle(), found, items, i, j);
            let row = view.rows[found[i] as int];
            let item = item_id(items, i as nat)->0;
            assert(middle.idle().row_updates(row, item) =~= view.row_updates(row, item));
        }
    }
}

} // verus!
