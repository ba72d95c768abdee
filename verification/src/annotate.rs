//! Annotating a GitHub project: which call to make next, given the responses so far.
use std::collections::{HashMap, HashSet};

use vstd::prelude::*;

use crate::collections::StringMap;
use crate::graphql::{
    add_items_call, batch_add_items_to_project, batch_get_pr_node_ids, batch_set_field_values, create_text_field,
    created_field, fetch_project_info, field_call, item_id, node_ids, node_ids_call, numbered_texts, part_end,
    project_call, project_of, read_created_field, read_item_ids, read_pr_node_ids, read_project_info, set_values_call,
    unresolved, unresolved_prs, update_views, value_texts, CallView, FieldUpdate, GraphqlCall, ProjectInfo, ProjectView, ResponseError, UpdateView,
    UPDATES_PER_CALL,
};
use crate::json::{contents, Json};
use crate::plan::{
    annotation_stats, is_plan, optional_set, plan_annotations, pr_status, stats_of, status_in, tags_views,
    AnnotationStats, PrTags, TagsView,
};
use crate::project::{build_pr_crate_map, crate_map_texts, pr_crates, published};
use crate::state::{ReleaseView, RuntimeView, State, StateView};
use crate::text::{join, joined, texts};

verus! {

broadcast use vstd::std_specs::hash::group_hash_axioms;

/// Owner of the repository that the pull requests belong to.
pub const SDK_OWNER: &'static str = "paritytech";

/// Name of the repository that the pull requests belong to.
pub const SDK_REPO: &'static str = "polkadot-sdk";

/// Field that shows the tags of the releases that contain a pull request.
pub const RELEASE_TAGS: &'static str = "Release Tags";

/// The number of pull requests that are annotated together at most.
pub const PRS_PER_BATCH: usize = 20;

/// A pull request, and what its fields are set to.
pub struct Row {
    /// Number of the pull request.
    pub number: u64,
    /// Tags of its releases.
    pub tags: String,
    /// Its status in each runtime.
    pub statuses: Vec<String>,
}

/// A pull request, and what its fields are set to.
pub struct RowView {
    pub number: u64,
    pub tags: Seq<char>,
    pub statuses: Seq<Seq<char>>,
}

impl View for Row {
    type V = RowView;

    open spec fn view(&self) -> RowView {
        RowView { number: self.number, tags: self.tags@, statuses: texts(self.statuses@) }
    }
}

/// A list of rows.
pub open spec fn row_views(rows: Seq<Row>) -> Seq<RowView> {
    rows.map_values(|r: Row| r@)
}

/// The row of a pull request: its tags, and its status in each runtime.
pub open spec fn row_of(entry: TagsView, runtimes: Seq<RuntimeView>, releases: Seq<ReleaseView>) -> RowView {
    RowView {
        number: entry.number,
        tags: joined(entry.tags, ", "@),
        statuses: Seq::new(runtimes.len(), |k: int| pr_status(runtimes[k], releases, entry.number)),
    }
}

/// The names of the runtimes' fields.
pub open spec fn field_names(runtimes: Seq<RuntimeView>) -> Seq<Seq<char>> {
    runtimes.map_values(|r: RuntimeView| r.field_name)
}

/// Which response is awaited.
pub enum Phase {
    /// The description of the project.
    Project,
    /// The field that was created: the release tags, or one of the runtimes' fields.
    Field { index: usize },
    /// The identifiers of the pull requests from a position on.
    NodeIds { start: usize },
    /// The items of the project for those of them that have an identifier.
    Items { start: usize, found: Vec<usize> },
    /// That the values up to a position were set.
    Values { start: usize, updates: Vec<FieldUpdate>, sent: usize },
    /// None.
    Done,
}

/// Which response is awaited.
pub enum PhaseView {
    Project,
    Field { index: nat },
    NodeIds { start: nat },
    Items { start: nat, found: Seq<usize> },
    Values { start: nat, updates: Seq<UpdateView>, sent: nat },
    Done,
}

impl View for Phase {
    type V = PhaseView;

    open spec fn view(&self) -> PhaseView {
        match self {
            Phase::Project => PhaseView::Project,
            Phase::Field { index } => PhaseView::Field { index: *index as nat },
            Phase::NodeIds { start } => PhaseView::NodeIds { start: *start as nat },
            Phase::Items { start, found } => PhaseView::Items { start: *start as nat, found: found@ },
            Phase::Values { start, updates, sent } => PhaseView::Values {
                start: *start as nat,
                updates: update_views(updates@),
                sent: *sent as nat,
            },
            Phase::Done => PhaseView::Done,
        }
    }
}

/// What is known in the course of an annotation.
pub struct AnnotatorView {
    /// Whether the project is left as it is.
    pub dry_run: bool,
    /// Names of the runtimes' fields.
    pub names: Seq<Seq<char>>,
    /// Pull requests to annotate.
    pub rows: Seq<RowView>,
    /// The project, once it is described.
    pub project: ProjectView,
    /// Identifier of the field of the release tags, once it is known.
    pub tags_field: Seq<char>,
    /// Identifiers of the runtimes' fields that are known, by name.
    pub status_fields: Map<Seq<char>, Seq<char>>,
    /// Which response is awaited.
    pub phase: PhaseView,
}

/// What to do next.
pub enum ProgressView {
    Call(CallView),
    Finished,
}

impl AnnotatorView {
    /// Whether the parts fit together.
    pub open spec fn valid(self) -> bool {
        &&& forall|i: int| 0 <= i < self.rows.len() ==> (#[trigger] self.rows[i]).statuses.len() == self.names.len()
        &&& match self.phase {
            PhaseView::Project => true,
            PhaseView::Field { index } => index <= self.names.len() && forall|k: int|
                0 <= k < index - 1 ==> self.status_fields.contains_key(#[trigger] self.names[k]),
            PhaseView::NodeIds { start } => start < self.rows.len() && self.fields_known(),
            PhaseView::Items { start, found } => {
                &&& start < self.rows.len()
                &&& self.fields_known()
                &&& found.len() > 0
                &&& forall|i: int| 0 <= i < found.len() ==> start <= #[trigger] found[i] < self.batch_end(start)
                &&& forall|i: int, j: int| 0 <= i < j < found.len() ==> #[trigger] found[i] < #[trigger] found[j]
            },
            PhaseView::Values { start, updates, sent } => start < self.rows.len() && self.fields_known() && 0 < sent
                <= updates.len(),
            PhaseView::Done => true,
        }
    }

    /// Whether every runtime's field has an identifier.
    pub open spec fn fields_known(self) -> bool {
        forall|k: int| 0 <= k < self.names.len() ==> self.status_fields.contains_key(#[trigger] self.names[k])
    }

    /// The end of the batch that starts at a position.
    pub open spec fn batch_end(self, start: nat) -> nat {
        part_end(start as int, PRS_PER_BATCH as int, self.rows.len() as int) as nat
    }

    /// The name of a field: the release tags come first, then the runtimes.
    pub open spec fn field_name(self, index: nat) -> Seq<char> {
        if index == 0 {
            RELEASE_TAGS@
        } else {
            self.names[index - 1]
        }
    }

    /// Takes note of the identifier of a field.
    pub open spec fn with_field(self, index: nat, id: Seq<char>) -> AnnotatorView {
        if index == 0 {
            AnnotatorView { tags_field: id, ..self }
        } else {
            AnnotatorView { status_fields: self.status_fields.insert(self.names[index - 1], id), ..self }
        }
    }

    /// Sees to the fields from a position on: one that the project has is used, one that it lacks is
    /// created. When all are known, the first batch begins.
    pub open spec fn from_field(self, index: nat) -> (AnnotatorView, ProgressView)
        decreases self.names.len() + 1 - index,
    {
        if index > self.names.len() {
            self.from_row(0)
        } else if self.project.fields.contains_key(self.field_name(index)) {
            self.with_field(index, self.project.fields[self.field_name(index)]).from_field(index + 1)
        } else {
            (
                AnnotatorView { phase: PhaseView::Field { index }, ..self },
                ProgressView::Call(field_call(self.project.id, self.field_name(index))),
            )
        }
    }

    /// The numbers of the pull requests of a batch.
    pub open spec fn batch_numbers(self, start: nat) -> Seq<u64> {
        Seq::new((self.batch_end(start) - start) as nat, |i: int| self.rows[start + i].number)
    }

    /// Begins the batch that starts at a position, unless no pull request is left.
    pub open spec fn from_row(self, start: nat) -> (AnnotatorView, ProgressView) {
        if start >= self.rows.len() {
            (AnnotatorView { phase: PhaseView::Done, ..self }, ProgressView::Finished)
        } else {
            (
                AnnotatorView { phase: PhaseView::NodeIds { start }, ..self },
                ProgressView::Call(node_ids_call(SDK_OWNER@, SDK_REPO@, self.batch_numbers(start))),
            )
        }
    }

    /// The positions from one on and before another of the rows whose pull request has an identifier.
    pub open spec fn found_rows(self, start: nat, end: nat, ids: Map<u64, Seq<char>>) -> Seq<usize>
        decreases end - start,
    {
        if end <= start {
            Seq::empty()
        } else {
            let earlier = self.found_rows(start, (end - 1) as nat, ids);
            if ids.contains_key(self.rows[end - 1].number) {
                earlier.push((end - 1) as usize)
            } else {
                earlier
            }
        }
    }

    /// Adds the pull requests of a batch that have an identifier to the project. Without any, the next
    /// batch begins.
    pub open spec fn from_node_ids(self, start: nat, response: Json) -> (AnnotatorView, ProgressView) {
        let ids = node_ids(response, self.batch_numbers(start));
        let found = self.found_rows(start, self.batch_end(start), ids);
        if found.len() == 0 {
            self.from_row(self.batch_end(start))
        } else {
            (
                AnnotatorView { phase: PhaseView::Items { start, found }, ..self },
                ProgressView::Call(
                    add_items_call(
                        self.project.id,
                        Seq::new(found.len(), |i: int| ids[self.rows[found[i] as int].number]),
                    ),
                ),
            )
        }
    }

    /// The pull requests that are passed over because a response has no identifier for them.
    pub open spec fn passed_over(self, response: Json) -> Seq<u64> {
        match self.phase {
            PhaseView::NodeIds { start } => unresolved(response, self.batch_numbers(start)),
            _ => Seq::empty(),
        }
    }

    /// What is set for one item: the release tags, and the status in each runtime.
    pub open spec fn row_updates(self, row: RowView, item: Seq<char>) -> Seq<UpdateView> {
        seq![UpdateView { item_id: item, field_id: self.tags_field, value: row.tags }] + Seq::new(
            self.names.len(),
            |k: int|
                UpdateView { item_id: item, field_id: self.status_fields[self.names[k]], value: row.statuses[k] },
        )
    }

    /// What is set for the first items of a batch.
    pub open spec fn updates_for(self, found: Seq<usize>, response: Json) -> Seq<UpdateView>
        decreases found.len(),
    {
        if found.len() == 0 {
            Seq::empty()
        } else {
            let last = (found.len() - 1) as nat;
            self.updates_for(found.drop_last(), response) + self.row_updates(
                self.rows[found.last() as int],
                item_id(response, last)->0,
            )
        }
    }

    /// Sets the values from a position on, as many as one call may set. When all are set, the next batch
    /// begins.
    pub open spec fn from_value(self, start: nat, updates: Seq<UpdateView>, from: nat) -> (AnnotatorView, ProgressView) {
        if from >= updates.len() {
            self.from_row(self.batch_end(start))
        } else {
            let sent = part_end(from as int, UPDATES_PER_CALL as int, updates.len() as int);
            (
                AnnotatorView { phase: PhaseView::Values { start, updates, sent: sent as nat }, ..self },
                ProgressView::Call(set_values_call(self.project.id, updates.subrange(from as int, sent))),
            )
        }
    }

    /// Whether a response about added items has an identifier for each of them.
    pub open spec fn all_items(count: nat, response: Json) -> bool {
        forall|i: nat| i < count ==> #[trigger] item_id(response, i) is Some
    }

    /// What is known once the awaited response is here.
    pub open spec fn idle(self) -> AnnotatorView {
        AnnotatorView { phase: PhaseView::Done, ..self }
    }

    /// What follows a response. `None` where the response lacks an identifier that is needed.
    pub open spec fn after(self, response: Json) -> Option<(AnnotatorView, ProgressView)> {
        let known = self.idle();
        match self.phase {
            PhaseView::Project => match project_of(response) {
                Some(project) => if self.dry_run {
                    Some((AnnotatorView { project, ..known }, ProgressView::Finished))
                } else {
                    Some(AnnotatorView { project, ..known }.from_field(0))
                },
                None => None,
            },
            PhaseView::Field { index } => match created_field(response) {
                Some(id) => Some(known.with_field(index, id).from_field(index + 1)),
                None => None,
            },
            PhaseView::NodeIds { start } => Some(known.from_node_ids(start, response)),
            PhaseView::Items { start, found } => if Self::all_items(found.len(), response) {
                Some(known.from_value(start, known.updates_for(found, response), 0))
            } else {
                None
            },
            PhaseView::Values { start, updates, sent } => Some(known.from_value(start, updates, sent)),
            PhaseView::Done => Some((known, ProgressView::Finished)),
        }
    }

    /// Which identifier a response lacks.
    pub open spec fn lacks(self, response: Json, error: ResponseError) -> bool {
        match self.phase {
            PhaseView::Project => error is NoProjectId,
            PhaseView::Field { .. } => error is NoFieldId,
            PhaseView::Items { found, .. } => {
                &&& error matches ResponseError::NoItemId(k)
                &&& k < found.len()
                &&& item_id(response, k as nat) is None
                &&& Self::all_items(k as nat, response)
            },
            _ => false,
        }
    }
}

/// The work of an annotation.
struct Work {
    dry_run: bool,
    names: Vec<String>,
    rows: Vec<Row>,
    project: ProjectInfo,
    tags_field: String,
    status_fields: StringMap<String>,
    phase: Phase,
}

/// What to do next.
pub enum Progress {
    /// Make a call, and hand in the response.
    Call(GraphqlCall),
    /// The annotation is finished.
    Finished,
}

impl View for Progress {
    type V = ProgressView;

    open spec fn view(&self) -> ProgressView {
        match self {
            Progress::Call(call) => ProgressView::Call(call@),
            Progress::Finished => ProgressView::Finished,
        }
    }
}

impl Work {
    spec fn view(self) -> AnnotatorView {
        AnnotatorView {
            dry_run: self.dry_run,
            names: texts(self.names@),
            rows: row_views(self.rows@),
            project: self.project@,
            tags_field: self.tags_field@,
            status_fields: value_texts(self.status_fields@),
            phase: self.phase@,
        }
    }

    /// Takes note of the identifier of a field.
    fn note_field(&mut self, index: usize, id: String)
        requires
            index <= old(self).names.len(),
        ensures
            final(self)@ == old(self)@.with_field(index as nat, id@),
    {
        if index == 0 {
            self.tags_field = id;
        } else {
            let name = self.names[index - 1].clone();
            let ghost earlier = self.status_fields@;
            self.status_fields.insert(name, id);
            assert(value_texts(self.status_fields@) =~= value_texts(earlier).insert(name@, id@));
            assert(name@ == texts(self.names@)[index - 1]);
        }
    }

    /// Sees to the fields from a position on.
    fn from_field(&mut self, index: usize) -> (progress: Progress)
        requires
            index <= old(self).names.len(),
        ensures
            (final(self)@, progress@) == old(self)@.from_field(index as nat),
    {
        let mut i: usize = index;
        loop
            invariant
                i <= self.names.len(),
                self@.names == old(self)@.names,
                self@.from_field(i as nat) == old(self)@.from_field(index as nat),
            decreases self.names.len() - i,
        {
            let name: String = if i == 0 {
                RELEASE_TAGS.to_string()
            } else {
                self.names[i - 1].clone()
            };
            assert(name@ == self@.field_name(i as nat));
            let known: Option<String> = match self.project.fields.get(name.as_str()) {
                Some(id) => Some(id.clone()),
                None => None,
            };
            match known {
                Some(id) => {
                    assert(self@.project.fields[name@] == id@);
                    self.note_field(i, id);
                },
                None => {
                    assert(!self@.project.fields.contains_key(name@));
                    let call = create_text_field(self.project.project_id.as_str(), name.as_str());
                    self.phase = Phase::Field { index: i };
                    return Progress::Call(call);
                },
            }
            if i == self.names.len() {
                assert(self@.from_field((i + 1) as nat) == self@.from_row(0));
                return self.from_row(0);
            }
            i += 1;
        }
    }

    /// Sees to the fields after a position.
    fn after_field(&mut self, index: usize) -> (progress: Progress)
        requires
            index <= old(self).names.len(),
        ensures
            (final(self)@, progress@) == old(self)@.from_field((index + 1) as nat),
    {
        if index == self.names.len() {
            self.from_row(0)
        } else {
            self.from_field(index + 1)
        }
    }

    /// The end of the batch that starts at a position.
    fn batch_end(&self, start: usize) -> (end: usize)
        requires
            start <= self.rows.len(),
        ensures
            end == self@.batch_end(start as nat),
            start <= end <= self.rows.len(),
    {
        if self.rows.len() - start < PRS_PER_BATCH {
            self.rows.len()
        } else {
            start + PRS_PER_BATCH
        }
    }

    /// The numbers of the pull requests of a batch.
    fn batch_numbers(&self, start: usize) -> (numbers: Vec<u64>)
        requires
            start <= self.rows.len(),
        ensures
            numbers@ == self@.batch_numbers(start as nat),
    {
        let end = self.batch_end(start);
        let mut numbers: Vec<u64> = Vec::new();
        let mut i: usize = start;
        while i < end
            invariant
                start <= i <= end <= self.rows.len(),
                numbers@.len() == i - start,
                forall|k: int| 0 <= k < i - start ==> numbers@[k] == self@.rows[start + k].number,
            decreases end - i,
        {
            numbers.push(self.rows[i].number);
            i += 1;
        }
        assert(numbers@ =~= self@.batch_numbers(start as nat));
        numbers
    }

    /// Begins the batch that starts at a position.
    fn from_row(&mut self, start: usize) -> (progress: Progress)
        requires
            start <= old(self).rows.len(),
        ensures
            (final(self)@, progress@) == old(self)@.from_row(start as nat),
    {
        if start < self.rows.len() {
            let numbers = self.batch_numbers(start);
            if let Some(call) = batch_get_pr_node_ids(SDK_OWNER, SDK_REPO, &numbers) {
                self.phase = Phase::NodeIds { start };
                return Progress::Call(call);
            }
        }
        self.phase = Phase::Done;
        Progress::Finished
    }

    /// Adds the pull requests of a batch that have an identifier to the project.
    fn from_node_ids(&mut self, start: usize, response: &serde_json::Value) -> (progress: Progress)
        requires
            start < old(self).rows.len(),
        ensures
            (final(self)@, progress@) == old(self)@.from_node_ids(start as nat, contents(*response)),
    {
        let numbers = self.batch_numbers(start);
        let ids = read_pr_node_ids(response, &numbers);
        let ghost known = numbered_texts(ids@);
        let end = self.batch_end(start);
        let mut found: Vec<usize> = Vec::new();
        let mut content_ids: Vec<String> = Vec::new();
        let mut i: usize = start;
        while i < end
            invariant
                start <= i <= end <= self.rows.len(),
                known == numbered_texts(ids@),
                self@ == old(self)@,
                found@ == self@.found_rows(start as nat, i as nat, known),
                content_ids@.len() == found@.len(),
                forall|k: int| 0 <= k < found@.len() ==> start <= #[trigger] found@[k] < i,
                forall|k: int|
                    0 <= k < found@.len() ==> (#[trigger] content_ids@[k])@ == known[self@.rows[found@[k] as int].number],
            decreases end - i,
        {
            let number: u64 = self.rows[i].number;
            assert(self@.rows[i as int].number == number);
            if let Some(id) = ids.get(&number) {
                assert(known[number] == id@);
                found.push(i);
                content_ids.push(id.clone());
            } else {
                assert(!known.contains_key(number));
            }
            i += 1;
        }
        let ghost view = self@;
        match batch_add_items_to_project(self.project.project_id.as_str(), &content_ids) {
            Some(call) => {
                assert(texts(content_ids@) =~= Seq::new(
                    found@.len(),
                    |k: int| known[view.rows[found@[k] as int].number],
                ));
                self.phase = Phase::Items { start, found };
                Progress::Call(call)
            },
            None => self.from_row(end),
        }
    }

    /// What is set for the items of a batch.
    fn updates_for(&self, found: &Vec<usize>, items: &Vec<String>, response: &serde_json::Value) -> (updates: Vec<FieldUpdate>)
        requires
            self@.fields_known(),
            forall|i: int| 0 <= i < self@.rows.len() ==> (#[trigger] self@.rows[i]).statuses.len() == self@.names.len(),
            forall|i: int| 0 <= i < found@.len() ==> #[trigger] found@[i] < self.rows.len(),
            items@.len() == found@.len(),
            forall|i: int| 0 <= i < found@.len() ==> item_id(contents(*response), i as nat) == Some(#[trigger] items@[i]@),
        ensures
            update_views(updates@) == self@.updates_for(found@, contents(*response)),
    {
        let mut updates: Vec<FieldUpdate> = Vec::new();
        let ghost json = contents(*response);
        let ghost view = self@;
        assert(update_views(updates@) =~= view.updates_for(found@.take(0), json));
        let mut i: usize = 0;
        while i < found.len()
            invariant
                i <= found.len(),
                view == self@,
                json == contents(*response),
                self@.fields_known(),
                forall|i: int| 0 <= i < self@.rows.len() ==> (#[trigger] self@.rows[i]).statuses.len() == self@.names.len(),
                forall|i: int| 0 <= i < found@.len() ==> #[trigger] found@[i] < self.rows.len(),
                items@.len() == found@.len(),
                forall|i: int| 0 <= i < found@.len() ==> item_id(json, i as nat) == Some(#[trigger] items@[i]@),
                update_views(updates@) == view.updates_for(found@.take(i as int), json),
            decreases found.len() - i,
        {
            let row = &self.rows[found[i]];
            let item = &items[i];
            let ghost earlier = update_views(updates@);
            let ghost added = view.row_updates(row@, item@);
            assert(view.rows[found@[i as int] as int] == row@);
            updates.push(
                FieldUpdate { item_id: item.clone(), field_id: self.tags_field.clone(), value: row.tags.clone() },
            );
            assert(update_views(updates@) =~= earlier + added.take(1));
            let mut k: usize = 0;
            while k < self.names.len()
                invariant
                    k <= self.names.len(),
                    view == self@,
                    self@.fields_known(),
                    row@.statuses.len() == self@.names.len(),
                    added == view.row_updates(row@, item@),
                    update_views(updates@) == earlier + added.take(k + 1),
                decreases self.names.len() - k,
            {
                let name = &self.names[k];
                assert(view.names[k as int] == name@);
                if let Some(field) = self.status_fields.get(name.as_str()) {
                    assert(view.status_fields[name@] == field@);
                    let ghost before = update_views(updates@);
                    let update = FieldUpdate {
                        item_id: item.clone(),
                        field_id: field.clone(),
                        value: row.statuses[k].clone(),
                    };
                    assert(row@.statuses[k as int] == row.statuses@[k as int]@);
                    assert(added[k + 1] == update@);
                    updates.push(update);
                    assert(update_views(updates@) =~= before.push(update@));
                    assert(added.take(k + 2) =~= added.take(k + 1).push(added[k + 1]));
                    assert(update_views(updates@) =~= earlier + added.take(k + 2));
                }
                k += 1;
            }
            proof {
                assert(added.take(k + 1) =~= added);
                let now = found@.take(i + 1);
                assert(now.drop_last() =~= found@.take(i as int));
                assert(now.last() == found@[i as int]);
                assert(item_id(json, i as nat)->0 == item@);
            }
            i += 1;
        }
        assert(found@.take(i as int) =~= found@);
        updates
    }

    /// Sets the values from a position on.
    fn from_value(&mut self, start: usize, updates: Vec<FieldUpdate>, from: usize) -> (progress: Progress)
        requires
            start < old(self).rows.len(),
            from <= updates.len(),
        ensures
            (final(self)@, progress@) == old(self)@.from_value(start as nat, update_views(updates@), from as nat),
    {
        match batch_set_field_values(self.project.project_id.as_str(), &updates, from) {
            Some(call) => {
                let sent: usize = if updates.len() - from < UPDATES_PER_CALL {
                    updates.len()
                } else {
                    from + UPDATES_PER_CALL
                };
                self.phase = Phase::Values { start, updates, sent };
                Progress::Call(call)
            },
            None => {
                let end = self.batch_end(start);
                self.from_row(end)
            },
        }
    }
}

/// An annotation of a project that is under way.
pub struct Annotator {
    work: Work,
}

impl View for Annotator {
    type V = AnnotatorView;

    closed spec fn view(&self) -> AnnotatorView {
        self.work@
    }
}

/// Where an annotation begins: the pull requests of a list, with their tags and statuses, and nothing known
/// of the project.
pub open spec fn is_start(view: AnnotatorView, plan: Seq<TagsView>, state: StateView, dry_run: bool) -> bool {
    &&& view.dry_run == dry_run
    &&& view.names == field_names(state.runtimes)
    &&& view.rows == Seq::new(plan.len(), |i: int| row_of(plan[i], state.runtimes, state.releases))
    &&& view.status_fields == Map::<Seq<char>, Seq<char>>::empty()
    &&& view.phase is Project
}

/// Makes the row of a pull request.
fn make_row(entry: &PrTags, state: &State, crates: &HashMap<u64, StringMap<Vec<String>>>) -> (row: Row)
    requires
        crate_map_texts(crates@) == pr_crates(published(state@.releases)),
    ensures
        row@ == row_of(entry@, state@.runtimes, state@.releases),
{
    let mut statuses: Vec<String> = Vec::new();
    let mut k: usize = 0;
    while k < state.runtimes.len()
        invariant
            k <= state.runtimes.len(),
            crate_map_texts(crates@) == pr_crates(published(state@.releases)),
            statuses@.len() == k,
            forall|m: int|
                0 <= m < k ==> (#[trigger] statuses@[m])@ == pr_status(state@.runtimes[m], state@.releases, entry.number),
        decreases state.runtimes.len() - k,
    {
        statuses.push(status_in(&state.runtimes[k], crates, entry.number));
        k += 1;
    }
    let row = Row { number: entry.number, tags: join(&entry.tags, ", "), statuses };
    assert(row@.statuses =~= row_of(entry@, state@.runtimes, state@.releases).statuses);
    row
}

/// The names of the runtimes' fields.
fn runtime_fields(state: &State) -> (names: Vec<String>)
    ensures
        texts(names@) == field_names(state@.runtimes),
{
    let mut names: Vec<String> = Vec::new();
    let mut k: usize = 0;
    while k < state.runtimes.len()
        invariant
            k <= state.runtimes.len(),
            names@.len() == k,
            forall|m: int| 0 <= m < k ==> (#[trigger] names@[m])@ == state@.runtimes[m].field_name,
        decreases state.runtimes.len() - k,
    {
        names.push(state.runtimes[k].field_name.clone());
        k += 1;
    }
    assert(texts(names@) =~= field_names(state@.runtimes));
    names
}

/// What beginning an annotation yields.
pub struct Beginning {
    /// The annotation.
    pub annotator: Annotator,
    /// What the annotations amount to.
    pub stats: AnnotationStats,
    /// The call whose response the annotation awaits.
    pub call: GraphqlCall,
}

impl Annotator {
    #[verifier::type_invariant]
    spec fn well_formed(self) -> bool {
        self.work@.valid()
    }

    /// Lists the pull requests that are passed over because the response to the last call has no identifier for
    /// them. There are none unless the call asked for identifiers.
    pub fn passed_over(&self, response: &serde_json::Value) -> (numbers: Vec<u64>)
        ensures
            numbers@ == self@.passed_over(contents(*response)),
    {
        proof {
            use_type_invariant(self);
        }
        match &self.work.phase {
            Phase::NodeIds { start } => unresolved_prs(response, &self.work.batch_numbers(*start)),
            _ => Vec::new(),
        }
    }

    /// Takes the response to the last call, and says what to do next.
    pub fn resume(self, response: &serde_json::Value) -> (next: Result<(Annotator, Progress), ResponseError>)
        ensures
            match self@.after(contents(*response)) {
                Some((view, progress)) => next matches Ok((annotator, p)) && annotator@ == view && p@ == progress
                    && view.valid(),
                None => next matches Err(error) && self@.lacks(contents(*response), error),
            },
    {
        proof {
            use_type_invariant(&self);
            assert(self.work.rows.len() <= usize::MAX);
            lemma_after_valid(self@, contents(*response));
        }
        let mut work = self.work;
        let ghost start = work@;
        let phase = work.phase;
        work.phase = Phase::Done;
        let progress = match phase {
            Phase::Project => {
                let project = match read_project_info(response) {
                    Ok(project) => project,
                    Err(error) => return Err(error),
                };
                work.project = project;
                if work.dry_run {
                    Progress::Finished
                } else {
                    work.from_field(0)
                }
            },
            Phase::Field { index } => {
                let id = match read_created_field(response) {
                    Ok(id) => id,
                    Err(error) => return Err(error),
                };
                work.note_field(index, id);
                work.after_field(index)
            },
            Phase::NodeIds { start } => work.from_node_ids(start, response),
            Phase::Items { start, found } => {
                let items = match read_item_ids(response, found.len()) {
                    Ok(items) => items,
                    Err(error) => return Err(error),
                };
                assert forall|i: nat| i < found.len() implies #[trigger] item_id(contents(*response), i) is Some by {
                    assert(item_id(contents(*response), i) == Some(items@[i as int]@));
                }
                let updates = work.updates_for(&found, &items, response);
                work.from_value(start, updates, 0)
            },
            Phase::Values { start, updates, sent } => work.from_value(start, updates, sent),
            Phase::Done => Progress::Finished,
        };
        Ok((Annotator { work }, progress))
    }
}

/// Begins to annotate the pull requests of a state's releases. With a set of pull requests, only
/// those are annotated; without one, all are. In a dry run the project is read, and left as it is.
pub fn annotate(state: &State, dry_run: bool, verbose: bool, dirty_prs: Option<&HashSet<u64>>) -> (beginning: Beginning)
    ensures
        beginning.annotator@.valid(),
        beginning.call@ == project_call(state@.org, state@.number),
        exists|plan: Seq<TagsView>|
            #![trigger is_plan(plan, state@.releases, optional_set(dirty_prs))]
            {
                &&& is_plan(plan, state@.releases, optional_set(dirty_prs))
                &&& is_start(beginning.annotator@, plan, state@, dry_run)
                &&& beginning.stats@ == stats_of(plan, state@.runtimes, state@.releases, verbose)
            },
{
    let plan = plan_annotations(state, dirty_prs);
    let crates = build_pr_crate_map(state);
    let stats = annotation_stats(state, &plan, &crates, verbose);
    let ghost views = tags_views(plan@);
    let mut rows: Vec<Row> = Vec::new();
    let mut i: usize = 0;
    while i < plan.len()
        invariant
            i <= plan.len(),
            views == tags_views(plan@),
            crate_map_texts(crates@) == pr_crates(published(state@.releases)),
            rows@.len() == i,
            forall|m: int|
                0 <= m < i ==> (#[trigger] rows@[m])@ == row_of(views[m], state@.runtimes, state@.releases),
        decreases plan.len() - i,
    {
        rows.push(make_row(&plan[i], state, &crates));
        i += 1;
    }
    let work = Work {
        dry_run,
        names: runtime_fields(state),
        rows,
        project: ProjectInfo { project_id: String::new(), fields: StringMap::new() },
        tags_field: String::new(),
        status_fields: StringMap::new(),
        phase: Phase::Project,
    };
    proof {
        assert(work@.rows =~= Seq::new(views.len(), |i: int| row_of(views[i], state@.runtimes, state@.releases)));
        assert(work@.status_fields =~= Map::empty());
        assert(is_start(work@, views, state@, dry_run));
    }
    let call = fetch_project_info(state.project.org.as_str(), state.project.number);
    Beginning { annotator: Annotator { work }, stats, call }
}

/// Seeing to the fields keeps the parts fitting.
proof fn lemma_from_field_valid(view: AnnotatorView, index: nat)
    requires
        index <= view.names.len() + 1,
        forall|i: int| 0 <= i < view.rows.len() ==> (#[trigger] view.rows[i]).statuses.len() == view.names.len(),
        forall|k: int| 0 <= k < index - 1 ==> view.status_fields.contains_key(#[trigger] view.names[k]),
    ensures
        view.from_field(index).0.valid(),
    decreases view.names.len() + 1 - index,
{
    if index <= view.names.len() && view.project.fields.contains_key(view.field_name(index)) {
        lemma_from_field_valid(view.with_field(index, view.project.fields[view.field_name(index)]), index + 1);
    }
}

/// The rows that are found lie within the batch, in ascending order.
proof fn lemma_found_rows(view: AnnotatorView, start: nat, end: nat, ids: Map<u64, Seq<char>>)
    requires
        end <= usize::MAX,
    ensures
        forall|i: int|
            0 <= i < view.found_rows(start, end, ids).len() ==> start <= #[trigger] view.found_rows(start, end, ids)[i] < end,
        forall|i: int, j: int|
            0 <= i < j < view.found_rows(start, end, ids).len() ==> #[trigger] view.found_rows(start, end, ids)[i]
                < #[trigger] view.found_rows(start, end, ids)[j],
    decreases end - start,
{
    if end > start {
        let earlier = view.found_rows(start, (end - 1) as nat, ids);
        lemma_found_rows(view, start, (end - 1) as nat, ids);
        assert forall|i: int| 0 <= i < view.found_rows(start, end, ids).len() implies start <= #[trigger] view.found_rows(
            start,
            end,
            ids,
        )[i] < end by {
            if i < earlier.len() {
                assert(view.found_rows(start, end, ids)[i] == earlier[i]);
            }
        }
        let now = view.found_rows(start, end, ids);
        assert forall|i: int, j: int| 0 <= i < j < now.len() implies #[trigger] now[i] < #[trigger] now[j] by {
            assert(now[i] == earlier[i]);
            if j < earlier.len() {
                assert(now[j] == earlier[j]);
            }
        }
    }
}

/// A response leaves the parts fitting.
pub(crate) proof fn lemma_after_valid(view: AnnotatorView, response: Json)
    requires
        view.valid(),
        view.rows.len() <= usize::MAX,
    ensures
        view.after(response) matches Some((next, _)) ==> next.valid(),
{
    match view.phase {
        PhaseView::Project => {
            if let Some(project) = project_of(response) {
                lemma_from_field_valid(AnnotatorView { project, ..view.idle() }, 0);
            }
        },
        PhaseView::Field { index } => {
            if let Some(id) = created_field(response) {
                lemma_from_field_valid(view.idle().with_field(index, id), index + 1);
            }
        },
        PhaseView::NodeIds { start } => {
            let known = view.idle();
            lemma_found_rows(known, start, known.batch_end(start), node_ids(response, known.batch_numbers(start)));
        },
        PhaseView::Items { start, found } => {},
        PhaseView::Values { start, updates, sent } => {},
        PhaseView::Done => {},
    }
}

/// The calls that an annotation makes when it is given a run of responses.
pub open spec fn calls(view: AnnotatorView, responses: Seq<Json>) -> Seq<CallView>
    decreases responses.len(),
{
    if responses.len() == 0 {
        Seq::empty()
    } else {
        match view.after(responses[0]) {
            Some((next, ProgressView::Call(call))) => seq![call] + calls(next, responses.skip(1)),
            _ => Seq::empty(),
        }
    }
}

/// In a dry run nothing is called after the project was read, whatever the responses are: the project is
/// left as it is.
pub proof fn law_dry_run_changes_nothing(view: AnnotatorView, responses: Seq<Json>)
    requires
        view.dry_run,
        view.phase is Project,
    ensures
        calls(view, responses) == Seq::<CallView>::empty(),
{
}

/// How far an annotation is from its end; a later number counts only where the ones before it are equal.
pub open spec fn remaining(view: AnnotatorView) -> (int, int, int, int) {
    match view.phase {
        PhaseView::Project => (3, 0, 0, 0),
        PhaseView::Field { index } => (2, view.names.len() - index, 0, 0),
        PhaseView::NodeIds { start } => (1, view.rows.len() - start, 2, 0),
        PhaseView::Items { start, .. } => (1, view.rows.len() - start, 1, 0),
        PhaseView::Values { start, updates, sent } => (1, view.rows.len() - start, 0, updates.len() - sent),
        PhaseView::Done => (0, 0, 0, 0),
    }
}

/// Whether one end is nearer than another.
pub open spec fn nearer(a: (int, int, int, int), b: (int, int, int, int)) -> bool {
    a.0 < b.0 || (a.0 == b.0 && (a.1 < b.1 || (a.1 == b.1 && (a.2 < b.2 || (a.2 == b.2 && a.3 < b.3)))))
}

/// A field is created only where the project lacks it, and none before the position.
proof fn lemma_from_field(view: AnnotatorView, index: nat)
    ensures
        ({
            let (next, progress) = view.from_field(index);
            &&& next.names == view.names
            &&& next.rows == view.rows
            &&& next.project == view.project
            &&& match next.phase {
                PhaseView::Field { index: k } => {
                    &&& index <= k <= view.names.len()
                    &&& !view.project.fields.contains_key(view.field_name(k))
                    &&& progress == ProgressView::Call(field_call(view.project.id, view.field_name(k)))
                },
                PhaseView::NodeIds { start } => start == 0 && 0 < view.rows.len() && progress is Call,
                PhaseView::Done => view.rows.len() == 0 && progress is Finished,
                _ => false,
            }
        }),
    decreases view.names.len() + 1 - index,
{
    if index <= view.names.len() && view.project.fields.contains_key(view.field_name(index)) {
        let after = view.with_field(index, view.project.fields[view.field_name(index)]);
        lemma_from_field(after, index + 1);
        assert forall|k: nat| #[trigger] after.field_name(k) == view.field_name(k) by {}
    }
}

/// Every response brings an annotation nearer to its end, so it makes finitely many calls.
pub proof fn law_annotation_ends(view: AnnotatorView, response: Json)
    requires
        view.valid(),
    ensures
        view.after(response) matches Some((next, ProgressView::Call(_))) ==> {
            &&& nearer(remaining(next), remaining(view))
            &&& remaining(next).0 > 0
            &&& remaining(next).1 >= 0
            &&& remaining(next).2 >= 0
            &&& remaining(next).3 >= 0
        },
{
    match view.phase {
        PhaseView::Project => {
            if let Some(project) = project_of(response) {
                lemma_from_field(AnnotatorView { project, ..view.idle() }, 0);
            }
        },
        PhaseView::Field { index } => {
            if let Some(id) = created_field(response) {
                lemma_from_field(view.idle().with_field(index, id), index + 1);
            }
        },
        _ => {},
    }
}

/// A field is created only where the project lacks one of that name.
pub proof fn law_creates_only_missing_fields(view: AnnotatorView, response: Json)
    requires
        view.valid(),
    ensures
        view.after(response) matches Some((next, progress)) ==> (next.phase matches PhaseView::Field { index } ==> {
            &&& !next.project.fields.contains_key(next.field_name(index))
            &&& progress == ProgressView::Call(field_call(next.project.id, next.field_name(index)))
        }),
{
    match view.phase {
        PhaseView::Project => {
            if let Some(project) = project_of(response) {
                lemma_from_field(AnnotatorView { project, ..view.idle() }, 0);
            }
        },
        PhaseView::Field { index } => {
            if let Some(id) = created_field(response) {
                lemma_from_field(view.idle().with_field(index, id), index + 1);
            }
        },
        _ => {},
    }
}

/// The position at which the current batch starts.
pub open spec fn batch_start(phase: PhaseView) -> Option<nat> {
    match phase {
        PhaseView::NodeIds { start } => Some(start),
        PhaseView::Items { start, .. } => Some(start),
        PhaseView::Values { start, .. } => Some(start),
        _ => None,
    }
}

/// The first batch starts with the first pull request, each next one where the one before it ends, and the
/// annotation is finished when the last one ends with the last pull request: every pull request belongs to
/// exactly one batch. No batch is empty or has more than twenty.
pub proof fn law_batches_are_consecutive(view: AnnotatorView, response: Json)
    requires
        view.valid(),
        !view.dry_run,
        !(view.phase is Done),
    ensures
        view.after(response) matches Some((next, progress)) ==> match batch_start(view.phase) {
            Some(start) => {
                &&& start < view.batch_end(start) <= start + 20
                &&& batch_start(next.phase) == Some(start) || if view.batch_end(start) < view.rows.len() {
                    next.phase == PhaseView::NodeIds { start: view.batch_end(start) }
                } else {
                    view.batch_end(start) == view.rows.len() && progress is Finished
                }
            },
            None => match next.phase {
                PhaseView::Field { .. } => progress is Call,
                PhaseView::NodeIds { start } => progress is Call && start == 0,
                _ => next.phase is Done && view.rows.len() == 0,
            },
        },
{
    match view.phase {
        PhaseView::Project => {
            if let Some(project) = project_of(response) {
                lemma_from_field(AnnotatorView { project, ..view.idle() }, 0);
            }
        },
        PhaseView::Field { index } => {
            if let Some(id) = created_field(response) {
                lemma_from_field(view.idle().with_field(index, id), index + 1);
            }
        },
        _ => {},
    }
}

/// The calls that set values set the first ones first, each next call those after the ones before, and the
/// batch is over when the last was set: every value is set by exactly one call. No call sets none or more
/// than fifty.
pub proof fn law_values_are_consecutive(view: AnnotatorView, response: Json)
    requires
        view.valid(),
    ensures
        match view.phase {
            PhaseView::Items { start, found } => view.after(response) matches Some((next, progress)) ==> {
                let updates = view.idle().updates_for(found, response);
                let end = part_end(0, 50, updates.len() as int);
                &&& 0 < end <= 50
                &&& next.phase == PhaseView::Values { start, updates, sent: end as nat }
                &&& progress == ProgressView::Call(set_values_call(view.project.id, updates.subrange(0, end)))
            },
            PhaseView::Values { start, updates, sent } => if sent < updates.len() {
                let end = part_end(sent as int, 50, updates.len() as int);
                &&& sent < end <= sent + 50
                &&& view.after(response) == Some(
                    (
                        AnnotatorView { phase: PhaseView::Values { start, updates, sent: end as nat }, ..view },
                        ProgressView::Call(set_values_call(view.project.id, updates.subrange(sent as int, end))),
                    ),
                )
            } else {
                view.after(response) == Some(view.idle().from_row(view.batch_end(start)))
            },
            _ => true,
        },
{
    if let PhaseView::Items { start, found } = view.phase {
        let known = view.idle();
        let last = (found.len() - 1) as nat;
        assert(known.row_updates(known.rows[found.last() as int], item_id(response, last)->0).len() > 0);
    }
}

/// Of a batch, exactly the pull requests that have an identifier are added to the project.
pub proof fn law_found_rows(view: AnnotatorView, start: nat, end: nat, ids: Map<u64, Seq<char>>, i: usize)
    requires
        end <= usize::MAX,
    ensures
        view.found_rows(start, end, ids).contains(i) <==> start <= i < end && ids.contains_key(view.rows[i as int].number),
    decreases end - start,
{
    if end > start {
        let earlier = view.found_rows(start, (end - 1) as nat, ids);
        let now = view.found_rows(start, end, ids);
        law_found_rows(view, start, (end - 1) as nat, ids, i);
        if earlier.contains(i) {
            assert(now[earlier.index_of(i)] == i);
        }
        if now.contains(i) && !earlier.contains(i) {
            assert(now.index_of(i) == earlier.len());
        }
        if i == end - 1 && ids.contains_key(view.rows[i as int].number) {
            assert(now[earlier.len() as int] == i);
        }
    }
}

/// A pull request that a response has an identifier for is added to the project next.
pub proof fn law_identified_prs_are_added(view: AnnotatorView, response: Json, row: usize)
    requires
        view.rows.len() <= usize::MAX,
        view.phase matches PhaseView::NodeIds { start } && {
            &&& start <= row < view.batch_end(start)
            &&& start < view.rows.len()
            &&& node_ids(response, view.batch_numbers(start)).contains_key(view.rows[row as int].number)
        },
    ensures
        view.after(response) matches Some((next, progress)) && {
            &&& progress is Call
            &&& next.phase matches PhaseView::Items { start, found }
            &&& Some(start) == batch_start(view.phase)
            &&& found.contains(row)
        },
{
    if let PhaseView::NodeIds { start } = view.phase {
        let known = view.idle();
        let end = known.batch_end(start);
        assert(known.batch_numbers(start) =~= view.batch_numbers(start));
        let ids = node_ids(response, known.batch_numbers(start));
        law_found_rows(known, start, end, ids, row);
        assert(known.found_rows(start, end, ids).len() > 0);
    }
}

/// For every pull request that was added to the project, the field of the release tags is set to its tags,
/// and each runtime's field to its status in that runtime.
pub proof fn law_every_field_is_set(view: AnnotatorView, found: Seq<usize>, response: Json, i: int, k: int)
    requires
        0 <= i < found.len(),
    ensures
        view.updates_for(found, response).contains(
            UpdateView {
                item_id: item_id(response, i as nat)->0,
                field_id: view.tags_field,
                value: view.rows[found[i] as int].tags,
            },
        ),
        0 <= k < view.names.len() ==> view.updates_for(found, response).contains(
            UpdateView {
                item_id: item_id(response, i as nat)->0,
                field_id: view.status_fields[view.names[k]],
                value: view.rows[found[i] as int].statuses[k],
            },
        ),
    decreases found.len(),
{
    let init = found.drop_last();
    let earlier = view.updates_for(init, response);
    let item = item_id(response, (found.len() - 1) as nat)->0;
    let row = view.rows[found.last() as int];
    let added = view.row_updates(row, item);
    let all = view.updates_for(found, response);
    assert(all == earlier + added);
    let tags = UpdateView {
        item_id: item_id(response, i as nat)->0,
        field_id: view.tags_field,
        value: view.rows[found[i] as int].tags,
    };
    let status = UpdateView {
        item_id: item_id(response, i as nat)->0,
        field_id: view.status_fields[view.names[k]],
        value: view.rows[found[i] as int].statuses[k],
    };
    if i < init.len() {
        assert(init[i] == found[i]);
        law_every_field_is_set(view, init, response, i, k);
        assert(all[earlier.index_of(tags)] == tags);
        if 0 <= k < view.names.len() {
            assert(all[earlier.index_of(status)] == status);
        }
    } else {
        assert(all[earlier.len() as int] == added[0]);
        assert(added[0] == tags);
        if 0 <= k < view.names.len() {
            assert(all[earlier.len() + 1 + k] == added[1 + k]);
            assert(added[1 + k] == status);
        }
    }
}

/// Whether a run of responses brings an annotation to its end: each but the last leads to another call, and
/// the last finishes it.
pub open spec fn finishes(view: AnnotatorView, responses: Seq<Json>) -> bool
    decreases responses.len(),
{
    responses.len() > 0 && match view.after(responses[0]) {
        Some((next, ProgressView::Call(_))) => finishes(next, responses.skip(1)),
        Some((_, ProgressView::Finished)) => responses.len() == 1,
        None => false,
    }
}

/// What is set out at the beginning stays as it is; the project does, once it is known.
pub(crate) proof fn lemma_after_keeps(view: AnnotatorView, response: Json)
    ensures
        view.after(response) matches Some((next, _)) ==> {
            &&& next.dry_run == view.dry_run
            &&& next.names == view.names
            &&& next.rows == view.rows
            &&& !(view.phase is Project) ==> next.project == view.project
        },
{
    match view.phase {
        PhaseView::Project => {
            if let Some(project) = project_of(response) {
                lemma_from_field_keeps(AnnotatorView { project, ..view.idle() }, 0);
            }
        },
        PhaseView::Field { index } => {
            if let Some(id) = created_field(response) {
                lemma_from_field_keeps(view.idle().with_field(index, id), index + 1);
            }
        },
        _ => {},
    }
}

proof fn lemma_from_field_keeps(view: AnnotatorView, index: nat)
    ensures
        view.from_field(index).0.dry_run == view.dry_run,
        view.from_field(index).0.names == view.names,
        view.from_field(index).0.rows == view.rows,
        view.from_field(index).0.project == view.project,
        view.from_field(index).0.phase matches PhaseView::NodeIds { start } ==> view.from_field(index).1
            == ProgressView::Call(node_ids_call(SDK_OWNER@, SDK_REPO@, view.batch_numbers(start))),
    decreases view.names.len() + 1 - index,
{
    if index <= view.names.len() && view.project.fields.contains_key(view.field_name(index)) {
        let next = view.with_field(index, view.project.fields[view.field_name(index)]);
        lemma_from_field_keeps(next, index + 1);
        assert forall|start: nat| #[trigger] next.batch_numbers(start) == view.batch_numbers(start) by {
            assert(next.batch_numbers(start) =~= view.batch_numbers(start));
        }
    }
}

/// The call that begins a batch asks for the pull requests of that batch.
proof fn lemma_batch_call(view: AnnotatorView, response: Json)
    ensures
        view.after(response) matches Some((next, progress)) ==> (next.phase matches PhaseView::NodeIds { start } ==> progress
            == ProgressView::Call(node_ids_call(SDK_OWNER@, SDK_REPO@, view.batch_numbers(start)))),
{
    let known = view.idle();
    assert forall|start: nat| #[trigger] known.batch_numbers(start) == view.batch_numbers(start) by {
        assert(known.batch_numbers(start) =~= view.batch_numbers(start));
    }
    match view.phase {
        PhaseView::Project => {
            if let Some(project) = project_of(response) {
                let start = AnnotatorView { project, ..known };
                lemma_from_field_keeps(start, 0);
                assert forall|n: nat| #[trigger] start.batch_numbers(n) == view.batch_numbers(n) by {
                    assert(start.batch_numbers(n) =~= view.batch_numbers(n));
                }
            }
        },
        PhaseView::Field { index } => {
            if let Some(id) = created_field(response) {
                let noted = known.with_field(index, id);
                lemma_from_field_keeps(noted, index + 1);
                assert forall|n: nat| #[trigger] noted.batch_numbers(n) == view.batch_numbers(n) by {
                    assert(noted.batch_numbers(n) =~= view.batch_numbers(n));
                }
            }
        },
        _ => {},
    }
}

/// Whether one of some calls asks for the pull request at a position, together with its batch.
pub open spec fn asks_for(calls: Seq<CallView>, view: AnnotatorView, row: nat) -> bool {
    exists|start: nat|
        start <= row < #[trigger] view.batch_end(start) && calls.contains(
            node_ids_call(SDK_OWNER@, SDK_REPO@, view.batch_numbers(start)),
        )
}

/// An annotation that comes to its end, and is no dry run, asks for every pull request that was not asked
/// for yet: for all of them, when it is at its beginning.
pub proof fn law_every_pr_is_asked_for(view: AnnotatorView, responses: Seq<Json>, row: nat)
    requires
        view.valid(),
        view.rows.len() <= usize::MAX,
        !view.dry_run,
        !(view.phase is Done),
        finishes(view, responses),
        row < view.rows.len(),
        batch_start(view.phase) matches Some(start) ==> view.batch_end(start) <= row,
    ensures
        asks_for(calls(view, responses), view, row),
    decreases responses.len(),
{
    let response = responses[0];
    law_batches_are_consecutive(view, response);
    lemma_after_keeps(view, response);
    lemma_after_valid(view, response);
    lemma_batch_call(view, response);
    law_annotation_ends(view, response);
    if let Some((next, ProgressView::Call(call))) = view.after(response) {
        let rest = responses.skip(1);
        let made = calls(view, responses);
        assert(made == seq![call] + calls(next, rest));
        assert forall|start: nat| #[trigger] next.batch_end(start) == view.batch_end(start) by {}
        assert forall|start: nat| #[trigger] next.batch_numbers(start) == view.batch_numbers(start) by {
            assert(next.batch_numbers(start) =~= view.batch_numbers(start));
        }
        let asked = match (batch_start(next.phase), next.phase) {
            (Some(start), PhaseView::NodeIds { .. }) => row < view.batch_end(start),
            _ => false,
        };
        if asked {
            let start = batch_start(next.phase)->0;
            assert(made[0] == call);
            assert(start <= row < view.batch_end(start));
        } else {
            law_every_pr_is_asked_for(next, rest, row);
            let start = choose|start: nat|
                start <= row < #[trigger] next.batch_end(start) && calls(next, rest).contains(
                    node_ids_call(SDK_OWNER@, SDK_REPO@, next.batch_numbers(start)),
                );
            let wanted = node_ids_call(SDK_OWNER@, SDK_REPO@, view.batch_numbers(start));
            assert(made[1 + calls(next, rest).index_of(wanted)] == wanted);
            assert(start <= row < view.batch_end(start));
        }
    }
}

/// Whether one of some calls sets a value.
pub open spec fn sets(calls: Seq<CallView>, project_id: Seq<char>, update: UpdateView) -> bool {
    exists|part: Seq<UpdateView>| #[trigger] part.contains(update) && calls.contains(set_values_call(project_id, part))
}

/// An annotation that comes to its end sets all values that were not set yet.
proof fn lemma_values_are_set(view: AnnotatorView, responses: Seq<Json>, update: UpdateView)
    requires
        view.valid(),
        view.rows.len() <= usize::MAX,
        finishes(view, responses),
        view.phase matches PhaseView::Values { updates, sent, .. } && updates.skip(sent as int).contains(update),
    ensures
        sets(calls(view, responses), view.project.id, update),
    decreases responses.len(),
{
    let response = responses[0];
    law_values_are_consecutive(view, response);
    lemma_after_valid(view, response);
    if let PhaseView::Values { start, updates, sent } = view.phase {
        let left = updates.skip(sent as int);
        let k = left.index_of(update);
        assert(updates[sent + k] == update);
        let end = part_end(sent as int, 50, updates.len() as int);
        let part = updates.subrange(sent as int, end);
        let next = AnnotatorView { phase: PhaseView::Values { start, updates, sent: end as nat }, ..view };
        let call = set_values_call(view.project.id, part);
        let rest = responses.skip(1);
        let made = calls(view, responses);
        assert(made == seq![call] + calls(next, rest));
        if sent + k < end {
            assert(part[k] == update);
            assert(part.contains(update));
            assert(made[0] == call);
        } else {
            assert(updates.skip(end)[sent + k - end] == update);
            lemma_values_are_set(next, rest, update);
            let later = choose|later: Seq<UpdateView>|
                #[trigger] later.contains(update) && calls(next, rest).contains(
                    set_values_call(view.project.id, later),
                );
            let wanted = set_values_call(view.project.id, later);
            assert(made[1 + calls(next, rest).index_of(wanted)] == wanted);
        }
    }
}

/// Once pull requests were added to the project, an annotation that comes to its end has set every field of
/// each of them: the release tags, and the status in each runtime.
pub proof fn law_added_prs_are_annotated(view: AnnotatorView, responses: Seq<Json>, i: int, k: int)
    requires
        view.valid(),
        view.rows.len() <= usize::MAX,
        finishes(view, responses),
        view.phase matches PhaseView::Items { found, .. } && 0 <= i < found.len(),
    ensures
        view.phase matches PhaseView::Items { found, .. } ==> {
            let item = item_id(responses[0], i as nat)->0;
            let row = view.rows[found[i] as int];
            let made = calls(view, responses);
            &&& sets(
                made,
                view.project.id,
                UpdateView { item_id: item, field_id: view.tags_field, value: row.tags },
            )
            &&& 0 <= k < view.names.len() ==> sets(
                made,
                view.project.id,
                UpdateView { item_id: item, field_id: view.status_fields[view.names[k]], value: row.statuses[k] },
            )
        },
{
    let response = responses[0];
    if let PhaseView::Items { start, found } = view.phase {
        let known = view.idle();
        law_every_field_is_set(known, found, response, i, k);
        let item = item_id(response, i as nat)->0;
        let row = view.rows[found[i] as int];
        let tags = UpdateView { item_id: item, field_id: view.tags_field, value: row.tags };
        let status = UpdateView {
            item_id: item,
            field_id: view.status_fields[view.names[k]],
            value: row.statuses[k],
        };
        lemma_update_is_sent(view, responses, tags);
        if 0 <= k < view.names.len() {
            lemma_update_is_sent(view, responses, status);
        }
    }
}

/// Each of the values that follow from added items is set.
proof fn lemma_update_is_sent(view: AnnotatorView, responses: Seq<Json>, update: UpdateView)
    requires
        view.valid(),
        view.rows.len() <= usize::MAX,
        finishes(view, responses),
        view.phase matches PhaseView::Items { found, .. } && view.idle().updates_for(found, responses[0]).contains(update),
    ensures
        sets(calls(view, responses), view.project.id, update),
{
    let response = responses[0];
    law_values_are_consecutive(view, response);
    lemma_after_valid(view, response);
    lemma_after_keeps(view, response);
    if let PhaseView::Items { start, found } = view.phase {
        let updates = view.idle().updates_for(found, response);
        let end = part_end(0, 50, updates.len() as int);
        let part = updates.subrange(0, end);
        let call = set_values_call(view.project.id, part);
        let rest = responses.skip(1);
        let made = calls(view, responses);
        let (next, progress) = view.after(response)->0;
        assert(made == seq![call] + calls(next, rest));
        let m = updates.index_of(update);
        if m < end {
            assert(part[m] == update);
            assert(part.contains(update));
            assert(made[0] == call);
        } else {
            assert(updates.skip(end)[m - end] == update);
            lemma_values_are_set(next, rest, update);
            let later = choose|later: Seq<UpdateView>|
                #[trigger] later.contains(update) && calls(next, rest).contains(
                    set_values_call(view.project.id, later),
                );
            let wanted = set_values_call(view.project.id, later);
            assert(made[1 + calls(next, rest).index_of(wanted)] == wanted);
        }
    }
}

/// The values that the call after a response sets.
pub open spec fn part_sent(view: AnnotatorView, response: Json) -> Seq<UpdateView> {
    match view.after(response) {
        Some((next, ProgressView::Call(_))) => match (view.phase, next.phase) {
            (PhaseView::Items { .. }, PhaseView::Values { updates, sent, .. }) => updates.subrange(0, sent as int),
            (
                PhaseView::Values { sent: from, .. },
                PhaseView::Values { updates, sent, .. },
            ) => updates.subrange(from as int, sent as int),
            _ => Seq::empty(),
        },
        _ => Seq::empty(),
    }
}

/// Which call follows a response: one that creates a field, asks for identifiers or adds items, and sets no
/// value; or one that sets values.
pub proof fn law_calls_by_phase(view: AnnotatorView, response: Json)
    requires
        view.valid(),
    ensures
        view.after(response) matches Some((next, ProgressView::Call(call))) ==> match next.phase {
            PhaseView::Field { index } => {
                &&& call == field_call(next.project.id, next.field_name(index))
                &&& part_sent(view, response).len() == 0
            },
            PhaseView::NodeIds { start } => {
                &&& call == node_ids_call(SDK_OWNER@, SDK_REPO@, view.batch_numbers(start))
                &&& part_sent(view, response).len() == 0
            },
            PhaseView::Items { start, found } => {
                &&& exists|ids: Seq<Seq<char>>|
                    ids.len() == found.len() && call == #[trigger] add_items_call(next.project.id, ids)
                &&& part_sent(view, response).len() == 0
            },
            PhaseView::Values { .. } => {
                &&& call == set_values_call(next.project.id, part_sent(view, response))
                &&& part_sent(view, response).len() > 0
            },
            PhaseView::Project => false,
            PhaseView::Done => false,
        },
{
    law_creates_only_missing_fields(view, response);
    lemma_batch_call(view, response);
    law_values_are_consecutive(view, response);
    match view.phase {
        PhaseView::Project => {
            if let Some(project) = project_of(response) {
                lemma_from_field(AnnotatorView { project, ..view.idle() }, 0);
            }
        },
        PhaseView::Field { index } => {
            if let Some(id) = created_field(response) {
                lemma_from_field(view.idle().with_field(index, id), index + 1);
            }
        },
        PhaseView::NodeIds { start } => {
            let known = view.idle();
            let ids = node_ids(response, known.batch_numbers(start));
            let found = known.found_rows(start, known.batch_end(start), ids);
            let contents = Seq::new(found.len(), |i: int| ids[known.rows[found[i] as int].number]);
            assert(contents.len() == found.len());
        },
        _ => {},
    }
}

/// The values that an annotation sets when it is given a run of responses, in order.
pub open spec fn values_sent(view: AnnotatorView, responses: Seq<Json>) -> Seq<UpdateView>
    decreases responses.len(),
{
    if responses.len() == 0 {
        Seq::empty()
    } else {
        part_sent(view, responses[0]) + match view.after(responses[0]) {
            Some((next, ProgressView::Call(_))) => values_sent(next, responses.skip(1)),
            _ => Seq::empty(),
        }
    }
}

/// A pull request that was added to the project: its position, and its item in the project.
pub struct Placement {
    pub row: usize,
    pub item: Seq<char>,
}

/// The pull requests that a response says were added, each with its own item.
pub open spec fn placements(view: AnnotatorView, response: Json) -> Seq<Placement> {
    match view.phase {
        PhaseView::Items { found, .. } => if AnnotatorView::all_items(found.len(), response) {
            Seq::new(found.len(), |i: int| Placement { row: found[i], item: item_id(response, i as nat)->0 })
        } else {
            Seq::empty()
        },
        _ => Seq::empty(),
    }
}

/// The pull requests that a run of responses says were added, in order.
pub open spec fn added(view: AnnotatorView, responses: Seq<Json>) -> Seq<Placement>
    decreases responses.len(),
{
    if responses.len() == 0 {
        Seq::empty()
    } else {
        placements(view, responses[0]) + match view.after(responses[0]) {
            Some((next, ProgressView::Call(_))) => added(next, responses.skip(1)),
            _ => Seq::empty(),
        }
    }
}

/// What is known at last, after a run of responses.
pub open spec fn known_at_last(view: AnnotatorView, responses: Seq<Json>) -> AnnotatorView
    decreases responses.len(),
{
    if responses.len() == 0 {
        view
    } else {
        match view.after(responses[0]) {
            Some((next, ProgressView::Call(_))) => known_at_last(next, responses.skip(1)),
            Some((next, _)) => next,
            None => view,
        }
    }
}

/// What is to be set for added pull requests: for each in turn, the release tags and the status in each
/// runtime.
pub open spec fn settings(view: AnnotatorView, places: Seq<Placement>) -> Seq<UpdateView>
    decreases places.len(),
{
    if places.len() == 0 {
        Seq::empty()
    } else {
        settings(view, places.drop_last()) + view.row_updates(view.rows[places.last().row as int], places.last().item)
    }
}

/// Whether each pull request stands after those before it.
pub open spec fn rising(places: Seq<Placement>) -> bool {
    forall|i: int, j: int| 0 <= i < j < places.len() ==> (#[trigger] places[i]).row < (#[trigger] places[j]).row
}

proof fn lemma_settings_concat(view: AnnotatorView, a: Seq<Placement>, b: Seq<Placement>)
    ensures
        settings(view, a + b) == settings(view, a) + settings(view, b),
    decreases b.len(),
{
    if b.len() == 0 {
        assert(a + b =~= a);
        assert(settings(view, a) + settings(view, b) =~= settings(view, a));
    } else {
        assert((a + b).drop_last() =~= a + b.drop_last());
        lemma_settings_concat(view, a, b.drop_last());
        assert(settings(view, a + b) =~= settings(view, a) + settings(view, b));
    }
}

/// What follows from a response about added items is what is to be set for them.
proof fn lemma_updates_are_settings(view: AnnotatorView, last: AnnotatorView, found: Seq<usize>, response: Json)
    requires
        last.rows == view.rows,
        last.names == view.names,
        last.tags_field == view.tags_field,
        last.status_fields == view.status_fields,
    ensures
        view.updates_for(found, response) == settings(
            last,
            Seq::new(found.len(), |i: int| Placement { row: found[i], item: item_id(response, i as nat)->0 }),
        ),
    decreases found.len(),
{
    let places = Seq::new(found.len(), |i: int| Placement { row: found[i], item: item_id(response, i as nat)->0 });
    if found.len() > 0 {
        let init = found.drop_last();
        lemma_updates_are_settings(view, last, init, response);
        assert(places.drop_last() =~= Seq::new(
            init.len(),
            |i: int| Placement { row: init[i], item: item_id(response, i as nat)->0 },
        ));
        let item = places.last().item;
        let row = view.rows[found.last() as int];
        assert(view.row_updates(row, item) =~= last.row_updates(row, item));
    }
}

/// The values of the current batch that were not set yet.
spec fn unsent(view: AnnotatorView) -> Seq<UpdateView> {
    match view.phase {
        PhaseView::Values { updates, sent, .. } => updates.skip(sent as int),
        _ => Seq::empty(),
    }
}

/// The position from which on pull requests may still be added.
spec fn open_from(view: AnnotatorView) -> nat {
    match view.phase {
        PhaseView::NodeIds { start } => start,
        PhaseView::Items { start, .. } => start,
        PhaseView::Values { start, .. } => view.batch_end(start),
        _ => 0,
    }
}

/// What one response does to the values that are not set yet, and to where pull requests may still be added.
proof fn lemma_one_response(view: AnnotatorView, response: Json)
    requires
        view.valid(),
        view.rows.len() <= usize::MAX,
    ensures
        view.after(response) matches Some((next, progress)) ==> {
            &&& next.valid()
            &&& next.rows == view.rows
            &&& next.names == view.names
            &&& batch_start(view.phase) is Some ==> {
                &&& progress is Call ==> batch_start(next.phase) is Some
                &&& next.tags_field == view.tags_field
                &&& next.status_fields == view.status_fields
            }
            &&& progress is Call ==> part_sent(view, response) + unsent(next) == match view.phase {
                PhaseView::Items { found, .. } => view.idle().updates_for(found, response),
                _ => unsent(view),
            }
            &&& progress is Call ==> open_from(next) >= match view.phase {
                PhaseView::Items { start, .. } => view.batch_end(start),
                _ => open_from(view),
            }
            &&& !(progress is Call) ==> !(view.phase is Items) && unsent(view).len() == 0 && part_sent(
                view,
                response,
            ).len() == 0
        },
{
    law_values_are_consecutive(view, response);
    lemma_after_keeps(view, response);
    lemma_after_valid(view, response);
    match view.phase {
        PhaseView::Project => {
            if let Some(project) = project_of(response) {
                lemma_from_field(AnnotatorView { project, ..view.idle() }, 0);
            }
        },
        PhaseView::Field { index } => {
            if let Some(id) = created_field(response) {
                lemma_from_field(view.idle().with_field(index, id), index + 1);
            }
        },
        _ => {},
    }
    if let Some((next, ProgressView::Call(_))) = view.after(response) {
        if let PhaseView::Items { found, .. } = view.phase {
            assert(part_sent(view, response) + unsent(next) =~= view.idle().updates_for(found, response));
        } else {
            assert(part_sent(view, response) + unsent(next) =~= unsent(view));
        }
    }
}

/// Whether pull requests stand within bounds.
spec fn within(places: Seq<Placement>, from: nat, to: nat) -> bool {
    forall|i: int| 0 <= i < places.len() ==> from <= (#[trigger] places[i]).row < to
}

proof fn lemma_rising_concat(a: Seq<Placement>, b: Seq<Placement>, from: nat, middle: nat, to: nat)
    requires
        rising(a),
        rising(b),
        within(a, from, middle),
        within(b, middle, to),
        from <= middle <= to,
    ensures
        rising(a + b),
        within(a + b, from, to),
{
    let all = a + b;
    assert forall|i: int| 0 <= i < all.len() implies from <= (#[trigger] all[i]).row < to by {
        if i < a.len() {
            assert(all[i] == a[i]);
        } else {
            assert(all[i] == b[i - a.len()]);
        }
    }
    assert forall|i: int, j: int| 0 <= i < j < all.len() implies (#[trigger] all[i]).row < (#[trigger] all[j]).row by {
        if j < a.len() {
            assert(all[i] == a[i] && all[j] == a[j]);
        } else if i < a.len() {
            assert(all[i] == a[i] && all[j] == b[j - a.len()]);
        } else {
            assert(all[i] == b[i - a.len()] && all[j] == b[j - a.len()]);
        }
    }
}

/// The pull requests that a response says were added belong to the batch, in rising order.
proof fn lemma_placements(view: AnnotatorView, response: Json)
    requires
        view.valid(),
    ensures
        rising(placements(view, response)),
        view.phase matches PhaseView::Items { start, .. } ==> within(
            placements(view, response),
            start,
            view.batch_end(start),
        ),
{
    if let PhaseView::Items { start, found } = view.phase {
        let here = placements(view, response);
        if here.len() > 0 {
            assert forall|i: int| 0 <= i < here.len() implies (#[trigger] here[i]).row == found[i] by {}
        }
    }
}

proof fn lemma_values_sent(view: AnnotatorView, responses: Seq<Json>)
    requires
        view.valid(),
        view.rows.len() <= usize::MAX,
        finishes(view, responses),
    ensures
        known_at_last(view, responses).rows == view.rows,
        known_at_last(view, responses).names == view.names,
        batch_start(view.phase) is Some ==> {
            &&& known_at_last(view, responses).tags_field == view.tags_field
            &&& known_at_last(view, responses).status_fields == view.status_fields
        },
        values_sent(view, responses) == unsent(view) + settings(
            known_at_last(view, responses),
            added(view, responses),
        ),
        rising(added(view, responses)),
        within(added(view, responses), open_from(view), view.rows.len()),
    decreases responses.len(),
{
    let response = responses[0];
    let rest = responses.skip(1);
    let last = known_at_last(view, responses);
    let here = placements(view, response);
    let all = added(view, responses);
    lemma_one_response(view, response);
    lemma_placements(view, response);
    let (next, progress) = view.after(response)->0;
    if progress is Call {
        lemma_values_sent(next, rest);
        let later = added(next, rest);
        let sent_later = values_sent(next, rest);
        assert(all == here + later);
        assert(values_sent(view, responses) == part_sent(view, response) + sent_later);
        assert(part_sent(view, response) + sent_later =~= part_sent(view, response) + unsent(next) + settings(last, later));
        if let PhaseView::Items { start, found } = view.phase {
            lemma_updates_are_settings(view.idle(), last, found, response);
            lemma_settings_concat(last, here, later);
            lemma_rising_concat(here, later, start, view.batch_end(start), view.rows.len());
            assert(unsent(view) + settings(last, all) =~= settings(last, here) + settings(last, later));
        } else {
            assert(all =~= later);
        }
    } else {
        assert(all =~= Seq::empty());
        assert(values_sent(view, responses) =~= unsent(view) + settings(last, all));
    }
}

/// The values that an annotation which comes to its end has set are those of the pull requests that were added
/// to the project, and no others: the pull requests follow in rising order, so none comes twice, and for each
/// the release tags and the status in each runtime are set on its own item.
pub proof fn law_only_fields_of_added_prs_are_set(view: AnnotatorView, responses: Seq<Json>)
    requires
        view.valid(),
        view.rows.len() <= usize::MAX,
        view.phase is Project,
        finishes(view, responses),
    ensures
        values_sent(view, responses) == settings(known_at_last(view, responses), added(view, responses)),
        known_at_last(view, responses).rows == view.rows,
        known_at_last(view, responses).names == view.names,
        rising(added(view, responses)),
        forall|i: int|
            0 <= i < added(view, responses).len() ==> (#[trigger] added(view, responses)[i]).row < view.rows.len(),
{
    lemma_values_sent(view, responses);
    assert(unsent(view) + settings(known_at_last(view, responses), added(view, responses)) =~= settings(
        known_at_last(view, responses),
        added(view, responses),
    ));
}

} // verus!
