//! The GraphQL calls that read and annotate a GitHub project, and what their responses say.
use std::collections::HashMap;

use vstd::prelude::*;

use crate::collections::StringMap;
use crate::json::{all_contents, as_items, as_text, at, contents, empty_object, from_integer, from_text, set_member, Json};
use crate::text::{decimal, escape, escaped, join, joined, push_decimal, quote, quoted, texts};

verus! {

broadcast use vstd::std_specs::hash::group_hash_axioms;

/// Asks for the identifier of a project and for its fields.
pub const PROJECT_QUERY: &'static str = "
        query($org: String!, $number: Int!) {
            organization(login: $org) {
                projectV2(number: $number) {
                    id
                    fields(first: 50) {
                        nodes {
                            ... on ProjectV2Field {
                                id
                                name
                            }
                            ... on ProjectV2SingleSelectField {
                                id
                                name
                            }
                            ... on ProjectV2IterationField {
                                id
                                name
                            }
                        }
                    }
                }
            }
        }
    ";

/// Creates a text field.
pub const FIELD_MUTATION: &'static str = "
        mutation($projectId: ID!, $name: String!) {
            createProjectV2Field(input: {
                projectId: $projectId,
                dataType: TEXT,
                name: $name
            }) {
                projectV2Field {
                    ... on ProjectV2Field {
                        id
                    }
                }
            }
        }
    ";

/// A GraphQL call: a query, or a mutation, and its variables.
pub struct GraphqlCall {
    /// Text of the query.
    pub query: String,
    /// Variables of the query.
    pub variables: serde_json::Value,
}

/// What a GraphQL call says.
pub struct CallView {
    pub query: Seq<char>,
    pub variables: Json,
}

impl View for GraphqlCall {
    type V = CallView;

    open spec fn view(&self) -> CallView {
        CallView { query: self.query@, variables: contents(self.variables) }
    }
}

/// A call without variables.
pub open spec fn plain_call(query: Seq<char>) -> CallView {
    CallView { query, variables: Json::Object(Map::empty()) }
}

/// The call that reads a project.
pub open spec fn project_call(org: Seq<char>, number: u64) -> CallView {
    CallView {
        query: PROJECT_QUERY@,
        variables: Json::Object(
            Map::empty().insert("org"@, Json::Text(org)).insert("number"@, Json::Integer((number as i64) as int)),
        ),
    }
}

/// Makes the call that reads a project.
pub fn fetch_project_info(org: &str, number: u64) -> (call: GraphqlCall)
    ensures
        call@ == project_call(org@, number),
{
    let mut variables = empty_object();
    set_member(&mut variables, "org", from_text(org));
    let n: i64 = #[verifier::truncate] (number as i64);
    set_member(&mut variables, "number", from_integer(n));
    GraphqlCall { query: PROJECT_QUERY.to_string(), variables }
}

/// A project: its identifier, and the identifiers of its fields by name.
pub struct ProjectInfo {
    /// Global identifier of the project.
    pub project_id: String,
    /// Field name -> field identifier.
    pub fields: StringMap<String>,
}

/// What a project is to the logic.
pub struct ProjectView {
    pub id: Seq<char>,
    pub fields: Map<Seq<char>, Seq<char>>,
}

/// The texts of a map's values.
pub open spec fn value_texts(map: Map<Seq<char>, String>) -> Map<Seq<char>, Seq<char>> {
    map.map_values(|s: String| s@)
}

impl View for ProjectInfo {
    type V = ProjectView;

    open spec fn view(&self) -> ProjectView {
        ProjectView { id: self.project_id@, fields: value_texts(self.fields@) }
    }
}

/// What a response lacks.
pub enum ResponseError {
    /// The identifier of the project.
    NoProjectId,
    /// The identifier of a created field.
    NoFieldId,
    /// The identifier of the item that stands at a position of the call.
    NoItemId(usize),
}

impl ResponseError {
    /// What the error tells the user.
    pub open spec fn text(self) -> Seq<char> {
        match self {
            ResponseError::NoProjectId => "no project ID"@,
            ResponseError::NoFieldId => "no field ID in response"@,
            ResponseError::NoItemId(i) => "no item ID for index "@ + decimal(i as nat),
        }
    }

    /// What the error tells the user.
    pub fn message(&self) -> (text: String)
        ensures
            text@ == self.text(),
    {
        match self {
            ResponseError::NoProjectId => "no project ID".to_string(),
            ResponseError::NoFieldId => "no field ID in response".to_string(),
            ResponseError::NoItemId(i) => {
                let mut text = "no item ID for index ".to_string();
                push_decimal(&mut text, *i as u64);
                text
            },
        }
    }
}

/// The fields that a list of nodes describes: name to identifier. A node without a textual name or
/// identifier describes none; of two nodes with one name the later counts.
pub open spec fn fields_of(nodes: Seq<Json>) -> Map<Seq<char>, Seq<char>>
    decreases nodes.len(),
{
    if nodes.len() == 0 {
        Map::empty()
    } else {
        let earlier = fields_of(nodes.drop_last());
        match (nodes.last().at("id"@).text(), nodes.last().at("name"@).text()) {
            (Some(id), Some(name)) => earlier.insert(name, id),
            _ => earlier,
        }
    }
}

/// The project that a response describes, where it has an identifier.
pub open spec fn project_of(response: Json) -> Option<ProjectView> {
    let project = response.at("data"@).at("organization"@).at("projectV2"@);
    match project.at("id"@).text() {
        Some(id) => Some(
            ProjectView {
                id,
                fields: match project.at("fields"@).at("nodes"@).items() {
                    Some(nodes) => fields_of(nodes),
                    None => Map::empty(),
                },
            },
        ),
        None => None,
    }
}

/// Reads the response to the call that reads a project.
pub fn read_project_info(response: &serde_json::Value) -> (project: Result<ProjectInfo, ResponseError>)
    ensures
        match project {
            Ok(p) => project_of(contents(*response)) == Some(p@),
            Err(e) => project_of(contents(*response)) is None && e is NoProjectId,
        },
{
    let project = at(at(at(response, "data"), "organization"), "projectV2");
    let project_id = match as_text(at(project, "id")) {
        Some(id) => id.to_string(),
        None => return Err(ResponseError::NoProjectId),
    };
    let mut fields: StringMap<String> = StringMap::new();
    assert(value_texts(fields@) =~= Map::empty());
    if let Some(nodes) = as_items(at(at(project, "fields"), "nodes")) {
        let ghost views = all_contents(nodes@);
        assert(value_texts(fields@) =~= fields_of(views.take(0)));
        let mut i: usize = 0;
        while i < nodes.len()
            invariant
                i <= nodes.len(),
                views == all_contents(nodes@),
                value_texts(fields@) == fields_of(views.take(i as int)),
            decreases nodes.len() - i,
        {
            let node = &nodes[i];
            let ghost earlier = fields@;
            assert(views.take(i + 1).drop_last() =~= views.take(i as int));
            assert(views.take(i + 1).last() == contents(*node));
            let id = as_text(at(node, "id"));
            let name = as_text(at(node, "name"));
            if let Some(id) = id {
                if let Some(name) = name {
                    fields.insert(name.to_string(), id.to_string());
                    assert(value_texts(fields@) =~= value_texts(earlier).insert(name@, id@));
                }
            }
            i += 1;
        }
        assert(views.take(i as int) =~= views);
    }
    Ok(ProjectInfo { project_id, fields })
}

/// The call that creates a text field.
pub open spec fn field_call(project_id: Seq<char>, name: Seq<char>) -> CallView {
    CallView {
        query: FIELD_MUTATION@,
        variables: Json::Object(
            Map::empty().insert("projectId"@, Json::Text(project_id)).insert("name"@, Json::Text(name)),
        ),
    }
}

/// Makes the call that creates a text field.
pub fn create_text_field(project_id: &str, name: &str) -> (call: GraphqlCall)
    ensures
        call@ == field_call(project_id@, name@),
{
    let mut variables = empty_object();
    set_member(&mut variables, "projectId", from_text(project_id));
    set_member(&mut variables, "name", from_text(name));
    GraphqlCall { query: FIELD_MUTATION.to_string(), variables }
}

/// The identifier of the field that a response says was created.
pub open spec fn created_field(response: Json) -> Option<Seq<char>> {
    response.at("data"@).at("createProjectV2Field"@).at("projectV2Field"@).at("id"@).text()
}

/// Reads the response to the call that creates a field.
pub fn read_created_field(response: &serde_json::Value) -> (id: Result<String, ResponseError>)
    ensures
        match id {
            Ok(text) => created_field(contents(*response)) == Some(text@),
            Err(e) => created_field(contents(*response)) is None && e is NoFieldId,
        },
{
    match as_text(at(at(at(at(response, "data"), "createProjectV2Field"), "projectV2Field"), "id")) {
        Some(id) => Ok(id.to_string()),
        None => Err(ResponseError::NoFieldId),
    }
}

/// A key that numbers its call within a query, such as `pr0`.
pub open spec fn alias(prefix: Seq<char>, i: nat) -> Seq<char> {
    prefix + decimal(i)
}

fn number_alias(prefix: &str, i: usize) -> (text: String)
    ensures
        text@ == alias(prefix@, i as nat),
{
    let mut text = prefix.to_string();
    push_decimal(&mut text, i as u64);
    text
}

/// A query made of several calls.
pub open spec fn block(opening: Seq<char>, fragments: Seq<Seq<char>>) -> Seq<char> {
    opening + joined(fragments, "\n"@) + " }"@
}

fn make_block(opening: &str, fragments: &Vec<String>) -> (call: GraphqlCall)
    ensures
        call@ == plain_call(block(opening@, texts(fragments@))),
{
    let mut query = opening.to_string();
    query.append(join(fragments, "\n").as_str());
    query.append(" }");
    GraphqlCall { query, variables: empty_object() }
}

/// Asks for the identifier of one pull request.
pub open spec fn node_id_fragment(owner: Seq<char>, repo: Seq<char>, i: nat, number: u64) -> Seq<char> {
    alias("pr"@, i) + ": repository(owner: "@ + quoted(owner) + ", name: "@ + quoted(repo)
        + ") { pullRequest(number: "@ + decimal(number as nat) + ") { id } }"@
}

/// The call that asks for the identifiers of pull requests.
pub open spec fn node_ids_call(owner: Seq<char>, repo: Seq<char>, numbers: Seq<u64>) -> CallView {
    plain_call(
        block("query { "@, Seq::new(numbers.len(), |i: int| node_id_fragment(owner, repo, i as nat, numbers[i]))),
    )
}

/// Makes the call that asks for the identifiers of pull requests, unless there are none to ask for.
pub fn batch_get_pr_node_ids(owner: &str, repo: &str, numbers: &Vec<u64>) -> (call: Option<GraphqlCall>)
    ensures
        match call {
            Some(c) => numbers@.len() > 0 && c@ == node_ids_call(owner@, repo@, numbers@),
            None => numbers@.len() == 0,
        },
{
    if numbers.len() == 0 {
        return None;
    }
    let mut fragments: Vec<String> = Vec::new();
    let ghost wanted = Seq::new(numbers@.len(), |i: int| node_id_fragment(owner@, repo@, i as nat, numbers@[i]));
    let mut i: usize = 0;
    while i < numbers.len()
        invariant
            i <= numbers.len(),
            wanted == Seq::new(numbers@.len(), |i: int| node_id_fragment(owner@, repo@, i as nat, numbers@[i])),
            texts(fragments@) == wanted.take(i as int),
        decreases numbers.len() - i,
    {
        let mut fragment = number_alias("pr", i);
        fragment.append(": repository(owner: ");
        fragment.append(quote(owner).as_str());
        fragment.append(", name: ");
        fragment.append(quote(repo).as_str());
        fragment.append(") { pullRequest(number: ");
        push_decimal(&mut fragment, numbers[i]);
        fragment.append(") { id } }");
        let ghost earlier = texts(fragments@);
        fragments.push(fragment);
        assert(texts(fragments@) =~= earlier.push(fragment@));
        assert(wanted.take(i + 1) =~= wanted.take(i as int).push(wanted[i as int]));
        i += 1;
    }
    assert(wanted.take(i as int) =~= wanted);
    Some(make_block("query { ", &fragments))
}

/// The identifier that a response gives for the pull request at a position of the call.
pub open spec fn node_id(response: Json, i: nat) -> Option<Seq<char>> {
    response.at("data"@).at(alias("pr"@, i)).at("pullRequest"@).at("id"@).text()
}

/// The identifiers that a response gives for the first pull requests of a call.
pub open spec fn node_ids(response: Json, numbers: Seq<u64>) -> Map<u64, Seq<char>>
    decreases numbers.len(),
{
    if numbers.len() == 0 {
        Map::empty()
    } else {
        let earlier = node_ids(response, numbers.drop_last());
        match node_id(response, (numbers.len() - 1) as nat) {
            Some(id) => earlier.insert(numbers.last(), id),
            None => earlier,
        }
    }
}

/// The texts of a numbered map's values.
pub open spec fn numbered_texts(map: Map<u64, String>) -> Map<u64, Seq<char>> {
    map.map_values(|s: String| s@)
}

/// Reads the response to the call that asks for the identifiers of pull requests. A pull request that
/// the response has no identifier for is left out.
pub fn read_pr_node_ids(response: &serde_json::Value, numbers: &Vec<u64>) -> (ids: HashMap<u64, String>)
    ensures
        numbered_texts(ids@) == node_ids(contents(*response), numbers@),
{
    let mut ids: HashMap<u64, String> = HashMap::new();
    let ghost json = contents(*response);
    assert(numbered_texts(ids@) =~= node_ids(json, numbers@.take(0)));
    let mut i: usize = 0;
    while i < numbers.len()
        invariant
            i <= numbers.len(),
            json == contents(*response),
            numbered_texts(ids@) == node_ids(json, numbers@.take(i as int)),
        decreases numbers.len() - i,
    {
        let key = number_alias("pr", i);
        let ghost earlier = ids@;
        assert(numbers@.take(i + 1).drop_last() =~= numbers@.take(i as int));
        if let Some(id) = as_text(at(at(at(at(response, "data"), key.as_str()), "pullRequest"), "id")) {
            ids.insert(numbers[i], id.to_string());
            assert(numbered_texts(ids@) =~= numbered_texts(earlier).insert(numbers@[i as int], id@));
        }
        i += 1;
    }
    assert(numbers@.take(i as int) =~= numbers@);
    ids
}

/// The pull requests of a call that a response has no identifier for, in the order of the call.
pub open spec fn unresolved(response: Json, numbers: Seq<u64>) -> Seq<u64>
    decreases numbers.len(),
{
    if numbers.len() == 0 {
        Seq::empty()
    } else {
        let earlier = unresolved(response, numbers.drop_last());
        match node_id(response, (numbers.len() - 1) as nat) {
            Some(_) => earlier,
            None => earlier.push(numbers.last()),
        }
    }
}

/// Lists the pull requests that the response to the call that asks for their identifiers has none for.
pub fn unresolved_prs(response: &serde_json::Value, numbers: &Vec<u64>) -> (list: Vec<u64>)
    ensures
        list@ == unresolved(contents(*response), numbers@),
{
    let mut list: Vec<u64> = Vec::new();
    let ghost json = contents(*response);
    let mut i: usize = 0;
    while i < numbers.len()
        invariant
            i <= numbers.len(),
            json == contents(*response),
            list@ == unresolved(json, numbers@.take(i as int)),
        decreases numbers.len() - i,
    {
        let key = number_alias("pr", i);
        assert(numbers@.take(i + 1).drop_last() =~= numbers@.take(i as int));
        if as_text(at(at(at(at(response, "data"), key.as_str()), "pullRequest"), "id")).is_none() {
            list.push(numbers[i]);
        }
        i += 1;
    }
    assert(numbers@.take(i as int) =~= numbers@);
    list
}

/// Of the pull requests of a call, each once, exactly those without an identifier are passed over.
pub proof fn law_resolved_or_not(response: Json, numbers: Seq<u64>, number: u64)
    requires
        numbers.no_duplicates(),
    ensures
        unresolved(response, numbers).contains(number) <==> numbers.contains(number) && !node_ids(
            response,
            numbers,
        ).contains_key(number),
        node_ids(response, numbers).contains_key(number) ==> numbers.contains(number),
    decreases numbers.len(),
{
    if numbers.len() > 0 {
        let init = numbers.drop_last();
        law_resolved_or_not(response, init, number);
        let earlier = unresolved(response, init);
        let now = unresolved(response, numbers);
        if init.contains(number) {
            assert(numbers[init.index_of(number)] == number);
        }
        if numbers.contains(number) && number != numbers.last() {
            assert(init[numbers.index_of(number)] == number);
        }
        assert(numbers[numbers.len() - 1] == numbers.last());
        if earlier.contains(number) {
            assert(now[earlier.index_of(number)] == number);
        }
        if now.contains(number) && now.len() == earlier.len() + 1 {
            if now.index_of(number) < earlier.len() {
                assert(earlier[now.index_of(number)] == number);
            }
            assert(now[earlier.len() as int] == numbers.last());
        } else if now.len() == earlier.len() + 1 && number == numbers.last() {
            assert(now[earlier.len() as int] == number);
        }
    }
}

/// Adds one item to a project.
pub open spec fn add_item_fragment(project_id: Seq<char>, i: nat, content_id: Seq<char>) -> Seq<char> {
    alias("a"@, i) + ": addProjectV2ItemById(input: { projectId: "@ + quoted(project_id) + ", contentId: "@
        + quoted(content_id) + " }) { item { id } }"@
}

/// The call that adds items to a project.
pub open spec fn add_items_call(project_id: Seq<char>, content_ids: Seq<Seq<char>>) -> CallView {
    plain_call(
        block(
            "mutation { "@,
            Seq::new(content_ids.len(), |i: int| add_item_fragment(project_id, i as nat, content_ids[i])),
        ),
    )
}

/// Makes the call that adds items to a project, unless there are none to add.
pub fn batch_add_items_to_project(project_id: &str, content_ids: &Vec<String>) -> (call: Option<GraphqlCall>)
    ensures
        match call {
            Some(c) => content_ids@.len() > 0 && c@ == add_items_call(project_id@, texts(content_ids@)),
            None => content_ids@.len() == 0,
        },
{
    if content_ids.len() == 0 {
        return None;
    }
    let mut fragments: Vec<String> = Vec::new();
    let ghost ids = texts(content_ids@);
    let ghost wanted = Seq::new(ids.len(), |i: int| add_item_fragment(project_id@, i as nat, ids[i]));
    let mut i: usize = 0;
    while i < content_ids.len()
        invariant
            i <= content_ids.len(),
            ids == texts(content_ids@),
            wanted == Seq::new(ids.len(), |i: int| add_item_fragment(project_id@, i as nat, ids[i])),
            texts(fragments@) == wanted.take(i as int),
        decreases content_ids.len() - i,
    {
        let mut fragment = number_alias("a", i);
        fragment.append(": addProjectV2ItemById(input: { projectId: ");
        fragment.append(quote(project_id).as_str());
        fragment.append(", contentId: ");
        fragment.append(quote(content_ids[i].as_str()).as_str());
        fragment.append(" }) { item { id } }");
        let ghost earlier = texts(fragments@);
        fragments.push(fragment);
        assert(texts(fragments@) =~= earlier.push(fragment@));
        assert(wanted.take(i + 1) =~= wanted.take(i as int).push(wanted[i as int]));
        i += 1;
    }
    assert(wanted.take(i as int) =~= wanted);
    Some(make_block("mutation { ", &fragments))
}

/// The identifier that a response gives for the item at a position of the call.
pub open spec fn item_id(response: Json, i: nat) -> Option<Seq<char>> {
    response.at("data"@).at(alias("a"@, i)).at("item"@).at("id"@).text()
}

/// Reads the response to the call that adds items: one identifier for each, in order. It is an error
/// if one is missing.
pub fn read_item_ids(response: &serde_json::Value, count: usize) -> (ids: Result<Vec<String>, ResponseError>)
    ensures
        match ids {
            Ok(list) => {
                &&& list@.len() == count
                &&& forall|i: int| 0 <= i < count ==> item_id(contents(*response), i as nat) == Some(#[trigger] list@[i]@)
            },
            Err(e) => e matches ResponseError::NoItemId(k) && k < count && item_id(contents(*response), k as nat) is None
                && forall|i: nat| i < k ==> #[trigger] item_id(contents(*response), i) is Some,
        },
{
    let mut list: Vec<String> = Vec::new();
    let mut i: usize = 0;
    while i < count
        invariant
            i <= count,
            list@.len() == i,
            forall|k: int| 0 <= k < i ==> item_id(contents(*response), k as nat) == Some(#[trigger] list@[k]@),
            forall|k: nat| k < i ==> #[trigger] item_id(contents(*response), k) is Some,
        decreases count - i,
    {
        let key = number_alias("a", i);
        match as_text(at(at(at(at(response, "data"), key.as_str()), "item"), "id")) {
            Some(id) => {
                list.push(id.to_string());
            },
            None => return Err(ResponseError::NoItemId(i)),
        }
        i += 1;
    }
    Ok(list)
}

/// A value to set in a text field of an item.
pub struct FieldUpdate {
    /// Identifier of the item.
    pub item_id: String,
    /// Identifier of the field.
    pub field_id: String,
    /// Text to set.
    pub value: String,
}

/// What a value to set is to the logic.
pub struct UpdateView {
    pub item_id: Seq<char>,
    pub field_id: Seq<char>,
    pub value: Seq<char>,
}

impl View for FieldUpdate {
    type V = UpdateView;

    open spec fn view(&self) -> UpdateView {
        UpdateView { item_id: self.item_id@, field_id: self.field_id@, value: self.value@ }
    }
}

/// What a list of values to set is to the logic.
pub open spec fn update_views(updates: Seq<FieldUpdate>) -> Seq<UpdateView> {
    updates.map_values(|u: FieldUpdate| u@)
}

/// Sets one value.
pub open spec fn set_value_fragment(project_id: Seq<char>, i: nat, update: UpdateView) -> Seq<char> {
    alias("f"@, i) + ": updateProjectV2ItemFieldValue(input: { projectId: "@ + quoted(project_id) + ", itemId: "@
        + quoted(update.item_id) + ", fieldId: "@ + quoted(update.field_id) + ", value: { text: \""@
        + escaped(update.value) + "\" } }) { projectV2Item { id } }"@
}

/// The call that sets values.
pub open spec fn set_values_call(project_id: Seq<char>, updates: Seq<UpdateView>) -> CallView {
    plain_call(
        block("mutation { "@, Seq::new(updates.len(), |i: int| set_value_fragment(project_id, i as nat, updates[i]))),
    )
}

/// The number of values that one call sets at most.
pub const UPDATES_PER_CALL: usize = 50;

/// The end of the part of a list that starts at a position and has at most the given size.
pub open spec fn part_end(start: int, size: int, len: int) -> int {
    if len - start < size {
        len
    } else {
        start + size
    }
}

/// Makes the call that sets the values from a position of a list on, as many as one call may set,
/// unless none is left.
pub fn batch_set_field_values(project_id: &str, updates: &Vec<FieldUpdate>, start: usize) -> (call: Option<GraphqlCall>)
    requires
        start <= updates.len(),
    ensures
        match call {
            Some(c) => start < updates.len() && c@ == set_values_call(
                project_id@,
                update_views(updates@).subrange(
                    start as int,
                    part_end(start as int, UPDATES_PER_CALL as int, updates.len() as int),
                ),
            ),
            None => start == updates.len(),
        },
{
    if start == updates.len() {
        return None;
    }
    let end: usize = if updates.len() - start < UPDATES_PER_CALL {
        updates.len()
    } else {
        start + UPDATES_PER_CALL
    };
    let ghost part = update_views(updates@).subrange(start as int, end as int);
    let ghost wanted = Seq::new(part.len(), |i: int| set_value_fragment(project_id@, i as nat, part[i]));
    let mut fragments: Vec<String> = Vec::new();
    let mut i: usize = 0;
    while i < end - start
        invariant
            start <= end <= updates.len(),
            i <= end - start,
            part == update_views(updates@).subrange(start as int, end as int),
            wanted == Seq::new(part.len(), |i: int| set_value_fragment(project_id@, i as nat, part[i])),
            texts(fragments@) == wanted.take(i as int),
        decreases end - start - i,
    {
        let update = &updates[start + i];
        assert(part[i as int] == update@);
        let mut fragment = number_alias("f", i);
        fragment.append(": updateProjectV2ItemFieldValue(input: { projectId: ");
        fragment.append(quote(project_id).as_str());
        fragment.append(", itemId: ");
        fragment.append(quote(update.item_id.as_str()).as_str());
        fragment.append(", fieldId: ");
        fragment.append(quote(update.field_id.as_str()).as_str());
        fragment.append(", value: { text: \"");
        fragment.append(escape(update.value.as_str()).as_str());
        fragment.append("\" } }) { projectV2Item { id } }");
        let ghost earlier = texts(fragments@);
        fragments.push(fragment);
        assert(texts(fragments@) =~= earlier.push(fragment@));
        assert(wanted.take(i + 1) =~= wanted.take(i as int).push(wanted[i as int]));
        i += 1;
    }
    assert(wanted.take(i as int) =~= wanted);
    Some(make_block("mutation { ", &fragments))
}

} // verus!
