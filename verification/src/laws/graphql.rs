//! Laws of the calls, and of what their responses say.
use vstd::prelude::*;

use crate::graphql::{
    add_items_call, created_field, field_call, fields_of, item_id, node_ids, node_ids_call, numbered_texts, part_end,
    project_call, project_of, set_values_call, unresolved, update_views, value_texts, FieldUpdate, GraphqlCall,
    ProjectInfo, ResponseError, UpdateView, FIELD_MUTATION, PROJECT_QUERY,
};
use crate::json::{all_contents, contents, Json};
use crate::text::{decimal, escaped, joined, quoted};

verus! {

/// Looking up a key gives what an object has under it, and null everywhere else.
pub proof fn law_json_lookup(members: Map<Seq<char>, Json>, other: Json, key: Seq<char>)
    ensures
        members.contains_key(key) ==> Json::Object(members).at(key) == members[key] && Json::Object(members).has(key),
        !members.contains_key(key) ==> Json::Object(members).at(key) is Null && !Json::Object(members).has(key),
        !(other is Object) ==> other.at(key) is Null && !other.has(key),
{
}

/// A document is a text, or a list, only where it is one.
pub proof fn law_json_kinds(document: Json, text: Seq<char>, items: Seq<Json>)
    ensures
        document.text() == Some(text) <==> document == Json::Text(text),
        document.text() is Some <==> document is Text,
        document.items() == Some(items) <==> document == Json::Array(items),
        document.items() is Some <==> document is Array,
{
}

/// The call that reads a project names its organisation and its number, and nothing else.
pub proof fn law_project_call(org: Seq<char>, number: u64)
    ensures
        project_call(org, number).query == PROJECT_QUERY@,
        project_call(org, number).variables is Object,
        project_call(org, number).variables.at("org"@) == Json::Text(org),
        project_call(org, number).variables.at("number"@) == Json::Integer((number as i64) as int),
        forall|key: Seq<char>|
            #[trigger] project_call(org, number).variables.has(key) ==> key == "org"@ || key == "number"@,
        PROJECT_QUERY@ == "
        query($org: String!, $number: Int!) {
            organization(login: $org) {
                projectV2(number: $number) {
                    id
                    fields(first: 50) {
                        nodes {
                            ... on ProjectV2Field {
                                id
                                name
                            }
                            ... on ProjectV2SingleSelectField {
                                id
                                name
                            }
                            ... on ProjectV2IterationField {
                                id
                                name
                            }
                        }
                    }
                }
            }
        }
    "@,
{
    reveal_strlit("org");
    reveal_strlit("number");
    assert("org"@.len() != "number"@.len());
}

/// The call that creates a field names the project and the field, and nothing else.
pub proof fn law_field_call(project_id: Seq<char>, name: Seq<char>)
    ensures
        field_call(project_id, name).query == FIELD_MUTATION@,
        field_call(project_id, name).variables is Object,
        field_call(project_id, name).variables.at("projectId"@) == Json::Text(project_id),
        field_call(project_id, name).variables.at("name"@) == Json::Text(name),
        forall|key: Seq<char>|
            #[trigger] field_call(project_id, name).variables.has(key) ==> key == "projectId"@ || key == "name"@,
        FIELD_MUTATION@ == "
        mutation($projectId: ID!, $name: String!) {
            createProjectV2Field(input: {
                projectId: $projectId,
                dataType: TEXT,
                name: $name
            }) {
                projectV2Field {
                    ... on ProjectV2Field {
                        id
                    }
                }
            }
        }
    "@,
{
    reveal_strlit("projectId");
    reveal_strlit("name");
    assert("projectId"@.len() != "name"@.len());
}

/// Whether the node at a position names a field, and gives it an identifier.
pub open spec fn describes(nodes: Seq<Json>, i: int, name: Seq<char>, id: Seq<char>) -> bool {
    nodes[i].at("name"@) == Json::Text(name) && nodes[i].at("id"@) == Json::Text(id)
}

/// A name belongs to a field exactly where a node gives it an identifier, and has the one that the last such node
/// gives it.
pub proof fn law_fields(nodes: Seq<Json>, name: Seq<char>)
    ensures
        fields_of(nodes).contains_key(name) <==> exists|i: int, id: Seq<char>|
            0 <= i < nodes.len() && #[trigger] describes(nodes, i, name, id),
        fields_of(nodes).contains_key(name) ==> exists|i: int|
            {
                &&& 0 <= i < nodes.len()
                &&& #[trigger] describes(nodes, i, name, fields_of(nodes)[name])
                &&& forall|j: int, id: Seq<char>| i < j < nodes.len() ==> !#[trigger] describes(nodes, j, name, id)
            },
    decreases nodes.len(),
{
    if nodes.len() > 0 {
        let init = nodes.drop_last();
        let last = nodes.len() - 1;
        law_fields(init, name);
        assert forall|i: int, id: Seq<char>| 0 <= i < init.len() implies #[trigger] describes(nodes, i, name, id) == describes(
            init,
            i,
            name,
            id,
        ) by {
            assert(init[i] == nodes[i]);
        }
        let found = exists|id: Seq<char>| #[trigger] describes(nodes, last, name, id);
        if found {
            let id = choose|id: Seq<char>| #[trigger] describes(nodes, last, name, id);
            assert(fields_of(nodes)[name] == id);
            assert(describes(nodes, last, name, fields_of(nodes)[name]));
        } else {
            match (nodes.last().at("id"@).text(), nodes.last().at("name"@).text()) {
                (Some(id), Some(n)) => {
                    assert(describes(nodes, last, n, id));
                    assert(n != name);
                },
                _ => {},
            }
            assert(fields_of(nodes).contains_key(name) == fields_of(init).contains_key(name));
            if fields_of(init).contains_key(name) {
                assert(fields_of(nodes)[name] == fields_of(init)[name]);
                let i = choose|i: int|
                    {
                        &&& 0 <= i < init.len()
                        &&& #[trigger] describes(init, i, name, fields_of(init)[name])
                        &&& forall|j: int, id: Seq<char>| i < j < init.len() ==> !#[trigger] describes(init, j, name, id)
                    };
                assert(describes(nodes, i, name, fields_of(nodes)[name]));
                assert forall|j: int, id: Seq<char>| i < j < nodes.len() implies !#[trigger] describes(nodes, j, name, id) by {
                    if j < init.len() {
                        assert(!describes(init, j, name, id));
                    }
                }
            }
            if exists|i: int, id: Seq<char>| 0 <= i < nodes.len() && #[trigger] describes(nodes, i, name, id) {
                let (i, id) = choose|i: int, id: Seq<char>| 0 <= i < nodes.len() && #[trigger] describes(nodes, i, name, id);
                assert(describes(init, i, name, id));
            }
        }
    }
}

/// A response describes a project where it has its identifier; its fields are those of the nodes, if there are any.
pub proof fn law_project(response: Json, nodes: Seq<Json>, id: Seq<char>)
    ensures
        ({
            let project = response.at("data"@).at("organization"@).at("projectV2"@);
            &&& project_of(response) is Some <==> project.at("id"@) is Text
            &&& project.at("id"@) == Json::Text(id) ==> project_of(response)->0.id == id
            &&& project_of(response) is Some && project.at("fields"@).at("nodes"@) == Json::Array(nodes) ==> project_of(
                response,
            )->0.fields == fields_of(nodes)
            &&& project_of(response) is Some && !(project.at("fields"@).at("nodes"@) is Array) ==> project_of(
                response,
            )->0.fields == Map::<Seq<char>, Seq<char>>::empty()
        }),
{
}

/// A response gives the identifier of a created field in its place.
pub proof fn law_created_field(response: Json, id: Seq<char>)
    ensures
        created_field(response) == Some(id) <==> response.at("data"@).at("createProjectV2Field"@).at("projectV2Field"@).at(
            "id"@,
        ) == Json::Text(id),
        created_field(response) is None <==> !(response.at("data"@).at("createProjectV2Field"@).at("projectV2Field"@).at("id"@)
            is Text),
{
}

/// The call that asks for the identifiers of pull requests asks for each of them in turn, under its position.
pub proof fn law_node_ids_call(owner: Seq<char>, repo: Seq<char>, numbers: Seq<u64>)
    ensures
        node_ids_call(owner, repo, numbers).variables == Json::Object(Map::empty()),
        node_ids_call(owner, repo, numbers).query == "query { "@ + joined(
            Seq::new(
                numbers.len(),
                |i: int|
                    "pr"@ + decimal(i as nat) + ": repository(owner: "@ + quoted(owner) + ", name: "@ + quoted(repo)
                        + ") { pullRequest(number: "@ + decimal(numbers[i] as nat) + ") { id } }"@,
            ),
            "\n"@,
        ) + " }"@,
{
    let parts = Seq::new(
        numbers.len(),
        |i: int| crate::graphql::node_id_fragment(owner, repo, i as nat, numbers[i]),
    );
    assert(parts =~= Seq::new(
        numbers.len(),
        |i: int|
            "pr"@ + decimal(i as nat) + ": repository(owner: "@ + quoted(owner) + ", name: "@ + quoted(repo)
                + ") { pullRequest(number: "@ + decimal(numbers[i] as nat) + ") { id } }"@,
    ));
}

/// The document that a response has in the place of the identifier of the pull request at a position of the call.
pub open spec fn node_at(response: Json, i: nat) -> Json {
    response.at("data"@).at("pr"@ + decimal(i)).at("pullRequest"@).at("id"@)
}

/// A response gives a pull request the identifier that stands under its position in the call, and none where none
/// stands there; it gives none to pull requests that were not asked for.
pub proof fn law_node_ids(response: Json, numbers: Seq<u64>, i: nat, number: u64)
    requires
        numbers.no_duplicates(),
    ensures
        i < numbers.len() ==> (node_ids(response, numbers).contains_key(numbers[i as int]) <==> node_at(response, i) is Text),
        i < numbers.len() && node_at(response, i) is Text ==> node_at(response, i) == Json::Text(
            node_ids(response, numbers)[numbers[i as int]],
        ),
        !numbers.contains(number) ==> !node_ids(response, numbers).contains_key(number),
    decreases numbers.len(),
{
    if numbers.len() > 0 {
        let init = numbers.drop_last();
        let last = (numbers.len() - 1) as nat;
        assert(crate::graphql::node_id(response, last) == node_at(response, last).text());
        law_node_ids(response, init, i, number);
        if !numbers.contains(number) {
            assert(!init.contains(number)) by {
                if init.contains(number) {
                    assert(numbers[init.index_of(number)] == number);
                }
            }
            assert(numbers[last as int] != number);
        }
        if i < last {
            assert(init[i as int] == numbers[i as int]);
            assert(numbers[i as int] != numbers.last());
        } else if i == last {
            assert(!init.contains(numbers.last()));
            law_node_ids(response, init, i, numbers.last());
        }
    }
}

/// Of the pull requests of a call those are passed over that have no identifier under their position, in the order
/// of the call.
pub proof fn law_unresolved(response: Json, numbers: Seq<u64>, number: u64)
    ensures
        unresolved(response, Seq::empty()) == Seq::<u64>::empty(),
        unresolved(response, numbers.push(number)) == if node_at(response, numbers.len()) is Text {
            unresolved(response, numbers)
        } else {
            unresolved(response, numbers).push(number)
        },
{
    assert(numbers.push(number).drop_last() =~= numbers);
    assert(crate::graphql::node_id(response, numbers.len()) == node_at(response, numbers.len()).text());
}

/// The call that adds items adds each of them in turn, under its position.
pub proof fn law_add_items_call(project_id: Seq<char>, content_ids: Seq<Seq<char>>)
    ensures
        add_items_call(project_id, content_ids).variables == Json::Object(Map::empty()),
        add_items_call(project_id, content_ids).query == "mutation { "@ + joined(
            Seq::new(
                content_ids.len(),
                |i: int|
                    "a"@ + decimal(i as nat) + ": addProjectV2ItemById(input: { projectId: "@ + quoted(project_id)
                        + ", contentId: "@ + quoted(content_ids[i]) + " }) { item { id } }"@,
            ),
            "\n"@,
        ) + " }"@,
{
    let parts = Seq::new(
        content_ids.len(),
        |i: int| crate::graphql::add_item_fragment(project_id, i as nat, content_ids[i]),
    );
    assert(parts =~= Seq::new(
        content_ids.len(),
        |i: int|
            "a"@ + decimal(i as nat) + ": addProjectV2ItemById(input: { projectId: "@ + quoted(project_id) + ", contentId: "@
                + quoted(content_ids[i]) + " }) { item { id } }"@,
    ));
}

/// A response gives the item at a position of the call the identifier that stands under that position.
pub proof fn law_item_id(response: Json, i: nat, id: Seq<char>)
    ensures
        item_id(response, i) == Some(id) <==> response.at("data"@).at("a"@ + decimal(i)).at("item"@).at("id"@) == Json::Text(
            id,
        ),
        item_id(response, i) is None <==> !(response.at("data"@).at("a"@ + decimal(i)).at("item"@).at("id"@) is Text),
{
}

/// The call that sets values sets each of them in turn, on its item and in its field.
pub proof fn law_set_values_call(project_id: Seq<char>, updates: Seq<UpdateView>)
    ensures
        set_values_call(project_id, updates).variables == Json::Object(Map::empty()),
        set_values_call(project_id, updates).query == "mutation { "@ + joined(
            Seq::new(
                updates.len(),
                |i: int|
                    "f"@ + decimal(i as nat) + ": updateProjectV2ItemFieldValue(input: { projectId: "@ + quoted(project_id)
                        + ", itemId: "@ + quoted(updates[i].item_id) + ", fieldId: "@ + quoted(updates[i].field_id)
                        + ", value: { text: \""@ + escaped(updates[i].value) + "\" } }) { projectV2Item { id } }"@,
            ),
            "\n"@,
        ) + " }"@,
{
    let parts = Seq::new(
        updates.len(),
        |i: int| crate::graphql::set_value_fragment(project_id, i as nat, updates[i]),
    );
    assert(parts =~= Seq::new(
        updates.len(),
        |i: int|
            "f"@ + decimal(i as nat) + ": updateProjectV2ItemFieldValue(input: { projectId: "@ + quoted(project_id)
                + ", itemId: "@ + quoted(updates[i].item_id) + ", fieldId: "@ + quoted(updates[i].field_id)
                + ", value: { text: \""@ + escaped(updates[i].value) + "\" } }) { projectV2Item { id } }"@,
    ));
}

/// A part of a list has the given size, or ends with the list where less is left. One call sets fifty values at
/// most.
pub proof fn law_part_end(start: int, size: int, len: int)
    requires
        0 <= start <= len,
        0 <= size,
    ensures
        start <= part_end(start, size, len) <= len,
        part_end(start, size, len) - start <= size,
        part_end(start, size, len) == len || part_end(start, size, len) - start == size,
        crate::graphql::UPDATES_PER_CALL == 50,
{
}

/// What a lack in a response is reported as.
pub proof fn law_response_errors(i: usize)
    ensures
        ResponseError::NoProjectId.text() == "no project ID"@,
        ResponseError::NoFieldId.text() == "no field ID in response"@,
        ResponseError::NoItemId(i).text() == "no item ID for index "@ + decimal(i as nat),
{
}

/// What the logic reads of calls, projects and updates is what they hold.
pub proof fn law_graphql_views(call: GraphqlCall, project: ProjectInfo, updates: Seq<FieldUpdate>, i: int, name: Seq<char>)
    ensures
        call@.query == call.query@,
        call@.variables == contents(call.variables),
        project@.id == project.project_id@,
        project@.fields.dom() == project.fields@.dom(),
        project.fields@.contains_key(name) ==> project@.fields[name] == project.fields@[name]@,
        update_views(updates).len() == updates.len(),
        0 <= i < updates.len() ==> {
            &&& update_views(updates)[i].item_id == updates[i].item_id@
            &&& update_views(updates)[i].field_id == updates[i].field_id@
            &&& update_views(updates)[i].value == updates[i].value@
        },
{
    assert(project@.fields.dom() =~= project.fields@.dom());
}

/// The texts of a map are those of its values.
pub proof fn law_map_texts(named: Map<Seq<char>, String>, numbered: Map<u64, String>, name: Seq<char>, number: u64)
    ensures
        value_texts(named).dom() == named.dom(),
        named.contains_key(name) ==> value_texts(named)[name] == named[name]@,
        numbered_texts(numbered).dom() == numbered.dom(),
        numbered.contains_key(number) ==> numbered_texts(numbered)[number] == numbered[number]@,
{
    assert(value_texts(named).dom() =~= named.dom());
    assert(numbered_texts(numbered).dom() =~= numbered.dom());
}

/// A pull request more in a call has the identifier that stands under its position, in place of one that it had
/// before.
pub proof fn law_node_ids_grow(response: Json, numbers: Seq<u64>, number: u64)
    ensures
        node_ids(response, Seq::empty()) == Map::<u64, Seq<char>>::empty(),
        node_ids(response, numbers.push(number)) == match node_at(response, numbers.len()) {
            Json::Text(id) => node_ids(response, numbers).insert(number, id),
            _ => node_ids(response, numbers),
        },
{
    assert(numbers.push(number).drop_last() =~= numbers);
    assert(crate::graphql::node_id(response, numbers.len()) == node_at(response, numbers.len()).text());
}

/// What a list of documents holds is what each of them holds, in order.
pub proof fn law_all_contents(values: Seq<serde_json::Value>, i: int)
    ensures
        all_contents(values).len() == values.len(),
        0 <= i < values.len() ==> all_contents(values)[i] == contents(values[i]),
{
}

} // verus!
