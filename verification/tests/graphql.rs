use serde_json::Value;
use tracker::graphql::{
    batch_add_items_to_project, batch_get_pr_node_ids, batch_set_field_values, create_text_field, fetch_project_info,
    read_created_field, read_item_ids, read_pr_node_ids, read_project_info, unresolved_prs, FieldUpdate,
};

fn json(text: &str) -> Value {
    serde_json::from_str(text).unwrap()
}

fn update(item: &str, field: &str, value: &str) -> FieldUpdate {
    FieldUpdate { item_id: item.into(), field_id: field.into(), value: value.into() }
}

#[test]
fn fetch_project_info_names_the_project() {
    let call = fetch_project_info("paritytech", 274);
    assert!(call.query.contains("query($org: String!, $number: Int!)"));
    assert!(call.query.contains("fields(first: 50)"));
    assert_eq!(call.variables, json(r#"{"org": "paritytech", "number": 274}"#));
}

#[test]
fn fetch_project_info_sends_a_signed_number() {
    let call = fetch_project_info("o", u64::MAX);
    assert_eq!(call.variables, json(r#"{"org": "o", "number": -1}"#));
}

#[test]
fn read_project_info_maps_names_to_ids() {
    let response = json(
        r#"{"data": {"organization": {"projectV2": {"id": "P1", "fields": {"nodes": [
            {"id": "F1", "name": "Status"},
            {},
            {"id": "F2"},
            {"id": 3, "name": "Number"},
            {"id": "F3", "name": "Release Tags"},
            {"id": "F4", "name": "Status"}
        ]}}}}}"#,
    );
    let project = read_project_info(&response).ok().unwrap();
    assert_eq!(project.project_id, "P1");
    assert_eq!(project.fields.len(), 2);
    assert_eq!(project.fields.get("Status").unwrap(), "F4");
    assert_eq!(project.fields.get("Release Tags").unwrap(), "F3");
}

#[test]
fn read_project_info_without_fields() {
    let response = json(r#"{"data": {"organization": {"projectV2": {"id": "P1"}}}}"#);
    assert_eq!(read_project_info(&response).ok().unwrap().fields.len(), 0);
}

#[test]
fn read_project_info_wants_an_id() {
    for response in [r#"{"data": {"organization": {"projectV2": {"id": 7}}}}"#, r#"{"data": null}"#, "[]"] {
        let error = read_project_info(&json(response)).err().unwrap();
        assert_eq!(error.message(), "no project ID");
    }
}

#[test]
fn create_text_field_names_the_field() {
    let call = create_text_field("P1", "AH Paseo");
    assert!(call.query.contains("dataType: TEXT"));
    assert_eq!(call.variables, json(r#"{"projectId": "P1", "name": "AH Paseo"}"#));
}

#[test]
fn read_created_field_wants_an_id() {
    let response = json(r#"{"data": {"createProjectV2Field": {"projectV2Field": {"id": "F9"}}}}"#);
    assert_eq!(read_created_field(&response).ok().unwrap(), "F9");
    let error = read_created_field(&json(r#"{"data": {"createProjectV2Field": null}}"#)).err().unwrap();
    assert_eq!(error.message(), "no field ID in response");
}

#[test]
fn batch_get_pr_node_ids_numbers_its_parts() {
    let call = batch_get_pr_node_ids("paritytech", "polkadot-sdk", &vec![9002, 7]).unwrap();
    assert_eq!(
        call.query,
        "query { pr0: repository(owner: \"paritytech\", name: \"polkadot-sdk\") { pullRequest(number: 9002) { id } }\n\
         pr1: repository(owner: \"paritytech\", name: \"polkadot-sdk\") { pullRequest(number: 7) { id } } }"
    );
    assert_eq!(call.variables, json("{}"));
    assert!(batch_get_pr_node_ids("o", "r", &vec![]).is_none());
}

#[test]
fn names_are_quoted_as_debug_does() {
    let call = batch_get_pr_node_ids("a\"b\\c\n", "é\u{7f}", &vec![1]).unwrap();
    assert_eq!(
        call.query,
        format!("query {{ pr0: repository(owner: {:?}, name: {:?}) {{ pullRequest(number: 1) {{ id }} }} }}", "a\"b\\c\n", "é\u{7f}")
    );
}

#[test]
fn read_pr_node_ids_leaves_out_what_is_missing() {
    let response = json(
        r#"{"data": {"pr0": {"pullRequest": {"id": "N0"}}, "pr1": null, "pr2": {"pullRequest": {"id": "N2"}}}}"#,
    );
    let ids = read_pr_node_ids(&response, &vec![10, 20, 30, 40]);
    assert_eq!(ids.len(), 2);
    assert_eq!(ids[&10], "N0");
    assert_eq!(ids[&30], "N2");
    assert_eq!(unresolved_prs(&response, &vec![10, 20, 30, 40]), vec![20, 40]);
    assert_eq!(unresolved_prs(&response, &vec![10]), Vec::<u64>::new());
    assert_eq!(unresolved_prs(&json("null"), &vec![7, 7]), vec![7, 7]);
}

#[test]
fn batch_add_items_to_project_numbers_its_parts() {
    let call = batch_add_items_to_project("P1", &vec!["N0".to_string(), "N\"2".to_string()]).unwrap();
    assert_eq!(
        call.query,
        "mutation { a0: addProjectV2ItemById(input: { projectId: \"P1\", contentId: \"N0\" }) { item { id } }\n\
         a1: addProjectV2ItemById(input: { projectId: \"P1\", contentId: \"N\\\"2\" }) { item { id } } }"
    );
    assert_eq!(call.variables, json("{}"));
    assert!(batch_add_items_to_project("P1", &vec![]).is_none());
}

#[test]
fn read_item_ids_wants_each_of_them() {
    let response = json(r#"{"data": {"a0": {"item": {"id": "I0"}}, "a1": {"item": {"id": "I1"}}, "a2": null}}"#);
    assert_eq!(read_item_ids(&response, 2).ok().unwrap(), vec!["I0", "I1"]);
    assert_eq!(read_item_ids(&response, 0).ok().unwrap().len(), 0);
    let error = read_item_ids(&response, 4).err().unwrap();
    assert_eq!(error.message(), "no item ID for index 2");
}

#[test]
fn batch_set_field_values_escapes_the_value() {
    let updates = vec![update("I0", "F0", "stable2407, stable2409"), update("I\\0", "F\"1", r#"a "b" \"#)];
    let call = batch_set_field_values("P1", &updates, 0).unwrap();
    assert_eq!(
        call.query,
        "mutation { f0: updateProjectV2ItemFieldValue(input: { projectId: \"P1\", itemId: \"I0\", fieldId: \"F0\", \
         value: { text: \"stable2407, stable2409\" } }) { projectV2Item { id } }\n\
         f1: updateProjectV2ItemFieldValue(input: { projectId: \"P1\", itemId: \"I\\\\0\", fieldId: \"F\\\"1\", \
         value: { text: \"a \\\"b\\\" \\\\\" } }) { projectV2Item { id } } }"
    );
    assert_eq!(call.variables, json("{}"));
}

#[test]
fn batch_set_field_values_sets_fifty_at_most() {
    let updates: Vec<FieldUpdate> = (0..120).map(|i| update(&format!("I{i}"), "F", "")).collect();
    let lines = |start| batch_set_field_values("P", &updates, start).map(|c| c.query.lines().count());
    assert_eq!(lines(0), Some(50));
    assert_eq!(lines(50), Some(50));
    assert_eq!(lines(100), Some(20));
    assert_eq!(lines(120), None);
    let second = batch_set_field_values("P", &updates, 50).unwrap().query;
    assert!(second.starts_with("mutation { f0: updateProjectV2ItemFieldValue(input: { projectId: \"P\", itemId: \"I50\","));
    assert!(second.contains("f49: updateProjectV2ItemFieldValue(input: { projectId: \"P\", itemId: \"I99\","));
}
