use std::collections::HashSet;

use serde_json::Value;
use tracker::annotate::{annotate, Annotator, Beginning, Progress};
use tracker::collections::{StringMap, StringSet};
use tracker::state::{CrateRelease, DownstreamInfo, Project, Release, Runtime, State, Upgrade};

fn crate_release(name: &str, version: &str, prs: Vec<u64>) -> CrateRelease {
    CrateRelease { name: name.into(), version: version.into(), published: "2025-01-01".into(), prs }
}

fn release(tag: &str, crates: Vec<CrateRelease>) -> Release {
    Release { tag: tag.into(), prev_tag: "".into(), crates }
}

fn runtime(field_name: &str, locked: &[(&str, &str)], code: Option<u64>, onchain: &[u64]) -> Runtime {
    let mut versions = StringMap::new();
    let mut deps = StringSet::new();
    for (name, version) in locked {
        versions.insert(name.to_string(), version.to_string());
        deps.insert(name.to_string());
    }
    Runtime {
        runtime: "Asset Hub".into(),
        short: "AH".into(),
        repo: "org/repo".into(),
        branch: "main".into(),
        cargo_lock_path: "Cargo.lock".into(),
        cargo_toml_path: "Cargo.toml".into(),
        spec_version_path: "lib.rs".into(),
        network: "net".into(),
        rpc: "https://rpc".into(),
        ws: "wss://ws".into(),
        field_name: field_name.into(),
        block_explorer_url: "https://explorer".into(),
        last_seen_commit: None,
        upgrades: onchain
            .iter()
            .map(|spec| Upgrade {
                spec_version: *spec,
                block_number: 1,
                block_hash: "0x00".into(),
                date: "2025-01-01".into(),
                block_url: "https://explorer/1".into(),
            })
            .collect(),
        downstream: DownstreamInfo { versions, deps, spec_version: code },
    }
}

fn state(last: Option<&str>, runtimes: Vec<Runtime>, releases: Vec<Release>) -> State {
    State {
        project: Project { org: "paritytech".into(), number: 274 },
        runtimes,
        last_processed_tag: last.map(String::from),
        releases,
    }
}

fn json(text: &str) -> Value {
    serde_json::from_str(text).unwrap()
}

/// A project that has the given fields.
fn project(fields: &[&str]) -> Value {
    let nodes: Vec<String> =
        fields.iter().map(|name| format!(r#"{{"id": "F-{name}", "name": "{name}"}}"#)).collect();
    json(&format!(
        r#"{{"data": {{"organization": {{"projectV2": {{"id": "P1", "fields": {{"nodes": [{}]}}}}}}}}}}"#,
        nodes.join(", ")
    ))
}

fn created(id: &str) -> Value {
    json(&format!(r#"{{"data": {{"createProjectV2Field": {{"projectV2Field": {{"id": "{id}"}}}}}}}}"#))
}

/// Identifiers for the first pull requests of a call, apart from one.
fn node_ids(count: usize, missing: Option<usize>) -> Value {
    let parts: Vec<String> = (0..count)
        .filter(|i| Some(*i) != missing)
        .map(|i| format!(r#""pr{i}": {{"pullRequest": {{"id": "N{i}"}}}}"#))
        .collect();
    json(&format!(r#"{{"data": {{{}}}}}"#, parts.join(", ")))
}

fn items(count: usize) -> Value {
    let parts: Vec<String> = (0..count).map(|i| format!(r#""a{i}": {{"item": {{"id": "I{i}"}}}}"#)).collect();
    json(&format!(r#"{{"data": {{{}}}}}"#, parts.join(", ")))
}

fn resume(annotator: Annotator, response: &Value) -> (Annotator, Progress) {
    match annotator.resume(response) {
        Ok(next) => next,
        Err(error) => panic!("{}", error.message()),
    }
}

fn query(progress: Progress) -> String {
    match progress {
        Progress::Call(call) => call.query,
        Progress::Finished => panic!("the annotation is finished"),
    }
}

fn variables(progress: Progress) -> Value {
    match progress {
        Progress::Call(call) => call.variables,
        Progress::Finished => panic!("the annotation is finished"),
    }
}

fn sample() -> State {
    state(
        None,
        vec![
            runtime("AH Paseo", &[("a", "1.0.0")], Some(20), &[10]),
            runtime("AH Kusama", &[("a", "0.9.0")], Some(7), &[7]),
        ],
        vec![
            release("stable2409", vec![crate_release("a", "1.0.0", vec![9063])]),
            release("stable2407", vec![crate_release("a", "1.0.0", vec![9002, 9063])]),
        ],
    )
}

/// A state with as many pull requests and runtimes.
fn large(prs: u64, runtimes: usize) -> State {
    state(
        None,
        (0..runtimes).map(|i| runtime(&format!("R{i}"), &[("a", "1.0.0")], Some(2), &[1])).collect(),
        vec![release("stable2409", vec![crate_release("a", "1.0.0", (1..=prs).collect())])],
    )
}

#[test]
fn annotation_runs_to_its_end() {
    let Beginning { annotator, stats, call } = annotate(&sample(), false, true, None);
    assert_eq!(stats.per_runtime, vec![2, 0]);
    assert_eq!(stats.details.len(), 2);
    assert_eq!(call.variables, json(r#"{"org": "paritytech", "number": 274}"#));

    let (annotator, next) = resume(annotator, &project(&["Release Tags", "AH Paseo", "AH Kusama"]));
    assert_eq!(
        query(next),
        "query { pr0: repository(owner: \"paritytech\", name: \"polkadot-sdk\") { pullRequest(number: 9002) { id } }\n\
         pr1: repository(owner: \"paritytech\", name: \"polkadot-sdk\") { pullRequest(number: 9063) { id } } }"
    );

    let (annotator, next) = resume(annotator, &node_ids(2, None));
    assert_eq!(
        query(next),
        "mutation { a0: addProjectV2ItemById(input: { projectId: \"P1\", contentId: \"N0\" }) { item { id } }\n\
         a1: addProjectV2ItemById(input: { projectId: \"P1\", contentId: \"N1\" }) { item { id } } }"
    );

    let (annotator, next) = resume(annotator, &items(2));
    let set = |i: usize, item: &str, field: &str, text: &str| {
        format!(
            "f{i}: updateProjectV2ItemFieldValue(input: {{ projectId: \"P1\", itemId: \"{item}\", \
             fieldId: \"F-{field}\", value: {{ text: \"{text}\" }} }}) {{ projectV2Item {{ id }} }}"
        )
    };
    let values = [
        set(0, "I0", "Release Tags", "stable2407"),
        set(1, "I0", "AH Paseo", "pending v20"),
        set(2, "I0", "AH Kusama", ""),
        set(3, "I1", "Release Tags", "stable2407, stable2409"),
        set(4, "I1", "AH Paseo", "pending v20"),
        set(5, "I1", "AH Kusama", ""),
    ];
    assert_eq!(query(next), format!("mutation {{ {} }}", values.join("\n")));

    let (annotator, next) = resume(annotator, &json("{}"));
    assert!(matches!(next, Progress::Finished));
    let (_, next) = resume(annotator, &json("{}"));
    assert!(matches!(next, Progress::Finished));
}

#[test]
fn dry_run_stops_after_reading_the_project() {
    let Beginning { annotator, stats, .. } = annotate(&sample(), true, false, None);
    assert_eq!(stats.per_runtime, vec![2, 0]);
    assert!(stats.details.is_empty());
    let (_, next) = resume(annotator, &project(&[]));
    assert!(matches!(next, Progress::Finished));
}

#[test]
fn dry_run_still_wants_a_project() {
    let Beginning { annotator, .. } = annotate(&sample(), true, false, None);
    let error = annotator.resume(&json(r#"{"data": {}}"#)).err().unwrap();
    assert_eq!(error.message(), "no project ID");
}

#[test]
fn missing_fields_are_created_in_order() {
    let Beginning { annotator, .. } = annotate(&sample(), false, false, None);
    let (annotator, next) = resume(annotator, &project(&["AH Paseo"]));
    assert_eq!(variables(next), json(r#"{"projectId": "P1", "name": "Release Tags"}"#));
    let (annotator, next) = resume(annotator, &created("T9"));
    assert_eq!(variables(next), json(r#"{"projectId": "P1", "name": "AH Kusama"}"#));
    let (annotator, next) = resume(annotator, &created("K9"));
    assert!(query(next).starts_with("query { pr0:"));
    let (annotator, _) = resume(annotator, &node_ids(2, None));
    let (_, next) = resume(annotator, &items(2));
    let text = query(next);
    assert!(text.contains("itemId: \"I0\", fieldId: \"T9\", value: { text: \"stable2407\" }"));
    assert!(text.contains("itemId: \"I0\", fieldId: \"F-AH Paseo\", value: { text: \"pending v20\" }"));
    assert!(text.contains("itemId: \"I0\", fieldId: \"K9\", value: { text: \"\" }"));
}

#[test]
fn created_field_must_have_an_id() {
    let Beginning { annotator, .. } = annotate(&sample(), false, false, None);
    let (annotator, _) = resume(annotator, &project(&[]));
    let error = annotator.resume(&json(r#"{"data": null}"#)).err().unwrap();
    assert_eq!(error.message(), "no field ID in response");
}

#[test]
fn added_item_must_have_an_id() {
    let Beginning { annotator, .. } = annotate(&sample(), false, false, None);
    let (annotator, _) = resume(annotator, &project(&["Release Tags", "AH Paseo", "AH Kusama"]));
    let (annotator, _) = resume(annotator, &node_ids(2, None));
    let error = annotator.resume(&items(1)).err().unwrap();
    assert_eq!(error.message(), "no item ID for index 1");
}

#[test]
fn prs_without_a_node_are_passed_over() {
    let fields = project(&["Release Tags", "AH Paseo", "AH Kusama"]);
    let Beginning { annotator, .. } = annotate(&sample(), false, false, None);
    assert!(annotator.passed_over(&fields).is_empty());
    let (annotator, _) = resume(annotator, &fields);
    assert_eq!(annotator.passed_over(&node_ids(2, Some(0))), vec![9002]);
    assert!(annotator.passed_over(&node_ids(2, None)).is_empty());
    let (annotator, next) = resume(annotator, &node_ids(2, Some(0)));
    assert!(query(next).contains("a0: addProjectV2ItemById(input: { projectId: \"P1\", contentId: \"N1\" })"));
    let (_, next) = resume(annotator, &items(1));
    let text = query(next);
    assert_eq!(text.lines().count(), 3);
    assert!(text.contains("f0: updateProjectV2ItemFieldValue(input: { projectId: \"P1\", itemId: \"I0\", fieldId: \"F-Release Tags\", value: { text: \"stable2407, stable2409\" } })"));

    let Beginning { annotator, .. } = annotate(&sample(), false, false, None);
    let (annotator, _) = resume(annotator, &fields);
    let (_, next) = resume(annotator, &json(r#"{"data": null}"#));
    assert!(matches!(next, Progress::Finished));
}

#[test]
fn nothing_to_annotate() {
    let none: HashSet<u64> = HashSet::new();
    let Beginning { annotator, stats, .. } = annotate(&sample(), false, true, Some(&none));
    assert_eq!(stats.per_runtime, vec![0, 0]);
    assert!(stats.details.is_empty());
    let (annotator, next) = resume(annotator, &project(&["Release Tags", "AH Paseo"]));
    assert_eq!(variables(next), json(r#"{"projectId": "P1", "name": "AH Kusama"}"#));
    let (_, next) = resume(annotator, &created("K9"));
    assert!(matches!(next, Progress::Finished));
}

#[test]
fn prs_are_handled_twenty_at_a_time() {
    let Beginning { annotator, .. } = annotate(&large(45, 0), false, false, None);
    let (mut annotator, mut next) = resume(annotator, &project(&["Release Tags"]));
    let mut sizes = vec![];
    loop {
        let text = match next {
            Progress::Finished => break,
            Progress::Call(call) => call.query,
        };
        let size = text.lines().count();
        sizes.push(size);
        assert!(text.starts_with("query { pr0:"));
        (annotator, next) = resume(annotator, &node_ids(size, None));
        assert!(query(next).starts_with("mutation { a0:"));
        (annotator, next) = resume(annotator, &items(size));
        assert_eq!(query(next).lines().count(), size);
        (annotator, next) = resume(annotator, &json("{}"));
    }
    assert_eq!(sizes, vec![20, 20, 5]);
}

#[test]
fn values_are_set_fifty_at_a_time() {
    let Beginning { annotator, .. } = annotate(&large(21, 5), false, false, None);
    let (annotator, _) = resume(annotator, &project(&["Release Tags", "R0", "R1", "R2", "R3", "R4"]));
    let (annotator, _) = resume(annotator, &node_ids(20, None));
    let (annotator, next) = resume(annotator, &items(20));
    assert_eq!(query(next).lines().count(), 50);
    let (annotator, next) = resume(annotator, &json("{}"));
    assert_eq!(query(next).lines().count(), 50);
    let (annotator, next) = resume(annotator, &json("{}"));
    let text = query(next);
    assert_eq!(text.lines().count(), 20);
    assert!(text.contains("f19: updateProjectV2ItemFieldValue(input: { projectId: \"P1\", itemId: \"I19\", fieldId: \"F-R4\", value: { text: \"pending v2\" } })"));
    let (_, next) = resume(annotator, &json("{}"));
    assert!(query(next).contains("pullRequest(number: 21)"));
}

#[test]
fn only_dirty_prs_are_annotated() {
    let dirty: HashSet<u64> = [9063].into_iter().collect();
    let Beginning { annotator, stats, .. } = annotate(&sample(), false, false, Some(&dirty));
    assert_eq!(stats.per_runtime, vec![1, 0]);
    let (_, next) = resume(annotator, &project(&["Release Tags", "AH Paseo", "AH Kusama"]));
    let text = query(next);
    assert_eq!(text.lines().count(), 1);
    assert!(text.contains("pullRequest(number: 9063)"));
}
