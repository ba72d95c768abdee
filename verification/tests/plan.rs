use std::collections::HashSet;

use tracker::collections::{StringMap, StringSet};
use tracker::plan::{annotation_stats, plan_annotations, status_in, PrTags};
use tracker::project::build_pr_crate_map;
use tracker::state::{CrateRelease, DownstreamInfo, Project, Release, Runtime, State, Upgrade};

fn crate_release(name: &str, version: &str, prs: Vec<u64>) -> CrateRelease {
    CrateRelease { name: name.into(), version: version.into(), published: "2025-01-01".into(), prs }
}

fn release(tag: &str, crates: Vec<CrateRelease>) -> Release {
    Release { tag: tag.into(), prev_tag: "".into(), crates }
}

fn runtime(field_name: &str, locked: &[(&str, &str)], code: Option<u64>, onchain: &[u64]) -> Runtime {
    let mut versions = StringMap::new();
    let mut deps = StringSet::new();
    for (name, version) in locked {
        versions.insert(name.to_string(), version.to_string());
        deps.insert(name.to_string());
    }
    Runtime {
        runtime: "Asset Hub".into(),
        short: "AH".into(),
        repo: "org/repo".into(),
        branch: "main".into(),
        cargo_lock_path: "Cargo.lock".into(),
        cargo_toml_path: "Cargo.toml".into(),
        spec_version_path: "lib.rs".into(),
        network: "net".into(),
        rpc: "https://rpc".into(),
        ws: "wss://ws".into(),
        field_name: field_name.into(),
        block_explorer_url: "https://explorer".into(),
        last_seen_commit: None,
        upgrades: onchain
            .iter()
            .map(|spec| Upgrade {
                spec_version: *spec,
                block_number: 1,
                block_hash: "0x00".into(),
                date: "2025-01-01".into(),
                block_url: "https://explorer/1".into(),
            })
            .collect(),
        downstream: DownstreamInfo { versions, deps, spec_version: code },
    }
}

fn state(last: Option<&str>, runtimes: Vec<Runtime>, releases: Vec<Release>) -> State {
    State {
        project: Project { org: "paritytech".into(), number: 274 },
        runtimes,
        last_processed_tag: last.map(String::from),
        releases,
    }
}

fn listed(plan: &[PrTags]) -> Vec<(u64, Vec<&str>)> {
    plan.iter().map(|p| (p.number, p.tags.iter().map(|t| t.as_str()).collect())).collect()
}

fn sample() -> State {
    state(
        Some("stable2409"),
        vec![
            runtime("AH Paseo", &[("a", "2.0.0"), ("b", "1.0.0")], Some(20), &[10]),
            runtime("AH Kusama", &[("a", "1.0.0")], Some(7), &[7]),
        ],
        vec![
            release("stable2409", vec![crate_release("a", "2.0.0", vec![30, 10]), crate_release("b", "1.1.0", vec![10])]),
            release("stable2407", vec![crate_release("a", "1.0.0", vec![10, 20]), crate_release("c", "1.0.0", vec![40])]),
            release("stable2409", vec![crate_release("d", "1.0.0", vec![10])]),
        ],
    )
}

#[test]
fn plan_lists_all_prs_in_order_with_their_tags() {
    let plan = plan_annotations(&sample(), None);
    assert_eq!(
        listed(&plan),
        vec![
            (10, vec!["stable2407", "stable2409"]),
            (20, vec!["stable2407"]),
            (30, vec!["stable2409"]),
            (40, vec!["stable2407"]),
        ]
    );
}

#[test]
fn plan_is_restricted_to_dirty_prs() {
    let dirty: HashSet<u64> = [40, 10, 99].into_iter().collect();
    let plan = plan_annotations(&sample(), Some(&dirty));
    assert_eq!(listed(&plan), vec![(10, vec!["stable2407", "stable2409"]), (40, vec!["stable2407"])]);
    let none: HashSet<u64> = HashSet::new();
    assert!(plan_annotations(&sample(), Some(&none)).is_empty());
}

#[test]
fn stats_count_statuses_per_runtime() {
    let state = sample();
    let plan = plan_annotations(&state, None);
    let crates = build_pr_crate_map(&state);
    let stats = annotation_stats(&state, &plan, &crates, true);
    let details: Vec<(u64, Vec<&str>)> =
        stats.details.iter().map(|d| (d.number, d.statuses.iter().map(|s| s.as_str()).collect())).collect();
    assert_eq!(
        details,
        vec![
            (10, vec!["pending v20 (1/2 crates)", "v7"]),
            (20, vec!["", "v7"]),
            (30, vec!["pending v20", ""]),
            (40, vec!["", ""]),
        ]
    );
    assert_eq!(stats.per_runtime, vec![2, 2]);
}

#[test]
fn stats_list_nothing_unless_asked() {
    let state = sample();
    let plan = plan_annotations(&state, None);
    let crates = build_pr_crate_map(&state);
    let stats = annotation_stats(&state, &plan, &crates, false);
    assert!(stats.details.is_empty());
    assert_eq!(stats.per_runtime, vec![2, 2]);
}

#[test]
fn status_of_an_unknown_pr_is_empty() {
    let state = sample();
    let crates = build_pr_crate_map(&state);
    assert_eq!(status_in(&state.runtimes[0], &crates, 77), "");
    assert_eq!(status_in(&state.runtimes[1], &crates, 20), "v7");
}
