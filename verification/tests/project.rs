use tracker::collections::{StringMap, StringSet};
use tracker::project::{build_pr_crate_map, compute_runtime_status};
use tracker::state::{CrateRelease, DownstreamInfo, Project, Release, Runtime, State, Upgrade};

fn make_state(releases: Vec<Release>, runtimes: Vec<Runtime>) -> State {
    State {
        project: Project { org: "test".into(), number: 1 },
        runtimes,
        last_processed_tag: None,
        releases,
    }
}

fn make_upgrade(spec_version: u64) -> Upgrade {
    Upgrade {
        spec_version,
        block_number: 100,
        block_hash: "0x00".into(),
        date: "2025-01-01".into(),
        block_url: "https://explorer/100".into(),
    }
}

fn versions_of(pairs: &[(&str, &str)]) -> StringMap<String> {
    let mut map = StringMap::new();
    for (name, version) in pairs {
        map.insert(name.to_string(), version.to_string());
    }
    map
}

fn deps_of(names: &[&str]) -> StringSet {
    let mut set = StringSet::new();
    for name in names {
        set.insert(name.to_string());
    }
    set
}

fn crates_of(entries: &[(&str, &[&str])]) -> StringMap<Vec<String>> {
    let mut map = StringMap::new();
    for (name, versions) in entries {
        map.insert(name.to_string(), versions.iter().map(|v| v.to_string()).collect());
    }
    map
}

fn make_runtime(
    versions: StringMap<String>,
    deps: StringSet,
    spec_version: Option<u64>,
    upgrades: Vec<Upgrade>,
) -> Runtime {
    Runtime {
        runtime: "test-runtime".into(),
        short: "TR".into(),
        repo: "org/repo".into(),
        branch: "main".into(),
        cargo_lock_path: "Cargo.lock".into(),
        cargo_toml_path: "Cargo.toml".into(),
        spec_version_path: "lib.rs".into(),
        network: "testnet".into(),
        rpc: "https://rpc".into(),
        ws: "wss://ws".into(),
        field_name: "TR Test".into(),
        block_explorer_url: "https://explorer".into(),
        last_seen_commit: None,
        upgrades,
        downstream: DownstreamInfo { versions, deps, spec_version },
    }
}

fn make_crate(name: &str, version: &str, published: &str, prs: Vec<u64>) -> CrateRelease {
    CrateRelease { name: name.into(), version: version.into(), published: published.into(), prs }
}

#[test]
fn build_pr_crate_map_basic() {
    let state = make_state(
        vec![Release {
            tag: "v1".into(),
            prev_tag: "v0".into(),
            crates: vec![make_crate("crate-a", "1.0.0", "2025-01-01", vec![10, 20])],
        }],
        vec![],
    );

    let map = build_pr_crate_map(&state);
    assert_eq!(*map[&10].get("crate-a").unwrap(), vec!["1.0.0"]);
    assert_eq!(*map[&20].get("crate-a").unwrap(), vec!["1.0.0"]);
}

#[test]
fn build_pr_crate_map_collects_all_versions() {
    let state = make_state(
        vec![
            Release {
                tag: "v1".into(),
                prev_tag: "v0".into(),
                crates: vec![make_crate("crate-a", "1.0.0", "2025-01-01", vec![10])],
            },
            Release {
                tag: "v2".into(),
                prev_tag: "v1".into(),
                crates: vec![make_crate("crate-a", "2.0.0", "2025-02-01", vec![10])],
            },
        ],
        vec![],
    );

    let map = build_pr_crate_map(&state);
    assert_eq!(*map[&10].get("crate-a").unwrap(), vec!["1.0.0", "2.0.0"]);
}

#[test]
fn compute_runtime_status_no_crates() {
    let rt = make_runtime(StringMap::new(), StringSet::new(), None, vec![]);
    assert_eq!(compute_runtime_status(&rt, None), "");
}

#[test]
fn compute_runtime_status_not_in_deps() {
    let rt = make_runtime(StringMap::new(), StringSet::new(), None, vec![]);
    let crates = crates_of(&[("crate-a", &["1.0.0"])]);
    assert_eq!(compute_runtime_status(&rt, Some(&crates)), "");
}

#[test]
fn compute_runtime_status_adopted_enacted() {
    let rt = make_runtime(
        versions_of(&[("crate-a", "1.0.0")]),
        deps_of(&["crate-a"]),
        Some(2000006),
        vec![make_upgrade(2000006)],
    );
    let crates = crates_of(&[("crate-a", &["1.0.0"])]);
    assert_eq!(compute_runtime_status(&rt, Some(&crates)), "v2000006");
}

#[test]
fn compute_runtime_status_adopted_pending() {
    let rt = make_runtime(
        versions_of(&[("crate-a", "1.0.0")]),
        deps_of(&["crate-a"]),
        Some(3000000),
        vec![make_upgrade(2000006)],
    );
    let crates = crates_of(&[("crate-a", &["1.0.0"])]);
    assert_eq!(compute_runtime_status(&rt, Some(&crates)), "pending v3000000");
}

#[test]
fn compute_runtime_status_partial_adoption() {
    let rt = make_runtime(
        versions_of(&[("crate-a", "2.0.0")]),
        deps_of(&["crate-a", "crate-b"]),
        Some(2000006),
        vec![make_upgrade(2000006)],
    );
    let crates = crates_of(&[("crate-a", &["1.0.0", "2.0.0"]), ("crate-b", &["1.0.0"])]);
    assert_eq!(compute_runtime_status(&rt, Some(&crates)), "v2000006 (1/2 crates)");
}

#[test]
fn compute_runtime_status_version_from_different_branch_not_adopted() {
    let rt = make_runtime(
        // Downstream has version 0.24.1 (from a branch without the backport)
        versions_of(&[("crate-a", "0.24.1")]),
        deps_of(&["crate-a"]),
        Some(2000006),
        vec![make_upgrade(2000006)],
    );
    // The pull request was backported to branches producing 0.21.1, 0.23.1, and 0.25.0
    let crates = crates_of(&[("crate-a", &["0.21.1", "0.23.1", "0.25.0"])]);
    // 0.24.1 is not in the known versions, so not adopted
    assert_eq!(compute_runtime_status(&rt, Some(&crates)), "");
}

#[test]
fn compute_runtime_status_before_any_upgrade() {
    let crates = crates_of(&[("crate-a", &["1.0.0"])]);
    let rt = make_runtime(versions_of(&[("crate-a", "1.0.0")]), deps_of(&["crate-a"]), None, vec![]);
    assert_eq!(compute_runtime_status(&rt, Some(&crates)), "pending > v0");
    let rt = make_runtime(versions_of(&[("crate-a", "1.0.0")]), deps_of(&["crate-a"]), Some(7), vec![]);
    assert_eq!(compute_runtime_status(&rt, Some(&crates)), "pending v7");
}

#[test]
fn compute_runtime_status_takes_the_greatest_upgrade() {
    let rt = make_runtime(
        versions_of(&[("crate-a", "1.0.0")]),
        deps_of(&["crate-a"]),
        Some(12),
        vec![make_upgrade(9), make_upgrade(30), make_upgrade(12)],
    );
    let crates = crates_of(&[("crate-a", &["1.0.0"])]);
    assert_eq!(rt.max_onchain_spec(), Some(30));
    assert_eq!(compute_runtime_status(&rt, Some(&crates)), "v30");
}

#[test]
fn compute_runtime_status_enacting_makes_live() {
    let crates = crates_of(&[("crate-a", &["1.0.0"]), ("crate-b", &["1.0.0"]), ("crate-c", &["1.0.0"])]);
    let make = |upgrades| {
        make_runtime(
            versions_of(&[("crate-a", "1.0.0"), ("crate-b", "1.0.0"), ("crate-c", "0.9.0")]),
            deps_of(&["crate-a", "crate-b", "crate-c"]),
            Some(1002300),
            upgrades,
        )
    };
    assert_eq!(
        compute_runtime_status(&make(vec![make_upgrade(1002200)]), Some(&crates)),
        "pending v1002300 (2/3 crates)"
    );
    assert_eq!(
        compute_runtime_status(&make(vec![make_upgrade(1002200), make_upgrade(1002300)]), Some(&crates)),
        "v1002300 (2/3 crates)"
    );
}

#[test]
fn build_pr_crate_map_lists_a_version_once() {
    let state = make_state(
        vec![
            Release {
                tag: "v1".into(),
                prev_tag: "v0".into(),
                crates: vec![
                    make_crate("crate-a", "1.0.0", "2025-01-01", vec![10, 10]),
                    make_crate("crate-b", "3.0.0", "2025-01-01", vec![]),
                ],
            },
            Release {
                tag: "v2".into(),
                prev_tag: "v1".into(),
                crates: vec![make_crate("crate-a", "1.0.0", "2025-02-01", vec![10])],
            },
        ],
        vec![],
    );
    let map = build_pr_crate_map(&state);
    assert_eq!(map.len(), 1);
    assert_eq!(map[&10].len(), 1);
    assert_eq!(*map[&10].get("crate-a").unwrap(), vec!["1.0.0"]);
}

#[test]
fn filter_runtimes_ignores_case() {
    let make = |name: &str| {
        let mut rt = make_runtime(StringMap::new(), StringSet::new(), None, vec![]);
        rt.field_name = name.into();
        rt
    };
    let mut state = make_state(vec![], vec![make("AH Paseo"), make("AH Kusama"), make("BH Paseo")]);
    assert!(state.filter_runtimes("pASEO").is_ok());
    let names: Vec<&str> = state.runtimes.iter().map(|r| r.field_name.as_str()).collect();
    assert_eq!(names, vec!["AH Paseo", "BH Paseo"]);
    let error = state.filter_runtimes("polkadot").err().unwrap();
    assert_eq!(error.message(), "no runtime matching 'polkadot' (had 2 runtimes)");
    assert!(state.runtimes.is_empty());
}
