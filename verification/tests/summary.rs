use tracker::collections::{StringMap, StringSet};
use tracker::plan::PrAnnotation;
use tracker::runner::{AnnotateSummary, DownstreamSummary, OnchainSummary, Runner, StepSummary};
use tracker::state::{CrateRelease, DownstreamInfo, Project, Release, Runtime, State, Upgrade};

fn crate_release(name: &str, version: &str, prs: Vec<u64>) -> CrateRelease {
    CrateRelease { name: name.into(), version: version.into(), published: "2025-01-01".into(), prs }
}

fn release(tag: &str, crates: Vec<CrateRelease>) -> Release {
    Release { tag: tag.into(), prev_tag: "".into(), crates }
}

fn runtime(field_name: &str, locked: &[(&str, &str)], code: Option<u64>, onchain: &[u64]) -> Runtime {
    let mut versions = StringMap::new();
    let mut deps = StringSet::new();
    for (name, version) in locked {
        versions.insert(name.to_string(), version.to_string());
        deps.insert(name.to_string());
    }
    Runtime {
        runtime: "Asset Hub".into(),
        short: "AH".into(),
        repo: "org/repo".into(),
        branch: "main".into(),
        cargo_lock_path: "Cargo.lock".into(),
        cargo_toml_path: "Cargo.toml".into(),
        spec_version_path: "lib.rs".into(),
        network: "net".into(),
        rpc: "https://rpc".into(),
        ws: "wss://ws".into(),
        field_name: field_name.into(),
        block_explorer_url: "https://explorer".into(),
        last_seen_commit: None,
        upgrades: onchain
            .iter()
            .map(|spec| Upgrade {
                spec_version: *spec,
                block_number: 1,
                block_hash: "0x00".into(),
                date: "2025-01-01".into(),
                block_url: "https://explorer/1".into(),
            })
            .collect(),
        downstream: DownstreamInfo { versions, deps, spec_version: code },
    }
}

fn state(last: Option<&str>, runtimes: Vec<Runtime>, releases: Vec<Release>) -> State {
    State {
        project: Project { org: "paritytech".into(), number: 274 },
        runtimes,
        last_processed_tag: last.map(String::from),
        releases,
    }
}

fn runner(verbose: bool) -> Runner {
    let runtimes = vec![
        runtime("AH Paseo", &[], Some(2001000), &[2000006]),
        runtime("AH Kusama", &[], Some(2001001), &[2001000]),
        runtime("AH Polkadot", &[], Some(2001001), &[2001001]),
    ];
    let releases = vec![release("polkadot-stable2512-2", vec![crate_release("a", "1.0.0", vec![1])])];
    Runner::new(state(Some("polkadot-stable2512-2"), runtimes, releases), false, verbose)
}

fn annotate(prs: &[usize], details: Vec<PrAnnotation>) -> StepSummary {
    let versions = [Some(2001000), Some(2001001), Some(2001001)];
    StepSummary::Annotate {
        runtimes: prs.iter().zip(versions).map(|(n, v)| AnnotateSummary { version: v, prs: *n }).collect(),
        details,
    }
}

fn annotation(number: u64, statuses: &[&str]) -> PrAnnotation {
    PrAnnotation { number, statuses: statuses.iter().map(|s| s.to_string()).collect() }
}

fn link(number: u64) -> String {
    format!("\x1b]8;;https://github.com/paritytech/polkadot-sdk/pull/{number}\x1b\\#{number}\x1b]8;;\x1b\\")
}

#[test]
fn no_steps_no_text() {
    assert_eq!(runner(false).print_summary(&vec![]), "");
}

#[test]
fn discovery_without_new_releases() {
    let text = runner(false).print_summary(&vec![StepSummary::Discover { new_tags: vec![] }]);
    assert_eq!(
        text,
        "
┌───────────────────┬───────────────────────┐
│ Release Discovery ┆                       │
╞═══════════════════╪═══════════════════════╡
│ Latest known      ┆ polkadot-stable2512-2 │
│ New releases      ┆ none                  │
└───────────────────┴───────────────────────┘
"
    );
}

#[test]
fn discovery_lists_new_releases() {
    let mut runner = runner(false);
    runner.state.last_processed_tag = None;
    let new_tags = vec!["stable2407".to_string(), "stable2409".to_string()];
    assert_eq!(
        runner.print_summary(&vec![StepSummary::Discover { new_tags }]),
        "
┌───────────────────┬────────────┐
│ Release Discovery ┆            │
╞═══════════════════╪════════════╡
│ Latest known      ┆ -          │
│ New releases      ┆ stable2407 │
│                   ┆ stable2409 │
└───────────────────┴────────────┘
"
    );
}

#[test]
fn downstream_shows_updates_of_new_code() {
    let runtimes = vec![
        DownstreamSummary { current_spec: Some(2000006), crate_updates: 126 },
        DownstreamSummary { current_spec: Some(2001000), crate_updates: 118 },
        DownstreamSummary { current_spec: Some(2001001), crate_updates: 5 },
    ];
    assert_eq!(
        runner(false).print_summary(&vec![StepSummary::Downstream { runtimes }]),
        "
┌───────────────────┬──────────┬───────────┬───────────────┐
│ Runtime Discovery ┆ Current  ┆ Code Spec ┆ Crate Updates │
╞═══════════════════╪══════════╪═══════════╪═══════════════╡
│ AH Paseo          ┆ v2000006 ┆ v2001000  ┆ 126           │
│ AH Kusama         ┆ v2001000 ┆ v2001001  ┆ 118           │
│ AH Polkadot       ┆ v2001001 ┆ v2001001  ┆ -             │
└───────────────────┴──────────┴───────────┴───────────────┘
"
    );
}

#[test]
fn downstream_shows_unknown_versions() {
    let mut runner = runner(false);
    runner.state.runtimes[0].downstream.spec_version = None;
    let runtimes = vec![
        DownstreamSummary { current_spec: None, crate_updates: 1 },
        DownstreamSummary { current_spec: None, crate_updates: 2 },
    ];
    assert_eq!(
        runner.print_summary(&vec![StepSummary::Downstream { runtimes }]),
        "
┌───────────────────┬─────────┬───────────┬───────────────┐
│ Runtime Discovery ┆ Current ┆ Code Spec ┆ Crate Updates │
╞═══════════════════╪═════════╪═══════════╪═══════════════╡
│ AH Paseo          ┆ -       ┆ -         ┆ -             │
│ AH Kusama         ┆ -       ┆ v2001001  ┆ 2             │
└───────────────────┴─────────┴───────────┴───────────────┘
"
    );
}

#[test]
fn onchain_shows_pending_code() {
    let runtimes = vec![
        OnchainSummary { previous: Some(2000006), current: 2000006 },
        OnchainSummary { previous: None, current: 2001000 },
        OnchainSummary { previous: Some(2000007), current: 2001001 },
    ];
    assert_eq!(
        runner(false).print_summary(&vec![StepSummary::Onchain { runtimes }]),
        "
┌───────────────────┬──────────┬──────────┬──────────┐
│ Onchain Discovery ┆ Previous ┆ Current  ┆ Pending  │
╞═══════════════════╪══════════╪══════════╪══════════╡
│ AH Paseo          ┆ v2000006 ┆ v2000006 ┆ v2001000 │
│ AH Kusama         ┆ -        ┆ v2001000 ┆ v2001001 │
│ AH Polkadot       ┆ v2000007 ┆ v2001001 ┆ -        │
└───────────────────┴──────────┴──────────┴──────────┘
"
    );
}

const ANNOTATE_TABLE: &str = "
┌─────────────────┬──────────┬─────┐
│ PRs to Annotate ┆ Version  ┆ PRs │
╞═════════════════╪══════════╪═════╡
│ AH Paseo        ┆ v2001000 ┆ 420 │
│ AH Kusama       ┆ v2001001 ┆ 380 │
│ AH Polkadot     ┆ v2001001 ┆ 512 │
└─────────────────┴──────────┴─────┘
";

#[test]
fn annotations_hint_at_the_details() {
    let summaries = vec![annotate(&[420, 380, 512], vec![])];
    assert_eq!(
        runner(false).print_summary(&summaries),
        format!("{ANNOTATE_TABLE}\nRun with --verbose to display all annotation details.\n")
    );
    assert_eq!(runner(true).print_summary(&summaries), ANNOTATE_TABLE);
}

#[test]
fn annotations_are_listed_with_links() {
    let details = vec![
        annotation(9002, &["pending v2001000", "pending v2001001", "v2001001"]),
        annotation(9063, &["pending v2001000 (1/2 crates)", "", "v2001001 (3/4 crates)"]),
        annotation(9279, &["", "", ""]),
        annotation(9300, &[]),
    ];
    let lines = [
        format!("  {} AH Paseo: pending v2001000, AH Kusama: pending v2001001, AH Polkadot: v2001001", link(9002)),
        format!("  {} AH Paseo: pending v2001000 (1/2 crates), AH Polkadot: v2001001 (3/4 crates)", link(9063)),
        format!("  {}", link(9279)),
        format!("  {}", link(9300)),
    ];
    assert_eq!(
        runner(true).print_summary(&vec![annotate(&[420, 380, 512], details)]),
        format!("{ANNOTATE_TABLE}\n{}\n", lines.join("\n"))
    );
}

#[test]
fn steps_are_reported_in_order() {
    let first = runner(true).print_summary(&vec![StepSummary::Discover { new_tags: vec![] }]);
    let both = vec![StepSummary::Discover { new_tags: vec![] }, annotate(&[420, 380, 512], vec![])];
    assert_eq!(runner(true).print_summary(&both), format!("{first}{ANNOTATE_TABLE}"));
}
