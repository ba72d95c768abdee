use std::collections::HashSet;

use tracker::collections::{StringMap, StringSet};
use tracker::pipeline::{Action, Pipeline};
use tracker::plan::{plan_annotations, AnnotationStats, PrAnnotation};
use tracker::runner::{steps_to_run, CrateUpdate, CrateUpdates, Outcome, Runner, Step, StepSummary};
use tracker::state::{CrateRelease, DownstreamInfo, Project, Release, Runtime, State, Upgrade};

fn crate_release(name: &str, version: &str, prs: Vec<u64>) -> CrateRelease {
    CrateRelease { name: name.into(), version: version.into(), published: "2025-01-01".into(), prs }
}

fn release(tag: &str, crates: Vec<CrateRelease>) -> Release {
    Release { tag: tag.into(), prev_tag: "".into(), crates }
}

fn runtime(field_name: &str, locked: &[(&str, &str)], code: Option<u64>, onchain: &[u64]) -> Runtime {
    let mut versions = StringMap::new();
    let mut deps = StringSet::new();
    for (name, version) in locked {
        versions.insert(name.to_string(), version.to_string());
        deps.insert(name.to_string());
    }
    Runtime {
        runtime: "Asset Hub".into(),
        short: "AH".into(),
        repo: "org/repo".into(),
        branch: "main".into(),
        cargo_lock_path: "Cargo.lock".into(),
        cargo_toml_path: "Cargo.toml".into(),
        spec_version_path: "lib.rs".into(),
        network: "net".into(),
        rpc: "https://rpc".into(),
        ws: "wss://ws".into(),
        field_name: field_name.into(),
        block_explorer_url: "https://explorer".into(),
        last_seen_commit: None,
        upgrades: onchain
            .iter()
            .map(|spec| Upgrade {
                spec_version: *spec,
                block_number: 1,
                block_hash: "0x00".into(),
                date: "2025-01-01".into(),
                block_url: "https://explorer/1".into(),
            })
            .collect(),
        downstream: DownstreamInfo { versions, deps, spec_version: code },
    }
}

fn state(last: Option<&str>, runtimes: Vec<Runtime>, releases: Vec<Release>) -> State {
    State {
        project: Project { org: "paritytech".into(), number: 274 },
        runtimes,
        last_processed_tag: last.map(String::from),
        releases,
    }
}

fn sample(last: Option<&str>) -> State {
    state(
        last,
        vec![
            runtime("AH Paseo", &[("a", "2.0.0"), ("b", "1.0.0")], Some(20), &[10, 15]),
            runtime("AH Kusama", &[("c", "1.0.0")], None, &[]),
        ],
        vec![
            release("stable2409", vec![crate_release("a", "2.0.0", vec![1, 2]), crate_release("b", "1.0.0", vec![3])]),
            release("stable2407", vec![crate_release("a", "1.0.0", vec![2, 4]), crate_release("c", "1.0.0", vec![5])]),
        ],
    )
}

fn runner() -> Runner {
    Runner::new(sample(Some("stable2407")), false, false)
}

fn updates(pairs: &[(&str, &str)]) -> CrateUpdates {
    let mut set = CrateUpdates::new();
    for (name, version) in pairs {
        set.insert(CrateUpdate { name: name.to_string(), version: version.to_string() });
    }
    set
}

fn sorted(prs: HashSet<u64>) -> Vec<u64> {
    let mut list: Vec<u64> = prs.into_iter().collect();
    list.sort();
    list
}

fn dirty(runner: &Runner) -> Vec<u64> {
    sorted(runner.dirty_prs.clone().unwrap())
}

#[test]
fn all_steps_run_in_pipeline_order() {
    assert_eq!(steps_to_run(None), vec![Step::Discover, Step::Onchain, Step::Downstream, Step::Annotate]);
}

#[test]
fn a_single_step_runs_alone_unless_it_annotates() {
    assert_eq!(steps_to_run(Some(Step::Discover)), vec![Step::Discover]);
    assert_eq!(steps_to_run(Some(Step::Onchain)), vec![Step::Onchain]);
    assert_eq!(steps_to_run(Some(Step::Downstream)), vec![Step::Downstream]);
    assert_eq!(steps_to_run(Some(Step::Annotate)), vec![Step::Downstream, Step::Annotate]);
}

#[test]
fn blank_state_has_all_prs_annotated() {
    assert!(Runner::new(sample(None), false, false).dirty_prs.is_none());
    assert_eq!(runner().dirty_prs, Some(HashSet::new()));
}

#[test]
fn crate_updates_form_a_set() {
    let set = updates(&[("a", "1.0.0"), ("a", "2.0.0"), ("a", "1.0.0"), ("b", "1.0.0")]);
    assert_eq!(set.len(), 3);
    assert!(set.contains(&"a".to_string(), &"2.0.0".to_string()));
    assert!(!set.contains(&"b".to_string(), &"2.0.0".to_string()));
    let mut names = StringSet::new();
    names.insert("a".into());
    names.insert("z".into());
    assert_eq!(set.count_in(&names), 2);
}

#[test]
fn prs_from_tags_collects_whole_releases() {
    let runner = runner();
    assert_eq!(sorted(runner.prs_from_tags(&vec!["stable2409".to_string()])), vec![1, 2, 3]);
    assert_eq!(sorted(runner.prs_from_tags(&vec!["stable2409".to_string(), "stable2407".to_string()])), vec![1, 2, 3, 4, 5]);
    assert_eq!(sorted(runner.prs_from_tags(&vec!["stable".to_string()])), Vec::<u64>::new());
    assert_eq!(sorted(runner.prs_from_tags(&vec![])), Vec::<u64>::new());
}

#[test]
fn prs_from_crate_updates_wants_name_and_version() {
    let runner = runner();
    assert_eq!(sorted(runner.prs_from_crate_updates(&updates(&[("a", "1.0.0")]))), vec![2, 4]);
    assert_eq!(sorted(runner.prs_from_crate_updates(&updates(&[("a", "2.0.0"), ("c", "1.0.0")]))), vec![1, 2, 5]);
    assert_eq!(sorted(runner.prs_from_crate_updates(&updates(&[("b", "2.0.0")]))), Vec::<u64>::new());
}

#[test]
fn prs_from_runtimes_follows_dependencies() {
    let runner = runner();
    assert_eq!(sorted(runner.prs_from_runtimes(&vec![0])), vec![1, 2, 3, 4]);
    assert_eq!(sorted(runner.prs_from_runtimes(&vec![1])), vec![5]);
    assert_eq!(sorted(runner.prs_from_runtimes(&vec![0, 1, 0])), vec![1, 2, 3, 4, 5]);
    assert_eq!(sorted(runner.prs_from_runtimes(&vec![])), Vec::<u64>::new());
}

#[test]
fn add_dirty_extends_the_set() {
    let mut runner = runner();
    runner.add_dirty([1, 2].into_iter().collect());
    runner.add_dirty([2, 3].into_iter().collect());
    assert_eq!(dirty(&runner), vec![1, 2, 3]);
    let mut all = Runner::new(sample(None), false, false);
    all.add_dirty([1].into_iter().collect());
    assert!(all.dirty_prs.is_none());
}

#[test]
fn dry_run_saves_no_state() {
    assert!(runner().save_state().is_some());
    assert!(Runner::new(sample(None), true, false).save_state().is_none());
}

#[test]
fn discovered_releases_make_their_prs_dirty() {
    let mut runner = runner();
    let summary = runner.run_step(Outcome::Discovered { new_tags: vec!["stable2409".into()] });
    assert_eq!(dirty(&runner), vec![1, 2, 3]);
    assert!(matches!(summary, StepSummary::Discover { new_tags } if new_tags == vec!["stable2409"]));
    runner.run_step(Outcome::Discovered { new_tags: vec![] });
    assert_eq!(dirty(&runner), vec![1, 2, 3]);
}

#[test]
fn crate_updates_make_their_prs_dirty() {
    let mut runner = runner();
    let crate_updates = updates(&[("a", "1.0.0"), ("a", "9.0.0"), ("c", "1.0.0"), ("z", "1.0.0")]);
    let summary = runner.run_step(Outcome::Examined { crate_updates });
    assert_eq!(dirty(&runner), vec![2, 4, 5]);
    match summary {
        StepSummary::Downstream { runtimes } => {
            let found: Vec<(Option<u64>, usize)> = runtimes.iter().map(|r| (r.current_spec, r.crate_updates)).collect();
            assert_eq!(found, vec![(Some(15), 2), (None, 1)]);
        }
        _ => panic!("another step is summed up"),
    }
}

#[test]
fn upgrades_make_the_prs_of_dependencies_dirty() {
    let mut runner = runner();
    let previous = runner.previous_specs();
    assert_eq!(previous, vec![Some(15), None]);
    let upgraded = runtime("AH Kusama", &[("c", "1.0.0")], None, &[33]);
    runner.state.runtimes[1] = upgraded;
    let summary = runner.run_step(Outcome::Observed { previous, upgraded: vec![1] });
    assert_eq!(dirty(&runner), vec![5]);
    match summary {
        StepSummary::Onchain { runtimes } => {
            let found: Vec<(Option<u64>, u64)> = runtimes.iter().map(|r| (r.previous, r.current)).collect();
            assert_eq!(found, vec![(Some(15), 15), (None, 33)]);
        }
        _ => panic!("another step is summed up"),
    }
}

#[test]
fn a_runtime_without_upgrades_is_at_zero() {
    let mut runner = runner();
    let previous = runner.previous_specs();
    match runner.run_step(Outcome::Observed { previous, upgraded: vec![] }) {
        StepSummary::Onchain { runtimes } => assert_eq!(runtimes[1].current, 0),
        _ => panic!("another step is summed up"),
    }
    assert_eq!(dirty(&runner), Vec::<u64>::new());
}

#[test]
fn annotations_are_summed_up() {
    let mut runner = runner();
    let details = vec![PrAnnotation { number: 1, statuses: vec!["v15".into(), "".into()] }];
    let summary = runner.run_step(Outcome::Annotated { stats: AnnotationStats { per_runtime: vec![1, 0], details } });
    assert_eq!(dirty(&runner), Vec::<u64>::new());
    match summary {
        StepSummary::Annotate { runtimes, details } => {
            let found: Vec<(Option<u64>, usize)> = runtimes.iter().map(|r| (r.version, r.prs)).collect();
            assert_eq!(found, vec![(Some(20), 1), (None, 0)]);
            assert_eq!(details.len(), 1);
            assert_eq!(details[0].number, 1);
        }
        _ => panic!("another step is summed up"),
    }
}

#[test]
fn what_a_step_found_is_planned() {
    let mut runner = runner();
    runner.run_step(Outcome::Discovered { new_tags: vec!["stable2409".into()] });
    runner.run_step(Outcome::Examined { crate_updates: updates(&[("c", "1.0.0")]) });
    let plan = plan_annotations(&runner.state, runner.dirty_prs.as_ref());
    let numbers: Vec<u64> = plan.iter().map(|p| p.number).collect();
    assert_eq!(numbers, vec![1, 2, 3, 5]);
}

#[test]
fn pipeline_saves_after_each_step_and_reports_at_the_end() {
    let mut pipeline: Pipeline<String> = Pipeline::new(runner(), steps_to_run(Some(Step::Annotate)));
    assert!(matches!(pipeline.next_action(), Action::Perform(Step::Downstream)));
    pipeline.runner.state.last_processed_tag = Some("stable2409".into());
    pipeline.complete_step(Outcome::Examined { crate_updates: updates(&[("a", "2.0.0")]) });
    assert_eq!(dirty(&pipeline.runner), vec![1, 2]);
    match pipeline.next_action() {
        Action::Save(state) => assert_eq!(state.last_processed_tag.as_deref(), Some("stable2409")),
        _ => panic!("the state is not saved"),
    }
    pipeline.saved();
    assert!(matches!(pipeline.next_action(), Action::Perform(Step::Annotate)));
    let stats = AnnotationStats { per_runtime: vec![2, 0], details: vec![] };
    pipeline.complete_step(Outcome::Annotated { stats });
    assert!(matches!(pipeline.next_action(), Action::Save(_)));
    pipeline.saved();
    match pipeline.next_action() {
        Action::Report(text) => {
            assert_eq!(text, pipeline.runner.print_summary(&pipeline.summaries));
            assert!(text.find("Runtime Discovery").unwrap() < text.find("PRs to Annotate").unwrap());
        }
        _ => panic!("there is no report"),
    }
    pipeline.reported();
    assert!(matches!(pipeline.next_action(), Action::Stop));
    assert_eq!(pipeline.finish(), Ok(()));
}

#[test]
fn pipeline_saves_nothing_in_a_dry_run() {
    let runner = Runner::new(sample(None), true, false);
    let mut pipeline: Pipeline<String> = Pipeline::new(runner, steps_to_run(Some(Step::Discover)));
    pipeline.complete_step(Outcome::Discovered { new_tags: vec![] });
    assert!(matches!(pipeline.next_action(), Action::Report(_)));
}

#[test]
fn pipeline_stops_when_a_step_fails() {
    let mut pipeline: Pipeline<String> = Pipeline::new(runner(), steps_to_run(None));
    pipeline.complete_step(Outcome::Discovered { new_tags: vec![] });
    pipeline.saved();
    assert!(matches!(pipeline.next_action(), Action::Perform(Step::Onchain)));
    pipeline.fail("no connection".into());
    assert!(matches!(pipeline.next_action(), Action::Stop));
    assert_eq!(pipeline.summaries.len(), 1);
    assert_eq!(pipeline.finish(), Err("no connection".to_string()));
}

#[test]
fn pipeline_stops_when_saving_fails() {
    let mut pipeline: Pipeline<String> = Pipeline::new(runner(), steps_to_run(Some(Step::Discover)));
    pipeline.complete_step(Outcome::Discovered { new_tags: vec![] });
    assert!(matches!(pipeline.next_action(), Action::Save(_)));
    pipeline.fail("disk full".into());
    assert!(matches!(pipeline.next_action(), Action::Stop));
    assert_eq!(pipeline.finish(), Err("disk full".to_string()));
}
