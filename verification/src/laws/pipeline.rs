//! Laws of a whole run.
use vstd::prelude::*;

use crate::pipeline::{step_of, summed_up, tried, whole_run, Action, ActionView, Course, Pipeline, StageView};
use crate::runner::{Outcome, Step, StepSummary};

verus! {

/// A whole run in which the state is saved performs each step and saves the state right after it, in the order of
/// the steps, and reports at the end.
pub proof fn law_whole_run_saves(steps: Seq<Step>, i: int)
    ensures
        whole_run(false, steps).len() == 2 * steps.len() + 1,
        0 <= i < steps.len() ==> whole_run(false, steps)[2 * i] == ActionView::Perform(steps[i]) && whole_run(false, steps)[2
            * i + 1] == ActionView::Save,
        whole_run(false, steps)[2 * steps.len() as int] == ActionView::Report,
    decreases steps.len(),
{
    if steps.len() > 0 {
        law_whole_run_saves(steps.skip(1), i - 1);
        let rest = whole_run(false, steps.skip(1));
        let all = whole_run(false, steps);
        assert(all == seq![ActionView::Perform(steps[0]), ActionView::Save] + rest);
        assert(all[2 * steps.len() as int] == rest[2 * (steps.len() - 1)]);
        if 1 <= i < steps.len() {
            assert(all[2 * i] == rest[2 * (i - 1)]);
            assert(all[2 * i + 1] == rest[2 * (i - 1) + 1]);
            assert(steps.skip(1)[i - 1] == steps[i]);
        }
    }
}

/// A whole dry run performs the steps in their order, and reports at the end.
pub proof fn law_whole_dry_run(steps: Seq<Step>, i: int)
    ensures
        whole_run(true, steps).len() == steps.len() + 1,
        0 <= i < steps.len() ==> whole_run(true, steps)[i] == ActionView::Perform(steps[i]),
        whole_run(true, steps)[steps.len() as int] == ActionView::Report,
    decreases steps.len(),
{
    if steps.len() > 0 {
        law_whole_dry_run(steps.skip(1), i - 1);
        let rest = whole_run(true, steps.skip(1));
        let all = whole_run(true, steps);
        assert(all == seq![ActionView::Perform(steps[0])] + rest);
        assert(all[steps.len() as int] == rest[steps.len() - 1]);
        if 1 <= i < steps.len() {
            assert(all[i] == rest[i - 1]);
            assert(steps.skip(1)[i - 1] == steps[i]);
        }
    }
}

/// Actions are tried up to the first that fails, and no further.
pub proof fn law_tried(successes: Seq<bool>, all: nat, k: nat)
    requires
        k < all,
        k < successes.len(),
        forall|i: int| 0 <= i < k ==> successes[i],
        !successes[k as int],
    ensures
        tried(successes, all) == k + 1,
    decreases k,
{
    if k > 0 {
        let rest = successes.skip(1);
        assert forall|i: int| 0 <= i < k - 1 implies rest[i] by {
            assert(rest[i] == successes[i + 1]);
        }
        law_tried(rest, (all - 1) as nat, (k - 1) as nat);
    }
}

/// Where all succeed, all are tried.
pub proof fn law_all_are_tried(successes: Seq<bool>, all: nat)
    requires
        all <= successes.len(),
        forall|i: int| 0 <= i < all ==> successes[i],
    ensures
        tried(successes, all) == all,
    decreases all,
{
    if all > 0 {
        let rest = successes.skip(1);
        assert forall|i: int| 0 <= i < all - 1 implies rest[i] by {
            assert(rest[i] == successes[i + 1]);
        }
        law_all_are_tried(rest, (all - 1) as nat);
    }
}

/// A run begins with no step completed.
pub proof fn law_start(dry_run: bool, steps: Seq<Step>)
    ensures
        Course::start(dry_run, steps).dry_run == dry_run,
        Course::start(dry_run, steps).steps == steps,
        Course::start(dry_run, steps).done == 0,
        Course::start(dry_run, steps).stage is Ready,
{
}

/// What is done next: a completed step is saved before anything else, unless the run is dry; a failure ends the
/// run; and only a run whose steps were all completed reports.
pub proof fn law_next(course: Course)
    ensures
        course.next() is Save <==> course.stage is Unsaved,
        course.next() is Report <==> course.stage is Ready && course.done >= course.steps.len(),
        course.next() is Stop <==> course.stage is Failed || course.stage is Reported,
        course.stage is Ready && course.done < course.steps.len() ==> course.next() == ActionView::Perform(
            course.steps[course.done as int],
        ),
        course.next() is Perform ==> course.after(true).next() is Save || course.dry_run,
        course.next() is Perform && course.dry_run ==> !(course.after(true).next() is Save),
        course.next() is Perform ==> course.after(true).done == course.done + 1,
        course.next() is Save ==> course.after(true) == (Course { stage: StageView::Ready, ..course }),
        course.next() is Perform || course.next() is Save ==> course.after(false).next() is Stop && course.after(false).done
            == course.done,
        course.next() is Report ==> course.after(true).next() is Stop,
        course.next() is Stop ==> course.after(true) == course && course.after(false) == course,
{
}

/// What is known of a run: its steps, how many of them were completed, and how it stands.
pub proof fn law_pipeline_view<E>(pipeline: Pipeline<E>)
    ensures
        pipeline@.dry_run == pipeline.runner.dry_run,
        pipeline@.steps == pipeline.steps@,
        pipeline@.done == pipeline.summaries@.len(),
        pipeline@.stage is Ready <==> pipeline.stage is Ready,
        pipeline@.stage is Unsaved <==> pipeline.stage is Unsaved,
        pipeline@.stage is Reported <==> pipeline.stage is Reported,
        pipeline@.stage is Failed <==> pipeline.stage is Failed,
        pipeline.valid() ==> pipeline.summaries@.len() <= pipeline.steps@.len(),
        pipeline.valid() ==> forall|i: int|
            0 <= i < pipeline.summaries@.len() ==> match #[trigger] pipeline.summaries@[i] {
                StepSummary::Discover { .. } => pipeline.steps@[i] == Step::Discover,
                StepSummary::Downstream { .. } => pipeline.steps@[i] == Step::Downstream,
                StepSummary::Onchain { .. } => pipeline.steps@[i] == Step::Onchain,
                StepSummary::Annotate { .. } => pipeline.steps@[i] == Step::Annotate,
            },
{
    if pipeline.valid() {
        assert forall|i: int| 0 <= i < pipeline.summaries@.len() implies match #[trigger] pipeline.summaries@[i] {
            StepSummary::Discover { .. } => pipeline.steps@[i] == Step::Discover,
            StepSummary::Downstream { .. } => pipeline.steps@[i] == Step::Downstream,
            StepSummary::Onchain { .. } => pipeline.steps@[i] == Step::Onchain,
            StepSummary::Annotate { .. } => pipeline.steps@[i] == Step::Annotate,
        } by {
            assert(summed_up(pipeline.summaries@[i]) == pipeline.steps@[i]);
        }
    }
}

/// An action is known by what is to be done.
pub proof fn law_action_view<'a>(action: Action<'a>, step: Step)
    ensures
        action@ is Save <==> action is Save,
        action@ is Report <==> action is Report,
        action@ is Stop <==> action is Stop,
        action@ == ActionView::Perform(step) <==> action == Action::Perform(step),
{
}

/// Each outcome belongs to the step whose work it is.
pub proof fn law_step_of(outcome: Outcome)
    ensures
        outcome is Discovered <==> step_of(outcome) == Step::Discover,
        outcome is Examined <==> step_of(outcome) == Step::Downstream,
        outcome is Observed <==> step_of(outcome) == Step::Onchain,
        outcome is Annotated <==> step_of(outcome) == Step::Annotate,
{
}

} // verus!
