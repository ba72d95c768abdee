//! A whole run: which action comes next, from the first step to the report.
use vstd::prelude::*;

use crate::runner::{dirty_view, extended, fits, found_by, reports, Outcome, Runner, Step, StepSummary};
use crate::state::State;
use crate::summary::run_text;

verus! {

/// The step that an outcome belongs to.
pub open spec fn step_of(outcome: Outcome) -> Step {
    match outcome {
        Outcome::Discovered { .. } => Step::Discover,
        Outcome::Examined { .. } => Step::Downstream,
        Outcome::Observed { .. } => Step::Onchain,
        Outcome::Annotated { .. } => Step::Annotate,
    }
}

/// The step that a summary sums up.
pub open spec fn summed_up(summary: StepSummary) -> Step {
    match summary {
        StepSummary::Discover { .. } => Step::Discover,
        StepSummary::Downstream { .. } => Step::Downstream,
        StepSummary::Onchain { .. } => Step::Onchain,
        StepSummary::Annotate { .. } => Step::Annotate,
    }
}

/// How a run stands.
pub enum Stage<E> {
    /// Ready for the next step, or for the report.
    Ready,
    /// A step was completed, and the state was not saved since.
    Unsaved,
    /// The report was printed.
    Reported,
    /// A step, or saving the state, has failed.
    Failed(E),
}

/// How a run stands, whatever the error is.
pub enum StageView {
    Ready,
    Unsaved,
    Reported,
    Failed,
}

/// What to do next.
pub enum Action<'a> {
    /// Perform a step.
    Perform(Step),
    /// Save the state.
    Save(&'a State),
    /// Print the report.
    Report(String),
    /// Nothing: the run is over.
    Stop,
}

/// What to do next.
pub enum ActionView {
    Perform(Step),
    Save,
    Report,
    Stop,
}

impl<'a> View for Action<'a> {
    type V = ActionView;

    open spec fn view(&self) -> ActionView {
        match self {
            Action::Perform(step) => ActionView::Perform(*step),
            Action::Save(_) => ActionView::Save,
            Action::Report(_) => ActionView::Report,
            Action::Stop => ActionView::Stop,
        }
    }
}

/// The course of a run.
pub struct Course {
    /// Whether the state is never saved.
    pub dry_run: bool,
    /// The steps to run.
    pub steps: Seq<Step>,
    /// How many of them were completed.
    pub done: nat,
    /// How the run stands.
    pub stage: StageView,
}

impl Course {
    /// The beginning of a run.
    pub open spec fn start(dry_run: bool, steps: Seq<Step>) -> Course {
        Course { dry_run, steps, done: 0, stage: StageView::Ready }
    }

    /// What to do next. What a step brought is saved before anything else is done.
    pub open spec fn next(self) -> ActionView {
        match self.stage {
            StageView::Ready => if self.done < self.steps.len() {
                ActionView::Perform(self.steps[self.done as int])
            } else {
                ActionView::Report
            },
            StageView::Unsaved => ActionView::Save,
            StageView::Reported => ActionView::Stop,
            StageView::Failed => ActionView::Stop,
        }
    }

    /// How the run goes on when the next action has succeeded, or has failed. Printing does not fail.
    pub open spec fn after(self, success: bool) -> Course {
        match self.next() {
            ActionView::Perform(_) => if !success {
                Course { stage: StageView::Failed, ..self }
            } else if self.dry_run {
                Course { done: self.done + 1, ..self }
            } else {
                Course { done: self.done + 1, stage: StageView::Unsaved, ..self }
            },
            ActionView::Save => if success {
                Course { stage: StageView::Ready, ..self }
            } else {
                Course { stage: StageView::Failed, ..self }
            },
            ActionView::Report => Course { stage: StageView::Reported, ..self },
            ActionView::Stop => self,
        }
    }

    /// What is done in a run, given which of its actions succeed.
    pub open spec fn actions(self, successes: Seq<bool>) -> Seq<ActionView>
        decreases successes.len(),
    {
        if successes.len() == 0 || self.next() is Stop {
            Seq::empty()
        } else {
            seq![self.next()] + self.after(successes[0]).actions(successes.skip(1))
        }
    }

    /// How a run stands at last, given which of its actions succeed.
    pub open spec fn end(self, successes: Seq<bool>) -> Course
        decreases successes.len(),
    {
        if successes.len() == 0 {
            self
        } else {
            self.after(successes[0]).end(successes.skip(1))
        }
    }
}

/// What a run does when nothing fails: it performs the steps in their order, saves the state after each unless
/// it is a dry run, and reports once at the end.
pub open spec fn whole_run(dry_run: bool, steps: Seq<Step>) -> Seq<ActionView>
    decreases steps.len(),
{
    if steps.len() == 0 {
        seq![ActionView::Report]
    } else if dry_run {
        seq![ActionView::Perform(steps[0])] + whole_run(dry_run, steps.skip(1))
    } else {
        seq![ActionView::Perform(steps[0]), ActionView::Save] + whole_run(dry_run, steps.skip(1))
    }
}

/// The number of actions that are tried, of so many: those up to the first that fails.
pub open spec fn tried(successes: Seq<bool>, all: nat) -> nat
    decreases successes.len(),
{
    if successes.len() == 0 || all == 0 {
        0
    } else if !successes[0] {
        1
    } else {
        1 + tried(successes.skip(1), (all - 1) as nat)
    }
}

/// What is left to do of a run.
spec fn left(course: Course) -> Seq<ActionView> {
    let rest = whole_run(course.dry_run, course.steps.skip(course.done as int));
    match course.stage {
        StageView::Ready => rest,
        StageView::Unsaved => seq![ActionView::Save] + rest,
        _ => Seq::empty(),
    }
}

proof fn lemma_tried(successes: Seq<bool>, all: nat)
    ensures
        tried(successes, all) <= all,
    decreases successes.len(),
{
    if successes.len() > 0 && all > 0 {
        lemma_tried(successes.skip(1), (all - 1) as nat);
    }
}

proof fn lemma_actions(course: Course, successes: Seq<bool>)
    requires
        course.done <= course.steps.len(),
    ensures
        course.actions(successes) == left(course).take(tried(successes, left(course).len()) as int),
    decreases successes.len(),
{
    let all = left(course);
    let n = tried(successes, all.len());
    lemma_tried(successes, all.len());
    if successes.len() == 0 || all.len() == 0 {
        assert(all.take(n as int) =~= Seq::empty());
    } else {
        let next = course.after(successes[0]);
        let rest = successes.skip(1);
        let steps = course.steps.skip(course.done as int);
        if course.next() is Perform {
            assert(steps[0] == course.steps[course.done as int]);
            assert(steps.skip(1) =~= course.steps.skip((course.done + 1) as int));
        }
        assert(all.len() > 0 && all[0] == course.next());
        lemma_actions(next, rest);
        lemma_tried(rest, left(next).len());
        if successes[0] || course.next() is Report {
            assert(left(next) =~= all.skip(1));
        } else {
            assert(left(next) =~= Seq::empty());
        }
        assert(course.actions(successes) =~= all.take(n as int));
    }
}

/// What a run does, whatever fails: the actions of a whole run in their order, up to the first that fails.
/// So the steps take effect in order, the state is saved once after each completed step and before anything
/// else, and after a failure no step is performed, nothing is saved and nothing is reported.
pub proof fn law_run_stops_at_the_first_failure(dry_run: bool, steps: Seq<Step>, successes: Seq<bool>)
    ensures
        Course::start(dry_run, steps).actions(successes) == whole_run(dry_run, steps).take(
            tried(successes, whole_run(dry_run, steps).len()) as int,
        ),
{
    let course = Course::start(dry_run, steps);
    assert(steps.skip(0) =~= steps);
    lemma_actions(course, successes);
}

proof fn lemma_end(course: Course, successes: Seq<bool>)
    requires
        course.done <= course.steps.len(),
        successes.len() == left(course).len(),
        forall|i: int| 0 <= i < successes.len() ==> successes[i],
        !(course.stage is Failed),
    ensures
        course.end(successes).stage is Reported,
    decreases successes.len(),
{
    if successes.len() > 0 {
        let next = course.after(successes[0]);
        let rest = successes.skip(1);
        let steps = course.steps.skip(course.done as int);
        if course.next() is Perform {
            assert(steps.skip(1) =~= course.steps.skip((course.done + 1) as int));
        }
        assert(left(next) =~= left(course).skip(1));
        lemma_end(next, rest);
    } else {
        assert(!(course.stage is Unsaved));
        if course.stage is Ready {
            assert(whole_run(course.dry_run, course.steps.skip(course.done as int)).len() > 0);
        }
    }
}

/// A run in which nothing fails does the whole run, and ends with its report.
pub proof fn law_run_without_failure(dry_run: bool, steps: Seq<Step>, successes: Seq<bool>)
    requires
        successes.len() == whole_run(dry_run, steps).len(),
        forall|i: int| 0 <= i < successes.len() ==> successes[i],
    ensures
        Course::start(dry_run, steps).actions(successes) == whole_run(dry_run, steps),
        Course::start(dry_run, steps).end(successes).stage is Reported,
{
    let course = Course::start(dry_run, steps);
    assert(steps.skip(0) =~= steps);
    lemma_actions(course, successes);
    lemma_all_tried(successes, successes.len());
    assert(left(course).take(successes.len() as int) =~= left(course));
    lemma_end(course, successes);
}

proof fn lemma_all_tried(successes: Seq<bool>, all: nat)
    requires
        successes.len() == all,
        forall|i: int| 0 <= i < successes.len() ==> successes[i],
    ensures
        tried(successes, all) == all,
    decreases all,
{
    if all > 0 {
        lemma_all_tried(successes.skip(1), (all - 1) as nat);
    }
}

/// A run of some steps.
pub struct Pipeline<E> {
    /// The state, and the pull requests that need annotation.
    pub runner: Runner,
    /// The steps to run.
    pub steps: Vec<Step>,
    /// The summaries of the steps that were completed.
    pub summaries: Vec<StepSummary>,
    /// How the run stands.
    pub stage: Stage<E>,
}

impl<E> View for Pipeline<E> {
    type V = Course;

    open spec fn view(&self) -> Course {
        Course {
            dry_run: self.runner.dry_run,
            steps: self.steps@,
            done: self.summaries@.len(),
            stage: match self.stage {
                Stage::Ready => StageView::Ready,
                Stage::Unsaved => StageView::Unsaved,
                Stage::Reported => StageView::Reported,
                Stage::Failed(_) => StageView::Failed,
            },
        }
    }
}

impl<E> Pipeline<E> {
    /// Whether the summaries are those of the first steps, in order.
    pub open spec fn valid(self) -> bool {
        &&& self.summaries@.len() <= self.steps@.len()
        &&& forall|i: int| 0 <= i < self.summaries@.len() ==> summed_up(#[trigger] self.summaries@[i]) == self.steps@[i]
    }

    /// Begins to run some steps.
    pub fn new(runner: Runner, steps: Vec<Step>) -> (pipeline: Self)
        ensures
            pipeline.runner == runner,
            pipeline@ == Course::start(runner.dry_run, steps@),
            pipeline.valid(),
    {
        Pipeline { runner, steps, summaries: Vec::new(), stage: Stage::Ready }
    }

    /// What to do next, and with what: the state to save is the one that the last step left, and the report
    /// sums up all steps.
    pub fn next_action(&self) -> (action: Action<'_>)
        requires
            self.valid(),
        ensures
            action@ == self@.next(),
            action matches Action::Save(state) ==> *state == self.runner.state,
            action matches Action::Report(text) ==> text@ == run_text(
                self.runner.state@,
                self.runner.verbose,
                self.summaries@,
            ),
    {
        match &self.stage {
            Stage::Ready => if self.summaries.len() < self.steps.len() {
                Action::Perform(self.steps[self.summaries.len()])
            } else {
                Action::Report(self.runner.print_summary(&self.summaries))
            },
            Stage::Unsaved => Action::Save(&self.runner.state),
            Stage::Reported => Action::Stop,
            Stage::Failed(_) => Action::Stop,
        }
    }

    /// Completes a step, once its outside work is done and the state was brought up to date. Unless the run
    /// is dry, the next action is to save that state: no step and no report comes before it.
    pub fn complete_step(&mut self, outcome: Outcome)
        requires
            old(self).valid(),
            old(self)@.next() == ActionView::Perform(step_of(outcome)),
            fits(old(self).runner.state@, outcome),
        ensures
            final(self).valid(),
            final(self)@ == old(self)@.after(true),
            !old(self).runner.dry_run ==> final(self)@.next() is Save,
            final(self).summaries@.drop_last() == old(self).summaries@,
            reports(final(self).summaries@.last(), old(self).runner.state@, outcome),
            final(self).runner.state == old(self).runner.state,
            final(self).runner.dry_run == old(self).runner.dry_run,
            final(self).runner.verbose == old(self).runner.verbose,
            dirty_view(final(self).runner.dirty_prs) == extended(
                dirty_view(old(self).runner.dirty_prs),
                found_by(old(self).runner.state@, outcome),
            ),
    {
        let summary = self.runner.run_step(outcome);
        self.summaries.push(summary);
        if self.runner.save_state().is_some() {
            self.stage = Stage::Unsaved;
        }
        assert(self.summaries@.drop_last() =~= old(self).summaries@);
    }

    /// Takes note that the state was saved.
    pub fn saved(&mut self)
        requires
            old(self).valid(),
            old(self)@.next() is Save,
        ensures
            final(self).valid(),
            final(self)@ == old(self)@.after(true),
            final(self).runner == old(self).runner,
            final(self).summaries == old(self).summaries,
    {
        self.stage = Stage::Ready;
    }

    /// Takes note that the report was printed.
    pub fn reported(&mut self)
        requires
            old(self).valid(),
            old(self)@.next() is Report,
        ensures
            final(self).valid(),
            final(self)@ == old(self)@.after(true),
            final(self).runner == old(self).runner,
            final(self).summaries == old(self).summaries,
    {
        self.stage = Stage::Reported;
    }

    /// Takes note that a step, or saving the state, has failed.
    pub fn fail(&mut self, error: E)
        requires
            old(self).valid(),
            old(self)@.next() is Perform || old(self)@.next() is Save,
        ensures
            final(self).valid(),
            final(self)@ == old(self)@.after(false),
            final(self).stage == Stage::Failed(error),
            final(self).runner == old(self).runner,
            final(self).summaries == old(self).summaries,
    {
        self.stage = Stage::Failed(error);
    }

    /// What a run that is over results in: the error that ended it, if one did.
    pub fn finish(self) -> (result: Result<(), E>)
        requires
            self@.next() is Stop,
        ensures
            match result {
                Ok(_) => self.stage is Reported,
                Err(error) => self.stage == Stage::Failed(error),
            },
    {
        match self.stage {
            Stage::Failed(error) => Err(error),
            _ => Ok(()),
        }
    }
}

} // verus!
