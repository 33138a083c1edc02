//! Commands, plans made of them, and the running of a plan step by step.
//!
//! A plan says what is to be run and what a failure of each step means. It does not run
//! anything itself: an `Execution` hands out one step after the other and is told how it
//! went.

use vstd::prelude::*;

verus! {

/// A program and its arguments.
#[derive(Debug)]
pub struct Command {
    pub program: String,
    pub args: Vec<String>,
}

impl View for Command {
    type V = Seq<Seq<char>>;

    /// The argument vector: the program, then its arguments.
    open spec fn view(&self) -> Seq<Seq<char>> {
        seq![self.program@] + self.args.deep_view()
    }
}

impl Command {
    /// The command that runs `program` on `args`.
    pub fn new(program: &str, args: &[&str]) -> (r: Command)
        ensures
            r@ == seq![program@] + args@.map_values(|a: &str| a@),
    {
        let mut list: Vec<String> = Vec::new();
        for i in 0..args.len()
            invariant
                list.deep_view() == args@.take(i as int).map_values(|a: &str| a@),
        {
            let ghost before = list.deep_view();
            list.push(args[i].to_owned());
            assert(list.deep_view() =~= before.push(args[i as int]@));
            assert(list.deep_view() =~= args@.take(i + 1).map_values(|a: &str| a@));
        }
        assert(args@.take(args.len() as int) =~= args@);
        Command { program: program.to_owned(), args: list }
    }
}

/// What becomes of a plan when a step fails.
#[derive(Debug)]
pub enum OnFailure {
    /// The plan fails, with this message in front of the step's own error, if there is one.
    Abort(Option<String>),
    /// The plan goes on.
    Ignore,
}

/// The model of `OnFailure`.
#[verifier::ext_equal]
pub enum FailureView {
    Abort(Option<Seq<char>>),
    Ignore,
}

impl View for OnFailure {
    type V = FailureView;

    open spec fn view(&self) -> FailureView {
        match self {
            OnFailure::Abort(context) => FailureView::Abort(context.deep_view()),
            OnFailure::Ignore => FailureView::Ignore,
        }
    }
}

/// One step of a plan.
#[derive(Debug)]
pub enum Step {
    /// Run the command and wait for its end; a bad exit status is a failure.
    Run { command: Command, on_failure: OnFailure },
    /// Start the command in the background; only the start itself can fail.
    Spawn { command: Command, on_failure: OnFailure },
    /// Wait; this cannot fail.
    Sleep { millis: u64 },
}

/// The model of `Step`.
#[verifier::ext_equal]
pub enum StepView {
    Run { command: Seq<Seq<char>>, on_failure: FailureView },
    Spawn { command: Seq<Seq<char>>, on_failure: FailureView },
    Sleep { millis: u64 },
}

impl View for Step {
    type V = StepView;

    open spec fn view(&self) -> StepView {
        match self {
            Step::Run { command, on_failure } => StepView::Run {
                command: command@,
                on_failure: on_failure@,
            },
            Step::Spawn { command, on_failure } => StepView::Spawn {
                command: command@,
                on_failure: on_failure@,
            },
            Step::Sleep { millis } => StepView::Sleep { millis: *millis },
        }
    }
}

impl StepView {
    /// What becomes of the plan when this step fails.
    pub open spec fn on_failure(self) -> FailureView {
        match self {
            StepView::Run { command, on_failure } => on_failure,
            StepView::Spawn { command, on_failure } => on_failure,
            StepView::Sleep { millis } => FailureView::Ignore,
        }
    }

    /// A plan goes on behind this step only if it succeeds.
    pub open spec fn is_mandatory(self) -> bool {
        self.on_failure() is Abort
    }
}

/// A command that has to succeed; its error stands alone.
pub open spec fn must(command: Seq<Seq<char>>) -> StepView {
    StepView::Run { command, on_failure: FailureView::Abort(None) }
}

/// A command that has to succeed; `context` stands in front of its error.
pub open spec fn must_or(command: Seq<Seq<char>>, context: Seq<char>) -> StepView {
    StepView::Run { command, on_failure: FailureView::Abort(Some(context)) }
}

/// A command whose failure does not matter.
pub open spec fn attempt(command: Seq<Seq<char>>) -> StepView {
    StepView::Run { command, on_failure: FailureView::Ignore }
}

/// A command started in the background; `context` stands in front of its error.
pub open spec fn spawn_or(command: Seq<Seq<char>>, context: Seq<char>) -> StepView {
    StepView::Spawn { command, on_failure: FailureView::Abort(Some(context)) }
}

impl Step {
    /// A command that has to succeed; its error stands alone.
    pub fn must(command: Command) -> (r: Step)
        ensures
            r@ == must(command@),
    {
        Step::Run { command, on_failure: OnFailure::Abort(None) }
    }

    /// A command that has to succeed; `context` stands in front of its error.
    pub fn must_or(command: Command, context: &str) -> (r: Step)
        ensures
            r@ == must_or(command@, context@),
    {
        Step::Run { command, on_failure: OnFailure::Abort(Some(context.to_owned())) }
    }

    /// A command whose failure does not matter.
    pub fn attempt(command: Command) -> (r: Step)
        ensures
            r@ == attempt(command@),
    {
        Step::Run { command, on_failure: OnFailure::Ignore }
    }

    /// A command started in the background; `context` stands in front of its error.
    pub fn spawn_or(command: Command, context: &str) -> (r: Step)
        ensures
            r@ == spawn_or(command@, context@),
    {
        Step::Spawn { command, on_failure: OnFailure::Abort(Some(context.to_owned())) }
    }
}

/// Steps to take in order, and the value that the whole yields when it succeeds.
#[derive(Debug)]
pub struct Plan<T> {
    pub steps: Vec<Step>,
    pub result: T,
}

impl<T> Plan<T> {
    /// The steps, as models.
    pub open spec fn script(self) -> Seq<StepView> {
        self.steps@.map_values(|s: Step| s@)
    }
}

/// How far a plan has been carried out: how many steps are behind it and, if it has
/// failed, the message for the failure.
#[verifier::ext_equal]
pub struct Progress {
    pub done: nat,
    pub failure: Option<Option<Seq<char>>>,
}

impl Progress {
    /// Before the first step.
    pub open spec fn start() -> Progress {
        Progress { done: 0, failure: None }
    }

    /// There is a step to take.
    pub open spec fn is_pending(self, script: Seq<StepView>) -> bool {
        self.failure is None && self.done < script.len()
    }

    /// Every step is behind.
    pub open spec fn is_complete(self, script: Seq<StepView>) -> bool {
        self.failure is None && self.done >= script.len()
    }

    /// After the pending step went well or badly.
    pub open spec fn advance(self, script: Seq<StepView>, succeeded: bool) -> Progress {
        if !self.is_pending(script) {
            self
        } else {
            match script[self.done as int].on_failure() {
                FailureView::Abort(context) if !succeeded => Progress {
                    done: self.done,
                    failure: Some(context),
                },
                _ => Progress { done: self.done + 1, failure: None },
            }
        }
    }

    /// After the first steps went as `replies` says.
    pub open spec fn after(script: Seq<StepView>, replies: Seq<bool>) -> Progress
        decreases replies.len(),
    {
        if replies.len() == 0 {
            Progress::start()
        } else {
            Progress::after(script, replies.drop_last()).advance(script, replies.last())
        }
    }
}

/// How a plan ended.
#[derive(Debug)]
pub enum Outcome<T> {
    /// Every step was taken; the plan yields its value.
    Completed(T),
    /// A mandatory step failed; the message belongs in front of that step's error.
    Failed(Option<String>),
    /// Steps are left to take.
    Unfinished,
}

/// A plan that is being carried out.
#[derive(Debug)]
pub struct Execution<T> {
    plan: Plan<T>,
    done: usize,
    failure: Option<Option<String>>,
}

impl<T> Execution<T> {
    /// The steps of the plan.
    pub closed spec fn script(self) -> Seq<StepView> {
        self.plan.script()
    }

    /// The value that the plan yields when it succeeds.
    pub closed spec fn result(self) -> T {
        self.plan.result
    }

    /// How far the plan has been carried out.
    pub closed spec fn progress(self) -> Progress {
        Progress { done: self.done as nat, failure: self.failure.deep_view() }
    }

    /// Starts to carry out a plan.
    pub fn new(plan: Plan<T>) -> (r: Execution<T>)
        ensures
            r.script() == plan.script(),
            r.result() == plan.result,
            r.progress() == Progress::start(),
    {
        Execution { plan, done: 0, failure: None }
    }

    /// The step to take now, if there is one.
    pub fn next(&self) -> (r: Option<&Step>)
        ensures
            r is Some <==> self.progress().is_pending(self.script()),
            r matches Some(step) ==> step@ == self.script()[self.progress().done as int],
    {
        if self.failure.is_none() && self.done < self.plan.steps.len() {
            Some(&self.plan.steps[self.done])
        } else {
            None
        }
    }

    /// Takes note of how the step went that `next` handed out.
    pub fn report(&mut self, succeeded: bool)
        ensures
            final(self).script() == old(self).script(),
            final(self).result() == old(self).result(),
            final(self).progress() == old(self).progress().advance(old(self).script(), succeeded),
    {
        if self.failure.is_none() && self.done < self.plan.steps.len() {
            let context: Option<Option<String>> = if succeeded {
                None
            } else {
                match &self.plan.steps[self.done] {
                    Step::Run { command: _, on_failure: OnFailure::Abort(context) } => Some(
                        context.clone(),
                    ),
                    Step::Spawn { command: _, on_failure: OnFailure::Abort(context) } => Some(
                        context.clone(),
                    ),
                    _ => None,
                }
            };
            if context.is_none() {
                self.done = self.done + 1;
            } else {
                self.failure = context;
            }
        }
    }

    /// How the plan ended.
    pub fn finish(self) -> (r: Outcome<T>)
        ensures
            match r {
                Outcome::Completed(value) => self.progress().is_complete(self.script()) && value
                    == self.result(),
                Outcome::Failed(context) => self.progress().failure == Some(context.deep_view()),
                Outcome::Unfinished => self.progress().is_pending(self.script()),
            },
    {
        match self.failure {
            Some(context) => Outcome::Failed(context),
            None => if self.done < self.plan.steps.len() {
                Outcome::Unfinished
            } else {
                Outcome::Completed(self.plan.result)
            },
        }
    }
}

/// The plan may go on behind step `i` after this reply.
pub open spec fn passes(script: Seq<StepView>, replies: Seq<bool>, i: int) -> bool {
    replies[i] || !script[i].is_mandatory()
}

/// What the progress after some replies says about those replies.
proof fn lemma_after(script: Seq<StepView>, replies: Seq<bool>)
    ensures
        ({
            let p = Progress::after(script, replies);
            &&& p.done <= replies.len()
            &&& p.done <= script.len()
            &&& forall|i: int| 0 <= i < p.done ==> #[trigger] passes(script, replies, i)
            &&& p.failure is None ==> p.done == replies.len() || p.done == script.len()
            &&& p.failure matches Some(context) ==> {
                &&& p.done < replies.len()
                &&& p.done < script.len()
                &&& !replies[p.done as int]
                &&& script[p.done as int].on_failure() == FailureView::Abort(context)
            }
        }),
    decreases replies.len(),
{
    if replies.len() > 0 {
        let before = replies.drop_last();
        lemma_after(script, before);
        let q = Progress::after(script, before);
        assert forall|i: int| 0 <= i < Progress::after(script, replies).done implies #[trigger] passes(
            script,
            replies,
            i,
        ) by {
            if i < q.done {
                assert(passes(script, before, i));
            }
        }
    }
}

/// A plan completes exactly when each of its steps has been taken and each mandatory one
/// has succeeded.
pub proof fn law_plan_completes(script: Seq<StepView>, replies: Seq<bool>)
    ensures
        Progress::after(script, replies).is_complete(script) <==> replies.len() >= script.len() && (
        forall|i: int| 0 <= i < script.len() ==> #[trigger] passes(script, replies, i)),
{
    lemma_after(script, replies);
    let p = Progress::after(script, replies);
    if p.failure is Some {
        assert(!passes(script, replies, p.done as int));
    }
}

/// At the first failure of a mandatory step the plan stops, with the message of that step,
/// and hands out no further step, whatever is reported afterwards.
pub proof fn law_plan_stops_at_first_failure(script: Seq<StepView>, replies: Seq<bool>, k: int)
    requires
        0 <= k < script.len(),
        k < replies.len(),
        !passes(script, replies, k),
        forall|i: int| 0 <= i < k ==> #[trigger] passes(script, replies, i),
    ensures
        ({
            let p = Progress::after(script, replies);
            &&& p.done == k
            &&& p.failure == Some(script[k].on_failure()->Abort_0)
            &&& !p.is_pending(script)
        }),
{
    lemma_after(script, replies);
    let p = Progress::after(script, replies);
    if p.done > k {
        assert(passes(script, replies, k));
    }
    if p.done < k {
        assert(passes(script, replies, p.done as int));
    }
}

/// As long as no mandatory step has failed, the steps are handed out in order, one per
/// report.
pub proof fn law_plan_goes_in_order(script: Seq<StepView>, replies: Seq<bool>)
    requires
        replies.len() < script.len(),
        forall|i: int| 0 <= i < replies.len() ==> #[trigger] passes(script, replies, i),
    ensures
        Progress::after(script, replies).is_pending(script),
        Progress::after(script, replies).done == replies.len(),
{
    lemma_after(script, replies);
    let p = Progress::after(script, replies);
    if p.failure is Some {
        assert(passes(script, replies, p.done as int));
    }
}

/// A command holds the program and the arguments that it was made of.
pub proof fn law_command_holds_its_words(program: &str, args: &[&str], c: Command)
    requires
        call_ensures(Command::new, (program, args), c),
    ensures
        c.program@ == program@,
        c.args@.len() == args@.len(),
        forall|i: int| 0 <= i < args@.len() ==> (#[trigger] c.args@[i])@ == args@[i]@,
{
    assert(c@[0] == program@);
    assert(c.args.deep_view().len() == args@.len()) by {
        assert(c@.len() == 1 + args@.len());
    }
    assert forall|i: int| 0 <= i < args@.len() implies (#[trigger] c.args@[i])@ == args@[i]@ by {
        assert(c@[i + 1] == c.args.deep_view()[i]);
        assert(c@[i + 1] == args@[i]@);
    }
}

/// A step is seen as it is: how its command is started, which command it is, and what its
/// failure means, are those of the step.
pub proof fn law_step_is_seen_as_it_is(step: Step)
    ensures
        match step {
            Step::Run { command, on_failure } => {
                &&& step@ matches StepView::Run { command: c, on_failure: f }
                &&& c.len() == command.args@.len() + 1
                &&& c[0] == command.program@
                &&& forall|i: int|
                    0 <= i < command.args@.len() ==> c[i + 1] == (#[trigger] command.args@[i])@
                &&& f is Ignore <==> on_failure is Ignore
                &&& on_failure matches OnFailure::Abort(context) ==> f == FailureView::Abort(
                    context.deep_view(),
                )
                &&& step@.is_mandatory() <==> on_failure is Abort
            },
            Step::Spawn { command, on_failure } => {
                &&& step@ matches StepView::Spawn { command: c, on_failure: f }
                &&& c.len() == command.args@.len() + 1
                &&& c[0] == command.program@
                &&& forall|i: int|
                    0 <= i < command.args@.len() ==> c[i + 1] == (#[trigger] command.args@[i])@
                &&& f is Ignore <==> on_failure is Ignore
                &&& on_failure matches OnFailure::Abort(context) ==> f == FailureView::Abort(
                    context.deep_view(),
                )
                &&& step@.is_mandatory() <==> on_failure is Abort
            },
            Step::Sleep { millis } => {
                &&& step@ == (StepView::Sleep { millis })
                &&& !step@.is_mandatory()
            },
        },
{
    match step {
        Step::Run { command, on_failure } => {
            assert(command.args.deep_view().len() == command.args@.len());
            assert forall|i: int| 0 <= i < command.args@.len() implies command@[i + 1] == (
            #[trigger] command.args@[i])@ by {
                assert(command@[i + 1] == command.args.deep_view()[i]);
            }
        },
        Step::Spawn { command, on_failure } => {
            assert(command.args.deep_view().len() == command.args@.len());
            assert forall|i: int| 0 <= i < command.args@.len() implies command@[i + 1] == (
            #[trigger] command.args@[i])@ by {
                assert(command@[i + 1] == command.args.deep_view()[i]);
            }
        },
        Step::Sleep { millis } => {},
    }
}

/// The plan is seen step by step, each in its place.
pub proof fn law_plan_is_seen_step_by_step<T>(plan: Plan<T>, i: int)
    requires
        0 <= i < plan.steps@.len(),
    ensures
        plan.script().len() == plan.steps@.len(),
        plan.script()[i] == plan.steps@[i]@,
{
}

/// The message of a failed step is the one that was given for it, and none where none was.
pub proof fn law_failure_brings_its_message(script: Seq<StepView>, k: int, replies: Seq<bool>)
    requires
        0 <= k < script.len(),
        replies.len() == k + 1,
        forall|i: int| 0 <= i < k ==> replies[i],
        !replies[k],
    ensures
        ({
            let p = Progress::after(script, replies);
            match script[k] {
                StepView::Run { command, on_failure: FailureView::Abort(context) } => p.failure
                    == Some(context) && p.done == k,
                StepView::Spawn { command, on_failure: FailureView::Abort(context) } => p.failure
                    == Some(context) && p.done == k,
                _ => p.failure is None && p.done == k + 1,
            }
        }),
{
    let before = replies.drop_last();
    lemma_after(script, before);
    let q = Progress::after(script, before);
    assert(q.failure is None && q.done == k);
}

/// Until the last step is behind, there is always something to say: either a step is
/// handed out, or the plan has failed, or it is complete, and never two of these.
pub proof fn law_plan_is_in_one_state(script: Seq<StepView>, p: Progress)
    ensures
        p.is_pending(script) <==> p.failure is None && p.done < script.len(),
        p.is_complete(script) <==> p.failure is None && p.done >= script.len(),
        p.failure is Some <==> !p.is_pending(script) && !p.is_complete(script),
{
}

} // verus!
