//! The command runner: the commands of a list are run one after the other in
//! a scratch directory, which is left again however the run ends.

use vstd::prelude::*;
use vstd::string::StringExecFns;
use crate::commands::{command_sequence, shell_flag, shell_for, shell_program, split_commands};
use crate::platform::Platform;
use crate::text::views;

verus! {

/// What the caller is asked to do next. The last two end the run.
#[derive(Clone, Debug, PartialEq, Eq)]
pub enum Task {
    /// Make a fresh directory and make it the working directory.
    EnterScratch,
    /// Start `program` with `flag` and `command` as its arguments, wait until
    /// it has ended and take what it wrote to its standard output.
    Spawn { program: String, flag: String, command: String },
    /// Go back to the working directory from before and delete the scratch
    /// directory.
    LeaveScratch,
    /// Every command has run.
    Done,
    /// The run was given up.
    Fail { cause: String },
}

/// A task, as plain texts.
pub ghost enum TaskView {
    EnterScratch,
    Spawn { program: Seq<char>, flag: Seq<char>, command: Seq<char> },
    LeaveScratch,
    Done,
    Fail { cause: Seq<char> },
}

impl View for Task {
    type V = TaskView;

    open spec fn view(&self) -> TaskView {
        match *self {
            Task::EnterScratch => TaskView::EnterScratch,
            Task::Spawn { program, flag, command } => TaskView::Spawn {
                program: program@,
                flag: flag@,
                command: command@,
            },
            Task::LeaveScratch => TaskView::LeaveScratch,
            Task::Done => TaskView::Done,
            Task::Fail { cause } => TaskView::Fail { cause: cause@ },
        }
    }
}

impl TaskView {
    /// Whether the task ends the run.
    pub open spec fn is_final(self) -> bool {
        self is Done || self is Fail
    }
}

impl Task {
    /// Whether the task ends the run.
    pub fn is_final(&self) -> (last: bool)
        ensures
            last == self@.is_final(),
    {
        match self {
            Task::Done => true,
            Task::Fail { .. } => true,
            _ => false,
        }
    }
}

/// How the task that was asked for ended.
#[derive(Clone, Debug, PartialEq, Eq)]
pub enum Outcome {
    /// Nothing has been asked for yet.
    Begin,
    /// The scratch directory was entered, or left.
    Done,
    /// The command ran to its end and wrote `stdout`. With what status it
    /// ended is not asked.
    Exited { stdout: String },
    /// The command could not be started, or the scratch directory could not
    /// be entered.
    Failed { cause: String },
}

/// An outcome, as plain texts.
pub ghost enum OutcomeView {
    Begin,
    Done,
    Exited { stdout: Seq<char> },
    Failed { cause: Seq<char> },
}

impl View for Outcome {
    type V = OutcomeView;

    open spec fn view(&self) -> OutcomeView {
        match *self {
            Outcome::Begin => OutcomeView::Begin,
            Outcome::Done => OutcomeView::Done,
            Outcome::Exited { stdout } => OutcomeView::Exited { stdout: stdout@ },
            Outcome::Failed { cause } => OutcomeView::Failed { cause: cause@ },
        }
    }
}

/// What the runner answers: the output to show, if there is any, and the next
/// task.
#[derive(Clone, Debug, PartialEq, Eq)]
pub struct Turn {
    pub echo: Option<String>,
    pub task: Task,
}

/// A turn, as plain texts.
pub ghost struct TurnView {
    pub echo: Option<Seq<char>>,
    pub task: TaskView,
}

impl View for Turn {
    type V = TurnView;

    open spec fn view(&self) -> TurnView {
        TurnView {
            echo: match self.echo {
                Some(text) => Some(text@),
                None => None,
            },
            task: self.task@,
        }
    }
}

/// How far a run has come: what the last task asked for was.
#[derive(Clone, Copy, Debug, PartialEq, Eq, Structural)]
pub enum Phase {
    /// Nothing has been asked for yet.
    Start,
    /// To enter the scratch directory.
    Entering,
    /// To run the command at `next`.
    Running,
    /// To leave the scratch directory.
    Leaving,
    /// A final task was given; nothing more is asked for.
    Finished,
}

/// A run of a command list under way.
#[derive(Debug)]
pub struct Runner {
    /// The platform whose shell runs the commands.
    pub platform: Platform,
    /// The commands, in the order in which they run.
    pub commands: Vec<String>,
    /// The index of the command that runs, or that comes next.
    pub next: usize,
    /// What the last task asked for.
    pub phase: Phase,
    /// Why the run is given up, once it is.
    pub failure: Option<String>,
}

/// A run under way, as plain texts.
pub ghost struct RunnerState {
    pub platform: Platform,
    pub commands: Seq<Seq<char>>,
    pub next: int,
    pub phase: Phase,
    pub failure: Option<Seq<char>>,
}

impl View for Runner {
    type V = RunnerState;

    open spec fn view(&self) -> RunnerState {
        RunnerState {
            platform: self.platform,
            commands: views(self.commands@),
            next: self.next as int,
            phase: self.phase,
            failure: match self.failure {
                Some(cause) => Some(cause@),
                None => None,
            },
        }
    }
}

/// The words with which a run ends that was told something out of turn.
pub open spec fn out_of_turn() -> Seq<char> {
    "Unexpected event"@
}

/// The task that runs `command` through the shell of `platform`.
pub open spec fn through_shell(platform: Platform, command: Seq<char>) -> TaskView {
    TaskView::Spawn { program: shell_program(platform), flag: shell_flag(platform), command }
}

impl RunnerState {
    /// The run of `list` on `platform` before anything has been asked for.
    pub open spec fn start(list: Seq<char>, platform: Platform) -> RunnerState {
        RunnerState {
            platform,
            commands: command_sequence(list),
            next: 0,
            phase: Phase::Start,
            failure: None,
        }
    }

    /// The task that runs the command at `index` through the shell of the
    /// platform.
    pub open spec fn spawn(self, index: int) -> TaskView {
        through_shell(self.platform, self.commands[index])
    }

    /// Goes on with the command at `index`, or leaves the scratch directory
    /// where there is none.
    pub open spec fn proceed(self, index: int) -> (RunnerState, TaskView) {
        if 0 <= index < self.commands.len() {
            (RunnerState { next: index, phase: Phase::Running, ..self }, self.spawn(index))
        } else {
            (RunnerState { phase: Phase::Leaving, ..self }, TaskView::LeaveScratch)
        }
    }

    /// Gives the run up because of `cause`, which takes leaving the scratch
    /// directory first.
    pub open spec fn give_up(self, cause: Seq<char>) -> (RunnerState, TaskView) {
        (
            RunnerState { phase: Phase::Leaving, failure: Some(cause), ..self },
            TaskView::LeaveScratch,
        )
    }

    /// Ends the run.
    pub open spec fn end(self, task: TaskView) -> (RunnerState, TaskView) {
        (RunnerState { phase: Phase::Finished, ..self }, task)
    }

    /// The state after `outcome`, and the task that is asked for next. A
    /// command that has run to its end is followed by the next one, however
    /// it ended; a command that could not be started ends the run. Once the
    /// scratch directory has been entered, the run ends only after it has
    /// been left.
    pub open spec fn next_task(self, outcome: OutcomeView) -> (RunnerState, TaskView) {
        match self.phase {
            Phase::Start => match outcome {
                OutcomeView::Begin => (
                    RunnerState { phase: Phase::Entering, ..self },
                    TaskView::EnterScratch,
                ),
                _ => self.end(TaskView::Fail { cause: out_of_turn() }),
            },
            Phase::Entering => match outcome {
                OutcomeView::Done => self.proceed(0),
                OutcomeView::Failed { cause } => self.end(TaskView::Fail { cause }),
                _ => self.end(TaskView::Fail { cause: out_of_turn() }),
            },
            Phase::Running => match outcome {
                OutcomeView::Exited { stdout } => self.proceed(self.next + 1),
                OutcomeView::Failed { cause } => self.give_up(cause),
                _ => self.give_up(out_of_turn()),
            },
            Phase::Leaving => match self.failure {
                Some(cause) => self.end(TaskView::Fail { cause }),
                None => match outcome {
                    OutcomeView::Done => self.end(TaskView::Done),
                    OutcomeView::Failed { cause } => self.end(TaskView::Done),
                    _ => self.end(TaskView::Fail { cause: out_of_turn() }),
                },
            },
            Phase::Finished => self.end(TaskView::Fail { cause: out_of_turn() }),
        }
    }

    /// What is shown after `outcome`: the output of a command that has run,
    /// unless it is empty.
    pub open spec fn echo(self, outcome: OutcomeView) -> Option<Seq<char>> {
        match outcome {
            OutcomeView::Exited { stdout } => if self.phase == Phase::Running && stdout.len() > 0 {
                Some(stdout)
            } else {
                None
            },
            _ => None,
        }
    }

    /// One step of the run.
    pub open spec fn step(self, outcome: OutcomeView) -> (RunnerState, TurnView) {
        (
            self.next_task(outcome).0,
            TurnView { echo: self.echo(outcome), task: self.next_task(outcome).1 },
        )
    }
}

impl RunnerState {
    /// The tasks that the given outcomes draw from the run, one for each
    /// outcome.
    pub open spec fn run(self, outcomes: Seq<OutcomeView>) -> Seq<TaskView>
        decreases outcomes.len(),
    {
        if outcomes.len() == 0 {
            Seq::empty()
        } else {
            let stepped = self.step(outcomes.first());
            seq![stepped.1.task] + stepped.0.run(outcomes.drop_first())
        }
    }
}

/// Once the scratch directory has been entered the run does not end before it
/// has been left: whatever the outcomes, and whether the commands could be
/// started or not, a final task comes only after the task to leave.
pub proof fn lemma_scratch_is_left(state: RunnerState, outcomes: Seq<OutcomeView>)
    requires
        state.phase == Phase::Running,
    ensures
        state.run(outcomes).len() == outcomes.len(),
        forall|j: int|
            0 <= j < outcomes.len() && (#[trigger] state.run(outcomes)[j]).is_final() ==> exists|
                k: int,
            |
                0 <= k < j && (#[trigger] state.run(outcomes)[k]) is LeaveScratch,
    decreases outcomes.len(),
{
    lemma_run_len(state, outcomes);
    if outcomes.len() > 0 {
        let stepped = state.step(outcomes.first());
        let rest = outcomes.drop_first();
        lemma_run_len(stepped.0, rest);
        if stepped.0.phase == Phase::Running {
            lemma_scratch_is_left(stepped.0, rest);
        }
        assert forall|j: int|
            0 <= j < outcomes.len() && (#[trigger] state.run(outcomes)[j]).is_final() implies exists|
            k: int,
        |
            0 <= k < j && (#[trigger] state.run(outcomes)[k]) is LeaveScratch by {
            if stepped.0.phase == Phase::Running {
                assert(state.run(outcomes)[j] == stepped.0.run(rest)[j - 1]);
                let k = choose|k: int|
                    0 <= k < j - 1 && (#[trigger] stepped.0.run(rest)[k]) is LeaveScratch;
                assert(state.run(outcomes)[k + 1] == stepped.0.run(rest)[k]);
            } else {
                assert(state.run(outcomes)[0] is LeaveScratch);
            }
        }
    }
}

/// A run answers each outcome with one task.
pub proof fn lemma_run_len(state: RunnerState, outcomes: Seq<OutcomeView>)
    ensures
        state.run(outcomes).len() == outcomes.len(),
    decreases outcomes.len(),
{
    if outcomes.len() > 0 {
        lemma_run_len(state.step(outcomes.first()).0, outcomes.drop_first());
    }
}

/// The commands run in the order of the list, each after the one before it
/// has ended: while every command that is started runs to its end, the tasks
/// after the one at `state.next` are the commands that follow it, one by one,
/// and after the last of them the task to leave the scratch directory.
pub proof fn lemma_runs_in_order(state: RunnerState, outcomes: Seq<OutcomeView>)
    requires
        state.phase == Phase::Running,
        0 <= state.next < state.commands.len(),
        forall|i: int| 0 <= i < outcomes.len() ==> (#[trigger] outcomes[i]) is Exited,
    ensures
        state.run(outcomes).len() == outcomes.len(),
        forall|i: int|
            0 <= i < outcomes.len() && state.next + 1 + i < state.commands.len() ==> (
            #[trigger] state.run(outcomes)[i]) == state.spawn(state.next + 1 + i),
        forall|i: int|
            0 <= i < outcomes.len() && state.next + 1 + i == state.commands.len() ==> (
            #[trigger] state.run(outcomes)[i]) is LeaveScratch,
    decreases outcomes.len(),
{
    lemma_run_len(state, outcomes);
    if outcomes.len() > 0 {
        let stepped = state.step(outcomes.first());
        let rest = outcomes.drop_first();
        assert(outcomes[0] is Exited);
        assert forall|i: int| 0 <= i < rest.len() implies (#[trigger] rest[i]) is Exited by {
            assert(rest[i] == outcomes[i + 1]);
        }
        lemma_run_len(stepped.0, rest);
        if stepped.0.phase == Phase::Running {
            lemma_runs_in_order(stepped.0, rest);
        }
        assert forall|i: int|
            0 <= i < outcomes.len() && state.next + 1 + i < state.commands.len() implies (
            #[trigger] state.run(outcomes)[i]) == state.spawn(state.next + 1 + i) by {
            if i > 0 {
                assert(state.run(outcomes)[i] == stepped.0.run(rest)[i - 1]);
            }
        }
        assert forall|i: int|
            0 <= i < outcomes.len() && state.next + 1 + i == state.commands.len() implies (
            #[trigger] state.run(outcomes)[i]) is LeaveScratch by {
            if i > 0 {
                assert(state.run(outcomes)[i] == stepped.0.run(rest)[i - 1]);
            }
        }
    }
}

/// A run that has entered its scratch directory leaves it before it ends,
/// whatever happens to its commands.
pub proof fn lemma_run_leaves_scratch(
    list: Seq<char>,
    platform: Platform,
    outcomes: Seq<OutcomeView>,
)
    requires
        outcomes.len() >= 2,
        outcomes[0] is Begin,
        outcomes[1] is Done,
    ensures
        forall|j: int|
            0 <= j < outcomes.len() && (#[trigger] RunnerState::start(list, platform).run(
                outcomes,
            )[j]).is_final() ==> exists|k: int|
                0 <= k < j && (#[trigger] RunnerState::start(list, platform).run(outcomes)[k])
                    is LeaveScratch,
{
    let start = RunnerState::start(list, platform);
    let entering = start.step(outcomes[0]).0;
    let entered = entering.step(outcomes[1]).0;
    let rest = outcomes.drop_first().drop_first();
    let tasks = start.run(outcomes);
    lemma_run_len(start, outcomes);
    lemma_run_len(entered, rest);
    assert(outcomes.drop_first()[0] == outcomes[1]);
    assert forall|j: int| 2 <= j < outcomes.len() implies #[trigger] tasks[j] == entered.run(
        rest,
    )[j - 2] by {
        assert(tasks[j] == entering.run(outcomes.drop_first())[j - 1]);
    }
    assert(tasks[1] == entering.run(outcomes.drop_first())[0]);
    if entered.phase == Phase::Running {
        lemma_scratch_is_left(entered, rest);
    }
    assert forall|j: int| 0 <= j < outcomes.len() && (#[trigger] tasks[j]).is_final() implies exists|
        k: int,
    |
        0 <= k < j && (#[trigger] tasks[k]) is LeaveScratch by {
        if entered.phase == Phase::Running {
            let k = choose|k: int|
                0 <= k < j - 2 && (#[trigger] entered.run(rest)[k]) is LeaveScratch;
            assert(tasks[k + 2] == entered.run(rest)[k]);
        } else {
            assert(tasks[1] is LeaveScratch);
        }
    }
}

/// The commands of a list run in the order of the list, through the shell of
/// the platform: in a run whose scratch directory was entered and whose
/// commands all ran to their end, the tasks after the first are the commands
/// one by one, and after the last of them the task to leave the scratch
/// directory.
pub proof fn lemma_commands_run_in_order(
    list: Seq<char>,
    platform: Platform,
    outcomes: Seq<OutcomeView>,
)
    requires
        outcomes.len() >= 2,
        outcomes[0] is Begin,
        outcomes[1] is Done,
        forall|i: int| 2 <= i < outcomes.len() ==> (#[trigger] outcomes[i]) is Exited,
    ensures
        forall|k: int|
            0 <= k < command_sequence(list).len() && k + 1 < outcomes.len() ==> (
            #[trigger] RunnerState::start(list, platform).run(outcomes)[k + 1]) == through_shell(
                platform,
                command_sequence(list)[k],
            ),
        command_sequence(list).len() + 1 < outcomes.len() ==> (RunnerState::start(
            list,
            platform,
        ).run(outcomes)[command_sequence(list).len() as int + 1] is LeaveScratch),
{
    let start = RunnerState::start(list, platform);
    let entering = start.step(outcomes[0]).0;
    let entered = entering.step(outcomes[1]).0;
    let rest = outcomes.drop_first().drop_first();
    let tasks = start.run(outcomes);
    let count = command_sequence(list).len() as int;
    lemma_run_len(start, outcomes);
    lemma_run_len(entered, rest);
    assert(outcomes.drop_first()[0] == outcomes[1]);
    assert forall|j: int| 2 <= j < outcomes.len() implies #[trigger] tasks[j] == entered.run(
        rest,
    )[j - 2] by {
        assert(tasks[j] == entering.run(outcomes.drop_first())[j - 1]);
    }
    assert(tasks[1] == entering.run(outcomes.drop_first())[0]);
    if count > 0 {
        assert forall|i: int| 0 <= i < rest.len() implies (#[trigger] rest[i]) is Exited by {
            assert(rest[i] == outcomes[i + 2]);
        }
        lemma_runs_in_order(entered, rest);
        assert forall|k: int| 0 <= k < count && k + 1 < outcomes.len() implies (
        #[trigger] tasks[k + 1]) == start.spawn(k) by {
            if k > 0 {
                assert(tasks[k + 1] == entered.run(rest)[k - 1]);
                assert(entered.run(rest)[k - 1] == entered.spawn(k));
            }
        }
        if count + 1 < outcomes.len() {
            assert(tasks[count + 1] == entered.run(rest)[count - 1]);
        }
    }
}

/// Begins the run of a command list on `platform`. Nothing has been done yet:
/// the first task is had by reporting `Outcome::Begin`.
pub fn run_commands(list: &str, platform: Platform) -> (runner: Runner)
    ensures
        runner@ == RunnerState::start(list@, platform),
{
    Runner { platform, commands: split_commands(list), next: 0, phase: Phase::Start, failure: None }
}

impl Runner {
    /// Ends the run with `task`.
    fn end(&mut self, task: Task) -> (same: Task)
        ensures
            (final(self)@, same@) == old(self)@.end(task@),
    {
        self.phase = Phase::Finished;
        task
    }

    /// Ends the run because it was told something out of turn.
    fn refuse(&mut self) -> (task: Task)
        ensures
            (final(self)@, task@) == old(self)@.end(TaskView::Fail { cause: out_of_turn() }),
    {
        self.end(Task::Fail { cause: String::from_str("Unexpected event") })
    }

    /// Gives the run up because of `cause`.
    fn give_up(&mut self, cause: String) -> (task: Task)
        ensures
            (final(self)@, task@) == old(self)@.give_up(cause@),
    {
        self.phase = Phase::Leaving;
        self.failure = Some(cause);
        Task::LeaveScratch
    }

    /// Why the run is given up, if it is.
    fn cause(&self) -> (cause: Option<String>)
        ensures
            match cause {
                Some(text) => self@.failure == Some(text@),
                None => self@.failure is None,
            },
    {
        match &self.failure {
            Some(cause) => Some(cause.clone()),
            None => None,
        }
    }

    /// Goes on with the command at `index`, if there is one.
    fn proceed(&mut self, index: usize) -> (task: Task)
        ensures
            (final(self)@, task@) == old(self)@.proceed(index as int),
    {
        if index < self.commands.len() {
            let shell = shell_for(self.platform);
            let command = self.commands[index].clone();
            self.next = index;
            self.phase = Phase::Running;
            Task::Spawn { program: shell.program, flag: shell.flag, command }
        } else {
            self.phase = Phase::Leaving;
            Task::LeaveScratch
        }
    }

    /// Takes the outcome of the last task and returns what to show and the
    /// next task. The first outcome is `Outcome::Begin`. An outcome that does
    /// not answer the last task ends the run as a failure, and so does any
    /// outcome after a final task.
    pub fn advance(&mut self, outcome: Outcome) -> (turn: Turn)
        ensures
            (final(self)@, turn@) == old(self)@.step(outcome@),
    {
        match self.phase {
            Phase::Start => match outcome {
                Outcome::Begin => {
                    self.phase = Phase::Entering;
                    Turn { echo: None, task: Task::EnterScratch }
                },
                _ => Turn { echo: None, task: self.refuse() },
            },
            Phase::Entering => match outcome {
                Outcome::Done => Turn { echo: None, task: self.proceed(0) },
                Outcome::Failed { cause } => Turn {
                    echo: None,
                    task: self.end(Task::Fail { cause }),
                },
                _ => Turn { echo: None, task: self.refuse() },
            },
            Phase::Running => match outcome {
                Outcome::Exited { stdout } => {
                    let task = if self.next < self.commands.len() {
                        self.proceed(self.next + 1)
                    } else {
                        self.phase = Phase::Leaving;
                        Task::LeaveScratch
                    };
                    let echo = if stdout.as_str().is_empty() {
                        None
                    } else {
                        Some(stdout)
                    };
                    Turn { echo, task }
                },
                Outcome::Failed { cause } => Turn { echo: None, task: self.give_up(cause) },
                _ => Turn {
                    echo: None,
                    task: self.give_up(String::from_str("Unexpected event")),
                },
            },
            Phase::Leaving => match self.cause() {
                Some(cause) => Turn { echo: None, task: self.end(Task::Fail { cause }) },
                None => match outcome {
                    Outcome::Done => Turn { echo: None, task: self.end(Task::Done) },
                    Outcome::Failed { cause } => Turn { echo: None, task: self.end(Task::Done) },
                    _ => Turn { echo: None, task: self.refuse() },
                },
            },
            Phase::Finished => Turn { echo: None, task: self.refuse() },
        }
    }
}

} // verus!
