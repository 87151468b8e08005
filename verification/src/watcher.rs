//! The dispatch loop: which runs are made before watching starts, what
//! each content change leads to, and what is said when a run has ended.
//!
//! The loop itself waits for events and for processes; that waiting is the
//! caller's. What is decided between two waits is decided here.

use crate::args::Args;
use crate::changes::{ChangeEvent, Violation};
use crate::command::{parsed, Case, Command, ParseError, Template};
use crate::helpers::{
    has_watched_ancestor, is_nearest_ancestor, lemma_nearest_ancestor_unique, nearest_ancestor,
    views, FilePath, PathView,
};
use vstd::prelude::*;

verus! {

/// What one run is made with, besides the watched paths.
#[derive(Clone, Debug)]
pub struct InvocationContext {
    /// The text of the path that `{}` stands for in this run.
    pub current: Option<String>,
    /// Whether the run starts on a cleared screen.
    pub clean: bool,
}

/// An invocation context as contracts see it.
pub struct Context {
    /// The text of the current path.
    pub current: Option<Seq<char>>,
    /// Whether the run starts on a cleared screen.
    pub clean: bool,
}

impl View for InvocationContext {
    type V = Context;

    open spec fn view(&self) -> Context {
        Context {
            current: match self.current {
                Some(path) => Some(path@),
                None => None,
            },
            clean: self.clean,
        }
    }
}

/// The contexts of a sequence of runs, as contracts see them.
pub open spec fn contexts(runs: Seq<InvocationContext>) -> Seq<Context> {
    runs.map_values(|c: InvocationContext| c@)
}

/// Where the loop stands.
#[derive(Copy, Clone, Debug, PartialEq, Eq, Structural)]
pub enum Phase {
    /// No run has been made yet and no event has been looked at.
    Priming,
    /// The first runs are made; events are dispatched as they come.
    Watching,
}

/// How one run ended.
#[derive(Clone, Debug)]
pub enum RunOutcome {
    /// The process could not be started; the text describes the error.
    SpawnFailed(String),
    /// Waiting for the process failed; the text describes the error.
    WaitFailed(String),
    /// The process ended. `status` is its exit status as text.
    Exited { success: bool, status: String },
}

/// Where a report is written.
#[derive(Copy, Clone, Debug, PartialEq, Eq, Structural)]
pub enum Stream {
    /// Standard output.
    Stdout,
    /// Standard error.
    Stderr,
}

/// What is written after a run has ended.
#[derive(Clone, Debug)]
pub struct Report {
    /// Where it is written.
    pub stream: Stream,
    /// The exact text, line ends included; empty where nothing is written.
    pub text: String,
}

/// The runs made before watching starts. A command with `{}` gets one run
/// for each watched path, in order, the first on a cleared screen and the
/// others appended below it; any other command gets one run on a cleared
/// screen, with no current path.
pub open spec fn priming(case: Case, paths: Seq<PathView>) -> Seq<Context> {
    if case == Case::OnePath {
        Seq::new(paths.len(), |i: int| Context { current: Some(paths[i].text), clean: i == 0 })
    } else {
        seq![Context { current: None, clean: true }]
    }
}

/// Whether `step` is what a change of the file at `changed` leads to. A
/// command with `{}` that is not asked to follow the changed file itself
/// runs with the nearest watched path above the file, written as the
/// watched path is, and the loop ends where there is none; every other run
/// gets the changed path as it came. Every run starts on a cleared screen.
pub open spec fn is_step(
    step: Result<InvocationContext, Violation>,
    case: Case,
    paths: Seq<PathView>,
    recursive: bool,
    changed: PathView,
) -> bool {
    if !recursive && case == Case::OnePath {
        if has_watched_ancestor(changed, paths) {
            &&& step matches Ok(context)
            &&& exists|i: int|
                #[trigger] is_nearest_ancestor(changed, paths, i) && context@ == (Context {
                    current: Some(paths[i].text),
                    clean: true,
                })
        } else {
            step == Err::<InvocationContext, Violation>(Violation::OutsideWatched)
        }
    } else {
        &&& step matches Ok(context)
        &&& context@ == Context { current: Some(changed.text), clean: true }
    }
}

/// A command with `{}` that does not follow the changed file runs with one
/// of the watched paths, whichever answer is looked at: the text of the
/// nearest watched path above the changed file.
pub proof fn lemma_non_recursive_runs_with_a_root(
    step: Result<InvocationContext, Violation>,
    paths: Seq<PathView>,
    changed: PathView,
    nearest: int,
)
    requires
        is_step(step, Case::OnePath, paths, false, changed),
        is_nearest_ancestor(changed, paths, nearest),
    ensures
        step is Ok,
        step->Ok_0@ == (Context { current: Some(paths[nearest].text), clean: true }),
{
    assert(has_watched_ancestor(changed, paths));
    let i = choose|i: int|
        #[trigger] is_nearest_ancestor(changed, paths, i) && step->Ok_0@ == (Context {
            current: Some(paths[i].text),
            clean: true,
        });
    lemma_nearest_ancestor_unique(changed, paths, i, nearest);
}

/// A command that follows the changed file, and every command without
/// `{}`, runs with the changed path exactly as it came, on a cleared
/// screen, wherever that path lies.
pub proof fn lemma_changed_path_as_it_came(
    step: Result<InvocationContext, Violation>,
    case: Case,
    paths: Seq<PathView>,
    recursive: bool,
    changed: PathView,
)
    requires
        is_step(step, case, paths, recursive, changed),
        recursive || case != Case::OnePath,
    ensures
        step is Ok,
        step->Ok_0@ == (Context { current: Some(changed.text), clean: true }),
{
}

/// The text written after a run: nothing after a success, the exit status
/// after a failure, and the error where the process could not be started
/// or awaited.
pub open spec fn report_text(outcome: RunOutcome) -> Seq<char> {
    match outcome {
        RunOutcome::SpawnFailed(error) => "Failed to spawn process\nError : "@ + error@,
        RunOutcome::WaitFailed(error) => "Process crashed\nError : "@ + error@ + "\n"@,
        RunOutcome::Exited { success, status } => if success {
            Seq::empty()
        } else {
            "Error code : "@ + status@ + "\n"@
        },
    }
}

/// Where the report of a run goes: what the process did is told on
/// standard output, what kept it from being run on standard error.
pub open spec fn report_stream(outcome: RunOutcome) -> Stream {
    match outcome {
        RunOutcome::Exited { .. } => Stream::Stdout,
        _ => Stream::Stderr,
    }
}

/// What is written after a run that ended in `outcome`.
pub fn report(outcome: &RunOutcome) -> (written: Report)
    ensures
        written.stream == report_stream(*outcome),
        written.text@ == report_text(*outcome),
{
    match outcome {
        RunOutcome::SpawnFailed(error) => {
            let mut text = String::from_str("Failed to spawn process\nError : ");
            text.append(error.as_str());
            Report { stream: Stream::Stderr, text }
        },
        RunOutcome::WaitFailed(error) => {
            let mut text = String::from_str("Process crashed\nError : ");
            text.append(error.as_str());
            text.append("\n");
            Report { stream: Stream::Stderr, text }
        },
        RunOutcome::Exited { success, status } => {
            if *success {
                Report { stream: Stream::Stdout, text: String::new() }
            } else {
                let mut text = String::from_str("Error code : ");
                text.append(status.as_str());
                text.append("\n");
                Report { stream: Stream::Stdout, text }
            }
        },
    }
}

/// The dispatch loop as contracts see it.
pub struct LoopState {
    /// The command that is run.
    pub template: Template,
    /// The watched paths, in the order given.
    pub paths: Seq<PathView>,
    /// Whether a run with `{}` gets the changed file itself.
    pub recursive: bool,
    /// Where the loop stands.
    pub phase: Phase,
}

/// The state between two waits of the loop.
#[derive(Debug)]
pub struct DispatchLoop {
    command: Command,
    paths: Vec<FilePath>,
    recursive: bool,
    phase: Phase,
}

impl View for DispatchLoop {
    type V = LoopState;

    closed spec fn view(&self) -> LoopState {
        LoopState {
            template: self.command@,
            paths: views(self.paths@),
            recursive: self.recursive,
            phase: self.phase,
        }
    }
}

impl DispatchLoop {
    /// A loop that has not run anything yet.
    pub fn new(command: Command, paths: Vec<FilePath>, recursive: bool) -> (made: DispatchLoop)
        ensures
            made@ == (LoopState {
                template: command@,
                paths: views(paths@),
                recursive,
                phase: Phase::Priming,
            }),
    {
        DispatchLoop { command, paths, recursive, phase: Phase::Priming }
    }

    /// A loop for what the user asked for. Fails where the command line
    /// gives no template, as `Command::new` does.
    pub fn from_args(args: Args) -> (made: Result<DispatchLoop, ParseError>)
        ensures
            match made {
                Ok(lp) => parsed(args.command@) == Ok::<Seq<Seq<char>>, ParseError>(
                    lp@.template.tokens,
                ) && lp@.template.wf() && lp@.paths == views(args.path@) && lp@.recursive
                    == args.recursive && lp@.phase == Phase::Priming,
                Err(error) => parsed(args.command@) == Err::<Seq<Seq<char>>, ParseError>(error),
            },
    {
        let Args { recursive, command, path } = args;
        match Command::new(command) {
            Ok(command) => Ok(DispatchLoop::new(command, path, recursive)),
            Err(error) => Err(error),
        }
    }

    /// The command that the loop runs.
    pub fn command(&self) -> (command: &Command)
        ensures
            command@ == self@.template,
    {
        &self.command
    }

    /// The watched paths.
    pub fn paths(&self) -> (paths: &Vec<FilePath>)
        ensures
            views(paths@) == self@.paths,
    {
        &self.paths
    }

    /// Whether a run with `{}` gets the changed file itself.
    pub fn recursive(&self) -> (recursive: bool)
        ensures
            recursive == self@.recursive,
    {
        self.recursive
    }

    /// Where the loop stands.
    pub fn phase(&self) -> (phase: Phase)
        ensures
            phase == self@.phase,
    {
        self.phase
    }

    /// Gives the runs to make before watching starts, and moves the loop
    /// on to watching.
    pub fn prime(&mut self) -> (runs: Vec<InvocationContext>)
        requires
            old(self)@.phase == Phase::Priming,
        ensures
            final(self)@ == (LoopState { phase: Phase::Watching, ..old(self)@ }),
            contexts(runs@) == priming(old(self)@.template.case, old(self)@.paths),
    {
        let mut runs: Vec<InvocationContext> = Vec::new();
        if self.command.case() == Case::OnePath {
            let mut i: usize = 0;
            while i < self.paths.len()
                invariant
                    i <= self.paths.len(),
                    runs@.len() == i,
                    forall|j: int|
                        0 <= j < i ==> (#[trigger] runs@[j])@ == (Context {
                            current: Some(self.paths@[j]@.text),
                            clean: j == 0,
                        }),
                decreases self.paths.len() - i,
            {
                runs.push(
                    InvocationContext { current: Some(self.paths[i].text.clone()), clean: i == 0 },
                );
                i += 1;
            }
        } else {
            runs.push(InvocationContext { current: None, clean: true });
        }
        assert(contexts(runs@) =~= priming(self@.template.case, self@.paths));
        self.phase = Phase::Watching;
        runs
    }

    /// Decides what one content change leads to: the run to make, or the
    /// violation that ends the loop.
    pub fn on_change(&self, change: &ChangeEvent) -> (step: Result<InvocationContext, Violation>)
        requires
            self@.phase == Phase::Watching,
        ensures
            is_step(step, self@.template.case, self@.paths, self@.recursive, change.path@),
    {
        if !self.recursive && self.command.case() == Case::OnePath {
            match nearest_ancestor(&change.path, self.paths.as_slice()) {
                Some(root) => Ok(InvocationContext { current: Some(root.text), clean: true }),
                None => Err(Violation::OutsideWatched),
            }
        } else {
            Ok(InvocationContext { current: Some(change.path.text.clone()), clean: true })
        }
    }

    /// Takes note that a run has ended and gives what is written about it.
    /// However the run ended, the loop is as it was before: a run that
    /// failed is reported, and the next change is dispatched as after a run
    /// that succeeded.
    pub fn on_exit(&mut self, outcome: &RunOutcome) -> (written: Report)
        ensures
            final(self)@ == old(self)@,
            written.stream == report_stream(*outcome),
            written.text@ == report_text(*outcome),
    {
        report(outcome)
    }
}

} // verus!
