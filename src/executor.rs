use vstd::prelude::*;

use crate::builtins::{Command, ShellStatus};
use crate::parser::{ParsedCommand, Stage};
use crate::registry::CommandRegistry;
use crate::text::{append_text, push_char};

verus! {

/// What the previous stage left for the next one.
pub enum PipeState<P> {
    /// Nothing: the next stage reads the shell's own input.
    Nothing,
    /// A running process whose output feeds the next stage.
    ExternalProcess(P),
    /// What a builtin wrote, to be handed to the next stage.
    CapturedBytes(Vec<u8>),
}

/// Where a stage's standard output goes.
#[derive(Debug, Clone, Copy, PartialEq, Eq, Structural)]
pub enum StreamTo {
    /// The file named by the stage's redirection.
    File,
    /// The next stage of the pipeline.
    NextStage,
    /// The shell's own output.
    Terminal,
}

/// How a stage's command is run.
#[derive(Debug, Clone, Copy, PartialEq, Eq, Structural)]
pub enum Dispatch {
    Builtin(Command),
    External,
    Unknown,
}

/// Why a pipeline stopped early.
pub enum ExecError {
    /// No builtin and no executable has this name.
    CommandNotFound(String),
    /// A builtin failed with this message.
    Builtin(String),
    /// A redirection file could not be opened.
    OpenFailed { path: String, cause: String },
    /// A process could not be started.
    SpawnFailed { command: String, cause: String },
    /// Waiting for a process failed.
    WaitFailed(String),
}

/// Where a run stands.
#[derive(Debug, Clone, Copy, PartialEq, Eq, Structural)]
pub enum Phase {
    /// The next call is `next_action`.
    Ready,
    /// A builtin stage is being run; `builtin_finished` comes next.
    Builtin,
    /// An external stage is being started; `external_started` comes next.
    External,
    /// The pipeline is over.
    Done,
}

/// What the caller does next.
pub enum Action<P> {
    /// Run this builtin with the current stage's arguments, collecting its output.
    RunBuiltin { command: Command },
    /// Start the current stage's program with these streams; `stderr_to_file`
    /// says whether its error stream goes to the stage's redirection file.
    Spawn { stdin: PipeState<P>, stdout: StreamTo, stderr_to_file: bool },
    /// The pipeline is over: wait for `wait_for`, if any, and report `result`.
    Finish { result: Result<ShellStatus, ExecError>, wait_for: Option<P> },
}

/// What to write after a builtin stage.
pub struct Delivery {
    /// Output to write, and where: the stage's file or the shell's output.
    pub output: Option<(StreamTo, Vec<u8>)>,
    /// A line for the stage's error redirection file.
    pub error_line: Option<String>,
}

/// How `name` is run, given what `registry` holds: builtins shadow
/// executables.
pub open spec fn dispatch_of(registry: CommandRegistry, name: Seq<char>) -> Dispatch {
    match registry.builtin(name) {
        Some(c) => Dispatch::Builtin(c),
        None => if registry.executable(name) is Some {
            Dispatch::External
        } else {
            Dispatch::Unknown
        },
    }
}

/// Where a stage's standard output goes: its redirection first, then the
/// next stage, else the shell's output.
pub open spec fn stdout_to(stage: Stage, is_last: bool) -> StreamTo {
    if stage.stdout is Some {
        StreamTo::File
    } else if !is_last {
        StreamTo::NextStage
    } else {
        StreamTo::Terminal
    }
}

/// What a builtin stage leaves for the next stage.
pub open spec fn state_after_builtin<P>(
    to: StreamTo,
    result: Result<ShellStatus, String>,
    output: Vec<u8>,
) -> PipeState<P> {
    if result is Ok && to == StreamTo::NextStage {
        PipeState::CapturedBytes(output)
    } else {
        PipeState::Nothing
    }
}

/// What an external stage leaves for the next stage: the process itself
/// where its output feeds that stage.
pub open spec fn state_after_external<P>(to: StreamTo, child: P) -> PipeState<P> {
    if to == StreamTo::NextStage {
        PipeState::ExternalProcess(child)
    } else {
        PipeState::Nothing
    }
}

/// Whether a builtin's result ends the pipeline, and how.
pub open spec fn builtin_ends(result: Result<ShellStatus, String>, stage: Stage) -> Option<
    Result<ShellStatus, ExecError>,
> {
    match result {
        Ok(ShellStatus::Exit) => Some(Ok(ShellStatus::Exit)),
        Ok(ShellStatus::Continue) => None,
        Err(msg) => if stage.stderr is Some {
            None
        } else {
            Some(Err(ExecError::Builtin(msg)))
        },
    }
}

pub open spec fn is_finish<P>(
    r: Action<P>,
    result: Result<ShellStatus, ExecError>,
    wait_for: Option<P>,
) -> bool {
    r == Action::<P>::Finish { result, wait_for }
}

/// `r` ends the pipeline because no command is called `name`.
pub open spec fn is_not_found<P>(r: Action<P>, name: Seq<char>) -> bool {
    match r {
        Action::Finish { result: Err(ExecError::CommandNotFound(n)), wait_for: None } => n@ == name,
        _ => false,
    }
}

pub open spec fn is_spawn<P>(
    r: Action<P>,
    stdin: PipeState<P>,
    stdout: StreamTo,
    stderr_to_file: bool,
) -> bool {
    r == Action::<P>::Spawn { stdin, stdout, stderr_to_file }
}

/// The process that a state carries, if any.
pub open spec fn carried_process<P>(st: PipeState<P>) -> Option<P> {
    match st {
        PipeState::ExternalProcess(p) => Some(p),
        _ => None,
    }
}

/// The output that a builtin stage leaves to be written: none where it
/// goes to the next stage.
pub open spec fn delivered_output(to: StreamTo, output: Vec<u8>) -> Option<(StreamTo, Vec<u8>)> {
    if to == StreamTo::NextStage {
        None
    } else {
        Some((to, output))
    }
}

/// The error line to write to a stage's error file: the builtin's message
/// and a newline, where it failed and the stage redirects its errors.
pub open spec fn error_line_of(
    line: Option<String>,
    result: Result<ShellStatus, String>,
    stage: Stage,
) -> bool {
    match result {
        Err(msg) => if stage.stderr is Some {
            line is Some && line->Some_0@ == msg@.push('\n')
        } else {
            line is None
        },
        Ok(_) => line is None,
    }
}

/// Decides, stage by stage, how a pipeline runs. The caller performs each
/// action and reports back what came of it.
pub struct PipelineRun<'a, P> {
    registry: &'a CommandRegistry,
    stages: &'a Vec<ParsedCommand>,
    index: usize,
    phase: Phase,
    state: PipeState<P>,
    pending: Option<Result<ShellStatus, ExecError>>,
}

impl<'a, P> PipelineRun<'a, P> {
    pub closed spec fn registry(&self) -> CommandRegistry {
        *self.registry
    }

    pub closed spec fn stages(&self) -> Seq<ParsedCommand> {
        self.stages@
    }

    /// The stage under way, or the next one.
    pub closed spec fn index(&self) -> int {
        self.index as int
    }

    pub closed spec fn phase(&self) -> Phase {
        self.phase
    }

    /// What the previous stage left for the current one.
    pub closed spec fn state(&self) -> PipeState<P> {
        self.state
    }

    /// How the pipeline ends, once that is decided.
    pub closed spec fn pending(&self) -> Option<Result<ShellStatus, ExecError>> {
        self.pending
    }

    pub closed spec fn wf(&self) -> bool {
        &&& self.index <= self.stages@.len()
        &&& (self.phase == Phase::Builtin || self.phase == Phase::External) ==> self.index
            < self.stages@.len()
        &&& self.phase != Phase::Ready ==> self.pending is None
    }

    /// The stage under way.
    pub open spec fn stage(&self) -> Stage {
        self.stages()[self.index()]@
    }

    pub open spec fn is_last(&self) -> bool {
        self.index() + 1 == self.stages().len()
    }

    /// How the current stage is started, given what `registry` holds:
    /// `r` is the action handed out and `after` the run afterwards.
    pub open spec fn stage_action(&self, r: Action<P>, after: Self) -> bool {
        match dispatch_of(self.registry(), self.stage().command) {
            Dispatch::Unknown => is_not_found(r, self.stage().command),
            Dispatch::Builtin(c) => {
                &&& r == Action::<P>::RunBuiltin { command: c }
                &&& after.phase() == Phase::Builtin
            },
            Dispatch::External => {
                &&& is_spawn(
                    r,
                    self.state(),
                    stdout_to(self.stage(), self.is_last()),
                    self.stage().stderr is Some,
                )
                &&& after.phase() == Phase::External
                &&& after.state() is Nothing
            },
        }
    }

    /// `after` keeps the registry and the stages of this run.
    pub open spec fn same_pipeline(&self, after: Self) -> bool {
        &&& after.wf()
        &&& after.registry() == self.registry()
        &&& after.stages() == self.stages()
    }

    /// One call of `next_action`: it hands out `r` and leaves `after`.
    pub open spec fn next_step(&self, r: Action<P>, after: Self) -> bool {
        &&& self.same_pipeline(after)
        &&& after.index() == self.index()
        &&& (after.phase() == Phase::Done) == (r is Finish)
        &&& self.pending() is Some ==> is_finish(r, self.pending()->Some_0, None)
        &&& self.pending() is None && self.index() == self.stages().len() ==> is_finish(
            r,
            Ok(ShellStatus::Continue),
            carried_process(self.state()),
        )
        &&& self.pending() is None && self.index() < self.stages().len() ==> self.stage_action(
            r,
            after,
        )
    }

    /// One call of `builtin_finished` with the builtin's `result` and
    /// `output`: it leaves `after` and returns `d`.
    pub open spec fn builtin_step(
        &self,
        result: Result<ShellStatus, String>,
        output: Vec<u8>,
        after: Self,
        d: Delivery,
    ) -> bool {
        let to = stdout_to(self.stage(), self.is_last());
        &&& self.same_pipeline(after)
        &&& after.index() == self.index() + 1
        &&& after.phase() == Phase::Ready
        &&& after.state() == state_after_builtin::<P>(to, result, output)
        &&& after.pending() == builtin_ends(result, self.stage())
        &&& d.output == delivered_output(to, output)
        &&& error_line_of(d.error_line, result, self.stage())
    }

    /// One call of `external_started` with `child`: it leaves `after` and
    /// hands back `back`.
    pub open spec fn external_step(&self, child: P, after: Self, back: Option<P>) -> bool {
        let to = stdout_to(self.stage(), self.is_last());
        &&& self.same_pipeline(after)
        &&& after.index() == self.index() + 1
        &&& after.phase() == Phase::Ready
        &&& after.pending() is None
        &&& after.state() == state_after_external(to, child)
        &&& to == StreamTo::NextStage ==> back is None
        &&& to != StreamTo::NextStage ==> back == Some(child)
    }

    /// One call of `fail` with `err`: it leaves `after`.
    pub open spec fn fail_step(&self, err: ExecError, after: Self) -> bool {
        &&& self.same_pipeline(after)
        &&& after.index() == self.index()
        &&& after.phase() == Phase::Ready
        &&& after.pending() == Some(Err::<ShellStatus, ExecError>(err))
        &&& after.state() is Nothing
    }

    /// A run that `ShellExecutor::run` has just started.
    pub open spec fn fresh(&self) -> bool {
        &&& self.wf()
        &&& self.index() == 0
        &&& self.phase() == Phase::Ready
        &&& self.state() is Nothing
        &&& self.pending() is None
    }

    /// The index of the stage under way.
    pub fn current(&self) -> (r: usize)
        ensures
            r == self.index(),
    {
        self.index
    }

    /// Decides what comes next: the end of the pipeline, or how to run the
    /// current stage. The current stage takes over what the previous one
    /// left.
    pub fn next_action(&mut self) -> (r: Action<P>)
        requires
            old(self).wf(),
            old(self).phase() == Phase::Ready,
        ensures
            old(self).next_step(r, *final(self)),
    {
        let mut pending: Option<Result<ShellStatus, ExecError>> = None;
        core::mem::swap(&mut pending, &mut self.pending);
        if let Some(result) = pending {
            self.phase = Phase::Done;
            self.state = PipeState::Nothing;
            return Action::Finish { result, wait_for: None };
        }
        let mut state: PipeState<P> = PipeState::Nothing;
        core::mem::swap(&mut state, &mut self.state);
        if self.index == self.stages.len() {
            self.phase = Phase::Done;
            let wait_for = match state {
                PipeState::ExternalProcess(p) => Some(p),
                _ => None,
            };
            return Action::Finish { result: Ok(ShellStatus::Continue), wait_for };
        }
        let cmd = &self.stages[self.index];
        let is_last = self.index + 1 == self.stages.len();
        match self.registry.get_builtin(cmd.command.as_str()) {
            Some(c) => {
                self.phase = Phase::Builtin;
                Action::RunBuiltin { command: c }
            },
            None => {
                if self.registry.get_executable(cmd.command.as_str()).is_none() {
                    self.phase = Phase::Done;
                    return Action::Finish {
                        result: Err(ExecError::CommandNotFound(cmd.command.clone())),
                        wait_for: None,
                    };
                }
                let stdout = if cmd.stdout_redirect.is_some() {
                    StreamTo::File
                } else if !is_last {
                    StreamTo::NextStage
                } else {
                    StreamTo::Terminal
                };
                self.phase = Phase::External;
                Action::Spawn { stdin: state, stdout, stderr_to_file: cmd.stderr_redirect.is_some() }
            },
        }
    }
    /// Takes what a builtin stage came to: its result and everything it
    /// wrote. Says what to write where, and what the next stage receives.
    pub fn builtin_finished(&mut self, result: Result<ShellStatus, String>, output: Vec<u8>) -> (r:
        Delivery)
        requires
            old(self).wf(),
            old(self).phase() == Phase::Builtin,
        ensures
            old(self).builtin_step(result, output, *final(self), r),
    {
        let n = self.stages.len();
        let cmd = &self.stages[self.index];
        let is_last = self.index + 1 == n;
        let to = if cmd.stdout_redirect.is_some() {
            StreamTo::File
        } else if !is_last {
            StreamTo::NextStage
        } else {
            StreamTo::Terminal
        };
        let has_error_file = cmd.stderr_redirect.is_some();
        self.index = self.index + 1;
        self.phase = Phase::Ready;
        match result {
            Ok(ShellStatus::Continue) => {
                if to == StreamTo::NextStage {
                    self.state = PipeState::CapturedBytes(output);
                    Delivery { output: None, error_line: None }
                } else {
                    self.state = PipeState::Nothing;
                    Delivery { output: Some((to, output)), error_line: None }
                }
            },
            Ok(ShellStatus::Exit) => {
                self.pending = Some(Ok(ShellStatus::Exit));
                if to == StreamTo::NextStage {
                    self.state = PipeState::CapturedBytes(output);
                    Delivery { output: None, error_line: None }
                } else {
                    self.state = PipeState::Nothing;
                    Delivery { output: Some((to, output)), error_line: None }
                }
            },
            Err(msg) => {
                self.state = PipeState::Nothing;
                let output = if to == StreamTo::NextStage {
                    None
                } else {
                    Some((to, output))
                };
                if has_error_file {
                    let mut line = String::new();
                    append_text(&mut line, msg.as_str());
                    push_char(&mut line, '\n');
                    Delivery { output, error_line: Some(line) }
                } else {
                    self.pending = Some(Err(ExecError::Builtin(msg)));
                    Delivery { output, error_line: None }
                }
            },
        }
    }

    /// Takes the process started for an external stage. It stays with the
    /// run when it feeds the next stage; otherwise it is handed back to be
    /// waited for.
    pub fn external_started(&mut self, child: P) -> (r: Option<P>)
        requires
            old(self).wf(),
            old(self).phase() == Phase::External,
        ensures
            old(self).external_step(child, *final(self), r),
    {
        let n = self.stages.len();
        let cmd = &self.stages[self.index];
        let feeds_next = cmd.stdout_redirect.is_none() && self.index + 1 != n;
        self.index = self.index + 1;
        self.phase = Phase::Ready;
        if feeds_next {
            self.state = PipeState::ExternalProcess(child);
            None
        } else {
            self.state = PipeState::Nothing;
            Some(child)
        }
    }

    /// Ends the pipeline on an error met while carrying out an action (a
    /// file that would not open, a process that would not start).
    pub fn fail(&mut self, err: ExecError)
        requires
            old(self).wf(),
            old(self).phase() != Phase::Done,
        ensures
            old(self).fail_step(err, *final(self)),
    {
        self.phase = Phase::Ready;
        self.state = PipeState::Nothing;
        self.pending = Some(Err(err));
    }

}



/// The text reported for an error.
pub open spec fn message_of(e: ExecError) -> Seq<char> {
    match e {
        ExecError::CommandNotFound(name) => name@ + ": command not found"@,
        ExecError::Builtin(msg) => msg@,
        ExecError::OpenFailed { path, cause } => "Failed to open "@ + path@ + ": "@ + cause@,
        ExecError::SpawnFailed { command, cause } => "Failed to start "@ + command@ + ": "@
            + cause@,
        ExecError::WaitFailed(cause) => cause@,
    }
}

impl ExecError {
    /// The text reported for this error.
    pub fn message(&self) -> (r: String)
        ensures
            r@ == message_of(*self),
    {
        let mut r = String::new();
        match self {
            ExecError::CommandNotFound(name) => {
                append_text(&mut r, name.as_str());
                append_text(&mut r, ": command not found");
            },
            ExecError::Builtin(msg) => {
                append_text(&mut r, msg.as_str());
            },
            ExecError::OpenFailed { path, cause } => {
                append_text(&mut r, "Failed to open ");
                append_text(&mut r, path.as_str());
                append_text(&mut r, ": ");
                append_text(&mut r, cause.as_str());
            },
            ExecError::SpawnFailed { command, cause } => {
                append_text(&mut r, "Failed to start ");
                append_text(&mut r, command.as_str());
                append_text(&mut r, ": ");
                append_text(&mut r, cause.as_str());
            },
            ExecError::WaitFailed(cause) => {
                append_text(&mut r, cause.as_str());
            },
        }
        r
    }
}

/// Runs pipelines against the commands that a registry knows.
pub struct ShellExecutor<'a> {
    registry: &'a CommandRegistry,
}

impl<'a> ShellExecutor<'a> {
    pub closed spec fn registry(&self) -> CommandRegistry {
        *self.registry
    }

    pub fn new(registry: &'a CommandRegistry) -> (r: Self)
        ensures
            r.registry() == *registry,
    {
        ShellExecutor { registry }
    }

    /// How a command called `name` runs.
    pub fn dispatch(&self, name: &str) -> (r: Dispatch)
        ensures
            r == dispatch_of(self.registry(), name@),
    {
        match self.registry.get_builtin(name) {
            Some(c) => Dispatch::Builtin(c),
            None => if self.registry.get_executable(name).is_some() {
                Dispatch::External
            } else {
                Dispatch::Unknown
            },
        }
    }

    /// Starts a run of `pipeline`: its first stage reads the shell's input.
    pub fn run<P>(&self, pipeline: &'a Vec<ParsedCommand>) -> (r: PipelineRun<'a, P>)
        ensures
            r.wf(),
            r.registry() == self.registry(),
            r.stages() == pipeline@,
            r.index() == 0,
            r.phase() == Phase::Ready,
            r.state() is Nothing,
            r.pending() is None,
    {
        PipelineRun {
            registry: self.registry,
            stages: pipeline,
            index: 0,
            phase: Phase::Ready,
            state: PipeState::Nothing,
            pending: None,
        }
    }
}


/// What happens to a run at one call of its methods.
pub ghost enum Event<P> {
    /// `next_action` handed out this action.
    Next(Action<P>),
    /// `builtin_finished` took this result and output, and returned this delivery.
    BuiltinDone(Result<ShellStatus, String>, Vec<u8>, Delivery),
    /// `external_started` took this process, and handed back the second.
    Started(P, Option<P>),
    /// `fail` took this error.
    Failed(ExecError),
}

/// The run `a` becomes `b` through the event `e`, as the methods' contracts
/// say.
pub open spec fn moves<'a, P>(a: PipelineRun<'a, P>, e: Event<P>, b: PipelineRun<'a, P>) -> bool {
    &&& a.wf()
    &&& match e {
        Event::Next(r) => a.phase() == Phase::Ready && a.next_step(r, b),
        Event::BuiltinDone(result, output, d) => a.phase() == Phase::Builtin && a.builtin_step(
            result,
            output,
            b,
            d,
        ),
        Event::Started(child, back) => a.phase() == Phase::External && a.external_step(
            child,
            b,
            back,
        ),
        Event::Failed(err) => a.phase() != Phase::Done && a.fail_step(err, b),
    }
}

/// `runs` are the successive states of a run, and `events` what happened
/// between each and the next.
pub open spec fn is_trace<'a, P>(runs: Seq<PipelineRun<'a, P>>, events: Seq<Event<P>>) -> bool {
    &&& runs.len() == events.len() + 1
    &&& forall|i: int| 0 <= i < events.len() ==> moves(runs[i], #[trigger] events[i], runs[i + 1])
}

/// The event hands out work for a stage: a builtin to run or a process to start.
pub open spec fn starts_stage<P>(e: Event<P>) -> bool {
    match e {
        Event::Next(r) => !(r is Finish),
        _ => false,
    }
}

/// `r` starts a process whose input is exactly the bytes `bytes`.
pub open spec fn spawn_fed_with<P>(r: Action<P>, bytes: Seq<u8>) -> bool {
    match r {
        Action::Spawn { stdin: PipeState::CapturedBytes(b), .. } => b@ == bytes,
        _ => false,
    }
}

/// What a builtin writes, where its output feeds the next stage, is what
/// an external next stage is started with as its input: the same bytes,
/// none lost, none added.
pub proof fn law_builtin_output_reaches_next_stage<'a, P>(
    a: PipelineRun<'a, P>,
    output: Vec<u8>,
    d: Delivery,
    b: PipelineRun<'a, P>,
    r: Action<P>,
    c: PipelineRun<'a, P>,
)
    requires
        moves(a, Event::BuiltinDone(Ok(ShellStatus::Continue), output, d), b),
        a.stage().stdout is None,
        !a.is_last(),
        moves(b, Event::Next(r), c),
        dispatch_of(b.registry(), b.stage().command) == Dispatch::External,
    ensures
        d.output is None,
        spawn_fed_with(r, output@),
{
}

/// A stage whose output is redirected to a file sends it there even where
/// a stage follows, and that stage, if it runs a program, reads the shell's
/// own input: nothing of the redirected stage reaches it.
pub proof fn law_redirect_beats_pipe<'a, P>(
    a: PipelineRun<'a, P>,
    e: Event<P>,
    b: PipelineRun<'a, P>,
    r: Action<P>,
    c: PipelineRun<'a, P>,
)
    requires
        a.stage().stdout is Some,
        e is BuiltinDone || e is Started,
        moves(a, e, b),
        b.pending() is None,
        b.index() < b.stages().len(),
        moves(b, Event::Next(r), c),
        dispatch_of(b.registry(), b.stage().command) == Dispatch::External,
    ensures
        e is BuiltinDone ==> e->BuiltinDone_2.output == delivered_output(
            StreamTo::File,
            e->BuiltinDone_1,
        ),
        is_spawn(r, PipeState::<P>::Nothing, stdout_to(b.stage(), b.is_last()), b.stage().stderr is Some),
{
}

/// A builtin stage without a redirection writes to the shell's output only
/// when it is the last stage; before that, what it writes goes to the next
/// stage and nowhere else.
pub proof fn law_only_last_stage_writes_out<'a, P>(
    a: PipelineRun<'a, P>,
    status: ShellStatus,
    output: Vec<u8>,
    d: Delivery,
    b: PipelineRun<'a, P>,
)
    requires
        moves(a, Event::BuiltinDone(Ok(status), output, d), b),
        a.stage().stdout is None,
    ensures
        a.is_last() <==> a.index() == a.stages().len() - 1,
        a.is_last() ==> d.output == Some((StreamTo::Terminal, output)),
        !a.is_last() ==> d.output is None && b.state() == PipeState::<P>::CapturedBytes(output),
{
}

/// Where a run stands, in a run whose stage `k` names no known command:
/// never past stage `k`, and at stage `k` only about to act or over.
pub open spec fn before_unknown<'a, P>(run: PipelineRun<'a, P>, k: int) -> bool {
    &&& run.index() <= k
    &&& run.index() == k ==> run.phase() == Phase::Ready || run.phase() == Phase::Done
}

proof fn lemma_before_unknown<'a, P>(
    runs: Seq<PipelineRun<'a, P>>,
    events: Seq<Event<P>>,
    k: int,
    i: int,
)
    requires
        is_trace(runs, events),
        runs[0].fresh(),
        0 <= k < runs[0].stages().len(),
        dispatch_of(runs[0].registry(), runs[0].stages()[k]@.command) == Dispatch::Unknown,
        0 <= i < runs.len(),
    ensures
        before_unknown(runs[i], k),
        runs[i].registry() == runs[0].registry(),
        runs[i].stages() == runs[0].stages(),
        i < events.len() && starts_stage(events[i]) ==> runs[i].index() < k,
    decreases i,
{
    if i > 0 {
        lemma_before_unknown(runs, events, k, i - 1);
        assert(moves(runs[i - 1], events[i - 1], runs[i]));
    }
    if i < events.len() {
        assert(moves(runs[i], events[i], runs[i + 1]));
    }
}

/// A pipeline whose stage `k` names no known command never gets past it:
/// no builtin is run and no process started for a stage after `k` (nor for
/// `k` itself), and when the run comes to stage `k` with nothing gone wrong
/// before, it ends with "command not found" for that name.
pub proof fn law_unknown_command_stops<'a, P>(
    runs: Seq<PipelineRun<'a, P>>,
    events: Seq<Event<P>>,
    k: int,
)
    requires
        is_trace(runs, events),
        runs[0].fresh(),
        0 <= k < runs[0].stages().len(),
        dispatch_of(runs[0].registry(), runs[0].stages()[k]@.command) == Dispatch::Unknown,
    ensures
        forall|i: int| 0 <= i < runs.len() ==> (#[trigger] runs[i]).index() <= k,
        forall|i: int|
            0 <= i < events.len() && starts_stage(#[trigger] events[i]) ==> runs[i].index() < k,
        forall|i: int|
            0 <= i < events.len() && #[trigger] events[i] is Next && runs[i].index() == k
                && runs[i].pending() is None ==> is_not_found(
                events[i]->Next_0,
                runs[0].stages()[k]@.command,
            ) && runs[i + 1].phase() == Phase::Done,
{
    assert forall|i: int| 0 <= i < runs.len() implies (#[trigger] runs[i]).index() <= k by {
        lemma_before_unknown(runs, events, k, i);
    }
    assert forall|i: int|
        0 <= i < events.len() && starts_stage(#[trigger] events[i]) implies runs[i].index() < k by {
        lemma_before_unknown(runs, events, k, i);
    }
    assert forall|i: int|
        0 <= i < events.len() && #[trigger] events[i] is Next && runs[i].index() == k
            && runs[i].pending() is None implies is_not_found(
        events[i]->Next_0,
        runs[0].stages()[k]@.command,
    ) && runs[i + 1].phase() == Phase::Done by {
        lemma_before_unknown(runs, events, k, i);
        assert(moves(runs[i], events[i], runs[i + 1]));
    }
}

proof fn lemma_after_exit<'a, P>(runs: Seq<PipelineRun<'a, P>>, events: Seq<Event<P>>, m: int, i: int)
    requires
        is_trace(runs, events),
        0 <= m < events.len(),
        events[m] is BuiltinDone,
        events[m]->BuiltinDone_0 == Ok::<ShellStatus, String>(ShellStatus::Exit),
        m < i < runs.len(),
    ensures
        runs[i].phase() == Phase::Done || (runs[i].phase() == Phase::Ready && runs[i].pending() is Some),
        i < events.len() ==> !starts_stage(events[i]),
    decreases i,
{
    if i > m + 1 {
        lemma_after_exit(runs, events, m, i - 1);
        assert(moves(runs[i - 1], events[i - 1], runs[i]));
    } else {
        assert(moves(runs[m], events[m], runs[i]));
    }
    if i < events.len() {
        assert(moves(runs[i], events[i], runs[i + 1]));
    }
}

/// A builtin that returns the exiting status ends the pipeline wherever it
/// stands and whatever its redirections: no later stage gets a builtin run
/// or a process started, and the run's next action finishes with that status.
pub proof fn law_exit_ends_pipeline<'a, P>(
    runs: Seq<PipelineRun<'a, P>>,
    events: Seq<Event<P>>,
    m: int,
)
    requires
        is_trace(runs, events),
        0 <= m < events.len(),
        events[m] is BuiltinDone,
        events[m]->BuiltinDone_0 == Ok::<ShellStatus, String>(ShellStatus::Exit),
    ensures
        forall|i: int| m < i < events.len() ==> !starts_stage(#[trigger] events[i]),
        m + 1 < events.len() && events[m + 1] is Next ==> is_finish(
            events[m + 1]->Next_0,
            Ok(ShellStatus::Exit),
            None,
        ),
{
    assert forall|i: int| m < i < events.len() implies !starts_stage(#[trigger] events[i]) by {
        lemma_after_exit(runs, events, m, i);
    }
    assert(moves(runs[m], events[m], runs[m + 1]));
    if m + 1 < events.len() {
        assert(moves(runs[m + 1], events[m + 1], runs[m + 2]));
    }
}


/// In any run, a builtin stage that succeeds without a redirection writes
/// to the shell's output only if it is the last stage; before that, all it
/// wrote is carried, unchanged, to the next stage, and a program run there
/// is started with exactly those bytes as its input. A run that gets past
/// its last stage with nothing gone wrong ends with `Continue`.
pub proof fn law_pipeline_output_flows_to_last_stage<'a, P>(
    runs: Seq<PipelineRun<'a, P>>,
    events: Seq<Event<P>>,
)
    requires
        is_trace(runs, events),
    ensures
        forall|i: int|
            0 <= i < events.len() && #[trigger] events[i] is BuiltinDone
                && events[i]->BuiltinDone_0 is Ok && runs[i].stage().stdout is None ==> {
                let output = events[i]->BuiltinDone_1;
                let d = events[i]->BuiltinDone_2;
                &&& runs[i].is_last() ==> d.output == Some((StreamTo::Terminal, output))
                &&& !runs[i].is_last() ==> d.output is None && runs[i + 1].state()
                    == PipeState::<P>::CapturedBytes(output)
            },
        forall|i: int|
            0 <= i < events.len() - 1 && #[trigger] events[i] is BuiltinDone
                && events[i]->BuiltinDone_0 == Ok::<ShellStatus, String>(ShellStatus::Continue)
                && runs[i].stage().stdout is None && !runs[i].is_last() && events[i + 1] is Next
                && dispatch_of(runs[i + 1].registry(), runs[i + 1].stage().command)
                == Dispatch::External ==> spawn_fed_with(
                events[i + 1]->Next_0,
                events[i]->BuiltinDone_1@,
            ),
        forall|i: int|
            0 <= i < events.len() && #[trigger] events[i] is Next && runs[i].pending() is None
                && runs[i].index() == runs[i].stages().len() ==> events[i]->Next_0 is Finish
                && events[i]->Next_0->Finish_result == Ok::<ShellStatus, ExecError>(
                ShellStatus::Continue,
            ),
{
    assert forall|i: int|
        0 <= i < events.len() && #[trigger] events[i] is BuiltinDone
            && events[i]->BuiltinDone_0 is Ok && runs[i].stage().stdout is None implies {
            let output = events[i]->BuiltinDone_1;
            let d = events[i]->BuiltinDone_2;
            &&& runs[i].is_last() ==> d.output == Some((StreamTo::Terminal, output))
            &&& !runs[i].is_last() ==> d.output is None && runs[i + 1].state()
                == PipeState::<P>::CapturedBytes(output)
        } by {
        assert(moves(runs[i], events[i], runs[i + 1]));
    }
    assert forall|i: int|
        0 <= i < events.len() - 1 && #[trigger] events[i] is BuiltinDone
            && events[i]->BuiltinDone_0 == Ok::<ShellStatus, String>(ShellStatus::Continue)
            && runs[i].stage().stdout is None && !runs[i].is_last() && events[i + 1] is Next
            && dispatch_of(runs[i + 1].registry(), runs[i + 1].stage().command)
            == Dispatch::External implies spawn_fed_with(
        events[i + 1]->Next_0,
        events[i]->BuiltinDone_1@,
    ) by {
        assert(moves(runs[i], events[i], runs[i + 1]));
        assert(moves(runs[i + 1], events[i + 1], runs[i + 2]));
        law_builtin_output_reaches_next_stage(
            runs[i],
            events[i]->BuiltinDone_1,
            events[i]->BuiltinDone_2,
            runs[i + 1],
            events[i + 1]->Next_0,
            runs[i + 2],
        );
    }
    assert forall|i: int|
        0 <= i < events.len() && #[trigger] events[i] is Next && runs[i].pending() is None
            && runs[i].index() == runs[i].stages().len() implies events[i]->Next_0 is Finish
        && events[i]->Next_0->Finish_result == Ok::<ShellStatus, ExecError>(
        ShellStatus::Continue,
    ) by {
        assert(moves(runs[i], events[i], runs[i + 1]));
    }
}

} // verus!
