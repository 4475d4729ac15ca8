use vstd::prelude::*;
use crate::tasks::{
    actions_view, variables_view, Action, ActionCommandV, ActionV, Task, TaskFile,
    TaskFileV, TaskV, Value, ValueV, Variable, VariableV, VariableValue, VariableValueV,
};
use crate::templater::{
    expand, trim_text, ExpandOutcome, TemplateError, TemplateErrV, Templating,
};

verus! {

/// The most deeply nested chain of task calls a run may build; one more
/// call fails the run rather than recurse without bound.
pub const MAX_CALL_DEPTH: usize = 64;

// ------------------------------------------------------------------
// Environment and process outcomes
// ------------------------------------------------------------------

/// The shell a command runs in: its own override, or the default.
pub open spec fn shell_of(shell: Option<Seq<char>>, default_shell: Seq<char>) -> Seq<char> {
    match shell {
        Option::Some(s) => s,
        Option::None => default_shell,
    }
}

/// Picks a command's shell: its own override, or `sh`.
pub fn shell_or_default(shell: Option<&String>) -> (r: String)
    ensures
        match shell {
            Option::Some(s) => r@ == s@,
            Option::None => r@ == "sh"@,
        },
{
    match shell {
        Option::Some(s) => s.clone(),
        Option::None => String::from_str("sh"),
    }
}

/// Where a run starts: the default shell and the starting working
/// directory.
#[derive(Debug)]
pub struct RunnerEnvironment {
    pub default_shell: String,
    pub working_dir: String,
}

impl Default for RunnerEnvironment {
    /// `sh` in the current directory.
    fn default() -> (r: RunnerEnvironment)
        ensures
            r.default_shell@ == "sh"@,
            r.working_dir@ == "."@,
    {
        RunnerEnvironment {
            default_shell: String::from_str("sh"),
            working_dir: String::from_str("."),
        }
    }
}

impl RunnerEnvironment {
    pub fn get_work_dir(&self) -> (r: String)
        ensures
            r@ == self.working_dir@,
    {
        self.working_dir.clone()
    }
}

/// What running one command came to: whether it succeeded, its exit code,
/// and its captured output.
#[derive(Debug)]
pub struct ExecuteResult {
    pub cmd: String,
    pub success: bool,
    pub code: i64,
    pub stdout: String,
    pub stderr: String,
}

impl Default for ExecuteResult {
    /// The outcome of having run nothing: success, no output.
    fn default() -> (r: ExecuteResult)
        ensures
            r.cmd@ == Seq::<char>::empty(),
            r.success == true,
            r.code == 0,
            r.stdout@ == Seq::<char>::empty(),
            r.stderr@ == Seq::<char>::empty(),
    {
        ExecuteResult {
            cmd: String::new(),
            success: true,
            code: 0,
            stdout: String::new(),
            stderr: String::new(),
        }
    }
}

// ------------------------------------------------------------------
// Results and errors
// ------------------------------------------------------------------

/// How a task run ends: every action done, a guard stopping it early, or
/// a failure.
#[derive(Debug, PartialEq, Eq, Structural, Clone, Copy)]
pub enum RunnerResult {
    Success,
    Skipped,
    Failure,
}

/// Why a run aborted.
#[derive(Debug)]
pub enum RunnerErrorData {
    /// Expanding a template failed.
    TemplateError(TemplateError),
    /// A command-sourced variable's command exited with a non-zero
    /// status.
    VariableResolveError { variable: String },
    /// The process running a command, or the directory change, failed in
    /// the environment itself.
    Io(String),
    /// A task call named a task the file does not hold.
    TaskNotFound { task: String },
    /// Task calls nested beyond the allowed depth.
    CallDepthExceeded,
}

/// A run-aborting error; it propagates through every calling task.
#[derive(Debug)]
pub struct RunnerError(pub RunnerErrorData);

/// The mathematical model of a run-aborting error.
pub enum RunnerErrV {
    Template(TemplateErrV),
    VarResolve(Seq<char>),
    Io(Seq<char>),
    TaskNotFound(Seq<char>),
    Depth,
}

impl View for RunnerError {
    type V = RunnerErrV;

    open spec fn view(&self) -> RunnerErrV {
        match self.0 {
            RunnerErrorData::TemplateError(e) => RunnerErrV::Template(e@),
            RunnerErrorData::VariableResolveError { variable } => RunnerErrV::VarResolve(
                variable@,
            ),
            RunnerErrorData::Io(m) => RunnerErrV::Io(m@),
            RunnerErrorData::TaskNotFound { task } => RunnerErrV::TaskNotFound(task@),
            RunnerErrorData::CallDepthExceeded => RunnerErrV::Depth,
        }
    }
}

// ------------------------------------------------------------------
// Effects and events
// ------------------------------------------------------------------

/// What a requested command execution is for; the caller may present each
/// kind differently, and a variable's command is never shown.
#[derive(Debug, PartialEq, Eq, Structural, Clone, Copy)]
pub enum ExecKind {
    Command,
    Guard,
    Variable,
}

/// A command the environment is asked to run: in this shell, in this
/// directory, attached to the terminal or captured.
#[derive(Debug)]
pub struct ExecRequest {
    pub shell: String,
    pub command: String,
    pub dir: String,
    pub tty: bool,
    pub kind: ExecKind,
}

#[verifier::ext_equal]
pub struct ExecRequestV {
    pub shell: Seq<char>,
    pub command: Seq<char>,
    pub dir: Seq<char>,
    pub tty: bool,
    pub kind: ExecKind,
}

impl View for ExecRequest {
    type V = ExecRequestV;

    open spec fn view(&self) -> ExecRequestV {
        ExecRequestV {
            shell: self.shell@,
            command: self.command@,
            dir: self.dir@,
            tty: self.tty,
            kind: self.kind,
        }
    }
}

/// A directory change the environment is asked to resolve against a base
/// directory.
#[derive(Debug)]
pub struct CdRequest {
    pub base: String,
    pub path: String,
}

#[verifier::ext_equal]
pub struct CdRequestV {
    pub base: Seq<char>,
    pub path: Seq<char>,
}

impl View for CdRequest {
    type V = CdRequestV;

    open spec fn view(&self) -> CdRequestV {
        CdRequestV { base: self.base@, path: self.path@ }
    }
}

/// What the machine asks of its caller next: nothing but another step, a
/// command to run, a directory to resolve, or the finished result.
#[derive(Debug)]
pub enum Effect {
    Working,
    Exec(ExecRequest),
    ChangeDir(CdRequest),
    Done(RunnerResult),
}

#[verifier::ext_equal]
pub enum EffectV {
    Working,
    Exec(ExecRequestV),
    ChangeDir(CdRequestV),
    Done(RunnerResult),
}

impl View for Effect {
    type V = EffectV;

    open spec fn view(&self) -> EffectV {
        match self {
            Effect::Working => EffectV::Working,
            Effect::Exec(q) => EffectV::Exec(q@),
            Effect::ChangeDir(q) => EffectV::ChangeDir(q@),
            Effect::Done(res) => EffectV::Done(*res),
        }
    }
}

/// What the caller answers with: nothing, a command's outcome, or the
/// changed directory; the error texts carry whatever the environment
/// reported.
#[derive(Debug)]
pub enum Event {
    Tick,
    Exec(Result<ExecuteResult, String>),
    Cd(Result<String, String>),
}

// ------------------------------------------------------------------
// The machine's state
// ------------------------------------------------------------------

/// What the innermost task invocation waits on.
#[derive(Debug, PartialEq, Eq, Structural, Clone, Copy)]
pub enum Awaiting {
    /// Nothing: the next tick resolves a variable or starts an action.
    Nothing,
    /// The outcome of a variable's command.
    VarCmd,
    /// The outcome of a command action.
    Command,
    /// The outcome of a guard's command.
    IfCmd,
    /// The resolved directory of a `cd` action.
    Cd,
    /// A called task's completion; never the innermost frame's state.
    Call,
}

/// One task invocation: its actions, its variables still to resolve, its
/// own template context and working directory, and what it waits on.
#[derive(Debug)]
pub struct Frame {
    pub task_name: String,
    pub actions: Vec<Action>,
    pub action_idx: usize,
    pub vars: Vec<Variable>,
    pub var_idx: usize,
    pub templating: Templating,
    pub dir: String,
    pub awaiting: Awaiting,
}

#[verifier::ext_equal]
pub struct FrameV {
    pub task_name: Seq<char>,
    pub actions: Seq<ActionV>,
    pub action_idx: int,
    pub vars: Seq<VariableV>,
    pub var_idx: int,
    pub ctx: Map<Seq<char>, ValueV>,
    pub dir: Seq<char>,
    pub awaiting: Awaiting,
}

impl View for Frame {
    type V = FrameV;

    open spec fn view(&self) -> FrameV {
        FrameV {
            task_name: self.task_name@,
            actions: actions_view(self.actions@),
            action_idx: self.action_idx as int,
            vars: variables_view(self.vars@),
            var_idx: self.var_idx as int,
            ctx: self.templating@,
            dir: self.dir@,
            awaiting: self.awaiting,
        }
    }
}

/// The action state machine: a stack of task invocations.  It never runs
/// a process itself; it hands `Effect`s out and takes `Event`s back, so
/// all its decisions are in verified code while the caller owns the
/// processes.
#[derive(Debug)]
pub struct Runner {
    pub frames: Vec<Frame>,
    pub environment: RunnerEnvironment,
}

pub open spec fn frames_view(s: Seq<Frame>) -> Seq<FrameV> {
    s.map_values(|f: Frame| f@)
}

impl View for Runner {
    type V = Seq<FrameV>;

    open spec fn view(&self) -> Seq<FrameV> {
        frames_view(self.frames@)
    }
}

/// What every reachable invocation frame satisfies: its indices are in
/// range, and what it waits on points at real work.
pub open spec fn frame_wf(f: FrameV) -> bool {
    &&& 0 <= f.action_idx <= f.actions.len()
    &&& 0 <= f.var_idx <= f.vars.len()
    &&& ((f.awaiting is Call || f.awaiting is Command || f.awaiting is IfCmd || f.awaiting is Cd)
        ==> f.action_idx < f.actions.len())
    &&& (f.awaiting is VarCmd ==> f.var_idx < f.vars.len())
}

/// What every reachable stack satisfies: each frame well formed, and
/// every frame but the innermost waiting on its called task.
pub open spec fn stack_wf(fs: Seq<FrameV>) -> bool {
    &&& (forall|i: int| 0 <= i < fs.len() ==> frame_wf(#[trigger] fs[i]))
    &&& (forall|i: int| 0 <= i < fs.len() - 1 ==> (#[trigger] fs[i].awaiting) is Call)
}

// ------------------------------------------------------------------
// The transition relation
// ------------------------------------------------------------------

/// What one step comes to: the new stack and the effect, or the error
/// that aborts the run.
pub enum StepV {
    Go(Seq<FrameV>, EffectV),
    Fail(RunnerErrV),
}

/// A fresh invocation frame for a task: its actions, the file's global
/// variables followed by its own, an empty context, and the caller's
/// working directory.
pub open spec fn mk_frame(file: TaskFileV, t: TaskV, name: Seq<char>, dir: Seq<char>) -> FrameV {
    FrameV {
        task_name: name,
        actions: t.actions,
        action_idx: 0,
        vars: file.variables + t.variables,
        var_idx: 0,
        ctx: Map::empty(),
        dir,
        awaiting: Awaiting::Nothing,
    }
}

/// The innermost frame, updated.
pub open spec fn set_top(frames: Seq<FrameV>, f: FrameV) -> Seq<FrameV> {
    frames.update(frames.len() - 1, f)
}

/// A finished innermost invocation: its frame pops, and its result
/// reaches the caller below, a failure felling each caller in turn.  The
/// last frame's result ends the run.
pub open spec fn finish(frames: Seq<FrameV>, result: RunnerResult) -> StepV
    decreases frames.len(),
{
    if frames.len() == 0 {
        StepV::Go(frames, EffectV::Done(result))
    } else {
        finish_popped(frames.drop_last(), result)
    }
}

/// The stack after the finished frame popped, taking its result.
pub open spec fn finish_popped(rest: Seq<FrameV>, result: RunnerResult) -> StepV
    decreases rest.len(), 1int,
{
    if rest.len() == 0 {
        StepV::Go(rest, EffectV::Done(result))
    } else if result is Failure {
        finish_popped(rest.drop_last(), RunnerResult::Failure)
    } else {
        let parent = rest.last();
        StepV::Go(
            set_top(
                rest,
                FrameV { action_idx: parent.action_idx + 1, awaiting: Awaiting::Nothing, ..parent },
            ),
            EffectV::Working,
        )
    }
}

/// Resolves the next variable of the innermost frame: a static value goes
/// into the context (a string expanded first), a command action asks the
/// caller to run it captured (never attached, since its output becomes
/// the value), and anything else cannot source a variable.
pub open spec fn resolve_step(shell: Seq<char>, frames: Seq<FrameV>) -> StepV
    recommends
        frames.len() > 0,
        frames.last().var_idx < frames.last().vars.len(),
{
    let top = frames.last();
    let var = top.vars[top.var_idx];
    match var.value {
        VariableValueV::Static(v) => match v {
            ValueV::Text(s) => match expand(s, top.ctx) {
                ExpandOutcome::Done(e) => StepV::Go(
                    set_top(
                        frames,
                        FrameV {
                            ctx: top.ctx.insert(var.name, ValueV::Text(e)),
                            var_idx: top.var_idx + 1,
                            ..top
                        },
                    ),
                    EffectV::Working,
                ),
                ExpandOutcome::Undefined(n) => StepV::Fail(
                    RunnerErrV::Template(TemplateErrV::Undefined(n)),
                ),
                ExpandOutcome::Malformed => StepV::Fail(
                    RunnerErrV::Template(TemplateErrV::Syntax(s)),
                ),
            },
            other => StepV::Go(
                set_top(
                    frames,
                    FrameV {
                        ctx: top.ctx.insert(var.name, other),
                        var_idx: top.var_idx + 1,
                        ..top
                    },
                ),
                EffectV::Working,
            ),
        },
        VariableValueV::Action(a) => match a {
            ActionV::Command(cmd) => match expand(cmd.command, top.ctx) {
                ExpandOutcome::Done(t) => StepV::Go(
                    set_top(frames, FrameV { awaiting: Awaiting::VarCmd, ..top }),
                    EffectV::Exec(
                        ExecRequestV {
                            shell: shell_of(cmd.shell, shell),
                            command: t,
                            dir: top.dir,
                            tty: false,
                            kind: ExecKind::Variable,
                        },
                    ),
                ),
                ExpandOutcome::Undefined(n) => StepV::Fail(
                    RunnerErrV::Template(TemplateErrV::Undefined(n)),
                ),
                ExpandOutcome::Malformed => StepV::Fail(
                    RunnerErrV::Template(TemplateErrV::Syntax(cmd.command)),
                ),
            },
            _ => StepV::Fail(RunnerErrV::VarResolve(var.name)),
        },
    }
}

/// Starts the next action of the innermost frame: a command or guard asks
/// the caller to run it, a task call pushes a fresh invocation, a `cd`
/// asks the caller to resolve the directory, and a no-op just advances.
pub open spec fn action_step(file: TaskFileV, shell: Seq<char>, frames: Seq<FrameV>) -> StepV
    recommends
        frames.len() > 0,
        frames.last().action_idx < frames.last().actions.len(),
{
    let top = frames.last();
    match top.actions[top.action_idx] {
        ActionV::Noop => StepV::Go(
            set_top(frames, FrameV { action_idx: top.action_idx + 1, ..top }),
            EffectV::Working,
        ),
        ActionV::Command(cmd) => match expand(cmd.command, top.ctx) {
            ExpandOutcome::Done(t) => StepV::Go(
                set_top(frames, FrameV { awaiting: Awaiting::Command, ..top }),
                EffectV::Exec(
                    ExecRequestV {
                        shell: shell_of(cmd.shell, shell),
                        command: t,
                        dir: top.dir,
                        tty: cmd.tty,
                        kind: ExecKind::Command,
                    },
                ),
            ),
            ExpandOutcome::Undefined(n) => StepV::Fail(
                RunnerErrV::Template(TemplateErrV::Undefined(n)),
            ),
            ExpandOutcome::Malformed => StepV::Fail(
                RunnerErrV::Template(TemplateErrV::Syntax(cmd.command)),
            ),
        },
        ActionV::If(cmd) => match expand(cmd.command, top.ctx) {
            ExpandOutcome::Done(t) => StepV::Go(
                set_top(frames, FrameV { awaiting: Awaiting::IfCmd, ..top }),
                EffectV::Exec(
                    ExecRequestV {
                        shell: shell_of(cmd.shell, shell),
                        command: t,
                        dir: top.dir,
                        tty: false,
                        kind: ExecKind::Guard,
                    },
                ),
            ),
            ExpandOutcome::Undefined(n) => StepV::Fail(
                RunnerErrV::Template(TemplateErrV::Undefined(n)),
            ),
            ExpandOutcome::Malformed => StepV::Fail(
                RunnerErrV::Template(TemplateErrV::Syntax(cmd.command)),
            ),
        },
        ActionV::Task(call) => {
            if !file.tasks_map().contains_key(call.name) {
                StepV::Fail(RunnerErrV::TaskNotFound(call.name))
            } else if frames.len() >= MAX_CALL_DEPTH {
                StepV::Fail(RunnerErrV::Depth)
            } else {
                StepV::Go(
                    set_top(frames, FrameV { awaiting: Awaiting::Call, ..top }).push(
                        mk_frame(file, file.tasks_map()[call.name], call.name, top.dir),
                    ),
                    EffectV::Working,
                )
            }
        },
        ActionV::Cd(path) => StepV::Go(
            set_top(frames, FrameV { awaiting: Awaiting::Cd, ..top }),
            EffectV::ChangeDir(CdRequestV { base: top.dir, path }),
        ),
    }
}

/// A tick: resolve the next variable, start the next action, or finish
/// the invocation with success.
pub open spec fn tick_step(file: TaskFileV, shell: Seq<char>, frames: Seq<FrameV>) -> StepV
    recommends
        frames.len() > 0,
{
    let top = frames.last();
    if top.var_idx < top.vars.len() {
        resolve_step(shell, frames)
    } else if top.action_idx < top.actions.len() {
        action_step(file, shell, frames)
    } else {
        finish(frames, RunnerResult::Success)
    }
}

/// Whether a trimmed captured output reads `false`.
pub open spec fn falsy_output(stdout: Seq<char>) -> bool {
    trim_text(stdout) == seq!['f', 'a', 'l', 's', 'e']
}

/// The whole transition relation: what the machine does with an event,
/// given the file and the default shell.  It is meant for the event the
/// innermost frame waits on (`expects_spec`); any other pairing is
/// modeled as an environment fault.
pub open spec fn step_spec(
    file: TaskFileV,
    shell: Seq<char>,
    frames: Seq<FrameV>,
    event: Event,
) -> StepV
    recommends
        frames.len() > 0,
{
    let top = frames.last();
    match (top.awaiting, event) {
        (Awaiting::Nothing, Event::Tick) => tick_step(file, shell, frames),
        (Awaiting::VarCmd, Event::Exec(res)) => match res {
            Result::Err(m) => StepV::Fail(RunnerErrV::Io(m@)),
            Result::Ok(o) => {
                if !o.success {
                    StepV::Fail(RunnerErrV::VarResolve(top.vars[top.var_idx].name))
                } else {
                    StepV::Go(
                        set_top(
                            frames,
                            FrameV {
                                ctx: top.ctx.insert(
                                    top.vars[top.var_idx].name,
                                    ValueV::Text(trim_text(o.stdout@)),
                                ),
                                var_idx: top.var_idx + 1,
                                awaiting: Awaiting::Nothing,
                                ..top
                            },
                        ),
                        EffectV::Working,
                    )
                }
            },
        },
        (Awaiting::Command, Event::Exec(res)) => match res {
            Result::Err(m) => StepV::Fail(RunnerErrV::Io(m@)),
            Result::Ok(o) => {
                if o.success {
                    StepV::Go(
                        set_top(
                            frames,
                            FrameV {
                                action_idx: top.action_idx + 1,
                                awaiting: Awaiting::Nothing,
                                ..top
                            },
                        ),
                        EffectV::Working,
                    )
                } else {
                    finish(frames, RunnerResult::Failure)
                }
            },
        },
        (Awaiting::IfCmd, Event::Exec(res)) => match res {
            Result::Err(m) => StepV::Fail(RunnerErrV::Io(m@)),
            Result::Ok(o) => {
                if !o.success || falsy_output(o.stdout@) {
                    finish(frames, RunnerResult::Skipped)
                } else {
                    StepV::Go(
                        set_top(
                            frames,
                            FrameV {
                                action_idx: top.action_idx + 1,
                                awaiting: Awaiting::Nothing,
                                ..top
                            },
                        ),
                        EffectV::Working,
                    )
                }
            },
        },
        (Awaiting::Cd, Event::Cd(res)) => match res {
            Result::Err(m) => StepV::Fail(RunnerErrV::Io(m@)),
            Result::Ok(d) => StepV::Go(
                set_top(
                    frames,
                    FrameV {
                        dir: d@,
                        action_idx: top.action_idx + 1,
                        awaiting: Awaiting::Nothing,
                        ..top
                    },
                ),
                EffectV::Working,
            ),
        },
        _ => StepV::Fail(RunnerErrV::Io(Seq::empty())),
    }
}

/// Whether an event is the one the machine waits for.
pub open spec fn expects_spec(frames: Seq<FrameV>, event: Event) -> bool {
    frames.len() > 0 && (match (frames.last().awaiting, event) {
        (Awaiting::Nothing, Event::Tick) => true,
        (Awaiting::VarCmd, Event::Exec(_)) => true,
        (Awaiting::Command, Event::Exec(_)) => true,
        (Awaiting::IfCmd, Event::Exec(_)) => true,
        (Awaiting::Cd, Event::Cd(_)) => true,
        _ => false,
    })
}


// ------------------------------------------------------------------
// Executable helpers
// ------------------------------------------------------------------

/// Removes leading and trailing blanks from captured output.
pub fn trim_string(s: &str) -> (r: String)
    ensures
        r@ == trim_text(s@),
{
    let cs = crate::util::str_chars(s);
    let t = crate::templater::trim_chars(&cs);
    crate::util::chars_string(&t)
}

/// Whether a captured output reads `false` once trimmed.
pub fn is_falsy(s: &str) -> (r: bool)
    ensures
        r == falsy_output(s@),
{
    let cs = crate::util::str_chars(s);
    let t = crate::templater::trim_chars(&cs);
    let mut falsetext: Vec<char> = Vec::new();
    falsetext.push('f');
    falsetext.push('a');
    falsetext.push('l');
    falsetext.push('s');
    falsetext.push('e');
    proof {
        assert(falsetext@ =~= seq!['f', 'a', 'l', 's', 'e']);
    }
    crate::templater::eq_chars(&t, &falsetext)
}

impl Runner {
    /// A machine with no run started.
    pub fn for_taskfile(environment: RunnerEnvironment) -> (r: Runner)
        ensures
            r@ == Seq::<FrameV>::empty(),
            r.environment == environment,
    {
        let r = Runner { frames: Vec::new(), environment };
        proof {
            assert(r@ =~= Seq::<FrameV>::empty());
        }
        r
    }

    /// Whether a run is under way.
    pub fn running(&self) -> (r: bool)
        ensures
            r == (self@.len() > 0),
    {
        self.frames.len() > 0
    }

    /// Whether this event is the one the machine waits for.
    pub fn expects(&self, event: &Event) -> (r: bool)
        ensures
            r == expects_spec(self@, *event),
    {
        if self.frames.len() == 0 {
            return false;
        }
        let k = self.frames.len() - 1;
        match (self.frames[k].awaiting, event) {
            (Awaiting::Nothing, Event::Tick) => true,
            (Awaiting::VarCmd, Event::Exec(_)) => true,
            (Awaiting::Command, Event::Exec(_)) => true,
            (Awaiting::IfCmd, Event::Exec(_)) => true,
            (Awaiting::Cd, Event::Cd(_)) => true,
            _ => false,
        }
    }

    /// Builds the invocation frame for a task, inheriting a directory.
    fn push_frame(&mut self, task_file: &TaskFile, t: &Task, name: &str, dir: String)
        ensures
            final(self)@ == old(self)@.push(mk_frame(task_file@, t@, name@, dir@)),
            final(self).environment == old(self).environment,
    {
        let mut vars = crate::tasks::dup_variables(&task_file.variables);
        let mut local = crate::tasks::dup_variables(&t.variables);
        vars.append(&mut local);
        proof {
            assert(variables_view(vars@) =~= task_file@.variables + t@.variables);
        }
        let frame = Frame {
            task_name: name.to_owned(),
            actions: crate::tasks::dup_actions(&t.actions),
            action_idx: 0,
            vars,
            var_idx: 0,
            templating: Templating::default(),
            dir,
            awaiting: Awaiting::Nothing,
        };
        proof {
            assert(frame@ =~~= mk_frame(task_file@, t@, name@, dir@));
        }
        self.frames.push(frame);
        proof {
            assert(self@ =~~= old(self)@.push(mk_frame(task_file@, t@, name@, dir@)));
        }
    }

    /// Begins running the named task: the run's single frame starts in
    /// the environment's working directory, with nothing resolved yet.  A
    /// name the file does not hold is the task-not-found error.
    pub fn start(&mut self, task_file: &TaskFile, task_name: &str) -> (r: Result<
        Effect,
        RunnerError,
    >)
        requires
            old(self)@.len() == 0,
        ensures
            final(self).environment == old(self).environment,
            match r {
                Result::Ok(e) => task_file@.tasks_map().contains_key(task_name@) && e@
                    == EffectV::Working && final(self)@ == seq![
                    mk_frame(
                        task_file@,
                        task_file@.tasks_map()[task_name@],
                        task_name@,
                        old(self).environment.working_dir@,
                    ),
                ],
                Result::Err(er) => !task_file@.tasks_map().contains_key(task_name@) && er@
                    == RunnerErrV::TaskNotFound(task_name@) && final(self)@.len() == 0,
            },
    {
        let t = match task_file.get_task(task_name) {
            Option::None => {
                return Result::Err(
                    RunnerError(RunnerErrorData::TaskNotFound { task: task_name.to_owned() }),
                );
            },
            Option::Some(t) => t,
        };
        let dir = self.environment.get_work_dir();
        self.push_frame(task_file, t, task_name, dir);
        proof {
            assert(self@ =~~= seq![
                mk_frame(
                    task_file@,
                    task_file@.tasks_map()[task_name@],
                    task_name@,
                    old(self).environment.working_dir@,
                ),
            ]);
        }
        Result::Ok(Effect::Working)
    }

    /// Pops the finished innermost invocation and carries its result to
    /// each caller in turn: a failure fells them all, anything else lets
    /// the caller go on with its next action.
    fn pop_finish(&mut self, result: RunnerResult) -> (r: Result<Effect, RunnerError>)
        requires
            old(self)@.len() > 0,
            stack_wf(old(self)@),
        ensures
            final(self).environment == old(self).environment,
            finish(old(self)@, result) is Go,
            r matches Result::Ok(e) && e@ == finish(old(self)@, result)->Go_1 && final(self)@
                == finish(old(self)@, result)->Go_0,
            stack_wf(final(self)@),
    {
        let ghost target = finish(old(self)@, result);
        loop
            invariant
                self@.len() > 0,
                stack_wf(self@),
                self.environment == old(self).environment,
                target == finish_popped(self@.drop_last(), result),
                target == finish(old(self)@, result),
            decreases self@.len(),
        {
            let ghost prior = self@;
            self.frames.pop();
            proof {
                assert(self@ =~= prior.drop_last());
            }
            if self.frames.len() == 0 {
                proof {
                    assert(target == StepV::Go(self@, EffectV::Done(result)));
                }
                return Result::Ok(Effect::Done(result));
            }
            match result {
                RunnerResult::Failure => {},
                _ => {
                    let k = self.frames.len() - 1;
                    let ghost before = self@;
                    proof {
                        assert(before.last() == before[k as int]);
                        assert(before[k as int] == self.frames@[k as int]@);
                        assert(frame_wf(before[k as int]));
                        assert(before.last().awaiting is Call);
                    }
                    let n = self.frames[k].actions.len();
                    proof {
                        assert(self.frames@[k as int].action_idx < n);
                    }
                    self.frames[k].action_idx = self.frames[k].action_idx + 1;
                    self.frames[k].awaiting = Awaiting::Nothing;
                    proof {
                        let parent = before.last();
                        assert(self@ =~~= set_top(
                            before,
                            FrameV {
                                action_idx: parent.action_idx + 1,
                                awaiting: Awaiting::Nothing,
                                ..parent
                            },
                        ));
                        assert(stack_wf(self@));
                    }
                    return Result::Ok(Effect::Working);
                },
            }
        }
    }
}


impl Runner {
    /// One transition of the action state machine, exactly as `step_spec`
    /// describes it: the event answers what the machine last asked for,
    /// and the returned effect is its next request.  An error aborts the
    /// whole run and empties the stack.
    #[verifier::loop_isolation(false)]
    #[verifier::rlimit(100)]
    pub fn step(&mut self, task_file: &TaskFile, event: Event) -> (r: Result<Effect, RunnerError>)
        requires
            expects_spec(old(self)@, event),
            stack_wf(old(self)@),
        ensures
            final(self).environment == old(self).environment,
            match step_spec(task_file@, old(self).environment.default_shell@, old(self)@, event) {
                StepV::Go(fs, eff) => r matches Result::Ok(e) && e@ == eff && final(self)@ == fs
                    && stack_wf(final(self)@),
                StepV::Fail(ev) => r matches Result::Err(er) && er@ == ev && final(self)@.len()
                    == 0,
            },
    {
        let k = self.frames.len() - 1;
        let ghost frames0 = self@;
        let ghost top = frames0.last();
        let ghost shell0 = self.environment.default_shell@;
        proof {
            assert(top == frames0[k as int]);
            assert(frames0[k as int] == self.frames@[k as int]@);
            assert(frame_wf(top));
        }
        match event {
            Event::Tick => {
                let vlen = self.frames[k].vars.len();
                let alen = self.frames[k].actions.len();
                if self.frames[k].var_idx < vlen {
                    let fr = &self.frames[k];
                    let var = &fr.vars[fr.var_idx];
                    proof {
                        assert(var@ == top.vars[top.var_idx]);
                    }
                    match &var.value {
                        VariableValue::Static(v) => match v {
                            Value::Text(s) => match fr.templating.process(s.as_str()) {
                                Result::Ok(e) => {
                                    let name = var.name.clone();
                                    self.frames[k].templating.add_variable(
                                        name.as_str(),
                                        Value::Text(e),
                                    );
                                    self.frames[k].var_idx = self.frames[k].var_idx + 1;
                                    proof {
                                        assert(self@ =~~= set_top(
                                            frames0,
                                            FrameV {
                                                ctx: top.ctx.insert(
                                                    top.vars[top.var_idx].name,
                                                    ValueV::Text(
                                                        expand(s@, top.ctx)->Done_0,
                                                    ),
                                                ),
                                                var_idx: top.var_idx + 1,
                                                ..top
                                            },
                                        ));
                                        assert(stack_wf(self@));
                                    }
                                    Result::Ok(Effect::Working)
                                },
                                Result::Err(te) => {
                                    self.frames.truncate(0);
                                    proof {
                                        assert(self@ =~= Seq::<FrameV>::empty());
                                    }
                                    Result::Err(RunnerError(RunnerErrorData::TemplateError(te)))
                                },
                            },
                            other => {
                                let name = var.name.clone();
                                let dupped = other.dup();
                                self.frames[k].templating.add_variable(name.as_str(), dupped);
                                self.frames[k].var_idx = self.frames[k].var_idx + 1;
                                proof {
                                    assert(self@ =~~= set_top(
                                        frames0,
                                        FrameV {
                                            ctx: top.ctx.insert(
                                                top.vars[top.var_idx].name,
                                                top.vars[top.var_idx].value->Static_0,
                                            ),
                                            var_idx: top.var_idx + 1,
                                            ..top
                                        },
                                    ));
                                    assert(stack_wf(self@));
                                }
                                Result::Ok(Effect::Working)
                            },
                        },
                        VariableValue::Action(a) => match a {
                            Action::Command(cmd) => match fr.templating.process(
                                cmd.command.as_str(),
                            ) {
                                Result::Ok(t) => {
                                    let shell = match &cmd.shell {
                                        Option::Some(sh) => sh.clone(),
                                        Option::None => self.environment.default_shell.clone(),
                                    };
                                    let req = ExecRequest {
                                        shell,
                                        command: t,
                                        dir: fr.dir.clone(),
                                        tty: false,
                                        kind: ExecKind::Variable,
                                    };
                                    self.frames[k].awaiting = Awaiting::VarCmd;
                                    proof {
                                        assert(self@ =~~= set_top(
                                            frames0,
                                            FrameV { awaiting: Awaiting::VarCmd, ..top },
                                        ));
                                        assert(stack_wf(self@));
                                        assert(req@ =~~= resolve_step(
                                            shell0,
                                            frames0,
                                        )->Go_1->Exec_0);
                                    }
                                    Result::Ok(Effect::Exec(req))
                                },
                                Result::Err(te) => {
                                    self.frames.truncate(0);
                                    proof {
                                        assert(self@ =~= Seq::<FrameV>::empty());
                                    }
                                    Result::Err(RunnerError(RunnerErrorData::TemplateError(te)))
                                },
                            },
                            _ => {
                                let name = var.name.clone();
                                self.frames.truncate(0);
                                proof {
                                    assert(self@ =~= Seq::<FrameV>::empty());
                                }
                                Result::Err(
                                    RunnerError(
                                        RunnerErrorData::VariableResolveError { variable: name },
                                    ),
                                )
                            },
                        },
                    }
                } else if self.frames[k].action_idx < alen {
                    let fr = &self.frames[k];
                    let action = &fr.actions[fr.action_idx];
                    proof {
                        assert(action@ == top.actions[top.action_idx]);
                    }
                    match action {
                        Action::Noop => {
                            self.frames[k].action_idx = self.frames[k].action_idx + 1;
                            proof {
                                assert(self@ =~~= set_top(
                                    frames0,
                                    FrameV { action_idx: top.action_idx + 1, ..top },
                                ));
                                assert(stack_wf(self@));
                            }
                            Result::Ok(Effect::Working)
                        },
                        Action::Command(cmd) => match fr.templating.process(
                            cmd.command.as_str(),
                        ) {
                            Result::Ok(t) => {
                                let shell = match &cmd.shell {
                                    Option::Some(sh) => sh.clone(),
                                    Option::None => self.environment.default_shell.clone(),
                                };
                                let req = ExecRequest {
                                    shell,
                                    command: t,
                                    dir: fr.dir.clone(),
                                    tty: cmd.tty,
                                    kind: ExecKind::Command,
                                };
                                self.frames[k].awaiting = Awaiting::Command;
                                proof {
                                    assert(self@ =~~= set_top(
                                        frames0,
                                        FrameV { awaiting: Awaiting::Command, ..top },
                                    ));
                                    assert(stack_wf(self@));
                                    assert(req@ =~~= action_step(
                                        task_file@,
                                        shell0,
                                        frames0,
                                    )->Go_1->Exec_0);
                                }
                                Result::Ok(Effect::Exec(req))
                            },
                            Result::Err(te) => {
                                self.frames.truncate(0);
                                proof {
                                    assert(self@ =~= Seq::<FrameV>::empty());
                                }
                                Result::Err(RunnerError(RunnerErrorData::TemplateError(te)))
                            },
                        },
                        Action::If(cmd) => match fr.templating.process(cmd.command.as_str()) {
                            Result::Ok(t) => {
                                let shell = match &cmd.shell {
                                    Option::Some(sh) => sh.clone(),
                                    Option::None => self.environment.default_shell.clone(),
                                };
                                let req = ExecRequest {
                                    shell,
                                    command: t,
                                    dir: fr.dir.clone(),
                                    tty: false,
                                    kind: ExecKind::Guard,
                                };
                                self.frames[k].awaiting = Awaiting::IfCmd;
                                proof {
                                    assert(self@ =~~= set_top(
                                        frames0,
                                        FrameV { awaiting: Awaiting::IfCmd, ..top },
                                    ));
                                    assert(stack_wf(self@));
                                    assert(req@ =~~= action_step(
                                        task_file@,
                                        shell0,
                                        frames0,
                                    )->Go_1->Exec_0);
                                }
                                Result::Ok(Effect::Exec(req))
                            },
                            Result::Err(te) => {
                                self.frames.truncate(0);
                                proof {
                                    assert(self@ =~= Seq::<FrameV>::empty());
                                }
                                Result::Err(RunnerError(RunnerErrorData::TemplateError(te)))
                            },
                        },
                        Action::Task(call) => {
                            let name = call.name.clone();
                            let dir = fr.dir.clone();
                            match task_file.get_task(name.as_str()) {
                                Option::None => {
                                    self.frames.truncate(0);
                                    proof {
                                        assert(self@ =~= Seq::<FrameV>::empty());
                                    }
                                    Result::Err(
                                        RunnerError(RunnerErrorData::TaskNotFound { task: name }),
                                    )
                                },
                                Option::Some(t) => {
                                    if self.frames.len() >= MAX_CALL_DEPTH {
                                        self.frames.truncate(0);
                                        proof {
                                            assert(self@ =~= Seq::<FrameV>::empty());
                                        }
                                        Result::Err(
                                            RunnerError(RunnerErrorData::CallDepthExceeded),
                                        )
                                    } else {
                                        self.frames[k].awaiting = Awaiting::Call;
                                        let ghost mid = self@;
                                        proof {
                                            assert(mid =~~= set_top(
                                                frames0,
                                                FrameV { awaiting: Awaiting::Call, ..top },
                                            ));
                                        }
                                        self.push_frame(task_file, t, name.as_str(), dir);
                                        proof {
                                            assert(self@ == mid.push(
                                                mk_frame(
                                                    task_file@,
                                                    task_file@.tasks_map()[name@],
                                                    name@,
                                                    top.dir,
                                                ),
                                            ));
                                            assert(stack_wf(self@));
                                        }
                                        Result::Ok(Effect::Working)
                                    }
                                },
                            }
                        },
                        Action::Cd(path) => {
                            let req = CdRequest { base: fr.dir.clone(), path: path.clone() };
                            self.frames[k].awaiting = Awaiting::Cd;
                            proof {
                                assert(self@ =~~= set_top(
                                    frames0,
                                    FrameV { awaiting: Awaiting::Cd, ..top },
                                ));
                                assert(stack_wf(self@));
                                assert(req@ =~~= action_step(
                                    task_file@,
                                    shell0,
                                    frames0,
                                )->Go_1->ChangeDir_0);
                            }
                            Result::Ok(Effect::ChangeDir(req))
                        },
                    }
                } else {
                    self.pop_finish(RunnerResult::Success)
                }
            },
            Event::Exec(res) => {
                let awaiting = self.frames[k].awaiting;
                match res {
                    Result::Err(m) => {
                        self.frames.truncate(0);
                        proof {
                            assert(self@ =~= Seq::<FrameV>::empty());
                        }
                        Result::Err(RunnerError(RunnerErrorData::Io(m)))
                    },
                    Result::Ok(o) => match awaiting {
                        Awaiting::VarCmd => {
                            let vn = self.frames[k].vars.len();
                            proof {
                                assert(self.frames@[k as int].var_idx < vn);
                            }
                            if !o.success {
                                let name = self.frames[k].vars[self.frames[k].var_idx]
                                    .name
                                    .clone();
                                self.frames.truncate(0);
                                proof {
                                    assert(self@ =~= Seq::<FrameV>::empty());
                                }
                                Result::Err(
                                    RunnerError(
                                        RunnerErrorData::VariableResolveError { variable: name },
                                    ),
                                )
                            } else {
                                let trimmed = trim_string(o.stdout.as_str());
                                let name = self.frames[k].vars[self.frames[k].var_idx]
                                    .name
                                    .clone();
                                self.frames[k].templating.add_variable(
                                    name.as_str(),
                                    Value::Text(trimmed),
                                );
                                self.frames[k].var_idx = self.frames[k].var_idx + 1;
                                self.frames[k].awaiting = Awaiting::Nothing;
                                proof {
                                    assert(self@ =~~= set_top(
                                        frames0,
                                        FrameV {
                                            ctx: top.ctx.insert(
                                                top.vars[top.var_idx].name,
                                                ValueV::Text(trim_text(o.stdout@)),
                                            ),
                                            var_idx: top.var_idx + 1,
                                            awaiting: Awaiting::Nothing,
                                            ..top
                                        },
                                    ));
                                    assert(stack_wf(self@));
                                }
                                Result::Ok(Effect::Working)
                            }
                        },
                        Awaiting::Command => {
                            let an = self.frames[k].actions.len();
                            proof {
                                assert(self.frames@[k as int].action_idx < an);
                            }
                            if o.success {
                                self.frames[k].action_idx = self.frames[k].action_idx + 1;
                                self.frames[k].awaiting = Awaiting::Nothing;
                                proof {
                                    assert(self@ =~~= set_top(
                                        frames0,
                                        FrameV {
                                            action_idx: top.action_idx + 1,
                                            awaiting: Awaiting::Nothing,
                                            ..top
                                        },
                                    ));
                                    assert(stack_wf(self@));
                                }
                                Result::Ok(Effect::Working)
                            } else {
                                self.pop_finish(RunnerResult::Failure)
                            }
                        },
                        Awaiting::IfCmd => {
                            let an = self.frames[k].actions.len();
                            proof {
                                assert(self.frames@[k as int].action_idx < an);
                            }
                            if !o.success || is_falsy(o.stdout.as_str()) {
                                self.pop_finish(RunnerResult::Skipped)
                            } else {
                                self.frames[k].action_idx = self.frames[k].action_idx + 1;
                                self.frames[k].awaiting = Awaiting::Nothing;
                                proof {
                                    assert(self@ =~~= set_top(
                                        frames0,
                                        FrameV {
                                            action_idx: top.action_idx + 1,
                                            awaiting: Awaiting::Nothing,
                                            ..top
                                        },
                                    ));
                                    assert(stack_wf(self@));
                                }
                                Result::Ok(Effect::Working)
                            }
                        },
                        _ => {
                            proof {
                                assert(false);
                            }
                            Result::Err(RunnerError(RunnerErrorData::Io(String::new())))
                        },
                    },
                }
            },
            Event::Cd(res) => match res {
                Result::Err(m) => {
                    self.frames.truncate(0);
                    proof {
                        assert(self@ =~= Seq::<FrameV>::empty());
                    }
                    Result::Err(RunnerError(RunnerErrorData::Io(m)))
                },
                Result::Ok(d) => {
                    let an = self.frames[k].actions.len();
                    proof {
                        assert(self.frames@[k as int].action_idx < an);
                    }
                    self.frames[k].dir = d;
                    self.frames[k].action_idx = self.frames[k].action_idx + 1;
                    self.frames[k].awaiting = Awaiting::Nothing;
                    proof {
                        let dv = self.frames@[k as int].dir@;
                        assert(self@ =~~= set_top(
                            frames0,
                            FrameV {
                                dir: dv,
                                action_idx: top.action_idx + 1,
                                awaiting: Awaiting::Nothing,
                                ..top
                            },
                        ));
                        assert(stack_wf(self@));
                    }
                    Result::Ok(Effect::Working)
                },
            },
        }
    }
}


// ------------------------------------------------------------------
// Laws
// ------------------------------------------------------------------

/// The context of a frame holds exactly the names of the variables
/// already resolved: those declared strictly before `var_idx`.
pub open spec fn ctx_names_resolved(f: FrameV) -> bool {
    forall|n: Seq<char>|
        #[trigger] f.ctx.contains_key(n) <==> exists|i: int|
            0 <= i < f.var_idx && (#[trigger] f.vars[i]).name == n
}

/// A fresh invocation frame starts with nothing resolved and an empty
/// context, so the tracking invariant holds from the first step.
pub proof fn lemma_fresh_frame_ctx_names(file: TaskFileV, t: TaskV, name: Seq<char>, dir: Seq<
    char,
>)
    ensures
        ctx_names_resolved(mk_frame(file, t, name, dir)),
{
}

/// While a frame is still resolving its variables, every step the
/// machine takes keeps the context holding exactly the already-declared
/// names: a resolved variable enters under its name, and nothing else
/// enters.
pub proof fn lemma_resolution_preserves_ctx_names(
    file: TaskFileV,
    shell: Seq<char>,
    frames: Seq<FrameV>,
    event: Event,
)
    requires
        frames.len() > 0,
        expects_spec(frames, event),
        frames.last().awaiting is Nothing || frames.last().awaiting is VarCmd,
        ctx_names_resolved(frames.last()),
        0 <= frames.last().var_idx < frames.last().vars.len(),
    ensures
        match step_spec(file, shell, frames, event) {
            StepV::Go(fs, _) => fs.len() == frames.len() && ctx_names_resolved(fs.last()),
            StepV::Fail(_) => true,
        },
{
    let top = frames.last();
    match step_spec(file, shell, frames, event) {
        StepV::Go(fs, _) => {
            let newtop = fs.last();
            assert(fs.len() == frames.len());
            if newtop.var_idx == top.var_idx {
                assert(newtop.ctx == top.ctx);
                assert(newtop.vars == top.vars);
            } else {
                let name = top.vars[top.var_idx].name;
                assert(newtop.var_idx == top.var_idx + 1);
                assert(forall|n: Seq<char>|
                    #[trigger] newtop.ctx.contains_key(n) <==> (n == name
                        || top.ctx.contains_key(n)));
                assert forall|n: Seq<char>| #[trigger] newtop.ctx.contains_key(n) implies exists|
                    i: int,
                |
                    0 <= i < newtop.var_idx && (#[trigger] newtop.vars[i]).name == n by {
                    if n == name {
                        assert(newtop.vars[top.var_idx].name == n);
                    } else {
                        let i = choose|i: int| 0 <= i < top.var_idx && (#[trigger] top.vars[i]).name
                            == n;
                        assert(newtop.vars[i].name == n);
                    }
                }
                assert forall|n: Seq<char>|
                    (exists|i: int| 0 <= i < newtop.var_idx && (#[trigger] newtop.vars[i]).name
                        == n) implies #[trigger] newtop.ctx.contains_key(n) by {
                    let i = choose|i: int|
                        0 <= i < newtop.var_idx && (#[trigger] newtop.vars[i]).name == n;
                    if i < top.var_idx {
                        assert(top.vars[i].name == n);
                        assert(top.ctx.contains_key(n));
                    } else {
                        assert(n == name);
                    }
                }
            }
        },
        StepV::Fail(_) => {},
    }
}

/// Whether a name is that of a variable declared strictly before the
/// frame's next unresolved one.
pub open spec fn declared_earlier(f: FrameV, n: Seq<char>) -> bool {
    exists|i: int| 0 <= i < f.var_idx && (#[trigger] f.vars[i]).name == n
}

/// A static string variable may reference any variable declared strictly
/// earlier in its resolution pass, and only those: with the context
/// tracking the already-declared names, resolving it succeeds whenever
/// its well-formed template references only earlier names, and an
/// undefined-reference failure always names a variable that was not
/// declared earlier.
pub proof fn lemma_static_variable_references(shell: Seq<char>, frames: Seq<FrameV>)
    requires
        frames.len() > 0,
        frames.last().var_idx < frames.last().vars.len(),
        frames.last().vars[frames.last().var_idx].value is Static,
        frames.last().vars[frames.last().var_idx].value->Static_0 is Text,
        ctx_names_resolved(frames.last()),
        crate::templater::template_wf(
            frames.last().vars[frames.last().var_idx].value->Static_0->Text_0,
        ),
    ensures
        ({
            let top = frames.last();
            let s = top.vars[top.var_idx].value->Static_0->Text_0;
            &&& ((forall|j: int|
                0 <= j < crate::templater::template_refs(s).len() ==> declared_earlier(
                    top,
                    #[trigger] crate::templater::template_refs(s)[j],
                )) ==> resolve_step(shell, frames) is Go)
            &&& (resolve_step(shell, frames) matches StepV::Fail(
                RunnerErrV::Template(TemplateErrV::Undefined(n)),
            ) ==> !declared_earlier(top, n) && crate::templater::template_refs(s).contains(n))
        }),
{
    let top = frames.last();
    let s = top.vars[top.var_idx].value->Static_0->Text_0;
    if forall|j: int|
        0 <= j < crate::templater::template_refs(s).len() ==> declared_earlier(
            top,
            #[trigger] crate::templater::template_refs(s)[j],
        ) {
        assert forall|j: int|
            0 <= j < crate::templater::template_refs(s).len() implies top.ctx.contains_key(
            #[trigger] crate::templater::template_refs(s)[j],
        ) by {
            let n = crate::templater::template_refs(s)[j];
            assert(declared_earlier(top, n));
            let i = choose|i: int| 0 <= i < top.var_idx && (#[trigger] top.vars[i]).name == n;
            assert(top.ctx.contains_key(n));
        }
        crate::templater::lemma_expand_succeeds(s, top.ctx);
    }
    if expand(s, top.ctx) is Undefined {
        crate::templater::lemma_undefined_ref_missing(s, top.ctx);
    }
}

/// A failure fells every caller up the chain: however deep the stack,
/// a finished invocation that failed pops every frame and ends the whole
/// run as a failure, with no further action of any caller taken.
pub proof fn lemma_failure_fells_every_caller(frames: Seq<FrameV>)
    ensures
        finish(frames, RunnerResult::Failure) == StepV::Go(
            Seq::<FrameV>::empty(),
            EffectV::Done(RunnerResult::Failure),
        ),
    decreases frames.len(),
{
    if frames.len() == 0 {
        assert(frames =~= Seq::<FrameV>::empty());
    } else {
        let rest = frames.drop_last();
        lemma_failure_fells_every_caller(rest);
        if rest.len() == 0 {
            assert(rest =~= Seq::<FrameV>::empty());
        }
        assert(finish_popped(rest, RunnerResult::Failure) == finish(rest, RunnerResult::Failure));
    }
}

proof fn lemma_finish_keeps_directories(rest: Seq<FrameV>, result: RunnerResult)
    ensures
        finish_popped(rest, result) is Go,
        finish_popped(rest, result)->Go_0.len() <= rest.len(),
        forall|j: int|
            0 <= j < finish_popped(rest, result)->Go_0.len() ==> (#[trigger] finish_popped(
                rest,
                result,
            )->Go_0[j]).dir == rest[j].dir,
    decreases rest.len(),
{
    if rest.len() == 0 {
    } else if result is Failure {
        lemma_finish_keeps_directories(rest.drop_last(), RunnerResult::Failure);
    }
}

/// A directory change is scoped to its own task invocation: no step
/// moves the working directory of any frame below the innermost, and a
/// freshly called task starts in its caller's current directory.  So
/// whatever a called task does to its directory, the caller and every
/// later sibling go on from the caller's own directory.
pub proof fn lemma_step_keeps_outer_directories(
    file: TaskFileV,
    shell: Seq<char>,
    frames: Seq<FrameV>,
    event: Event,
)
    requires
        frames.len() > 0,
    ensures
        match step_spec(file, shell, frames, event) {
            StepV::Go(fs, _) => (forall|j: int|
                0 <= j < frames.len() - 1 && j < fs.len() ==> (#[trigger] fs[j]).dir
                    == frames[j].dir) && (fs.len() > frames.len() ==> fs.last().dir
                == frames.last().dir),
            StepV::Fail(_) => true,
        },
{
    let top = frames.last();
    match (top.awaiting, event) {
        (Awaiting::Nothing, Event::Tick) => {
            if top.var_idx < top.vars.len() {
            } else if top.action_idx < top.actions.len() {
            } else {
                lemma_finish_keeps_directories(frames.drop_last(), RunnerResult::Success);
            }
        },
        (Awaiting::Command, Event::Exec(res)) => {
            match res {
                Result::Ok(o) => {
                    if !o.success {
                        lemma_finish_keeps_directories(frames.drop_last(), RunnerResult::Failure);
                    }
                },
                Result::Err(_) => {},
            }
        },
        (Awaiting::IfCmd, Event::Exec(res)) => {
            match res {
                Result::Ok(o) => {
                    if !o.success || falsy_output(o.stdout@) {
                        lemma_finish_keeps_directories(frames.drop_last(), RunnerResult::Skipped);
                    }
                },
                Result::Err(_) => {},
            }
        },
        _ => {},
    }
}

} // verus!
