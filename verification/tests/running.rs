use jatr::runner::{
    Effect, Event, ExecKind, ExecRequest, ExecuteResult, Runner, RunnerEnvironment, RunnerError,
    RunnerErrorData, RunnerResult,
};
use jatr::tasks::{
    Action, ActionCommand, Task, TaskCall, TaskFile, Value, Variable, VariableValue,
};
use jatr::templater::TemplateError;

fn cmd(s: &str) -> Action {
    Action::Command(ActionCommand { command: s.to_string(), shell: None, tty: false })
}

fn guard(s: &str) -> Action {
    Action::If(ActionCommand { command: s.to_string(), shell: None, tty: false })
}

fn call(name: &str) -> Action {
    Action::Task(TaskCall { name: name.to_string() })
}

fn task(name: &str, actions: Vec<Action>) -> Task {
    Task {
        name: name.to_string(),
        description: None,
        arguments: vec![],
        actions,
        variables: vec![],
    }
}

fn file(variables: Vec<Variable>, tasks: Vec<Task>) -> TaskFile {
    TaskFile { variables, tasks }
}

fn var(name: &str, value: Value) -> Variable {
    Variable { name: name.to_string(), value: VariableValue::Static(value) }
}

fn cmd_var(name: &str, command: &str) -> Variable {
    Variable {
        name: name.to_string(),
        value: VariableValue::Action(Action::Command(ActionCommand {
            command: command.to_string(),
            shell: None,
            tty: false,
        })),
    }
}

fn outcome(success: bool, stdout: &str) -> ExecuteResult {
    ExecuteResult {
        cmd: String::new(),
        success,
        code: if success { 0 } else { 1 },
        stdout: stdout.to_string(),
        stderr: String::new(),
    }
}

/// Drives the machine to its end, answering each execution request with
/// the given responder and resolving directory changes as `base/path`.
fn drive(
    tf: &TaskFile,
    name: &str,
    respond: &mut dyn FnMut(&ExecRequest) -> ExecuteResult,
) -> (Result<RunnerResult, RunnerError>, Vec<(String, String, ExecKind)>) {
    let mut log: Vec<(String, String, ExecKind)> = vec![];
    let mut runner = Runner::for_taskfile(RunnerEnvironment::default());
    let mut eff = match runner.start(tf, name) {
        Ok(e) => e,
        Err(e) => return (Err(e), log),
    };
    let mut steps = 0;
    loop {
        steps += 1;
        assert!(steps < 100000, "the machine should settle");
        let event = match eff {
            Effect::Done(r) => return (Ok(r), log),
            Effect::Working => Event::Tick,
            Effect::Exec(req) => {
                log.push((req.command.clone(), req.dir.clone(), req.kind));
                Event::Exec(Ok(respond(&req)))
            },
            Effect::ChangeDir(req) => Event::Cd(Ok(format!("{}/{}", req.base, req.path))),
        };
        eff = match runner.step(tf, event) {
            Ok(e) => e,
            Err(e) => return (Err(e), log),
        };
    }
}

fn by_exit_code(req: &ExecRequest) -> ExecuteResult {
    if req.command.starts_with("exit 1") {
        outcome(false, "")
    } else if req.command.starts_with("echo ") {
        outcome(true, &format!("{}\n", &req.command[5..]))
    } else {
        outcome(true, "")
    }
}

#[test]
fn a_failing_command_stops_the_task_as_failure() {
    let tf = file(vec![], vec![task("t", vec![cmd("exit 1"), cmd("echo hi")])]);
    let (result, log) = drive(&tf, "t", &mut by_exit_code);
    assert_eq!(result.unwrap(), RunnerResult::Failure);
    assert_eq!(log.len(), 1);
    assert_eq!(log[0].0, "exit 1");
}

#[test]
fn a_failing_guard_skips_the_rest() {
    let tf = file(vec![], vec![task("t", vec![guard("exit 1"), cmd("echo hi")])]);
    let (result, log) = drive(&tf, "t", &mut by_exit_code);
    assert_eq!(result.unwrap(), RunnerResult::Skipped);
    assert_eq!(log.len(), 1);
}

#[test]
fn a_true_guard_lets_the_task_succeed() {
    let tf = file(vec![], vec![task("t", vec![guard("echo true"), cmd("echo hi")])]);
    let (result, log) = drive(&tf, "t", &mut by_exit_code);
    assert_eq!(result.unwrap(), RunnerResult::Success);
    assert_eq!(log.len(), 2);
    assert_eq!(log[1].0, "echo hi");
    assert_eq!(log[0].2, ExecKind::Guard);
    assert_eq!(log[1].2, ExecKind::Command);
}

#[test]
fn a_guard_printing_false_skips_even_on_success() {
    let tf = file(vec![], vec![task("t", vec![guard("echo false"), cmd("echo hi")])]);
    let (result, log) = drive(&tf, "t", &mut by_exit_code);
    assert_eq!(result.unwrap(), RunnerResult::Skipped);
    assert_eq!(log.len(), 1);
}

#[test]
fn calling_an_unknown_task_is_an_error() {
    let tf = file(vec![], vec![task("t", vec![call("missing"), cmd("echo hi")])]);
    let (result, log) = drive(&tf, "t", &mut by_exit_code);
    match result {
        Err(RunnerError(RunnerErrorData::TaskNotFound { task })) => assert_eq!(task, "missing"),
        other => panic!("expected task-not-found, got {:?}", other),
    }
    assert_eq!(log.len(), 0);
}

#[test]
fn a_failing_callee_fails_the_caller() {
    let tf = file(
        vec![],
        vec![
            task("caller", vec![call("failing"), cmd("echo after")]),
            task("failing", vec![cmd("exit 1")]),
        ],
    );
    let (result, log) = drive(&tf, "caller", &mut by_exit_code);
    assert_eq!(result.unwrap(), RunnerResult::Failure);
    assert_eq!(log.len(), 1);
    assert_eq!(log[0].0, "exit 1");
}

#[test]
fn a_skipped_callee_lets_the_caller_go_on() {
    let tf = file(
        vec![],
        vec![
            task("caller", vec![call("guarded"), cmd("echo after")]),
            task("guarded", vec![guard("exit 1"), cmd("echo never")]),
        ],
    );
    let (result, log) = drive(&tf, "caller", &mut by_exit_code);
    assert_eq!(result.unwrap(), RunnerResult::Success);
    assert_eq!(log.len(), 2);
    assert_eq!(log[1].0, "echo after");
}

#[test]
fn starting_an_absent_task_is_an_error() {
    let tf = file(vec![], vec![]);
    let (result, _) = drive(&tf, "ghost", &mut by_exit_code);
    assert!(matches!(result, Err(RunnerError(RunnerErrorData::TaskNotFound { .. }))));
}

#[test]
fn a_changed_directory_does_not_leak_to_siblings() {
    let tf = file(
        vec![],
        vec![
            task("root", vec![call("a"), call("b")]),
            task("a", vec![Action::Cd("sub".to_string()), cmd("pwd a")]),
            task("b", vec![cmd("pwd b")]),
        ],
    );
    let (result, log) = drive(&tf, "root", &mut by_exit_code);
    assert_eq!(result.unwrap(), RunnerResult::Success);
    assert_eq!(log.len(), 2);
    assert_eq!(log[0], ("pwd a".to_string(), "./sub".to_string(), ExecKind::Command));
    assert_eq!(log[1], ("pwd b".to_string(), ".".to_string(), ExecKind::Command));
}

#[test]
fn a_directory_change_sticks_within_the_task() {
    let tf = file(
        vec![],
        vec![task(
            "t",
            vec![cmd("pwd one"), Action::Cd("deeper".to_string()), cmd("pwd two"), cmd("pwd three")],
        )],
    );
    let (result, log) = drive(&tf, "t", &mut by_exit_code);
    assert_eq!(result.unwrap(), RunnerResult::Success);
    assert_eq!(log[0].1, ".");
    assert_eq!(log[1].1, "./deeper");
    assert_eq!(log[2].1, "./deeper");
}

#[test]
fn commands_are_expanded_against_resolved_variables() {
    let tf = file(
        vec![var("other", Value::Text("3".to_string()))],
        vec![{
            let mut t = task("t", vec![cmd("echo {{ count }}")]);
            t.variables = vec![var("count", Value::Text("{{ other }}".to_string()))];
            t
        }],
    );
    let (result, log) = drive(&tf, "t", &mut by_exit_code);
    assert_eq!(result.unwrap(), RunnerResult::Success);
    assert_eq!(log[0].0, "echo 3");
}

#[test]
fn a_variable_may_reference_an_earlier_one() {
    let tf = file(
        vec![
            var("base", Value::Text("v1".to_string())),
            var("tag", Value::Text("rel-{{ base }}".to_string())),
        ],
        vec![task("t", vec![cmd("echo {{ tag }}")])],
    );
    let (result, log) = drive(&tf, "t", &mut by_exit_code);
    assert_eq!(result.unwrap(), RunnerResult::Success);
    assert_eq!(log[0].0, "echo rel-v1");
}

#[test]
fn referencing_a_later_variable_fails_resolution() {
    let tf = file(
        vec![
            var("tag", Value::Text("rel-{{ base }}".to_string())),
            var("base", Value::Text("v1".to_string())),
        ],
        vec![task("t", vec![cmd("echo {{ tag }}")])],
    );
    let (result, log) = drive(&tf, "t", &mut by_exit_code);
    match result {
        Err(RunnerError(RunnerErrorData::TemplateError(TemplateError::UndefinedVariable {
            name,
        }))) => assert_eq!(name, "base"),
        other => panic!("expected an undefined-variable error, got {:?}", other),
    }
    assert_eq!(log.len(), 0);
}

#[test]
fn a_command_variable_captures_trimmed_output() {
    let tf = file(
        vec![cmd_var("stamp", "date +%s")],
        vec![task("t", vec![cmd("echo {{ stamp }}")])],
    );
    let mut respond = |req: &ExecRequest| {
        if req.kind == ExecKind::Variable {
            assert_eq!(req.command, "date +%s");
            assert!(!req.tty);
            outcome(true, "  12345\n")
        } else {
            outcome(true, "")
        }
    };
    let (result, log) = drive(&tf, "t", &mut respond);
    assert_eq!(result.unwrap(), RunnerResult::Success);
    assert_eq!(log[1].0, "echo 12345");
}

#[test]
fn a_failing_variable_command_aborts_the_run() {
    let tf = file(vec![cmd_var("v", "exit 1")], vec![task("t", vec![cmd("echo hi")])]);
    let (result, log) = drive(&tf, "t", &mut by_exit_code);
    match result {
        Err(RunnerError(RunnerErrorData::VariableResolveError { variable })) => {
            assert_eq!(variable, "v");
        },
        other => panic!("expected a resolution error, got {:?}", other),
    }
    assert_eq!(log.len(), 1);
}

#[test]
fn local_variables_shadow_globals() {
    let tf = file(
        vec![var("v", Value::Text("global".to_string()))],
        vec![{
            let mut t = task("t", vec![cmd("echo {{ v }}")]);
            t.variables = vec![var("v", Value::Text("local".to_string()))];
            t
        }],
    );
    let (_, log) = drive(&tf, "t", &mut by_exit_code);
    assert_eq!(log[0].0, "echo local");
}

#[test]
fn a_shell_override_reaches_the_request() {
    let tf = file(
        vec![],
        vec![task(
            "t",
            vec![Action::Command(ActionCommand {
                command: "echo hi".to_string(),
                shell: Some("bash".to_string()),
                tty: true,
            })],
        )],
    );
    let mut respond = |req: &ExecRequest| {
        assert_eq!(req.shell, "bash");
        assert!(req.tty);
        outcome(true, "")
    };
    let (result, _) = drive(&tf, "t", &mut respond);
    assert_eq!(result.unwrap(), RunnerResult::Success);

    let tf = file(vec![], vec![task("t", vec![cmd("echo hi")])]);
    let mut respond = |req: &ExecRequest| {
        assert_eq!(req.shell, "sh");
        outcome(true, "")
    };
    let (result, _) = drive(&tf, "t", &mut respond);
    assert_eq!(result.unwrap(), RunnerResult::Success);
}

#[test]
fn noop_actions_do_nothing() {
    let tf = file(vec![], vec![task("t", vec![Action::Noop, cmd("echo hi"), Action::Noop])]);
    let (result, log) = drive(&tf, "t", &mut by_exit_code);
    assert_eq!(result.unwrap(), RunnerResult::Success);
    assert_eq!(log.len(), 1);
}

#[test]
fn unbounded_recursion_is_cut_off() {
    let tf = file(vec![], vec![task("r", vec![call("r")])]);
    let (result, _) = drive(&tf, "r", &mut by_exit_code);
    assert!(matches!(result, Err(RunnerError(RunnerErrorData::CallDepthExceeded))));
}

#[test]
fn a_process_failure_is_an_io_error() {
    let tf = file(vec![], vec![task("t", vec![cmd("echo hi")])]);
    let mut runner = Runner::for_taskfile(RunnerEnvironment::default());
    let mut eff = runner.start(&tf, "t").unwrap();
    loop {
        match eff {
            Effect::Working => eff = runner.step(&tf, Event::Tick).unwrap(),
            Effect::Exec(_) => {
                let r = runner.step(&tf, Event::Exec(Err("spawn failed".to_string())));
                match r {
                    Err(RunnerError(RunnerErrorData::Io(m))) => {
                        assert_eq!(m, "spawn failed");
                        assert!(!runner.running());
                        return;
                    },
                    other => panic!("expected an io error, got {:?}", other),
                }
            },
            other => panic!("unexpected effect {:?}", other),
        }
    }
}
