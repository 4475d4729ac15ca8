use jatr::node::Node;
use jatr::parser::{parse, ImportDocs};
use jatr::runner::{
    Effect, Event, ExecRequest, ExecuteResult, Runner, RunnerEnvironment, RunnerResult,
};
use jatr::tasks::{TaskFile, Value};

fn leaf(name: &str, args: Vec<Value>) -> Node {
    Node { name: name.to_string(), args, props: vec![], children: None }
}

fn block(name: &str, children: Vec<Node>) -> Node {
    Node { name: name.to_string(), args: vec![], props: vec![], children: Some(children) }
}

fn text(s: &str) -> Value {
    Value::Text(s.to_string())
}

fn run(tf: &TaskFile, name: &str) -> (RunnerResult, Vec<String>) {
    let mut commands: Vec<String> = vec![];
    let mut runner = Runner::for_taskfile(RunnerEnvironment::default());
    let mut eff = runner.start(tf, name).unwrap();
    loop {
        let event = match eff {
            Effect::Done(r) => return (r, commands),
            Effect::Working => Event::Tick,
            Effect::Exec(ExecRequest { command, .. }) => {
                commands.push(command.clone());
                Event::Exec(Ok(ExecuteResult {
                    cmd: command,
                    success: true,
                    code: 0,
                    stdout: String::new(),
                    stderr: String::new(),
                }))
            }
            Effect::ChangeDir(req) => Event::Cd(Ok(req.path)),
        };
        eff = runner.step(tf, event).unwrap();
    }
}

#[test]
fn a_parsed_document_runs_with_its_variables_expanded() {
    let doc = vec![
        block(
            "variables",
            vec![leaf("other", vec![text("3")]), leaf("count", vec![text("{{ other }}")])],
        ),
        block(
            "tasks",
            vec![block(
                "build",
                vec![
                    leaf("cmd", vec![text("echo {{ count }} items")]),
                    block("actions", vec![leaf("-", vec![text("touch done")])]),
                ],
            )],
        ),
    ];
    let file = parse(&doc, &ImportDocs::new()).unwrap();
    let (result, commands) = run(&file, "build");
    assert_eq!(result, RunnerResult::Success);
    assert_eq!(commands, vec!["echo 3 items".to_string(), "touch done".to_string()]);
}

#[test]
fn a_parsed_task_call_crosses_an_import() {
    let sub = vec![block(
        "tasks",
        vec![block("build", vec![leaf("cmd", vec![text("make sub")])])],
    )];
    let doc = vec![
        {
            let mut n = leaf("import", vec![text("sub.kdl")]);
            n.props = vec![jatr::node::Prop { name: "prefix".to_string(), value: text("sub") }];
            n
        },
        block(
            "tasks",
            vec![block("all", vec![leaf("task", vec![text("sub:build")])])],
        ),
    ];
    let imports = ImportDocs {
        docs: vec![jatr::parser::ImportDoc { path: "sub.kdl".to_string(), nodes: sub }],
    };
    let file = parse(&doc, &imports).unwrap();
    let (result, commands) = run(&file, "all");
    assert_eq!(result, RunnerResult::Success);
    assert_eq!(commands, vec!["make sub".to_string()]);
}
