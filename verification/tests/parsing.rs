use jatr::node::{get_node_type_by_name, Node, NodeType, Prop};
use jatr::parser::{
    parse, Context, ContextError, ImportDoc, ImportDocs, ParserError, ParserErrorData, Scope,
};
use jatr::tasks::{Action, Task, TaskFile, Value, VariableValue};

fn leaf(name: &str, args: Vec<Value>) -> Node {
    Node { name: name.to_string(), args, props: vec![], children: None }
}

fn block(name: &str, children: Vec<Node>) -> Node {
    Node { name: name.to_string(), args: vec![], props: vec![], children: Some(children) }
}

fn text(s: &str) -> Value {
    Value::Text(s.to_string())
}

fn no_imports() -> ImportDocs {
    ImportDocs::new()
}

fn parse_one(root: Node) -> Result<TaskFile, ParserError> {
    parse(&vec![root], &no_imports())
}

fn get<'a>(file: &'a TaskFile, name: &str) -> &'a Task {
    file.get_task(name).expect("task should be present")
}

#[test]
fn an_integer_variable_stays_an_integer() {
    let root = block("variables", vec![leaf("count", vec![Value::Int(5)])]);
    let file = parse_one(root).unwrap();
    assert_eq!(file.variables.len(), 1);
    assert_eq!(file.variables[0].name, "count");
    match &file.variables[0].value {
        VariableValue::Static(Value::Int(i)) => assert_eq!(*i, 5),
        other => panic!("expected a static integer, got {:?}", other),
    }
}

#[test]
fn the_vars_alias_works_too() {
    let root = block("vars", vec![leaf("greeting", vec![text("hi")])]);
    let file = parse_one(root).unwrap();
    assert_eq!(file.variables[0].name, "greeting");
}

#[test]
fn mixed_list_and_command_body_fails() {
    let root = block(
        "variables",
        vec![block("v", vec![leaf("-", vec![text("x")]), leaf("cmd", vec![text("echo y")])])],
    );
    match parse_one(root) {
        Err(ParserError(ParserErrorData::ContextError(ContextError(m)))) => {
            assert_eq!(m, "cannot mix actions and list items");
        },
        other => panic!("expected a mixed-body error, got {:?}", other),
    }
}

#[test]
fn two_actions_in_a_variable_body_fail() {
    let root = block(
        "variables",
        vec![block("v", vec![leaf("cmd", vec![text("a")]), leaf("cmd", vec![text("b")])])],
    );
    assert!(matches!(
        parse_one(root),
        Err(ParserError(ParserErrorData::ContextError(_)))
    ));
}

#[test]
fn a_list_variable_collects_its_items() {
    let root = block(
        "variables",
        vec![block("v", vec![leaf("-", vec![Value::Int(1)]), leaf("-", vec![])])],
    );
    let file = parse_one(root).unwrap();
    match &file.variables[0].value {
        VariableValue::Static(Value::List(items)) => {
            assert_eq!(items.len(), 2);
            assert!(matches!(items[0], Value::Int(1)));
            assert!(matches!(items[1], Value::Null));
        },
        other => panic!("expected a list, got {:?}", other),
    }
}

#[test]
fn a_command_variable_is_captured_not_attached() {
    let root = block("variables", vec![block("v", vec![leaf("cmd", vec![text("date")])])]);
    let file = parse_one(root).unwrap();
    match &file.variables[0].value {
        VariableValue::Action(Action::Command(c)) => {
            assert_eq!(c.command, "date");
            assert!(!c.tty);
        },
        other => panic!("expected a command source, got {:?}", other),
    }
}

#[test]
fn an_empty_variable_body_is_an_error() {
    let root = block("variables", vec![leaf("v", vec![])]);
    assert!(matches!(parse_one(root), Err(ParserError(ParserErrorData::MissingBody))));
}

#[test]
fn a_variables_block_inside_a_task_is_local() {
    let root = block(
        "tasks",
        vec![block(
            "build",
            vec![
                block("variables", vec![leaf("v", vec![text("x")])]),
                leaf("cmd", vec![text("echo")]),
            ],
        )],
    );
    let file = parse_one(root).unwrap();
    assert_eq!(file.variables.len(), 0);
    let t = get(&file, "build");
    assert_eq!(t.variables.len(), 1);
    assert_eq!(t.variables[0].name, "v");
}

#[test]
fn a_variables_block_elsewhere_is_an_error() {
    let root = block("variables", vec![block("v", vec![block("variables", vec![])])]);
    match parse_one(root) {
        Err(ParserError(ParserErrorData::ContextError(ContextError(m)))) => {
            assert_eq!(m, "cannot add variables here");
        },
        other => panic!("expected a nesting error, got {:?}", other),
    }
}

#[test]
fn task_actions_keep_declaration_order() {
    let root = block(
        "tasks",
        vec![block(
            "build",
            vec![
                leaf("cmd", vec![text("one")]),
                block("actions", vec![leaf("cmd", vec![text("two")]), leaf("if", vec![text("three")])]),
                leaf("task", vec![text("other")]),
                leaf("cd", vec![text("dir")]),
            ],
        )],
    );
    let file = parse_one(root).unwrap();
    let t = get(&file, "build");
    assert_eq!(t.actions.len(), 5);
    assert!(matches!(&t.actions[0], Action::Command(c) if c.command == "one" && c.tty));
    assert!(matches!(&t.actions[1], Action::Command(c) if c.command == "two"));
    assert!(matches!(&t.actions[2], Action::If(c) if c.command == "three" && !c.tty));
    assert!(matches!(&t.actions[3], Action::Task(c) if c.name == "other"));
    assert!(matches!(&t.actions[4], Action::Cd(p) if p == "dir"));
}

#[test]
fn the_dash_shorthand_is_a_command_inside_a_task() {
    let root = block("tasks", vec![block("build", vec![leaf("-", vec![text("make")])])]);
    let file = parse_one(root).unwrap();
    let t = get(&file, "build");
    assert!(matches!(&t.actions[0], Action::Command(c) if c.command == "make"));
}

#[test]
fn a_task_takes_its_description_from_the_leading_argument() {
    let root = block("tasks", vec![{
        let mut n = block("build", vec![]);
        n.args = vec![text("builds it all")];
        n
    }]);
    let file = parse_one(root).unwrap();
    assert_eq!(get(&file, "build").description.as_deref(), Some("builds it all"));
}

#[test]
fn a_shell_property_is_kept_and_must_be_text() {
    let mut n = leaf("cmd", vec![text("echo")]);
    n.props = vec![Prop { name: "shell".to_string(), value: text("bash") }];
    let root = block("tasks", vec![block("build", vec![n])]);
    let file = parse_one(root).unwrap();
    assert!(matches!(
        &get(&file, "build").actions[0],
        Action::Command(c) if c.shell.as_deref() == Some("bash")
    ));

    let mut bad = leaf("cmd", vec![text("echo")]);
    bad.props = vec![Prop { name: "shell".to_string(), value: Value::Int(3) }];
    let root = block("tasks", vec![block("build", vec![bad])]);
    assert!(matches!(parse_one(root), Err(ParserError(ParserErrorData::InvalidType))));
}

#[test]
fn leaf_actions_demand_their_argument() {
    for name in ["cmd", "if", "task", "cd"] {
        let root = block("tasks", vec![block("build", vec![leaf(name, vec![])])]);
        assert!(matches!(
            parse_one(root),
            Err(ParserError(ParserErrorData::MissingArgument { .. }))
        ));
    }
    let root = block("tasks", vec![block("build", vec![leaf("cmd", vec![Value::Int(1)])])]);
    assert!(matches!(parse_one(root), Err(ParserError(ParserErrorData::InvalidType))));
}

#[test]
fn an_unknown_node_fails_with_its_name() {
    let root = leaf("mystery", vec![]);
    match parse_one(root) {
        Err(ParserError(ParserErrorData::UnknownNode { name })) => assert_eq!(name, "mystery"),
        other => panic!("expected an unknown-node error, got {:?}", other),
    }
}

#[test]
fn a_later_task_overwrites_an_earlier_namesake() {
    let root = block(
        "tasks",
        vec![
            block("build", vec![leaf("cmd", vec![text("old")])]),
            block("build", vec![leaf("cmd", vec![text("new")])]),
        ],
    );
    let file = parse_one(root).unwrap();
    assert!(matches!(&get(&file, "build").actions[0], Action::Command(c) if c.command == "new"));
}

fn sub_doc() -> Vec<Node> {
    vec![
        block("variables", vec![leaf("from_sub", vec![text("yes")])]),
        block("tasks", vec![block("build", vec![leaf("cmd", vec![text("make sub")])])]),
    ]
}

#[test]
fn import_with_prefix_renames_tasks() {
    let imports = ImportDocs {
        docs: vec![ImportDoc { path: "sub.kdl".to_string(), nodes: sub_doc() }],
    };
    let mut imp = leaf("import", vec![text("sub.kdl")]);
    imp.props = vec![Prop { name: "prefix".to_string(), value: text("sub") }];
    let file = parse(&vec![imp], &imports).unwrap();
    assert!(file.get_task("sub:build").is_some());
    assert!(file.get_task("build").is_none());
    assert_eq!(file.variables[0].name, "from_sub");
}

#[test]
fn import_without_prefix_still_writes_the_separator() {
    let imports = ImportDocs {
        docs: vec![ImportDoc { path: "sub.kdl".to_string(), nodes: sub_doc() }],
    };
    let imp = leaf("import", vec![text("sub.kdl")]);
    let file = parse(&vec![imp], &imports).unwrap();
    assert!(file.get_task(":build").is_some());
    assert!(file.get_task("build").is_none());
}

#[test]
fn importing_an_absent_document_fails() {
    let imp = leaf("import", vec![text("nowhere.kdl")]);
    assert!(matches!(
        parse(&vec![imp], &no_imports()),
        Err(ParserError(ParserErrorData::ImportError))
    ));
}

#[test]
fn cyclic_imports_run_out_and_fail() {
    let imports = ImportDocs {
        docs: vec![
            ImportDoc { path: "a.kdl".to_string(), nodes: vec![leaf("import", vec![text("b.kdl")])] },
            ImportDoc { path: "b.kdl".to_string(), nodes: vec![leaf("import", vec![text("a.kdl")])] },
        ],
    };
    let imp = leaf("import", vec![text("a.kdl")]);
    assert!(matches!(
        parse(&vec![imp], &imports),
        Err(ParserError(ParserErrorData::ImportError))
    ));
}

#[test]
fn nested_imports_within_the_document_count_work() {
    let imports = ImportDocs {
        docs: vec![
            ImportDoc { path: "mid.kdl".to_string(), nodes: vec![leaf("import", vec![text("leafdoc.kdl")])] },
            ImportDoc {
                path: "leafdoc.kdl".to_string(),
                nodes: vec![block("tasks", vec![block("deep", vec![leaf("cmd", vec![text("x")])])])],
            },
        ],
    };
    let imp = leaf("import", vec![text("mid.kdl")]);
    let file = parse(&vec![imp], &imports).unwrap();
    assert!(file.get_task("::deep").is_some());
}

#[test]
fn node_meaning_depends_on_the_ambient_scope() {
    let mut ctx = Context::default();
    assert!(matches!(get_node_type_by_name("import", &ctx), Some(NodeType::Import)));
    assert!(matches!(get_node_type_by_name("vars", &ctx), Some(NodeType::Variables)));
    assert!(get_node_type_by_name("mystery", &ctx).is_none());

    ctx.push_scope(Scope::Variable);
    assert!(matches!(get_node_type_by_name("-", &ctx), Some(NodeType::ListItem)));
    ctx.pop_scope();

    ctx.push_scope(Scope::Actions);
    assert!(matches!(get_node_type_by_name("-", &ctx), Some(NodeType::Cmd)));
    ctx.pop_scope();

    ctx.push_scope(Scope::Tasks);
    assert!(matches!(get_node_type_by_name("mystery", &ctx), Some(NodeType::Task)));
    ctx.pop_scope();

    ctx.push_scope(Scope::Variables);
    assert!(matches!(get_node_type_by_name("mystery", &ctx), Some(NodeType::Variable)));
    assert!(matches!(get_node_type_by_name("cd", &ctx), Some(NodeType::ActionCd)));
}
