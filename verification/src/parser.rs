use vstd::prelude::*;
use crate::node::{node_type_spec, nodes_view, prop_lookup, Node, NodeType, NodeV};
use crate::tasks::{
    actions_view, values_view, variables_view, tasks_view, Action, ActionCommand,
    ActionCommandV, ActionV, Task, TaskCall, TaskCallV, TaskFile, TaskFileV, TaskV, Value, ValueV,
    Variable, VariableV, VariableValue, VariableValueV,
};
use crate::util::str_eq;

verus! {

// ------------------------------------------------------------------
// Scopes
// ------------------------------------------------------------------

/// The structural region of the document the walker is inside; it decides
/// how ambiguous node names are read.
#[derive(Debug, Clone, Copy)]
pub enum Scope {
    Global,
    Variables,
    Variable,
    Tasks,
    Task,
    Actions,
}

// ------------------------------------------------------------------
// Errors
// ------------------------------------------------------------------

/// A fault in how scopes are nested or filled.
#[derive(Debug)]
pub struct ContextError(pub String);

/// Why parsing failed.
#[derive(Debug)]
pub enum ParserErrorData {
    UnknownNode { name: String },
    MissingArgument { name: String },
    MissingBody,
    ImportError,
    ContextError(ContextError),
    InvalidType,
}

/// A parse failure; parsing aborts on the first one.
#[derive(Debug)]
pub struct ParserError(pub ParserErrorData);

/// The mathematical model of a parse failure.
pub enum ParserErrV {
    UnknownNode(Seq<char>),
    MissingArgument(Seq<char>),
    MissingBody,
    ImportError,
    ContextError(Seq<char>),
    InvalidType,
}

impl View for ParserError {
    type V = ParserErrV;

    open spec fn view(&self) -> ParserErrV {
        match self.0 {
            ParserErrorData::UnknownNode { name } => ParserErrV::UnknownNode(name@),
            ParserErrorData::MissingArgument { name } => ParserErrV::MissingArgument(name@),
            ParserErrorData::MissingBody => ParserErrV::MissingBody,
            ParserErrorData::ImportError => ParserErrV::ImportError,
            ParserErrorData::ContextError(ContextError(m)) => ParserErrV::ContextError(m@),
            ParserErrorData::InvalidType => ParserErrV::InvalidType,
        }
    }
}

// ------------------------------------------------------------------
// The scope stack
// ------------------------------------------------------------------

/// One frame of the scope stack: the scope kind and what has been
/// collected while this scope is active.
#[derive(Debug)]
pub struct ContextScope {
    pub scope: Scope,
    pub actions: Vec<Action>,
    pub variables: Vec<Variable>,
    pub list_items: Vec<Value>,
    pub task: Task,
}

#[verifier::ext_equal]
pub struct ContextScopeV {
    pub scope: Scope,
    pub actions: Seq<ActionV>,
    pub variables: Seq<VariableV>,
    pub list_items: Seq<ValueV>,
    pub task: TaskV,
}

impl View for ContextScope {
    type V = ContextScopeV;

    open spec fn view(&self) -> ContextScopeV {
        ContextScopeV {
            scope: self.scope,
            actions: actions_view(self.actions@),
            variables: variables_view(self.variables@),
            list_items: values_view(self.list_items@),
            task: self.task@,
        }
    }
}

/// The empty task model.
pub open spec fn empty_task() -> TaskV {
    TaskV {
        name: Seq::empty(),
        description: Option::None,
        arguments: Seq::empty(),
        actions: Seq::empty(),
        variables: Seq::empty(),
    }
}

/// A freshly pushed frame for the given scope.
pub open spec fn empty_frame(scope: Scope) -> ContextScopeV {
    ContextScopeV {
        scope,
        actions: Seq::empty(),
        variables: Seq::empty(),
        list_items: Seq::empty(),
        task: empty_task(),
    }
}

impl Default for ContextScope {
    /// A fresh global frame with empty accumulators.
    fn default() -> (r: ContextScope)
        ensures
            r@ == empty_frame(Scope::Global),
    {
        let r = ContextScope {
            scope: Scope::Global,
            actions: Vec::new(),
            variables: Vec::new(),
            list_items: Vec::new(),
            task: Task::default(),
        };
        proof {
            assert(r@.actions =~= empty_frame(Scope::Global).actions);
            assert(r@.variables =~= empty_frame(Scope::Global).variables);
            assert(r@.list_items =~= empty_frame(Scope::Global).list_items);
        }
        r
    }
}

/// The scope stack itself.
#[derive(Debug)]
pub struct Context {
    pub scopes: Vec<ContextScope>,
}

impl View for Context {
    type V = Seq<ContextScopeV>;

    open spec fn view(&self) -> Seq<ContextScopeV> {
        self.scopes@.map_values(|f: ContextScope| f@)
    }
}

/// The scope surrounding whatever is walked next: the top frame's kind,
/// or the global scope when no frame has been pushed.
pub open spec fn ambient(c: Seq<ContextScopeV>) -> Scope {
    if c.len() == 0 {
        Scope::Global
    } else {
        c.last().scope
    }
}

/// The stack with a scratch global frame pushed if it is empty.
pub open spec fn ctx_base(c: Seq<ContextScopeV>) -> Seq<ContextScopeV> {
    if c.len() == 0 {
        seq![empty_frame(Scope::Global)]
    } else {
        c
    }
}

impl Default for Context {
    /// The empty stack.
    fn default() -> (r: Context)
        ensures
            r@ == Seq::<ContextScopeV>::empty(),
    {
        let r = Context { scopes: Vec::new() };
        proof {
            assert(r@ =~= Seq::<ContextScopeV>::empty());
        }
        r
    }
}

impl Context {
    pub fn push_scope(&mut self, scope: Scope)
        ensures
            final(self)@ == old(self)@.push(empty_frame(scope)),
    {
        self.scope(scope)
    }

    pub fn scope(&mut self, scope: Scope)
        ensures
            final(self)@ == old(self)@.push(empty_frame(scope)),
    {
        let mut frame = ContextScope::default();
        frame.scope = scope;
        self.scopes.push(frame);
        proof {
            assert(self@ =~= old(self)@.push(empty_frame(scope)));
        }
    }

    /// Pushes a task frame seeded with a partially built task.
    pub fn task_scope(&mut self, task: Task)
        ensures
            final(self)@ == old(self)@.push(
                ContextScopeV { task: task@, ..empty_frame(Scope::Task) },
            ),
    {
        let mut frame = ContextScope::default();
        frame.scope = Scope::Task;
        frame.task = task;
        self.scopes.push(frame);
        proof {
            assert(self@ =~= old(self)@.push(
                ContextScopeV { task: task@, ..empty_frame(Scope::Task) },
            ));
        }
    }

    /// Pops the top frame and hands it back; on an empty stack, a fresh
    /// global frame.
    pub fn pop_scope(&mut self) -> (r: ContextScope)
        ensures
            old(self)@.len() > 0 ==> final(self)@ == old(self)@.drop_last() && r@ == old(
                self,
            )@.last(),
            old(self)@.len() == 0 ==> final(self)@ == old(self)@ && r@ == empty_frame(
                Scope::Global,
            ),
    {
        match self.scopes.pop() {
            Option::Some(frame) => {
                proof {
                    assert(self@ =~= old(self)@.drop_last());
                }
                frame
            },
            Option::None => ContextScope::default(),
        }
    }

    /// The kind of the innermost open scope; global when none is open.
    pub fn current_scope_type(&self) -> (r: Scope)
        ensures
            r == ambient(self@),
    {
        if self.scopes.len() == 0 {
            Scope::Global
        } else {
            self.scopes[self.scopes.len() - 1].scope
        }
    }

    /// Appends a variable to the innermost frame, opening a scratch global
    /// frame when none is open.
    pub fn add_variable(&mut self, variable: Variable)
        ensures
            final(self)@ == ctx_apply(ctx_base(old(self)@), contrib_var(variable@)),
    {
        self.ensure_frame();
        let k = self.scopes.len() - 1;
        let ghost before = self@;
        self.scopes[k].variables.push(variable);
        proof {
            assert(variables_view(self.scopes@[k as int].variables@) =~= before[k as int].variables
                + seq![variable@]);
            lemma_frame_apply_one(before, contrib_var(variable@));
            assert(self@ =~= ctx_apply(before, contrib_var(variable@)));
        }
    }

    /// Appends an action to the innermost frame, opening a scratch global
    /// frame when none is open.
    pub fn add_action(&mut self, action: Action)
        ensures
            final(self)@ == ctx_apply(ctx_base(old(self)@), contrib_action(action@)),
    {
        self.ensure_frame();
        let k = self.scopes.len() - 1;
        let ghost before = self@;
        self.scopes[k].actions.push(action);
        proof {
            assert(actions_view(self.scopes@[k as int].actions@) =~= before[k as int].actions
                + seq![action@]);
            lemma_frame_apply_one(before, contrib_action(action@));
            assert(self@ =~= ctx_apply(before, contrib_action(action@)));
        }
    }

    /// Appends a list item to the innermost frame, opening a scratch
    /// global frame when none is open.
    pub fn add_list_item(&mut self, item: Value)
        ensures
            final(self)@ == ctx_apply(ctx_base(old(self)@), contrib_item(item@)),
    {
        self.ensure_frame();
        let k = self.scopes.len() - 1;
        let ghost before = self@;
        let ghost s_old = self.scopes@[k as int].list_items@;
        self.scopes[k].list_items.push(item);
        proof {
            let s_new = self.scopes@[k as int].list_items@;
            assert(s_new.drop_last() =~= s_old);
            assert(s_new.last() == item);
            assert(values_view(s_new) == values_view(s_old).push(item@));
            assert(values_view(s_new) =~= before[k as int].list_items + seq![item@]);
            lemma_frame_apply_one(before, contrib_item(item@));
            assert(self@ =~= ctx_apply(before, contrib_item(item@)));
        }
    }

    /// Opens a scratch global frame when the stack is empty.
    fn ensure_frame(&mut self)
        ensures
            final(self)@ == ctx_base(old(self)@),
            final(self)@.len() > 0,
    {
        if self.scopes.len() == 0 {
            self.scopes.push(ContextScope::default());
            proof {
                assert(self@ =~= seq![empty_frame(Scope::Global)]);
            }
        }
    }
}

// ------------------------------------------------------------------
// Pre-loaded documents for imports
// ------------------------------------------------------------------

/// One further document handed to the parser, keyed by the path text an
/// `import` node names it with.
#[derive(Debug)]
pub struct ImportDoc {
    pub path: String,
    pub nodes: Vec<Node>,
}

/// The documents available to `import` nodes.  Reading them from wherever
/// they live is the caller's business; the parser only looks paths up
/// here, and a path it does not find is an import error.
#[derive(Debug)]
pub struct ImportDocs {
    pub docs: Vec<ImportDoc>,
}

pub open spec fn import_docs_map(s: Seq<ImportDoc>) -> Map<Seq<char>, Seq<NodeV>>
    decreases s.len(),
{
    if s.len() == 0 {
        Map::empty()
    } else {
        import_docs_map(s.drop_last()).insert(
            s.last().path@,
            nodes_view(s.last().nodes@),
        )
    }
}

impl View for ImportDocs {
    type V = Map<Seq<char>, Seq<NodeV>>;

    open spec fn view(&self) -> Map<Seq<char>, Seq<NodeV>> {
        import_docs_map(self.docs@)
    }
}

proof fn lemma_import_docs_found(s: Seq<ImportDoc>, i: int, path: Seq<char>)
    requires
        0 <= i < s.len(),
        s[i].path@ == path,
        forall|j: int| i < j < s.len() ==> s[j].path@ != path,
    ensures
        import_docs_map(s).contains_key(path),
        import_docs_map(s)[path] == nodes_view(s[i].nodes@),
    decreases s.len(),
{
    if i < s.len() - 1 {
        assert(s.drop_last()[i] == s[i]);
        lemma_import_docs_found(s.drop_last(), i, path);
    }
}

proof fn lemma_import_docs_absent(s: Seq<ImportDoc>, path: Seq<char>)
    requires
        forall|j: int| 0 <= j < s.len() ==> s[j].path@ != path,
    ensures
        !import_docs_map(s).contains_key(path),
    decreases s.len(),
{
    if s.len() > 0 {
        lemma_import_docs_absent(s.drop_last(), path);
    }
}

impl ImportDocs {
    /// An empty document set.
    pub fn new() -> (r: ImportDocs)
        ensures
            r@ == Map::<Seq<char>, Seq<NodeV>>::empty(),
    {
        ImportDocs { docs: Vec::new() }
    }

    /// Looks a document up by path; the latest entry under a path wins.
    #[verifier::loop_isolation(false)]
    pub fn lookup(&self, path: &str) -> (r: Option<&Vec<Node>>)
        ensures
            match r {
                Option::Some(ns) => self@.contains_key(path@) && nodes_view(ns@) == self@[path@],
                Option::None => !self@.contains_key(path@),
            },
    {
        let mut i: usize = self.docs.len();
        while i > 0
            invariant
                i <= self.docs@.len(),
                forall|j: int| i <= j < self.docs@.len() ==> self.docs@[j].path@ != path@,
            decreases i,
        {
            i = i - 1;
            if str_eq(self.docs[i].path.as_str(), path) {
                proof {
                    lemma_import_docs_found(self.docs@, i as int, path@);
                }
                return Option::Some(&self.docs[i].nodes);
            }
        }
        proof {
            lemma_import_docs_absent(self.docs@, path@);
        }
        Option::None
    }
}

// ------------------------------------------------------------------
// The meaning of a walked node: its contribution
// ------------------------------------------------------------------

/// What walking a node adds: to the innermost frame's accumulators, to
/// the innermost frame's task-local variables, and to the file itself.
#[verifier::ext_equal]
pub struct ContribV {
    pub frame_actions: Seq<ActionV>,
    pub frame_vars: Seq<VariableV>,
    pub frame_items: Seq<ValueV>,
    pub task_vars: Seq<VariableV>,
    pub file_vars: Seq<VariableV>,
    pub file_tasks: Seq<TaskV>,
}

pub open spec fn empty_contrib() -> ContribV {
    ContribV {
        frame_actions: Seq::empty(),
        frame_vars: Seq::empty(),
        frame_items: Seq::empty(),
        task_vars: Seq::empty(),
        file_vars: Seq::empty(),
        file_tasks: Seq::empty(),
    }
}

pub open spec fn contrib_action(a: ActionV) -> ContribV {
    ContribV { frame_actions: seq![a], ..empty_contrib() }
}

pub open spec fn contrib_var(v: VariableV) -> ContribV {
    ContribV { frame_vars: seq![v], ..empty_contrib() }
}

pub open spec fn contrib_item(v: ValueV) -> ContribV {
    ContribV { frame_items: seq![v], ..empty_contrib() }
}

pub open spec fn compose(a: ContribV, b: ContribV) -> ContribV {
    ContribV {
        frame_actions: a.frame_actions + b.frame_actions,
        frame_vars: a.frame_vars + b.frame_vars,
        frame_items: a.frame_items + b.frame_items,
        task_vars: a.task_vars + b.task_vars,
        file_vars: a.file_vars + b.file_vars,
        file_tasks: a.file_tasks + b.file_tasks,
    }
}

/// The innermost frame after taking a contribution in.
pub open spec fn frame_apply(f: ContextScopeV, c: ContribV) -> ContextScopeV {
    ContextScopeV {
        scope: f.scope,
        actions: f.actions + c.frame_actions,
        variables: f.variables + c.frame_vars,
        list_items: f.list_items + c.frame_items,
        task: TaskV { variables: f.task.variables + c.task_vars, ..f.task },
    }
}

/// The scope stack after taking a contribution in: only the innermost
/// frame changes.
pub open spec fn ctx_apply(ctx: Seq<ContextScopeV>, c: ContribV) -> Seq<ContextScopeV>
    recommends
        ctx.len() > 0,
{
    ctx.update(ctx.len() - 1, frame_apply(ctx.last(), c))
}

/// The file after taking a contribution in: global variables appended,
/// tasks inserted in order.
pub open spec fn file_apply(f: TaskFileV, c: ContribV) -> TaskFileV {
    TaskFileV { variables: f.variables + c.file_vars, tasks: f.tasks + c.file_tasks }
}

proof fn lemma_frame_apply_one(ctx: Seq<ContextScopeV>, c: ContribV)
    requires
        ctx.len() > 0,
    ensures
        ctx_apply(ctx, c).len() == ctx.len(),
        ctx_apply(ctx, c).last() == frame_apply(ctx.last(), c),
        forall|j: int| 0 <= j < ctx.len() - 1 ==> ctx_apply(ctx, c)[j] == ctx[j],
{
}

pub proof fn lemma_apply_empty(ctx: Seq<ContextScopeV>, f: TaskFileV)
    requires
        ctx.len() > 0,
    ensures
        ctx_apply(ctx, empty_contrib()) == ctx,
        file_apply(f, empty_contrib()) == f,
{
    let fr = ctx.last();
    let fa = frame_apply(fr, empty_contrib());
    assert(fa.actions =~= fr.actions);
    assert(fa.variables =~= fr.variables);
    assert(fa.list_items =~= fr.list_items);
    assert(fa.task.variables =~= fr.task.variables);
    assert(fa == fr);
    assert(ctx_apply(ctx, empty_contrib()) =~= ctx);
    assert(file_apply(f, empty_contrib()).variables =~= f.variables);
    assert(file_apply(f, empty_contrib()).tasks =~= f.tasks);
}

pub proof fn lemma_compose_empty(c: ContribV)
    ensures
        compose(empty_contrib(), c) == c,
        compose(c, empty_contrib()) == c,
{
    assert(compose(empty_contrib(), c).frame_actions =~= c.frame_actions);
    assert(compose(empty_contrib(), c).frame_vars =~= c.frame_vars);
    assert(compose(empty_contrib(), c).frame_items =~= c.frame_items);
    assert(compose(empty_contrib(), c).task_vars =~= c.task_vars);
    assert(compose(empty_contrib(), c).file_vars =~= c.file_vars);
    assert(compose(empty_contrib(), c).file_tasks =~= c.file_tasks);
    assert(compose(c, empty_contrib()).frame_actions =~= c.frame_actions);
    assert(compose(c, empty_contrib()).frame_vars =~= c.frame_vars);
    assert(compose(c, empty_contrib()).frame_items =~= c.frame_items);
    assert(compose(c, empty_contrib()).task_vars =~= c.task_vars);
    assert(compose(c, empty_contrib()).file_vars =~= c.file_vars);
    assert(compose(c, empty_contrib()).file_tasks =~= c.file_tasks);
}

pub proof fn lemma_apply_compose(ctx: Seq<ContextScopeV>, f: TaskFileV, a: ContribV, b: ContribV)
    requires
        ctx.len() > 0,
    ensures
        ctx_apply(ctx_apply(ctx, a), b) == ctx_apply(ctx, compose(a, b)),
        file_apply(file_apply(f, a), b) == file_apply(f, compose(a, b)),
{
    let fr = ctx.last();
    let lhs = frame_apply(frame_apply(fr, a), b);
    let rhs = frame_apply(fr, compose(a, b));
    assert(lhs.actions =~= rhs.actions);
    assert(lhs.variables =~= rhs.variables);
    assert(lhs.list_items =~= rhs.list_items);
    assert(lhs.task.variables =~= rhs.task.variables);
    assert(lhs == rhs);
    assert(ctx_apply(ctx_apply(ctx, a), b) =~= ctx_apply(ctx, compose(a, b)));
    assert(file_apply(file_apply(f, a), b).variables =~= file_apply(f, compose(a, b)).variables);
    assert(file_apply(file_apply(f, a), b).tasks =~= file_apply(f, compose(a, b)).tasks);
}

// ------------------------------------------------------------------
// The meaning of parsing
// ------------------------------------------------------------------

/// What walking yields: a contribution, or the first failure.
pub enum EvalResult {
    Parsed(ContribV),
    Failed(ParserErrV),
}

/// Composes an already-collected contribution with what follows it.
pub open spec fn after_contrib(c: ContribV, r: EvalResult) -> EvalResult {
    match r {
        EvalResult::Parsed(c2) => EvalResult::Parsed(compose(c, c2)),
        e => e,
    }
}

/// The command action a `cmd` or `if` node denotes, or the failure.
pub open spec fn eval_command_node(n: NodeV, arg_name: Seq<char>) -> Result<
    ActionCommandV,
    ParserErrV,
> {
    if n.args.len() == 0 {
        Result::Err(ParserErrV::MissingArgument(arg_name))
    } else if !(n.args[0] is Text) {
        Result::Err(ParserErrV::InvalidType)
    } else {
        match prop_lookup(n.props, "shell"@) {
            Option::None => Result::Ok(
                ActionCommandV { command: n.args[0]->Text_0, shell: Option::None, tty: true },
            ),
            Option::Some(ValueV::Text(sh)) => Result::Ok(
                ActionCommandV { command: n.args[0]->Text_0, shell: Option::Some(sh), tty: true },
            ),
            Option::Some(_) => Result::Err(ParserErrV::InvalidType),
        }
    }
}

/// The meaning of one node under an ambient scope: the scope decides what
/// names resolve to, where a command's output goes (`tty`), and where a
/// `variables` block merges.
pub open spec fn eval_node(
    n: NodeV,
    amb: Scope,
    lib: Map<Seq<char>, Seq<NodeV>>,
    fuel: nat,
) -> EvalResult
    decreases fuel, n, 3int,
{
    match node_type_spec(n.name, amb) {
        Option::None => EvalResult::Failed(ParserErrV::UnknownNode(n.name)),
        Option::Some(t) => match t {
            NodeType::Import => eval_import(n, lib, fuel),
            NodeType::Variables => eval_variables(n, amb, lib, fuel),
            NodeType::Variable => eval_variable(n, lib, fuel),
            NodeType::ListItem => list_item_eval(n),
            NodeType::Cmd => cmd_eval(n, amb),
            NodeType::Tasks => eval_tasks(n, lib, fuel),
            NodeType::Task => eval_task(n, lib, fuel),
            NodeType::Actions => eval_actions(n, amb, lib, fuel),
            NodeType::If => if_eval(n),
            NodeType::ActionTask => action_task_eval(n),
            NodeType::ActionCd => action_cd_eval(n),
        },
    }
}

/// Sequential composition: the first failure wins, contributions
/// concatenate in document order.
pub open spec fn eval_nodes(
    ns: Seq<NodeV>,
    amb: Scope,
    lib: Map<Seq<char>, Seq<NodeV>>,
    fuel: nat,
) -> EvalResult
    decreases fuel, ns, 0int,
{
    if ns.len() == 0 {
        EvalResult::Parsed(empty_contrib())
    } else {
        match eval_node(ns[0], amb, lib, fuel) {
            EvalResult::Failed(e) => EvalResult::Failed(e),
            EvalResult::Parsed(c1) => after_contrib(c1, eval_nodes(ns.skip(1), amb, lib, fuel)),
        }
    }
}

/// A whole document walked from scratch: only what reaches the file
/// survives; the scratch global frame is discarded.
pub open spec fn eval_file(
    ns: Seq<NodeV>,
    lib: Map<Seq<char>, Seq<NodeV>>,
    fuel: nat,
) -> EvalResult
    decreases fuel, ns, 1int,
{
    match eval_nodes(ns, Scope::Global, lib, fuel) {
        EvalResult::Failed(e) => EvalResult::Failed(e),
        EvalResult::Parsed(c) => EvalResult::Parsed(
            ContribV { file_vars: c.file_vars, file_tasks: c.file_tasks, ..empty_contrib() },
        ),
    }
}

/// The merge a `variables` block performs once its children are walked:
/// into the file at the top level, into the task inside a task, and
/// nowhere else.
pub open spec fn merge_variables(c: ContribV, amb: Scope) -> EvalResult {
    match amb {
        Scope::Global => EvalResult::Parsed(
            ContribV {
                file_vars: c.file_vars + c.frame_vars,
                file_tasks: c.file_tasks,
                ..empty_contrib()
            },
        ),
        Scope::Task => EvalResult::Parsed(
            ContribV {
                task_vars: c.frame_vars,
                file_vars: c.file_vars,
                file_tasks: c.file_tasks,
                ..empty_contrib()
            },
        ),
        _ => EvalResult::Failed(ParserErrV::ContextError("cannot add variables here"@)),
    }
}

pub open spec fn eval_variables(
    n: NodeV,
    amb: Scope,
    lib: Map<Seq<char>, Seq<NodeV>>,
    fuel: nat,
) -> EvalResult
    decreases fuel, n, 1int,
{
    match n.children {
        Option::None => merge_variables(empty_contrib(), amb),
        Option::Some(ch) => match eval_nodes(ch, Scope::Variables, lib, fuel) {
            EvalResult::Failed(e) => EvalResult::Failed(e),
            EvalResult::Parsed(c) => merge_variables(c, amb),
        },
    }
}

/// What a variable body's collected actions and list items make of the
/// variable: a literal list, a command source, or an error when mixed or
/// ambiguous.  A body that collected neither declares nothing.
pub open spec fn merge_variable_body(name: Seq<char>, c: ContribV) -> EvalResult {
    if c.frame_actions.len() > 0 && c.frame_items.len() > 0 {
        EvalResult::Failed(ParserErrV::ContextError("cannot mix actions and list items"@))
    } else if c.frame_actions.len() > 1 {
        EvalResult::Failed(ParserErrV::ContextError("cannot have more than one action"@))
    } else {
        let vars: Seq<VariableV> = if c.frame_items.len() > 0 {
            seq![
                VariableV {
                    name,
                    value: VariableValueV::Static(ValueV::List(c.frame_items)),
                },
            ]
        } else if c.frame_actions.len() == 1 {
            seq![VariableV { name, value: VariableValueV::Action(c.frame_actions[0]) }]
        } else {
            Seq::empty()
        };
        EvalResult::Parsed(
            ContribV {
                frame_vars: vars,
                file_vars: c.file_vars,
                file_tasks: c.file_tasks,
                ..empty_contrib()
            },
        )
    }
}

pub open spec fn variable_body_eval(
    n: NodeV,
    lib: Map<Seq<char>, Seq<NodeV>>,
    fuel: nat,
) -> EvalResult
    decreases fuel, n, 1int,
{
    match n.children {
        Option::None => EvalResult::Failed(ParserErrV::MissingBody),
        Option::Some(ch) => match eval_nodes(ch, Scope::Variable, lib, fuel) {
            EvalResult::Failed(e) => EvalResult::Failed(e),
            EvalResult::Parsed(c) => merge_variable_body(n.name, c),
        },
    }
}

pub open spec fn eval_variable(
    n: NodeV,
    lib: Map<Seq<char>, Seq<NodeV>>,
    fuel: nat,
) -> EvalResult
    decreases fuel, n, 2int,
{
    if n.args.len() > 0 {
        EvalResult::Parsed(
            contrib_var(
                VariableV { name: n.name, value: VariableValueV::Static(n.args[0]) },
            ),
        )
    } else {
        variable_body_eval(n, lib, fuel)
    }
}

pub open spec fn eval_tasks(n: NodeV, lib: Map<Seq<char>, Seq<NodeV>>, fuel: nat) -> EvalResult
    decreases fuel, n, 1int,
{
    match n.children {
        Option::None => EvalResult::Parsed(empty_contrib()),
        Option::Some(ch) => match eval_nodes(ch, Scope::Tasks, lib, fuel) {
            EvalResult::Failed(e) => EvalResult::Failed(e),
            EvalResult::Parsed(c) => EvalResult::Parsed(
                ContribV { file_vars: c.file_vars, file_tasks: c.file_tasks, ..empty_contrib() },
            ),
        },
    }
}

pub open spec fn eval_actions(
    n: NodeV,
    amb: Scope,
    lib: Map<Seq<char>, Seq<NodeV>>,
    fuel: nat,
) -> EvalResult
    decreases fuel, n, 1int,
{
    match n.children {
        Option::None => EvalResult::Parsed(empty_contrib()),
        Option::Some(ch) => match eval_nodes(ch, Scope::Actions, lib, fuel) {
            EvalResult::Failed(e) => EvalResult::Failed(e),
            EvalResult::Parsed(c) => EvalResult::Parsed(
                ContribV {
                    frame_actions: if amb is Task {
                        c.frame_actions
                    } else {
                        Seq::empty()
                    },
                    file_vars: c.file_vars,
                    file_tasks: c.file_tasks,
                    ..empty_contrib()
                },
            ),
        },
    }
}

/// The description a task node's leading argument gives it.
pub open spec fn task_description(n: NodeV) -> Option<Seq<char>> {
    if n.args.len() > 0 && n.args[0] is Text {
        Option::Some(n.args[0]->Text_0)
    } else {
        Option::None
    }
}

/// The finished task a task node denotes, given its children's
/// contribution.
pub open spec fn merge_task(n: NodeV, c: ContribV) -> EvalResult {
    EvalResult::Parsed(
        ContribV {
            file_vars: c.file_vars,
            file_tasks: c.file_tasks.push(
                TaskV {
                    name: n.name,
                    description: task_description(n),
                    arguments: Seq::empty(),
                    actions: c.frame_actions,
                    variables: c.task_vars,
                },
            ),
            ..empty_contrib()
        },
    )
}

pub open spec fn eval_task(n: NodeV, lib: Map<Seq<char>, Seq<NodeV>>, fuel: nat) -> EvalResult
    decreases fuel, n, 1int,
{
    match n.children {
        Option::None => merge_task(n, empty_contrib()),
        Option::Some(ch) => match eval_nodes(ch, Scope::Task, lib, fuel) {
            EvalResult::Failed(e) => EvalResult::Failed(e),
            EvalResult::Parsed(c) => merge_task(n, c),
        },
    }
}

/// A task as an import under a prefix stores it: renamed to
/// `<prefix>:<name>`, the separator present even with an empty prefix.
pub open spec fn prefixed_task(prefix: Seq<char>, t: TaskV) -> TaskV {
    TaskV { name: prefix + seq![':'] + t.name, ..t }
}

/// The meaning of an `import` node: the named document, parsed from
/// scratch against the same document set, donates its global variables
/// unchanged and its tasks renamed under the prefix.  A missing document,
/// a failure in it, or imports nested deeper than the fuel allows are all
/// one import error.
pub open spec fn eval_import(n: NodeV, lib: Map<Seq<char>, Seq<NodeV>>, fuel: nat) -> EvalResult
    decreases fuel, n, 1int,
{
    if n.args.len() == 0 {
        EvalResult::Failed(ParserErrV::MissingArgument("file"@))
    } else if !(n.args[0] is Text) {
        EvalResult::Failed(ParserErrV::InvalidType)
    } else {
        let path = n.args[0]->Text_0;
        let prefix: Seq<char> = match prop_lookup(n.props, "prefix"@) {
            Option::Some(ValueV::Text(p)) => p,
            _ => Seq::empty(),
        };
        if !lib.contains_key(path) || fuel == 0 {
            EvalResult::Failed(ParserErrV::ImportError)
        } else {
            match eval_file(lib[path], lib, (fuel - 1) as nat) {
                EvalResult::Failed(_) => EvalResult::Failed(ParserErrV::ImportError),
                EvalResult::Parsed(c) => EvalResult::Parsed(
                    ContribV {
                        file_vars: c.file_vars,
                        file_tasks: c.file_tasks.map_values(|t: TaskV| prefixed_task(prefix, t)),
                        ..empty_contrib()
                    },
                ),
            }
        }
    }
}


// ------------------------------------------------------------------
// The walker
// ------------------------------------------------------------------

proof fn lemma_ctx_apply_frameless(ctx: Seq<ContextScopeV>, c: ContribV)
    requires
        ctx.len() > 0,
        c.frame_actions.len() == 0,
        c.frame_vars.len() == 0,
        c.frame_items.len() == 0,
        c.task_vars.len() == 0,
    ensures
        ctx_apply(ctx, c) == ctx,
{
    let fr = ctx.last();
    let fa = frame_apply(fr, c);
    assert(fa.actions =~= fr.actions);
    assert(fa.variables =~= fr.variables);
    assert(fa.list_items =~= fr.list_items);
    assert(fa.task.variables =~= fr.task.variables);
    assert(fa == fr);
    assert(ctx_apply(ctx, c) =~= ctx);
}

/// Pushing a frame, applying a contribution and popping leaves the stack
/// as it was, the popped frame holding exactly the contribution.
proof fn lemma_push_apply_pop(ctx: Seq<ContextScopeV>, f: ContextScopeV, c: ContribV)
    ensures
        ctx_apply(ctx.push(f), c).len() == ctx.len() + 1,
        ctx_apply(ctx.push(f), c).drop_last() == ctx,
        ctx_apply(ctx.push(f), c).last() == frame_apply(f, c),
{
    assert(ctx_apply(ctx.push(f), c).drop_last() =~= ctx);
}

/// Walks one node and merges what it contributes: the file and the
/// innermost open scope take in exactly what `eval_node` says the node
/// means under the current ambient scope.  On a failure nothing is
/// promised of the file or the stack; the caller discards both.
#[verifier::loop_isolation(false)]
pub fn parse_node(
    node: &Node,
    task_file: &mut TaskFile,
    context: &mut Context,
    imports: &ImportDocs,
    fuel: usize,
) -> (r: Result<(), ParserError>)
    ensures
        match eval_node(node@, ambient(old(context)@), imports@, fuel as nat) {
            EvalResult::Parsed(c) => r is Ok && final(task_file)@ == file_apply(
                old(task_file)@,
                c,
            ) && (old(context)@.len() > 0 ==> final(context)@ == ctx_apply(old(context)@, c)) && (
            old(context)@.len() == 0 ==> final(context)@.len() <= 1 && ambient(final(context)@)
                is Global),
            EvalResult::Failed(e) => r matches Result::Err(pe) && pe@ == e,
        },
    decreases fuel, *node, 3int,
{
    let node_name = &node.name;
    let node_type = match crate::node::get_node_type_by_name(node_name.as_str(), context) {
        Option::Some(t) => t,
        Option::None => {
            return Result::Err(
                ParserError(ParserErrorData::UnknownNode { name: node_name.clone() }),
            );
        },
    };
    match node_type {
        NodeType::Import => parse_import_node(node, task_file, context, imports, fuel),
        NodeType::Variables => parse_variables_node(node, task_file, context, imports, fuel),
        NodeType::Variable => parse_variable_node(node, task_file, context, imports, fuel),
        NodeType::ListItem => parse_list_item(node, task_file, context),
        NodeType::Cmd => parse_cmd(node, task_file, context),
        NodeType::Tasks => parse_tasks(node, task_file, context, imports, fuel),
        NodeType::Task => parse_task(node, task_file, context, imports, fuel),
        NodeType::Actions => parse_actions(node, task_file, context, imports, fuel),
        NodeType::If => parse_if(node, task_file, context),
        NodeType::ActionTask => parse_action_task(node, task_file, context),
        NodeType::ActionCd => parse_action_cd(node, task_file, context),
    }
}

/// Walks a list of sibling nodes in order, stopping at the first failure.
#[verifier::loop_isolation(false)]
pub fn parse_nodes(
    nodes: &Vec<Node>,
    task_file: &mut TaskFile,
    context: &mut Context,
    imports: &ImportDocs,
    fuel: usize,
) -> (r: Result<(), ParserError>)
    requires
        old(context)@.len() > 0,
    ensures
        match eval_nodes(
            nodes_view(nodes@),
            ambient(old(context)@),
            imports@,
            fuel as nat,
        ) {
            EvalResult::Parsed(c) => r is Ok && final(task_file)@ == file_apply(
                old(task_file)@,
                c,
            ) && final(context)@ == ctx_apply(old(context)@, c),
            EvalResult::Failed(e) => r matches Result::Err(pe) && pe@ == e,
        },
    decreases fuel, nodes@, 0int,
{
    let ghost ns = nodes_view(nodes@);
    let ghost ctx0 = context@;
    let ghost file0 = task_file@;
    let ghost amb = ambient(ctx0);
    let ghost mut acc = empty_contrib();
    proof {
        broadcast use crate::node::lemma_nodes_view;

        lemma_apply_empty(ctx0, file0);
        lemma_compose_empty(empty_contrib());
        assert(ns.skip(0) =~= ns);
    }
    let mut i: usize = 0;
    while i < nodes.len()
        invariant
            i <= nodes@.len(),
            context@.len() == ctx0.len(),
            context@ == ctx_apply(ctx0, acc),
            task_file@ == file_apply(file0, acc),
            after_contrib(acc, eval_nodes(ns.skip(i as int), amb, imports@, fuel as nat))
                == eval_nodes(ns, amb, imports@, fuel as nat),
        decreases nodes@.len() - i,
    {
        proof {
            assert(ambient(context@) == amb);
            assert(decreases_to!(nodes@ => nodes@[i as int]));
        }
        let ghost ctx_before = context@;
        let ghost file_before = task_file@;
        let r = parse_node(&nodes[i], task_file, context, imports, fuel);
        proof {
            assert(ns.skip(i as int)[0] == ns[i as int]);
            assert(ns.skip(i as int).skip(1) =~= ns.skip(i as int + 1));
        }
        match r {
            Result::Err(e) => {
                return Result::Err(e);
            },
            Result::Ok(_) => {
                proof {
                    let c_i = eval_node(ns[i as int], amb, imports@, fuel as nat)->Parsed_0;
                    lemma_apply_compose(ctx0, file0, acc, c_i);
                    let rest = eval_nodes(ns.skip(i as int + 1), amb, imports@, fuel as nat);
                    if rest is Parsed {
                        let c2 = rest->Parsed_0;
                        assert(compose(compose(acc, c_i), c2).frame_actions =~= compose(
                            acc,
                            compose(c_i, c2),
                        ).frame_actions);
                        assert(compose(compose(acc, c_i), c2).frame_vars =~= compose(
                            acc,
                            compose(c_i, c2),
                        ).frame_vars);
                        assert(compose(compose(acc, c_i), c2).frame_items =~= compose(
                            acc,
                            compose(c_i, c2),
                        ).frame_items);
                        assert(compose(compose(acc, c_i), c2).task_vars =~= compose(
                            acc,
                            compose(c_i, c2),
                        ).task_vars);
                        assert(compose(compose(acc, c_i), c2).file_vars =~= compose(
                            acc,
                            compose(c_i, c2),
                        ).file_vars);
                        assert(compose(compose(acc, c_i), c2).file_tasks =~= compose(
                            acc,
                            compose(c_i, c2),
                        ).file_tasks);
                        assert(compose(compose(acc, c_i), c2) == compose(acc, compose(c_i, c2)));
                    }
                    acc = compose(acc, c_i);
                }
                i += 1;
            },
        }
    }
    proof {
        assert(ns.skip(nodes@.len() as int) =~= Seq::<NodeV>::empty());
        lemma_compose_empty(acc);
    }
    Result::Ok(())
}

/// Parses a whole document from scratch: a fresh file, a fresh stack with
/// one scratch global frame, and only the file kept.
pub fn parse_document(nodes: &Vec<Node>, imports: &ImportDocs, fuel: usize) -> (r: Result<
    TaskFile,
    ParserError,
>)
    ensures
        match eval_file(nodes_view(nodes@), imports@, fuel as nat) {
            EvalResult::Parsed(c) => r matches Result::Ok(f) && f@.variables == c.file_vars
                && f@.tasks == c.file_tasks,
            EvalResult::Failed(e) => r matches Result::Err(pe) && pe@ == e,
        },
    decreases fuel, nodes@, 1int,
{
    let mut task_file = TaskFile::default();
    let mut context = Context::default();
    context.push_scope(Scope::Global);
    proof {
        assert(ambient(context@) is Global);
    }
    let ghost file0 = task_file@;
    match parse_nodes(nodes, &mut task_file, &mut context, imports, fuel) {
        Result::Err(e) => Result::Err(e),
        Result::Ok(_) => {
            proof {
                let c = eval_nodes(
                    nodes_view(nodes@),
                    Scope::Global,
                    imports@,
                    fuel as nat,
                )->Parsed_0;
                assert(task_file@.variables =~= c.file_vars);
                assert(task_file@.tasks =~= c.file_tasks);
            }
            Result::Ok(task_file)
        },
    }
}

/// Parses a document against a set of pre-loaded import documents.
///
/// The nesting of non-cyclic imports can never exceed the number of
/// documents supplied, so that is the depth allowed; a cycle of imports
/// therefore runs the depth out and surfaces as an import error.
pub fn parse(nodes: &Vec<Node>, imports: &ImportDocs) -> (r: Result<TaskFile, ParserError>)
    requires
        imports.docs@.len() < usize::MAX,
    ensures
        match eval_file(nodes_view(nodes@), imports@, imports.docs@.len() + 1) {
            EvalResult::Parsed(c) => r matches Result::Ok(f) && f@.variables == c.file_vars
                && f@.tasks == c.file_tasks,
            EvalResult::Failed(e) => r matches Result::Err(pe) && pe@ == e,
        },
{
    let fuel = imports.docs.len() + 1;
    parse_document(nodes, imports, fuel)
}

/// Handles an `import` node: parses the named pre-loaded document from
/// scratch and merges its global variables and its prefixed tasks in.
#[verifier::loop_isolation(false)]
pub fn parse_import_node(
    node: &Node,
    task_file: &mut TaskFile,
    context: &mut Context,
    imports: &ImportDocs,
    fuel: usize,
) -> (r: Result<(), ParserError>)
    ensures
        match eval_import(node@, imports@, fuel as nat) {
            EvalResult::Parsed(c) => r is Ok && final(task_file)@ == file_apply(
                old(task_file)@,
                c,
            ) && final(context)@ == old(context)@,
            EvalResult::Failed(e) => r matches Result::Err(pe) && pe@ == e,
        },
    decreases fuel, *node, 2int,
{
    proof {
        broadcast use crate::tasks::lemma_values_view;

    }
    let path: String = match node.arg0() {
        Option::None => {
            return Result::Err(
                ParserError(
                    ParserErrorData::MissingArgument { name: String::from_str("file") },
                ),
            );
        },
        Option::Some(v) => match v {
            Value::Text(s) => s.clone(),
            _ => {
                return Result::Err(ParserError(ParserErrorData::InvalidType));
            },
        },
    };
    let prefix: String = match node.get_prop("prefix") {
        Option::Some(v) => match v {
            Value::Text(p) => p.clone(),
            _ => String::new(),
        },
        Option::None => String::new(),
    };
    let doc_nodes = match imports.lookup(path.as_str()) {
        Option::None => {
            return Result::Err(ParserError(ParserErrorData::ImportError));
        },
        Option::Some(ns) => ns,
    };
    if fuel == 0 {
        return Result::Err(ParserError(ParserErrorData::ImportError));
    }
    let mut imported = match parse_document(doc_nodes, imports, fuel - 1) {
        Result::Err(_) => {
            return Result::Err(ParserError(ParserErrorData::ImportError));
        },
        Result::Ok(f) => f,
    };
    let ghost c_imp = eval_file(imports@[path@], imports@, (fuel - 1) as nat)->Parsed_0;
    let ghost file0 = task_file@;
    task_file.variables.append(&mut imported.variables);
    proof {
        assert(variables_view(task_file.variables@) =~= file0.variables + c_imp.file_vars);
    }
    let ghost prefixv = prefix@;
    let ghost renamed = c_imp.file_tasks.map_values(|t: TaskV| prefixed_task(prefixv, t));
    let mut k: usize = 0;
    let ghost tasks_in = imported.tasks@;
    while k < imported.tasks.len()
        invariant
            k <= tasks_in.len(),
            imported.tasks@ == tasks_in,
            tasks_view(tasks_in) == c_imp.file_tasks,
            task_file@.variables == file0.variables + c_imp.file_vars,
            task_file@.tasks == file0.tasks + renamed.take(k as int),
        decreases tasks_in.len() - k,
    {
        let t = imported.tasks[k].dup();
        let mut key = prefix.clone();
        key.append(":");
        key.append(t.name.as_str());
        let renamed_task = Task { name: key, ..t };
        proof {
            reveal_strlit(":");
            assert(":"@ =~= seq![':']);
            assert(tasks_view(tasks_in)[k as int] == tasks_in[k as int]@);
            assert(renamed_task@ == prefixed_task(prefixv, c_imp.file_tasks[k as int]));
            assert(renamed[k as int] == prefixed_task(prefixv, c_imp.file_tasks[k as int]));
        }
        let ghost before_tasks = task_file@.tasks;
        task_file.insert_task(renamed_task);
        proof {
            assert(renamed.take(k as int + 1) =~= renamed.take(k as int).push(
                renamed[k as int],
            ));
            assert(task_file@.tasks =~= file0.tasks + renamed.take(k as int + 1));
        }
        k += 1;
    }
    proof {
        assert(renamed.take(c_imp.file_tasks.len() as int) =~= renamed);
        let c = eval_import(node@, imports@, fuel as nat)->Parsed_0;
        assert(task_file@.variables =~= file_apply(file0, c).variables);
        assert(task_file@.tasks =~= file_apply(file0, c).tasks);
    }
    Result::Ok(())
}


/// Reads the command string and optional `shell` property a `cmd` or
/// `if` node carries.
fn read_command_node(node: &Node) -> (r: Result<(String, Option<String>), ParserError>)
    ensures
        match eval_command_node(node@, "command"@) {
            Result::Ok(c) => r matches Result::Ok((cmd, sh)) && cmd@ == c.command
                && crate::tasks::opt_text_view(sh) == c.shell,
            Result::Err(e) => r matches Result::Err(pe) && pe@ == e,
        },
{
    proof {
        broadcast use crate::tasks::lemma_values_view;

    }
    let command: String = match node.arg0() {
        Option::None => {
            return Result::Err(
                ParserError(
                    ParserErrorData::MissingArgument { name: String::from_str("command") },
                ),
            );
        },
        Option::Some(v) => match v {
            Value::Text(sv) => sv.clone(),
            _ => {
                return Result::Err(ParserError(ParserErrorData::InvalidType));
            },
        },
    };
    let shell: Option<String> = match node.get_prop("shell") {
        Option::None => Option::None,
        Option::Some(v) => match v {
            Value::Text(sh) => Option::Some(sh.clone()),
            _ => {
                return Result::Err(ParserError(ParserErrorData::InvalidType));
            },
        },
    };
    Result::Ok((command, shell))
}

/// A `cmd` node: an inline command action.  It runs attached to the
/// terminal except when collected as a variable's command source.
pub fn parse_cmd(node: &Node, task_file: &mut TaskFile, context: &mut Context) -> (r: Result<
    (),
    ParserError,
>)
    ensures
        match cmd_eval(node@, ambient(old(context)@)) {
            EvalResult::Parsed(c) => r is Ok && final(task_file)@ == file_apply(
                old(task_file)@,
                c,
            ) && final(context)@ == ctx_apply(ctx_base(old(context)@), c),
            EvalResult::Failed(e) => r matches Result::Err(pe) && pe@ == e,
        },
{
    let (command, shell) = match read_command_node(node) {
        Result::Err(e) => {
            return Result::Err(e);
        },
        Result::Ok(p) => p,
    };
    let tty: bool = match context.current_scope_type() {
        Scope::Variable => false,
        _ => true,
    };
    let ghost file0 = task_file@;
    context.add_action(Action::Command(ActionCommand { command, shell, tty }));
    proof {
        let c = cmd_eval(node@, ambient(old(context)@))->Parsed_0;
        lemma_apply_empty(ctx_base(old(context)@), file0);
        assert(file_apply(file0, c).variables =~= file0.variables);
        assert(file_apply(file0, c).tasks =~= file0.tasks);
    }
    Result::Ok(())
}

/// The meaning of a `cmd` node under an ambient scope.
pub open spec fn cmd_eval(n: NodeV, amb: Scope) -> EvalResult {
    match eval_command_node(n, "command"@) {
        Result::Err(e) => EvalResult::Failed(e),
        Result::Ok(c) => EvalResult::Parsed(
            contrib_action(
                ActionV::Command(ActionCommandV { tty: !(amb is Variable), ..c }),
            ),
        ),
    }
}

/// The meaning of an `if` node: a guard, always captured.
pub open spec fn if_eval(n: NodeV) -> EvalResult {
    match eval_command_node(n, "command"@) {
        Result::Err(e) => EvalResult::Failed(e),
        Result::Ok(c) => EvalResult::Parsed(
            contrib_action(ActionV::If(ActionCommandV { tty: false, ..c })),
        ),
    }
}

/// An `if` node: a guard action, always run captured.
pub fn parse_if(node: &Node, task_file: &mut TaskFile, context: &mut Context) -> (r: Result<
    (),
    ParserError,
>)
    ensures
        match if_eval(node@) {
            EvalResult::Parsed(c) => r is Ok && final(task_file)@ == file_apply(
                old(task_file)@,
                c,
            ) && final(context)@ == ctx_apply(ctx_base(old(context)@), c),
            EvalResult::Failed(e) => r matches Result::Err(pe) && pe@ == e,
        },
{
    let (command, shell) = match read_command_node(node) {
        Result::Err(e) => {
            return Result::Err(e);
        },
        Result::Ok(p) => p,
    };
    let ghost file0 = task_file@;
    context.add_action(Action::If(ActionCommand { command, shell, tty: false }));
    proof {
        let c = if_eval(node@)->Parsed_0;
        assert(file_apply(file0, c).variables =~= file0.variables);
        assert(file_apply(file0, c).tasks =~= file0.tasks);
    }
    Result::Ok(())
}

/// The meaning of a `task` action node: a call to another task by name.
pub open spec fn action_task_eval(n: NodeV) -> EvalResult {
    if n.args.len() == 0 {
        EvalResult::Failed(ParserErrV::MissingArgument("task"@))
    } else if !(n.args[0] is Text) {
        EvalResult::Failed(ParserErrV::InvalidType)
    } else {
        EvalResult::Parsed(contrib_action(ActionV::Task(TaskCallV { name: n.args[0]->Text_0 })))
    }
}

/// A `task` action node: a call to another task by name.
pub fn parse_action_task(node: &Node, task_file: &mut TaskFile, context: &mut Context) -> (r:
    Result<(), ParserError>)
    ensures
        match action_task_eval(node@) {
            EvalResult::Parsed(c) => r is Ok && final(task_file)@ == file_apply(
                old(task_file)@,
                c,
            ) && final(context)@ == ctx_apply(ctx_base(old(context)@), c),
            EvalResult::Failed(e) => r matches Result::Err(pe) && pe@ == e,
        },
{
    proof {
        broadcast use crate::tasks::lemma_values_view;

    }
    let name: String = match node.arg0() {
        Option::None => {
            return Result::Err(
                ParserError(ParserErrorData::MissingArgument { name: String::from_str("task") }),
            );
        },
        Option::Some(v) => match v {
            Value::Text(sv) => sv.clone(),
            _ => {
                return Result::Err(ParserError(ParserErrorData::InvalidType));
            },
        },
    };
    let ghost file0 = task_file@;
    context.add_action(Action::Task(TaskCall { name }));
    proof {
        let c = action_task_eval(node@)->Parsed_0;
        assert(file_apply(file0, c).variables =~= file0.variables);
        assert(file_apply(file0, c).tasks =~= file0.tasks);
    }
    Result::Ok(())
}

/// The meaning of a `cd` node: a working-directory change.
pub open spec fn action_cd_eval(n: NodeV) -> EvalResult {
    if n.args.len() == 0 {
        EvalResult::Failed(ParserErrV::MissingArgument("path"@))
    } else if !(n.args[0] is Text) {
        EvalResult::Failed(ParserErrV::InvalidType)
    } else {
        EvalResult::Parsed(contrib_action(ActionV::Cd(n.args[0]->Text_0)))
    }
}

/// A `cd` node: changes the working directory for the rest of the task.
pub fn parse_action_cd(node: &Node, task_file: &mut TaskFile, context: &mut Context) -> (r:
    Result<(), ParserError>)
    ensures
        match action_cd_eval(node@) {
            EvalResult::Parsed(c) => r is Ok && final(task_file)@ == file_apply(
                old(task_file)@,
                c,
            ) && final(context)@ == ctx_apply(ctx_base(old(context)@), c),
            EvalResult::Failed(e) => r matches Result::Err(pe) && pe@ == e,
        },
{
    proof {
        broadcast use crate::tasks::lemma_values_view;

    }
    let path: String = match node.arg0() {
        Option::None => {
            return Result::Err(
                ParserError(ParserErrorData::MissingArgument { name: String::from_str("path") }),
            );
        },
        Option::Some(v) => match v {
            Value::Text(sv) => sv.clone(),
            _ => {
                return Result::Err(ParserError(ParserErrorData::InvalidType));
            },
        },
    };
    let ghost file0 = task_file@;
    context.add_action(Action::Cd(path));
    proof {
        let c = action_cd_eval(node@)->Parsed_0;
        assert(file_apply(file0, c).variables =~= file0.variables);
        assert(file_apply(file0, c).tasks =~= file0.tasks);
    }
    Result::Ok(())
}

/// The meaning of a `-` list item: the leading value, or null.
pub open spec fn list_item_eval(n: NodeV) -> EvalResult {
    EvalResult::Parsed(
        contrib_item(
            if n.args.len() == 0 {
                ValueV::Null
            } else {
                n.args[0]
            },
        ),
    )
}

/// A `-` node outside a task: one value of the enclosing variable's list.
pub fn parse_list_item(node: &Node, task_file: &mut TaskFile, context: &mut Context) -> (r:
    Result<(), ParserError>)
    ensures
        match list_item_eval(node@) {
            EvalResult::Parsed(c) => r is Ok && final(task_file)@ == file_apply(
                old(task_file)@,
                c,
            ) && final(context)@ == ctx_apply(ctx_base(old(context)@), c),
            EvalResult::Failed(e) => r matches Result::Err(pe) && pe@ == e,
        },
{
    proof {
        broadcast use crate::tasks::lemma_values_view;

    }
    let item: Value = match node.arg0() {
        Option::None => Value::Null,
        Option::Some(v) => v.dup(),
    };
    let ghost file0 = task_file@;
    context.add_list_item(item);
    proof {
        let c = list_item_eval(node@)->Parsed_0;
        assert(file_apply(file0, c).variables =~= file0.variables);
        assert(file_apply(file0, c).tasks =~= file0.tasks);
    }
    Result::Ok(())
}


/// A `variables` (or `vars`) block: its children are walked in a fresh
/// variables scope, and the variables they declare merge into the file at
/// the top level or into the enclosing task, anywhere else being an
/// error.
#[verifier::loop_isolation(false)]
pub fn parse_variables_node(
    node: &Node,
    task_file: &mut TaskFile,
    context: &mut Context,
    imports: &ImportDocs,
    fuel: usize,
) -> (r: Result<(), ParserError>)
    ensures
        match eval_variables(node@, ambient(old(context)@), imports@, fuel as nat) {
            EvalResult::Parsed(c) => r is Ok && final(task_file)@ == file_apply(
                old(task_file)@,
                c,
            ) && (old(context)@.len() > 0 ==> final(context)@ == ctx_apply(old(context)@, c)) && (
            old(context)@.len() == 0 ==> final(context)@.len() <= 1 && ambient(final(context)@)
                is Global),
            EvalResult::Failed(e) => r matches Result::Err(pe) && pe@ == e,
        },
    decreases fuel, *node, 2int,
{
    let ghost ctx0 = context@;
    let ghost file0 = task_file@;
    let ghost amb = ambient(ctx0);
    context.push_scope(Scope::Variables);
    let ghost mut c_ch = empty_contrib();
    proof {
        lemma_apply_empty(context@, task_file@);
    }
    match &node.children {
        Option::None => {},
        Option::Some(ch) => {
            proof {
                let nd = *node;
                assert(decreases_to!(nd => nd.children));
                assert(decreases_to!(nd.children => nd.children->Some_0));
                assert(nd.children->Some_0 == *ch);
                assert(decreases_to!(*ch => ch@));
                assert(node@.children == Option::Some(nodes_view(ch@)));
            }
            match parse_nodes(ch, task_file, context, imports, fuel) {
                Result::Err(e) => {
                    return Result::Err(e);
                },
                Result::Ok(_) => {
                    proof {
                        c_ch = eval_nodes(
                            nodes_view(ch@),
                            Scope::Variables,
                            imports@,
                            fuel as nat,
                        )->Parsed_0;
                    }
                },
            }
        },
    }
    let scoped = context.pop_scope();
    proof {
        lemma_push_apply_pop(ctx0, empty_frame(Scope::Variables), c_ch);
        assert(context@ == ctx0);
        assert(scoped@ == frame_apply(empty_frame(Scope::Variables), c_ch));
        assert(scoped@.variables =~= c_ch.frame_vars);
    }
    let mut vars = scoped.variables;
    match context.current_scope_type() {
        Scope::Global => {
            task_file.variables.append(&mut vars);
            proof {
                let c = merge_variables(c_ch, amb)->Parsed_0;
                assert(variables_view(task_file.variables@) =~= file_apply(
                    file0,
                    c_ch,
                ).variables + c_ch.frame_vars);
                assert(task_file@.variables =~= file_apply(file0, c).variables);
                assert(task_file@.tasks =~= file_apply(file0, c).tasks);
                assert(task_file@ =~= file_apply(file0, c));
                if ctx0.len() > 0 {
                    lemma_ctx_apply_frameless(ctx0, c);
                }
            }
            Result::Ok(())
        },
        Scope::Task => {
            let k = context.scopes.len() - 1;
            context.scopes[k].task.variables.append(&mut vars);
            proof {
                let c = merge_variables(c_ch, amb)->Parsed_0;
                assert(task_file@.variables =~= file_apply(file0, c).variables);
                assert(task_file@.tasks =~= file_apply(file0, c).tasks);
                assert(task_file@ =~= file_apply(file0, c));
                assert(variables_view(context.scopes@[k as int].task.variables@) =~= ctx0[
                    k as int
                ].task.variables + c_ch.frame_vars);
                let fr = ctx0.last();
                let fa = frame_apply(fr, c);
                assert(context@[k as int].task =~= fa.task);
                assert(context@[k as int] =~= fa);
                assert(context@ =~= ctx_apply(ctx0, c));
            }
            Result::Ok(())
        },
        _ => Result::Err(
            ParserError(
                ParserErrorData::ContextError(
                    ContextError(String::from_str("cannot add variables here")),
                ),
            ),
        ),
    }
}

/// A named node inside a `variables` block: a variable declaration.  A
/// leading positional value makes it a static literal; otherwise its body
/// decides.
pub fn parse_variable_node(
    node: &Node,
    task_file: &mut TaskFile,
    context: &mut Context,
    imports: &ImportDocs,
    fuel: usize,
) -> (r: Result<(), ParserError>)
    ensures
        match eval_variable(node@, imports@, fuel as nat) {
            EvalResult::Parsed(c) => r is Ok && final(task_file)@ == file_apply(
                old(task_file)@,
                c,
            ) && (old(context)@.len() > 0 ==> final(context)@ == ctx_apply(old(context)@, c)) && (
            old(context)@.len() == 0 ==> final(context)@.len() <= 1 && ambient(final(context)@)
                is Global),
            EvalResult::Failed(e) => r matches Result::Err(pe) && pe@ == e,
        },
    decreases fuel, *node, 2int,
{
    proof {
        broadcast use crate::tasks::lemma_values_view;

    }
    match node.arg0() {
        Option::Some(v) => {
            let var = Variable { name: node.name.clone(), value: VariableValue::Static(v.dup()) };
            let ghost file0 = task_file@;
            context.add_variable(var);
            proof {
                let c = eval_variable(node@, imports@, fuel as nat)->Parsed_0;
                assert(file_apply(file0, c).variables =~= file0.variables);
                assert(file_apply(file0, c).tasks =~= file0.tasks);
                assert(file_apply(file0, c) =~= file0);
            }
            Result::Ok(())
        },
        Option::None => parse_variable_node_body(node, task_file, context, imports, fuel),
    }
}

/// A variable body: list items make a static list, a single command
/// action makes a command source, both at once or several actions are
/// errors, and an empty body declares nothing.
#[verifier::loop_isolation(false)]
pub fn parse_variable_node_body(
    node: &Node,
    task_file: &mut TaskFile,
    context: &mut Context,
    imports: &ImportDocs,
    fuel: usize,
) -> (r: Result<(), ParserError>)
    ensures
        match variable_body_eval(node@, imports@, fuel as nat) {
            EvalResult::Parsed(c) => r is Ok && final(task_file)@ == file_apply(
                old(task_file)@,
                c,
            ) && (old(context)@.len() > 0 ==> final(context)@ == ctx_apply(old(context)@, c)) && (
            old(context)@.len() == 0 ==> final(context)@.len() <= 1 && ambient(final(context)@)
                is Global),
            EvalResult::Failed(e) => r matches Result::Err(pe) && pe@ == e,
        },
    decreases fuel, *node, 1int,
{
    let ghost ctx0 = context@;
    let ghost file0 = task_file@;
    let ch = match &node.children {
        Option::None => {
            return Result::Err(ParserError(ParserErrorData::MissingBody));
        },
        Option::Some(ch) => ch,
    };
    proof {
        let nd = *node;
        assert(decreases_to!(nd => nd.children));
        assert(decreases_to!(nd.children => nd.children->Some_0));
        assert(nd.children->Some_0 == *ch);
        assert(decreases_to!(*ch => ch@));
        assert(node@.children == Option::Some(nodes_view(ch@)));
    }
    context.scope(Scope::Variable);
    match parse_nodes(ch, task_file, context, imports, fuel) {
        Result::Err(e) => {
            return Result::Err(e);
        },
        Result::Ok(_) => {},
    }
    let ghost c_ch = eval_nodes(nodes_view(ch@), Scope::Variable, imports@, fuel as nat)->Parsed_0;
    let scoped = context.pop_scope();
    proof {
        lemma_push_apply_pop(ctx0, empty_frame(Scope::Variable), c_ch);
        assert(context@ == ctx0);
        assert(scoped@ == frame_apply(empty_frame(Scope::Variable), c_ch));
        assert(scoped@.actions =~= c_ch.frame_actions);
        assert(scoped@.list_items =~= c_ch.frame_items);
    }
    let mut actions = scoped.actions;
    let list_items = scoped.list_items;
    if actions.len() > 0 && list_items.len() > 0 {
        return Result::Err(
            ParserError(
                ParserErrorData::ContextError(
                    ContextError(String::from_str("cannot mix actions and list items")),
                ),
            ),
        );
    }
    if actions.len() > 1 {
        return Result::Err(
            ParserError(
                ParserErrorData::ContextError(
                    ContextError(String::from_str("cannot have more than one action")),
                ),
            ),
        );
    }
    let ghost c = variable_body_eval(node@, imports@, fuel as nat)->Parsed_0;
    proof {
        assert(file_apply(file0, c).variables =~= file_apply(file0, c_ch).variables);
        assert(file_apply(file0, c).tasks =~= file_apply(file0, c_ch).tasks);
        assert(file_apply(file0, c) =~= file_apply(file0, c_ch));
    }
    if list_items.len() > 0 {
        let var = Variable {
            name: node.name.clone(),
            value: VariableValue::Static(Value::List(list_items)),
        };
        proof {
            assert(var@ == c.frame_vars[0]);
        }
        context.add_variable(var);
        Result::Ok(())
    } else if actions.len() == 1 {
        match actions.pop() {
            Option::Some(a) => {
                let var = Variable {
                    name: node.name.clone(),
                    value: VariableValue::Action(a),
                };
                proof {
                    assert(a@ == c_ch.frame_actions[0]);
                    assert(var@ == c.frame_vars[0]);
                }
                context.add_variable(var);
                Result::Ok(())
            },
            Option::None => {
                proof {
                    assert(false);
                }
                Result::Err(ParserError(ParserErrorData::MissingBody))
            },
        }
    } else {
        proof {
            if ctx0.len() > 0 {
                lemma_ctx_apply_frameless(ctx0, c);
            }
        }
        Result::Ok(())
    }
}

/// A `tasks` block: each child declares a task in the file.
#[verifier::loop_isolation(false)]
pub fn parse_tasks(
    node: &Node,
    task_file: &mut TaskFile,
    context: &mut Context,
    imports: &ImportDocs,
    fuel: usize,
) -> (r: Result<(), ParserError>)
    ensures
        match eval_tasks(node@, imports@, fuel as nat) {
            EvalResult::Parsed(c) => r is Ok && final(task_file)@ == file_apply(
                old(task_file)@,
                c,
            ) && (old(context)@.len() > 0 ==> final(context)@ == ctx_apply(old(context)@, c)) && (
            old(context)@.len() == 0 ==> final(context)@.len() <= 1 && ambient(final(context)@)
                is Global),
            EvalResult::Failed(e) => r matches Result::Err(pe) && pe@ == e,
        },
    decreases fuel, *node, 2int,
{
    let ghost ctx0 = context@;
    let ghost file0 = task_file@;
    context.scope(Scope::Tasks);
    let ghost mut c_ch = empty_contrib();
    proof {
        lemma_apply_empty(context@, task_file@);
    }
    match &node.children {
        Option::None => {},
        Option::Some(ch) => {
            proof {
                let nd = *node;
                assert(decreases_to!(nd => nd.children));
                assert(decreases_to!(nd.children => nd.children->Some_0));
                assert(nd.children->Some_0 == *ch);
                assert(decreases_to!(*ch => ch@));
                assert(node@.children == Option::Some(nodes_view(ch@)));
            }
            match parse_nodes(ch, task_file, context, imports, fuel) {
                Result::Err(e) => {
                    return Result::Err(e);
                },
                Result::Ok(_) => {
                    proof {
                        c_ch = eval_nodes(
                            nodes_view(ch@),
                            Scope::Tasks,
                            imports@,
                            fuel as nat,
                        )->Parsed_0;
                    }
                },
            }
        },
    }
    context.pop_scope();
    proof {
        lemma_push_apply_pop(ctx0, empty_frame(Scope::Tasks), c_ch);
        assert(context@ == ctx0);
        let c = eval_tasks(node@, imports@, fuel as nat)->Parsed_0;
        assert(file_apply(file0, c).variables =~= file_apply(file0, c_ch).variables);
        assert(file_apply(file0, c).tasks =~= file_apply(file0, c_ch).tasks);
        assert(file_apply(file0, c) =~= file_apply(file0, c_ch));
        if ctx0.len() > 0 {
            lemma_ctx_apply_frameless(ctx0, c);
        }
    }
    Result::Ok(())
}

/// An `actions` block: inside a task its collected actions append to the
/// task, preserving their interleaving with actions declared directly;
/// anywhere else they are discarded.
#[verifier::loop_isolation(false)]
pub fn parse_actions(
    node: &Node,
    task_file: &mut TaskFile,
    context: &mut Context,
    imports: &ImportDocs,
    fuel: usize,
) -> (r: Result<(), ParserError>)
    ensures
        match eval_actions(node@, ambient(old(context)@), imports@, fuel as nat) {
            EvalResult::Parsed(c) => r is Ok && final(task_file)@ == file_apply(
                old(task_file)@,
                c,
            ) && (old(context)@.len() > 0 ==> final(context)@ == ctx_apply(old(context)@, c)) && (
            old(context)@.len() == 0 ==> final(context)@.len() <= 1 && ambient(final(context)@)
                is Global),
            EvalResult::Failed(e) => r matches Result::Err(pe) && pe@ == e,
        },
    decreases fuel, *node, 2int,
{
    let ghost ctx0 = context@;
    let ghost file0 = task_file@;
    let ghost amb = ambient(ctx0);
    context.scope(Scope::Actions);
    let ghost mut c_ch = empty_contrib();
    proof {
        lemma_apply_empty(context@, task_file@);
    }
    match &node.children {
        Option::None => {},
        Option::Some(ch) => {
            proof {
                let nd = *node;
                assert(decreases_to!(nd => nd.children));
                assert(decreases_to!(nd.children => nd.children->Some_0));
                assert(nd.children->Some_0 == *ch);
                assert(decreases_to!(*ch => ch@));
                assert(node@.children == Option::Some(nodes_view(ch@)));
            }
            match parse_nodes(ch, task_file, context, imports, fuel) {
                Result::Err(e) => {
                    return Result::Err(e);
                },
                Result::Ok(_) => {
                    proof {
                        c_ch = eval_nodes(
                            nodes_view(ch@),
                            Scope::Actions,
                            imports@,
                            fuel as nat,
                        )->Parsed_0;
                    }
                },
            }
        },
    }
    let scoped = context.pop_scope();
    proof {
        lemma_push_apply_pop(ctx0, empty_frame(Scope::Actions), c_ch);
        assert(context@ == ctx0);
        assert(scoped@.actions =~= c_ch.frame_actions);
    }
    let ghost c = eval_actions(node@, amb, imports@, fuel as nat)->Parsed_0;
    proof {
        assert(file_apply(file0, c).variables =~= file_apply(file0, c_ch).variables);
        assert(file_apply(file0, c).tasks =~= file_apply(file0, c_ch).tasks);
        assert(file_apply(file0, c) =~= file_apply(file0, c_ch));
    }
    let mut acts = scoped.actions;
    match context.current_scope_type() {
        Scope::Task => {
            let k = context.scopes.len() - 1;
            context.scopes[k].actions.append(&mut acts);
            proof {
                assert(actions_view(context.scopes@[k as int].actions@) =~= ctx0[
                    k as int
                ].actions + c_ch.frame_actions);
                let fr = ctx0.last();
                let fa = frame_apply(fr, c);
                assert(context@[k as int].task =~= fa.task);
                assert(context@[k as int] =~= fa);
                assert(context@ =~= ctx_apply(ctx0, c));
            }
            Result::Ok(())
        },
        _ => {
            proof {
                if ctx0.len() > 0 {
                    lemma_ctx_apply_frameless(ctx0, c);
                }
            }
            Result::Ok(())
        },
    }
}

/// A task node: seeds a task frame with the name and optional
/// description, walks the children, then stores the finished task.
#[verifier::loop_isolation(false)]
pub fn parse_task(
    node: &Node,
    task_file: &mut TaskFile,
    context: &mut Context,
    imports: &ImportDocs,
    fuel: usize,
) -> (r: Result<(), ParserError>)
    ensures
        match eval_task(node@, imports@, fuel as nat) {
            EvalResult::Parsed(c) => r is Ok && final(task_file)@ == file_apply(
                old(task_file)@,
                c,
            ) && (old(context)@.len() > 0 ==> final(context)@ == ctx_apply(old(context)@, c)) && (
            old(context)@.len() == 0 ==> final(context)@.len() <= 1 && ambient(final(context)@)
                is Global),
            EvalResult::Failed(e) => r matches Result::Err(pe) && pe@ == e,
        },
    decreases fuel, *node, 2int,
{
    proof {
        broadcast use crate::tasks::lemma_values_view;

    }
    let ghost ctx0 = context@;
    let ghost file0 = task_file@;
    let description: Option<String> = match node.arg0() {
        Option::Some(v) => match v {
            Value::Text(sv) => Option::Some(sv.clone()),
            _ => Option::None,
        },
        Option::None => Option::None,
    };
    let seeded = Task {
        name: node.name.clone(),
        description,
        arguments: Vec::new(),
        actions: Vec::new(),
        variables: Vec::new(),
    };
    let ghost seededv = seeded@;
    proof {
        assert(seededv.arguments =~= Seq::<crate::tasks::ArgumentV>::empty());
        assert(seededv.actions =~= Seq::<ActionV>::empty());
        assert(seededv.variables =~= Seq::<VariableV>::empty());
        assert(seededv.description == task_description(node@));
    }
    context.task_scope(seeded);
    let ghost frame0 = ContextScopeV { task: seededv, ..empty_frame(Scope::Task) };
    let ghost mut c_ch = empty_contrib();
    proof {
        lemma_apply_empty(context@, task_file@);
    }
    match &node.children {
        Option::None => {},
        Option::Some(ch) => {
            proof {
                let nd = *node;
                assert(decreases_to!(nd => nd.children));
                assert(decreases_to!(nd.children => nd.children->Some_0));
                assert(nd.children->Some_0 == *ch);
                assert(decreases_to!(*ch => ch@));
                assert(node@.children == Option::Some(nodes_view(ch@)));
            }
            match parse_nodes(ch, task_file, context, imports, fuel) {
                Result::Err(e) => {
                    return Result::Err(e);
                },
                Result::Ok(_) => {
                    proof {
                        c_ch = eval_nodes(
                            nodes_view(ch@),
                            Scope::Task,
                            imports@,
                            fuel as nat,
                        )->Parsed_0;
                    }
                },
            }
        },
    }
    let scoped = context.pop_scope();
    proof {
        lemma_push_apply_pop(ctx0, frame0, c_ch);
        assert(context@ == ctx0);
        assert(scoped@ == frame_apply(frame0, c_ch));
        assert(scoped@.actions =~= c_ch.frame_actions);
        assert(scoped@.task.variables =~= c_ch.task_vars);
    }
    let mut finished = scoped.task;
    let mut acts = scoped.actions;
    finished.actions.append(&mut acts);
    let ghost c = eval_task(node@, imports@, fuel as nat)->Parsed_0;
    proof {
        assert(actions_view(finished.actions@) =~= c_ch.frame_actions);
        assert(finished@ =~= c.file_tasks.last());
    }
    task_file.insert_task(finished);
    proof {
        assert(task_file@.variables =~= file_apply(file0, c).variables);
        assert(task_file@.tasks =~= file_apply(file0, c).tasks);
        assert(task_file@ =~= file_apply(file0, c));
        if ctx0.len() > 0 {
            lemma_ctx_apply_frameless(ctx0, c);
        }
    }
    Result::Ok(())
}

} // verus!
