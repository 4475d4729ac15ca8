use vstd::prelude::*;
use crate::util::str_eq;

verus! {

// ------------------------------------------------------------------
// Values
// ------------------------------------------------------------------

/// A scalar or list value taken from the input document.
///
/// `Float` holds the decimal text of the number as the document wrote it:
/// the engine only carries such a value along and renders it as text, it
/// never computes with it.
#[derive(Debug)]
pub enum Value {
    Text(String),
    Int(i64),
    Float(String),
    Bool(bool),
    Null,
    List(Vec<Value>),
}

/// The mathematical model of a `Value`.
#[verifier::ext_equal]
pub enum ValueV {
    Text(Seq<char>),
    Int(int),
    Float(Seq<char>),
    Bool(bool),
    Null,
    List(Seq<ValueV>),
}

pub open spec fn values_view(s: Seq<Value>) -> Seq<ValueV>
    decreases s,
{
    if s.len() == 0 {
        Seq::empty()
    } else {
        values_view(s.drop_last()).push(value_view(s.last()))
    }
}

pub open spec fn value_view(v: Value) -> ValueV
    decreases v,
{
    match v {
        Value::Text(s) => ValueV::Text(s@),
        Value::Int(i) => ValueV::Int(i as int),
        Value::Float(t) => ValueV::Float(t@),
        Value::Bool(b) => ValueV::Bool(b),
        Value::Null => ValueV::Null,
        Value::List(items) => ValueV::List(values_view(items@)),
    }
}

pub broadcast proof fn lemma_values_view(s: Seq<Value>)
    ensures
        #[trigger] values_view(s).len() == s.len(),
        forall|i: int| 0 <= i < s.len() ==> values_view(s)[i] == value_view(s[i]),
    decreases s,
{
    if s.len() > 0 {
        lemma_values_view(s.drop_last());
    }
}

impl View for Value {
    type V = ValueV;

    open spec fn view(&self) -> ValueV {
        value_view(*self)
    }
}

impl Value {
    /// An explicit copy whose model is provably that of the original.
    #[verifier::loop_isolation(false)]
    pub fn dup(&self) -> (r: Value)
        ensures
            r@ == self@,
        decreases *self,
    {
        match self {
            Value::Text(s) => Value::Text(s.clone()),
            Value::Int(i) => Value::Int(*i),
            Value::Float(t) => Value::Float(t.clone()),
            Value::Bool(b) => Value::Bool(*b),
            Value::Null => Value::Null,
            Value::List(items) => {
                let mut out: Vec<Value> = Vec::new();
                let mut i: usize = 0;
                while i < items.len()
                    invariant
                        i <= items@.len(),
                        out@.len() == i,
                        forall|j: int| 0 <= j < i ==> out@[j]@ == items@[j]@,
                    decreases items@.len() - i,
                {
                    proof {
                        let v = *self;
                        assert(decreases_to!(v => v->List_0));
                        assert(v->List_0 == *items);
                        assert(decreases_to!(*items => items@[i as int]));
                    }
                    let d = items[i].dup();
                    out.push(d);
                    i += 1;
                }
                let r = Value::List(out);
                proof {
                    broadcast use lemma_values_view;

                    assert(values_view(out@) =~= values_view(items@));
                }
                r
            },
        }
    }
}

// ------------------------------------------------------------------
// Actions
// ------------------------------------------------------------------

/// A shell command to run, with an optional shell override and the choice
/// between attached (`tty`) and captured execution.
#[derive(Debug)]
pub struct ActionCommand {
    pub command: String,
    pub shell: Option<String>,
    pub tty: bool,
}

#[verifier::ext_equal]
pub struct ActionCommandV {
    pub command: Seq<char>,
    pub shell: Option<Seq<char>>,
    pub tty: bool,
}

pub open spec fn opt_text_view(o: Option<String>) -> Option<Seq<char>> {
    match o {
        Option::Some(s) => Option::Some(s@),
        Option::None => Option::None,
    }
}

impl View for ActionCommand {
    type V = ActionCommandV;

    open spec fn view(&self) -> ActionCommandV {
        ActionCommandV {
            command: self.command@,
            shell: opt_text_view(self.shell),
            tty: self.tty,
        }
    }
}

impl ActionCommand {
    pub fn dup(&self) -> (r: ActionCommand)
        ensures
            r@ == self@,
    {
        ActionCommand {
            command: self.command.clone(),
            shell: match &self.shell {
                Option::Some(s) => Option::Some(s.clone()),
                Option::None => Option::None,
            },
            tty: self.tty,
        }
    }
}

impl Default for ActionCommand {
    /// The empty command: run attached, no shell override.
    fn default() -> (r: ActionCommand)
        ensures
            r@.command == Seq::<char>::empty(),
            r@.shell is None,
            r@.tty == true,
    {
        ActionCommand { command: String::new(), shell: Option::None, tty: true }
    }
}

/// A reference to another task, by name; resolved only when the action runs.
#[derive(Debug)]
pub struct TaskCall {
    pub name: String,
}

#[verifier::ext_equal]
pub struct TaskCallV {
    pub name: Seq<char>,
}

impl View for TaskCall {
    type V = TaskCallV;

    open spec fn view(&self) -> TaskCallV {
        TaskCallV { name: self.name@ }
    }
}

impl TaskCall {
    pub fn dup(&self) -> (r: TaskCall)
        ensures
            r@ == self@,
    {
        TaskCall { name: self.name.clone() }
    }
}

/// One executable step of a task.
#[derive(Debug)]
pub enum Action {
    Noop,
    Command(ActionCommand),
    If(ActionCommand),
    Task(TaskCall),
    Cd(String),
}

#[verifier::ext_equal]
pub enum ActionV {
    Noop,
    Command(ActionCommandV),
    If(ActionCommandV),
    Task(TaskCallV),
    Cd(Seq<char>),
}

impl View for Action {
    type V = ActionV;

    open spec fn view(&self) -> ActionV {
        match self {
            Action::Noop => ActionV::Noop,
            Action::Command(c) => ActionV::Command(c@),
            Action::If(c) => ActionV::If(c@),
            Action::Task(t) => ActionV::Task(t@),
            Action::Cd(p) => ActionV::Cd(p@),
        }
    }
}

impl Action {
    pub fn dup(&self) -> (r: Action)
        ensures
            r@ == self@,
    {
        match self {
            Action::Noop => Action::Noop,
            Action::Command(c) => Action::Command(c.dup()),
            Action::If(c) => Action::If(c.dup()),
            Action::Task(t) => Action::Task(t.dup()),
            Action::Cd(p) => Action::Cd(p.clone()),
        }
    }
}

pub open spec fn actions_view(s: Seq<Action>) -> Seq<ActionV> {
    s.map_values(|a: Action| a@)
}

/// An explicit copy of an action list, element for element.
#[verifier::loop_isolation(false)]
pub fn dup_actions(v: &Vec<Action>) -> (r: Vec<Action>)
    ensures
        actions_view(r@) == actions_view(v@),
{
    let mut out: Vec<Action> = Vec::new();
    let mut i: usize = 0;
    while i < v.len()
        invariant
            i <= v@.len(),
            out@.len() == i,
            forall|j: int| 0 <= j < i ==> out@[j]@ == v@[j]@,
        decreases v@.len() - i,
    {
        out.push(v[i].dup());
        i += 1;
    }
    proof {
        assert(actions_view(out@) =~= actions_view(v@));
    }
    out
}

// ------------------------------------------------------------------
// Variables
// ------------------------------------------------------------------

/// Where a variable's value comes from: a literal, or the captured output
/// of a command action run when the variable is resolved.
#[derive(Debug)]
pub enum VariableValue {
    Static(Value),
    Action(Action),
}

#[verifier::ext_equal]
pub enum VariableValueV {
    Static(ValueV),
    Action(ActionV),
}

impl View for VariableValue {
    type V = VariableValueV;

    open spec fn view(&self) -> VariableValueV {
        match self {
            VariableValue::Static(v) => VariableValueV::Static(v@),
            VariableValue::Action(a) => VariableValueV::Action(a@),
        }
    }
}

impl VariableValue {
    pub fn dup(&self) -> (r: VariableValue)
        ensures
            r@ == self@,
    {
        match self {
            VariableValue::Static(v) => VariableValue::Static(v.dup()),
            VariableValue::Action(a) => VariableValue::Action(a.dup()),
        }
    }
}

/// A named variable available for template interpolation.
#[derive(Debug)]
pub struct Variable {
    pub name: String,
    pub value: VariableValue,
}

#[verifier::ext_equal]
pub struct VariableV {
    pub name: Seq<char>,
    pub value: VariableValueV,
}

impl View for Variable {
    type V = VariableV;

    open spec fn view(&self) -> VariableV {
        VariableV { name: self.name@, value: self.value@ }
    }
}

impl Variable {
    pub fn dup(&self) -> (r: Variable)
        ensures
            r@ == self@,
    {
        Variable { name: self.name.clone(), value: self.value.dup() }
    }
}

pub open spec fn variables_view(s: Seq<Variable>) -> Seq<VariableV> {
    s.map_values(|v: Variable| v@)
}

/// An explicit copy of a variable list, element for element.
#[verifier::loop_isolation(false)]
pub fn dup_variables(v: &Vec<Variable>) -> (r: Vec<Variable>)
    ensures
        variables_view(r@) == variables_view(v@),
{
    let mut out: Vec<Variable> = Vec::new();
    let mut i: usize = 0;
    while i < v.len()
        invariant
            i <= v@.len(),
            out@.len() == i,
            forall|j: int| 0 <= j < i ==> out@[j]@ == v@[j]@,
        decreases v@.len() - i,
    {
        out.push(v[i].dup());
        i += 1;
    }
    proof {
        assert(variables_view(out@) =~= variables_view(v@));
    }
    out
}

// ------------------------------------------------------------------
// Tasks
// ------------------------------------------------------------------

/// A declared parameter of a task.
#[derive(Debug)]
pub struct Argument {
    pub name: String,
}

#[verifier::ext_equal]
pub struct ArgumentV {
    pub name: Seq<char>,
}

impl View for Argument {
    type V = ArgumentV;

    open spec fn view(&self) -> ArgumentV {
        ArgumentV { name: self.name@ }
    }
}

impl Argument {
    pub fn dup(&self) -> (r: Argument)
        ensures
            r@ == self@,
    {
        Argument { name: self.name.clone() }
    }
}

/// An explicit copy of an argument list, element for element.
#[verifier::loop_isolation(false)]
pub fn dup_arguments(v: &Vec<Argument>) -> (r: Vec<Argument>)
    ensures
        r@.map_values(|a: Argument| a@) == v@.map_values(|a: Argument| a@),
{
    let mut out: Vec<Argument> = Vec::new();
    let mut i: usize = 0;
    while i < v.len()
        invariant
            i <= v@.len(),
            out@.len() == i,
            forall|j: int| 0 <= j < i ==> out@[j]@ == v@[j]@,
        decreases v@.len() - i,
    {
        out.push(v[i].dup());
        i += 1;
    }
    proof {
        assert(out@.map_values(|a: Argument| a@) =~= v@.map_values(|a: Argument| a@));
    }
    out
}

/// A named, ordered sequence of actions, with its own local variables.
#[derive(Debug)]
pub struct Task {
    pub name: String,
    pub description: Option<String>,
    pub arguments: Vec<Argument>,
    pub actions: Vec<Action>,
    pub variables: Vec<Variable>,
}

#[verifier::ext_equal]
pub struct TaskV {
    pub name: Seq<char>,
    pub description: Option<Seq<char>>,
    pub arguments: Seq<ArgumentV>,
    pub actions: Seq<ActionV>,
    pub variables: Seq<VariableV>,
}

impl View for Task {
    type V = TaskV;

    open spec fn view(&self) -> TaskV {
        TaskV {
            name: self.name@,
            description: opt_text_view(self.description),
            arguments: self.arguments@.map_values(|a: Argument| a@),
            actions: actions_view(self.actions@),
            variables: variables_view(self.variables@),
        }
    }
}

impl Default for Task {
    /// The empty task: no description, no arguments, actions or variables.
    fn default() -> (r: Task)
        ensures
            r@.name == Seq::<char>::empty(),
            r@.description is None,
            r@.arguments == Seq::<ArgumentV>::empty(),
            r@.actions == Seq::<ActionV>::empty(),
            r@.variables == Seq::<VariableV>::empty(),
    {
        let r = Task {
            name: String::new(),
            description: Option::None,
            arguments: Vec::new(),
            actions: Vec::new(),
            variables: Vec::new(),
        };
        proof {
            assert(r@.arguments =~= Seq::<ArgumentV>::empty());
            assert(r@.actions =~= Seq::<ActionV>::empty());
            assert(r@.variables =~= Seq::<VariableV>::empty());
        }
        r
    }
}

impl Task {
    /// An explicit copy whose model is provably that of the original.
    pub fn dup(&self) -> (r: Task)
        ensures
            r@ == self@,
    {
        Task {
            name: self.name.clone(),
            description: match &self.description {
                Option::Some(d) => Option::Some(d.clone()),
                Option::None => Option::None,
            },
            arguments: dup_arguments(&self.arguments),
            actions: dup_actions(&self.actions),
            variables: dup_variables(&self.variables),
        }
    }
}

pub open spec fn tasks_view(s: Seq<Task>) -> Seq<TaskV> {
    s.map_values(|t: Task| t@)
}

// ------------------------------------------------------------------
// The task file
// ------------------------------------------------------------------

/// The name-to-task mapping held by a task list, where a later entry with
/// the same name overwrites an earlier one.
pub open spec fn task_map(s: Seq<TaskV>) -> Map<Seq<char>, TaskV>
    decreases s.len(),
{
    if s.len() == 0 {
        Map::empty()
    } else {
        task_map(s.drop_last()).insert(s.last().name, s.last())
    }
}

/// The parsed model of one task-definition document: the global variables,
/// in declaration order, and the named tasks.
#[derive(Debug)]
pub struct TaskFile {
    pub variables: Vec<Variable>,
    pub tasks: Vec<Task>,
}

#[verifier::ext_equal]
pub struct TaskFileV {
    pub variables: Seq<VariableV>,
    pub tasks: Seq<TaskV>,
}

impl View for TaskFile {
    type V = TaskFileV;

    open spec fn view(&self) -> TaskFileV {
        TaskFileV { variables: variables_view(self.variables@), tasks: tasks_view(self.tasks@) }
    }
}

impl TaskFileV {
    /// The mapping from task name to task that this file holds.
    pub open spec fn tasks_map(self) -> Map<Seq<char>, TaskV> {
        task_map(self.tasks)
    }
}

impl Default for TaskFile {
    /// The empty file: no variables, no tasks.
    fn default() -> (r: TaskFile)
        ensures
            r@.variables == Seq::<VariableV>::empty(),
            r@.tasks == Seq::<TaskV>::empty(),
            r@.tasks_map() == Map::<Seq<char>, TaskV>::empty(),
    {
        let r = TaskFile { variables: Vec::new(), tasks: Vec::new() };
        proof {
            assert(r@.variables =~= Seq::<VariableV>::empty());
            assert(r@.tasks =~= Seq::<TaskV>::empty());
        }
        r
    }
}

impl TaskFile {
    /// Inserts a task under its name, overwriting any earlier task of the
    /// same name in the file's mapping.
    pub fn insert_task(&mut self, t: Task)
        ensures
            final(self)@.variables == old(self)@.variables,
            final(self)@.tasks == old(self)@.tasks.push(t@),
            final(self)@.tasks_map() == old(self)@.tasks_map().insert(t@.name, t@),
    {
        self.tasks.push(t);
        proof {
            assert(tasks_view(self.tasks@).drop_last() =~= tasks_view(old(self).tasks@));
        }
    }

    /// Looks a task up by name; the latest insertion under that name wins.
    #[verifier::loop_isolation(false)]
    pub fn get_task(&self, name: &str) -> (r: Option<&Task>)
        ensures
            match r {
                Option::Some(t) => self@.tasks_map().contains_key(name@) && t@
                    == self@.tasks_map()[name@],
                Option::None => !self@.tasks_map().contains_key(name@),
            },
    {
        let ghost ts = tasks_view(self.tasks@);
        let mut i: usize = self.tasks.len();
        while i > 0
            invariant
                i <= self.tasks@.len(),
                forall|j: int| i <= j < ts.len() ==> ts[j].name != name@,
            decreases i,
        {
            i = i - 1;
            if str_eq(self.tasks[i].name.as_str(), name) {
                proof {
                    lemma_task_map_found(ts, i as int, name@);
                }
                return Option::Some(&self.tasks[i]);
            }
        }
        proof {
            lemma_task_map_absent(ts, name@);
        }
        Option::None
    }
}

/// If every entry from `i + 1` on has another name and entry `i` has the
/// name sought, the mapping yields entry `i`.
proof fn lemma_task_map_found(s: Seq<TaskV>, i: int, name: Seq<char>)
    requires
        0 <= i < s.len(),
        s[i].name == name,
        forall|j: int| i < j < s.len() ==> s[j].name != name,
    ensures
        task_map(s).contains_key(name),
        task_map(s)[name] == s[i],
    decreases s.len(),
{
    if i == s.len() - 1 {
    } else {
        assert(s.drop_last()[i] == s[i]);
        lemma_task_map_found(s.drop_last(), i, name);
    }
}

/// If no entry has the name sought, the mapping has no key for it.
proof fn lemma_task_map_absent(s: Seq<TaskV>, name: Seq<char>)
    requires
        forall|j: int| 0 <= j < s.len() ==> s[j].name != name,
    ensures
        !task_map(s).contains_key(name),
    decreases s.len(),
{
    if s.len() > 0 {
        lemma_task_map_absent(s.drop_last(), name);
    }
}

} // verus!
