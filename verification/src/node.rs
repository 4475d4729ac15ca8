use vstd::prelude::*;
use crate::parser::{ambient, Context, Scope};
use crate::tasks::{value_view, values_view, Value, ValueV};
use crate::util::str_eq;

verus! {

// ------------------------------------------------------------------
// The generic document tree
// ------------------------------------------------------------------

/// A named property attached to a node.
#[derive(Debug)]
pub struct Prop {
    pub name: String,
    pub value: Value,
}

#[verifier::ext_equal]
pub struct PropV {
    pub name: Seq<char>,
    pub value: ValueV,
}

impl View for Prop {
    type V = PropV;

    open spec fn view(&self) -> PropV {
        PropV { name: self.name@, value: self.value@ }
    }
}

pub open spec fn props_view(s: Seq<Prop>) -> Seq<PropV> {
    s.map_values(|p: Prop| p@)
}

/// One node of the tree-structured input document: a name, ordered
/// positional arguments, named properties, and an optional ordered list
/// of child nodes.  An absent child list is distinct from an empty one.
#[derive(Debug)]
pub struct Node {
    pub name: String,
    pub args: Vec<Value>,
    pub props: Vec<Prop>,
    pub children: Option<Vec<Node>>,
}

#[verifier::ext_equal]
pub struct NodeV {
    pub name: Seq<char>,
    pub args: Seq<ValueV>,
    pub props: Seq<PropV>,
    pub children: Option<Seq<NodeV>>,
}

pub open spec fn nodes_view(s: Seq<Node>) -> Seq<NodeV>
    decreases s,
{
    if s.len() == 0 {
        Seq::empty()
    } else {
        nodes_view(s.drop_last()).push(node_view(s.last()))
    }
}

pub open spec fn node_view(n: Node) -> NodeV
    decreases n,
{
    NodeV {
        name: n.name@,
        args: values_view(n.args@),
        props: props_view(n.props@),
        children: match n.children {
            Option::Some(c) => Option::Some(nodes_view(c@)),
            Option::None => Option::None,
        },
    }
}

pub broadcast proof fn lemma_nodes_view(s: Seq<Node>)
    ensures
        #[trigger] nodes_view(s).len() == s.len(),
        forall|i: int| 0 <= i < s.len() ==> nodes_view(s)[i] == node_view(s[i]),
    decreases s,
{
    if s.len() > 0 {
        lemma_nodes_view(s.drop_last());
    }
}

impl View for Node {
    type V = NodeV;

    open spec fn view(&self) -> NodeV {
        node_view(*self)
    }
}

// ------------------------------------------------------------------
// Property lookup
// ------------------------------------------------------------------

/// The value of the named property; of several with one name, the last.
pub open spec fn prop_lookup(props: Seq<PropV>, name: Seq<char>) -> Option<ValueV>
    decreases props.len(),
{
    if props.len() == 0 {
        Option::None
    } else if props.last().name == name {
        Option::Some(props.last().value)
    } else {
        prop_lookup(props.drop_last(), name)
    }
}

impl Node {
    /// The node's leading positional argument, if it has one.
    pub fn arg0(&self) -> (r: Option<&Value>)
        ensures
            match r {
                Option::Some(v) => self@.args.len() > 0 && v@ == self@.args[0],
                Option::None => self@.args.len() == 0,
            },
    {
        proof {
            broadcast use crate::tasks::lemma_values_view;

        }
        if self.args.len() > 0 {
            Option::Some(&self.args[0])
        } else {
            Option::None
        }
    }

    /// Looks a named property up; the last occurrence of the name wins.
    #[verifier::loop_isolation(false)]
    pub fn get_prop(&self, name: &str) -> (r: Option<&Value>)
        ensures
            match r {
                Option::Some(v) => prop_lookup(self@.props, name@) == Option::Some(v@),
                Option::None => prop_lookup(self@.props, name@) is None,
            },
    {
        let ghost ps = props_view(self.props@);
        let mut i: usize = self.props.len();
        proof {
            assert(ps.take(self.props@.len() as int) =~= ps);
        }
        while i > 0
            invariant
                i <= self.props@.len(),
                prop_lookup(ps, name@) == prop_lookup(ps.take(i as int), name@),
            decreases i,
        {
            i = i - 1;
            proof {
                assert(ps.take(i as int + 1).last() == ps[i as int]);
                assert(ps.take(i as int + 1).drop_last() =~= ps.take(i as int));
            }
            if str_eq(self.props[i].name.as_str(), name) {
                return Option::Some(&self.props[i].value);
            }
        }
        proof {
            assert(ps.take(0) =~= Seq::<PropV>::empty());
        }
        Option::None
    }
}

// ------------------------------------------------------------------
// Node-type resolution
// ------------------------------------------------------------------

/// What a node means, resolved from its name and the ambient scope.
#[derive(Debug)]
pub enum NodeType {
    Import,
    Variables,
    Variable,
    ListItem,
    Tasks,
    Task,
    Actions,
    Cmd,
    If,
    ActionTask,
    ActionCd,
}

/// The canonical name-to-meaning mapping.  The same name can mean
/// different things under different ambient scopes: a `-` node is a
/// shorthand command inside a task or actions block but a list item
/// elsewhere, and an otherwise unknown name declares a task inside a
/// `tasks` block and a variable inside a `variables` block.
pub open spec fn node_type_spec(name: Seq<char>, scope: Scope) -> Option<NodeType> {
    if name == "import"@ {
        Option::Some(NodeType::Import)
    } else if name == "variables"@ || name == "vars"@ {
        Option::Some(NodeType::Variables)
    } else if name == "cmd"@ {
        Option::Some(NodeType::Cmd)
    } else if name == "-"@ {
        match scope {
            Scope::Actions => Option::Some(NodeType::Cmd),
            Scope::Task => Option::Some(NodeType::Cmd),
            _ => Option::Some(NodeType::ListItem),
        }
    } else if name == "tasks"@ {
        Option::Some(NodeType::Tasks)
    } else if name == "actions"@ {
        Option::Some(NodeType::Actions)
    } else if name == "if"@ {
        Option::Some(NodeType::If)
    } else if name == "task"@ {
        Option::Some(NodeType::ActionTask)
    } else if name == "cd"@ {
        Option::Some(NodeType::ActionCd)
    } else {
        match scope {
            Scope::Tasks => Option::Some(NodeType::Task),
            Scope::Variables => Option::Some(NodeType::Variable),
            _ => Option::None,
        }
    }
}

/// Resolves what a node name means under the parser's current scope.
pub fn get_node_type_by_name(name: &str, context: &Context) -> (r: Option<NodeType>)
    ensures
        r == node_type_spec(name@, ambient(context@)),
{
    if str_eq(name, "import") {
        Option::Some(NodeType::Import)
    } else if str_eq(name, "variables") || str_eq(name, "vars") {
        Option::Some(NodeType::Variables)
    } else if str_eq(name, "cmd") {
        Option::Some(NodeType::Cmd)
    } else if str_eq(name, "-") {
        match context.current_scope_type() {
            Scope::Actions => Option::Some(NodeType::Cmd),
            Scope::Task => Option::Some(NodeType::Cmd),
            _ => Option::Some(NodeType::ListItem),
        }
    } else if str_eq(name, "tasks") {
        Option::Some(NodeType::Tasks)
    } else if str_eq(name, "actions") {
        Option::Some(NodeType::Actions)
    } else if str_eq(name, "if") {
        Option::Some(NodeType::If)
    } else if str_eq(name, "task") {
        Option::Some(NodeType::ActionTask)
    } else if str_eq(name, "cd") {
        Option::Some(NodeType::ActionCd)
    } else {
        match context.current_scope_type() {
            Scope::Tasks => Option::Some(NodeType::Task),
            Scope::Variables => Option::Some(NodeType::Variable),
            _ => Option::None,
        }
    }
}

} // verus!
