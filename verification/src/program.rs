//! The compiled artifact: nodes of bytecode instructions, their headers and
//! jump labels, and the registered initial values of variables.

use vstd::prelude::*;

verus! {

use crate::value::Operand;

/// A stable identifier for a line of dialogue text; it keys the string table.
#[derive(Debug, PartialEq, Eq)]
pub struct LineId(pub String);

impl Clone for LineId {
    /// Cloning preserves the identifier exactly.
    fn clone(&self) -> (r: Self)
        ensures
            r == *self,
    {
        LineId(self.0.clone())
    }
}

impl LineId {
    /// Decides equality of identifiers by their character sequences.
    pub fn eq_id(&self, other: &LineId) -> (r: bool)
        ensures
            r == (self.0@ == other.0@),
    {
        self.0.eq(&other.0)
    }
}

/// One key/value metadata pair from a node's header block.
#[derive(Debug, PartialEq, Eq)]
pub struct Header {
    pub key: String,
    pub value: String,
}

impl Clone for Header {
    /// Cloning preserves the header exactly.
    fn clone(&self) -> (r: Self)
        ensures
            r == *self,
    {
        Header { key: self.key.clone(), value: self.value.clone() }
    }
}

/// A bytecode instruction.  Jump destinations name labels of the node the
/// instruction belongs to; `RunNode` transfers control to another node.
#[derive(Debug, PartialEq, Eq)]
pub enum Instruction {
    /// Push a string literal on the evaluation stack.
    PushString(String),
    /// Push a number literal on the evaluation stack.
    PushNumber(i64),
    /// Push a boolean literal on the evaluation stack.
    PushBool(bool),
    /// Discard the top of the evaluation stack.
    Pop,
    /// Push the named variable's value.
    LoadVariable(String),
    /// Pop the top of the stack into the named variable.
    StoreVariable(String),
    /// Continue at the named label.
    JumpTo(String),
    /// Pop a boolean; continue at the named label when it is false.
    JumpIfFalse(String),
    /// Call the named library function: pop its arguments, push its result.
    CallFunc(String),
    /// Emit the identified line and suspend the batch.
    RunLine(LineId),
    /// Accumulate an option leading to the named label; with a condition, its
    /// availability is popped from the stack.
    AddOption { line_id: LineId, destination: String, has_condition: bool },
    /// Deliver the accumulated options and await a selection.
    ShowOptions,
    /// Emit a command for the host and suspend the batch.
    RunCommand(String),
    /// Transfer control to the named node.
    RunNode(String),
    /// Finish the dialogue.
    Stop,
}

impl Clone for Instruction {
    /// Cloning preserves the instruction exactly.
    fn clone(&self) -> (r: Self)
        ensures
            r == *self,
    {
        match self {
            Instruction::PushString(s) => Instruction::PushString(s.clone()),
            Instruction::PushNumber(n) => Instruction::PushNumber(*n),
            Instruction::PushBool(b) => Instruction::PushBool(*b),
            Instruction::Pop => Instruction::Pop,
            Instruction::LoadVariable(s) => Instruction::LoadVariable(s.clone()),
            Instruction::StoreVariable(s) => Instruction::StoreVariable(s.clone()),
            Instruction::JumpTo(s) => Instruction::JumpTo(s.clone()),
            Instruction::JumpIfFalse(s) => Instruction::JumpIfFalse(s.clone()),
            Instruction::CallFunc(s) => Instruction::CallFunc(s.clone()),
            Instruction::RunLine(id) => Instruction::RunLine(id.clone()),
            Instruction::AddOption { line_id, destination, has_condition } => {
                Instruction::AddOption {
                    line_id: line_id.clone(),
                    destination: destination.clone(),
                    has_condition: *has_condition,
                }
            },
            Instruction::ShowOptions => Instruction::ShowOptions,
            Instruction::RunCommand(s) => Instruction::RunCommand(s.clone()),
            Instruction::RunNode(s) => Instruction::RunNode(s.clone()),
            Instruction::Stop => Instruction::Stop,
        }
    }
}

/// A named, independently addressable unit of dialogue bytecode.
#[derive(Debug)]
pub struct Node {
    pub name: String,
    pub instructions: Vec<Instruction>,
    pub headers: Vec<Header>,
    /// Jump targets: label name to instruction index.
    pub labels: Vec<(String, usize)>,
}

/// The first index bound to a label name, if any.
pub open spec fn find_label_spec(labels: Seq<(String, usize)>, name: Seq<char>) -> Option<usize>
    decreases labels.len(),
{
    if labels.len() == 0 {
        None
    } else if labels[0].0@ == name {
        Some(labels[0].1)
    } else {
        find_label_spec(labels.subrange(1, labels.len() as int), name)
    }
}

impl Node {
    /// The instruction index a label name resolves to, if the label exists.
    pub fn find_label(&self, name: &str) -> (r: Option<usize>)
        ensures
            r == find_label_spec(self.labels@, name@),
    {
        let n = self.labels.len();
        proof {
            assert(self.labels@.subrange(0, n as int) =~= self.labels@);
        }
        let mut i: usize = 0;
        while i < n
            invariant
                n == self.labels@.len(),
                i <= n,
                find_label_spec(self.labels@, name@) == find_label_spec(
                    self.labels@.subrange(i as int, n as int),
                    name@,
                ),
            decreases n - i,
        {
            let ghost tail = self.labels@.subrange(i as int, n as int);
            proof {
                assert(tail[0] == self.labels@[i as int]);
                assert(tail.subrange(1, tail.len() as int) =~= self.labels@.subrange(
                    i + 1,
                    n as int,
                ));
            }
            if crate::util::str_eq(self.labels[i].0.as_str(), name) {
                return Some(self.labels[i].1);
            }
            i += 1;
        }
        None
    }
}

/// The index of the first node with the given name, if any.
pub open spec fn find_node_spec(nodes: Seq<Node>, name: Seq<char>) -> Option<int>
    decreases nodes.len(),
{
    if nodes.len() == 0 {
        None
    } else if nodes[0].name@ == name {
        Some(0int)
    } else {
        match find_node_spec(nodes.subrange(1, nodes.len() as int), name) {
            Some(i) => Some(i + 1),
            None => None,
        }
    }
}

/// The registered initial value for a variable name, if any.
pub open spec fn initial_value_spec(values: Seq<(String, Operand)>, name: Seq<char>) -> Option<
    Operand,
>
    decreases values.len(),
{
    if values.len() == 0 {
        None
    } else if values[0].0@ == name {
        Some(values[0].1)
    } else {
        initial_value_spec(values.subrange(1, values.len() as int), name)
    }
}

/// A compiled program: its nodes and the initial values registered for every
/// declared variable.
#[derive(Debug)]
pub struct Program {
    pub nodes: Vec<Node>,
    pub initial_values: Vec<(String, Operand)>,
}

impl Program {
    /// The index of the node with the given name, if it exists.
    pub fn node_index(&self, name: &str) -> (r: Option<usize>)
        ensures
            match r {
                Some(i) => i < self.nodes@.len() && find_node_spec(self.nodes@, name@) == Some(
                    i as int,
                ),
                None => find_node_spec(self.nodes@, name@) is None,
            },
    {
        let n = self.nodes.len();
        let mut i: usize = 0;
        while i < n
            invariant
                n == self.nodes@.len(),
                i <= n,
                forall|j: int| 0 <= j < i ==> self.nodes@[j].name@ != name@,
            decreases n - i,
        {
            if crate::util::str_eq(self.nodes[i].name.as_str(), name) {
                proof {
                    lemma_find_node_prefix(self.nodes@, name@, i as int);
                }
                return Some(i);
            }
            i += 1;
        }
        proof {
            lemma_find_node_none(self.nodes@, name@);
        }
        None
    }

    /// Returns the headers associated with the given node, if it exists: the
    /// node's key/value pairs, in order.
    pub fn headers_for_node(&self, node_name: &str) -> (r: Option<Vec<Header>>)
        ensures
            r is None <==> find_node_spec(self.nodes@, node_name@) is None,
            match r {
                Some(hs) => {
                    let i = find_node_spec(self.nodes@, node_name@)->Some_0;
                    hs@ == self.nodes@[i].headers@
                },
                None => true,
            },
    {
        let idx = match self.node_index(node_name) {
            Some(i) => i,
            None => {
                return None;
            },
        };
        let node = &self.nodes[idx];
        let hn = node.headers.len();
        let mut out: Vec<Header> = Vec::new();
        let mut i: usize = 0;
        while i < hn
            invariant
                hn == node.headers@.len(),
                i <= hn,
                out@ =~= node.headers@.subrange(0, i as int),
            decreases hn - i,
        {
            out.push(node.headers[i].clone());
            proof {
                assert(out@ =~= node.headers@.subrange(0, i + 1));
            }
            i += 1;
        }
        proof {
            assert(node.headers@.subrange(0, hn as int) =~= node.headers@);
        }
        Some(out)
    }
}

/// If the first `i` nodes do not carry `name` and node `i` does, the find
/// yields `i`.
proof fn lemma_find_node_prefix(nodes: Seq<Node>, name: Seq<char>, i: int)
    requires
        0 <= i < nodes.len(),
        forall|j: int| 0 <= j < i ==> nodes[j].name@ != name,
        nodes[i].name@ == name,
    ensures
        find_node_spec(nodes, name) == Some(i),
    decreases i,
{
    if i > 0 {
        let tail = nodes.subrange(1, nodes.len() as int);
        assert(forall|j: int| 0 <= j < i - 1 ==> tail[j] == nodes[j + 1]);
        assert(tail[i - 1] == nodes[i]);
        lemma_find_node_prefix(tail, name, i - 1);
    }
}

/// If no node carries `name`, the find yields nothing.
proof fn lemma_find_node_none(nodes: Seq<Node>, name: Seq<char>)
    requires
        forall|j: int| 0 <= j < nodes.len() ==> nodes[j].name@ != name,
    ensures
        find_node_spec(nodes, name) is None,
    decreases nodes.len(),
{
    if nodes.len() > 0 {
        let tail = nodes.subrange(1, nodes.len() as int);
        assert(forall|j: int| 0 <= j < tail.len() ==> tail[j] == nodes[j + 1]);
        lemma_find_node_none(tail, name);
    }
}

} // verus!
