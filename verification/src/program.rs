//! The compiled program: instruction stream, nodes, label tables and the
//! string table that maps line identifiers to their text and metadata.

use vstd::prelude::*;
use crate::text::str_eq;
use crate::value::Value;

verus! {

/// One bytecode instruction of the stack machine.
///
/// There are no arithmetic opcodes: operators are lowered to `CallFunc`
/// against the built-in library names. Jump operands are instruction
/// indices inside the owning node, resolved from symbolic labels when the
/// node is generated.
#[derive(Clone, Debug)]
pub enum Instruction {
    /// Jumps unconditionally to the instruction index.
    JumpTo(usize),
    /// Pops a boolean; jumps to the instruction index when it is false.
    JumpIfFalse(usize),
    /// Pops a label name off the stack and jumps to that label.
    Jump,
    /// Delivers the line with the given id, taking the given count of
    /// substitution values off the stack.
    RunLine(String, usize),
    /// Delivers a command: the text with positional placeholders, taking the
    /// given count of substitution values off the stack.
    RunCommand(String, usize),
    /// Buffers an option: line id, destination instruction index, count of
    /// substitution values to take off the stack, and whether an enabling
    /// condition value sits on the stack above them.
    AddOption(String, usize, usize, bool),
    /// Delivers the buffered options and waits for a selection.
    ShowOptions,
    /// Pushes a text value.
    PushString(String),
    /// Pushes a numeric value.
    PushNumber(i64),
    /// Pushes a truth value.
    PushBool(bool),
    /// Pushes the null value.
    PushNull,
    /// Discards the top of the stack.
    Pop,
    /// Calls the named function: pops its declared number of arguments and
    /// pushes the returned value.
    CallFunc(String),
    /// Pushes the value of the named variable.
    PushVariable(String),
    /// Writes the top of the stack (peeked, not popped) to the named variable.
    StoreVariable(String),
    /// Ends the node.
    Stop,
    /// Pops a text value naming a node and transfers execution to it.
    RunNode,
    /// Reserved for a deterministic shuffle over queued content; never emitted
    /// by this compiler and ignored by the virtual machine.
    AddSaltyDeterministicShuffleToQueue,
}

/// The jump operand of an instruction, if it has one: `JumpTo` and
/// `JumpIfFalse` targets and the destination of `AddOption`.
pub open spec fn instruction_target(i: Instruction) -> Option<int> {
    match i {
        Instruction::JumpTo(t) => Some(t as int),
        Instruction::JumpIfFalse(t) => Some(t as int),
        Instruction::AddOption(_, d, _, _) => Some(d as int),
        _ => None,
    }
}

/// A named, self-contained block of compiled dialogue.
#[derive(Clone, Debug)]
pub struct Node {
    /// The node's name, unique in its program.
    pub name: String,
    /// The instruction stream; the last instruction is always `Stop`.
    pub instructions: Vec<Instruction>,
    /// Named positions in the instruction stream.
    pub labels: Vec<(String, usize)>,
    /// The node's tags, from its `tags` header.
    pub tags: Vec<String>,
    /// All headers as key-value pairs, the title included.
    pub headers: Vec<(String, String)>,
    /// The name of the source file the node came from.
    pub source_file: String,
}

/// Every jump operand and every label of the node lies within its
/// instruction stream.
pub open spec fn node_targets_sound(n: Node) -> bool {
    &&& forall|i: int|
        0 <= i < n.instructions@.len() ==> match #[trigger] instruction_target(
            n.instructions@[i],
        ) {
            Some(t) => 0 <= t < n.instructions@.len(),
            None => true,
        }
    &&& forall|i: int|
        0 <= i < n.labels@.len() ==> (#[trigger] n.labels@[i]).1 < n.instructions@.len()
}

impl Node {
    /// Looks a label up by name; the first binding wins.
    pub fn label_position(&self, name: &str) -> (r: Option<usize>)
        ensures
            match r {
                Some(pc) => exists|i: int|
                    0 <= i < self.labels@.len() && #[trigger] self.labels@[i].0@ == name@
                        && self.labels@[i].1 == pc,
                None => forall|i: int|
                    0 <= i < self.labels@.len() ==> (#[trigger] self.labels@[i]).0@ != name@,
            },
    {
        let mut i: usize = 0;
        while i < self.labels.len()
            invariant
                i <= self.labels@.len(),
                forall|j: int| 0 <= j < i ==> (#[trigger] self.labels@[j]).0@ != name@,
            decreases self.labels@.len() - i,
        {
            if str_eq(self.labels[i].0.as_str(), name) {
                return Some(self.labels[i].1);
            }
            i += 1;
        }
        None
    }
}

/// The compiled, immutable artifact: nodes and initial variable values.
#[derive(Clone, Debug)]
pub struct Program {
    /// The compiled nodes; names are unique across all compiled files.
    pub nodes: Vec<Node>,
    /// Declared variables with their default values.
    pub initial_values: Vec<(String, Value)>,
}

/// Node names are unique within the program.
pub open spec fn program_names_unique(p: Program) -> bool {
    forall|i: int, j: int|
        0 <= i < j < p.nodes@.len() ==> (#[trigger] p.nodes@[i]).name@ != (
        #[trigger] p.nodes@[j]).name@
}

/// Every node of the program has sound jump targets and labels.
pub open spec fn program_targets_sound(p: Program) -> bool {
    forall|i: int| 0 <= i < p.nodes@.len() ==> node_targets_sound(#[trigger] p.nodes@[i])
}

/// A well-formed program: unique node names and sound jump targets.
pub open spec fn program_wf(p: Program) -> bool {
    program_names_unique(p) && program_targets_sound(p)
}

impl Program {
    /// Finds the node with the given name.
    pub fn node_index(&self, name: &str) -> (r: Option<usize>)
        ensures
            match r {
                Some(i) => i < self.nodes@.len() && self.nodes@[i as int].name@ == name@,
                None => forall|i: int|
                    0 <= i < self.nodes@.len() ==> (#[trigger] self.nodes@[i]).name@ != name@,
            },
    {
        let mut i: usize = 0;
        while i < self.nodes.len()
            invariant
                i <= self.nodes@.len(),
                forall|j: int| 0 <= j < i ==> (#[trigger] self.nodes@[j]).name@ != name@,
            decreases self.nodes@.len() - i,
        {
            if str_eq(self.nodes[i].name.as_str(), name) {
                return Some(i);
            }
            i += 1;
        }
        None
    }

    /// Finds the declared default value of the named variable.
    pub fn initial_value(&self, name: &str) -> (r: Option<&Value>)
        ensures
            match r {
                Some(v) => exists|i: int|
                    0 <= i < self.initial_values@.len()
                        && #[trigger] self.initial_values@[i].0@ == name@
                        && self.initial_values@[i].1 == *v,
                None => forall|i: int|
                    0 <= i < self.initial_values@.len() ==> (
                    #[trigger] self.initial_values@[i]).0@ != name@,
            },
    {
        let mut i: usize = 0;
        while i < self.initial_values.len()
            invariant
                i <= self.initial_values@.len(),
                forall|j: int|
                    0 <= j < i ==> (#[trigger] self.initial_values@[j]).0@ != name@,
            decreases self.initial_values@.len() - i,
        {
            if str_eq(self.initial_values[i].0.as_str(), name) {
                return Some(&self.initial_values[i].1);
            }
            i += 1;
        }
        None
    }
}

/// One entry of the string table: the text of a line and where it came from.
#[derive(Clone, Debug)]
pub struct StringInfo {
    /// The line's text, with positional placeholders where expressions were
    /// interpolated.
    pub text: String,
    /// The node the line belongs to.
    pub node_name: String,
    /// The one-based source line number.
    pub line_number: usize,
    /// The source file the line came from.
    pub file_name: String,
    /// The line's metadata tags, hashtags and compiler-added markers alike.
    pub metadata: Vec<String>,
}

/// Looks an id up in string-table entries; the first binding wins.
pub open spec fn table_lookup(entries: Seq<(String, StringInfo)>, id: Seq<char>) -> Option<
    StringInfo,
>
    decreases entries.len(),
{
    if entries.len() == 0 {
        None
    } else if entries[0].0@ == id {
        Some(entries[0].1)
    } else {
        table_lookup(entries.drop_first(), id)
    }
}

/// The table mapping line ids to their text and metadata, in insertion order.
#[derive(Clone, Debug)]
pub struct StringTable {
    /// Entries in insertion order; ids are unique.
    pub entries: Vec<(String, StringInfo)>,
}

impl StringTable {
    /// Creates an empty table.
    pub fn new() -> (r: Self)
        ensures
            r.entries@.len() == 0,
    {
        StringTable { entries: Vec::new() }
    }

    /// Returns the entry for the given line id.
    pub fn get(&self, id: &str) -> (r: Option<&StringInfo>)
        ensures
            match r {
                Some(info) => table_lookup(self.entries@, id@) == Some(*info),
                None => table_lookup(self.entries@, id@) is None,
            },
    {
        let mut i: usize = 0;
        proof {
            assert(self.entries@.subrange(0, self.entries@.len() as int) =~= self.entries@);
        }
        while i < self.entries.len()
            invariant
                i <= self.entries@.len(),
                table_lookup(self.entries@, id@) == table_lookup(
                    self.entries@.subrange(i as int, self.entries@.len() as int),
                    id@,
                ),
            decreases self.entries@.len() - i,
        {
            proof {
                let rest = self.entries@.subrange(i as int, self.entries@.len() as int);
                assert(rest[0] == self.entries@[i as int]);
                assert(rest.drop_first() =~= self.entries@.subrange(
                    i + 1,
                    self.entries@.len() as int,
                ));
            }
            if str_eq(self.entries[i].0.as_str(), id) {
                return Some(&self.entries[i].1);
            }
            i += 1;
        }
        proof {
            assert(self.entries@.subrange(
                self.entries@.len() as int,
                self.entries@.len() as int,
            ) =~= Seq::<(String, StringInfo)>::empty());
        }
        None
    }

    /// Whether the table holds an entry for the given line id.
    pub fn contains(&self, id: &str) -> (r: bool)
        ensures
            r == (table_lookup(self.entries@, id@) is Some),
    {
        match self.get(id) {
            Some(_) => true,
            None => false,
        }
    }

    /// Appends an entry. When the id is new, lookups of it find this entry.
    pub fn insert(&mut self, id: String, info: StringInfo)
        ensures
            final(self).entries@ == old(self).entries@.push((id, info)),
    {
        self.entries.push((id, info));
    }

    /// The number of entries.
    pub fn len(&self) -> (r: usize)
        ensures
            r == self.entries@.len(),
    {
        self.entries.len()
    }
}

} // verus!
