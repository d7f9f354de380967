//! The stack-discipline check: an abstract interpretation of a node's
//! bytecode that assigns each reachable instruction a stack depth and
//! demands depth zero at every stop. A node that passes cannot underflow
//! the operand stack and leaves it empty whenever it ends.
//!
//! The interpretation follows execution forward; generated code only jumps
//! forward, and the check conservatively rejects anything else.

use vstd::prelude::*;
use crate::library::{Library, find_signature_spec};
use crate::program::{Instruction, Node};

verus! {

broadcast use vstd::std_specs::vec::group_vec_axioms;

/// What one instruction demands of a depth assignment: where the position
/// is reachable with some depth, the depth suffices for what the
/// instruction pops, a stop sees depth zero, and every successor is
/// reachable with the depth the instruction leaves.
pub open spec fn step_consistent(
    n: Node,
    lib: Library,
    depths: Seq<Option<int>>,
    pc: int,
) -> bool {
    match depths[pc] {
        None => true,
        Some(d) => match n.instructions@[pc] {
            Instruction::PushString(_) | Instruction::PushNumber(_) | Instruction::PushBool(_)
                | Instruction::PushNull | Instruction::PushVariable(_) => pc + 1 < depths.len()
                && depths[pc + 1] == Some(d + 1),
            Instruction::Pop => d >= 1 && pc + 1 < depths.len() && depths[pc + 1] == Some(d - 1),
            Instruction::StoreVariable(_) => d >= 1 && pc + 1 < depths.len() && depths[pc + 1]
                == Some(d),
            Instruction::JumpTo(t) => pc < t < depths.len() && depths[t as int] == Some(d),
            Instruction::JumpIfFalse(t) => d >= 1 && pc < t < depths.len() && depths[t as int]
                == Some(d - 1) && pc + 1 < depths.len() && depths[pc + 1] == Some(d - 1),
            Instruction::Jump => false,
            Instruction::RunLine(_, k) => d >= k && pc + 1 < depths.len() && depths[pc + 1]
                == Some(d - k),
            Instruction::RunCommand(_, k) => d >= k && pc + 1 < depths.len() && depths[pc + 1]
                == Some(d - k),
            Instruction::AddOption(_, dest, k, c) => {
                let popped = k + if c {
                    1int
                } else {
                    0int
                };
                &&& d >= popped
                &&& pc + 1 < depths.len() && depths[pc + 1] == Some(d - popped)
                &&& pc < dest < depths.len() && depths[dest as int] == Some(d - popped)
            },
            Instruction::ShowOptions => pc + 1 < depths.len() && depths[pc + 1] == Some(d),
            Instruction::CallFunc(name) => match find_signature_spec(lib.functions@, name@) {
                Some(sig) => d >= sig.parameters@.len() && pc + 1 < depths.len() && depths[pc + 1]
                    == Some(d - sig.parameters@.len() + 1),
                None => false,
            },
            Instruction::Stop => d == 0,
            Instruction::RunNode => d == 1,
            Instruction::AddSaltyDeterministicShuffleToQueue => pc + 1 < depths.len()
                && depths[pc + 1] == Some(d),
        },
    }
}

/// A witness that a node keeps stack discipline: a depth for each reachable
/// instruction, zero at entry, consistent with every instruction — so the
/// depth at every stop is zero and no instruction pops past the bottom.
pub open spec fn depths_consistent(n: Node, lib: Library, depths: Seq<Option<int>>) -> bool {
    &&& depths.len() == n.instructions@.len()
    &&& (depths.len() > 0 ==> depths[0] == Some(0int))
    &&& forall|pc: int| 0 <= pc < depths.len() ==> step_consistent(n, lib, depths, pc)
}

/// Whether some consistent depth assignment exists for the node: the
/// stack-discipline property itself.
pub open spec fn node_disciplined(n: Node, lib: Library) -> bool {
    exists|depths: Seq<Option<int>>| depths_consistent(n, lib, depths)
}

/// The depth view of the working vector.
pub open spec fn depths_view(v: Seq<Option<usize>>) -> Seq<Option<int>> {
    Seq::new(v.len(), |i: int| match v[i] {
        Some(d) => Some(d as int),
        None => None,
    })
}

proof fn lemma_step_preserved(
    n: Node,
    lib: Library,
    before: Seq<Option<int>>,
    after: Seq<Option<int>>,
    pc: int,
)
    requires
        before.len() == after.len(),
        forall|j: int| 0 <= j < before.len() && before[j] is Some ==> after[j] == before[j],
        0 <= pc < before.len(),
        step_consistent(n, lib, before, pc),
        after[pc] == before[pc],
    ensures
        step_consistent(n, lib, after, pc),
{
}

/// Records a successor depth: reachable positions keep their depth, and the
/// merge fails when the depths disagree.
fn merge(depths: &mut Vec<Option<usize>>, t: usize, d: usize) -> (ok: bool)
    requires
        t < old(depths)@.len(),
    ensures
        final(depths)@.len() == old(depths)@.len(),
        forall|j: int|
            0 <= j < old(depths)@.len() && j != t ==> final(depths)@[j] == old(depths)@[j],
        forall|j: int|
            0 <= j < old(depths)@.len() && old(depths)@[j] is Some ==> final(depths)@[j] == old(
                depths,
            )@[j],
        ok ==> final(depths)@[t as int] == Some(d),
        !ok ==> final(depths)@ == old(depths)@,
{
    let current = depths[t];
    match current {
        Some(existing) => {
            if existing == d {
                true
            } else {
                false
            }
        },
        None => {
            depths.set(t, Some(d));
            true
        },
    }
}

/// Checks a node's stack discipline by abstract interpretation. A `true`
/// answer carries a consistent depth assignment: the stack depth at every
/// stop is zero and nothing pops past the bottom of the stack.
#[verifier::loop_isolation(false)]
#[verifier::rlimit(100)]
pub fn stack_discipline_ok(n: &Node, lib: &Library) -> (r: bool)
    ensures
        r ==> node_disciplined(*n, *lib),
{
    let len = n.instructions.len();
    if len == 0 {
        proof {
            let witness = Seq::<Option<int>>::empty();
            assert(depths_consistent(*n, *lib, witness));
        }
        return true;
    }
    let mut depths: Vec<Option<usize>> = Vec::new();
    let mut z: usize = 0;
    while z < len
        invariant
            z <= len,
            depths@.len() == z,
            forall|j: int| 0 <= j < z ==> depths@[j] is None,
        decreases len - z,
    {
        depths.push(None);
        z += 1;
    }
    depths.set(0, Some(0));
    let mut pc: usize = 0;
    while pc < len
        invariant
            len == n.instructions@.len(),
            depths@.len() == len,
            depths@[0] == Some(0usize),
            pc <= len,
            forall|j: int|
                0 <= j < pc ==> step_consistent(*n, *lib, depths_view(depths@), j),
        decreases len - pc,
    {
        let ghost before = depths_view(depths@);
        let current = depths[pc];
        let mut ok = true;
        match current {
            None => {},
            Some(d) => {
                let inst = &n.instructions[pc];
                match inst {
                    Instruction::PushString(_) | Instruction::PushNumber(_)
                        | Instruction::PushBool(_) | Instruction::PushNull
                        | Instruction::PushVariable(_) => {
                        if pc + 1 < len && d < usize::MAX {
                            ok = merge(&mut depths, pc + 1, d + 1);
                        } else {
                            ok = false;
                        }
                    },
                    Instruction::Pop => {
                        if d >= 1 && pc + 1 < len {
                            ok = merge(&mut depths, pc + 1, d - 1);
                        } else {
                            ok = false;
                        }
                    },
                    Instruction::StoreVariable(_) => {
                        if d >= 1 && pc + 1 < len {
                            ok = merge(&mut depths, pc + 1, d);
                        } else {
                            ok = false;
                        }
                    },
                    Instruction::JumpTo(t) => {
                        if pc < *t && *t < len {
                            ok = merge(&mut depths, *t, d);
                        } else {
                            ok = false;
                        }
                    },
                    Instruction::JumpIfFalse(t) => {
                        if d >= 1 && pc < *t && *t < len && pc + 1 < len {
                            ok = merge(&mut depths, *t, d - 1);
                            if ok {
                                ok = merge(&mut depths, pc + 1, d - 1);
                            }
                        } else {
                            ok = false;
                        }
                    },
                    Instruction::Jump => {
                        ok = false;
                    },
                    Instruction::RunLine(_, k) => {
                        if d >= *k && pc + 1 < len {
                            ok = merge(&mut depths, pc + 1, d - *k);
                        } else {
                            ok = false;
                        }
                    },
                    Instruction::RunCommand(_, k) => {
                        if d >= *k && pc + 1 < len {
                            ok = merge(&mut depths, pc + 1, d - *k);
                        } else {
                            ok = false;
                        }
                    },
                    Instruction::AddOption(_, dest, k, c) => {
                        let popped = if *c {
                            if *k < usize::MAX {
                                *k + 1
                            } else {
                                usize::MAX
                            }
                        } else {
                            *k
                        };
                        if d >= popped && pc + 1 < len && pc < *dest && *dest < len && (!*c || *k
                            < usize::MAX) {
                            ok = merge(&mut depths, pc + 1, d - popped);
                            if ok {
                                ok = merge(&mut depths, *dest, d - popped);
                            }
                        } else {
                            ok = false;
                        }
                    },
                    Instruction::ShowOptions => {
                        if pc + 1 < len {
                            ok = merge(&mut depths, pc + 1, d);
                        } else {
                            ok = false;
                        }
                    },
                    Instruction::CallFunc(name) => {
                        let mut arity: usize = 0;
                        let mut known = false;
                        match lib.get(name.as_str()) {
                            Some(sig) => {
                                arity = sig.parameters.len();
                                known = true;
                            },
                            None => {},
                        }
                        if known && d >= arity && pc + 1 < len && d - arity < usize::MAX {
                            ok = merge(&mut depths, pc + 1, d - arity + 1);
                        } else {
                            ok = false;
                        }
                    },
                    Instruction::Stop => {
                        ok = d == 0;
                    },
                    Instruction::RunNode => {
                        ok = d == 1;
                    },
                    Instruction::AddSaltyDeterministicShuffleToQueue => {
                        if pc + 1 < len {
                            ok = merge(&mut depths, pc + 1, d);
                        } else {
                            ok = false;
                        }
                    },
                }
            },
        }
        if !ok {
            return false;
        }
        proof {
            let after = depths_view(depths@);
            assert(step_consistent(*n, *lib, after, pc as int));
            assert forall|j: int| 0 <= j < pc implies step_consistent(*n, *lib, after, j) by {
                lemma_step_preserved(*n, *lib, before, after, j);
            }
        }
        pc += 1;
    }
    proof {
        let witness = depths_view(depths@);
        assert(depths_consistent(*n, *lib, witness));
    }
    true
}

/// Checks every node of a program.
pub fn program_stack_discipline_ok(nodes: &Vec<Node>, lib: &Library) -> (r: bool)
    ensures
        r ==> forall|i: int|
            0 <= i < nodes@.len() ==> node_disciplined(#[trigger] nodes@[i], *lib),
        nodes@.len() == 0 ==> r,
{
    let mut i: usize = 0;
    while i < nodes.len()
        invariant
            i <= nodes@.len(),
            forall|j: int| 0 <= j < i ==> node_disciplined(#[trigger] nodes@[j], *lib),
        decreases nodes@.len() - i,
    {
        if !stack_discipline_ok(&nodes[i], lib) {
            return false;
        }
        i += 1;
    }
    true
}

} // verus!
