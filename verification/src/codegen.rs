//! Code generation: a tree walk over the statements of a node, emitting
//! stack-machine bytecode. Jumps are emitted with symbolic labels in a
//! first pass and patched to resolved instruction indices in a second, so
//! every finished node has sound jump targets.
//!
//! There are no arithmetic opcodes: operators lower to `CallFunc` against
//! the built-in library names, chosen by the operands' inferred type.

use vstd::prelude::*;
use vstd::pervasive::VecAdditionalExecFns;
use crate::analysis::{Analyzer, operand_type};
use crate::cst::{BinaryOperator, Expression, Fragment, Statement, UnaryOperator};
use crate::diagnostics::{Diagnostic, DiagnosticKind, DiagnosticSeverity, lines_around};
use crate::program::{Instruction, Node, instruction_target, node_targets_sound};
use crate::strings::render_fragments;
use crate::text::{int_to_string, push_char, str_eq};
use crate::types::Type;

verus! {

broadcast use vstd::std_specs::vec::group_vec_axioms;

/// The built-in function name an operator lowers to, given the unified
/// operand type.
pub open spec fn op_symbol(op: BinaryOperator, t: Type) -> Seq<char> {
    match op {
        BinaryOperator::Add => if t == Type::Text {
            "String.Concat"@
        } else {
            "Number.Add"@
        },
        BinaryOperator::Subtract => "Number.Subtract"@,
        BinaryOperator::Multiply => "Number.Multiply"@,
        BinaryOperator::Divide => "Number.Divide"@,
        BinaryOperator::Modulo => "Number.Modulo"@,
        BinaryOperator::EqualTo => if t == Type::Text {
            "String.EqualTo"@
        } else if t == Type::Boolean {
            "Bool.EqualTo"@
        } else if t == Type::Number {
            "Number.EqualTo"@
        } else {
            "Value.EqualTo"@
        },
        BinaryOperator::NotEqualTo => if t == Type::Text {
            "String.NotEqualTo"@
        } else if t == Type::Boolean {
            "Bool.NotEqualTo"@
        } else if t == Type::Number {
            "Number.NotEqualTo"@
        } else {
            "Value.NotEqualTo"@
        },
        BinaryOperator::LessThan => "Number.LessThan"@,
        BinaryOperator::LessThanOrEqualTo => "Number.LessThanOrEqualTo"@,
        BinaryOperator::GreaterThan => "Number.GreaterThan"@,
        BinaryOperator::GreaterThanOrEqualTo => "Number.GreaterThanOrEqualTo"@,
        BinaryOperator::And => "Bool.And"@,
        BinaryOperator::Or => "Bool.Or"@,
    }
}

/// Builds the built-in function name an operator lowers to.
pub fn op_function_name(op: BinaryOperator, t: Type) -> (r: String)
    ensures
        r@ == op_symbol(op, t),
{
    match op {
        BinaryOperator::Add => {
            if t == Type::Text {
                String::from_str("String.Concat")
            } else {
                String::from_str("Number.Add")
            }
        },
        BinaryOperator::Subtract => String::from_str("Number.Subtract"),
        BinaryOperator::Multiply => String::from_str("Number.Multiply"),
        BinaryOperator::Divide => String::from_str("Number.Divide"),
        BinaryOperator::Modulo => String::from_str("Number.Modulo"),
        BinaryOperator::EqualTo => {
            if t == Type::Text {
                String::from_str("String.EqualTo")
            } else if t == Type::Boolean {
                String::from_str("Bool.EqualTo")
            } else if t == Type::Number {
                String::from_str("Number.EqualTo")
            } else {
                String::from_str("Value.EqualTo")
            }
        },
        BinaryOperator::NotEqualTo => {
            if t == Type::Text {
                String::from_str("String.NotEqualTo")
            } else if t == Type::Boolean {
                String::from_str("Bool.NotEqualTo")
            } else if t == Type::Number {
                String::from_str("Number.NotEqualTo")
            } else {
                String::from_str("Value.NotEqualTo")
            }
        },
        BinaryOperator::LessThan => String::from_str("Number.LessThan"),
        BinaryOperator::LessThanOrEqualTo => String::from_str("Number.LessThanOrEqualTo"),
        BinaryOperator::GreaterThan => String::from_str("Number.GreaterThan"),
        BinaryOperator::GreaterThanOrEqualTo => String::from_str("Number.GreaterThanOrEqualTo"),
        BinaryOperator::And => String::from_str("Bool.And"),
        BinaryOperator::Or => String::from_str("Bool.Or"),
    }
}

/// The emitter's state for one node: the instruction stream under
/// construction, the label table, and what diagnostics need.
pub(crate) struct CodeGen {
    /// Instructions emitted so far; jump operands still hold label ids.
    pub instructions: Vec<Instruction>,
    /// Label id to instruction index; meaningful once defined.
    pub label_positions: Vec<usize>,
    /// Whether each label has been placed.
    pub label_defined: Vec<bool>,
    /// Diagnostics gathered during emission.
    pub diagnostics: Vec<Diagnostic>,
    /// The node being generated.
    pub node_name: String,
    /// The file the node came from.
    pub file_name: String,
    /// Its source, for context lines.
    pub source: String,
    /// The titles of all nodes of the compilation, for static jump checks.
    pub node_names: Vec<String>,
    /// Calls of functions the library does not declare: name and argument
    /// count, for their implicit declarations.
    pub implicit_calls: Vec<(String, usize)>,
}

impl CodeGen {
    fn add_diag(
        &mut self,
        kind: DiagnosticKind,
        severity: DiagnosticSeverity,
        message: String,
        line: usize,
    ) {
        let around = lines_around(self.source.as_str(), line, 2);
        let d = Diagnostic {
            kind,
            severity,
            message,
            file_name: self.file_name.clone(),
            line,
            column: 0,
            range: crate::diagnostics::point_range(line, 0),
            context: around.lines,
            first_line: around.first_line,
        };
        self.diagnostics.push(d);
    }

    fn emit(&mut self, i: Instruction) {
        self.instructions.push(i);
    }

    /// Creates a fresh, not yet placed label and returns its id.
    fn new_label(&mut self) -> (r: usize)
        ensures
            final(self).label_positions@.len() == old(self).label_positions@.len() + 1,
    {
        let id = self.label_positions.len();
        self.label_positions.push(0);
        self.label_defined.push(false);
        id
    }

    /// Places a label at the current end of the instruction stream.
    fn mark_label(&mut self, l: usize) {
        let here = self.instructions.len();
        if l < self.label_positions.len() {
            self.label_positions.set(l, here);
        }
        if l < self.label_defined.len() {
            self.label_defined.set(l, true);
        }
    }

    /// Whether a node with the given title exists in this compilation.
    fn knows_node(&self, name: &str) -> (r: bool) {
        let mut i: usize = 0;
        while i < self.node_names.len()
            invariant
                i <= self.node_names@.len(),
            decreases self.node_names@.len() - i,
        {
            if str_eq(self.node_names[i].as_str(), name) {
                return true;
            }
            i += 1;
        }
        false
    }
}

/// Emits the code of one expression, leaving exactly one value on the
/// stack at run time.
#[verifier::loop_isolation(false)]
pub(crate) fn gen_expr(e: &Expression, g: &mut CodeGen, az: &mut Analyzer, line: usize)
    ensures
        final(az).declarations == old(az).declarations,
    decreases *e,
{
    match e {
        Expression::NumberLiteral(n) => {
            g.emit(Instruction::PushNumber(*n));
        },
        Expression::StringLiteral(s) => {
            g.emit(Instruction::PushString(s.clone()));
        },
        Expression::BoolLiteral(b) => {
            g.emit(Instruction::PushBool(*b));
        },
        Expression::NullLiteral => {
            g.emit(Instruction::PushNull);
        },
        Expression::VariableRef(name) => {
            g.emit(Instruction::PushVariable(name.clone()));
        },
        Expression::FunctionCall(name, args) => {
            let ghost args0 = args@;
            let mut i: usize = 0;
            while i < args.len()
                invariant
                    az.declarations == old(az).declarations,
                    i <= args0.len(),
                    args@ == args0,
                decreases args0.len() - i,
            {
                proof {
                    assert(decreases_to!(args => args0));
                    assert(decreases_to!(args0 => args0[i as int]));
                }
                gen_expr(&args[i], g, az, line);
                i += 1;
            }
            if az.library.get(name.as_str()).is_none() {
                g.implicit_calls.push((name.clone(), args.len()));
            }
            g.emit(Instruction::CallFunc(name.clone()));
        },
        Expression::Unary(op, inner) => {
            gen_expr(&**inner, g, az, line);
            match op {
                UnaryOperator::Not => {
                    g.emit(Instruction::CallFunc(String::from_str("Bool.Not")));
                },
                UnaryOperator::Minus => {
                    g.emit(Instruction::CallFunc(String::from_str("Number.UnaryMinus")));
                },
            }
        },
        Expression::Binary(op, lhs, rhs) => {
            gen_expr(&**lhs, g, az, line);
            gen_expr(&**rhs, g, az, line);
            let t = operand_type(e, az, line);
            g.emit(Instruction::CallFunc(op_function_name(*op, t)));
        },
    }
}

/// Emits the substitution expressions of a line or command, in order, and
/// returns their count.
#[verifier::loop_isolation(false)]
fn gen_substitutions(
    fragments: &Vec<Fragment>,
    g: &mut CodeGen,
    az: &mut Analyzer,
    line: usize,
) -> (r: usize)
    ensures
        final(az).declarations == old(az).declarations,
{
    let mut count: usize = 0;
    let mut i: usize = 0;
    while i < fragments.len()
        invariant
                    az.declarations == old(az).declarations,
            i <= fragments@.len(),
            count <= i,
        decreases fragments@.len() - i,
    {
        match &fragments[i] {
            Fragment::Interp(e) => {
                gen_expr(e, g, az, line);
                count += 1;
            },
            Fragment::Text(_) => {},
        }
        i += 1;
    }
    count
}

/// Emits the code of one statement.
#[verifier::loop_isolation(false)]
pub(crate) fn gen_stmt(s: &Statement, g: &mut CodeGen, az: &mut Analyzer)
    ensures
        final(az).declarations == old(az).declarations,
    decreases *s,
{
    match s {
        Statement::Line(l) => {
            let k = gen_substitutions(&l.fragments, g, az, l.line_number);
            let id = match &l.line_id {
                Some(id) => id.clone(),
                None => String::new(),
            };
            g.emit(Instruction::RunLine(id, k));
        },
        Statement::SetStatement { variable, value, line_number } => {
            gen_expr(value, g, az, *line_number);
            g.emit(Instruction::StoreVariable(variable.clone()));
            g.emit(Instruction::Pop);
        },
        Statement::DeclareStatement { .. } => {
            // Declarations produce no code: their defaults go to the
            // program's initial values.
        },
        Statement::JumpStatement { target, line_number } => {
            match target {
                crate::cst::JumpTarget::NodeName(name) => {
                    if !g.knows_node(name.as_str()) {
                        g.add_diag(
                            DiagnosticKind::UnknownNode,
                            DiagnosticSeverity::Warning,
                            String::from_str("this jump names a node that no file declares"),
                            *line_number,
                        );
                    }
                    g.emit(Instruction::PushString(name.clone()));
                },
                crate::cst::JumpTarget::Dynamic(e) => {
                    gen_expr(e, g, az, *line_number);
                },
            }
            g.emit(Instruction::RunNode);
        },
        Statement::CommandStatement { fragments, line_number } => {
            let k = gen_substitutions(fragments, g, az, *line_number);
            let (text, _n) = render_fragments(fragments);
            g.emit(Instruction::RunCommand(text, k));
        },
        Statement::CallStatement { function, arguments, line_number } => {
            let ghost args0 = arguments@;
            let mut i: usize = 0;
            while i < arguments.len()
                invariant
                    az.declarations == old(az).declarations,
                    i <= args0.len(),
                    arguments@ == args0,
                decreases args0.len() - i,
            {
                proof {
                    assert(decreases_to!(arguments => args0));
                    assert(decreases_to!(args0 => args0[i as int]));
                }
                gen_expr(&arguments[i], g, az, *line_number);
                i += 1;
            }
            if az.library.get(function.as_str()).is_none() {
                g.implicit_calls.push((function.clone(), arguments.len()));
            }
            g.emit(Instruction::CallFunc(function.clone()));
            g.emit(Instruction::Pop);
        },
        Statement::IfBlock(f) => {
            let end_label = g.new_label();
            let mut k: usize = 0;
            while k < f.clauses.len()
                invariant
                    az.declarations == old(az).declarations,
                    k <= f.clauses@.len(),
                decreases f.clauses@.len() - k,
            {
                proof {
                    assert(decreases_to!(f => f.clauses));
                    assert(decreases_to!(f.clauses => f.clauses@));
                    assert(decreases_to!(f.clauses@ => f.clauses@[k as int]));
                    assert(decreases_to!(f.clauses@[k as int] => f.clauses@[k as int].body));
                    assert(decreases_to!(f.clauses@[k as int].body => f.clauses@[k as int].body@));
                }
                let clause = &f.clauses[k];
                let next_label = g.new_label();
                gen_expr(&clause.condition, g, az, f.line_number);
                g.emit(Instruction::JumpIfFalse(next_label));
                let body = &clause.body;
                let mut j: usize = 0;
                while j < body.len()
                    invariant
                    az.declarations == old(az).declarations,
                        j <= body@.len(),
                        body == &f.clauses@[k as int].body,
                        k < f.clauses@.len(),
                    decreases body@.len() - j,
                {
                    proof {
                        assert(decreases_to!(
                            f.clauses@[k as int].body@ => f.clauses@[k as int].body@[j as int]
                        ));
                    }
                    gen_stmt(&body[j], g, az);
                    j += 1;
                }
                g.emit(Instruction::JumpTo(end_label));
                g.mark_label(next_label);
                k += 1;
            }
            match &f.else_body {
                Some(eb) => {
                    let mut j: usize = 0;
                    while j < eb.len()
                        invariant
                    az.declarations == old(az).declarations,
                            j <= eb@.len(),
                        decreases eb@.len() - j,
                    {
                        proof {
                            assert(decreases_to!(f => f.else_body));
                            assert(decreases_to!(f.else_body => eb));
                            assert(decreases_to!(eb => eb@));
                            assert(decreases_to!(eb@ => eb@[j as int]));
                        }
                        gen_stmt(&eb[j], g, az);
                        j += 1;
                    }
                },
                None => {},
            }
            g.mark_label(end_label);
        },
        Statement::Options(opts) => {
            let end_label = g.new_label();
            let mut body_labels: Vec<usize> = Vec::new();
            let mut k: usize = 0;
            // First the options themselves: substitutions, an optional
            // condition, and the buffered option entry.
            while k < opts.len()
                invariant
                    az.declarations == old(az).declarations,
                    k <= opts@.len(),
                    body_labels@.len() == k,
                decreases opts@.len() - k,
            {
                proof {
                    assert(decreases_to!(opts => opts@));
                    assert(decreases_to!(opts@ => opts@[k as int]));
                }
                let item = &opts[k];
                let ksubs = gen_substitutions(&item.line.fragments, g, az, item.line.line_number);
                let has_condition = match &item.condition {
                    Some(c) => {
                        gen_expr(c, g, az, item.line.line_number);
                        true
                    },
                    None => false,
                };
                let body_label = g.new_label();
                body_labels.push(body_label);
                let id = match &item.line.line_id {
                    Some(id) => id.clone(),
                    None => String::new(),
                };
                g.emit(Instruction::AddOption(id, body_label, ksubs, has_condition));
                k += 1;
            }
            g.emit(Instruction::ShowOptions);
            // Then the bodies, one per option, each ending with a jump
            // past the whole group.
            let mut k2: usize = 0;
            while k2 < opts.len()
                invariant
                    az.declarations == old(az).declarations,
                    k2 <= opts@.len(),
                    body_labels@.len() == opts@.len(),
                decreases opts@.len() - k2,
            {
                proof {
                    assert(decreases_to!(opts => opts@));
                    assert(decreases_to!(opts@ => opts@[k2 as int]));
                    assert(decreases_to!(opts@[k2 as int] => opts@[k2 as int].body));
                    assert(decreases_to!(opts@[k2 as int].body => opts@[k2 as int].body@));
                }
                g.mark_label(body_labels[k2]);
                let body = &opts[k2].body;
                let mut j: usize = 0;
                while j < body.len()
                    invariant
                    az.declarations == old(az).declarations,
                        j <= body@.len(),
                        body == &opts@[k2 as int].body,
                        k2 < opts@.len(),
                    decreases body@.len() - j,
                {
                    proof {
                        assert(decreases_to!(
                            opts@[k2 as int].body@ => opts@[k2 as int].body@[j as int]
                        ));
                    }
                    gen_stmt(&body[j], g, az);
                    j += 1;
                }
                g.emit(Instruction::JumpTo(end_label));
                k2 += 1;
            }
            g.mark_label(end_label);
        },
    }
}

/// The label name for a label id: `L<id>`.
fn label_name(id: usize) -> (r: String) {
    let mut s = String::new();
    push_char(&mut s, 'L');
    let num = int_to_string(if id <= i64::MAX as usize {
        id as i64
    } else {
        0
    });
    s.append(num.as_str());
    s
}

/// Closes emission for a node: appends the implicit `Stop`, patches every
/// jump operand from its label id to the label's resolved instruction
/// index, and builds the node. A label position past the end of the
/// stream — which emission never produces — is clamped to the final
/// `Stop`, so the finished node always has sound jump targets.
pub(crate) fn finish_node(
    g: CodeGen,
    tags: Vec<String>,
    headers: Vec<(String, String)>,
) -> (r: Node)
    ensures
        node_targets_sound(r),
{
    let mut instructions = g.instructions;
    instructions.push(Instruction::Stop);
    let n = instructions.len();
    let mut i: usize = 0;
    while i < n
        invariant
            n == instructions@.len(),
            n > 0,
            i <= n,
            forall|q: int|
                0 <= q < i ==> match instruction_target(#[trigger] instructions@[q]) {
                    Some(tgt) => 0 <= tgt < n,
                    None => true,
                },
        decreases n - i,
    {
        let mut replacement: Option<Instruction> = None;
        match &instructions[i] {
            Instruction::JumpTo(l) => {
                replacement = Some(Instruction::JumpTo(resolve(&g.label_positions, *l, n)));
            },
            Instruction::JumpIfFalse(l) => {
                replacement = Some(Instruction::JumpIfFalse(resolve(&g.label_positions, *l, n)));
            },
            Instruction::AddOption(_, _, _, _) => {},
            _ => {},
        }
        // `AddOption` carries a string, so its payload is cloned apart.
        let mut add_option: Option<Instruction> = None;
        match &instructions[i] {
            Instruction::AddOption(id, l, k, c) => {
                add_option = Some(
                    Instruction::AddOption(id.clone(), resolve(&g.label_positions, *l, n), *k, *c),
                );
            },
            _ => {},
        }
        if let Some(inst) = replacement {
            instructions.set(i, inst);
        } else if let Some(inst) = add_option {
            instructions.set(i, inst);
        }
        proof {
            assert(forall|q: int|
                0 <= q < i + 1 ==> match instruction_target(#[trigger] instructions@[q]) {
                    Some(tgt) => 0 <= tgt < n,
                    None => true,
                });
        }
        i += 1;
    }
    let mut labels: Vec<(String, usize)> = Vec::new();
    let mut l: usize = 0;
    while l < g.label_positions.len()
        invariant
            n == instructions@.len(),
            n > 0,
            l <= g.label_positions@.len(),
            forall|q: int| 0 <= q < labels@.len() ==> (#[trigger] labels@[q]).1 < n,
            forall|q: int|
                0 <= q < instructions@.len() ==> match instruction_target(
                    #[trigger] instructions@[q],
                ) {
                    Some(tgt) => 0 <= tgt < n,
                    None => true,
                },
        decreases g.label_positions@.len() - l,
    {
        let pc = resolve(&g.label_positions, l, n);
        labels.push((label_name(l), pc));
        l += 1;
    }
    Node {
        name: g.node_name,
        instructions,
        labels,
        tags,
        headers,
        source_file: g.file_name,
    }
}

/// The resolved instruction index of a label, clamped into the stream.
fn resolve(positions: &Vec<usize>, l: usize, n: usize) -> (r: usize)
    requires
        n > 0,
    ensures
        r < n,
{
    if l < positions.len() {
        let p = positions[l];
        if p < n {
            p
        } else {
            n - 1
        }
    } else {
        n - 1
    }
}

} // verus!
