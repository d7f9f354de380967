//! Semantic analysis: seeding known declarations, collecting explicit and
//! implicit variable declarations, and checking types by bottom-up
//! unification over the expression tree.
//!
//! Operators have overload sets; unification narrows `Any` to a concrete
//! type. Where more than one overload survives, the one whose argument
//! types were already concrete wins; if none is concrete the expression is
//! ambiguous. Errors are accumulated, never thrown.

use vstd::prelude::*;
use crate::cst::{BinaryOperator, CstNode, Expression, Fragment, Statement, UnaryOperator};
use crate::diagnostics::{Diagnostic, DiagnosticKind, DiagnosticSeverity, lines_around};
use crate::library::Library;
use crate::types::{Declaration, Position, SourceRange, Type, find_declaration, unify};
use crate::value::Value;

verus! {

broadcast use vstd::std_specs::vec::group_vec_axioms;

/// The analysis state threaded through the passes.
pub(crate) struct Analyzer {
    /// Declarations known so far, seeded and then grown.
    pub declarations: Vec<Declaration>,
    /// Diagnostics gathered so far.
    pub diagnostics: Vec<Diagnostic>,
    /// The file under analysis, for diagnostics.
    pub file_name: String,
    /// Its source, for context lines.
    pub source: String,
    /// The node under analysis.
    pub node_name: String,
    /// Registered function signatures.
    pub library: Library,
}

impl Analyzer {
    fn add_diag(
        &mut self,
        kind: DiagnosticKind,
        severity: DiagnosticSeverity,
        message: String,
        line: usize,
    )
        ensures
            final(self).declarations == old(self).declarations,
    {
        let around = lines_around(self.source.as_str(), line, 2);
        let d = Diagnostic {
            kind,
            severity,
            message,
            file_name: self.file_name.clone(),
            line,
            column: 0,
            range: crate::diagnostics::point_range(line, 0),
            context: around.lines,
            first_line: around.first_line,
        };
        self.diagnostics.push(d);
    }

    fn add_error(&mut self, kind: DiagnosticKind, message: String, line: usize)
        ensures
            final(self).declarations == old(self).declarations,
    {
        self.add_diag(kind, DiagnosticSeverity::Error, message, line);
    }
}

/// The known declarations only grow: everything that stood before still
/// stands, unchanged and in place.
pub open spec fn declarations_extended(
    before: Seq<Declaration>,
    after: Seq<Declaration>,
) -> bool {
    after.len() >= before.len() && after.subrange(0, before.len() as int) == before
}

/// Law: growth of the declaration list composes.
pub broadcast proof fn lemma_extended_trans(
    a: Seq<Declaration>,
    b: Seq<Declaration>,
    c: Seq<Declaration>,
)
    requires
        #[trigger] declarations_extended(a, b),
        #[trigger] declarations_extended(b, c),
    ensures
        declarations_extended(a, c),
{
    assert(c.subrange(0, a.len() as int) =~= c.subrange(0, b.len() as int).subrange(
        0,
        a.len() as int,
    ));
}


/// Converts every function of a library into a function-symbol
/// declaration, keeping names and order.
pub(crate) fn declarations_from_library(library: &Library) -> (r: Vec<Declaration>)
    ensures
        r@.len() == library.functions@.len(),
        forall|i: int|
            0 <= i < r@.len() ==> ((#[trigger] r@[i]).name@ == library.functions@[i].name@
                && crate::types::is_function_declaration(r@[i])),
{
    let mut out: Vec<Declaration> = Vec::new();
    let mut i: usize = 0;
    while i < library.functions.len()
        invariant
            i <= library.functions@.len(),
            out@.len() == i,
            forall|j: int|
                0 <= j < i ==> ((#[trigger] out@[j]).name@ == library.functions@[j].name@
                    && crate::types::is_function_declaration(out@[j])),
        decreases library.functions@.len() - i,
    {
        let sig = &library.functions[i];
        out.push(
            Declaration {
                name: sig.name.clone(),
                declared_type: Type::Function,
                default_value: None,
                source_file_name: String::new(),
                source_node_name: String::new(),
                range: SourceRange {
                    start: Position { line: 0, character: 0 },
                    end: Position { line: 0, character: 0 },
                },
                description: String::new(),
                is_implicit: false,
            },
        );
        i += 1;
    }
    out
}

/// The value of a constant expression: literals and negated number
/// literals. Anything else is not constant.
pub open spec fn constant_value_spec(e: Expression) -> Option<Value> {
    match e {
        Expression::NumberLiteral(n) => Some(Value::Number(n)),
        Expression::StringLiteral(s) => Some(Value::Text(s)),
        Expression::BoolLiteral(b) => Some(Value::Boolean(b)),
        Expression::NullLiteral => Some(Value::Null),
        Expression::Unary(UnaryOperator::Minus, inner) => match *inner {
            Expression::NumberLiteral(n) => if n == i64::MIN {
                None
            } else {
                Some(Value::Number((-n) as i64))
            },
            _ => None,
        },
        _ => None,
    }
}

/// Evaluates a constant expression: literals and negated number literals.
pub fn constant_value(e: &Expression) -> (r: Option<Value>)
    ensures
        r == constant_value_spec(*e),
{
    match e {
        Expression::NumberLiteral(n) => Some(Value::Number(*n)),
        Expression::StringLiteral(s) => Some(Value::Text(s.clone())),
        Expression::BoolLiteral(b) => Some(Value::Boolean(*b)),
        Expression::NullLiteral => Some(Value::Null),
        Expression::Unary(op, inner) => {
            let negated = match op {
                UnaryOperator::Minus => true,
                UnaryOperator::Not => false,
            };
            if negated {
                match &**inner {
                    Expression::NumberLiteral(n) => {
                        if *n == i64::MIN {
                            None
                        } else {
                            Some(Value::Number(-*n))
                        }
                    },
                    _ => None,
                }
            } else {
                None
            }
        },
        _ => None,
    }
}

/// The default value a variable of a type starts with.
pub fn default_for_type(t: Type) -> (r: Value)
    ensures
        t == Type::Number ==> r == Value::Number(0i64),
        t == Type::Boolean ==> r == Value::Boolean(false),
        t == Type::Text ==> (r matches Value::Text(s) && s@ == Seq::<char>::empty()),
        t == Type::Any || t == Type::Function ==> r == Value::Null,
{
    match t {
        Type::Number => Value::Number(0),
        Type::Boolean => Value::Boolean(false),
        Type::Text => Value::Text(String::new()),
        Type::Any => Value::Null,
        Type::Function => Value::Null,
    }
}

/// Infers the type of an expression bottom-up, accumulating diagnostics
/// unless `quiet` is set. An unknown function or an unresolvable part
/// yields `Any`.
#[verifier::loop_isolation(false)]
pub(crate) fn infer_expr(
    e: &Expression,
    az: &mut Analyzer,
    line: usize,
    quiet: bool,
) -> (r: Type)
    ensures
        final(az).declarations == old(az).declarations,
    decreases *e,
{
    match e {
        Expression::NumberLiteral(_) => Type::Number,
        Expression::StringLiteral(_) => Type::Text,
        Expression::BoolLiteral(_) => Type::Boolean,
        Expression::NullLiteral => Type::Any,
        Expression::VariableRef(name) => {
            let mut found: Option<Type> = None;
            match find_declaration(&az.declarations, name.as_str()) {
                Some(d) => {
                    found = Some(d.declared_type);
                },
                None => {},
            }
            match found {
                Some(t) => t,
                None => {
                    if !quiet {
                        az.add_error(
                            DiagnosticKind::UndeclaredVariable,
                            String::from_str(
                                "this variable has no declaration and no inferable type",
                            ),
                            line,
                        );
                    }
                    Type::Any
                },
            }
        },
        Expression::FunctionCall(name, args) => {
            let ghost args0 = args@;
            let mut i: usize = 0;
            let mut arg_types: Vec<Type> = Vec::new();
            while i < args.len()
                invariant
                    i <= args0.len(),
                    args@ == args0,
                    arg_types@.len() == i,
                    az.declarations == old(az).declarations,
                decreases args0.len() - i,
            {
                proof {
                    assert(decreases_to!(args => args0));
                    assert(decreases_to!(args0 => args0[i as int]));
                }
                let t = infer_expr(&args[i], az, line, quiet);
                arg_types.push(t);
                i += 1;
            }
            let mut param_count: usize = 0;
            let mut ret: Type = Type::Any;
            let mut known = false;
            match az.library.get(name.as_str()) {
                Some(sig) => {
                    param_count = sig.parameters.len();
                    ret = sig.return_type;
                    known = true;
                },
                None => {},
            }
            if known {
                if param_count != arg_types.len() && !quiet {
                    az.add_error(
                        DiagnosticKind::TypeMismatch,
                        String::from_str(
                            "this call passes a different number of arguments than the function declares",
                        ),
                        line,
                    );
                }
                ret
            } else {
                // An unknown function is implicitly declared; its result is
                // unconstrained.
                Type::Any
            }
        },
        Expression::Unary(op, inner) => {
            let it = infer_expr(&**inner, az, line, quiet);
            let expected = match op {
                UnaryOperator::Not => Type::Boolean,
                UnaryOperator::Minus => Type::Number,
            };
            match unify(it, expected) {
                Some(_) => expected,
                None => {
                    if !quiet {
                        az.add_error(
                            DiagnosticKind::TypeMismatch,
                            String::from_str("this operand does not fit the operator"),
                            line,
                        );
                    }
                    expected
                },
            }
        },
        Expression::Binary(op, lhs, rhs) => {
            let lt = infer_expr(&**lhs, az, line, quiet);
            let rt = infer_expr(&**rhs, az, line, quiet);
            infer_binary(*op, lt, rt, az, line, quiet)
        },
    }
}

/// Resolves a binary operator against its operand types, reporting
/// mismatches and ambiguities.
pub(crate) fn infer_binary(
    op: BinaryOperator,
    lt: Type,
    rt: Type,
    az: &mut Analyzer,
    line: usize,
    quiet: bool,
) -> (r: Type)
    ensures
        final(az).declarations == old(az).declarations,
{
    match op {
        BinaryOperator::Add => {
            // (Number, Number) -> Number | (Text, Text) -> Text. The
            // overload whose side is already concrete wins; two
            // unconstrained sides are ambiguous.
            let joined = unify(lt, rt);
            match joined {
                None => {
                    if !quiet {
                        az.add_error(
                            DiagnosticKind::TypeMismatch,
                            String::from_str("`+` needs two numbers or two strings"),
                            line,
                        );
                    }
                    Type::Any
                },
                Some(Type::Number) => Type::Number,
                Some(Type::Text) => Type::Text,
                Some(Type::Any) => {
                    if !quiet {
                        az.add_error(
                            DiagnosticKind::AmbiguousType,
                            String::from_str(
                                "`+` cannot choose between numbers and strings here",
                            ),
                            line,
                        );
                    }
                    Type::Any
                },
                Some(_) => {
                    if !quiet {
                        az.add_error(
                            DiagnosticKind::TypeMismatch,
                            String::from_str("`+` needs two numbers or two strings"),
                            line,
                        );
                    }
                    Type::Any
                },
            }
        },
        BinaryOperator::Subtract
        | BinaryOperator::Multiply
        | BinaryOperator::Divide
        | BinaryOperator::Modulo => {
            let lok = unify(lt, Type::Number);
            let rok = unify(rt, Type::Number);
            if (lok.is_none() || rok.is_none()) && !quiet {
                az.add_error(
                    DiagnosticKind::TypeMismatch,
                    String::from_str("this arithmetic operator needs numbers"),
                    line,
                );
            }
            Type::Number
        },
        BinaryOperator::EqualTo | BinaryOperator::NotEqualTo => {
            let joined = unify(lt, rt);
            if joined.is_none() && !quiet {
                az.add_error(
                    DiagnosticKind::TypeMismatch,
                    String::from_str("equality needs two values of one type"),
                    line,
                );
            }
            Type::Boolean
        },
        BinaryOperator::LessThan
        | BinaryOperator::LessThanOrEqualTo
        | BinaryOperator::GreaterThan
        | BinaryOperator::GreaterThanOrEqualTo => {
            let lok = unify(lt, Type::Number);
            let rok = unify(rt, Type::Number);
            if (lok.is_none() || rok.is_none()) && !quiet {
                az.add_error(
                    DiagnosticKind::TypeMismatch,
                    String::from_str("this comparison needs numbers"),
                    line,
                );
            }
            Type::Boolean
        },
        BinaryOperator::And | BinaryOperator::Or => {
            let lok = unify(lt, Type::Boolean);
            let rok = unify(rt, Type::Boolean);
            if (lok.is_none() || rok.is_none()) && !quiet {
                az.add_error(
                    DiagnosticKind::TypeMismatch,
                    String::from_str("this logical operator needs booleans"),
                    line,
                );
            }
            Type::Boolean
        },
    }
}

/// The operand type a binary operator resolves to for code generation: the
/// unified operand type, biased to the concrete side.
pub(crate) fn operand_type(e: &Expression, az: &mut Analyzer, line: usize) -> (r: Type)
    ensures
        final(az).declarations == old(az).declarations,
{
    match e {
        Expression::Binary(_, lhs, rhs) => {
            let lt = infer_expr(&**lhs, az, line, true);
            let rt = infer_expr(&**rhs, az, line, true);
            match unify(lt, rt) {
                Some(t) => t,
                None => Type::Any,
            }
        },
        _ => Type::Any,
    }
}

/// Collects declarations from one statement: explicit ones from `declare`,
/// implicit ones from `set` to an undeclared variable with an inferable
/// type.
#[verifier::loop_isolation(false)]
pub(crate) fn collect_stmt(s: &Statement, az: &mut Analyzer)
    ensures
        declarations_extended(old(az).declarations@, final(az).declarations@),
    decreases *s,
{
    broadcast use lemma_extended_trans;

    proof {
        assert(az.declarations@.subrange(0, az.declarations@.len() as int)
            =~= az.declarations@);
    }
    match s {
        Statement::DeclareStatement { variable, value, explicit_type, line_number } => {
            let line = *line_number;
            let already = match find_declaration(&az.declarations, variable.as_str()) {
                Some(_) => true,
                None => false,
            };
            if already {
                az.add_error(
                    DiagnosticKind::ReservedName,
                    String::from_str("this name is already declared"),
                    line,
                );
                return ;
            }
            let constant = constant_value(value);
            let (default_value, value_ty) = match constant {
                Some(v) => {
                    let t = crate::types::value_type(&v);
                    (Some(v), t)
                },
                None => (None, Type::Any),
            };
            let declared_type = match explicit_type {
                Some(t) => {
                    if unify(*t, value_ty).is_none() {
                        az.add_error(
                            DiagnosticKind::TypeMismatch,
                            String::from_str(
                                "the default value does not fit the declared type",
                            ),
                            line,
                        );
                    }
                    *t
                },
                None => value_ty,
            };
            let node_name = az.node_name.clone();
            let file_name = az.file_name.clone();
            az.declarations.push(
                Declaration {
                    name: variable.clone(),
                    declared_type,
                    default_value,
                    source_file_name: file_name,
                    source_node_name: node_name,
                    range: SourceRange {
                        start: Position { line, character: 0 },
                        end: Position { line, character: 0 },
                    },
                    description: String::new(),
                    is_implicit: false,
                },
            );
            proof {
                assert(az.declarations@.subrange(0, old(az).declarations@.len() as int)
                    =~= old(az).declarations@);
            }
        },
        Statement::SetStatement { variable, value, line_number } => {
            let line = *line_number;
            let known = match find_declaration(&az.declarations, variable.as_str()) {
                Some(_) => true,
                None => false,
            };
            if !known {
                let t = infer_expr(value, az, line, true);
                if !(t == Type::Any) {
                    let default_value = default_for_type(t);
                    let node_name = az.node_name.clone();
                    let file_name = az.file_name.clone();
                    az.declarations.push(
                        Declaration {
                            name: variable.clone(),
                            declared_type: t,
                            default_value: Some(default_value),
                            source_file_name: file_name,
                            source_node_name: node_name,
                            range: SourceRange {
                                start: Position { line, character: 0 },
                                end: Position { line, character: 0 },
                            },
                            description: String::new(),
                            is_implicit: true,
                        },
                    );
                    proof {
                        assert(az.declarations@.subrange(
                            0,
                            old(az).declarations@.len() as int,
                        ) =~= old(az).declarations@);
                    }
                }
            }
        },
        Statement::Options(opts) => {
            let mut k: usize = 0;
            while k < opts.len()
                invariant
                    declarations_extended(old(az).declarations@, az.declarations@),
                    k <= opts@.len(),
                decreases opts@.len() - k,
            {
                proof {
                    assert(decreases_to!(opts => opts@));
                    assert(decreases_to!(opts@ => opts@[k as int]));
                    assert(decreases_to!(opts@[k as int] => opts@[k as int].body));
                    assert(decreases_to!(opts@[k as int].body => opts@[k as int].body@));
                }
                let body = &opts[k].body;
                let mut j: usize = 0;
                while j < body.len()
                    invariant
                    declarations_extended(old(az).declarations@, az.declarations@),
                        j <= body@.len(),
                        body == &opts@[k as int].body,
                        k < opts@.len(),
                    decreases body@.len() - j,
                {
                    proof {
                        assert(decreases_to!(opts@[k as int].body@ => opts@[k as int].body@[j as int]));
                    }
                    collect_stmt(&body[j], az);
                    j += 1;
                }
                k += 1;
            }
        },
        Statement::IfBlock(f) => {
            let mut k: usize = 0;
            while k < f.clauses.len()
                invariant
                    declarations_extended(old(az).declarations@, az.declarations@),
                    k <= f.clauses@.len(),
                decreases f.clauses@.len() - k,
            {
                proof {
                    assert(decreases_to!(f => f.clauses));
                    assert(decreases_to!(f.clauses => f.clauses@));
                    assert(decreases_to!(f.clauses@ => f.clauses@[k as int]));
                    assert(decreases_to!(f.clauses@[k as int] => f.clauses@[k as int].body));
                    assert(decreases_to!(f.clauses@[k as int].body => f.clauses@[k as int].body@));
                }
                let body = &f.clauses[k].body;
                let mut j: usize = 0;
                while j < body.len()
                    invariant
                    declarations_extended(old(az).declarations@, az.declarations@),
                        j <= body@.len(),
                        body == &f.clauses@[k as int].body,
                        k < f.clauses@.len(),
                    decreases body@.len() - j,
                {
                    proof {
                        assert(decreases_to!(
                            f.clauses@[k as int].body@ => f.clauses@[k as int].body@[j as int]
                        ));
                    }
                    collect_stmt(&body[j], az);
                    j += 1;
                }
                k += 1;
            }
            match &f.else_body {
                Some(eb) => {
                    let mut j: usize = 0;
                    while j < eb.len()
                        invariant
                    declarations_extended(old(az).declarations@, az.declarations@),
                            j <= eb@.len(),
                        decreases eb@.len() - j,
                    {
                        proof {
                            assert(decreases_to!(f => f.else_body));
                            assert(decreases_to!(f.else_body => eb));
                            assert(decreases_to!(eb => eb@));
                            assert(decreases_to!(eb@ => eb@[j as int]));
                        }
                        collect_stmt(&eb[j], az);
                        j += 1;
                    }
                },
                None => {},
            }
        },
        _ => {},
    }
}

/// Checks the types of every expression in one statement.
#[verifier::loop_isolation(false)]
pub(crate) fn check_stmt(s: &Statement, az: &mut Analyzer)
    ensures
        final(az).declarations == old(az).declarations,
    decreases *s,
{
    match s {
        Statement::Line(l) => {
            check_fragments(&l.fragments, az, l.line_number);
        },
        Statement::CommandStatement { fragments, line_number } => {
            check_fragments(fragments, az, *line_number);
        },
        Statement::SetStatement { variable, value, line_number } => {
            let line = *line_number;
            let vt = infer_expr(value, az, line, false);
            let mut declared: Option<Type> = None;
            match find_declaration(&az.declarations, variable.as_str()) {
                Some(d) => {
                    declared = Some(d.declared_type);
                },
                None => {},
            }
            match declared {
                Some(dt) => {
                    if unify(dt, vt).is_none() {
                        az.add_error(
                            DiagnosticKind::TypeMismatch,
                            String::from_str(
                                "this assignment does not fit the variable's type",
                            ),
                            line,
                        );
                    }
                },
                None => {
                    az.add_error(
                        DiagnosticKind::UndeclaredVariable,
                        String::from_str(
                            "this variable has no declaration and no inferable type",
                        ),
                        line,
                    );
                },
            }
        },
        Statement::DeclareStatement { .. } => {
            // Checked while collecting declarations.
        },
        Statement::JumpStatement { target, line_number } => {
            match target {
                crate::cst::JumpTarget::Dynamic(e) => {
                    let t = infer_expr(e, az, *line_number, false);
                    if unify(t, Type::Text).is_none() {
                        az.add_error(
                            DiagnosticKind::TypeMismatch,
                            String::from_str("a computed jump target must be a string"),
                            *line_number,
                        );
                    }
                },
                _ => {},
            }
        },
        Statement::CallStatement { function, arguments, line_number } => {
            let ghost args0 = arguments@;
            let mut i: usize = 0;
            while i < arguments.len()
                invariant
                    az.declarations == old(az).declarations,
                    i <= args0.len(),
                    arguments@ == args0,
                decreases args0.len() - i,
            {
                proof {
                    assert(decreases_to!(arguments => args0));
                    assert(decreases_to!(args0 => args0[i as int]));
                }
                let _t = infer_expr(&arguments[i], az, *line_number, false);
                i += 1;
            }
            let mut param_count: usize = 0;
            let mut known = false;
            match az.library.get(function.as_str()) {
                Some(sig) => {
                    param_count = sig.parameters.len();
                    known = true;
                },
                None => {},
            }
            if known && param_count != arguments.len() {
                az.add_error(
                    DiagnosticKind::TypeMismatch,
                    String::from_str(
                        "this call passes a different number of arguments than the function declares",
                    ),
                    *line_number,
                );
            }
        },
        Statement::Options(opts) => {
            let mut k: usize = 0;
            while k < opts.len()
                invariant
                    az.declarations == old(az).declarations,
                    k <= opts@.len(),
                decreases opts@.len() - k,
            {
                proof {
                    assert(decreases_to!(opts => opts@));
                    assert(decreases_to!(opts@ => opts@[k as int]));
                    assert(decreases_to!(opts@[k as int] => opts@[k as int].body));
                    assert(decreases_to!(opts@[k as int].body => opts@[k as int].body@));
                }
                let item = &opts[k];
                check_fragments(&item.line.fragments, az, item.line.line_number);
                match &item.condition {
                    Some(c) => {
                        let t = infer_expr(c, az, item.line.line_number, false);
                        if unify(t, Type::Boolean).is_none() {
                            az.add_error(
                                DiagnosticKind::TypeMismatch,
                                String::from_str("an option condition must be a boolean"),
                                item.line.line_number,
                            );
                        }
                    },
                    None => {},
                }
                let body = &item.body;
                let mut j: usize = 0;
                while j < body.len()
                    invariant
                    az.declarations == old(az).declarations,
                        j <= body@.len(),
                        body == &opts@[k as int].body,
                        k < opts@.len(),
                    decreases body@.len() - j,
                {
                    proof {
                        assert(decreases_to!(opts@[k as int].body@ => opts@[k as int].body@[j as int]));
                    }
                    check_stmt(&body[j], az);
                    j += 1;
                }
                k += 1;
            }
        },
        Statement::IfBlock(f) => {
            let mut k: usize = 0;
            while k < f.clauses.len()
                invariant
                    az.declarations == old(az).declarations,
                    k <= f.clauses@.len(),
                decreases f.clauses@.len() - k,
            {
                proof {
                    assert(decreases_to!(f => f.clauses));
                    assert(decreases_to!(f.clauses => f.clauses@));
                    assert(decreases_to!(f.clauses@ => f.clauses@[k as int]));
                    assert(decreases_to!(f.clauses@[k as int] => f.clauses@[k as int].body));
                    assert(decreases_to!(f.clauses@[k as int].body => f.clauses@[k as int].body@));
                }
                let clause = &f.clauses[k];
                let t = infer_expr(&clause.condition, az, f.line_number, false);
                if unify(t, Type::Boolean).is_none() {
                    az.add_error(
                        DiagnosticKind::TypeMismatch,
                        String::from_str("an `if` condition must be a boolean"),
                        f.line_number,
                    );
                }
                let body = &clause.body;
                let mut j: usize = 0;
                while j < body.len()
                    invariant
                    az.declarations == old(az).declarations,
                        j <= body@.len(),
                        body == &f.clauses@[k as int].body,
                        k < f.clauses@.len(),
                    decreases body@.len() - j,
                {
                    proof {
                        assert(decreases_to!(
                            f.clauses@[k as int].body@ => f.clauses@[k as int].body@[j as int]
                        ));
                    }
                    check_stmt(&body[j], az);
                    j += 1;
                }
                k += 1;
            }
            match &f.else_body {
                Some(eb) => {
                    let mut j: usize = 0;
                    while j < eb.len()
                        invariant
                    az.declarations == old(az).declarations,
                            j <= eb@.len(),
                        decreases eb@.len() - j,
                    {
                        proof {
                            assert(decreases_to!(f => f.else_body));
                            assert(decreases_to!(f.else_body => eb));
                            assert(decreases_to!(eb => eb@));
                            assert(decreases_to!(eb@ => eb@[j as int]));
                        }
                        check_stmt(&eb[j], az);
                        j += 1;
                    }
                },
                None => {},
            }
        },
    }
}

/// Checks the expressions interpolated into line or command fragments.
#[verifier::loop_isolation(false)]
pub(crate) fn check_fragments(fragments: &Vec<Fragment>, az: &mut Analyzer, line: usize)
    ensures
        final(az).declarations == old(az).declarations,
{
    let mut i: usize = 0;
    while i < fragments.len()
        invariant
            az.declarations == old(az).declarations,
            i <= fragments@.len(),
        decreases fragments@.len() - i,
    {
        match &fragments[i] {
            Fragment::Interp(e) => {
                let _t = infer_expr(e, az, line, false);
            },
            Fragment::Text(_) => {},
        }
        i += 1;
    }
}

/// Runs declaration collection over a node's body.
#[verifier::loop_isolation(false)]
pub(crate) fn collect_node(node: &CstNode, az: &mut Analyzer)
    ensures
        declarations_extended(old(az).declarations@, final(az).declarations@),
{
    broadcast use lemma_extended_trans;

    az.node_name = node.title.clone();
    proof {
        assert(az.declarations@.subrange(0, az.declarations@.len() as int)
            =~= az.declarations@);
    }
    let mut i: usize = 0;
    while i < node.body.len()
        invariant
            declarations_extended(old(az).declarations@, az.declarations@),
            i <= node.body@.len(),
        decreases node.body@.len() - i,
    {
        collect_stmt(&node.body[i], az);
        i += 1;
    }
}

/// Runs the type check over a node's body.
#[verifier::loop_isolation(false)]
pub(crate) fn check_node(node: &CstNode, az: &mut Analyzer)
    ensures
        final(az).declarations == old(az).declarations,
{
    az.node_name = node.title.clone();
    let mut i: usize = 0;
    while i < node.body.len()
        invariant
            az.declarations == old(az).declarations,
            i <= node.body@.len(),
        decreases node.body@.len() - i,
    {
        check_stmt(&node.body[i], az);
        i += 1;
    }
}

} // verus!
