//! The concrete syntax tree the parser produces and the semantic passes
//! rewrite: nodes, statements, line fragments and expressions.

use vstd::prelude::*;
use crate::types::Type;

verus! {

/// A binary operator of the expression grammar.
#[derive(Clone, Copy, Debug, PartialEq, Eq, Structural)]
pub enum BinaryOperator {
    /// Numeric addition or text concatenation.
    Add,
    /// Numeric subtraction.
    Subtract,
    /// Numeric multiplication.
    Multiply,
    /// Numeric division.
    Divide,
    /// Numeric remainder.
    Modulo,
    /// Equality on a common type.
    EqualTo,
    /// Inequality on a common type.
    NotEqualTo,
    /// Numeric strict order.
    LessThan,
    /// Numeric order or equality.
    LessThanOrEqualTo,
    /// Numeric strict order, reversed.
    GreaterThan,
    /// Numeric order or equality, reversed.
    GreaterThanOrEqualTo,
    /// Boolean conjunction.
    And,
    /// Boolean disjunction.
    Or,
}

/// A unary operator of the expression grammar.
#[derive(Clone, Copy, Debug, PartialEq, Eq, Structural)]
pub enum UnaryOperator {
    /// Boolean negation.
    Not,
    /// Numeric negation.
    Minus,
}

/// An expression of the language.
#[derive(Debug)]
pub enum Expression {
    /// A numeric literal.
    NumberLiteral(i64),
    /// A text literal.
    StringLiteral(String),
    /// A truth literal.
    BoolLiteral(bool),
    /// The null literal.
    NullLiteral,
    /// A reference to a variable, name carrying its `$` prefix.
    VariableRef(String),
    /// A call of a named function with arguments.
    FunctionCall(String, Vec<Expression>),
    /// A unary operator applied to an operand.
    Unary(UnaryOperator, Box<Expression>),
    /// A binary operator applied to two operands.
    Binary(BinaryOperator, Box<Expression>, Box<Expression>),
}

/// One fragment of a line or command: literal text, or an interpolated
/// expression whose value is substituted at run time.
#[derive(Debug)]
pub enum Fragment {
    /// Literal text, kept as written.
    Text(String),
    /// An interpolated expression.
    Interp(Expression),
}

/// A player-facing line: its fragments, its hashtags and where it stands.
#[derive(Debug)]
pub struct LineStatement {
    /// Literal text interleaved with interpolated expressions.
    pub fragments: Vec<Fragment>,
    /// Hashtag metadata, without the line id tag.
    pub tags: Vec<String>,
    /// The explicit line id from a `line:` hashtag, or the generated id once
    /// the string table pass has assigned one.
    pub line_id: Option<String>,
    /// The one-based source line number.
    pub line_number: usize,
}

/// One selectable option of a shortcut group.
#[derive(Debug)]
pub struct OptionItem {
    /// The option's line.
    pub line: LineStatement,
    /// The enabling condition, where the option carries one.
    pub condition: Option<Expression>,
    /// The statements run when the option is selected.
    pub body: Vec<Statement>,
}

/// One branch of an `if` block: a condition and its statements.
#[derive(Debug)]
pub struct IfClause {
    /// The branch condition.
    pub condition: Expression,
    /// The statements run when the condition holds.
    pub body: Vec<Statement>,
}

/// An `if` block: one or more conditional branches and an optional final
/// branch without a condition.
#[derive(Debug)]
pub struct IfStatement {
    /// The conditional branches, in order.
    pub clauses: Vec<IfClause>,
    /// The `else` branch, where one was written.
    pub else_body: Option<Vec<Statement>>,
    /// The one-based source line number of the `if`.
    pub line_number: usize,
}

/// The target of a `jump`: a node named statically, or an expression
/// evaluated at run time.
#[derive(Debug)]
pub enum JumpTarget {
    /// A node named in the source.
    NodeName(String),
    /// A node named by an expression's value.
    Dynamic(Expression),
}

/// A statement of a node body.
#[derive(Debug)]
pub enum Statement {
    /// A player-facing line.
    Line(LineStatement),
    /// A group of consecutive options offered together.
    Options(Vec<OptionItem>),
    /// An `if` block.
    IfBlock(IfStatement),
    /// `set`: assigns an expression's value to a variable.
    SetStatement {
        /// The variable written, name carrying its `$` prefix.
        variable: String,
        /// The assigned expression.
        value: Expression,
        /// The one-based source line number.
        line_number: usize,
    },
    /// `declare`: introduces a variable with a default value.
    DeclareStatement {
        /// The variable declared, name carrying its `$` prefix.
        variable: String,
        /// The default value expression.
        value: Expression,
        /// The type written after `as`, where one was given.
        explicit_type: Option<Type>,
        /// The one-based source line number.
        line_number: usize,
    },
    /// `jump`: transfers execution to another node.
    JumpStatement {
        /// Where to jump.
        target: JumpTarget,
        /// The one-based source line number.
        line_number: usize,
    },
    /// A free-form command handed to the host.
    CommandStatement {
        /// Literal text interleaved with interpolated expressions.
        fragments: Vec<Fragment>,
        /// The one-based source line number.
        line_number: usize,
    },
    /// `call`: invokes a function for its effect.
    CallStatement {
        /// The function called.
        function: String,
        /// The argument expressions.
        arguments: Vec<Expression>,
        /// The one-based source line number.
        line_number: usize,
    },
}

/// A parsed node: its headers and its body.
#[derive(Debug)]
pub struct CstNode {
    /// The node's title, from its `title` header.
    pub title: String,
    /// All headers as key-value pairs, in order.
    pub headers: Vec<(String, String)>,
    /// The body statements.
    pub body: Vec<Statement>,
    /// The file the node came from.
    pub source_file: String,
    /// The one-based line number of the first header.
    pub first_line: usize,
}

} // verus!
