//! The recursive-descent parser: turns the token stream into a concrete
//! syntax tree, recovering after errors so that every problem in a file is
//! reported in one run.
//!
//! Each parse function takes the token vector and a position and returns
//! what it parsed together with the position after it; diagnostics gather in
//! a shared context. The expression grammar is precedence-climbed:
//! `or` < `and` < equality < comparison < additive < multiplicative <
//! unary < primary.

use vstd::prelude::*;
use crate::cst::{
    BinaryOperator, CstNode, Expression, Fragment, IfClause, IfStatement, JumpTarget,
    LineStatement, OptionItem, Statement, UnaryOperator,
};
use crate::diagnostics::{Diagnostic, DiagnosticKind, DiagnosticSeverity, lines_around};
use crate::lexer::{Token, TokenKind};
use crate::text::str_eq;
use crate::types::Type;

verus! {

/// Shared parsing state outside the token cursor: the diagnostics sink and
/// what a diagnostic needs to describe its position.
pub(crate) struct ParseCtx {
    /// Diagnostics gathered so far.
    pub diagnostics: Vec<Diagnostic>,
    /// The file being parsed.
    pub file_name: String,
    /// The file's source text, for context lines.
    pub source: String,
}

impl ParseCtx {
    fn add_error(&mut self, kind: DiagnosticKind, message: String, line: usize, column: usize) {
        let around = lines_around(self.source.as_str(), line, 2);
        let d = Diagnostic {
            kind,
            severity: DiagnosticSeverity::Error,
            message,
            file_name: self.file_name.clone(),
            line,
            column,
            range: crate::diagnostics::point_range(line, column),
            context: around.lines,
            first_line: around.first_line,
        };
        self.diagnostics.push(d);
    }
}

/// The token kind at a position, or `None` past the end.
fn kind_at<'a>(t: &'a Vec<Token>, pos: usize) -> (r: Option<&'a TokenKind>)
    ensures
        pos < t@.len() ==> r is Some,
        pos >= t@.len() ==> r is None,
{
    if pos < t.len() {
        Some(&t[pos].kind)
    } else {
        None
    }
}

/// The source line of the token at a position, for diagnostics.
fn line_at(t: &Vec<Token>, pos: usize) -> (r: usize) {
    if pos < t.len() {
        t[pos].line
    } else if t.len() > 0 {
        t[t.len() - 1].line
    } else {
        0
    }
}

/// The column of the token at a position, for diagnostics.
fn column_at(t: &Vec<Token>, pos: usize) -> (r: usize) {
    if pos < t.len() {
        t[pos].column
    } else {
        0
    }
}

/// Whether the token at the position opens a branch keyword command
/// (`elseif`, `else` or `endif`).
fn at_branch_keyword(t: &Vec<Token>, pos: usize) -> (r: bool)
    requires
        pos <= t@.len(),
        t@.len() <= usize::MAX,
    ensures
        r ==> pos + 2 <= t@.len(),
{
    let n = t.len();
    if pos < n && pos + 1 < n {
        let first = match kind_at(t, pos) {
            Some(TokenKind::CommandStart) => true,
            _ => false,
        };
        if !first {
            return false;
        }
        match kind_at(t, pos + 1) {
            Some(TokenKind::KwElseIf) => true,
            Some(TokenKind::KwElse) => true,
            Some(TokenKind::KwEndIf) => true,
            _ => false,
        }
    } else {
        false
    }
}

/// Skips ahead to just past the next `>>`, or to the end of the line, so
/// that parsing can go on after an error inside a command.
fn skip_to_command_end(t: &Vec<Token>, pos: usize) -> (r: usize)
    requires
        pos <= t@.len(),
        t@.len() <= usize::MAX,
    ensures
        pos <= r <= t@.len(),
{
    let n = t.len();
    let mut p = pos;
    while p < n
        invariant
            pos <= p <= n == t@.len(),
        decreases n - p,
    {
        match kind_at(t, p) {
            Some(TokenKind::CommandEnd) => {
                return p + 1;
            },
            Some(TokenKind::LineBreak) => {
                return p;
            },
            Some(TokenKind::NodeEnd) => {
                return p;
            },
            Some(TokenKind::EndOfFile) => {
                return p;
            },
            _ => {
                p += 1;
            },
        }
    }
    p
}

/// Parses a primary expression: a literal, a variable, a function call or a
/// parenthesized expression. On malformed input it reports a syntax error,
/// consumes one token and yields the null literal.
fn parse_primary(t: &Vec<Token>, pos: usize, ctx: &mut ParseCtx) -> (r: (Expression, usize))
    requires
        pos <= t@.len(),
        t@.len() <= usize::MAX,
    ensures
        pos <= r.1 <= t@.len(),
    decreases t@.len() - pos, 2int,
{
    let n = t.len();
    if pos >= n {
        ctx.add_error(
            DiagnosticKind::SyntaxError,
            String::from_str("expected an expression"),
            line_at(t, pos),
            column_at(t, pos),
        );
        return (Expression::NullLiteral, pos);
    }
    let line = line_at(t, pos);
    let column = column_at(t, pos);
    // Literals and variables.
    let mut ident_name: Option<String> = None;
    match kind_at(t, pos) {
        Some(TokenKind::NumberTok(v)) => {
            return (Expression::NumberLiteral(*v), pos + 1);
        },
        Some(TokenKind::StringTok(s)) => {
            return (Expression::StringLiteral(s.clone()), pos + 1);
        },
        Some(TokenKind::TrueTok) => {
            return (Expression::BoolLiteral(true), pos + 1);
        },
        Some(TokenKind::FalseTok) => {
            return (Expression::BoolLiteral(false), pos + 1);
        },
        Some(TokenKind::NullTok) => {
            return (Expression::NullLiteral, pos + 1);
        },
        Some(TokenKind::VariableTok(name)) => {
            return (Expression::VariableRef(name.clone()), pos + 1);
        },
        Some(TokenKind::Ident(name)) => {
            ident_name = Some(name.clone());
        },
        _ => {},
    }
    if let Some(name) = ident_name {
        // A function call: `ident ( args? )`.
        let mut p = pos + 1;
        let open = match kind_at(t, p) {
            Some(TokenKind::LParen) => true,
            _ => false,
        };
        if !open {
            ctx.add_error(
                DiagnosticKind::SyntaxError,
                String::from_str("expected `(` after this name in an expression"),
                line,
                column,
            );
            return (Expression::NullLiteral, p);
        }
        p += 1;
        let mut arguments: Vec<Expression> = Vec::new();
        let closed_now = match kind_at(t, p) {
            Some(TokenKind::RParen) => true,
            _ => false,
        };
        if closed_now {
            return (Expression::FunctionCall(name, arguments), p + 1);
        }
        loop
            invariant
                pos < p <= t@.len(),
                n == t@.len(),
            decreases t@.len() - p,
        {
            let (arg, p2) = parse_expression(t, p, ctx);
            arguments.push(arg);
            let mut p3 = p2;
            let again = match kind_at(t, p3) {
                Some(TokenKind::Comma) => true,
                _ => false,
            };
            if again {
                p3 += 1;
                if p3 > p {
                    p = p3;
                    continue;
                }
            }
            let closing = match kind_at(t, p3) {
                Some(TokenKind::RParen) => true,
                _ => false,
            };
            if closing {
                return (Expression::FunctionCall(name, arguments), p3 + 1);
            }
            ctx.add_error(
                DiagnosticKind::SyntaxError,
                String::from_str("expected `,` or `)` in this argument list"),
                line_at(t, p3),
                column_at(t, p3),
            );
            return (Expression::FunctionCall(name, arguments), p3);
        }
    }
    // A parenthesized expression.
    let open_paren = match kind_at(t, pos) {
        Some(TokenKind::LParen) => true,
        _ => false,
    };
    if open_paren {
        let (inner, p2) = parse_expression(t, pos + 1, ctx);
        let closing = match kind_at(t, p2) {
            Some(TokenKind::RParen) => true,
            _ => false,
        };
        if closing {
            return (inner, p2 + 1);
        }
        ctx.add_error(
            DiagnosticKind::SyntaxError,
            String::from_str("expected `)` to close this parenthesized expression"),
            line,
            column,
        );
        return (inner, p2);
    }
    ctx.add_error(
        DiagnosticKind::SyntaxError,
        String::from_str("this token cannot start an expression"),
        line,
        column,
    );
    (Expression::NullLiteral, pos + 1)
}

/// Parses a unary expression: `!`/`not` or `-` applied to a unary
/// expression, or a primary expression.
fn parse_unary(t: &Vec<Token>, pos: usize, ctx: &mut ParseCtx) -> (r: (Expression, usize))
    requires
        pos <= t@.len(),
        t@.len() <= usize::MAX,
    ensures
        pos <= r.1 <= t@.len(),
    decreases t@.len() - pos, 3int,
{
    match kind_at(t, pos) {
        Some(TokenKind::OpNot) => {
            let (operand, p2) = parse_unary(t, pos + 1, ctx);
            (Expression::Unary(UnaryOperator::Not, Box::new(operand)), p2)
        },
        Some(TokenKind::OpMinus) => {
            let (operand, p2) = parse_unary(t, pos + 1, ctx);
            (Expression::Unary(UnaryOperator::Minus, Box::new(operand)), p2)
        },
        _ => parse_primary(t, pos, ctx),
    }
}

/// Parses a multiplicative expression: `* / %` over unary expressions.
fn parse_multiplicative(t: &Vec<Token>, pos: usize, ctx: &mut ParseCtx) -> (r: (
    Expression,
    usize,
))
    requires
        pos <= t@.len(),
        t@.len() <= usize::MAX,
    ensures
        pos <= r.1 <= t@.len(),
    decreases t@.len() - pos, 4int,
{
    let (first, p1) = parse_unary(t, pos, ctx);
    let mut lhs = first;
    let mut p = p1;
    loop
        invariant
            pos <= p <= t@.len(),
            t@.len() <= usize::MAX,
        decreases t@.len() - p,
    {
        let op = match kind_at(t, p) {
            Some(TokenKind::OpStar) => Some(BinaryOperator::Multiply),
            Some(TokenKind::OpSlash) => Some(BinaryOperator::Divide),
            Some(TokenKind::OpPercent) => Some(BinaryOperator::Modulo),
            _ => None,
        };
        match op {
            Some(o) => {
                let (rhs, p2) = parse_unary(t, p + 1, ctx);
                lhs = Expression::Binary(o, Box::new(lhs), Box::new(rhs));
                p = p2;
            },
            None => {
                return (lhs, p);
            },
        }
    }
}

/// Parses an additive expression: `+ -` over multiplicative expressions.
fn parse_additive(t: &Vec<Token>, pos: usize, ctx: &mut ParseCtx) -> (r: (Expression, usize))
    requires
        pos <= t@.len(),
        t@.len() <= usize::MAX,
    ensures
        pos <= r.1 <= t@.len(),
    decreases t@.len() - pos, 5int,
{
    let (first, p1) = parse_multiplicative(t, pos, ctx);
    let mut lhs = first;
    let mut p = p1;
    loop
        invariant
            pos <= p <= t@.len(),
            t@.len() <= usize::MAX,
        decreases t@.len() - p,
    {
        let op = match kind_at(t, p) {
            Some(TokenKind::OpPlus) => Some(BinaryOperator::Add),
            Some(TokenKind::OpMinus) => Some(BinaryOperator::Subtract),
            _ => None,
        };
        match op {
            Some(o) => {
                let (rhs, p2) = parse_multiplicative(t, p + 1, ctx);
                lhs = Expression::Binary(o, Box::new(lhs), Box::new(rhs));
                p = p2;
            },
            None => {
                return (lhs, p);
            },
        }
    }
}

/// Parses a comparison: `< <= > >=` over additive expressions.
fn parse_comparison(t: &Vec<Token>, pos: usize, ctx: &mut ParseCtx) -> (r: (Expression, usize))
    requires
        pos <= t@.len(),
        t@.len() <= usize::MAX,
    ensures
        pos <= r.1 <= t@.len(),
    decreases t@.len() - pos, 6int,
{
    let (first, p1) = parse_additive(t, pos, ctx);
    let mut lhs = first;
    let mut p = p1;
    loop
        invariant
            pos <= p <= t@.len(),
            t@.len() <= usize::MAX,
        decreases t@.len() - p,
    {
        let op = match kind_at(t, p) {
            Some(TokenKind::OpLt) => Some(BinaryOperator::LessThan),
            Some(TokenKind::OpLe) => Some(BinaryOperator::LessThanOrEqualTo),
            Some(TokenKind::OpGt) => Some(BinaryOperator::GreaterThan),
            Some(TokenKind::OpGe) => Some(BinaryOperator::GreaterThanOrEqualTo),
            _ => None,
        };
        match op {
            Some(o) => {
                let (rhs, p2) = parse_additive(t, p + 1, ctx);
                lhs = Expression::Binary(o, Box::new(lhs), Box::new(rhs));
                p = p2;
            },
            None => {
                return (lhs, p);
            },
        }
    }
}

/// Parses an equality: `== !=` over comparisons.
fn parse_equality(t: &Vec<Token>, pos: usize, ctx: &mut ParseCtx) -> (r: (Expression, usize))
    requires
        pos <= t@.len(),
        t@.len() <= usize::MAX,
    ensures
        pos <= r.1 <= t@.len(),
    decreases t@.len() - pos, 7int,
{
    let (first, p1) = parse_comparison(t, pos, ctx);
    let mut lhs = first;
    let mut p = p1;
    loop
        invariant
            pos <= p <= t@.len(),
            t@.len() <= usize::MAX,
        decreases t@.len() - p,
    {
        let op = match kind_at(t, p) {
            Some(TokenKind::OpEq) => Some(BinaryOperator::EqualTo),
            Some(TokenKind::OpNeq) => Some(BinaryOperator::NotEqualTo),
            _ => None,
        };
        match op {
            Some(o) => {
                let (rhs, p2) = parse_comparison(t, p + 1, ctx);
                lhs = Expression::Binary(o, Box::new(lhs), Box::new(rhs));
                p = p2;
            },
            None => {
                return (lhs, p);
            },
        }
    }
}

/// Parses a conjunction: `&&`/`and` over equalities.
fn parse_and(t: &Vec<Token>, pos: usize, ctx: &mut ParseCtx) -> (r: (Expression, usize))
    requires
        pos <= t@.len(),
        t@.len() <= usize::MAX,
    ensures
        pos <= r.1 <= t@.len(),
    decreases t@.len() - pos, 8int,
{
    let (first, p1) = parse_equality(t, pos, ctx);
    let mut lhs = first;
    let mut p = p1;
    loop
        invariant
            pos <= p <= t@.len(),
            t@.len() <= usize::MAX,
        decreases t@.len() - p,
    {
        let is_and = match kind_at(t, p) {
            Some(TokenKind::OpAnd) => true,
            _ => false,
        };
        if is_and {
            let (rhs, p2) = parse_equality(t, p + 1, ctx);
            lhs = Expression::Binary(BinaryOperator::And, Box::new(lhs), Box::new(rhs));
            p = p2;
        } else {
            return (lhs, p);
        }
    }
}

/// Parses an expression: a disjunction of conjunctions, `||`/`or` binding
/// loosest.
fn parse_expression(t: &Vec<Token>, pos: usize, ctx: &mut ParseCtx) -> (r: (Expression, usize))
    requires
        pos <= t@.len(),
        t@.len() <= usize::MAX,
    ensures
        pos <= r.1 <= t@.len(),
    decreases t@.len() - pos, 9int,
{
    let (first, p1) = parse_and(t, pos, ctx);
    let mut lhs = first;
    let mut p = p1;
    loop
        invariant
            pos <= p <= t@.len(),
            t@.len() <= usize::MAX,
        decreases t@.len() - p,
    {
        let is_or = match kind_at(t, p) {
            Some(TokenKind::OpOr) => true,
            _ => false,
        };
        if is_or {
            let (rhs, p2) = parse_and(t, p + 1, ctx);
            lhs = Expression::Binary(BinaryOperator::Or, Box::new(lhs), Box::new(rhs));
            p = p2;
        } else {
            return (lhs, p);
        }
    }
}

/// Parses the content of a line or an option line: text fragments,
/// interpolations, trailing hashtags and an optional `<<if …>>` condition.
/// Stops at the line break (consumed) or before a non-condition command.
fn parse_line_content(t: &Vec<Token>, pos: usize, ctx: &mut ParseCtx) -> (r: (
    LineStatement,
    Option<Expression>,
    usize,
))
    requires
        pos <= t@.len(),
        t@.len() <= usize::MAX,
    ensures
        pos <= r.2 <= t@.len(),
    decreases t@.len() - pos, 15int,
{
    let n = t.len();
    let line_number = line_at(t, pos);
    let mut fragments: Vec<Fragment> = Vec::new();
    let mut tags: Vec<String> = Vec::new();
    let mut line_id: Option<String> = None;
    let mut condition: Option<Expression> = None;
    let mut p = pos;
    loop
        invariant
            pos <= p <= t@.len(),
            n == t@.len(),
        decreases t@.len() - p,
    {
        if p >= n {
            break;
        }
        let mut text_val: Option<String> = None;
        let mut tag_val: Option<String> = None;
        let mut step: usize = 0;
        match kind_at(t, p) {
            Some(TokenKind::TextRun(s)) => {
                text_val = Some(s.clone());
                step = 1;
            },
            Some(TokenKind::HashtagTok(s)) => {
                tag_val = Some(s.clone());
                step = 1;
            },
            Some(TokenKind::LineBreak) => {
                p += 1;
                break;
            },
            Some(TokenKind::ExprStart) => {
                step = 2;
            },
            Some(TokenKind::CommandStart) => {
                step = 3;
            },
            Some(TokenKind::EndOfFile) => {
                break;
            },
            Some(TokenKind::NodeEnd) => {
                break;
            },
            Some(TokenKind::Dedent) => {
                break;
            },
            _ => {
                ctx.add_error(
                    DiagnosticKind::SyntaxError,
                    String::from_str("unexpected token in a line"),
                    line_at(t, p),
                    column_at(t, p),
                );
                p += 1;
                continue;
            },
        }
        if step == 1 {
            if let Some(s) = text_val {
                fragments.push(Fragment::Text(s));
            } else if let Some(s) = tag_val {
                if starts_with_line_prefix(&s) {
                    line_id = Some(s);
                } else {
                    tags.push(s);
                }
            }
            p += 1;
        } else if step == 2 {
            // `{ expression }`
            let (expr, p2) = parse_expression(t, p + 1, ctx);
            fragments.push(Fragment::Interp(expr));
            let closed = match kind_at(t, p2) {
                Some(TokenKind::ExprEnd) => true,
                _ => false,
            };
            if closed {
                p = p2 + 1;
            } else {
                ctx.add_error(
                    DiagnosticKind::SyntaxError,
                    String::from_str("expected `}` after this interpolated expression"),
                    line_at(t, p2),
                    column_at(t, p2),
                );
                if p2 > p {
                    p = p2;
                } else {
                    p = p + 1;
                }
            }
        } else {
            // A command inside the line: an `<<if …>>` is the option's
            // condition; anything else ends the line content.
            let is_condition = p + 1 < n && {
                match kind_at(t, p + 1) {
                    Some(TokenKind::KwIf) => true,
                    _ => false,
                }
            };
            if is_condition {
                let (expr, p2) = parse_expression(t, p + 2, ctx);
                condition = Some(expr);
                let closed = match kind_at(t, p2) {
                    Some(TokenKind::CommandEnd) => true,
                    _ => false,
                };
                if closed {
                    p = p2 + 1;
                } else {
                    ctx.add_error(
                        DiagnosticKind::SyntaxError,
                        String::from_str("expected `>>` after this condition"),
                        line_at(t, p2),
                        column_at(t, p2),
                    );
                    p = skip_to_command_end(t, p2);
                    if p <= p2 {
                        break;
                    }
                }
            } else {
                break;
            }
        }
    }
    let stmt = LineStatement { fragments: trim_fragments(fragments), tags, line_id, line_number };
    (stmt, condition, p)
}

/// Whether a hashtag is a line id tag (`line:…`).
fn starts_with_line_prefix(s: &String) -> (r: bool) {
    let chars = crate::text::str_to_chars(s.as_str());
    if chars.len() < 5 {
        return false;
    }
    chars[0] == 'l' && chars[1] == 'i' && chars[2] == 'n' && chars[3] == 'e' && chars[4] == ':'
}

/// Trims the leading whitespace of the first text fragment and the trailing
/// whitespace of the last one, so hashtags and indentation leave no spaces
/// in the line's text.
fn trim_fragments(fragments: Vec<Fragment>) -> (r: Vec<Fragment>)
    ensures
        r@.len() == fragments@.len(),
{
    let mut result = fragments;
    let total = result.len();
    if total > 0 {
        let first = result.remove(0);
        match first {
            Fragment::Text(s) => {
                let chars = crate::text::str_to_chars(s.as_str());
                let mut a: usize = 0;
                while a < chars.len() && (chars[a] == ' ' || chars[a] == '\t')
                    invariant
                        a <= chars@.len(),
                    decreases chars@.len() - a,
                {
                    a += 1;
                }
                let trimmed = crate::text::chars_to_string(&chars, a, chars.len());
                result.insert(0, Fragment::Text(trimmed));
            },
            other => {
                result.insert(0, other);
            },
        }
    }
    let total2 = result.len();
    if total2 > 0 {
        let last = result.remove(total2 - 1);
        match last {
            Fragment::Text(s) => {
                let chars = crate::text::str_to_chars(s.as_str());
                let mut b: usize = chars.len();
                while b > 0 && (chars[b - 1] == ' ' || chars[b - 1] == '\t' || chars[b - 1]
                    == '\r')
                    invariant
                        b <= chars@.len(),
                    decreases b,
                {
                    b -= 1;
                }
                let trimmed = crate::text::chars_to_string(&chars, 0, b);
                result.push(Fragment::Text(trimmed));
            },
            other => {
                result.push(other);
            },
        }
    }
    result
}

/// Parses one option: `->`, its line, an optional condition, and an
/// indented body.
fn parse_option(t: &Vec<Token>, pos: usize, ctx: &mut ParseCtx) -> (r: (OptionItem, usize))
    requires
        pos < t@.len(),
        t@.len() <= usize::MAX,
    ensures
        pos < r.1 <= t@.len(),
    decreases t@.len() - pos, 18int,
{
    // The caller saw the arrow; consume it.
    let (line, condition, p1) = parse_line_content(t, pos + 1, ctx);
    let mut body: Vec<Statement> = Vec::new();
    let mut p = p1;
    let indented = match kind_at(t, p) {
        Some(TokenKind::Indent) => true,
        _ => false,
    };
    if indented {
        let (stmts, p2) = parse_block(t, p + 1, ctx);
        body = stmts;
        p = p2;
        let closed = match kind_at(t, p) {
            Some(TokenKind::Dedent) => true,
            _ => false,
        };
        if closed {
            p += 1;
        }
    }
    (OptionItem { line, condition, body }, p)
}

/// Parses a structured or free-form command statement, starting at its
/// `<<` token.
fn parse_command_statement(t: &Vec<Token>, pos: usize, ctx: &mut ParseCtx) -> (r: (
    Option<Statement>,
    usize,
))
    requires
        pos < t@.len(),
        t@.len() <= usize::MAX,
    ensures
        pos < r.1 <= t@.len(),
    decreases t@.len() - pos, 16int,
{
    let n = t.len();
    let line_number = line_at(t, pos);
    let p0 = pos + 1;
    if p0 >= n {
        return (None, p0);
    }
    let mut which: usize = 0;
    match kind_at(t, p0) {
        Some(TokenKind::KwSet) => {
            which = 1;
        },
        Some(TokenKind::KwDeclare) => {
            which = 2;
        },
        Some(TokenKind::KwJump) => {
            which = 3;
        },
        Some(TokenKind::KwCall) => {
            which = 4;
        },
        _ => {
            which = 0;
        },
    }
    if which == 1 || which == 2 {
        // `<<set $v = expr>>` or `<<declare $v = expr (as type)?>>`
        let mut p = p0 + 1;
        let mut var_name: Option<String> = None;
        match kind_at(t, p) {
            Some(TokenKind::VariableTok(s)) => {
                var_name = Some(s.clone());
            },
            _ => {},
        }
        let name = match var_name {
            Some(s) => {
                p += 1;
                s
            },
            None => {
                ctx.add_error(
                    DiagnosticKind::SyntaxError,
                    String::from_str("expected a `$variable` in this command"),
                    line_at(t, p),
                    column_at(t, p),
                );
                let p9 = skip_to_command_end(t, p);
                if p9 > pos {
                    return (None, p9);
                }
                return (None, pos + 1);
            },
        };
        let assigns = match kind_at(t, p) {
            Some(TokenKind::Assign) => true,
            Some(TokenKind::KwTo) => true,
            _ => false,
        };
        if assigns {
            p += 1;
        } else {
            ctx.add_error(
                DiagnosticKind::SyntaxError,
                String::from_str("expected `=` or `to` after the variable"),
                line_at(t, p),
                column_at(t, p),
            );
        }
        let (value, p2) = parse_expression(t, p, ctx);
        let mut p3 = p2;
        let mut explicit_type: Option<Type> = None;
        if which == 2 {
            let has_as = match kind_at(t, p3) {
                Some(TokenKind::KwAs) => true,
                _ => false,
            };
            if has_as {
                let mut type_word: Option<String> = None;
                match kind_at(t, p3 + 1) {
                    Some(TokenKind::Ident(s)) => {
                        type_word = Some(s.clone());
                    },
                    _ => {},
                }
                match type_word {
                    Some(w) => {
                        p3 += 2;
                        let ws = w.as_str();
                        if str_eq(ws, "number") {
                            explicit_type = Some(Type::Number);
                        } else if str_eq(ws, "string") {
                            explicit_type = Some(Type::Text);
                        } else if str_eq(ws, "bool") || str_eq(ws, "boolean") {
                            explicit_type = Some(Type::Boolean);
                        } else {
                            ctx.add_error(
                                DiagnosticKind::SyntaxError,
                                String::from_str("unknown type name after `as`"),
                                line_at(t, p3),
                                column_at(t, p3),
                            );
                        }
                    },
                    None => {
                        p3 += 1;
                        ctx.add_error(
                            DiagnosticKind::SyntaxError,
                            String::from_str("expected a type name after `as`"),
                            line_at(t, p3),
                            column_at(t, p3),
                        );
                    },
                }
            }
        }
        let closed = match kind_at(t, p3) {
            Some(TokenKind::CommandEnd) => true,
            _ => false,
        };
        let p4 = if closed {
            p3 + 1
        } else {
            skip_to_command_end(t, p3)
        };
        let p5 = if p4 > pos {
            p4
        } else {
            pos + 1
        };
        if which == 1 {
            return (Some(Statement::SetStatement { variable: name, value, line_number }), p5);
        }
        return (
            Some(
                Statement::DeclareStatement { variable: name, value, explicit_type, line_number },
            ),
            p5,
        );
    }
    if which == 3 {
        // `<<jump Node>>` or `<<jump {expr}>>`
        let p = p0 + 1;
        let mut node_name: Option<String> = None;
        let mut dynamic = false;
        match kind_at(t, p) {
            Some(TokenKind::Ident(s)) => {
                node_name = Some(s.clone());
            },
            Some(TokenKind::ExprStart) => {
                dynamic = true;
            },
            _ => {},
        }
        if let Some(name) = node_name {
            let p2 = p + 1;
            let closed = match kind_at(t, p2) {
                Some(TokenKind::CommandEnd) => true,
                _ => false,
            };
            let p3 = if closed {
                p2 + 1
            } else {
                skip_to_command_end(t, p2)
            };
            let p4 = if p3 > pos {
                p3
            } else {
                pos + 1
            };
            return (
                Some(Statement::JumpStatement { target: JumpTarget::NodeName(name), line_number }),
                p4,
            );
        }
        if dynamic {
            let (expr, p2) = parse_expression(t, p + 1, ctx);
            let mut p3 = p2;
            let brace = match kind_at(t, p3) {
                Some(TokenKind::ExprEnd) => true,
                _ => false,
            };
            if brace {
                p3 += 1;
            }
            let closed = match kind_at(t, p3) {
                Some(TokenKind::CommandEnd) => true,
                _ => false,
            };
            let p4 = if closed {
                p3 + 1
            } else {
                skip_to_command_end(t, p3)
            };
            let p5 = if p4 > pos {
                p4
            } else {
                pos + 1
            };
            return (
                Some(Statement::JumpStatement { target: JumpTarget::Dynamic(expr), line_number }),
                p5,
            );
        }
        ctx.add_error(
            DiagnosticKind::SyntaxError,
            String::from_str("expected a node name or `{expression}` after `jump`"),
            line_at(t, p),
            column_at(t, p),
        );
        let p9 = skip_to_command_end(t, p);
        if p9 > pos {
            return (None, p9);
        }
        return (None, pos + 1);
    }
    if which == 4 {
        // `<<call f(args)>>`
        let p = p0 + 1;
        let (expr, p2) = parse_expression(t, p, ctx);
        let closed = match kind_at(t, p2) {
            Some(TokenKind::CommandEnd) => true,
            _ => false,
        };
        let p3 = if closed {
            p2 + 1
        } else {
            skip_to_command_end(t, p2)
        };
        let p4 = if p3 > pos {
            p3
        } else {
            pos + 1
        };
        match expr {
            Expression::FunctionCall(function, arguments) => {
                return (
                    Some(Statement::CallStatement { function, arguments, line_number }),
                    p4,
                );
            },
            _ => {
                ctx.add_error(
                    DiagnosticKind::SyntaxError,
                    String::from_str("expected a function call after `call`"),
                    line_number,
                    column_at(t, p),
                );
                return (None, p4);
            },
        }
    }
    // A free-form command: text fragments and interpolations up to `>>`.
    let mut fragments: Vec<Fragment> = Vec::new();
    let mut p = p0;
    loop
        invariant
            pos < p <= t@.len(),
            n == t@.len(),
        decreases t@.len() - p,
    {
        if p >= n {
            break;
        }
        let mut text_val: Option<String> = None;
        let mut step: usize = 0;
        match kind_at(t, p) {
            Some(TokenKind::TextRun(s)) => {
                text_val = Some(s.clone());
                step = 1;
            },
            Some(TokenKind::ExprStart) => {
                step = 2;
            },
            Some(TokenKind::CommandEnd) => {
                p += 1;
                break;
            },
            Some(TokenKind::LineBreak) => {
                break;
            },
            Some(TokenKind::EndOfFile) => {
                break;
            },
            _ => {
                p += 1;
                continue;
            },
        }
        if step == 1 {
            if let Some(s) = text_val {
                fragments.push(Fragment::Text(s));
            }
            p += 1;
        } else {
            let (expr, p2) = parse_expression(t, p + 1, ctx);
            fragments.push(Fragment::Interp(expr));
            let closed = match kind_at(t, p2) {
                Some(TokenKind::ExprEnd) => true,
                _ => false,
            };
            if closed {
                p = p2 + 1;
            } else if p2 > p {
                p = p2;
            } else {
                p = p + 1;
            }
        }
    }
    (
        Some(
            Statement::CommandStatement { fragments: trim_fragments(fragments), line_number },
        ),
        p,
    )
}

/// Parses an `if` block: the branches and their bodies, through `endif`.
fn parse_if_block(t: &Vec<Token>, pos: usize, ctx: &mut ParseCtx) -> (r: (IfStatement, usize))
    requires
        pos + 2 <= t@.len(),
        t@.len() <= usize::MAX,
    ensures
        pos < r.1 <= t@.len(),
    decreases t@.len() - pos, 19int,
{
    let n = t.len();
    let line_number = line_at(t, pos);
    // Consume `<< if`.
    let (first_condition, p1) = parse_expression(t, pos + 2, ctx);
    let mut p = p1;
    let closed = match kind_at(t, p) {
        Some(TokenKind::CommandEnd) => true,
        _ => false,
    };
    if closed {
        p += 1;
    } else {
        ctx.add_error(
            DiagnosticKind::SyntaxError,
            String::from_str("expected `>>` after this `if` condition"),
            line_at(t, p),
            column_at(t, p),
        );
        let p9 = skip_to_command_end(t, p);
        if p9 > p {
            p = p9;
        }
    }
    let (first_body, p2) = parse_block(t, p, ctx);
    let mut clauses: Vec<IfClause> = Vec::new();
    clauses.push(IfClause { condition: first_condition, body: first_body });
    let mut else_body: Option<Vec<Statement>> = None;
    p = p2;
    loop
        invariant
            pos < p <= t@.len(),
            n == t@.len(),
        decreases t@.len() - p,
    {
        if !at_branch_keyword(t, p) {
            ctx.add_error(
                DiagnosticKind::SyntaxError,
                String::from_str("this `if` block has no matching `endif`"),
                line_number,
                0,
            );
            break;
        }
        // `at_branch_keyword` saw `<<` and the keyword at `p + 1`.
        let mut which: usize = 0;
        match kind_at(t, p + 1) {
            Some(TokenKind::KwElseIf) => {
                which = 1;
            },
            Some(TokenKind::KwElse) => {
                which = 2;
            },
            _ => {
                which = 3;
            },
        }
        if which == 1 {
            let (cond, q1) = parse_expression(t, p + 2, ctx);
            let mut q = q1;
            let ok = match kind_at(t, q) {
                Some(TokenKind::CommandEnd) => true,
                _ => false,
            };
            if ok {
                q += 1;
            } else {
                let q9 = skip_to_command_end(t, q);
                if q9 > q {
                    q = q9;
                }
            }
            let (body, q2) = parse_block(t, q, ctx);
            clauses.push(IfClause { condition: cond, body });
            if q2 > p {
                p = q2;
            } else {
                p = p + 1;
            }
        } else if which == 2 {
            let mut q = p + 2;
            let ok = match kind_at(t, q) {
                Some(TokenKind::CommandEnd) => true,
                _ => false,
            };
            if ok {
                q += 1;
            } else {
                let q9 = skip_to_command_end(t, q);
                if q9 > q {
                    q = q9;
                }
            }
            let (body, q2) = parse_block(t, q, ctx);
            else_body = Some(body);
            if q2 > p {
                p = q2;
            } else {
                p = p + 1;
            }
        } else {
            let mut q = p + 2;
            let ok = match kind_at(t, q) {
                Some(TokenKind::CommandEnd) => true,
                _ => false,
            };
            if ok {
                q += 1;
            } else {
                let q9 = skip_to_command_end(t, q);
                if q9 > q {
                    q = q9;
                }
            }
            p = q;
            break;
        }
    }
    (IfStatement { clauses, else_body, line_number }, p)
}

/// Parses the statements of a block, grouping consecutive options into one
/// option set. Stops before `Dedent`, `===`, a branch keyword command, or
/// the end of the input.
fn parse_block(t: &Vec<Token>, pos: usize, ctx: &mut ParseCtx) -> (r: (Vec<Statement>, usize))
    requires
        pos <= t@.len(),
        t@.len() <= usize::MAX,
    ensures
        pos <= r.1 <= t@.len(),
    decreases t@.len() - pos, 20int,
{
    let n = t.len();
    let mut stmts: Vec<Statement> = Vec::new();
    let mut p = pos;
    loop
        invariant
            pos <= p <= t@.len(),
            n == t@.len(),
        decreases t@.len() - p,
    {
        let ghost p_entry = p;
        if p >= n {
            break;
        }
        if at_branch_keyword(t, p) {
            break;
        }
        let mut step: usize = 0;
        match kind_at(t, p) {
            Some(TokenKind::EndOfFile) => {
                break;
            },
            Some(TokenKind::NodeEnd) => {
                break;
            },
            Some(TokenKind::Dedent) => {
                break;
            },
            Some(TokenKind::LineBreak) => {
                p += 1;
                continue;
            },
            Some(TokenKind::Indent) => {
                p += 1;
                continue;
            },
            Some(TokenKind::Arrow) => {
                step = 1;
            },
            Some(TokenKind::CommandStart) => {
                step = 2;
            },
            _ => {
                step = 3;
            },
        }
        if step == 1 {
            // Group consecutive options into one option set.
            let mut group: Vec<OptionItem> = Vec::new();
            let (first_item, p1) = parse_option(t, p, ctx);
            group.push(first_item);
            p = p1;
            loop
                invariant
                    pos < p <= t@.len(),
                    p_entry < p,
                    n == t@.len(),
                decreases t@.len() - p,
            {
                let arrow = match kind_at(t, p) {
                    Some(TokenKind::Arrow) => true,
                    _ => false,
                };
                if arrow && p < n {
                    let (item, p2) = parse_option(t, p, ctx);
                    group.push(item);
                    p = p2;
                } else {
                    break;
                }
            }
            stmts.push(Statement::Options(group));
        } else if step == 2 {
            let is_if = p + 1 < n && {
                match kind_at(t, p + 1) {
                    Some(TokenKind::KwIf) => true,
                    _ => false,
                }
            };
            if is_if {
                let (ifs, p2) = parse_if_block(t, p, ctx);
                stmts.push(Statement::IfBlock(ifs));
                p = p2;
            } else {
                let (stmt, p2) = parse_command_statement(t, p, ctx);
                if let Some(s) = stmt {
                    stmts.push(s);
                }
                p = p2;
            }
        } else {
            let (line, _condition, p2) = parse_line_content(t, p, ctx);
            stmts.push(Statement::Line(line));
            if p2 > p {
                p = p2;
            } else {
                p = p + 1;
            }
        }
    }
    (stmts, p)
}

/// Parses a whole file: headers, `---`, body, `===`, for each node.
/// Problems are reported as diagnostics; parsing always reaches the end of
/// the token stream.
pub(crate) fn parse_file(
    tokens: &Vec<Token>,
    file_name: &str,
    source: &str,
) -> (r: (Vec<CstNode>, Vec<Diagnostic>))
{
    let mut ctx = ParseCtx {
        diagnostics: Vec::new(),
        file_name: String::from_str(file_name),
        source: String::from_str(source),
    };
    let n = tokens.len();
    let mut nodes: Vec<CstNode> = Vec::new();
    let mut p: usize = 0;
    let mut headers: Vec<(String, String)> = Vec::new();
    let mut title: Option<String> = None;
    let mut first_line: usize = 0;
    while p < n
        invariant
            p <= n == tokens@.len(),
        decreases n - p,
    {
        let mut step: usize = 0;
        let mut key_val: Option<(String, String)> = None;
        match kind_at(tokens, p) {
            Some(TokenKind::EndOfFile) => {
                break;
            },
            Some(TokenKind::HeaderEntry(k, v)) => {
                key_val = Some((k.clone(), v.clone()));
                step = 1;
            },
            Some(TokenKind::BodyStart) => {
                step = 2;
            },
            _ => {
                step = 3;
            },
        }
        if step == 1 {
            if let Some((k, v)) = key_val {
                if headers.len() == 0 {
                    first_line = line_at(tokens, p);
                }
                if str_eq(k.as_str(), "title") {
                    title = Some(v.clone());
                }
                headers.push((k, v));
            }
            p += 1;
        } else if step == 2 {
            let (body, p2) = parse_block(tokens, p + 1, &mut ctx);
            let mut p3 = p2;
            let closed = match kind_at(tokens, p3) {
                Some(TokenKind::NodeEnd) => true,
                _ => false,
            };
            if closed {
                p3 += 1;
            } else {
                ctx.add_error(
                    DiagnosticKind::SyntaxError,
                    String::from_str("expected `===` to end this node"),
                    line_at(tokens, p3),
                    column_at(tokens, p3),
                );
            }
            let node_title = match title {
                Some(s) => s,
                None => {
                    ctx.add_error(
                        DiagnosticKind::SyntaxError,
                        String::from_str("this node has no `title` header"),
                        first_line,
                        0,
                    );
                    String::new()
                },
            };
            nodes.push(
                CstNode {
                    title: node_title,
                    headers,
                    body,
                    source_file: String::from_str(file_name),
                    first_line,
                },
            );
            headers = Vec::new();
            title = None;
            first_line = 0;
            if p3 > p {
                p = p3;
            } else {
                p = p + 1;
            }
        } else {
            ctx.add_error(
                DiagnosticKind::SyntaxError,
                String::from_str("expected a node header here"),
                line_at(tokens, p),
                column_at(tokens, p),
            );
            p += 1;
        }
    }
    if headers.len() > 0 {
        ctx.add_error(
            DiagnosticKind::SyntaxError,
            String::from_str("these headers are not followed by a node body"),
            first_line,
            0,
        );
    }
    (nodes, ctx.diagnostics)
}

} // verus!
