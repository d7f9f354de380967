//! The lexer: turns source text into a token stream.
//!
//! The surface syntax mixes prose lines with bracketed expressions, commands
//! and trailing hashtags, so the lexer is mode-driven: header lines before
//! `---`, body lines after it, command mode between `<<` and `>>`,
//! expression mode between `{` and `}`, hashtag mode after `#`. Indentation
//! is tracked with a stack and framed by `Indent`/`Dedent` tokens; tabs
//! widen to the next tab stop.

use vstd::prelude::*;
use crate::diagnostics::{Diagnostic, DiagnosticKind, DiagnosticSeverity, lines_around};
use crate::text::{chars_to_string, parse_integer_exec, str_eq, str_to_chars};

verus! {

/// One token of the stream.
#[derive(Clone, Debug)]
pub enum TokenKind {
    /// A header line: key and value.
    HeaderEntry(String, String),
    /// The `---` separator between headers and body.
    BodyStart,
    /// The `===` end of a node.
    NodeEnd,
    /// The indentation level rose.
    Indent,
    /// The indentation level fell.
    Dedent,
    /// The end of a body line.
    LineBreak,
    /// `->`, introducing an option.
    Arrow,
    /// A run of literal line text.
    TextRun(String),
    /// `{`, opening an interpolated expression.
    ExprStart,
    /// `}`, closing an interpolated expression.
    ExprEnd,
    /// `<<`, opening a command.
    CommandStart,
    /// `>>`, closing a command.
    CommandEnd,
    /// A `#tag` at the end of a line, without the `#`.
    HashtagTok(String),
    /// An identifier.
    Ident(String),
    /// A `$variable`, name carrying its `$` prefix.
    VariableTok(String),
    /// A numeric literal.
    NumberTok(i64),
    /// A string literal, with escapes resolved.
    StringTok(String),
    /// The literal `true`.
    TrueTok,
    /// The literal `false`.
    FalseTok,
    /// The literal `null`.
    NullTok,
    /// The keyword `if`.
    KwIf,
    /// The keyword `elseif`.
    KwElseIf,
    /// The keyword `else`.
    KwElse,
    /// The keyword `endif`.
    KwEndIf,
    /// The keyword `set`.
    KwSet,
    /// The keyword `declare`.
    KwDeclare,
    /// The keyword `jump`.
    KwJump,
    /// The keyword `call`.
    KwCall,
    /// The keyword `as`.
    KwAs,
    /// The keyword `to` (assignment in `set`).
    KwTo,
    /// `+`
    OpPlus,
    /// `-`
    OpMinus,
    /// `*`
    OpStar,
    /// `/`
    OpSlash,
    /// `%`
    OpPercent,
    /// `==` or `is`
    OpEq,
    /// `!=`
    OpNeq,
    /// `<`
    OpLt,
    /// `<=`
    OpLe,
    /// `>`
    OpGt,
    /// `>=`
    OpGe,
    /// `&&` or `and`
    OpAnd,
    /// `||` or `or`
    OpOr,
    /// `!` or `not`
    OpNot,
    /// `=`
    Assign,
    /// `(`
    LParen,
    /// `)`
    RParen,
    /// `,`
    Comma,
    /// The end of the input.
    EndOfFile,
}

/// A token with its source position.
#[derive(Clone, Debug)]
pub struct Token {
    /// What the token is.
    pub kind: TokenKind,
    /// The one-based source line.
    pub line: usize,
    /// The zero-based column.
    pub column: usize,
}

/// The lexer's result: the token stream, ending with `EndOfFile`, and the
/// diagnostics gathered along the way.
pub struct LexOutput {
    /// The tokens, in source order.
    pub tokens: Vec<Token>,
    /// Diagnostics for unrecognized characters and bad literals.
    pub diagnostics: Vec<Diagnostic>,
}

/// An indentation width beyond which further indentation is not tracked.
pub const INDENT_CAP: usize = 1000000;

fn is_space(c: char) -> (r: bool) {
    c == ' ' || c == '\t' || c == '\r'
}

fn is_ident_start(c: char) -> (r: bool) {
    ('a' <= c && c <= 'z') || ('A' <= c && c <= 'Z') || c == '_'
}

fn is_ident_char(c: char) -> (r: bool) {
    ('a' <= c && c <= 'z') || ('A' <= c && c <= 'Z') || ('0' <= c && c <= '9') || c == '_'
}

fn is_digit_char(c: char) -> (r: bool) {
    '0' <= c && c <= '9'
}

struct Lexer {
    chars: Vec<char>,
    pos: usize,
    line: usize,
    line_start: usize,
    source: String,
    file_name: String,
    tokens: Vec<Token>,
    diagnostics: Vec<Diagnostic>,
}

impl Lexer {
    spec fn wf(&self) -> bool {
        self.line_start <= self.pos <= self.chars@.len() <= usize::MAX
    }

    fn emit(&mut self, kind: TokenKind)
        requires
            old(self).wf(),
        ensures
            final(self).wf(),
            final(self).chars == old(self).chars,
            final(self).pos == old(self).pos,
            final(self).line == old(self).line,
            final(self).line_start == old(self).line_start,
            final(self).tokens@.len() == old(self).tokens@.len() + 1,
    {
        let column = self.pos - self.line_start;
        let line = self.line;
        self.tokens.push(Token { kind, line, column });
    }

    fn add_error(&mut self, kind: DiagnosticKind, message: String)
        requires
            old(self).wf(),
        ensures
            final(self).wf(),
            final(self).chars == old(self).chars,
            final(self).pos == old(self).pos,
            final(self).line == old(self).line,
            final(self).line_start == old(self).line_start,
    {
        let around = lines_around(self.source.as_str(), self.line, 2);
        let d = Diagnostic {
            kind,
            severity: DiagnosticSeverity::Error,
            message,
            file_name: self.file_name.clone(),
            line: self.line,
            column: self.pos - self.line_start,
            range: crate::diagnostics::point_range(self.line, self.pos - self.line_start),
            context: around.lines,
            first_line: around.first_line,
        };
        self.diagnostics.push(d);
    }

    /// Whether the next characters are exactly the two given.
    fn peek2(&self, a: char, b: char) -> (r: bool)
        requires
            self.wf(),
        ensures
            r ==> self.pos + 2 <= self.chars@.len(),
    {
        self.pos < self.chars.len() && self.pos + 1 < self.chars.len()
            && self.chars[self.pos] == a && self.chars[self.pos + 1] == b
    }

    fn peek_is(&self, a: char) -> (r: bool)
        requires
            self.wf(),
        ensures
            r ==> self.pos < self.chars@.len(),
    {
        self.pos < self.chars.len() && self.chars[self.pos] == a
    }

    fn at_end(&self) -> (r: bool)
        requires
            self.wf(),
        ensures
            r == (self.pos == self.chars@.len()),
    {
        self.pos == self.chars.len()
    }

    fn skip_spaces(&mut self)
        requires
            old(self).wf(),
        ensures
            final(self).wf(),
            final(self).chars == old(self).chars,
            final(self).line == old(self).line,
            final(self).line_start == old(self).line_start,
            final(self).pos >= old(self).pos,
    {
        while self.pos < self.chars.len() && (self.chars[self.pos] == ' ' || self.chars[self.pos]
            == '\t' || self.chars[self.pos] == '\r')
            invariant
                self.wf(),
                self.chars == old(self).chars,
                self.line == old(self).line,
                self.line_start == old(self).line_start,
                self.pos >= old(self).pos,
            decreases self.chars@.len() - self.pos,
        {
            self.pos += 1;
        }
    }

    /// Reads an identifier starting at the current position.
    fn read_ident(&mut self) -> (r: String)
        requires
            old(self).wf(),
            old(self).pos < old(self).chars@.len(),
        ensures
            final(self).wf(),
            final(self).chars == old(self).chars,
            final(self).line == old(self).line,
            final(self).line_start == old(self).line_start,
            final(self).pos > old(self).pos,
    {
        let start = self.pos;
        self.pos += 1;
        while self.pos < self.chars.len()
            invariant
                self.wf(),
                self.chars == old(self).chars,
                self.line == old(self).line,
                self.line_start == old(self).line_start,
                start < self.pos,
            decreases self.chars@.len() - self.pos,
        {
            let c = self.chars[self.pos];
            if !(('a' <= c && c <= 'z') || ('A' <= c && c <= 'Z') || ('0' <= c && c <= '9') || c
                == '_') {
                break;
            }
            self.pos += 1;
        }
        chars_to_string(&self.chars, start, self.pos)
    }

    /// Lexes one expression-mode token. Stops before `}` and `>>`, which the
    /// caller consumes. Returns false when no token could be produced here.
    fn lex_expr_token(&mut self) -> (produced: bool)
        requires
            old(self).wf(),
        ensures
            final(self).wf(),
            final(self).chars == old(self).chars,
            final(self).line == old(self).line,
            final(self).line_start == old(self).line_start,
            final(self).pos >= old(self).pos,
            produced ==> final(self).pos > old(self).pos,
    {
        if self.at_end() {
            return false;
        }
        let c = self.chars[self.pos];
        if c == '}' {
            return false;
        }
        if c == '>' && self.pos + 1 < self.chars.len() && self.chars[self.pos + 1] == '>' {
            return false;
        }
        if c == '\n' {
            return false;
        }
        if is_space(c) {
            self.pos += 1;
            self.skip_spaces();
            return true;
        }
        if is_ident_start(c) {
            let word = self.read_ident();
            let w = word.as_str();
            if str_eq(w, "true") {
                self.emit(TokenKind::TrueTok);
            } else if str_eq(w, "false") {
                self.emit(TokenKind::FalseTok);
            } else if str_eq(w, "null") {
                self.emit(TokenKind::NullTok);
            } else if str_eq(w, "and") {
                self.emit(TokenKind::OpAnd);
            } else if str_eq(w, "or") {
                self.emit(TokenKind::OpOr);
            } else if str_eq(w, "not") {
                self.emit(TokenKind::OpNot);
            } else if str_eq(w, "is") {
                self.emit(TokenKind::OpEq);
            } else if str_eq(w, "to") {
                self.emit(TokenKind::KwTo);
            } else if str_eq(w, "as") {
                self.emit(TokenKind::KwAs);
            } else {
                self.emit(TokenKind::Ident(word));
            }
            return true;
        }
        if c == '$' {
            if self.pos + 1 < self.chars.len() && {
                let d = self.chars[self.pos + 1];
                ('a' <= d && d <= 'z') || ('A' <= d && d <= 'Z') || d == '_'
            } {
                let start = self.pos;
                self.pos += 1;
                let _name = self.read_ident();
                let full = chars_to_string(&self.chars, start, self.pos);
                self.emit(TokenKind::VariableTok(full));
            } else {
                self.add_error(
                    DiagnosticKind::SyntaxError,
                    String::from_str("expected a variable name after this dollar sign"),
                );
                self.pos += 1;
            }
            return true;
        }
        if is_digit_char(c) {
            let start = self.pos;
            self.pos += 1;
            while self.pos < self.chars.len()
                invariant
                    self.wf(),
                    self.chars == old(self).chars,
                    self.line == old(self).line,
                    self.line_start == old(self).line_start,
                    start < self.pos,
                decreases self.chars@.len() - self.pos,
            {
                let d = self.chars[self.pos];
                if !('0' <= d && d <= '9') {
                    break;
                }
                self.pos += 1;
            }
            match parse_integer_exec(&self.chars, start, self.pos) {
                Some(n) => {
                    self.emit(TokenKind::NumberTok(n));
                },
                None => {
                    self.add_error(
                        DiagnosticKind::SyntaxError,
                        String::from_str("this number does not fit the numeric range"),
                    );
                },
            }
            return true;
        }
        if c == '"' {
            self.lex_string_literal();
            return true;
        }
        // Operators and punctuation.
        if c == '=' && self.pos + 1 < self.chars.len() && self.chars[self.pos + 1] == '=' {
            self.pos += 2;
            self.emit(TokenKind::OpEq);
        } else if c == '!' && self.pos + 1 < self.chars.len() && self.chars[self.pos + 1] == '=' {
            self.pos += 2;
            self.emit(TokenKind::OpNeq);
        } else if c == '<' && self.pos + 1 < self.chars.len() && self.chars[self.pos + 1] == '=' {
            self.pos += 2;
            self.emit(TokenKind::OpLe);
        } else if c == '>' && self.pos + 1 < self.chars.len() && self.chars[self.pos + 1] == '=' {
            self.pos += 2;
            self.emit(TokenKind::OpGe);
        } else if c == '&' && self.pos + 1 < self.chars.len() && self.chars[self.pos + 1] == '&' {
            self.pos += 2;
            self.emit(TokenKind::OpAnd);
        } else if c == '|' && self.pos + 1 < self.chars.len() && self.chars[self.pos + 1] == '|' {
            self.pos += 2;
            self.emit(TokenKind::OpOr);
        } else if c == '=' {
            self.pos += 1;
            self.emit(TokenKind::Assign);
        } else if c == '!' {
            self.pos += 1;
            self.emit(TokenKind::OpNot);
        } else if c == '<' {
            self.pos += 1;
            self.emit(TokenKind::OpLt);
        } else if c == '>' {
            self.pos += 1;
            self.emit(TokenKind::OpGt);
        } else if c == '+' {
            self.pos += 1;
            self.emit(TokenKind::OpPlus);
        } else if c == '-' {
            self.pos += 1;
            self.emit(TokenKind::OpMinus);
        } else if c == '*' {
            self.pos += 1;
            self.emit(TokenKind::OpStar);
        } else if c == '/' {
            self.pos += 1;
            self.emit(TokenKind::OpSlash);
        } else if c == '%' {
            self.pos += 1;
            self.emit(TokenKind::OpPercent);
        } else if c == '(' {
            self.pos += 1;
            self.emit(TokenKind::LParen);
        } else if c == ')' {
            self.pos += 1;
            self.emit(TokenKind::RParen);
        } else if c == ',' {
            self.pos += 1;
            self.emit(TokenKind::Comma);
        } else {
            self.add_error(
                DiagnosticKind::SyntaxError,
                String::from_str("unrecognized character in an expression"),
            );
            self.pos += 1;
        }
        true
    }

    /// Lexes a double-quoted string literal with escapes.
    fn lex_string_literal(&mut self)
        requires
            old(self).wf(),
            old(self).pos < old(self).chars@.len(),
        ensures
            final(self).wf(),
            final(self).chars == old(self).chars,
            final(self).line == old(self).line,
            final(self).line_start == old(self).line_start,
            final(self).pos > old(self).pos,
    {
        self.pos += 1;
        let mut out = String::new();
        let mut closed = false;
        while self.pos < self.chars.len() && !closed && self.chars[self.pos] != '\n'
            invariant
                self.wf(),
                self.chars == old(self).chars,
                self.line == old(self).line,
                self.line_start == old(self).line_start,
                self.pos > old(self).pos,
            decreases self.chars@.len() - self.pos,
        {
            let c = self.chars[self.pos];
            if c == '"' {
                self.pos += 1;
                closed = true;
            } else if c == '\\' {
                if self.pos + 1 < self.chars.len() {
                    let e = self.chars[self.pos + 1];
                    if e == '"' || e == '\\' || e == '{' || e == '}' {
                        crate::text::push_char(&mut out, e);
                        self.pos += 2;
                    } else if e == 'n' {
                        crate::text::push_char(&mut out, '\n');
                        self.pos += 2;
                    } else if e == 't' {
                        crate::text::push_char(&mut out, '\t');
                        self.pos += 2;
                    } else {
                        self.add_error(
                            DiagnosticKind::InvalidEscape,
                            String::from_str("unrecognized escape sequence in a string literal"),
                        );
                        self.pos += 2;
                    }
                } else {
                    self.add_error(
                        DiagnosticKind::InvalidEscape,
                        String::from_str("the string literal ends in a lone backslash"),
                    );
                    self.pos += 1;
                }
            } else {
                crate::text::push_char(&mut out, c);
                self.pos += 1;
            }
        }
        if !closed {
            self.add_error(
                DiagnosticKind::SyntaxError,
                String::from_str("this string literal is not closed"),
            );
        }
        self.emit(TokenKind::StringTok(out));
    }

    /// Lexes expression-mode tokens until an unmatched `}`, a `>>` or the
    /// end of the line. Brace pairs inside the expression are tracked, so
    /// a braced sub-expression closes without ending the whole run.
    fn lex_expr_tokens(&mut self)
        requires
            old(self).wf(),
        ensures
            final(self).wf(),
            final(self).chars == old(self).chars,
            final(self).line == old(self).line,
            final(self).line_start == old(self).line_start,
            final(self).pos >= old(self).pos,
    {
        let mut depth: usize = 0;
        loop
            invariant
                self.wf(),
                self.chars == old(self).chars,
                self.line == old(self).line,
                self.line_start == old(self).line_start,
                self.pos >= old(self).pos,
            decreases self.chars@.len() - self.pos,
        {
            if self.peek_is('{') {
                self.pos += 1;
                self.emit(TokenKind::ExprStart);
                if depth < usize::MAX {
                    depth += 1;
                }
                continue;
            }
            if self.peek_is('}') {
                if depth > 0 {
                    self.pos += 1;
                    self.emit(TokenKind::ExprEnd);
                    depth -= 1;
                    continue;
                }
                return;
            }
            let produced = self.lex_expr_token();
            if !produced {
                return;
            }
        }
    }

    /// Lexes the interior of a free-form command or a line: literal text
    /// runs, `{`-interpolations, and for lines trailing `#` hashtags.
    /// Stops at `>>` when `in_command` is set, else at `#` or end of line.
    fn lex_fragments(&mut self, in_command: bool)
        requires
            old(self).wf(),
        ensures
            final(self).wf(),
            final(self).chars == old(self).chars,
            final(self).line == old(self).line,
            final(self).line_start == old(self).line_start,
            final(self).pos >= old(self).pos,
    {
        let mut run_start = self.pos;
        loop
            invariant
                self.wf(),
                self.chars == old(self).chars,
                self.line == old(self).line,
                self.line_start == old(self).line_start,
                old(self).pos <= run_start <= self.pos,
            decreases self.chars@.len() - self.pos,
        {
            let stop = if self.at_end() {
                true
            } else {
                let c = self.chars[self.pos];
                c == '\n' || (c == '{') || (!in_command && c == '#') || (!in_command && c == '<'
                    && self.pos + 1 < self.chars.len() && self.chars[self.pos + 1] == '<') || (
                in_command && c == '>' && self.pos + 1 < self.chars.len() && self.chars[self.pos
                    + 1] == '>')
            };
            if stop {
                if run_start < self.pos {
                    let text = chars_to_string(&self.chars, run_start, self.pos);
                    self.emit(TokenKind::TextRun(text));
                }
                if self.at_end() {
                    return;
                }
                let c = self.chars[self.pos];
                if c == '\n' {
                    return;
                }
                if c == '{' {
                    self.pos += 1;
                    self.emit(TokenKind::ExprStart);
                    self.lex_expr_tokens();
                    if self.peek_is('}') {
                        self.pos += 1;
                        self.emit(TokenKind::ExprEnd);
                    } else {
                        self.add_error(
                            DiagnosticKind::SyntaxError,
                            String::from_str("this interpolated expression is not closed"),
                        );
                        self.emit(TokenKind::ExprEnd);
                    }
                    run_start = self.pos;
                } else {
                    // '#', '<<' or '>>': the caller handles these.
                    return;
                }
            } else {
                self.pos += 1;
            }
        }
    }

    /// Lexes one `<< ... >>` command, choosing between the structured
    /// keyword forms and free-form command text.
    fn lex_command(&mut self)
        requires
            old(self).wf(),
            old(self).pos + 2 <= old(self).chars@.len(),
        ensures
            final(self).wf(),
            final(self).chars == old(self).chars,
            final(self).line == old(self).line,
            final(self).line_start == old(self).line_start,
            final(self).pos > old(self).pos,
    {
        self.pos += 2;
        self.emit(TokenKind::CommandStart);
        self.skip_spaces();
        let mut structured = false;
        if !self.at_end() {
            let c = self.chars[self.pos];
            if is_ident_start(c) {
                let saved = self.pos;
                let word = self.read_ident();
                let w = word.as_str();
                if str_eq(w, "if") {
                    self.emit(TokenKind::KwIf);
                    structured = true;
                } else if str_eq(w, "elseif") {
                    self.emit(TokenKind::KwElseIf);
                    structured = true;
                } else if str_eq(w, "else") {
                    self.emit(TokenKind::KwElse);
                    structured = true;
                } else if str_eq(w, "endif") {
                    self.emit(TokenKind::KwEndIf);
                    structured = true;
                } else if str_eq(w, "set") {
                    self.emit(TokenKind::KwSet);
                    structured = true;
                } else if str_eq(w, "declare") {
                    self.emit(TokenKind::KwDeclare);
                    structured = true;
                } else if str_eq(w, "jump") {
                    self.emit(TokenKind::KwJump);
                    structured = true;
                } else if str_eq(w, "call") {
                    self.emit(TokenKind::KwCall);
                    structured = true;
                } else {
                    self.pos = saved;
                }
            }
        }
        if structured {
            self.lex_expr_tokens();
        } else {
            self.lex_fragments(true);
        }
        if self.peek2('>', '>') {
            self.pos += 2;
            self.emit(TokenKind::CommandEnd);
        } else {
            self.add_error(
                DiagnosticKind::SyntaxError,
                String::from_str("this command is not closed"),
            );
            self.emit(TokenKind::CommandEnd);
        }
    }

    /// Lexes the rest of a body line: text, interpolations, commands and
    /// trailing hashtags.
    fn lex_line_rest(&mut self)
        requires
            old(self).wf(),
        ensures
            final(self).wf(),
            final(self).chars == old(self).chars,
            final(self).line == old(self).line,
            final(self).line_start == old(self).line_start,
            final(self).pos >= old(self).pos,
    {
        loop
            invariant
                self.wf(),
                self.chars == old(self).chars,
                self.line == old(self).line,
                self.line_start == old(self).line_start,
                self.pos >= old(self).pos,
            decreases self.chars@.len() - self.pos,
        {
            self.lex_fragments(false);
            if self.at_end() {
                return;
            }
            let c = self.chars[self.pos];
            if c == '\n' {
                return;
            }
            if c == '#' {
                let start = self.pos + 1;
                self.pos += 1;
                while self.pos < self.chars.len()
                    invariant
                        self.wf(),
                        self.chars == old(self).chars,
                        self.line == old(self).line,
                        self.line_start == old(self).line_start,
                        start <= self.pos,
                    decreases self.chars@.len() - self.pos,
                {
                    let d = self.chars[self.pos];
                    if d == ' ' || d == '\t' || d == '\r' || d == '\n' || d == '#' {
                        break;
                    }
                    self.pos += 1;
                }
                let tag = chars_to_string(&self.chars, start, self.pos);
                self.emit(TokenKind::HashtagTok(tag));
                self.skip_spaces();
            } else if c == '<' {
                if self.chars.len() - self.pos >= 2 {
                    self.lex_command();
                } else {
                    self.pos += 1;
                }
            } else {
                // lex_fragments stops only at the cases above.
                self.pos += 1;
            }
        }
    }
}

/// Lexes a source file into tokens. The stream always ends with `EndOfFile`;
/// unrecognized input adds a diagnostic and lexing goes on.
pub(crate) fn lex(source: &str, file_name: &str) -> (r: LexOutput)
    ensures
        r.tokens@.len() > 0,
{
    let chars = str_to_chars(source);
    let source_len = chars.len();
    assert(chars@.len() == source_len);
    let mut lx = Lexer {
        chars,
        pos: 0,
        line: 1,
        line_start: 0,
        source: String::from_str(source),
        file_name: String::from_str(file_name),
        tokens: Vec::new(),
        diagnostics: Vec::new(),
    };
    let mut in_body = false;
    let mut indents: Vec<usize> = Vec::new();
    while lx.pos < lx.chars.len()
        invariant
            lx.wf(),
            lx.chars@.len() == source_len,
        decreases lx.chars@.len() - lx.pos,
    {
        let ghost entry_pos = lx.pos;
        let line_begin = lx.pos;
        lx.line_start = line_begin;
        // Measure the indentation and find the first content character.
        let mut width: usize = 0;
        while lx.pos < lx.chars.len() && (lx.chars[lx.pos] == ' ' || lx.chars[lx.pos] == '\t'
            || lx.chars[lx.pos] == '\r')
            invariant
                lx.wf(),
                lx.chars@.len() == source_len,
                entry_pos <= lx.pos,
                width <= INDENT_CAP + 8,
            decreases lx.chars@.len() - lx.pos,
        {
            if lx.chars[lx.pos] == '\t' {
                if width <= INDENT_CAP {
                    width = width + (8 - width % 8);
                }
            } else if lx.chars[lx.pos] == ' ' {
                if width <= INDENT_CAP {
                    width += 1;
                }
            }
            lx.pos += 1;
        }
        let blank = lx.at_end() || lx.chars[lx.pos] == '\n';
        if blank {
            // A line of only whitespace produces nothing.
        } else if !in_body {
            // Header mode: a `---` line starts the body; otherwise the line
            // is `key: value`.
            if lx.peek2('-', '-') && lx.pos + 2 < lx.chars.len() && lx.chars[lx.pos + 2] == '-' {
                lx.pos += 3;
                lx.emit(TokenKind::BodyStart);
                in_body = true;
                indents = Vec::new();
            } else {
                let content_start = lx.pos;
                let mut colon: usize = 0;
                let mut seen_colon = false;
                while lx.pos < lx.chars.len() && lx.chars[lx.pos] != '\n'
                    invariant
                        lx.wf(),
                        lx.chars@.len() == source_len,
                        entry_pos <= lx.pos,
                        seen_colon ==> content_start <= colon < lx.pos,
                        content_start <= lx.pos,
                    decreases lx.chars@.len() - lx.pos,
                {
                    if lx.chars[lx.pos] == ':' && !seen_colon {
                        colon = lx.pos;
                        seen_colon = true;
                    }
                    lx.pos += 1;
                }
                if seen_colon {
                    let key = trimmed(&lx.chars, content_start, colon);
                    let value = trimmed(&lx.chars, colon + 1, lx.pos);
                    lx.emit(TokenKind::HeaderEntry(key, value));
                } else {
                    lx.add_error(
                        DiagnosticKind::SyntaxError,
                        String::from_str("expected a `key: value` header or `---`"),
                    );
                }
            }
        } else {
            // Body mode: `===` ends the node; otherwise indentation is
            // compared and the line content is lexed.
            if lx.peek2('=', '=') && lx.pos + 2 < lx.chars.len() && lx.chars[lx.pos + 2] == '=' {
                lx.pos += 3;
                while indents.len() > 0
                    invariant
                        lx.wf(),
                        lx.chars@.len() == source_len,
                        entry_pos <= lx.pos,
                    decreases indents@.len(),
                {
                    let _popped = indents.pop();
                    lx.emit(TokenKind::Dedent);
                }
                lx.emit(TokenKind::NodeEnd);
                in_body = false;
            } else {
                let current = if indents.len() == 0 {
                    0
                } else {
                    indents[indents.len() - 1]
                };
                if width > current {
                    indents.push(width);
                    lx.emit(TokenKind::Indent);
                } else if width < current {
                    while indents.len() > 0 && width < indents[indents.len() - 1]
                        invariant
                            lx.wf(),
                            lx.chars@.len() == source_len,
                            entry_pos <= lx.pos,
                        decreases indents@.len(),
                    {
                        let _popped = indents.pop();
                        lx.emit(TokenKind::Dedent);
                    }
                }
                if lx.peek2('-', '>') {
                    lx.pos += 2;
                    lx.emit(TokenKind::Arrow);
                    lx.skip_spaces();
                }
                lx.lex_line_rest();
                lx.emit(TokenKind::LineBreak);
            }
        }
        // Move past the line's newline, if any.
        while lx.pos < lx.chars.len() && lx.chars[lx.pos] != '\n'
            invariant
                lx.wf(),
                lx.chars@.len() == source_len,
                entry_pos <= lx.pos,
            decreases lx.chars@.len() - lx.pos,
        {
            lx.pos += 1;
        }
        if lx.pos < lx.chars.len() {
            lx.pos += 1;
            if lx.line < usize::MAX {
                lx.line += 1;
            }
        }
        proof {
            assert(lx.pos > entry_pos);
        }
        lx.line_start = lx.pos;
    }
    while indents.len() > 0
        invariant
            lx.wf(),
        decreases indents@.len(),
    {
        let _popped = indents.pop();
        lx.emit(TokenKind::Dedent);
    }
    lx.emit(TokenKind::EndOfFile);
    LexOutput { tokens: lx.tokens, diagnostics: lx.diagnostics }
}

/// Copies a character range with leading and trailing whitespace removed.
fn trimmed(chars: &Vec<char>, from: usize, to: usize) -> (r: String)
    requires
        from <= to <= chars@.len(),
{
    let _n = chars.len();
    let mut a = from;
    let mut b = to;
    while a < b && (chars[a] == ' ' || chars[a] == '\t' || chars[a] == '\r')
        invariant
            from <= a <= b <= to <= chars@.len(),
        decreases b - a,
    {
        a += 1;
    }
    while b > a && (chars[b - 1] == ' ' || chars[b - 1] == '\t' || chars[b - 1] == '\r')
        invariant
            from <= a <= b <= to <= chars@.len(),
        decreases b - a,
    {
        b -= 1;
    }
    chars_to_string(chars, a, b)
}

} // verus!
