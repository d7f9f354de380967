//! Diagnostics accumulated during compilation, and the extraction of the
//! source lines around an offending position for error reporting.

use vstd::prelude::*;
use crate::text::{chars_to_string, str_to_chars};
use crate::types::{Position, SourceRange};

verus! {

/// How severe a diagnostic is: errors abort code generation for the file,
/// warnings do not.
#[derive(Clone, Copy, Debug, PartialEq, Eq, Structural)]
pub enum DiagnosticSeverity {
    /// The file cannot be compiled.
    Error,
    /// Something is suspect, but compilation goes on.
    Warning,
}

/// What went wrong.
#[derive(Clone, Copy, Debug, PartialEq, Eq, Structural)]
pub enum DiagnosticKind {
    /// The lexer or parser rejected the input.
    SyntaxError,
    /// A variable was referenced with no declaration and no inferable type.
    UndeclaredVariable,
    /// Type unification failed.
    TypeMismatch,
    /// More than one operator overload survived unification.
    AmbiguousType,
    /// Two nodes share a name.
    DuplicateNode,
    /// A jump names a node that does not exist, where statically resolvable.
    UnknownNode,
    /// A bad escape sequence in a string literal.
    InvalidEscape,
    /// A reserved symbol was redeclared.
    ReservedName,
    /// A fault of the compiler itself: one of its own guarantees failed a
    /// final check. Never expected to be reported.
    InternalError,
}

/// One diagnostic: what, where, and the surrounding source lines.
#[derive(Clone, Debug)]
pub struct Diagnostic {
    /// What went wrong.
    pub kind: DiagnosticKind,
    /// Whether compilation can go on.
    pub severity: DiagnosticSeverity,
    /// A human-readable message.
    pub message: String,
    /// The source file.
    pub file_name: String,
    /// The one-based line the diagnostic points at.
    pub line: usize,
    /// The zero-based column the diagnostic points at.
    pub column: usize,
    /// The span the diagnostic covers.
    pub range: SourceRange,
    /// The source lines around the offending position.
    pub context: String,
    /// The zero-based index of the first context line.
    pub first_line: usize,
}

/// The span of a diagnostic that points at one position.
pub fn point_range(line: usize, column: usize) -> (r: SourceRange)
    ensures
        r.start == (Position { line, character: column }),
        r.end == (Position { line, character: column }),
{
    SourceRange {
        start: Position { line, character: column },
        end: Position { line, character: column },
    }
}

/// How many newline characters stand before the given position.
pub open spec fn newlines_before(s: Seq<char>, pos: int) -> nat
    decreases pos,
{
    if pos <= 0 {
        0
    } else {
        newlines_before(s, pos - 1) + if s[pos - 1] == '\n' {
            1nat
        } else {
            0nat
        }
    }
}

proof fn lemma_newlines_monotone(s: Seq<char>, a: int, b: int)
    requires
        0 <= a <= b,
    ensures
        newlines_before(s, a) <= newlines_before(s, b),
    decreases b - a,
{
    if a < b {
        lemma_newlines_monotone(s, a, b - 1);
    }
}

/// The zero-based line index of the position just past the input:
/// the zero-based index of the input's last line.
pub open spec fn last_line_index(s: Seq<char>) -> nat {
    newlines_before(s, s.len() as int)
}

/// The source lines around a position, for a diagnostic.
#[derive(Clone, Debug)]
pub struct LinesAround {
    /// The surrounding lines, joined with the newlines the source had.
    pub lines: String,
    /// The zero-based index of the first returned line.
    pub first_line: usize,
}

fn count_newlines(chars: &Vec<char>) -> (r: usize)
    ensures
        r == newlines_before(chars@, chars@.len() as int),
{
    let mut count: usize = 0;
    let mut pos: usize = 0;
    while pos < chars.len()
        invariant
            pos <= chars@.len(),
            count == newlines_before(chars@, pos as int),
            count <= pos,
        decreases chars@.len() - pos,
    {
        if chars[pos] == '\n' {
            count += 1;
        }
        pos += 1;
    }
    count
}

fn find_line_start(chars: &Vec<char>, l: usize) -> (r: usize)
    requires
        l <= newlines_before(chars@, chars@.len() as int),
    ensures
        r <= chars@.len(),
        newlines_before(chars@, r as int) == l,
        r == 0 || chars@[r - 1] == '\n',
{
    let mut count: usize = 0;
    let mut pos: usize = 0;
    while pos < chars.len()
        invariant
            pos <= chars@.len(),
            count == newlines_before(chars@, pos as int),
            count <= l,
            l <= newlines_before(chars@, chars@.len() as int),
            count < l || pos == 0 || chars@[pos - 1] == '\n',
        decreases chars@.len() - pos,
    {
        if count == l {
            return pos;
        }
        if chars[pos] == '\n' {
            count += 1;
        }
        pos += 1;
    }
    proof {
        lemma_newlines_monotone(chars@, pos as int, chars@.len() as int);
    }
    pos
}

fn find_line_end(chars: &Vec<char>, l: usize) -> (r: usize)
    requires
        l <= newlines_before(chars@, chars@.len() as int),
    ensures
        r <= chars@.len(),
        newlines_before(chars@, r as int) == l,
        r == chars@.len() || chars@[r as int] == '\n',
{
    let mut count: usize = 0;
    let mut pos: usize = 0;
    while pos < chars.len()
        invariant
            pos <= chars@.len(),
            count == newlines_before(chars@, pos as int),
            count <= l,
            l <= newlines_before(chars@, chars@.len() as int),
        decreases chars@.len() - pos,
    {
        if chars[pos] == '\n' {
            if count == l {
                return pos;
            }
            count += 1;
        }
        pos += 1;
    }
    pos
}

/// Extracts the source lines around a one-based line number: the line itself
/// together with up to `surrounding` lines before and after it, exactly as
/// they stand in the source. Also reports the zero-based index of the first
/// returned line.
pub fn lines_around(source: &str, line_number: usize, surrounding: usize) -> (r: LinesAround)
    ensures
        ({
            let s = source@;
            let last = last_line_index(s);
            let target = if line_number == 0 {
                0int
            } else if line_number - 1 <= last {
                line_number - 1
            } else {
                last as int
            };
            let lo = if target <= surrounding {
                0int
            } else {
                target - surrounding
            };
            let hi = if target + surrounding <= last {
                target + surrounding
            } else {
                last as int
            };
            r.first_line == lo && exists|start: int, end: int|
                0 <= start <= end <= s.len() && newlines_before(s, start) == lo && (start == 0
                    || s[start - 1] == '\n') && newlines_before(s, end) == hi && (end == s.len()
                    || s[end] == '\n') && r.lines@ == s.subrange(start, end)
        }),
{
    let chars = str_to_chars(source);
    let total = count_newlines(&chars);
    let target: usize = if line_number == 0 {
        0
    } else if line_number - 1 <= total {
        line_number - 1
    } else {
        total
    };
    let lo: usize = if target <= surrounding {
        0
    } else {
        target - surrounding
    };
    let hi: usize = if surrounding <= total && target <= total - surrounding {
        target + surrounding
    } else {
        total
    };
    let start = find_line_start(&chars, lo);
    let end = find_line_end(&chars, hi);
    proof {
        if end < start {
            lemma_newlines_monotone(chars@, end + 1, start as int);
            assert(newlines_before(chars@, end + 1) == hi + 1);
        }
    }
    let lines = chars_to_string(&chars, start, end);
    LinesAround { lines, first_line: lo }
}

} // verus!
