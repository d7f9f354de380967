//! The last-line-before-options pass: marks each line that immediately
//! precedes an option set in the same block with the `lastline` metadata
//! tag.
//!
//! The rules: a line is marked exactly when the next statement of its own
//! block is an option set. Any other statement between them (a command, a
//! `set`, a `declare`, a `jump`, a `call`) breaks the adjacency, and the
//! blocks of an `if` or an option body are their own scopes: a line at the
//! end of an `if` branch is not marked for options after the `endif`, and
//! a line before an `if` that contains the options is not marked either.
//! Bodies of options and of `if` branches are walked recursively; a line
//! that ends its node is never marked, because options in another node are
//! not in its block.

use vstd::prelude::*;
use crate::cst::{IfStatement, LineStatement, OptionItem, Statement};
use crate::text::push_char;

verus! {

broadcast use vstd::std_specs::vec::group_vec_axioms;

/// Whether a tag list holds the `lastline` marker.
pub open spec fn has_lastline(tags: Seq<String>) -> bool {
    exists|i: int| 0 <= i < tags.len() && (#[trigger] tags[i])@ == "lastline"@
}

/// Whether the statement at position `i` is immediately followed by an
/// option set in its own block.
pub open spec fn follow_flag(a: Seq<Statement>, i: int) -> bool {
    i + 1 < a.len() && (a[i + 1] is Options)
}

/// How a line changes under tagging: everything but the tags is kept; the
/// tags gain the `lastline` marker exactly when `add` holds.
pub open spec fn line_rel(a: LineStatement, b: LineStatement, add: bool) -> bool {
    &&& b.fragments == a.fragments
    &&& b.line_id == a.line_id
    &&& b.line_number == a.line_number
    &&& if add {
        &&& b.tags@.len() == a.tags@.len() + 1
        &&& b.tags@.subrange(0, a.tags@.len() as int) == a.tags@
        &&& b.tags@.last()@ == "lastline"@
    } else {
        b.tags == a.tags
    }
}

/// How one statement changes under tagging, given whether an option set
/// follows it in its block.
pub open spec fn stmt_rel(a: Statement, b: Statement, followed: bool) -> bool
    decreases a,
{
    match a {
        Statement::Line(l) => match b {
            Statement::Line(m) => line_rel(l, m, followed),
            _ => false,
        },
        Statement::Options(opts) => match b {
            Statement::Options(opts2) => {
                &&& opts2@.len() == opts@.len()
                &&& forall|k: int|
                    0 <= k < opts@.len() ==> {
                        &&& (#[trigger] opts2@[k]).line == opts@[k].line
                        &&& opts2@[k].condition == opts@[k].condition
                        &&& block_rel(opts@[k].body@, opts2@[k].body@)
                    }
            },
            _ => false,
        },
        Statement::IfBlock(f) => match b {
            Statement::IfBlock(g) => {
                &&& g.line_number == f.line_number
                &&& g.clauses@.len() == f.clauses@.len()
                &&& forall|k: int|
                    0 <= k < f.clauses@.len() ==> {
                        &&& (#[trigger] g.clauses@[k]).condition == f.clauses@[k].condition
                        &&& block_rel(f.clauses@[k].body@, g.clauses@[k].body@)
                    }
                &&& match f.else_body {
                    Some(eb) => match g.else_body {
                        Some(eb2) => block_rel(eb@, eb2@),
                        None => false,
                    },
                    None => g.else_body is None,
                }
            },
            _ => false,
        },
        _ => b == a,
    }
}

/// How a whole block changes under tagging: element for element, each
/// statement related by `stmt_rel` under its own follow flag.
pub open spec fn block_rel(a: Seq<Statement>, b: Seq<Statement>) -> bool
    decreases a,
{
    &&& a.len() == b.len()
    &&& forall|i: int| 0 <= i < a.len() ==> stmt_rel(#[trigger] a[i], b[i], follow_flag(a, i))
}

/// Law: after tagging, a line that did not already carry the marker carries
/// it exactly when an option set immediately follows it in its own block.
pub proof fn lemma_lastline_iff(a: Seq<Statement>, b: Seq<Statement>, i: int)
    requires
        block_rel(a, b),
        0 <= i < a.len(),
        a[i] is Line,
        !has_lastline(line_tags(a[i])),
    ensures
        b[i] is Line,
        has_lastline(line_tags(b[i])) <==> follow_flag(a, i),
{
    assert(stmt_rel(a[i], b[i], follow_flag(a, i)));
    let l = line_stmt(a[i]);
    let m = line_stmt(b[i]);
    if follow_flag(a, i) {
        assert(m.tags@[m.tags@.len() - 1]@ == "lastline"@);
    } else {
        assert(m.tags == l.tags);
        assert(!has_lastline(m.tags@));
    }
}

/// Law: a `set`, `command`, `declare`, `jump` or `call` directly after a
/// line keeps the line untagged, whatever follows further on.
pub proof fn lemma_interrupted_line_untagged(a: Seq<Statement>, b: Seq<Statement>, i: int)
    requires
        block_rel(a, b),
        0 <= i < a.len(),
        a[i] is Line,
        !has_lastline(line_tags(a[i])),
        i + 1 < a.len(),
        a[i + 1] is SetStatement || a[i + 1] is CommandStatement || a[i + 1] is DeclareStatement
            || a[i + 1] is JumpStatement || a[i + 1] is CallStatement,
    ensures
        b[i] is Line,
        !has_lastline(line_tags(b[i])),
{
    lemma_lastline_iff(a, b, i);
    assert(!follow_flag(a, i));
}

/// The line of a `Line` statement; an arbitrary line otherwise.
pub open spec fn line_stmt(s: Statement) -> LineStatement {
    match s {
        Statement::Line(l) => l,
        _ => arbitrary(),
    }
}

/// The tags of a `Line` statement; arbitrary otherwise.
pub open spec fn line_tags(s: Statement) -> Seq<String> {
    line_stmt(s).tags@
}

/// Builds the `lastline` marker string.
fn lastline_marker() -> (r: String)
    ensures
        r@ == "lastline"@,
{
    let mut s = String::new();
    push_char(&mut s, 'l');
    push_char(&mut s, 'a');
    push_char(&mut s, 's');
    push_char(&mut s, 't');
    push_char(&mut s, 'l');
    push_char(&mut s, 'i');
    push_char(&mut s, 'n');
    push_char(&mut s, 'e');
    proof {
        reveal_strlit("lastline");
        assert(s@ =~= "lastline"@);
    }
    s
}

/// Tags one statement, given whether an option set follows it.
#[verifier::loop_isolation(false)]
fn tag_statement(s: Statement, followed: bool) -> (r: Statement)
    ensures
        stmt_rel(s, r, followed),
    decreases s,
{
    match s {
        Statement::Line(l) => {
            let mut m = l;
            if followed {
                m.tags.push(lastline_marker());
                proof {
                    assert(m.tags@.subrange(0, m.tags@.len() - 1) =~= line_stmt(s).tags@);
                }
            }
            Statement::Line(m)
        },
        Statement::Options(opts) => {
            let ghost opts_whole = opts;
            let ghost opts0 = opts@;
            let mut rest = opts;
            let mut out: Vec<OptionItem> = Vec::new();
            while rest.len() > 0
                invariant
                    out@.len() + rest@.len() == opts0.len(),
                    rest@ =~= opts0.subrange(out@.len() as int, opts0.len() as int),
                    forall|k: int|
                        0 <= k < out@.len() ==> {
                            &&& (#[trigger] out@[k]).line == opts0[k].line
                            &&& out@[k].condition == opts0[k].condition
                            &&& block_rel(opts0[k].body@, out@[k].body@)
                        },
                decreases rest@.len(),
            {
                let ghost k = out@.len() as int;
                let item = rest.remove(0);
                proof {
                    assert(item == opts0[k]);
                    assert(rest@ =~= opts0.subrange(k + 1, opts0.len() as int));
                }
                proof {
                    assert(s == Statement::Options(opts_whole));
                    assert(decreases_to!(s => opts_whole));
                    assert(decreases_to!(opts_whole => opts_whole@));
                    assert(opts0 == opts_whole@);
                    assert(decreases_to!(opts_whole@ => opts_whole@[k]));
                    assert(decreases_to!(opts_whole@[k] => opts_whole@[k].body));
                }
                let body = tag_block(item.body);
                out.push(OptionItem { line: item.line, condition: item.condition, body });
            }
            Statement::Options(out)
        },
        Statement::IfBlock(f) => {
            let ghost f_whole = f;
            let ghost clauses0 = f.clauses@;
            let mut rest = f.clauses;
            let mut out_clauses: Vec<crate::cst::IfClause> = Vec::new();
            while rest.len() > 0
                invariant
                    out_clauses@.len() + rest@.len() == clauses0.len(),
                    rest@ =~= clauses0.subrange(out_clauses@.len() as int, clauses0.len() as int),
                    forall|k: int|
                        0 <= k < out_clauses@.len() ==> {
                            &&& (#[trigger] out_clauses@[k]).condition == clauses0[k].condition
                            &&& block_rel(clauses0[k].body@, out_clauses@[k].body@)
                        },
                decreases rest@.len(),
            {
                let ghost k = out_clauses@.len() as int;
                let clause = rest.remove(0);
                proof {
                    assert(clause == clauses0[k]);
                    assert(rest@ =~= clauses0.subrange(k + 1, clauses0.len() as int));
                }
                proof {
                    assert(s == Statement::IfBlock(f_whole));
                    assert(decreases_to!(s => f_whole));
                    assert(decreases_to!(f_whole => f_whole.clauses));
                    assert(decreases_to!(f_whole.clauses => f_whole.clauses@));
                    assert(clauses0 == f_whole.clauses@);
                    assert(decreases_to!(f_whole.clauses@ => f_whole.clauses@[k]));
                    assert(decreases_to!(f_whole.clauses@[k] => f_whole.clauses@[k].body));
                }
                let body = tag_block(clause.body);
                out_clauses.push(crate::cst::IfClause { condition: clause.condition, body });
            }
            let else_out = match f.else_body {
                Some(eb) => {
                    let ghost eb0 = eb;
                    proof {
                        assert(s == Statement::IfBlock(f_whole));
                        assert(decreases_to!(s => f_whole));
                        assert(decreases_to!(f_whole => f_whole.else_body));
                        assert(f_whole.else_body == Some(eb0));
                        assert(decreases_to!(f_whole.else_body => eb0));
                    }
                    Some(tag_block(eb))
                },
                None => None,
            };
            Statement::IfBlock(
                IfStatement {
                    clauses: out_clauses,
                    else_body: else_out,
                    line_number: f.line_number,
                },
            )
        },
        other => other,
    }
}

/// Tags every statement of a block: each line immediately before an option
/// set gains the marker; option bodies and `if` branches are walked
/// recursively as blocks of their own.
#[verifier::loop_isolation(false)]
pub fn tag_block(stmts: Vec<Statement>) -> (r: Vec<Statement>)
    ensures
        block_rel(stmts@, r@),
    decreases stmts,
{
    let ghost stmts_whole = stmts;
    let ghost orig = stmts@;
    let n = stmts.len();
    let mut rest = stmts;
    let mut out: Vec<Statement> = Vec::new();
    while rest.len() > 0
        invariant
            out@.len() + rest@.len() == orig.len(),
            rest@ =~= orig.subrange(out@.len() as int, orig.len() as int),
            forall|j: int|
                0 <= j < out@.len() ==> stmt_rel(#[trigger] orig[j], out@[j], follow_flag(orig, j)),
        decreases rest@.len(),
    {
        let ghost j = out@.len() as int;
        let followed_by_options = if rest.len() > 1 {
            match &rest[1] {
                Statement::Options(_) => true,
                _ => false,
            }
        } else {
            false
        };
        let followed = followed_by_options;
        let s = rest.remove(0);
        proof {
            assert(s == orig[j]);
            assert(rest@ =~= orig.subrange(j + 1, orig.len() as int));
            assert(followed == follow_flag(orig, j));
        }
        proof {
            assert(decreases_to!(stmts_whole => stmts_whole@));
            assert(orig == stmts_whole@);
            assert(decreases_to!(stmts_whole@ => stmts_whole@[j]));
        }
        let s2 = tag_statement(s, followed);
        out.push(s2);
        proof {
            assert(forall|q: int|
                0 <= q < out@.len() ==> stmt_rel(#[trigger] orig[q], out@[q], follow_flag(orig, q)));
        }
    }
    out
}

} // verus!
