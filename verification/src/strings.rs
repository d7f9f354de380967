//! The string table pass: renders each line's text with positional
//! placeholders for its interpolated expressions, assigns a line id where
//! the source gave none, and records text, provenance and metadata in the
//! string table. The rewritten tree carries the assigned ids for code
//! generation.

use vstd::prelude::*;
use crate::cst::{Fragment, IfStatement, LineStatement, OptionItem, Statement};
use crate::program::{StringInfo, StringTable};
use crate::text::{int_to_string, push_char};

verus! {

broadcast use vstd::std_specs::vec::group_vec_axioms;

/// Whether a line stands somewhere in a statement: as the statement
/// itself, as an option's line, or inside an option body or `if` branch.
pub open spec fn line_in_stmt(s: Statement, l: LineStatement) -> bool
    decreases s,
{
    match s {
        Statement::Line(x) => x == l,
        Statement::Options(opts) => exists|k: int|
            0 <= k < opts@.len() && ((#[trigger] opts@[k]).line == l || line_in_block(
                opts@[k].body@,
                l,
            )),
        Statement::IfBlock(f) => (exists|k: int|
            0 <= k < f.clauses@.len() && line_in_block((#[trigger] f.clauses@[k]).body@, l)) || (
        match f.else_body {
            Some(eb) => line_in_block(eb@, l),
            None => false,
        }),
        _ => false,
    }
}

/// Whether a line stands somewhere in a block.
pub open spec fn line_in_block(b: Seq<Statement>, l: LineStatement) -> bool
    decreases b,
{
    exists|i: int| 0 <= i < b.len() && line_in_stmt(#[trigger] b[i], l)
}

/// What one recorded entry owes the line it records: the metadata is
/// exactly the line's tags, the provenance is the pass's, and an explicit
/// line id is the entry's key.
pub open spec fn entry_records(
    e: (String, StringInfo),
    l: LineStatement,
    node_name: Seq<char>,
    file_name: Seq<char>,
) -> bool {
    &&& e.1.metadata@.len() == l.tags@.len()
    &&& forall|j: int| 0 <= j < l.tags@.len() ==> (#[trigger] e.1.metadata@[j])@ == l.tags@[j]@
    &&& e.1.line_number == l.line_number
    &&& e.1.node_name@ == node_name
    &&& e.1.file_name@ == file_name
    &&& (l.line_id matches Some(id) ==> e.0@ == id@)
}

/// One table entry traceable to the tagging pass: some parsed block, its
/// tagged form, and a line of the tagged form that the entry records,
/// under the entry's own provenance. Through `block_rel`, the recorded
/// line's tags — and so the entry's metadata — obey the last-line rules at
/// the line's position in its block.
pub open spec fn entry_from_tagged_line(e: (String, StringInfo)) -> bool {
    exists|b: Seq<Statement>, t: Seq<Statement>, x: LineStatement|
        crate::tagging::block_rel(b, t) && line_in_block(t, x) && entry_records(
            e,
            x,
            e.1.node_name@,
            e.1.file_name@,
        )
}

/// Every entry of the table is traceable to the tagging pass.
pub open spec fn table_from_tagging(entries: Seq<(String, StringInfo)>) -> bool {
    forall|q: int| 0 <= q < entries.len() ==> #[trigger] entry_from_tagged_line(entries[q])
}

/// The table only grows: what stood before still stands, in place.
pub open spec fn table_extended(
    before: Seq<(String, StringInfo)>,
    after: Seq<(String, StringInfo)>,
) -> bool {
    after.len() >= before.len() && after.subrange(0, before.len() as int) == before
}

/// Whether the table entry at `q` records some line of the statement.
pub open spec fn entry_has_line_of_stmt(
    entries: Seq<(String, StringInfo)>,
    q: int,
    s: Statement,
    node: Seq<char>,
    file: Seq<char>,
) -> bool {
    exists|x: LineStatement| line_in_stmt(s, x) && entry_records(entries[q], x, node, file)
}

/// Whether the table entry at `q` records some line of the block.
pub open spec fn entry_has_line_of_block(
    entries: Seq<(String, StringInfo)>,
    q: int,
    b: Seq<Statement>,
    node: Seq<char>,
    file: Seq<char>,
) -> bool {
    exists|x: LineStatement| line_in_block(b, x) && entry_records(entries[q], x, node, file)
}

/// Every entry of the table from position `lo` on records some line of
/// the statement.
pub open spec fn entries_record_stmt(
    entries: Seq<(String, StringInfo)>,
    lo: int,
    s: Statement,
    node: Seq<char>,
    file: Seq<char>,
) -> bool {
    forall|q: int|
        lo <= q < entries.len() ==> #[trigger] entry_has_line_of_stmt(entries, q, s, node, file)
}

/// Every entry of the table from position `lo` on records some line of
/// the block.
pub open spec fn entries_record_block(
    entries: Seq<(String, StringInfo)>,
    lo: int,
    b: Seq<Statement>,
    node: Seq<char>,
    file: Seq<char>,
) -> bool {
    forall|q: int|
        lo <= q < entries.len() ==> #[trigger] entry_has_line_of_block(entries, q, b, node, file)
}

proof fn lemma_records_one(
    t_head: Seq<(String, StringInfo)>,
    t_after: Seq<(String, StringInfo)>,
    lo: int,
    s: Statement,
    l: LineStatement,
    node: Seq<char>,
    file: Seq<char>,
)
    requires
        0 <= lo <= t_head.len(),
        table_extended(t_head, t_after),
        t_after.len() == t_head.len() + 1,
        entries_record_stmt(t_head, lo, s, node, file),
        entry_records(t_after.last(), l, node, file),
        line_in_stmt(s, l),
    ensures
        entries_record_stmt(t_after, lo, s, node, file),
{
    assert forall|q: int| lo <= q < t_after.len() implies #[trigger] entry_has_line_of_stmt(
        t_after,
        q,
        s,
        node,
        file,
    ) by {
        if q < t_head.len() {
            assert(t_after.subrange(0, t_head.len() as int)[q] == t_after[q]);
            assert(t_after[q] == t_head[q]);
            assert(entry_has_line_of_stmt(t_head, q, s, node, file));
            let x = choose|x: LineStatement|
                line_in_stmt(s, x) && entry_records(t_head[q], x, node, file);
            assert(line_in_stmt(s, x) && entry_records(t_after[q], x, node, file));
        } else {
            assert(t_after[q] == t_after.last());
            assert(line_in_stmt(s, l) && entry_records(t_after[q], l, node, file));
        }
    }
}

proof fn lemma_records_merge(
    t_head: Seq<(String, StringInfo)>,
    t_after: Seq<(String, StringInfo)>,
    lo: int,
    s: Statement,
    b: Seq<Statement>,
    node: Seq<char>,
    file: Seq<char>,
)
    requires
        0 <= lo <= t_head.len(),
        table_extended(t_head, t_after),
        entries_record_stmt(t_head, lo, s, node, file),
        entries_record_block(t_after, t_head.len() as int, b, node, file),
        forall|x: LineStatement| line_in_block(b, x) ==> line_in_stmt(s, x),
    ensures
        entries_record_stmt(t_after, lo, s, node, file),
{
    assert forall|q: int| lo <= q < t_after.len() implies #[trigger] entry_has_line_of_stmt(
        t_after,
        q,
        s,
        node,
        file,
    ) by {
        if q < t_head.len() {
            assert(t_after.subrange(0, t_head.len() as int)[q] == t_after[q]);
            assert(t_after[q] == t_head[q]);
            assert(entry_has_line_of_stmt(t_head, q, s, node, file));
            let x = choose|x: LineStatement|
                line_in_stmt(s, x) && entry_records(t_head[q], x, node, file);
            assert(line_in_stmt(s, x) && entry_records(t_after[q], x, node, file));
        } else {
            assert(entry_has_line_of_block(t_after, q, b, node, file));
            let x = choose|x: LineStatement|
                line_in_block(b, x) && entry_records(t_after[q], x, node, file);
            assert(line_in_stmt(s, x) && entry_records(t_after[q], x, node, file));
        }
    }
}

proof fn lemma_records_block_merge(
    t_head: Seq<(String, StringInfo)>,
    t_after: Seq<(String, StringInfo)>,
    lo: int,
    b: Seq<Statement>,
    j: int,
    node: Seq<char>,
    file: Seq<char>,
)
    requires
        0 <= lo <= t_head.len(),
        table_extended(t_head, t_after),
        entries_record_block(t_head, lo, b, node, file),
        0 <= j < b.len(),
        entries_record_stmt(t_after, t_head.len() as int, b[j], node, file),
    ensures
        entries_record_block(t_after, lo, b, node, file),
{
    assert forall|q: int| lo <= q < t_after.len() implies #[trigger] entry_has_line_of_block(
        t_after,
        q,
        b,
        node,
        file,
    ) by {
        if q < t_head.len() {
            assert(t_after.subrange(0, t_head.len() as int)[q] == t_after[q]);
            assert(t_after[q] == t_head[q]);
            assert(entry_has_line_of_block(t_head, q, b, node, file));
            let x = choose|x: LineStatement|
                line_in_block(b, x) && entry_records(t_head[q], x, node, file);
            assert(line_in_block(b, x) && entry_records(t_after[q], x, node, file));
        } else {
            assert(entry_has_line_of_stmt(t_after, q, b[j], node, file));
            let x = choose|x: LineStatement|
                line_in_stmt(b[j], x) && entry_records(t_after[q], x, node, file);
            assert(line_in_block(b, x) && entry_records(t_after[q], x, node, file));
        }
    }
}

/// Law: growth of the table composes.
pub broadcast proof fn lemma_table_extended_trans(
    a: Seq<(String, StringInfo)>,
    b: Seq<(String, StringInfo)>,
    c: Seq<(String, StringInfo)>,
)
    requires
        #[trigger] table_extended(a, b),
        #[trigger] table_extended(b, c),
    ensures
        table_extended(a, c),
{
    assert(c.subrange(0, a.len() as int) =~= c.subrange(0, b.len() as int).subrange(
        0,
        a.len() as int,
    ));
}

/// What the string table pass carries along: the table under construction,
/// the id counter, and the provenance written into each entry.
pub(crate) struct StringPass {
    /// The table under construction.
    pub table: StringTable,
    /// The number of generated ids so far, for fresh ids.
    pub counter: usize,
    /// The node whose lines are being recorded.
    pub node_name: String,
    /// The file the node came from.
    pub file_name: String,
}

impl StringPass {
    /// Builds a fresh generated line id: `line:<node>-<counter>`.
    fn fresh_id(&mut self) -> (r: String)
        ensures
            final(self).table == old(self).table,
            final(self).node_name == old(self).node_name,
            final(self).file_name == old(self).file_name,
    {
        let mut s = String::new();
        push_char(&mut s, 'l');
        push_char(&mut s, 'i');
        push_char(&mut s, 'n');
        push_char(&mut s, 'e');
        push_char(&mut s, ':');
        s.append(self.node_name.as_str());
        push_char(&mut s, '-');
        let num = int_to_string(if self.counter <= i64::MAX as usize {
            self.counter as i64
        } else {
            0
        });
        s.append(num.as_str());
        if self.counter < usize::MAX {
            self.counter = self.counter + 1;
        }
        s
    }

    /// Records one line in the table: one entry is appended whose metadata
    /// is exactly the line's tags, keyed by the line's id — a fresh
    /// generated id where it had none — and the line comes back with its
    /// id filled in and everything else kept.
    fn record_line(&mut self, line: LineStatement) -> (r: LineStatement)
        ensures
            final(self).table.entries@.len() == old(self).table.entries@.len() + 1,
            final(self).table.entries@.subrange(0, old(self).table.entries@.len() as int) == old(
                self,
            ).table.entries@,
            entry_records(
                final(self).table.entries@.last(),
                line,
                old(self).node_name@,
                old(self).file_name@,
            ),
            final(self).node_name == old(self).node_name,
            final(self).file_name == old(self).file_name,
            r.fragments == line.fragments,
            r.tags == line.tags,
            r.line_number == line.line_number,
            r.line_id is Some,
            line.line_id matches Some(id) ==> (r.line_id matches Some(rid) && rid@ == id@),
    {
        let id = match &line.line_id {
            Some(s) => s.clone(),
            None => self.fresh_id(),
        };
        let (text, _subs) = render_fragments(&line.fragments);
        let mut metadata: Vec<String> = Vec::new();
        let mut i: usize = 0;
        while i < line.tags.len()
            invariant
                i <= line.tags@.len(),
                metadata@.len() == i,
                forall|j: int| 0 <= j < i ==> (#[trigger] metadata@[j])@ == line.tags@[j]@,
            decreases line.tags@.len() - i,
        {
            metadata.push(line.tags[i].clone());
            i += 1;
        }
        let info = StringInfo {
            text,
            node_name: self.node_name.clone(),
            line_number: line.line_number,
            file_name: self.file_name.clone(),
            metadata,
        };
        self.table.insert(id.clone(), info);
        proof {
            assert(self.table.entries@.subrange(0, old(self).table.entries@.len() as int)
                =~= old(self).table.entries@);
        }
        LineStatement {
            fragments: line.fragments,
            tags: line.tags,
            line_id: Some(id),
            line_number: line.line_number,
        }
    }
}

/// Renders fragments: literal text kept, each interpolation replaced by
/// its positional `{i}` placeholder. Returns the text and the substitution
/// count.
pub(crate) fn render_fragments(fragments: &Vec<Fragment>) -> (r: (String, usize))
    ensures
        r.1 <= fragments@.len(),
{
    let mut text = String::new();
    let mut subs: usize = 0;
    let mut i: usize = 0;
    while i < fragments.len()
        invariant
            i <= fragments@.len(),
            subs <= i,
        decreases fragments@.len() - i,
    {
        match &fragments[i] {
            Fragment::Text(s) => {
                text.append(s.as_str());
            },
            Fragment::Interp(_) => {
                push_char(&mut text, '{');
                let num = int_to_string(if subs <= i64::MAX as usize {
                    subs as i64
                } else {
                    0
                });
                text.append(num.as_str());
                push_char(&mut text, '}');
                subs += 1;
            },
        }
        i += 1;
    }
    (text, subs)
}

/// Records the lines of one statement, filling in assigned ids. The
/// table only grows, the pass's provenance is kept, and every appended
/// entry records a line of the statement: its metadata is that line's
/// tags, under that line's id where it had one.
#[verifier::loop_isolation(false)]
fn record_statement(s: Statement, sp: &mut StringPass) -> (r: Statement)
    ensures
        table_extended(old(sp).table.entries@, final(sp).table.entries@),
        final(sp).node_name == old(sp).node_name,
        final(sp).file_name == old(sp).file_name,
        entries_record_stmt(
            final(sp).table.entries@,
            old(sp).table.entries@.len() as int,
            s,
            old(sp).node_name@,
            old(sp).file_name@,
        ),
    decreases s,
{
    broadcast use lemma_table_extended_trans;

    let ghost entries0 = sp.table.entries@;
    let ghost node0 = sp.node_name;
    let ghost file0 = sp.file_name;
    proof {
        assert(entries0.subrange(0, entries0.len() as int) =~= entries0);
        assert(entries_record_stmt(entries0, entries0.len() as int, s, node0@, file0@));
    }
    match s {
        Statement::Line(l) => {
            let ghost l0 = l;
            let ghost t_head = sp.table.entries@;
            let rl = sp.record_line(l);
            proof {
                assert(table_extended(t_head, sp.table.entries@));
                assert(s == Statement::Line(l0));
                assert(line_in_stmt(s, l0));
                lemma_records_one(
                    t_head,
                    sp.table.entries@,
                    entries0.len() as int,
                    s,
                    l0,
                    node0@,
                    file0@,
                );
            }
            Statement::Line(rl)
        },
        Statement::Options(opts) => {
            let ghost opts_whole = opts;
            let ghost opts0 = opts@;
            let mut rest = opts;
            let mut out: Vec<OptionItem> = Vec::new();
            while rest.len() > 0
                invariant
                    out@.len() + rest@.len() == opts0.len(),
                    rest@ =~= opts0.subrange(out@.len() as int, opts0.len() as int),
                    table_extended(entries0, sp.table.entries@),
                    sp.node_name == node0,
                    sp.file_name == file0,
                    entries_record_stmt(
                        sp.table.entries@,
                        entries0.len() as int,
                        s,
                        node0@,
                        file0@,
                    ),
                decreases rest@.len(),
            {
                let ghost k = out@.len() as int;
                let item = rest.remove(0);
                let ghost item_line0 = item.line;
                let ghost item_body0 = item.body;
                proof {
                    assert(item == opts0[k]);
                    assert(rest@ =~= opts0.subrange(k + 1, opts0.len() as int));
                    assert(s == Statement::Options(opts_whole));
                    assert(decreases_to!(s => opts_whole));
                    assert(decreases_to!(opts_whole => opts_whole@));
                    assert(opts0 == opts_whole@);
                    assert(decreases_to!(opts_whole@ => opts_whole@[k]));
                    assert(decreases_to!(opts_whole@[k] => opts_whole@[k].body));
                }
                let ghost t_head = sp.table.entries@;
                let line = sp.record_line(item.line);
                proof {
                    assert(table_extended(t_head, sp.table.entries@));
                    assert(opts_whole@[k].line == item_line0);
                    assert(line_in_stmt(s, item_line0));
                    lemma_records_one(
                        t_head,
                        sp.table.entries@,
                        entries0.len() as int,
                        s,
                        item_line0,
                        node0@,
                        file0@,
                    );
                }
                let ghost t_mid = sp.table.entries@;
                let body = record_block(item.body, sp);
                proof {
                    assert forall|x: LineStatement|
                        line_in_block(item_body0@, x) implies line_in_stmt(s, x) by {
                        assert(opts_whole@[k].body == item_body0);
                    }
                    lemma_records_merge(
                        t_mid,
                        sp.table.entries@,
                        entries0.len() as int,
                        s,
                        item_body0@,
                        node0@,
                        file0@,
                    );
                }
                out.push(OptionItem { line, condition: item.condition, body });
            }
            Statement::Options(out)
        },
        Statement::IfBlock(f) => {
            let ghost f_whole = f;
            let mut rest = f.clauses;
            let ghost clauses0 = rest@;
            let mut out_clauses: Vec<crate::cst::IfClause> = Vec::new();
            while rest.len() > 0
                invariant
                    out_clauses@.len() + rest@.len() == clauses0.len(),
                    rest@ =~= clauses0.subrange(out_clauses@.len() as int, clauses0.len() as int),
                    table_extended(entries0, sp.table.entries@),
                    sp.node_name == node0,
                    sp.file_name == file0,
                    entries_record_stmt(
                        sp.table.entries@,
                        entries0.len() as int,
                        s,
                        node0@,
                        file0@,
                    ),
                decreases rest@.len(),
            {
                let ghost k = out_clauses@.len() as int;
                let clause = rest.remove(0);
                let ghost clause_body0 = clause.body;
                proof {
                    assert(clause == clauses0[k]);
                    assert(rest@ =~= clauses0.subrange(k + 1, clauses0.len() as int));
                    assert(s == Statement::IfBlock(f_whole));
                    assert(decreases_to!(s => f_whole));
                    assert(decreases_to!(f_whole => f_whole.clauses));
                    assert(decreases_to!(f_whole.clauses => f_whole.clauses@));
                    assert(clauses0 == f_whole.clauses@);
                    assert(decreases_to!(f_whole.clauses@ => f_whole.clauses@[k]));
                    assert(decreases_to!(f_whole.clauses@[k] => f_whole.clauses@[k].body));
                }
                let ghost t_head = sp.table.entries@;
                let body = record_block(clause.body, sp);
                proof {
                    assert forall|x: LineStatement|
                        line_in_block(clause_body0@, x) implies line_in_stmt(s, x) by {
                        assert(f_whole.clauses@[k].body == clause_body0);
                    }
                    lemma_records_merge(
                        t_head,
                        sp.table.entries@,
                        entries0.len() as int,
                        s,
                        clause_body0@,
                        node0@,
                        file0@,
                    );
                }
                out_clauses.push(crate::cst::IfClause { condition: clause.condition, body });
            }
            let else_out = match f.else_body {
                Some(eb) => {
                    let ghost eb0 = eb;
                    let ghost t_head = sp.table.entries@;
                    proof {
                        assert(s == Statement::IfBlock(f_whole));
                        assert(decreases_to!(s => f_whole));
                        assert(decreases_to!(f_whole => f_whole.else_body));
                        assert(f_whole.else_body == Some(eb0));
                        assert(decreases_to!(f_whole.else_body => eb0));
                    }
                    let recorded_else = record_block(eb, sp);
                    proof {
                        assert forall|x: LineStatement|
                            line_in_block(eb0@, x) implies line_in_stmt(s, x) by {
                            assert(f_whole.else_body == Some(eb0));
                        }
                        lemma_records_merge(
                            t_head,
                            sp.table.entries@,
                            entries0.len() as int,
                            s,
                            eb0@,
                            node0@,
                            file0@,
                        );
                    }
                    Some(recorded_else)
                },
                None => None,
            };
            Statement::IfBlock(
                IfStatement {
                    clauses: out_clauses,
                    else_body: else_out,
                    line_number: f.line_number,
                },
            )
        },
        other => other,
    }
}

/// Records the lines of a whole block, filling in assigned ids. The table
/// only grows, the pass's provenance is kept, and every appended entry
/// records a line of the block.
#[verifier::loop_isolation(false)]
pub(crate) fn record_block(stmts: Vec<Statement>, sp: &mut StringPass) -> (r: Vec<Statement>)
    ensures
        table_extended(old(sp).table.entries@, final(sp).table.entries@),
        final(sp).node_name == old(sp).node_name,
        final(sp).file_name == old(sp).file_name,
        entries_record_block(
            final(sp).table.entries@,
            old(sp).table.entries@.len() as int,
            stmts@,
            old(sp).node_name@,
            old(sp).file_name@,
        ),
    decreases stmts,
{
    broadcast use lemma_table_extended_trans;

    let ghost stmts_whole = stmts;
    let ghost orig = stmts@;
    let ghost entries0 = sp.table.entries@;
    let ghost node0 = sp.node_name;
    let ghost file0 = sp.file_name;
    proof {
        assert(entries0.subrange(0, entries0.len() as int) =~= entries0);
        assert(entries_record_block(entries0, entries0.len() as int, orig, node0@, file0@));
    }
    let mut rest = stmts;
    let mut out: Vec<Statement> = Vec::new();
    while rest.len() > 0
        invariant
            out@.len() + rest@.len() == orig.len(),
            rest@ =~= orig.subrange(out@.len() as int, orig.len() as int),
            table_extended(entries0, sp.table.entries@),
            sp.node_name == node0,
            sp.file_name == file0,
            entries_record_block(sp.table.entries@, entries0.len() as int, orig, node0@, file0@),
        decreases rest@.len(),
    {
        let ghost j = out@.len() as int;
        let ghost t_head = sp.table.entries@;
        let s = rest.remove(0);
        let ghost s0 = s;
        proof {
            assert(s == orig[j]);
            assert(rest@ =~= orig.subrange(j + 1, orig.len() as int));
            assert(decreases_to!(stmts_whole => stmts_whole@));
            assert(orig == stmts_whole@);
            assert(decreases_to!(stmts_whole@ => stmts_whole@[j]));
        }
        let s2 = record_statement(s, sp);
        proof {
            lemma_records_block_merge(
                t_head,
                sp.table.entries@,
                entries0.len() as int,
                orig,
                j,
                node0@,
                file0@,
            );
        }
        out.push(s2);
    }
    out
}

} // verus!
