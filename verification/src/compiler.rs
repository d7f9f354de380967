//! The compiler: gathers source files, declarations and a function
//! library, and runs the pipeline — lexing, parsing, declaration
//! collection, type checking, last-line tagging, string table generation
//! and code generation — producing a program, a string table,
//! declarations and diagnostics.
//!
//! The compiler is pure: the same inputs yield the same outputs, and
//! diagnostics and bytecode do not depend on any unordered traversal.
//! Errors are accumulated and returned, never thrown; a program is only
//! returned when every file compiled without errors.

use vstd::prelude::*;
use crate::analysis::{Analyzer, check_node, collect_node, declarations_extended, declarations_from_library};
use crate::codegen::{CodeGen, finish_node, gen_stmt};
use crate::cst::CstNode;
use crate::diagnostics::{Diagnostic, DiagnosticKind, DiagnosticSeverity};
use crate::discipline::{node_disciplined, program_stack_discipline_ok};
use crate::library::{FunctionSignature, Library, runtime_library_seeded, runtime_library_shape};
use crate::program::{Node, Program, StringTable, node_targets_sound, program_wf};
use crate::strings::{StringPass, entry_from_tagged_line, entry_has_line_of_block, record_block, table_extended, table_from_tagging};
use crate::tagging::{block_rel, tag_block};
use crate::text::{push_char, str_eq, str_to_chars};
use crate::types::{Declaration, declaration_equiv, is_function_declaration, unify, unify_spec, value_type, value_type_spec};
use crate::value::{Value, value_eq};
use crate::vm::clone_value;

verus! {

broadcast use vstd::std_specs::vec::group_vec_axioms;

/// The contents of one file to compile.
#[derive(Debug)]
pub struct File {
    /// The file's name, for diagnostics and line provenance.
    pub file_name: String,
    /// The file's source code.
    pub source: String,
}

/// How far the compiler goes.
#[derive(Clone, Copy, Debug, PartialEq, Eq, Structural)]
pub enum CompilationType {
    /// Everything: program, string table and declarations.
    FullCompilation,
    /// Only the declarations found in the scripts.
    DeclarationsOnly,
    /// Only the string table.
    StringsOnly,
}

/// A failed compilation: the accumulated diagnostics, at least one of
/// which is an error.
#[derive(Debug)]
pub struct CompilerError {
    /// Everything the compiler reported.
    pub diagnostics: Vec<Diagnostic>,
}

/// A successful compilation.
#[derive(Debug)]
pub struct Compilation {
    /// The compiled program, for a full compilation.
    pub program: Option<Program>,
    /// The string table: line ids to text and metadata.
    pub string_table: StringTable,
    /// Every declaration known at the end: seeded, explicit and implicit.
    pub declarations: Vec<Declaration>,
    /// Warnings gathered along the way.
    pub diagnostics: Vec<Diagnostic>,
}

/// Whether the text holds a `---` header separator somewhere.
pub open spec fn has_body_separator(s: Seq<char>) -> bool {
    exists|i: int|
        0 <= i && i + 2 < s.len() && #[trigger] s[i] == '-' && s[i + 1] == '-' && s[i + 2] == '-'
}

/// What the returned declarations owe their seeding: the caller-supplied
/// declarations first, unchanged and in order; then the standard library's
/// twenty-two operator functions as function symbols; then the host
/// library's functions as function symbols, under their names and in
/// order. Collected script declarations follow after these.
pub open spec fn seeded_declarations(
    decls: Seq<Declaration>,
    vars: Seq<Declaration>,
    host: Seq<FunctionSignature>,
) -> bool {
    &&& decls.len() >= vars.len() + 22 + host.len()
    &&& forall|i: int| 0 <= i < vars.len() ==> declaration_equiv(#[trigger] decls[i], vars[i])
    &&& forall|j: int|
        0 <= j < 22 ==> is_function_declaration(#[trigger] decls[vars.len() + j])
    &&& standard_declaration_names(decls, vars.len() as int)
    &&& forall|j: int|
        0 <= j < host.len() ==> ((#[trigger] decls[vars.len() + 22 + j]).name@ == host[j].name@
            && is_function_declaration(decls[vars.len() + 22 + j]))
}

/// The standard library's function names, in registration order, at the
/// given offset of the declaration list.
pub open spec fn standard_declaration_names(decls: Seq<Declaration>, offset: int) -> bool {
    &&& decls[offset + 0].name@ == "Number.Add"@
    &&& decls[offset + 1].name@ == "Number.Subtract"@
    &&& decls[offset + 2].name@ == "Number.Multiply"@
    &&& decls[offset + 3].name@ == "Number.Divide"@
    &&& decls[offset + 4].name@ == "Number.Modulo"@
    &&& decls[offset + 5].name@ == "Number.UnaryMinus"@
    &&& decls[offset + 6].name@ == "Number.EqualTo"@
    &&& decls[offset + 7].name@ == "Number.NotEqualTo"@
    &&& decls[offset + 8].name@ == "Number.LessThan"@
    &&& decls[offset + 9].name@ == "Number.LessThanOrEqualTo"@
    &&& decls[offset + 10].name@ == "Number.GreaterThan"@
    &&& decls[offset + 11].name@ == "Number.GreaterThanOrEqualTo"@
    &&& decls[offset + 12].name@ == "String.Concat"@
    &&& decls[offset + 13].name@ == "String.EqualTo"@
    &&& decls[offset + 14].name@ == "String.NotEqualTo"@
    &&& decls[offset + 15].name@ == "Bool.EqualTo"@
    &&& decls[offset + 16].name@ == "Bool.NotEqualTo"@
    &&& decls[offset + 17].name@ == "Bool.And"@
    &&& decls[offset + 18].name@ == "Bool.Or"@
    &&& decls[offset + 19].name@ == "Bool.Not"@
    &&& decls[offset + 20].name@ == "Value.EqualTo"@
    &&& decls[offset + 21].name@ == "Value.NotEqualTo"@
}

/// Whether one initial value traces to a declaration of the same name
/// whose default it equals and whose declared type it fits.
pub open spec fn initial_value_declared(
    iv: Seq<(String, Value)>,
    j: int,
    decls: Seq<Declaration>,
) -> bool {
    exists|i: int|
        0 <= i < decls.len() && (#[trigger] decls[i]).name@ == iv[j].0@ && (match decls[i].default_value {
            Some(v) => value_eq(v, iv[j].1),
            None => false,
        }) && unify_spec(decls[i].declared_type, value_type_spec(iv[j].1)) is Some
}

/// Every initial value of the program traces to a returned declaration of
/// the same name, equals its default, and fits its declared type.
pub open spec fn initial_values_declared(
    iv: Seq<(String, Value)>,
    decls: Seq<Declaration>,
) -> bool {
    forall|j: int| 0 <= j < iv.len() ==> #[trigger] initial_value_declared(iv, j, decls)
}

proof fn lemma_seeded_carry(
    vars: Seq<Declaration>,
    host: Seq<FunctionSignature>,
    s0: Seq<Declaration>,
    s1: Seq<Declaration>,
)
    requires
        seeded_declarations(s0, vars, host),
        declarations_extended(s0, s1),
    ensures
        seeded_declarations(s1, vars, host),
{
    assert forall|i: int| 0 <= i < s0.len() implies s1[i] == s0[i] by {
        assert(s1.subrange(0, s0.len() as int)[i] == s1[i]);
    }
}

/// Whether some diagnostic is an error.
pub open spec fn has_error_diag(diags: Seq<Diagnostic>) -> bool {
    exists|i: int|
        0 <= i < diags.len() && (#[trigger] diags[i]).severity == DiagnosticSeverity::Error
}

fn any_error(diags: &Vec<Diagnostic>) -> (r: bool)
    ensures
        r == has_error_diag(diags@),
{
    let mut i: usize = 0;
    while i < diags.len()
        invariant
            i <= diags@.len(),
            forall|j: int|
                0 <= j < i ==> (#[trigger] diags@[j]).severity != DiagnosticSeverity::Error,
        decreases diags@.len() - i,
    {
        if diags[i].severity == DiagnosticSeverity::Error {
            return true;
        }
        i += 1;
    }
    false
}

fn append_diagnostics(dst: &mut Vec<Diagnostic>, src: Vec<Diagnostic>)
    ensures
        final(dst)@ == old(dst)@ + src@,
{
    let mut rest = src;
    let ghost all = rest@;
    while rest.len() > 0
        invariant
            dst@ + rest@ == old(dst)@ + all,
        decreases rest@.len(),
    {
        let d = rest.remove(0);
        dst.push(d);
        assert(dst@ + rest@ =~= old(dst)@ + all);
    }
    assert(dst@ =~= dst@ + rest@);
}

fn append_nodes(dst: &mut Vec<CstNode>, src: Vec<CstNode>) {
    let mut rest = src;
    while rest.len() > 0
        decreases rest@.len(),
    {
        let d = rest.remove(0);
        dst.push(d);
    }
}

fn clone_strings(v: &Vec<String>) -> (r: Vec<String>)
    ensures
        r@.len() == v@.len(),
{
    let mut out: Vec<String> = Vec::new();
    let mut i: usize = 0;
    while i < v.len()
        invariant
            i <= v@.len(),
            out@.len() == i,
        decreases v@.len() - i,
    {
        out.push(v[i].clone());
        i += 1;
    }
    out
}

/// Splits header text into whitespace-separated words.
fn split_words(text: &str) -> (r: Vec<String>) {
    let chars = str_to_chars(text);
    let n = chars.len();
    let mut out: Vec<String> = Vec::new();
    let mut current = String::new();
    let mut has_current = false;
    let mut i: usize = 0;
    while i < n
        invariant
            n == chars@.len(),
            i <= n,
        decreases n - i,
    {
        let c = chars[i];
        if c == ' ' || c == '\t' || c == '\r' {
            if has_current {
                out.push(current);
                current = String::new();
                has_current = false;
            }
        } else {
            push_char(&mut current, c);
            has_current = true;
        }
        i += 1;
    }
    if has_current {
        out.push(current);
    }
    out
}

fn name_taken(nodes: &Vec<Node>, name: &str) -> (r: bool)
    ensures
        r == (exists|i: int|
            0 <= i < nodes@.len() && (#[trigger] nodes@[i]).name@ == name@),
{
    let mut i: usize = 0;
    while i < nodes.len()
        invariant
            i <= nodes@.len(),
            forall|j: int| 0 <= j < i ==> (#[trigger] nodes@[j]).name@ != name@,
        decreases nodes@.len() - i,
    {
        if str_eq(nodes[i].name.as_str(), name) {
            return true;
        }
        i += 1;
    }
    false
}

/// Source code to compile with instructions on how to compile it; consume
/// it with `compile` to produce a `Compilation`.
#[derive(Debug)]
pub struct Compiler {
    /// The files to compile.
    pub files: Vec<File>,
    /// Declarations for functions the host registers.
    pub library: Library,
    /// How far compilation goes.
    pub compilation_type: CompilationType,
    /// Caller-supplied variable declarations.
    pub variable_declarations: Vec<Declaration>,
}

impl Compiler {
    /// Creates a compiler with default settings: no files, an empty
    /// library, no variable declarations, and a full compilation.
    pub fn new() -> (r: Self)
        ensures
            r.files@.len() == 0,
            r.library.functions@.len() == 0,
            r.variable_declarations@.len() == 0,
            r.compilation_type == CompilationType::FullCompilation,
    {
        Compiler {
            files: Vec::new(),
            library: Library::new(),
            compilation_type: CompilationType::FullCompilation,
            variable_declarations: Vec::new(),
        }
    }

    /// Adds a file to the compilation; nothing else changes.
    pub fn add_file(self, file: File) -> (r: Self)
        ensures
            r.files@ == self.files@.push(file),
            r.library == self.library,
            r.variable_declarations == self.variable_declarations,
            r.compilation_type == self.compilation_type,
    {
        let mut c = self;
        c.files.push(file);
        c
    }

    /// Adds several files to the compilation, in their given order;
    /// nothing else changes.
    pub fn add_files(self, files: Vec<File>) -> (r: Self)
        ensures
            r.files@ == self.files@ + files@,
            r.library == self.library,
            r.variable_declarations == self.variable_declarations,
            r.compilation_type == self.compilation_type,
    {
        let mut c = self;
        let mut rest = files;
        let ghost added = rest@;
        while rest.len() > 0
            invariant
                c.files@ + rest@ == self.files@ + added,
                c.library == self.library,
                c.variable_declarations == self.variable_declarations,
                c.compilation_type == self.compilation_type,
            decreases rest@.len(),
        {
            let f = rest.remove(0);
            c.files.push(f);
            assert(c.files@ + rest@ =~= self.files@ + added);
        }
        assert(c.files@ =~= c.files@ + rest@);
        c
    }

    /// Extends the function library with every entry of the given one, in
    /// order; nothing else changes. The standard library is always present
    /// at run time and need not be added.
    pub fn extend_library(self, library: Library) -> (r: Self)
        ensures
            r.library.functions@ == self.library.functions@ + library.functions@,
            r.files@ == self.files@,
            r.variable_declarations == self.variable_declarations,
            r.compilation_type == self.compilation_type,
    {
        let mut c = self;
        c.library.extend(library);
        c
    }

    /// Sets how far the compilation goes; nothing else changes.
    pub fn with_compilation_type(self, compilation_type: CompilationType) -> (r: Self)
        ensures
            r.compilation_type == compilation_type,
            r.files@ == self.files@,
            r.library == self.library,
            r.variable_declarations == self.variable_declarations,
    {
        let mut c = self;
        c.compilation_type = compilation_type;
        c
    }

    /// Adds a caller-supplied variable declaration, which `compile` seeds
    /// its known declarations with; nothing else changes.
    pub fn declare_variable(self, declaration: Declaration) -> (r: Self)
        ensures
            r.variable_declarations@ == self.variable_declarations@.push(declaration),
            r.files@ == self.files@,
            r.library == self.library,
            r.compilation_type == self.compilation_type,
    {
        let mut c = self;
        c.variable_declarations.push(declaration);
        c
    }

    /// Wraps test source into a compiler holding one file named
    /// `test.yarn`: source holding a `---` separator is taken as a whole
    /// file, anything else becomes the body of a node titled `Start`.
    pub fn from_test_source(source: &str) -> (r: Self)
        ensures
            r.files@.len() == 1,
            r.files@[0].file_name@ == "test.yarn"@,
            has_body_separator(source@) ==> r.files@[0].source@ == source@,
            !has_body_separator(source@) ==> r.files@[0].source@ == "title: Start\n---\n"@
                + source@ + "\n===\n"@,
            r.library.functions@.len() == 0,
            r.variable_declarations@.len() == 0,
            r.compilation_type == CompilationType::FullCompilation,
    {
        let chars = str_to_chars(source);
        let n = chars.len();
        let mut has_separator = false;
        let mut i: usize = 0;
        while i < n
            invariant
                n == chars@.len(),
                chars@ == source@,
                i <= n,
                has_separator == exists|j: int|
                    0 <= j < i && j + 2 < n && #[trigger] source@[j] == '-' && source@[j + 1]
                        == '-' && source@[j + 2] == '-',
            decreases n - i,
        {
            if chars[i] == '-' && i + 1 < n && chars[i + 1] == '-' && i + 2 < n && chars[i + 2]
                == '-' {
                has_separator = true;
            }
            i += 1;
        }
        proof {
            assert(has_separator == has_body_separator(source@));
        }
        let full_source = if has_separator {
            String::from_str(source)
        } else {
            let mut s = String::from_str("title: Start\n---\n");
            s.append(source);
            s.append("\n===\n");
            s
        };
        let file = File { file_name: String::from_str("test.yarn"), source: full_source };
        Compiler::new().add_file(file)
    }

    /// Compiles the files added so far.
    ///
    /// The compiler is a pure function of its inputs. On success no error
    /// was reported; a full compilation returns a program and the partial
    /// modes return none; an empty compilation always succeeds; every
    /// returned program is well formed — node names unique, every jump
    /// target and label inside its node — and keeps stack discipline
    /// against the registry a machine runs it with; and the returned
    /// declarations begin with the seeded ones: the caller's, then the
    /// standard library's, then the host library's. On failure the
    /// diagnostics hold at least one error.
    #[verifier::loop_isolation(false)]
    #[verifier::rlimit(100)]
    pub fn compile(&self) -> (r: Result<Compilation, CompilerError>)
        ensures
            r matches Ok(c) ==> !has_error_diag(c.diagnostics@),
            r matches Ok(c) ==> (c.program matches Some(p) ==> program_wf(p)),
            r matches Ok(c) ==> (self.compilation_type == CompilationType::FullCompilation
                ==> c.program is Some),
            r matches Ok(c) ==> (self.compilation_type == CompilationType::DeclarationsOnly
                ==> c.program is None),
            r matches Ok(c) ==> (self.compilation_type == CompilationType::StringsOnly
                ==> c.program is None),
            r matches Ok(c) ==> (c.program matches Some(p) ==> exists|lib: Library|
                runtime_library_seeded(lib, self.library) && (forall|i: int|
                    0 <= i < p.nodes@.len() ==> node_disciplined(#[trigger] p.nodes@[i], lib))),
            r matches Ok(c) ==> seeded_declarations(
                c.declarations@,
                self.variable_declarations@,
                self.library.functions@,
            ),
            r matches Ok(c) ==> table_from_tagging(c.string_table.entries@),
            r matches Ok(c) ==> (c.program matches Some(p) ==> initial_values_declared(
                p.initial_values@,
                c.declarations@,
            )),
            self.files@.len() == 0 && self.variable_declarations@.len() == 0 ==> r is Ok,
            r matches Err(e) ==> has_error_diag(e.diagnostics@),
    {
        broadcast use crate::analysis::lemma_extended_trans;

        let mut diagnostics: Vec<Diagnostic> = Vec::new();
        let mut all_nodes: Vec<CstNode> = Vec::new();
        let mut sources: Vec<(String, String)> = Vec::new();
        let mut fi: usize = 0;
        while fi < self.files.len()
            invariant
                fi <= self.files@.len(),
                fi == 0 ==> diagnostics@.len() == 0,
                fi == 0 ==> all_nodes@.len() == 0,
            decreases self.files@.len() - fi,
        {
            let file = &self.files[fi];
            let lexed = crate::lexer::lex(file.source.as_str(), file.file_name.as_str());
            append_diagnostics(&mut diagnostics, lexed.diagnostics);
            let (nodes, parse_diags) = crate::parser::parse_file(
                &lexed.tokens,
                file.file_name.as_str(),
                file.source.as_str(),
            );
            append_diagnostics(&mut diagnostics, parse_diags);
            append_nodes(&mut all_nodes, nodes);
            sources.push((file.file_name.clone(), file.source.clone()));
            fi += 1;
        }
        // Seed the known declarations: caller-supplied, then the standard
        // library's functions, then the host library's.
        let ghost diag_before_seeding = diagnostics@;
        let mut seeded: Vec<Declaration> = Vec::new();
        let mut vd: usize = 0;
        while vd < self.variable_declarations.len()
            invariant
                vd <= self.variable_declarations@.len(),
                self.variable_declarations@.len() == 0 ==> diagnostics@ == diag_before_seeding,
                seeded@.len() == vd,
                forall|i: int|
                    0 <= i < vd ==> declaration_equiv(
                        #[trigger] seeded@[i],
                        self.variable_declarations@[i],
                    ),
            decreases self.variable_declarations@.len() - vd,
        {
            let d = &self.variable_declarations[vd];
            match &d.default_value {
                Some(v) => {
                    if unify(d.declared_type, value_type(v)).is_none() {
                        let around = crate::diagnostics::lines_around(
                            find_source(&sources, d.source_file_name.as_str()).as_str(),
                            d.range.start.line,
                            2,
                        );
                        let bad = Diagnostic {
                            kind: DiagnosticKind::TypeMismatch,
                            severity: DiagnosticSeverity::Error,
                            message: String::from_str(
                                "this declaration's default value does not fit its declared type",
                            ),
                            file_name: d.source_file_name.clone(),
                            line: d.range.start.line,
                            column: d.range.start.character,
                            range: d.range,
                            context: around.lines,
                            first_line: around.first_line,
                        };
                        diagnostics.push(bad);
                    }
                },
                None => {},
            }
            seeded.push(
                Declaration {
                    name: d.name.clone(),
                    declared_type: d.declared_type,
                    default_value: match &d.default_value {
                        Some(v) => Some(clone_value(v)),
                        None => None,
                    },
                    source_file_name: d.source_file_name.clone(),
                    source_node_name: d.source_node_name.clone(),
                    range: d.range,
                    description: d.description.clone(),
                    is_implicit: d.is_implicit,
                },
            );
            vd += 1;
        }
        let ghost caller_seg = seeded@;
        let std_lib = crate::library::standard_library();
        let std_decls = declarations_from_library(&std_lib);
        let ghost std_seg = std_decls@;
        append_declarations(&mut seeded, std_decls);
        let host_decls = declarations_from_library(&self.library);
        let ghost host_seg = host_decls@;
        append_declarations(&mut seeded, host_decls);
        let ghost seeded0 = seeded@;
        proof {
            assert(seeded0 == caller_seg + std_seg + host_seg);
            let nv = self.variable_declarations@.len() as int;
            assert forall|i: int|
                0 <= i < nv implies declaration_equiv(
                #[trigger] seeded0[i],
                self.variable_declarations@[i],
            ) by {
                assert(seeded0[i] == caller_seg[i]);
            }
            assert forall|j: int| 0 <= j < 22 implies is_function_declaration(
                #[trigger] seeded0[nv + j],
            ) by {
                assert(seeded0[nv + j] == std_seg[j]);
            }
            assert forall|j: int| 0 <= j < 22 implies (#[trigger] seeded0[nv + j]).name@
                == std_lib.functions@[j].name@ by {
                assert(seeded0[nv + j] == std_seg[j]);
            }
            assert(standard_declaration_names(seeded0, nv));
            assert forall|j: int|
                0 <= j < self.library.functions@.len() implies ((
                #[trigger] seeded0[nv + 22 + j]).name@ == self.library.functions@[j].name@
                && is_function_declaration(seeded0[nv + 22 + j])) by {
                assert(seeded0[nv + 22 + j] == host_seg[j]);
            }
            assert(seeded_declarations(
                seeded0,
                self.variable_declarations@,
                self.library.functions@,
            ));
        }
        let vm_library = build_runtime_library(&self.library);
        let mut az = Analyzer {
            declarations: seeded,
            diagnostics: Vec::new(),
            file_name: String::new(),
            source: String::new(),
            node_name: String::new(),
            library: vm_library,
        };
        // Declaration collection, then type checking, across all files.
        proof {
            assert(az.declarations@.subrange(0, az.declarations@.len() as int)
                =~= az.declarations@);
        }
        let mut ni: usize = 0;
        while ni < all_nodes.len()
            invariant
                ni <= all_nodes@.len(),
                declarations_extended(seeded0, az.declarations@),
                self.files@.len() == 0 ==> az.diagnostics@.len() == 0,
            decreases all_nodes@.len() - ni,
        {
            let node = &all_nodes[ni];
            set_analyzer_position(&mut az, node, &sources);
            collect_node(node, &mut az);
            ni += 1;
        }
        let mut ci: usize = 0;
        while ci < all_nodes.len()
            invariant
                ci <= all_nodes@.len(),
                declarations_extended(seeded0, az.declarations@),
                self.files@.len() == 0 ==> az.diagnostics@.len() == 0,
            decreases all_nodes@.len() - ci,
        {
            let node = &all_nodes[ci];
            set_analyzer_position(&mut az, node, &sources);
            check_node(node, &mut az);
            ci += 1;
        }
        if self.compilation_type == CompilationType::DeclarationsOnly {
            append_diagnostics(&mut diagnostics, az.diagnostics);
            proof {
                lemma_seeded_carry(
                    self.variable_declarations@,
                    self.library.functions@,
                    seeded0,
                    az.declarations@,
                );
            }
            if any_error(&diagnostics) {
                return Err(CompilerError { diagnostics });
            }
            return Ok(
                Compilation {
                    program: None,
                    string_table: StringTable::new(),
                    declarations: az.declarations,
                    diagnostics,
                },
            );
        }
        // The node titles, for static jump checks.
        let mut titles: Vec<String> = Vec::new();
        let mut ti: usize = 0;
        while ti < all_nodes.len()
            invariant
                ti <= all_nodes@.len(),
            decreases all_nodes@.len() - ti,
        {
            titles.push(all_nodes[ti].title.clone());
            ti += 1;
        }
        // Tagging, string table and code generation, node by node.
        let mut table = StringTable::new();
        let mut built: Vec<Node> = Vec::new();
        let mut implicit_calls: Vec<(String, usize)> = Vec::new();
        let strings_only = self.compilation_type == CompilationType::StringsOnly;
        let mut rest = all_nodes;
        while rest.len() > 0
            invariant
                forall|i: int, j: int|
                    0 <= i < j < built@.len() ==> (#[trigger] built@[i]).name@ != (
                    #[trigger] built@[j]).name@,
                forall|i: int| 0 <= i < built@.len() ==> node_targets_sound(#[trigger] built@[i]),
                declarations_extended(seeded0, az.declarations@),
                table_from_tagging(table.entries@),
                self.files@.len() == 0 ==> az.diagnostics@.len() == 0,
                self.files@.len() == 0 ==> rest@.len() == 0,
                self.files@.len() == 0 ==> built@.len() == 0,
                self.files@.len() == 0 && self.variable_declarations@.len() == 0
                    ==> diagnostics@.len() == 0,
            decreases rest@.len(),
        {
            let node = rest.remove(0);
            let node_first_line = node.first_line;
            let title = node.title;
            let headers = node.headers;
            let source_file = node.source_file;
            let ghost body0 = node.body@;
            let tagged = tag_block(node.body);
            let ghost tagged0 = tagged@;
            let ghost t_before = table.entries@;
            let mut sp = StringPass {
                table,
                counter: 0,
                node_name: title.clone(),
                file_name: source_file.clone(),
            };
            let ghost name0 = sp.node_name;
            let ghost file0 = sp.file_name;
            let recorded = record_block(tagged, &mut sp);
            table = sp.table;
            proof {
                assert(block_rel(body0, tagged0));
                assert forall|q: int|
                    0 <= q < table.entries@.len() implies #[trigger] entry_from_tagged_line(
                    table.entries@[q],
                ) by {
                    if q < t_before.len() {
                        assert(table.entries@.subrange(0, t_before.len() as int)[q]
                            == table.entries@[q]);
                        assert(table.entries@[q] == t_before[q]);
                    } else {
                        assert(entry_has_line_of_block(
                            table.entries@,
                            q,
                            tagged0,
                            name0@,
                            file0@,
                        ));
                        let x = choose|x: crate::cst::LineStatement|
                            crate::strings::line_in_block(tagged0, x)
                                && crate::strings::entry_records(
                                table.entries@[q],
                                x,
                                name0@,
                                file0@,
                            );
                        let e = table.entries@[q];
                        assert(e.1.node_name@ == name0@ && e.1.file_name@ == file0@);
                        assert(crate::strings::entry_records(
                            e,
                            x,
                            e.1.node_name@,
                            e.1.file_name@,
                        ));
                        assert(entry_from_tagged_line(e));
                    }
                }
            }
            if !strings_only {
                let file_source = find_source(&sources, source_file.as_str());
                set_analyzer_source(&mut az, &source_file, &sources);
                az.node_name = title.clone();
                let mut g = CodeGen {
                    instructions: Vec::new(),
                    label_positions: Vec::new(),
                    label_defined: Vec::new(),
                    diagnostics: Vec::new(),
                    node_name: title.clone(),
                    file_name: source_file.clone(),
                    source: file_source,
                    node_names: clone_strings(&titles),
                    implicit_calls: Vec::new(),
                };
                let mut si: usize = 0;
                while si < recorded.len()
                    invariant
                        si <= recorded@.len(),
                        declarations_extended(seeded0, az.declarations@),
                    decreases recorded@.len() - si,
                {
                    gen_stmt(&recorded[si], &mut g, &mut az);
                    si += 1;
                }
                append_diagnostics(&mut diagnostics, g.diagnostics);
                g.diagnostics = Vec::new();
                let mut found_calls = g.implicit_calls;
                g.implicit_calls = Vec::new();
                while found_calls.len() > 0
                    invariant
                        declarations_extended(seeded0, az.declarations@),
                        self.files@.len() == 0 ==> az.diagnostics@.len() == 0,
                        self.files@.len() == 0 ==> diagnostics@.len() == 0,
                    decreases found_calls@.len(),
                {
                    let pair = found_calls.remove(0);
                    implicit_calls.push(pair);
                }
                let mut tags: Vec<String> = Vec::new();
                let mut hi: usize = 0;
                while hi < headers.len()
                    invariant
                        hi <= headers@.len(),
                    decreases headers@.len() - hi,
                {
                    if str_eq(headers[hi].0.as_str(), "tags") {
                        tags = split_words(headers[hi].1.as_str());
                    }
                    hi += 1;
                }
                let finished = finish_node(g, tags, headers);
                if name_taken(&built, finished.name.as_str()) {
                    let around = crate::diagnostics::lines_around(
                        find_source(&sources, finished.source_file.as_str()).as_str(),
                        node_first_line,
                        2,
                    );
                    let d = Diagnostic {
                        kind: DiagnosticKind::DuplicateNode,
                        severity: DiagnosticSeverity::Error,
                        message: String::from_str("two nodes share this title"),
                        file_name: finished.source_file.clone(),
                        line: node_first_line,
                        column: 0,
                        range: crate::diagnostics::point_range(node_first_line, 0),
                        context: around.lines,
                        first_line: around.first_line,
                    };
                    diagnostics.push(d);
                } else {
                    built.push(finished);
                }
            }
        }
        append_diagnostics(&mut diagnostics, az.diagnostics);
        az.diagnostics = Vec::new();
        // Initial values from every declaration that carries a default the
        // declared type admits; the program invariant demands the match.
        let mut initial_values: Vec<(String, Value)> = Vec::new();
        let mut di: usize = 0;
        while di < az.declarations.len()
            invariant
                di <= az.declarations@.len(),
                forall|j: int|
                    0 <= j < initial_values@.len() ==> #[trigger] initial_value_declared(
                        initial_values@,
                        j,
                        az.declarations@,
                    ),
            decreases az.declarations@.len() - di,
        {
            let d = &az.declarations[di];
            let mut accepted: Option<Value> = None;
            match &d.default_value {
                Some(v) => {
                    if unify(d.declared_type, value_type(v)).is_some() {
                        accepted = Some(clone_value(v));
                    }
                },
                None => {},
            }
            match accepted {
                Some(v) => {
                    let ghost before_iv = initial_values@;
                    initial_values.push((d.name.clone(), v));
                    proof {
                        assert forall|j: int|
                            0 <= j < initial_values@.len() implies #[trigger] initial_value_declared(
                            initial_values@,
                            j,
                            az.declarations@,
                        ) by {
                            if j < before_iv.len() {
                                assert(initial_values@[j] == before_iv[j]);
                                assert(initial_value_declared(before_iv, j, az.declarations@));
                                let i = choose|i: int|
                                    0 <= i < az.declarations@.len() && (
                                    #[trigger] az.declarations@[i]).name@ == before_iv[j].0@ && (
                                    match az.declarations@[i].default_value {
                                        Some(w) => value_eq(w, before_iv[j].1),
                                        None => false,
                                    }) && unify_spec(
                                        az.declarations@[i].declared_type,
                                        value_type_spec(before_iv[j].1),
                                    ) is Some;
                                assert(az.declarations@[i].name@ == initial_values@[j].0@ && (
                                match az.declarations@[i].default_value {
                                    Some(w) => value_eq(w, initial_values@[j].1),
                                    None => false,
                                }) && unify_spec(
                                    az.declarations@[i].declared_type,
                                    value_type_spec(initial_values@[j].1),
                                ) is Some);
                            } else {
                                assert(initial_values@[j] == initial_values@.last());
                                assert(az.declarations@[di as int].name@
                                    == initial_values@[j].0@ && (
                                match az.declarations@[di as int].default_value {
                                    Some(w) => value_eq(w, initial_values@[j].1),
                                    None => false,
                                }) && unify_spec(
                                    az.declarations@[di as int].declared_type,
                                    value_type_spec(initial_values@[j].1),
                                ) is Some);
                            }
                        }
                    }
                },
                None => {},
            }
            di += 1;
        }
        // The generated code is held to its own guarantee: every node must
        // pass the stack-discipline check against the registry a machine
        // runs it with — the seeded registry, grown with an implicit
        // signature for each function the scripts call without a
        // declaration. A failure is a fault of the compiler itself.
        let mut check_lib = build_runtime_library(&self.library);
        let mut ic: usize = 0;
        while ic < implicit_calls.len()
            invariant
                ic <= implicit_calls@.len(),
                runtime_library_seeded(check_lib, self.library),
            decreases implicit_calls@.len() - ic,
        {
            let ghost before = check_lib.functions@;
            if check_lib.get(implicit_calls[ic].0.as_str()).is_none() {
                let arity = implicit_calls[ic].1;
                let mut params: Vec<crate::types::Type> = Vec::new();
                let mut pk: usize = 0;
                while pk < arity
                    invariant
                        pk <= arity,
                        check_lib.functions@ == before,
                        runtime_library_seeded(check_lib, self.library),
                    decreases arity - pk,
                {
                    params.push(crate::types::Type::Any);
                    pk += 1;
                }
                let name = implicit_calls[ic].0.clone();
                check_lib.add_function(name, params, crate::types::Type::Any);
                proof {
                    crate::library::lemma_has_sig_extend(
                        before,
                        check_lib.functions@.subrange(
                            before.len() as int,
                            check_lib.functions@.len() as int,
                        ),
                    );
                    assert(check_lib.functions@ =~= before + check_lib.functions@.subrange(
                        before.len() as int,
                        check_lib.functions@.len() as int,
                    ));
                    assert forall|j: int|
                        0 <= j < self.library.functions@.len() implies {
                        &&& (#[trigger] check_lib.functions@[22 + j]).name@
                            == self.library.functions@[j].name@
                        &&& check_lib.functions@[22 + j].parameters@
                            == self.library.functions@[j].parameters@
                        &&& check_lib.functions@[22 + j].return_type
                            == self.library.functions@[j].return_type
                    } by {
                        assert(check_lib.functions@[22 + j] == before[22 + j]);
                    }
                }
            }
            ic += 1;
        }
        if !strings_only {
            if !program_stack_discipline_ok(&built, &check_lib) {
                let d = Diagnostic {
                    kind: DiagnosticKind::InternalError,
                    severity: DiagnosticSeverity::Error,
                    message: String::from_str(
                        "generated code failed its stack-discipline check",
                    ),
                    file_name: String::new(),
                    line: 0,
                    column: 0,
                    range: crate::diagnostics::point_range(0, 0),
                    context: String::new(),
                    first_line: 0,
                };
                diagnostics.push(d);
                proof {
                    assert(diagnostics@.last().severity == DiagnosticSeverity::Error);
                    assert(has_error_diag(diagnostics@));
                }
            }
        }
        proof {
            lemma_seeded_carry(
                self.variable_declarations@,
                self.library.functions@,
                seeded0,
                az.declarations@,
            );
        }
        if any_error(&diagnostics) {
            return Err(CompilerError { diagnostics });
        }
        let program = if strings_only {
            None
        } else {
            Some(Program { nodes: built, initial_values })
        };
        Ok(
            Compilation {
                program,
                string_table: table,
                declarations: az.declarations,
                diagnostics,
            },
        )
    }
}

fn append_declarations(dst: &mut Vec<Declaration>, src: Vec<Declaration>)
    ensures
        final(dst)@ == old(dst)@ + src@,
{
    let mut rest = src;
    let ghost all = rest@;
    while rest.len() > 0
        invariant
            dst@ + rest@ == old(dst)@ + all,
        decreases rest@.len(),
    {
        let d = rest.remove(0);
        dst.push(d);
        assert(dst@ + rest@ =~= old(dst)@ + all);
    }
    assert(dst@ =~= dst@ + rest@);
}

/// Builds the registry a machine runs with: the standard library followed
/// by the host library's signatures.
fn build_runtime_library(host: &Library) -> (r: Library)
    ensures
        crate::library::runtime_library_shape(r, *host),
{
    let mut lib = crate::library::standard_library();
    let ghost std_sigs = lib.functions@;
    let mut extra = Library::new();
    let mut li: usize = 0;
    while li < host.functions.len()
        invariant
            li <= host.functions@.len(),
            extra.functions@.len() == li,
            forall|j: int|
                0 <= j < li ==> {
                    &&& (#[trigger] extra.functions@[j]).name@ == host.functions@[j].name@
                    &&& extra.functions@[j].parameters@ == host.functions@[j].parameters@
                    &&& extra.functions@[j].return_type == host.functions@[j].return_type
                },
        decreases host.functions@.len() - li,
    {
        let sig = &host.functions[li];
        let mut params: Vec<crate::types::Type> = Vec::new();
        let mut pi: usize = 0;
        while pi < sig.parameters.len()
            invariant
                pi <= sig.parameters@.len(),
                li < host.functions@.len(),
                params@ == sig.parameters@.subrange(0, pi as int),
            decreases sig.parameters@.len() - pi,
        {
            params.push(sig.parameters[pi]);
            proof {
                assert(params@ =~= sig.parameters@.subrange(0, pi + 1));
            }
            pi += 1;
        }
        proof {
            assert(params@ =~= sig.parameters@);
        }
        extra.add_function(sig.name.clone(), params, sig.return_type);
        li += 1;
    }
    lib.extend(extra);
    proof {
        crate::library::lemma_has_sig_extend(std_sigs, extra.functions@);
    }
    lib
}

/// Finds a file's source text by name; empty when unknown.
fn find_source(sources: &Vec<(String, String)>, file_name: &str) -> (r: String) {
    let mut i: usize = 0;
    while i < sources.len()
        invariant
            i <= sources@.len(),
        decreases sources@.len() - i,
    {
        if str_eq(sources[i].0.as_str(), file_name) {
            return sources[i].1.clone();
        }
        i += 1;
    }
    String::new()
}

fn set_analyzer_position(az: &mut Analyzer, node: &CstNode, sources: &Vec<(String, String)>)
    ensures
        final(az).declarations == old(az).declarations,
        final(az).diagnostics == old(az).diagnostics,
{
    az.file_name = node.source_file.clone();
    az.source = find_source(sources, node.source_file.as_str());
    az.node_name = node.title.clone();
}

fn set_analyzer_source(az: &mut Analyzer, source_file: &String, sources: &Vec<(String, String)>)
    ensures
        final(az).declarations == old(az).declarations,
        final(az).diagnostics == old(az).diagnostics,
{
    az.file_name = source_file.clone();
    az.source = find_source(sources, source_file.as_str());
}

} // verus!
