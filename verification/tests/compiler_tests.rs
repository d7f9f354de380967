//! The compiler's public surface: building a compilation from files and
//! the shapes of its outputs.

use yarnspinner::compiler::{CompilationType, Compiler, File};
use yarnspinner::diagnostics::DiagnosticSeverity;
use yarnspinner::types::{Declaration, Position, SourceRange, Type};
use yarnspinner::value::Value;

#[test]
fn can_call_compile_empty_without_crash() {
    Compiler::new().compile().unwrap();
}

#[test]
fn can_call_compile_file_without_crash() {
    let file = File {
        file_name: "test.yarn".to_string(),
        source: "title: test
---
foo
bar
a {1 + 3} cool expression
==="
            .to_string(),
    };
    Compiler::new().add_file(file).compile().unwrap();
}

#[test]
fn compilation_produces_program_and_strings() {
    let file = File {
        file_name: "test.yarn".to_string(),
        source: "title: test\n---\nfoo\nbar\n===".to_string(),
    };
    let result = Compiler::new().add_file(file).compile().unwrap();
    let program = result.program.expect("a full compilation returns a program");
    assert_eq!(program.nodes.len(), 1);
    assert_eq!(program.nodes[0].name, "test");
    assert_eq!(result.string_table.len(), 2);
}

#[test]
fn declarations_only_returns_no_program() {
    let file = File {
        file_name: "test.yarn".to_string(),
        source: "title: test\n---\n<<declare $x = 42>>\n===".to_string(),
    };
    let result = Compiler::new()
        .add_file(file)
        .with_compilation_type(CompilationType::DeclarationsOnly)
        .compile()
        .unwrap();
    assert!(result.program.is_none());
    let decl = result
        .declarations
        .iter()
        .find(|d| d.name == "$x")
        .expect("the declaration is collected");
    assert!(!decl.is_implicit);
}

#[test]
fn caller_declarations_are_seeded_first() {
    let decl = Declaration {
        name: "$seeded".to_string(),
        declared_type: Type::Number,
        default_value: Some(Value::Number(7)),
        source_file_name: String::new(),
        source_node_name: String::new(),
        range: SourceRange {
            start: Position { line: 0, character: 0 },
            end: Position { line: 0, character: 0 },
        },
        description: String::new(),
        is_implicit: false,
    };
    let file = File {
        file_name: "test.yarn".to_string(),
        source: "title: test\n---\nvalue is {$seeded}\n===".to_string(),
    };
    let result = Compiler::new()
        .add_file(file)
        .declare_variable(decl)
        .compile()
        .unwrap();
    // The caller's declaration comes first, then the standard library's
    // twenty-two operator functions as function symbols.
    assert_eq!(result.declarations[0].name, "$seeded");
    assert!(result.declarations[0].default_value.as_ref().unwrap().equals(&Value::Number(7)));
    for j in 1..23 {
        assert_eq!(result.declarations[j].declared_type, Type::Function);
    }
    // The seeded default reaches the program's initial values.
    let program = result.program.unwrap();
    let seeded = program
        .initial_values
        .iter()
        .find(|(name, _)| name == "$seeded")
        .expect("the seeded variable has an initial value");
    assert!(seeded.1.equals(&Value::Number(7)));
}

#[test]
fn syntax_error_is_reported_not_thrown() {
    let result = Compiler::from_test_source("title:Start\n---\n<<set = 3>>\n===\n").compile();
    let error = result.err().expect("a bad set command fails the compilation");
    assert!(error
        .diagnostics
        .iter()
        .any(|d| d.severity == DiagnosticSeverity::Error));
}

#[test]
fn undeclared_variable_is_an_error() {
    let result = Compiler::from_test_source("title:Start\n---\n{$ghost}\n===\n").compile();
    assert!(result.is_err());
}

#[test]
fn duplicate_nodes_are_an_error() {
    let result = Compiler::from_test_source(
        "title: A\n---\nfirst\n===\ntitle: A\n---\nsecond\n===\n",
    )
    .compile();
    assert!(result.is_err());
}

#[test]
fn jump_to_missing_node_is_a_warning_only() {
    let result =
        Compiler::from_test_source("title:Start\n---\n<<jump Elsewhere>>\n===\n").compile();
    let compilation = result.unwrap();
    assert!(compilation
        .diagnostics
        .iter()
        .any(|d| d.severity == DiagnosticSeverity::Warning));
}
