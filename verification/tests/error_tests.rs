//! One input for every error the compiler and the machine can report.

use yarnspinner::compiler::Compiler;
use yarnspinner::diagnostics::DiagnosticKind;
use yarnspinner::library::Library;
use yarnspinner::program::{Instruction, Node, Program};
use yarnspinner::storage::MemoryVariableStore;
use yarnspinner::types::Type;
use yarnspinner::value::Value;
use yarnspinner::vm::{DialogueEvent, HostFunctions, RuntimeError, VirtualMachine};

struct NullHost;

impl HostFunctions for NullHost {
    fn call_function(&mut self, name: &str, _parameters: Vec<Value>) -> Option<Value> {
        if name == "opaque" {
            Some(Value::Text("word".to_string()))
        } else {
            None
        }
    }
}

fn kinds_of(source: &str) -> Vec<DiagnosticKind> {
    match Compiler::from_test_source(source).compile() {
        Ok(c) => c.diagnostics.iter().map(|d| d.kind).collect(),
        Err(e) => e.diagnostics.iter().map(|d| d.kind).collect(),
    }
}

#[test]
fn type_mismatch_on_reassignment() {
    let kinds = kinds_of("title:Start\n---\n<<declare $x = 1>>\n<<set $x = \"word\">>\n===");
    assert!(kinds.contains(&DiagnosticKind::TypeMismatch));
}

#[test]
fn ambiguous_addition_of_two_unconstrained_values() {
    let kinds = kinds_of(
        "title:Start\n---\n<<declare $a = null>>\n<<declare $b = null>>\nsum {$a + $b} here\n===",
    );
    assert!(kinds.contains(&DiagnosticKind::AmbiguousType));
}

#[test]
fn invalid_escape_in_string_literal() {
    let kinds = kinds_of("title:Start\n---\n<<set $x = \"a\\q\">>\n===");
    assert!(kinds.contains(&DiagnosticKind::InvalidEscape));
}

#[test]
fn redeclaring_a_name_is_reserved() {
    let kinds = kinds_of("title:Start\n---\n<<declare $x = 1>>\n<<declare $x = 2>>\n===");
    assert!(kinds.contains(&DiagnosticKind::ReservedName));
}

#[test]
fn duplicate_node_kind_is_reported() {
    let kinds = kinds_of("title: A\n---\na\n===\ntitle: A\n---\nb\n===");
    assert!(kinds.contains(&DiagnosticKind::DuplicateNode));
}

#[test]
fn computed_jump_to_missing_node_stops_with_unknown_node() {
    let source =
        "title:Start\n---\n<<declare $t = \"Nowhere\">>\n<<jump {$t}>>\n===";
    let result = Compiler::from_test_source(source).compile().unwrap();
    let mut vm = VirtualMachine::new(
        result.program.clone().unwrap(),
        MemoryVariableStore::new(),
        Library::new(),
    );
    vm.start("Start").unwrap();
    let mut host = NullHost;
    assert!(matches!(
        vm.continue_(&mut host),
        Err(RuntimeError::UnknownNode)
    ));
}

#[test]
fn runtime_type_mismatch_from_host_value() {
    // The host function is declared unconstrained; its textual result
    // cannot be read as a number when the sum demands one.
    let source = "title:Start\n---\n<<declare $s = \"x\">>\nsum {opaque($s) + 1}\n===";
    let result = Compiler::from_test_source(source).compile().unwrap();
    let mut library = Library::new();
    library.add_function("opaque".to_string(), vec![Type::Any], Type::Any);
    let mut vm = VirtualMachine::new(
        result.program.clone().unwrap(),
        MemoryVariableStore::new(),
        library,
    );
    vm.start("Start").unwrap();
    let mut host = NullHost;
    assert!(matches!(
        vm.continue_(&mut host),
        Err(RuntimeError::TypeMismatch)
    ));
}

fn bare_node(instructions: Vec<Instruction>) -> Program {
    Program {
        nodes: vec![Node {
            name: "Start".to_string(),
            instructions,
            labels: Vec::new(),
            tags: Vec::new(),
            headers: Vec::new(),
            source_file: "hand.yarn".to_string(),
        }],
        initial_values: Vec::new(),
    }
}

#[test]
fn popping_an_empty_stack_underflows() {
    let program = bare_node(vec![Instruction::Pop, Instruction::Stop]);
    let mut vm = VirtualMachine::new(program, MemoryVariableStore::new(), Library::new());
    vm.start("Start").unwrap();
    let mut host = NullHost;
    assert!(matches!(
        vm.continue_(&mut host),
        Err(RuntimeError::StackUnderflow)
    ));
}

#[test]
fn backward_jump_is_refused() {
    let program = bare_node(vec![
        Instruction::PushNull,
        Instruction::Pop,
        Instruction::JumpTo(0),
        Instruction::Stop,
    ]);
    let mut vm = VirtualMachine::new(program, MemoryVariableStore::new(), Library::new());
    vm.start("Start").unwrap();
    let mut host = NullHost;
    assert!(matches!(
        vm.continue_(&mut host),
        Err(RuntimeError::InvalidJump)
    ));
}

#[test]
fn continuing_during_option_selection_is_refused() {
    let source = "title:Start\n---\n-> a\n-> b\n===";
    let result = Compiler::from_test_source(source).compile().unwrap();
    let mut vm = VirtualMachine::new(
        result.program.clone().unwrap(),
        MemoryVariableStore::new(),
        Library::new(),
    );
    vm.start("Start").unwrap();
    let mut host = NullHost;
    let events = vm.continue_(&mut host).unwrap();
    assert!(matches!(events.last(), Some(DialogueEvent::OptionsReady(_))));
    assert!(matches!(
        vm.continue_(&mut host),
        Err(RuntimeError::OptionSelectionPending)
    ));
}
