//! End-to-end scenarios: source in, event sequence out.

use yarnspinner::compiler::Compiler;
use yarnspinner::library::Library;
use yarnspinner::storage::MemoryVariableStore;
use yarnspinner::types::Type;
use yarnspinner::value::Value;
use yarnspinner::vm::{DialogueEvent, ExecutionState, HostFunctions, RuntimeError, VirtualMachine};

struct PlainHost;

impl HostFunctions for PlainHost {
    fn call_function(&mut self, name: &str, parameters: Vec<Value>) -> Option<Value> {
        if name == "triplicate" {
            let s = parameters[0].to_text();
            Some(Value::Text(format!("{}{}{}", s, s, s)))
        } else {
            None
        }
    }
}

/// Runs a dialogue from the given node to completion, collecting every
/// event; panics if it needs a selection.
fn run_to_completion(vm: &mut VirtualMachine) -> Vec<DialogueEvent> {
    let mut host = PlainHost;
    let mut all = Vec::new();
    loop {
        let events = vm.continue_(&mut host).unwrap();
        let done = matches!(events.last(), Some(DialogueEvent::DialogueComplete));
        all.extend(events);
        if done {
            return all;
        }
    }
}

fn compile_and_start(source: &str, node: &str) -> (yarnspinner::compiler::Compilation, VirtualMachine) {
    let result = Compiler::from_test_source(source).compile().unwrap();
    let program = result.program.clone().unwrap();
    let mut vm = VirtualMachine::new(program, MemoryVariableStore::new(), Library::new());
    vm.start(node).unwrap();
    (result, vm)
}

fn text_of(result: &yarnspinner::compiler::Compilation, id: &str) -> String {
    result.string_table.get(id).unwrap().text.clone()
}

#[test]
fn two_lines_run_in_order_then_complete() {
    let (result, mut vm) = compile_and_start("title:Start\n---\nfoo\nbar\n===", "Start");
    let events = run_to_completion(&mut vm);
    assert_eq!(events.len(), 5);
    assert!(matches!(&events[0], DialogueEvent::NodeStart(n) if n == "Start"));
    match &events[1] {
        DialogueEvent::LineReady(id, subs) => {
            assert_eq!(text_of(&result, id), "foo");
            assert!(subs.is_empty());
        },
        other => panic!("expected a line, got {:?}", other),
    }
    match &events[2] {
        DialogueEvent::LineReady(id, _) => assert_eq!(text_of(&result, id), "bar"),
        other => panic!("expected a line, got {:?}", other),
    }
    assert!(matches!(&events[3], DialogueEvent::NodeComplete(n) if n == "Start"));
    assert!(matches!(&events[4], DialogueEvent::DialogueComplete));
}

#[test]
fn line_before_options_then_option_set() {
    let (result, mut vm) =
        compile_and_start("title:Start\n---\nhi #line:1\n-> a\n-> b\n===", "Start");
    let info = result.string_table.get("line:1").unwrap();
    assert!(info.metadata.contains(&"lastline".to_owned()));

    let mut host = PlainHost;
    let events = vm.continue_(&mut host).unwrap();
    match &events[1] {
        DialogueEvent::LineReady(id, _) => {
            assert_eq!(id, "line:1");
            assert_eq!(text_of(&result, id), "hi");
        },
        other => panic!("expected a line, got {:?}", other),
    }
    let events = vm.continue_(&mut host).unwrap();
    match &events[0] {
        DialogueEvent::OptionsReady(options) => {
            assert_eq!(options.len(), 2);
            assert_eq!(text_of(&result, &options[0].line_id), "a");
            assert_eq!(text_of(&result, &options[1].line_id), "b");
            assert!(options[0].enabled && options[1].enabled);
        },
        other => panic!("expected options, got {:?}", other),
    }
    assert_eq!(vm.state, ExecutionState::WaitingOnOptionSelection);
    vm.select_option(1).unwrap();
    let events = run_to_completion(&mut vm);
    assert!(matches!(events.last(), Some(DialogueEvent::DialogueComplete)));
}

#[test]
fn function_substitution_reaches_the_line() {
    let result = Compiler::from_test_source("title:Start\n---\nsay {triplicate(\"foo\")} now\n===")
        .compile()
        .unwrap();
    let mut library = Library::new();
    library.add_function("triplicate".to_string(), vec![Type::Any], Type::Text);
    let mut vm = VirtualMachine::new(
        result.program.clone().unwrap(),
        MemoryVariableStore::new(),
        library,
    );
    vm.start("Start").unwrap();
    let mut host = PlainHost;
    let events = vm.continue_(&mut host).unwrap();
    match &events[1] {
        DialogueEvent::LineReady(id, subs) => {
            assert_eq!(text_of(&result, id), "say {0} now");
            assert_eq!(subs[0].to_text(), "foofoofoo");
        },
        other => panic!("expected a line, got {:?}", other),
    }
}

#[test]
fn jump_moves_to_second_node() {
    let source = "title: Start\n---\nfirst\n<<jump Second>>\n===\ntitle: Second\n---\nsecond\n===\n";
    let (result, mut vm) = compile_and_start(source, "Start");
    let events = run_to_completion(&mut vm);
    let mut kinds = Vec::new();
    for e in &events {
        match e {
            DialogueEvent::NodeStart(n) => kinds.push(format!("start {}", n)),
            DialogueEvent::NodeComplete(n) => kinds.push(format!("complete {}", n)),
            DialogueEvent::LineReady(id, _) => kinds.push(format!("line {}", text_of(&result, id))),
            DialogueEvent::DialogueComplete => kinds.push("done".to_string()),
            other => panic!("unexpected event {:?}", other),
        }
    }
    assert_eq!(
        kinds,
        vec![
            "start Start",
            "line first",
            "complete Start",
            "start Second",
            "line second",
            "complete Second",
            "done",
        ]
    );
}

#[test]
fn expressions_compute_inside_lines() {
    let (result, mut vm) =
        compile_and_start("title:Start\n---\na {1 + 3} cool expression\n===", "Start");
    let mut host = PlainHost;
    let events = vm.continue_(&mut host).unwrap();
    match &events[1] {
        DialogueEvent::LineReady(id, subs) => {
            assert_eq!(text_of(&result, id), "a {0} cool expression");
            assert_eq!(subs[0].to_text(), "4");
        },
        other => panic!("expected a line, got {:?}", other),
    }
}

#[test]
fn if_blocks_choose_a_branch() {
    let source = "title:Start\n---\n<<declare $x = 2>>\n<<if $x > 1>>\nbig\n<<else>>\nsmall\n<<endif>>\n===";
    let (result, mut vm) = compile_and_start(source, "Start");
    let events = run_to_completion(&mut vm);
    let lines: Vec<String> = events
        .iter()
        .filter_map(|e| match e {
            DialogueEvent::LineReady(id, _) => Some(text_of(&result, id)),
            _ => None,
        })
        .collect();
    assert_eq!(lines, vec!["big"]);
}

#[test]
fn conditions_disable_options() {
    let source =
        "title:Start\n---\n-> open <<if true>>\n-> shut <<if false>>\n===";
    let (result, mut vm) = compile_and_start(source, "Start");
    let mut host = PlainHost;
    let events = vm.continue_(&mut host).unwrap();
    match events.last() {
        Some(DialogueEvent::OptionsReady(options)) => {
            assert_eq!(options.len(), 2);
            assert_eq!(text_of(&result, &options[0].line_id), "open");
            assert!(options[0].enabled);
            assert!(!options[1].enabled);
        },
        other => panic!("expected options, got {:?}", other),
    }
}

#[test]
fn start_unknown_node_errors() {
    let result = Compiler::from_test_source("title:Start\n---\nhello\n===").compile().unwrap();
    let mut vm = VirtualMachine::new(
        result.program.clone().unwrap(),
        MemoryVariableStore::new(),
        Library::new(),
    );
    assert_eq!(vm.start("Missing"), Err(RuntimeError::UnknownNode));
}

#[test]
fn continue_before_start_errors() {
    let result = Compiler::from_test_source("title:Start\n---\nhello\n===").compile().unwrap();
    let mut vm = VirtualMachine::new(
        result.program.clone().unwrap(),
        MemoryVariableStore::new(),
        Library::new(),
    );
    let mut host = PlainHost;
    assert!(matches!(vm.continue_(&mut host), Err(RuntimeError::NotStarted)));
}

#[test]
fn select_without_options_errors() {
    let result = Compiler::from_test_source("title:Start\n---\nhello\n===").compile().unwrap();
    let mut vm = VirtualMachine::new(
        result.program.clone().unwrap(),
        MemoryVariableStore::new(),
        Library::new(),
    );
    vm.start("Start").unwrap();
    assert_eq!(vm.select_option(0), Err(RuntimeError::NoOptions));
}

#[test]
fn select_out_of_range_errors() {
    let (_result, mut vm) =
        compile_and_start("title:Start\n---\n-> a\n-> b\n===", "Start");
    let mut host = PlainHost;
    vm.continue_(&mut host).unwrap();
    assert_eq!(vm.select_option(5), Err(RuntimeError::IndexOutOfRange));
}

#[test]
fn missing_function_is_reported() {
    let source = "title:Start\n---\n<<declare $x = \"s\">>\nsay {mystery($x)}\n===";
    let result = Compiler::from_test_source(source).compile().unwrap();
    let mut vm = VirtualMachine::new(
        result.program.clone().unwrap(),
        MemoryVariableStore::new(),
        Library::new(),
    );
    vm.start("Start").unwrap();
    let mut host = PlainHost;
    assert!(matches!(
        vm.continue_(&mut host),
        Err(RuntimeError::FunctionNotFound)
    ));
}

#[test]
fn stop_is_immediate_and_idempotent() {
    let (_result, mut vm) = compile_and_start("title:Start\n---\nhello\n===", "Start");
    let events = vm.stop();
    assert!(matches!(&events[0], DialogueEvent::DialogueComplete));
    assert_eq!(vm.state, ExecutionState::Stopped);
    let events = vm.stop();
    assert!(matches!(&events[0], DialogueEvent::DialogueComplete));
    let mut host = PlainHost;
    assert!(matches!(
        vm.continue_(&mut host),
        Err(RuntimeError::AlreadyComplete)
    ));
}
