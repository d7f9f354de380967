//! The compiled program: serialization round trips, stack discipline and
//! label soundness of generated code, and the collections and diagnostics
//! helpers.

use yarnspinner::codec::{deserialize_program, serialize_program};
use yarnspinner::collections::{Queue, Stack};
use yarnspinner::compiler::Compiler;
use yarnspinner::diagnostics::lines_around;
use yarnspinner::discipline::program_stack_discipline_ok;
use yarnspinner::library::standard_library;
use yarnspinner::program::Instruction;
use yarnspinner::storage::MemoryVariableStore;
use yarnspinner::value::Value;

fn compile_program(source: &str) -> yarnspinner::program::Program {
    Compiler::from_test_source(source)
        .compile()
        .unwrap()
        .program
        .unwrap()
}

#[test]
fn serialize_then_deserialize_is_identity() {
    let program = compile_program(
        "title:Start\n---\n<<declare $n = 3>>\nhello {$n} worlds\n-> a\n    nested\n-> b\n<<jump Second>>\n===\ntitle: Second\n---\nbye #tagged\n===",
    );
    let bytes = serialize_program(&program);
    let back = deserialize_program(&bytes).expect("a serialized program reads back");
    assert_eq!(back.nodes.len(), program.nodes.len());
    for (a, b) in program.nodes.iter().zip(back.nodes.iter()) {
        assert_eq!(a.name, b.name);
        assert_eq!(a.source_file, b.source_file);
        assert_eq!(a.instructions.len(), b.instructions.len());
        assert_eq!(a.labels, b.labels);
        assert_eq!(a.tags, b.tags);
        assert_eq!(a.headers, b.headers);
    }
    assert_eq!(back.initial_values.len(), program.initial_values.len());
    // The reread program re-serializes to the same bytes.
    let again = serialize_program(&back);
    assert_eq!(bytes, again);
}

#[test]
fn corrupted_bytes_are_rejected() {
    let program = compile_program("title:Start\n---\nhello\n===");
    let mut bytes = serialize_program(&program);
    let last = bytes.len() - 1;
    bytes[last] = bytes[last].wrapping_add(1);
    assert!(deserialize_program(&bytes).is_none());
    assert!(deserialize_program(&Vec::new()).is_none());
}

#[test]
fn generated_code_keeps_stack_discipline() {
    let program = compile_program(
        "title:Start\n---\n<<declare $x = 1>>\n<<if $x > 0>>\npositive {$x + 1} here\n<<else>>\nother\n<<endif>>\n-> a {$x}\n    <<set $x = $x + 1>>\n-> b\n<<jump Second>>\n===\ntitle: Second\n---\ndone\n===",
    );
    assert!(program_stack_discipline_ok(&program.nodes, &standard_library()));
}

#[test]
fn generated_jumps_stay_inside_their_node() {
    let program = compile_program(
        "title:Start\n---\n<<if true>>\na\n<<elseif false>>\nb\n<<else>>\nc\n<<endif>>\n-> x\n-> y\n===",
    );
    for node in &program.nodes {
        let len = node.instructions.len();
        for inst in &node.instructions {
            match inst {
                Instruction::JumpTo(t) => assert!(*t < len),
                Instruction::JumpIfFalse(t) => assert!(*t < len),
                Instruction::AddOption(_, d, _, _) => assert!(*d < len),
                _ => {},
            }
        }
        for (_, pc) in &node.labels {
            assert!(*pc < len);
        }
        assert!(matches!(node.instructions.last(), Some(Instruction::Stop)));
    }
}

#[test]
fn compiling_twice_gives_identical_output() {
    let source = "title:Start\n---\nhello {1 + 2} there\n-> a\n-> b\n===";
    let first = compile_program(source);
    let second = compile_program(source);
    assert_eq!(serialize_program(&first), serialize_program(&second));
}

#[test]
fn queue_is_first_in_first_out() {
    let mut q: Queue<i32> = Queue::new();
    q.enqueue(1);
    q.enqueue(2);
    q.enqueue(3);
    assert_eq!(q.dequeue(), Some(1));
    assert_eq!(q.dequeue(), Some(2));
    q.enqueue(4);
    assert_eq!(q.dequeue(), Some(3));
    assert_eq!(q.dequeue(), Some(4));
    assert_eq!(q.dequeue(), None);
}

#[test]
fn stack_is_first_in_last_out() {
    let mut s: Stack<i32> = Stack::new();
    s.push(1);
    s.push(2);
    assert_eq!(s.peek(), Some(&2));
    assert_eq!(s.pop(), Some(2));
    assert_eq!(s.pop(), Some(1));
    assert_eq!(s.pop(), None);
    assert_eq!(s.peek(), None);
}

#[test]
fn variable_store_reads_back_writes() {
    let mut store = MemoryVariableStore::new();
    assert!(store.get("$x").is_none());
    store.set("$x".to_string(), Value::Number(1));
    store.set("$y".to_string(), Value::Boolean(true));
    store.set("$x".to_string(), Value::Number(2));
    assert!(store.get("$x").unwrap().equals(&Value::Number(2)));
    assert!(store.get("$y").unwrap().equals(&Value::Boolean(true)));
    assert_eq!(store.len(), 2);
}

#[test]
fn context_lines_surround_the_position() {
    let source = "one\ntwo\nthree\nfour\nfive";
    let around = lines_around(source, 3, 1);
    assert_eq!(around.lines, "two\nthree\nfour");
    assert_eq!(around.first_line, 1);
    let around = lines_around(source, 1, 2);
    assert_eq!(around.lines, "one\ntwo\nthree");
    assert_eq!(around.first_line, 0);
    let around = lines_around(source, 5, 2);
    assert_eq!(around.lines, "three\nfour\nfive");
    assert_eq!(around.first_line, 2);
}

#[test]
fn standard_library_covers_every_operator() {
    let lib = standard_library();
    for name in [
        "Number.Add",
        "Number.Subtract",
        "Number.Multiply",
        "Number.Divide",
        "Number.Modulo",
        "Number.UnaryMinus",
        "Number.EqualTo",
        "Number.NotEqualTo",
        "Number.LessThan",
        "Number.LessThanOrEqualTo",
        "Number.GreaterThan",
        "Number.GreaterThanOrEqualTo",
        "String.Concat",
        "String.EqualTo",
        "String.NotEqualTo",
        "Bool.EqualTo",
        "Bool.NotEqualTo",
        "Bool.And",
        "Bool.Or",
        "Bool.Not",
        "Value.EqualTo",
        "Value.NotEqualTo",
    ] {
        assert!(lib.get(name).is_some(), "missing {}", name);
    }
    assert_eq!(lib.functions.len(), 22);
}
