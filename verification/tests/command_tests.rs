//! Commands and host functions at run time: the wait convention and the
//! dispatch of commands and registered functions.

use yarnspinner::compiler::Compiler;
use yarnspinner::library::Library;
use yarnspinner::storage::MemoryVariableStore;
use yarnspinner::types::Type;
use yarnspinner::value::Value;
use yarnspinner::vm::{DialogueEvent, HostFunctions, VirtualMachine};

struct CommandHost {
    data: String,
}

impl HostFunctions for CommandHost {
    fn call_function(&mut self, name: &str, parameters: Vec<Value>) -> Option<Value> {
        if name == "triplicate_data" {
            let s = parameters[0].to_text();
            Some(Value::Text(format!("{}{}{}", s, s, s)))
        } else {
            None
        }
    }
}

fn line_text(result: &yarnspinner::compiler::Compilation, id: &str) -> String {
    result.string_table.get(id).unwrap().text.clone()
}

#[test]
fn waits_on_command() {
    let result = Compiler::from_test_source(
        "title: Start\n---\nStarting wait\n<<wait 1>>\nEnded wait\n===\n",
    )
    .compile()
    .unwrap();
    let program = result.program.clone().unwrap();
    let mut vm = VirtualMachine::new(program, MemoryVariableStore::new(), Library::new());
    let mut host = CommandHost { data: String::new() };
    vm.start("Start").unwrap();

    let events = vm.continue_(&mut host).unwrap();
    assert!(matches!(&events[0], DialogueEvent::NodeStart(n) if n == "Start"));
    match &events[1] {
        DialogueEvent::LineReady(id, subs) => {
            assert_eq!(line_text(&result, id), "Starting wait");
            assert!(subs.is_empty());
        },
        other => panic!("expected a line, got {:?}", other),
    }

    // The wait command is delivered to the host, which owns the timing;
    // the machine itself just waits for the next continue.
    let events = vm.continue_(&mut host).unwrap();
    match &events[0] {
        DialogueEvent::CommandReady(text) => assert_eq!(text, "wait 1"),
        other => panic!("expected a command, got {:?}", other),
    }

    let events = vm.continue_(&mut host).unwrap();
    match &events[0] {
        DialogueEvent::LineReady(id, _) => {
            assert_eq!(line_text(&result, id), "Ended wait");
        },
        other => panic!("expected a line, got {:?}", other),
    }

    let events = vm.continue_(&mut host).unwrap();
    assert!(matches!(&events[0], DialogueEvent::NodeComplete(n) if n == "Start"));
    assert!(matches!(&events[1], DialogueEvent::DialogueComplete));
}

#[test]
fn executes_commands_and_fns() {
    let source = "title: Start\n---\nSetting variable\n<<set $data = \"foo\">>\nCalling command\n<<set_data {$data}>>\nCalling function\nData three times is {triplicate_data($data)}\n<<unregistered method>>\n===\n";
    let result = Compiler::from_test_source(source).compile().unwrap();
    let program = result.program.clone().unwrap();
    let mut library = Library::new();
    library.add_function("triplicate_data".to_string(), vec![Type::Any], Type::Text);
    let mut vm = VirtualMachine::new(program, MemoryVariableStore::new(), library);
    let mut host = CommandHost { data: String::new() };
    vm.start("Start").unwrap();

    let events = vm.continue_(&mut host).unwrap();
    match &events[1] {
        DialogueEvent::LineReady(id, _) => {
            assert_eq!(line_text(&result, id), "Setting variable");
        },
        other => panic!("expected a line, got {:?}", other),
    }

    let events = vm.continue_(&mut host).unwrap();
    let data = vm.variable_storage().get("$data").unwrap();
    assert_eq!("foo", data.to_text().as_str());
    match &events[0] {
        DialogueEvent::LineReady(id, _) => {
            assert_eq!(line_text(&result, id), "Calling command");
        },
        other => panic!("expected a line, got {:?}", other),
    }

    let events = vm.continue_(&mut host).unwrap();
    match &events[0] {
        DialogueEvent::CommandReady(text) => {
            assert_eq!(text, "set_data foo");
            // The host runs the command.
            let mut parts = text.split(' ');
            assert_eq!(parts.next(), Some("set_data"));
            host.data = parts.next().unwrap().to_string();
        },
        other => panic!("expected a command, got {:?}", other),
    }
    assert_eq!("foo", host.data.as_str());

    let events = vm.continue_(&mut host).unwrap();
    match &events[0] {
        DialogueEvent::LineReady(id, _) => {
            assert_eq!(line_text(&result, id), "Calling function");
        },
        other => panic!("expected a line, got {:?}", other),
    }

    let events = vm.continue_(&mut host).unwrap();
    match &events[0] {
        DialogueEvent::LineReady(id, subs) => {
            let text = line_text(&result, id);
            assert_eq!(text, "Data three times is {0}");
            assert_eq!(subs[0].to_text(), "foofoofoo");
            let formatted = text.replace("{0}", &subs[0].to_text());
            assert_eq!(formatted, "Data three times is foofoofoo");
        },
        other => panic!("expected a line, got {:?}", other),
    }

    let events = vm.continue_(&mut host).unwrap();
    match &events[0] {
        DialogueEvent::CommandReady(text) => {
            assert_eq!(text, "unregistered method");
        },
        other => panic!("expected a command, got {:?}", other),
    }

    let events = vm.continue_(&mut host).unwrap();
    assert!(matches!(&events[0], DialogueEvent::NodeComplete(_)));
    assert!(matches!(&events[1], DialogueEvent::DialogueComplete));
}
