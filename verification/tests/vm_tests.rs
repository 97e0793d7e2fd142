use rs_vm::error::Error;
use rs_vm::location::Location;
use rs_vm::parser::{NodeKind, Value, AST};
use rs_vm::script::{Script, ScriptState};
use rs_vm::vm::{NodeRef, Vm};
use std::cell::RefCell;
use std::rc::Rc;

type Native = Box<dyn Fn(Vec<Value>) -> Result<Value, Error>>;
type Log = Rc<RefCell<Vec<(String, Vec<Value>)>>>;

fn recorder(log: &Log, name: &str) -> Native {
    let log = log.clone();
    let name = name.to_string();
    Box::new(move |args: Vec<Value>| {
        log.borrow_mut().push((name.clone(), args));
        Ok(Value::Nil)
    })
}

fn no_loader(path: String) -> Result<String, Error> {
    Err(Error::IO(format!("cannot read {}", path)))
}

fn machine(log: &Log) -> Vm<Native> {
    let mut vm: Vm<Native> = Vm::new("1.2.3");
    vm.add_native_func("println", recorder(log, "println")).unwrap();
    vm.add_native_func("print", recorder(log, "print")).unwrap();
    vm
}

fn text(s: &str) -> Value {
    Value::String(s.to_string())
}

#[test]
fn native_dispatch() {
    let log: Log = Rc::new(RefCell::new(Vec::new()));
    let mut vm = machine(&log);
    vm.add_script(Script::new("virtual://t", "t", Some("println(\"Hello!\");")));
    vm.run(&no_loader).unwrap();
    assert_eq!(
        *log.borrow(),
        vec![("println".to_string(), vec![text("Hello!")])]
    );
}

#[test]
fn unknown_call_fails() {
    let log: Log = Rc::new(RefCell::new(Vec::new()));
    let mut vm = machine(&log);
    vm.add_script(Script::new("virtual://t", "t", Some("\nmissing(1);")));
    match vm.run(&no_loader) {
        Err(Error::Unknown(msg, Some(loc))) => {
            assert_eq!(msg, "Unknown function 'missing'");
            assert_eq!(loc, Location::new("t", 9, 2, 8));
        }
        _ => panic!("expected an unknown function error"),
    }
    assert!(log.borrow().is_empty());
}

#[test]
fn unknown_call_error_text() {
    let log: Log = Rc::new(RefCell::new(Vec::new()));
    let mut vm = machine(&log);
    vm.add_script(Script::new("virtual://t", "t", Some("nothing();")));
    let e = vm.run(&no_loader).unwrap_err();
    assert_eq!(e.to_string(), "Unknown: Unknown function 'nothing' at t:1");
}

#[test]
fn calls_before_an_unknown_call_are_carried_out() {
    let log: Log = Rc::new(RefCell::new(Vec::new()));
    let mut vm = machine(&log);
    vm.add_script(Script::new(
        "virtual://t",
        "t",
        Some("print(\"a\"); missing(); print(\"b\");"),
    ));
    assert!(vm.run(&no_loader).is_err());
    assert_eq!(*log.borrow(), vec![("print".to_string(), vec![text("a")])]);
}

#[test]
fn duplicate_native_registration_is_rejected() {
    let log: Log = Rc::new(RefCell::new(Vec::new()));
    let mut vm: Vm<Native> = Vm::new("1.2.3");
    vm.add_native_func("say", recorder(&log, "first")).unwrap();
    match vm.add_native_func("say", recorder(&log, "second")) {
        Err(Error::Unknown(msg, None)) => {
            assert_eq!(msg, "native function 'say' already registered")
        }
        _ => panic!("expected the second registration to fail"),
    }
    vm.add_script(Script::new("virtual://t", "t", Some("say(\"x\");")));
    vm.run(&no_loader).unwrap();
    assert_eq!(*log.borrow(), vec![("first".to_string(), vec![text("x")])]);
    assert_eq!(vm.native_index("say"), Some(0));
    assert_eq!(vm.native_index("other"), None);
}

#[test]
fn declared_function_is_found_and_not_carried_out() {
    let log: Log = Rc::new(RefCell::new(Vec::new()));
    let mut vm = machine(&log);
    vm.add_script(Script::new(
        "virtual://test_script",
        "test_script",
        Some(
            "
      function hello_world() {
        println(\"Hello!\");
      }

      function hello_world2(a) {
        println(a);
      }
      
      hello_world();
      hello_world2(\"test\");",
        ),
    ));
    vm.run(&no_loader).unwrap();
    assert_eq!(
        *log.borrow(),
        vec![
            ("println".to_string(), vec![text("Hello!")]),
            ("println".to_string(), vec![text("a")]),
        ]
    );
    assert_eq!(*vm.scripts()[0].state(), ScriptState::PARSED);
    assert_eq!(vm.asts().len(), 1);
}

#[test]
fn declared_function_hides_a_native_function() {
    let log: Log = Rc::new(RefCell::new(Vec::new()));
    let mut vm = machine(&log);
    vm.add_script(Script::new(
        "virtual://t",
        "t",
        Some("function print() { } print(\"x\");"),
    ));
    vm.run(&no_loader).unwrap();
    assert!(log.borrow().is_empty());
}

#[test]
fn functions_of_other_scripts_can_be_reached() {
    let log: Log = Rc::new(RefCell::new(Vec::new()));
    let mut vm = machine(&log);
    vm.add_script(Script::new("virtual://a", "a", Some("helper();")));
    vm.add_script(Script::new("virtual://b", "b", Some("function helper() { }")));
    vm.run(&no_loader).unwrap();
    assert_eq!(vm.asts().len(), 2);
}

#[test]
fn nested_functions_are_out_of_reach() {
    let log: Log = Rc::new(RefCell::new(Vec::new()));
    let mut vm = machine(&log);
    vm.add_script(Script::new(
        "virtual://t",
        "t",
        Some("{ function inner() { } } inner();"),
    ));
    match vm.run(&no_loader) {
        Err(Error::Unknown(msg, _)) => assert_eq!(msg, "Unknown function 'inner'"),
        _ => panic!("expected an unknown function error"),
    }
}

#[test]
fn native_error_stops_the_run() {
    let log: Log = Rc::new(RefCell::new(Vec::new()));
    let mut vm = machine(&log);
    let failing: Native = Box::new(|_args| Err(Error::Unknown("boom".to_string(), None)));
    vm.add_native_func("fail", failing).unwrap();
    vm.add_script(Script::new("virtual://t", "t", Some("fail(); print(\"after\");")));
    match vm.run(&no_loader) {
        Err(Error::Unknown(msg, None)) => assert_eq!(msg, "boom"),
        _ => panic!("expected the native error"),
    }
    assert!(log.borrow().is_empty());
}

#[test]
fn parameters_without_value_are_handed_over_as_nil() {
    let log: Log = Rc::new(RefCell::new(Vec::new()));
    let vm = {
        let mut vm = machine(&log);
        vm.add_script(Script::new("virtual://t", "t", Some("print(\"a\", \"b\");")));
        vm.prepare(&no_loader).unwrap();
        vm
    };
    let call = NodeRef { tree: 0, node: 1 };
    assert_eq!(vm.execute_function_call(call).unwrap(), Value::Nil);
    assert_eq!(
        *log.borrow(),
        vec![("print".to_string(), vec![text("a"), text("b")])]
    );
}

#[test]
fn native_result_is_handed_back() {
    let mut vm: Vm<Native> = Vm::new("1");
    let len: Native = Box::new(|args| Ok(Value::Integer(args.len() as i64)));
    vm.add_native_func("count", len).unwrap();
    vm.add_script(Script::new("virtual://t", "t", Some("count(a, b, c);")));
    vm.prepare(&no_loader).unwrap();
    let r = vm.execute_function_call(NodeRef { tree: 0, node: 1 });
    assert_eq!(r.unwrap(), Value::Integer(3));
}

#[test]
fn reachable_nodes_are_ancestors_then_top_level() {
    let mut vm: Vm<Native> = Vm::new("1");
    vm.add_script(Script::new(
        "virtual://a",
        "a",
        Some("function f() { g(); } function h() { }"),
    ));
    vm.add_script(Script::new("virtual://b", "b", Some("class { }")));
    vm.prepare(&no_loader).unwrap();
    let tree: &AST = &vm.asts()[0];
    assert_eq!(*tree.node(4).kind(), NodeKind::Call);
    let from = NodeRef { tree: 0, node: 4 };
    assert_eq!(
        vm.reachable_nodes(from),
        vec![
            NodeRef { tree: 0, node: 3 },
            NodeRef { tree: 0, node: 1 },
            NodeRef { tree: 0, node: 0 },
            NodeRef { tree: 0, node: 1 },
            NodeRef { tree: 0, node: 5 },
            NodeRef { tree: 1, node: 1 },
        ]
    );
}

#[test]
fn initial_scripts_are_loaded_by_the_loader() {
    let log: Log = Rc::new(RefCell::new(Vec::new()));
    let mut vm = machine(&log);
    vm.add_script(Script::new("mem/a.vm", "a", None));
    vm.add_script(Script::new("mem/b.vm", "b", Some("print(\"b\");")));
    let loader = |path: String| -> Result<String, Error> {
        if path == "mem/a.vm" {
            Ok("print(\"a\");".to_string())
        } else {
            Err(Error::IO("not found".to_string()))
        }
    };
    vm.run(&loader).unwrap();
    assert_eq!(
        *log.borrow(),
        vec![
            ("print".to_string(), vec![text("a")]),
            ("print".to_string(), vec![text("b")]),
        ]
    );
    assert_eq!(*vm.scripts()[0].state(), ScriptState::PARSED);
    assert_eq!(vm.scripts()[0].content(), Some(&"print(\"a\");".to_string()));
    assert_eq!(*vm.scripts()[1].state(), ScriptState::PARSED);
}

#[test]
fn a_script_that_cannot_be_loaded_stops_the_run() {
    let log: Log = Rc::new(RefCell::new(Vec::new()));
    let mut vm = machine(&log);
    vm.add_script(Script::new("virtual://first", "first", Some("print(\"x\");")));
    vm.add_script(Script::new("virtual://test_script", "test_script", None));
    match vm.run(&no_loader) {
        Err(Error::IO(msg)) => assert_eq!(msg, "cannot read virtual://test_script"),
        _ => panic!("expected an I/O error"),
    }
    assert!(log.borrow().is_empty());
    assert_eq!(*vm.scripts()[0].state(), ScriptState::PARSED);
    assert_eq!(*vm.scripts()[1].state(), ScriptState::INITIAL);
    assert_eq!(vm.asts().len(), 1);
}

#[test]
fn a_syntax_error_stops_the_run() {
    let log: Log = Rc::new(RefCell::new(Vec::new()));
    let mut vm = machine(&log);
    vm.add_script(Script::new("virtual://t", "t", Some("print(\"x\"); ,")));
    match vm.run(&no_loader) {
        Err(Error::Syntax(msg, _)) => assert_eq!(msg, "unexpected ','"),
        _ => panic!("expected a syntax error"),
    }
    assert!(log.borrow().is_empty());
    assert_eq!(vm.asts().len(), 0);
}

#[test]
fn parsed_scripts_are_not_parsed_again() {
    let log: Log = Rc::new(RefCell::new(Vec::new()));
    let mut vm = machine(&log);
    vm.add_script(Script::new("virtual://t", "t", Some("print(\"x\");")));
    vm.run(&no_loader).unwrap();
    vm.run(&no_loader).unwrap();
    assert_eq!(vm.asts().len(), 1);
    assert_eq!(log.borrow().len(), 2);
}

#[test]
fn machine_fields() {
    let mut vm: Vm<Native> = Vm::new("1.2.3");
    assert_eq!(vm.version(), "1.2.3");
    vm.version_mut().push_str("-dev");
    assert_eq!(vm.version(), "1.2.3-dev");
    vm.add_script(Script::new("virtual://a", "a", None));
    vm.add_script(Script::new("virtual://b", "b", Some("")));
    assert_eq!(vm.scripts().len(), 2);
    assert_eq!(vm.scripts()[1].name(), "b");
    vm.reset();
    assert_eq!(vm.scripts().len(), 0);
    assert_eq!(vm.version(), "1.2.3-dev");
}

#[test]
fn println_writes_the_text_and_a_line_break() {
    let out: Rc<RefCell<String>> = Rc::new(RefCell::new(String::new()));
    let write = |out: &Rc<RefCell<String>>, end: &'static str| -> Native {
        let out = out.clone();
        Box::new(move |args: Vec<Value>| {
            for a in args {
                match a {
                    Value::String(s) => out.borrow_mut().push_str(&s),
                    other => out.borrow_mut().push_str(&format!("{:?}", other)),
                }
            }
            out.borrow_mut().push_str(end);
            Ok(Value::Nil)
        })
    };
    let mut vm: Vm<Native> = Vm::with_console("1", write(&out, "\n"), write(&out, ""));
    vm.add_script(Script::new("virtual://t", "t", Some("println(\"Hello!\");")));
    assert!(vm.run(&no_loader).is_ok());
    assert_eq!(*out.borrow(), "Hello!\n");
}
