use rs_vm::error::Error;
use rs_vm::location::Location;
use rs_vm::parser::{
    DumpLine, Keyword, Node, NodeKind, OpCode, Parser, ParserOption, Value, Variable, AST,
};
use rs_vm::script::{Script, ScriptState};
use rs_vm::vm::Vm;
use std::cell::RefCell;
use std::rc::Rc;

type Native = Box<dyn Fn(Vec<Value>) -> Result<Value, Error>>;

fn quiet() -> Native {
    Box::new(|_args| Ok(Value::Nil))
}

#[test]
fn op_code_names() {
    let var = || Variable::new("x".to_string(), Value::Integer(1));
    let names: Vec<String> = vec![
        OpCode::DeclareVariable("x".to_string()),
        OpCode::AssignVariable("x".to_string()),
        OpCode::FinishStatement,
        OpCode::DeclareFunction("f".to_string()),
        OpCode::StartFunctionParams,
        OpCode::AddFunctionParam(var()),
        OpCode::EndFunctionParams,
        OpCode::StartFunctionImpl,
        OpCode::EndFunctionImpl,
        OpCode::SetReturnType(var()),
        OpCode::CallFunction("f".to_string(), vec![var()]),
        OpCode::ReturnValue(Value::Nil),
    ]
    .iter()
    .map(|op| op.to_string())
    .collect();
    assert_eq!(
        names,
        vec![
            "declare_variable",
            "assign_variable",
            "finish_statement",
            "declare_function",
            "start_function_params",
            "add_function_param",
            "",
            "start_function_impl",
            "end_function_impl",
            "set_return_type",
            "call_function",
            "return_value",
        ]
    );
}

#[test]
fn listing_of_a_parsed_tree() {
    let mut script = Script::new("virtual://t", "t", Some("function f(a) { { } }"));
    let mut p = Parser::default();
    let ast = p.parse(&mut script).unwrap();
    let lines = ast.dump(0, 0);
    assert_eq!(
        lines,
        vec![
            DumpLine::Open { indent: 0, node: 0 },
            DumpLine::Open { indent: 1, node: 1 },
            DumpLine::Open { indent: 2, node: 2 },
            DumpLine::Open { indent: 3, node: 3 },
            DumpLine::Close { indent: 3 },
            DumpLine::Close { indent: 2 },
            DumpLine::Open { indent: 2, node: 4 },
            DumpLine::Leaf { indent: 3, node: 5 },
            DumpLine::Close { indent: 2 },
            DumpLine::Close { indent: 1 },
            DumpLine::Close { indent: 0 },
        ]
    );
    assert_eq!(p.dump(4, 7), ast.dump(4, 7));
    assert_eq!(
        ast.dump(5, 2),
        vec![DumpLine::Leaf { indent: 2, node: 5 }]
    );
}

#[test]
fn listing_goes_under_leaves_too() {
    let mut tree = AST::default();
    let leaf = tree.create_child(0, NodeKind::Leaf, Location::default());
    let inner = tree.create_child(leaf, NodeKind::Call, Location::default());
    assert_eq!(
        tree.dump(leaf, 1),
        vec![
            DumpLine::Leaf { indent: 1, node: leaf },
            DumpLine::Open { indent: 2, node: inner },
            DumpLine::Close { indent: 2 },
        ]
    );
}

#[test]
fn walk_visits_the_children_of_the_root() {
    let mut tree = AST::default();
    let a = tree.create_child(0, NodeKind::Function, Location::default());
    tree.create_child(a, NodeKind::FunctionImpl, Location::default());
    let b = tree.create_child(0, NodeKind::Call, Location::default());
    let seen: Rc<RefCell<Vec<usize>>> = Rc::new(RefCell::new(Vec::new()));
    let sink = seen.clone();
    tree.walk(move |id| sink.borrow_mut().push(id));
    assert_eq!(*seen.borrow(), vec![a, b]);
}

#[test]
fn add_child_takes_a_node_without_its_links() {
    let mut source = AST::default();
    let f = source.create_child(0, NodeKind::Function, Location::new("s", 5, 2, 3));
    source.create_child(f, NodeKind::FunctionImpl, Location::default());
    *source.name_mut(f) = Some("moved".to_string());
    let node: Node = source.node(f).clone();

    let mut tree = AST::default();
    let first = tree.create_child(0, NodeKind::Class, Location::default());
    let id = tree.add_child(first, node);
    assert_eq!(id, 2);
    assert_eq!(tree.len(), 3);
    assert_eq!(*tree.node(first).children(), vec![id]);
    let added = tree.node(id);
    assert_eq!(*added.parent(), Some(first));
    assert_eq!(added.children().len(), 0);
    assert_eq!(*added.kind(), NodeKind::Function);
    assert_eq!(*added.name(), Some("moved".to_string()));
    assert_eq!(*added.location(), Location::new("s", 5, 2, 3));
}

#[test]
fn console_machine_knows_println_and_print() {
    let vm: Vm<Native> = Vm::with_console("2.0", quiet(), quiet());
    assert_eq!(vm.version(), "2.0");
    assert_eq!(vm.native_index("println"), Some(0));
    assert_eq!(vm.native_index("print"), Some(1));
    assert_eq!(vm.native_index("printf"), None);
    assert_eq!(vm.scripts().len(), 0);
    assert_eq!(vm.asts().len(), 0);
}

#[test]
fn console_names_are_taken() {
    let mut vm: Vm<Native> = Vm::with_console("2.0", quiet(), quiet());
    assert!(vm.add_native_func("print", quiet()).is_err());
    assert!(vm.add_native_func("println", quiet()).is_err());
    assert!(vm.add_native_func("Print", quiet()).is_ok());
}

#[test]
fn scripts_are_found_by_name() {
    let mut vm: Vm<Native> = Vm::new("1");
    vm.add_script(Script::new("a.vm", "a", None));
    vm.add_script(Script::new("b.vm", "b", Some("x")));
    vm.add_script(Script::new("b2.vm", "b", Some("y")));
    assert_eq!(vm.script_index("a"), Some(0));
    assert_eq!(vm.script_index("b"), Some(1));
    assert_eq!(vm.script_index("c"), None);
    assert_eq!(vm.script("b").unwrap().path(), "b.vm");
    assert!(vm.script("c").is_none());
    vm.script_mut("b").unwrap().name_mut().push('!');
    assert_eq!(vm.script("b").unwrap().path(), "b2.vm");
    assert_eq!(vm.script("b!").unwrap().path(), "b.vm");
    assert!(vm.script_mut("zz").is_none());
}

#[test]
fn add_script_hands_the_script_back() {
    let mut vm: Vm<Native> = Vm::new("1");
    let s = vm.add_script(Script::new("a.vm", "a", None));
    *s.state_mut() = ScriptState::FINISHED;
    assert_eq!(*vm.scripts()[0].state(), ScriptState::FINISHED);
    vm.scripts_mut().push(Script::new("b.vm", "b", None));
    assert_eq!(vm.scripts().len(), 2);
}

#[test]
fn load_adds_a_loaded_script() {
    let mut vm: Vm<Native> = Vm::new("1");
    {
        let s = vm.load("dir/a.vm", "a", Ok("f();".to_string())).unwrap();
        assert_eq!(s.name(), "a");
        assert_eq!(s.path(), "dir/a.vm");
        assert_eq!(s.content(), Some(&"f();".to_string()));
        assert_eq!(*s.state(), ScriptState::LOADED);
    }
    assert_eq!(vm.scripts().len(), 1);
    match vm.load("dir/b.vm", "b", Err(Error::IO("gone".to_string()))) {
        Err(Error::IO(msg)) => assert_eq!(msg, "gone"),
        _ => panic!("expected an I/O error"),
    }
    assert_eq!(vm.scripts().len(), 1);
}

#[test]
fn prepare_then_execute_is_run() {
    let calls: Rc<RefCell<Vec<Vec<Value>>>> = Rc::new(RefCell::new(Vec::new()));
    let sink = calls.clone();
    let println: Native = Box::new(move |args| {
        sink.borrow_mut().push(args);
        Ok(Value::Nil)
    });
    let mut vm: Vm<Native> = Vm::with_console("1", println, quiet());
    vm.add_script(Script::new("virtual://t", "t", Some("println(\"Hello!\");")));
    let none = |_p: String| -> Result<String, Error> { Err(Error::IO("none".to_string())) };
    vm.prepare(&none).unwrap();
    assert_eq!(vm.asts().len(), 1);
    assert!(calls.borrow().is_empty());
    vm.execute().unwrap();
    assert_eq!(
        *calls.borrow(),
        vec![vec![Value::String("Hello!".to_string())]]
    );
}

#[test]
fn parser_fields_can_be_changed() {
    let mut p = Parser::default();
    p.keywords_mut().push(Keyword::Let);
    p.options_mut().push(ParserOption::Debug);
    *p.location_mut().line_mut() = 9;
    assert_eq!(*p.keywords(), vec![Keyword::Let]);
    assert!(p.has_option(ParserOption::Debug));
    assert_eq!(*p.location().line(), 9);
    p.reset();
    assert_eq!(p.keywords().len(), 0);
    assert_eq!(*p.location().line(), 1);
    assert!(p.has_option(ParserOption::Debug));
}

#[test]
fn locations_are_ordered_by_their_fields() {
    assert!(Location::new("a", 1, 1, 1) < Location::new("b", 0, 0, 0));
    assert!(Location::new("a", 1, 5, 1) < Location::new("a", 2, 1, 1));
    assert!(Location::new("a", 1, 1, 1) < Location::new("a", 1, 1, 2));
}
