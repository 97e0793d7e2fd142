use rs_vm::error::Error;
use rs_vm::parser::{Keyword, NodeKind, Parser, ParserOption, Value, AST};
use rs_vm::script::{Script, ScriptState};

fn parse(text: &str) -> Result<AST, Error> {
    let mut script = Script::new("virtual://test", "test", Some(text));
    let mut p = Parser::default();
    p.parse(&mut script)
}

#[test]
fn function_parsing_works() {
    let mut script = Script::new(
        "virtual://test",
        "test",
        Some("function hello(p1, p2) {\n\t\"\";}"),
    );
    let mut p = Parser::default();
    let ast = p.parse(&mut script).unwrap();
    let root = ast.root();
    assert!(ast.node(root).children().len() > 0);
    assert_ne!(ast.node(root).children().first(), None);
    let func = ast.node(*ast.node(root).children().first().unwrap()).clone();
    assert_eq!(*func.kind(), NodeKind::Function);
    assert_eq!(*func.name(), Some("hello".into()));
    assert_eq!(func.children().len(), 2);
    let func_args = func.children().get(0);
    assert_ne!(func_args, None);
    let func_args = ast.node(*func_args.unwrap());
    assert_eq!(*func_args.kind(), NodeKind::FunctionParams);
    // check param1
    assert_eq!(
        *ast.node(*func_args.children().get(0).unwrap()).kind(),
        NodeKind::FunctionParam
    );
    assert_eq!(
        *ast.node(*func_args.children().get(0).unwrap()).name(),
        Some("p1".into())
    );
    // check param2
    assert_eq!(
        *ast.node(*func_args.children().get(0).unwrap()).kind(),
        NodeKind::FunctionParam
    );
    assert_eq!(
        *ast.node(*func_args.children().get(0).unwrap()).name(),
        Some("p1".into())
    );
    let func_impl = func.children().get(1);
    assert_ne!(func_impl, None);
}

#[test]
fn function_header_gives_the_whole_shape() {
    let ast = parse("function hello(p1, p2) {\n\t\"\";}").unwrap();
    assert_eq!(*ast.node(0).kind(), NodeKind::Global);
    assert_eq!(ast.node(0).children().len(), 1);
    let func = ast.node(ast.node(0).children()[0]);
    assert_eq!(*func.kind(), NodeKind::Function);
    assert_eq!(*func.name(), Some("hello".to_string()));
    assert_eq!(func.children().len(), 2);
    let params = ast.node(func.children()[0]);
    assert_eq!(*params.kind(), NodeKind::FunctionParams);
    assert_eq!(params.children().len(), 2);
    let p1 = ast.node(params.children()[0]);
    let p2 = ast.node(params.children()[1]);
    assert_eq!(*p1.kind(), NodeKind::FunctionParam);
    assert_eq!(*p1.name(), Some("p1".to_string()));
    assert_eq!(*p1.value(), None);
    assert_eq!(*p2.kind(), NodeKind::FunctionParam);
    assert_eq!(*p2.name(), Some("p2".to_string()));
    let body = ast.node(func.children()[1]);
    assert_eq!(*body.kind(), NodeKind::FunctionImpl);
    assert_eq!(body.children().len(), 0);
    assert_eq!(ast.len(), 6);
}

#[test]
fn parsed_tree_links_are_consistent() {
    let ast = parse(
        "function a(x) { println(\"hi\", \"there\"); }\nclass { }\nfoo(1, 2);",
    )
    .unwrap();
    assert_eq!(*ast.node(0).kind(), NodeKind::Global);
    assert_eq!(*ast.node(0).parent(), None);
    for id in 1..ast.len() {
        let parent = ast.node(id).parent().unwrap();
        assert!(parent < id);
        let listed = ast
            .node(parent)
            .children()
            .iter()
            .filter(|c| **c == id)
            .count();
        assert_eq!(listed, 1);
    }
    for id in 0..ast.len() {
        for c in ast.node(id).children() {
            assert_eq!(*ast.node(*c).parent(), Some(id));
        }
    }
}

#[test]
fn header_without_body_becomes_a_call() {
    let ast = parse("function foo;").unwrap();
    assert_eq!(ast.len(), 2);
    assert_eq!(*ast.node(1).kind(), NodeKind::Call);
    assert_eq!(*ast.node(1).name(), None);
}

#[test]
fn header_with_parameters_and_no_body_becomes_a_call() {
    let ast = parse("function foo(a);").unwrap();
    let node = ast.node(1);
    assert_eq!(*node.kind(), NodeKind::Call);
    assert_eq!(*node.name(), Some("foo".to_string()));
    assert_eq!(node.children().len(), 1);
    assert_eq!(*ast.node(node.children()[0]).kind(), NodeKind::FunctionParams);
}

#[test]
fn function_with_body_stays_a_function() {
    let mut script = Script::new("virtual://test", "test", Some("function foo() { ; }"));
    let mut p = Parser::default();
    let ast = p.parse(&mut script).unwrap();
    assert_eq!(*ast.node(1).kind(), NodeKind::Function);
    assert_eq!(p.cur_scope(), 0);
}

#[test]
fn missing_content_fails_before_any_change() {
    let mut script = Script::new("virtual://test", "test", None);
    let mut p = Parser::new(vec![ParserOption::Debug]);
    let r = p.parse(&mut script);
    match r {
        Err(Error::IO(msg)) => assert_eq!(msg, "script has no content"),
        _ => panic!("expected an I/O error"),
    }
    assert_eq!(p.cur_scope(), 0);
    assert_eq!(p.root_scope(), 0);
    assert_eq!(p.tree().len(), 1);
    assert_eq!(*p.tree().node(0).kind(), NodeKind::Global);
    assert_eq!(*p.tree().node(0).parent(), None);
    assert_eq!(p.tree().node(0).children().len(), 0);
    assert_eq!(p.location().file(), "");
    assert_eq!(*p.location().offset(), 1);
    assert_eq!(*p.location().line(), 1);
    assert_eq!(*p.location().column(), 1);
    assert_eq!(p.keywords().len(), 0);
    assert_eq!(*p.options(), vec![ParserOption::Debug]);
    assert_eq!(*script.state(), ScriptState::INITIAL);
}

#[test]
fn missing_content_resets_an_earlier_parse() {
    let mut p = Parser::default();
    let mut first = Script::new("virtual://a", "a", Some("function f() {"));
    p.parse(&mut first).unwrap();
    assert_ne!(p.cur_scope(), 0);
    let mut second = Script::new("virtual://b", "b", None);
    assert!(p.parse(&mut second).is_err());
    assert_eq!(p.cur_scope(), 0);
    assert_eq!(p.tree().len(), 1);
}

#[test]
fn parse_marks_the_script_as_parsed() {
    let mut script = Script::new("virtual://test", "test", Some(""));
    let mut p = Parser::default();
    let ast = p.parse(&mut script).unwrap();
    assert_eq!(*script.state(), ScriptState::PARSED);
    assert_eq!(ast.len(), 1);
    assert_eq!(ast.node(0).location().file(), "test");
    assert_eq!(*p.location().offset(), 1);
}

#[test]
fn a_failed_parse_leaves_the_script_state() {
    let mut script = Script::new("virtual://test", "test", Some("("));
    let mut p = Parser::default();
    assert!(p.parse(&mut script).is_err());
    assert_eq!(*script.state(), ScriptState::LOADED);
}

#[test]
fn stray_left_parenthesis_is_a_syntax_error() {
    match parse("  (") {
        Err(Error::Syntax(msg, loc)) => {
            assert_eq!(msg, "unexpected '('");
            assert_eq!(loc.file(), "test");
            assert_eq!(*loc.offset(), 3);
            assert_eq!(*loc.line(), 1);
            assert_eq!(*loc.column(), 3);
        }
        _ => panic!("expected a syntax error"),
    }
}

#[test]
fn second_parameter_list_is_a_syntax_error() {
    match parse("function f()()") {
        Err(Error::Syntax(msg, loc)) => {
            assert_eq!(msg, "unexpected '('");
            assert_eq!(*loc.offset(), 13);
        }
        _ => panic!("expected a syntax error"),
    }
}

#[test]
fn stray_comma_is_a_syntax_error() {
    match parse("a, b") {
        Err(Error::Syntax(msg, loc)) => {
            assert_eq!(msg, "unexpected ','");
            assert_eq!(*loc.offset(), 2);
            assert_eq!(*loc.column(), 2);
        }
        _ => panic!("expected a syntax error"),
    }
}

#[test]
fn empty_parameter_before_comma_is_a_syntax_error() {
    match parse("function f(,") {
        Err(Error::Syntax(msg, _)) => assert_eq!(msg, "unexpected ','"),
        _ => panic!("expected a syntax error"),
    }
}

#[test]
fn closing_with_text_left_is_a_syntax_error() {
    match parse("{ abc }") {
        Err(Error::Syntax(msg, loc)) => {
            assert_eq!(msg, "unprocessed expression: abc");
            assert_eq!(*loc.offset(), 7);
        }
        _ => panic!("expected a syntax error"),
    }
}

#[test]
fn closing_at_the_root_is_an_error() {
    match parse("}") {
        Err(Error::Unknown(msg, loc)) => {
            assert_eq!(msg, "no active scope");
            assert!(loc.is_none());
        }
        _ => panic!("expected an error"),
    }
    match parse(")") {
        Err(Error::Unknown(msg, _)) => assert_eq!(msg, "no active scope"),
        _ => panic!("expected an error"),
    }
}

#[test]
fn closing_a_function_body_closes_the_function_too() {
    let mut script = Script::new("virtual://test", "test", Some("function f() { x }"));
    let mut p = Parser::default();
    let ast = p.parse(&mut script).unwrap();
    assert_eq!(p.cur_scope(), 0);
    assert_eq!(*ast.node(1).kind(), NodeKind::Function);
    assert_eq!(*ast.node(3).kind(), NodeKind::FunctionImpl);
}

#[test]
fn plain_block_is_a_leaf_scope() {
    let mut script = Script::new("virtual://test", "test", Some("{ { } "));
    let mut p = Parser::default();
    let ast = p.parse(&mut script).unwrap();
    assert_eq!(ast.len(), 3);
    assert_eq!(*ast.node(1).kind(), NodeKind::Leaf);
    assert_eq!(*ast.node(2).kind(), NodeKind::Leaf);
    assert_eq!(*ast.node(2).parent(), Some(1));
    assert_eq!(p.cur_scope(), 1);
    assert_eq!(p.cur_scope_kind(), NodeKind::Leaf);
}

#[test]
fn call_takes_its_arguments_as_strings() {
    let ast = parse("println(\"Hello!\");").unwrap();
    assert_eq!(ast.len(), 3);
    let call = ast.node(1);
    assert_eq!(*call.kind(), NodeKind::Call);
    assert_eq!(*call.name(), Some("println".to_string()));
    assert_eq!(call.children().len(), 1);
    let arg = ast.node(2);
    assert_eq!(*arg.kind(), NodeKind::FunctionParam);
    assert_eq!(*arg.name(), None);
    assert_eq!(*arg.value(), Some(Value::String("Hello!".to_string())));
}

#[test]
fn call_arguments_keep_their_order() {
    let ast = parse("f(a, \"b c\",d)").unwrap();
    let call = ast.node(1);
    assert_eq!(*call.name(), Some("f".to_string()));
    let values: Vec<Option<Value>> = call
        .children()
        .iter()
        .map(|c| ast.node(*c).value().clone())
        .collect();
    assert_eq!(
        values,
        vec![
            Some(Value::String("a".to_string())),
            Some(Value::String("b c".to_string())),
            Some(Value::String("d".to_string())),
        ]
    );
}

#[test]
fn empty_call_has_no_arguments() {
    let ast = parse("f()").unwrap();
    assert_eq!(ast.node(1).children().len(), 0);
}

#[test]
fn comma_in_a_call_adds_an_empty_argument() {
    let ast = parse("f(,)").unwrap();
    let call = ast.node(1);
    assert_eq!(call.children().len(), 1);
    assert_eq!(
        *ast.node(call.children()[0]).value(),
        Some(Value::String(String::new()))
    );
}

#[test]
fn quoted_text_keeps_symbols_and_line_breaks() {
    let ast = parse("f(\"a(b,\n c)\")").unwrap();
    let call = ast.node(1);
    assert_eq!(call.children().len(), 1);
    assert_eq!(
        *ast.node(call.children()[0]).value(),
        Some(Value::String("a(b,\n c)".to_string()))
    );
}

#[test]
fn new_line_moves_to_the_next_line() {
    let mut script = Script::new("virtual://test", "test", Some("ab\ncd\n\nx"));
    let mut p = Parser::default();
    p.parse(&mut script).unwrap();
    assert_eq!(*p.location().offset(), 9);
    assert_eq!(*p.location().line(), 4);
    assert_eq!(*p.location().column(), 2);
}

#[test]
fn new_line_inside_a_quote_is_no_line_break() {
    let mut script = Script::new("virtual://test", "test", Some("\"a\nb\""));
    let mut p = Parser::default();
    p.parse(&mut script).unwrap();
    assert_eq!(*p.location().offset(), 6);
    assert_eq!(*p.location().line(), 1);
    assert_eq!(*p.location().column(), 6);
}

#[test]
fn nodes_carry_the_place_where_they_were_opened() {
    let ast = parse("function hello(p1, p2) {\n\t\"\";}").unwrap();
    let func = ast.node(1);
    assert_eq!(func.location().file(), "test");
    assert_eq!(*func.location().offset(), 8);
    assert_eq!(*func.location().line(), 1);
    assert_eq!(*func.location().column(), 8);
    let params = ast.node(2);
    assert_eq!(*params.location().offset(), 15);
    let p1 = ast.node(3);
    assert_eq!(*p1.location().offset(), 18);
    let body = ast.node(5);
    assert_eq!(*body.location().offset(), 24);
    assert_eq!(*body.location().line(), 1);
}

#[test]
fn keywords_open_their_scopes() {
    let mut script = Script::new("virtual://test", "test", Some("class enum"));
    let mut p = Parser::default();
    let ast = p.parse(&mut script).unwrap();
    assert_eq!(ast.len(), 3);
    assert_eq!(*ast.node(1).kind(), NodeKind::Class);
    assert_eq!(*ast.node(2).kind(), NodeKind::Enum);
    assert_eq!(*ast.node(2).parent(), Some(1));
    assert_eq!(*p.keywords(), vec![Keyword::Class, Keyword::Enum]);
}

#[test]
fn other_keywords_are_only_noted() {
    let mut script = Script::new(
        "virtual://test",
        "test",
        Some("return public private protected throw let const"),
    );
    let mut p = Parser::default();
    let ast = p.parse(&mut script).unwrap();
    assert_eq!(ast.len(), 1);
    assert_eq!(
        *p.keywords(),
        vec![
            Keyword::Return,
            Keyword::Public,
            Keyword::Private,
            Keyword::Protected,
            Keyword::Throw,
            Keyword::Let,
            Keyword::Const,
        ]
    );
}

#[test]
fn statement_end_forgets_the_keywords() {
    let mut script = Script::new("virtual://test", "test", Some("let; const"));
    let mut p = Parser::default();
    p.parse(&mut script).unwrap();
    assert_eq!(*p.keywords(), vec![Keyword::Const]);
}

#[test]
fn a_keyword_is_taken_as_soon_as_it_is_spelled() {
    let ast = parse("letter(").unwrap();
    assert_eq!(*ast.node(1).kind(), NodeKind::Call);
    assert_eq!(*ast.node(1).name(), Some("ter".to_string()));
}

#[test]
fn reset_keeps_the_options() {
    let mut p = Parser::new(vec![ParserOption::Debug]);
    let mut script = Script::new("virtual://test", "test", Some("f("));
    p.parse(&mut script).unwrap();
    p.reset();
    assert!(p.has_option(ParserOption::Debug));
    assert_eq!(p.cur_scope(), 0);
    assert_eq!(p.tree().len(), 1);
    assert!(!Parser::default().has_option(ParserOption::Debug));
}

#[test]
fn sample_script_parses() {
    let ast = parse(
        "
      function hello_world() {
        println(\"Hello!\");
      }

      function hello_world2(a) {
        println(a);
      }
      
      hello_world();
      hello_world2(\"test\");",
    )
    .unwrap();
    let top = ast.node(0).children().clone();
    assert_eq!(top.len(), 4);
    assert_eq!(*ast.node(top[0]).kind(), NodeKind::Function);
    assert_eq!(*ast.node(top[0]).name(), Some("hello_world".to_string()));
    assert_eq!(*ast.node(top[1]).kind(), NodeKind::Function);
    assert_eq!(*ast.node(top[1]).name(), Some("hello_world2".to_string()));
    assert_eq!(*ast.node(top[2]).kind(), NodeKind::Call);
    assert_eq!(*ast.node(top[2]).name(), Some("hello_world".to_string()));
    assert_eq!(*ast.node(top[3]).kind(), NodeKind::Call);
    assert_eq!(*ast.node(top[3]).name(), Some("hello_world2".to_string()));
    assert_eq!(
        *ast.node(ast.node(top[3]).children()[0]).value(),
        Some(Value::String("test".to_string()))
    );
}
