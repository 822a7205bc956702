use drake::error::{Error, Span};
use drake::module::{parse, tokenize, Module, Runtime};
use drake::token::{Identifier, IdentifierKind, Literal, Radix, Symbol, Token};
use drake::value::Value;

#[test]
fn module_goes_from_text_to_snapshot() {
    let mut module = Module::new(3, "main".to_string(), "[t = {x = 1}]x = 0x10".to_string());
    assert_eq!(module.get_name(), "main");
    assert_eq!(module.get_source(), "[t = {x = 1}]x = 0x10");
    assert_eq!(module.get_file_id(), 3);
    assert!(module.get_tokens().is_none());
    assert!(module.get_ast().is_none());
    assert!(module.get_ir().is_none());

    let snapshot = module.evaluate().clone();
    assert!(snapshot.errors.is_empty());
    match &snapshot.root.global.get("t").expect("the table is bound").value {
        Value::Table(t) => {
            let x = t.global.get("x").expect("the key is bound");
            assert_eq!(x.value, Value::Integer(16));
            assert!(!x.is_default);
            assert_eq!(x.defined, 13..14);
        }
        other => panic!("not a table: {:?}", other),
    }
    assert_eq!(module.get_tokens().map(|t| t.len()), Some(18));
    assert_eq!(module.get_ast().map(|a| a.len()), Some(2));
    assert!(module.get_errors().is_empty());
    assert_eq!(module.get_ir(), Some(&snapshot));
}

#[test]
fn module_is_evaluated_once() {
    let mut module = Module::new(0, "m".to_string(), "k = 1k = 2".to_string());
    let first = module.evaluate().clone();
    assert_eq!(
        first.errors,
        vec![Error::DuplicateKey {
            existing: Span { file_id: 0, span: 0..1 },
            found: Span { file_id: 0, span: 5..6 },
        }]
    );
    assert_eq!(module.get_errors().len(), 1);
    let second = module.evaluate().clone();
    assert_eq!(first, second);
    // The diagnostics of the evaluation were added once.
    assert_eq!(module.get_errors().len(), 1);
    let tokens = module.tokenize().len();
    assert_eq!(tokens, 10);
    assert_eq!(module.parse().len(), 2);
    assert_eq!(module.get_errors().len(), 1);
}

#[test]
fn module_records_where_a_token_breaks_off() {
    let mut module = Module::new(5, "m".to_string(), "é = \"x".to_string());
    // 'é' begins no token, so there are none, and nothing is reported.
    assert_eq!(module.tokenize().len(), 0);
    assert!(module.get_errors().is_empty());

    let mut module = Module::new(5, "m".to_string(), "k = \"é".to_string());
    assert_eq!(module.tokenize().len(), 0);
    assert_eq!(
        module.get_errors().to_vec(),
        vec![Error::ParseError {
            expects: vec!["token".to_string()],
            span: Span { file_id: 5, span: 7..7 },
        }]
    );
    // The module goes on with no tokens.
    let snapshot = module.evaluate().clone();
    assert_eq!(snapshot.root.global.len(), 0);
    assert_eq!(module.get_errors().len(), 1);
    assert_eq!(module.get_ast().map(|a| a.len()), Some(0));
}

#[test]
fn module_records_where_a_statement_breaks_off() {
    let mut module = Module::new(2, "m".to_string(), "é = [1".to_string());
    assert_eq!(module.parse().len(), 0);
    assert!(module.get_errors().is_empty());

    let mut module = Module::new(2, "m".to_string(), "k = [1, 'é'".to_string());
    assert_eq!(module.parse().len(), 0);
    assert_eq!(
        module.get_errors().to_vec(),
        vec![Error::ParseError {
            expects: vec!["statement".to_string()],
            span: Span { file_id: 2, span: 12..12 },
        }]
    );
}

#[test]
fn parse_stops_at_a_line_break() {
    let tokens = tokenize("a = 1\nb = 2", 0).expect("the text is made of tokens");
    assert_eq!(tokens.len(), 11);
    let ast = parse(&tokens, 0).expect("the tokens begin with a statement");
    assert_eq!(ast.len(), 1);
    assert_eq!(ast[0].span, 0..5);
}

#[test]
fn tokenize_and_parse_report_failures_as_diagnostics() {
    assert_eq!(
        tokenize("x = 'ab'", 9),
        Err(Error::ParseError { expects: vec!["token".to_string()], span: Span { file_id: 9, span: 6..7 } })
    );
    let tokens = tokenize("x = ", 9).expect("the text is made of tokens");
    assert_eq!(
        tokens.iter().map(|t| t.kind.clone()).collect::<Vec<Token>>(),
        vec![
            Token::Identifier(Identifier { kind: IdentifierKind::Bare, name: "x".to_string() }),
            Token::Whitespaces,
            Token::Symbol(Symbol::Assign),
            Token::Whitespaces,
        ]
    );
    assert_eq!(
        parse(&tokens, 9),
        Err(Error::ParseError { expects: vec!["statement".to_string()], span: Span { file_id: 9, span: 4..4 } })
    );
    let tokens = tokenize("x = [2 3]", 9).expect("the text is made of tokens");
    assert_eq!(tokens[5].kind, Token::Literal(Literal::Integer(2, Radix::Decimal)));
    assert_eq!(
        parse(&tokens, 9),
        Err(Error::ParseError { expects: vec!["statement".to_string()], span: Span { file_id: 9, span: 7..8 } })
    );
}

#[test]
fn runtime_finds_modules() {
    let mut runtime = Runtime::new("main".to_string(), "@output = \"a.out\"".to_string());
    assert_eq!(runtime.get_modules().len(), 1);
    assert!(runtime.get_module(1).is_none());
    assert!(runtime.get_module_by_name("other").is_none());
    let (id, module) = runtime.get_module_by_name("main").expect("the module is there");
    assert_eq!(id, 0);
    assert_eq!(module.get_file_id(), 0);
    assert_eq!(runtime.get_module(0).map(|m| m.get_name()), Some("main"));
    let module = runtime.get_module_mut(0).expect("the module is there");
    let snapshot = module.evaluate().clone();
    assert_eq!(snapshot.builtin.output, Some("a.out".to_string()));
    assert!(snapshot.errors.is_empty());
    assert!(runtime.get_module(0).unwrap().get_ir().is_some());
    assert_eq!(runtime.get_module(0).unwrap().get_lines().line_count(), 1);
}

#[test]
fn modules_and_runtimes_are_copied_whole() {
    let mut runtime = Runtime::new("main".to_string(), "a = [1, 2.5]".to_string());
    runtime.get_module_mut(0).expect("the module is there").evaluate();
    let copy = runtime.clone();
    assert_eq!(copy.get_modules().len(), 1);
    assert_eq!(copy.get_module(0), runtime.get_module(0));
    let module = copy.get_module(0).unwrap().clone();
    assert_eq!(module.get_tokens().map(|t| t.len()), Some(10));
    assert_eq!(module.get_ast().map(|a| a.len()), Some(1));
    assert_eq!(module.get_lines().clone(), *runtime.get_module(0).unwrap().get_lines());
    assert!(module.get_ir().is_some());
}
