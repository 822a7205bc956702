use drake::ast::{Key, KeyKind, Pattern, PatternKind, Statement, StatementKind, TableHeaderKind};
use drake::ast::{Expression, ExpressionKind, Literal};
use drake::error::{Error, Kind, Span};
use drake::runtime::{assert_table, expr_to_value, insert, Current, CurrentValue, Environment};
use drake::snapshot::Builtin;
use drake::value::{Element, FloatParts, Namespace, Table, Value};

fn key(kind: KeyKind, name: &str, at: usize) -> Key<usize> {
    Key { kind, name: name.to_string(), span: at..at + name.len() }
}

fn element(value: Value<usize>, at: usize) -> Element<usize> {
    Element { value, defined: at..at + 1, is_default: false, exported: true }
}

#[test]
fn namespace_binds_and_rebinds() {
    let mut ns: Namespace<usize> = Namespace::new();
    assert_eq!(ns.len(), 0);
    assert!(!ns.contains_key("a"));
    assert!(ns.get("a").is_none());
    ns.insert("a".to_string(), element(Value::Integer(1), 0));
    ns.insert("b".to_string(), element(Value::Integer(2), 5));
    assert_eq!(ns.len(), 2);
    assert!(ns.contains_key("a"));
    assert_eq!(ns.get("a").unwrap().value, Value::Integer(1));
    assert_eq!(ns.get("b").unwrap().value, Value::Integer(2));
    ns.insert("a".to_string(), element(Value::Integer(3), 9));
    assert_eq!(ns.len(), 2);
    assert_eq!(ns.get("a").unwrap().value, Value::Integer(3));
    assert_eq!(ns.get("a").unwrap().defined, 9..10);
    assert_eq!(ns.get("b").unwrap().value, Value::Integer(2));
    assert!(ns.get("c").is_none());
}

#[test]
fn namespace_clone_is_independent() {
    let mut ns: Namespace<usize> = Namespace::new();
    ns.insert("a".to_string(), element(Value::Integer(1), 0));
    let mut copy = ns.clone();
    assert_eq!(copy, ns);
    copy.insert("b".to_string(), element(Value::Integer(2), 3));
    assert_eq!(ns.len(), 1);
    assert_eq!(copy.len(), 2);
    assert!(!ns.contains_key("b"));
    assert_eq!(copy.get("a").unwrap().value, Value::Integer(1));
}

#[test]
fn make_default_marks_every_element() {
    let mut table: Table<usize> = Table::new();
    let mut errors = Vec::new();
    insert(&mut table, key(KeyKind::Normal, "a", 0), Value::Integer(1), &mut errors, 0);
    insert(&mut table, key(KeyKind::Local, "b", 3), Value::Integer(2), &mut errors, 0);
    assert!(!table.global.get("a").unwrap().is_default);
    table.make_default();
    assert!(table.global.get("a").unwrap().is_default);
    assert!(table.global.get("b").unwrap().is_default);
    assert!(table.global.get("a").unwrap().exported);
    assert!(!table.global.get("b").unwrap().exported);
    assert_eq!(table.global.get("a").unwrap().value, Value::Integer(1));
    // A default gives way to the next binding, once.
    insert(&mut table, key(KeyKind::Normal, "a", 7), Value::Integer(9), &mut errors, 0);
    assert!(errors.is_empty());
    assert_eq!(table.global.get("a").unwrap().value, Value::Integer(9));
    insert(&mut table, key(KeyKind::Normal, "a", 12), Value::Integer(10), &mut errors, 0);
    assert_eq!(
        errors,
        vec![Error::DuplicateKey {
            existing: Span { file_id: 0, span: 7..8 },
            found: Span { file_id: 0, span: 12..13 },
        }]
    );
    assert_eq!(table.global.get("a").unwrap().value, Value::Integer(9));
}

#[test]
fn insert_with_unknown_key_kind_changes_nothing() {
    let mut table: Table<usize> = Table::new();
    let mut errors = Vec::new();
    insert(&mut table, key(KeyKind::Builtin, "a", 4), Value::Integer(1), &mut errors, 2);
    assert_eq!(table.global.len(), 0);
    assert_eq!(
        errors,
        vec![Error::NotSupported { feature: "unknown keys", span: Span { file_id: 2, span: 4..5 } }]
    );
}

#[test]
fn value_clone_is_deep() {
    let mut inner: Table<usize> = Table::new();
    let mut errors = Vec::new();
    insert(&mut inner, key(KeyKind::Normal, "x", 0), Value::String("s".to_string()), &mut errors, 0);
    let value = Value::Array(vec![
        Value::Table(inner),
        Value::Float(FloatParts { mantissa: 15, exponent: -1 }),
        Value::Character('c'),
    ]);
    let copy = value.clone();
    assert_eq!(copy, value);
    assert_eq!(copy.kind(), Kind::Array);
    assert_eq!(Value::<usize>::Float(FloatParts { mantissa: 0, exponent: 0 }).kind(), Kind::Float);
}

#[test]
fn assert_table_reports_other_shapes() {
    let mut errors: Vec<Error<usize>> = Vec::new();
    assert_eq!(assert_table(Value::Table(Table::new()), 0..2, &mut errors, 1), Some(Table::new()));
    assert!(errors.is_empty());
    assert_eq!(assert_table(Value::String("s".to_string()), 3..6, &mut errors, 1), None);
    assert_eq!(
        errors,
        vec![Error::KindMismatch {
            expect: vec![Kind::Table],
            found: Kind::String,
            span: Span { file_id: 1, span: 3..6 },
        }]
    );
}

#[test]
fn expr_to_value_hands_back_the_span() {
    let mut errors: Vec<Error<usize>> = Vec::new();
    let expr = Expression { kind: ExpressionKind::Literal(Literal::Integer(42)), span: 3..5 };
    let (value, span) = expr_to_value(&expr, &mut errors, 0);
    assert_eq!(value, Value::Integer(42));
    assert_eq!(span, 3..5);
    let float = Expression {
        kind: ExpressionKind::Literal(Literal::Float(FloatParts { mantissa: 25, exponent: -1 })),
        span: 0..3,
    };
    let (value, _) = expr_to_value(&float, &mut errors, 0);
    match value {
        Value::Float(f) => assert_eq!(f, FloatParts { mantissa: 25, exponent: -1 }),
        other => panic!("not a float: {:?}", other),
    }
    assert!(errors.is_empty());
}

#[test]
fn current_section_opens_continues_and_closes() {
    let pattern = |at: usize| Pattern { kind: PatternKind::Key(key(KeyKind::Normal, "a", at)), span: at..at + 1 };
    let mut errors: Vec<Error<usize>> = Vec::new();
    let mut cur = Current::new(TableHeaderKind::Array, pattern(2), Table::new());
    assert!(cur.is_movable(TableHeaderKind::Array, &pattern(9)));
    assert!(!cur.is_movable(TableHeaderKind::Normal, &pattern(9)));
    let other = Pattern { kind: PatternKind::Key(key(KeyKind::Normal, "b", 9)), span: 9..10 };
    assert!(!cur.is_movable(TableHeaderKind::Array, &other));
    let as_builtin = Pattern { kind: PatternKind::Builtin(key(KeyKind::Normal, "a", 9)), span: 8..10 };
    assert!(!cur.is_movable(TableHeaderKind::Array, &as_builtin));
    cur.next_array(&mut errors);
    cur.next_array(&mut errors);
    assert!(errors.is_empty());
    match cur.value.as_mut_table() {
        Some(tip) => insert(tip, key(KeyKind::Normal, "x", 12), Value::Integer(1), &mut errors, 0),
        None => panic!("an open array has a tip"),
    }
    match cur.value.into_value() {
        Value::Array(tables) => {
            assert_eq!(tables.len(), 3);
            assert_eq!(tables[0], Value::Table(Table::new()));
            assert_eq!(tables[1], Value::Table(Table::new()));
            assert_ne!(tables[2], Value::Table(Table::new()));
        }
        other => panic!("not an array: {:?}", other),
    }

    let mut table = Current::new(TableHeaderKind::Normal, pattern(1), Table::new());
    assert!(!table.is_movable(TableHeaderKind::Array, &pattern(1)));
    table.next_array(&mut errors);
    assert_eq!(errors, vec![Error::Unexpected]);
    assert_eq!(CurrentValue::Table(Table::<usize>::new()).into_value(), Value::Table(Table::new()));
}

#[test]
fn environment_takes_statements_one_by_one() {
    let mut env: Environment<usize> = Environment::new(4);
    let stmt = |name: &str, at: usize, v: u64| Statement {
        kind: StatementKind::ValueBinding(
            Pattern { kind: PatternKind::Key(key(KeyKind::Normal, name, at)), span: at..at + 1 },
            Expression { kind: ExpressionKind::Literal(Literal::Integer(v)), span: at + 4..at + 5 },
        ),
        span: at..at + 5,
    };
    env.step(&stmt("a", 0, 1));
    env.header(
        TableHeaderKind::Normal,
        Pattern { kind: PatternKind::Key(key(KeyKind::Normal, "t", 7)), span: 7..8 },
        None,
    );
    env.step(&stmt("a", 10, 2));
    env.bind(
        Pattern { kind: PatternKind::Key(key(KeyKind::Normal, "b", 16)), span: 16..17 },
        Value::Integer(3),
    );
    env.builtin_write(key(KeyKind::Normal, "filetype", 23), Value::String("elf".to_string()));
    let snap = env.close();
    assert!(snap.errors.is_empty());
    assert_eq!(snap.root.global.len(), 2);
    assert_eq!(snap.root.global.get("a").unwrap().value, Value::Integer(1));
    match &snap.root.global.get("t").unwrap().value {
        Value::Table(t) => {
            assert_eq!(t.global.get("a").unwrap().value, Value::Integer(2));
            assert_eq!(t.global.get("b").unwrap().value, Value::Integer(3));
        }
        other => panic!("not a table: {:?}", other),
    }
    assert_eq!(snap.builtin, Builtin { output: None, filetype: Some("elf".to_string()) });
    assert_eq!(Builtin::new(), Builtin::default());
}

#[test]
fn ast_equality_ignores_spans() {
    let a = key(KeyKind::Normal, "k", 0);
    let b = key(KeyKind::Normal, "k", 40);
    assert!(a == b);
    assert!(a != key(KeyKind::Local, "k", 0));
    assert!(a != key(KeyKind::Normal, "j", 0));
    let lit = |at: usize| Expression { kind: ExpressionKind::Literal(Literal::Integer(1)), span: at..at + 1 };
    let arr = |at: usize| Expression { kind: ExpressionKind::Array(vec![lit(at), lit(at + 2)]), span: at..at + 5 };
    assert!(arr(0) == arr(10));
    assert!(arr(0) != lit(0));
    assert!(arr(0) == arr(0).clone());
    let table = |name: &str| Expression {
        kind: ExpressionKind::InlineTable(vec![(key(KeyKind::Normal, name, 1), lit(5))]),
        span: 0..7,
    };
    assert!(table("a") == table("a"));
    assert!(table("a") != table("b"));
    let stmt = |at: usize| Statement {
        kind: StatementKind::TableHeader(
            TableHeaderKind::Array,
            Pattern { kind: PatternKind::Key(key(KeyKind::Normal, "t", at)), span: at..at + 1 },
            Some(table("a")),
        ),
        span: at..at + 9,
    };
    assert!(stmt(0) == stmt(5));
    assert!(stmt(0) == stmt(0).clone());
    let unknown = Statement::<usize> { kind: StatementKind::Unknown, span: 0..1 };
    assert!(unknown != unknown.clone());
}

#[test]
fn namespace_hands_its_names_out_in_binding_order() {
    let mut ns: Namespace<usize> = Namespace::new();
    ns.insert("b".to_string(), element(Value::Integer(1), 0));
    ns.insert("a".to_string(), element(Value::Integer(2), 3));
    ns.insert("b".to_string(), element(Value::Integer(3), 6));
    assert_eq!(ns.len(), 2);
    let (name, found) = ns.nth(0).expect("two names are bound");
    assert_eq!(name, "b");
    assert_eq!(found.value, Value::Integer(3));
    let (name, found) = ns.nth(1).expect("two names are bound");
    assert_eq!(name, "a");
    assert_eq!(found.value, Value::Integer(2));
    assert!(ns.nth(2).is_none());
}
