use drake::ast::{
    Expression, ExpressionKind, Key, KeyKind, Literal, Pattern, PatternKind, Statement, StatementKind,
    TableHeaderKind,
};
use drake::error::{Error, Kind, Span};
use drake::runtime::evaluate;
use drake::snapshot::Snapshot;
use drake::value::{Table, Value};

fn key(kind: KeyKind, name: &str, at: usize) -> Key<usize> {
    Key { kind, name: name.to_string(), span: at..at + name.len() }
}

fn normal(name: &str, at: usize) -> Pattern<usize> {
    let key = key(KeyKind::Normal, name, at);
    let span = key.span.clone();
    Pattern { kind: PatternKind::Key(key), span }
}

fn local(name: &str, at: usize) -> Pattern<usize> {
    let key = key(KeyKind::Local, name, at + 1);
    Pattern { kind: PatternKind::Key(key), span: at..at + 1 + name.len() }
}

fn builtin(name: &str, at: usize) -> Pattern<usize> {
    let key = key(KeyKind::Normal, name, at + 1);
    Pattern { kind: PatternKind::Builtin(key), span: at..at + 1 + name.len() }
}

fn integer(i: u64, at: usize) -> Expression<usize> {
    Expression { kind: ExpressionKind::Literal(Literal::Integer(i)), span: at..at + 1 }
}

fn text(s: &str, at: usize) -> Expression<usize> {
    Expression { kind: ExpressionKind::Literal(Literal::String(s.to_string())), span: at..at + s.len() + 2 }
}

fn inline(pairs: Vec<(Key<usize>, Expression<usize>)>, span: std::ops::Range<usize>) -> Expression<usize> {
    Expression { kind: ExpressionKind::InlineTable(pairs), span }
}

fn binding(pattern: Pattern<usize>, expr: Expression<usize>) -> Statement<usize> {
    let span = pattern.span.start..expr.span.end;
    Statement { kind: StatementKind::ValueBinding(pattern, expr), span }
}

fn header(
    kind: TableHeaderKind,
    pattern: Pattern<usize>,
    default: Option<Expression<usize>>,
    span: std::ops::Range<usize>,
) -> Statement<usize> {
    Statement { kind: StatementKind::TableHeader(kind, pattern, default), span }
}

fn integer_at(table: &Table<usize>, name: &str) -> Option<u64> {
    match table.global.get(name) {
        Some(elem) => match elem.value {
            Value::Integer(i) => Some(i),
            _ => None,
        },
        None => None,
    }
}

fn table_at<'a>(table: &'a Table<usize>, name: &str) -> &'a Table<usize> {
    match &table.global.get(name).expect("the name is bound").value {
        Value::Table(t) => t,
        other => panic!("not a table: {:?}", other),
    }
}

fn array_at<'a>(table: &'a Table<usize>, name: &str) -> &'a Vec<Value<usize>> {
    match &table.global.get(name).expect("the name is bound").value {
        Value::Array(a) => a,
        other => panic!("not an array: {:?}", other),
    }
}

fn run(stmts: Vec<Statement<usize>>) -> Snapshot<usize> {
    evaluate(&stmts, 7)
}

#[test]
fn first_binding_wins_and_second_is_reported() {
    // k = 1
    // k = 2
    let snap = run(vec![binding(normal("k", 0), integer(1, 4)), binding(normal("k", 6), integer(2, 10))]);
    assert_eq!(integer_at(&snap.root, "k"), Some(1));
    assert_eq!(
        snap.errors,
        vec![Error::DuplicateKey {
            existing: Span { file_id: 7, span: 0..1 },
            found: Span { file_id: 7, span: 6..7 },
        }]
    );
}

#[test]
fn array_of_tables_accumulates() {
    // [[a]]
    // [[a]]
    let snap = run(vec![
        header(TableHeaderKind::Array, normal("a", 2), None, 0..5),
        header(TableHeaderKind::Array, normal("a", 8), None, 6..11),
    ]);
    assert!(snap.errors.is_empty());
    assert_eq!(snap.root.global.len(), 1);
    let tables = array_at(&snap.root, "a");
    assert_eq!(tables.len(), 2);
    for t in tables {
        match t {
            Value::Table(t) => {
                assert_eq!(t.global.len(), 0);
                assert_eq!(t.local.len(), 0);
            }
            other => panic!("not a table: {:?}", other),
        }
    }
    assert_eq!(*tables, vec![Value::Table(Table::new()), Value::Table(Table::new())]);
}

#[test]
fn kind_switch_on_the_same_name_is_a_duplicate() {
    // [[a]]
    // [a]
    let snap = run(vec![
        header(TableHeaderKind::Array, normal("a", 2), None, 0..5),
        header(TableHeaderKind::Normal, normal("a", 7), None, 6..9),
    ]);
    assert_eq!(array_at(&snap.root, "a").len(), 1);
    assert_eq!(
        snap.errors,
        vec![Error::DuplicateKey {
            existing: Span { file_id: 7, span: 2..3 },
            found: Span { file_id: 7, span: 7..8 },
        }]
    );
}

#[test]
fn default_is_overridden_once() {
    // [t = {x = 1}]
    // x = 2
    // x = 3
    let default = inline(vec![(key(KeyKind::Normal, "x", 6), integer(1, 10))], 5..12);
    let snap = run(vec![
        header(TableHeaderKind::Normal, normal("t", 1), Some(default), 0..13),
        binding(normal("x", 14), integer(2, 18)),
    ]);
    assert!(snap.errors.is_empty());
    assert_eq!(integer_at(table_at(&snap.root, "t"), "x"), Some(2));
    let elem = table_at(&snap.root, "t").global.get("x").unwrap();
    assert!(!elem.is_default);
    assert!(elem.exported);
    assert_eq!(elem.defined, 14..15);

    let default = inline(vec![(key(KeyKind::Normal, "x", 6), integer(1, 10))], 5..12);
    let snap = run(vec![
        header(TableHeaderKind::Normal, normal("t", 1), Some(default), 0..13),
        binding(normal("x", 14), integer(2, 18)),
        binding(normal("x", 20), integer(3, 24)),
    ]);
    assert_eq!(integer_at(table_at(&snap.root, "t"), "x"), Some(2));
    assert_eq!(
        snap.errors,
        vec![Error::DuplicateKey {
            existing: Span { file_id: 7, span: 14..15 },
            found: Span { file_id: 7, span: 20..21 },
        }]
    );
}

#[test]
fn default_on_a_repeated_array_header_is_refused() {
    // [[a]]
    // [[a = {x = 1}]]
    let default = inline(vec![(key(KeyKind::Normal, "x", 13), integer(1, 17))], 12..19);
    let snap = run(vec![
        header(TableHeaderKind::Array, normal("a", 2), None, 0..5),
        header(TableHeaderKind::Array, normal("a", 8), Some(default), 6..21),
    ]);
    assert_eq!(
        snap.errors,
        vec![Error::UnallowedDefaultValue { span: Span { file_id: 7, span: 12..19 } }]
    );
    assert_eq!(*array_at(&snap.root, "a"), vec![Value::Table(Table::new()), Value::Table(Table::new())]);
}

#[test]
fn builtin_roundtrip() {
    // @output = "a.out"
    let snap = run(vec![binding(builtin("output", 0), text("a.out", 10))]);
    assert_eq!(snap.builtin.output, Some("a.out".to_string()));
    assert_eq!(snap.builtin.filetype, None);
    assert!(snap.errors.is_empty());
    assert_eq!(snap.root.global.len(), 0);

    // @bogus = 1
    let snap = run(vec![binding(builtin("bogus", 0), integer(1, 9))]);
    assert_eq!(snap.builtin.output, None);
    assert_eq!(snap.errors, vec![Error::BuiltinNotFound { span: Span { file_id: 7, span: 1..6 } }]);
}

#[test]
fn local_and_normal_keys_share_one_namespace() {
    // _k = 1
    // k = 2
    let snap = run(vec![binding(local("k", 0), integer(1, 5)), binding(normal("k", 7), integer(2, 11))]);
    assert_eq!(integer_at(&snap.root, "k"), Some(1));
    assert!(!snap.root.global.get("k").unwrap().exported);
    assert_eq!(snap.root.local.len(), 0);
    assert_eq!(
        snap.errors,
        vec![Error::DuplicateKey {
            existing: Span { file_id: 7, span: 1..2 },
            found: Span { file_id: 7, span: 7..8 },
        }]
    );
}

#[test]
fn evaluation_is_repeatable() {
    let program = || {
        vec![
            binding(normal("a", 0), integer(1, 4)),
            header(TableHeaderKind::Array, normal("t", 8), None, 6..11),
            binding(normal("x", 12), text("s", 16)),
            header(TableHeaderKind::Array, normal("t", 22), None, 20..25),
            binding(normal("x", 26), integer(3, 30)),
            binding(normal("x", 32), integer(4, 36)),
            binding(builtin("filetype", 38), integer(1, 50)),
        ]
    };
    let stmts = program();
    let first = evaluate(&stmts, 3);
    let second = evaluate(&stmts, 3);
    assert_eq!(first, second);
    assert_eq!(first, evaluate(&program(), 3));
    assert_eq!(first.errors.len(), 2);
    assert_eq!(
        first.errors[1],
        Error::KindMismatch {
            expect: vec![Kind::String],
            found: Kind::Integer,
            span: Span { file_id: 3, span: 39..47 },
        }
    );
}

#[test]
fn array_elements_are_filled_independently() {
    // [[a]]
    // x = 1
    // [[a]]
    // y = 2
    let snap = run(vec![
        header(TableHeaderKind::Array, normal("a", 2), None, 0..5),
        binding(normal("x", 6), integer(1, 10)),
        header(TableHeaderKind::Array, normal("a", 14), None, 12..17),
        binding(normal("y", 18), integer(2, 22)),
    ]);
    assert!(snap.errors.is_empty());
    let tables = array_at(&snap.root, "a");
    assert_eq!(tables.len(), 2);
    match (&tables[0], &tables[1]) {
        (Value::Table(first), Value::Table(second)) => {
            assert_eq!(integer_at(first, "x"), Some(1));
            assert_eq!(integer_at(first, "y"), None);
            assert_eq!(integer_at(second, "x"), None);
            assert_eq!(integer_at(second, "y"), Some(2));
        }
        other => panic!("not two tables: {:?}", other),
    }
}

#[test]
fn array_seed_is_copied_into_every_element() {
    // [[a = {x = 1}]]
    // x = 5
    // [[a]]
    let default = inline(vec![(key(KeyKind::Normal, "x", 7), integer(1, 11))], 6..13);
    let snap = run(vec![
        header(TableHeaderKind::Array, normal("a", 2), Some(default), 0..15),
        binding(normal("x", 16), integer(5, 20)),
        header(TableHeaderKind::Array, normal("a", 24), None, 22..27),
    ]);
    assert!(snap.errors.is_empty());
    let tables = array_at(&snap.root, "a");
    assert_eq!(tables.len(), 2);
    match (&tables[0], &tables[1]) {
        (Value::Table(first), Value::Table(second)) => {
            assert_eq!(integer_at(first, "x"), Some(5));
            assert!(!first.global.get("x").unwrap().is_default);
            assert_eq!(integer_at(second, "x"), Some(1));
            assert!(second.global.get("x").unwrap().is_default);
            assert_eq!(second.global.get("x").unwrap().defined, 7..8);
        }
        other => panic!("not two tables: {:?}", other),
    }
}

#[test]
fn a_different_header_closes_the_open_section() {
    // [a]
    // x = 1
    // [b]
    // x = 2
    let snap = run(vec![
        header(TableHeaderKind::Normal, normal("a", 1), None, 0..3),
        binding(normal("x", 4), integer(1, 8)),
        header(TableHeaderKind::Normal, normal("b", 11), None, 10..13),
        binding(normal("x", 14), integer(2, 18)),
    ]);
    assert!(snap.errors.is_empty());
    assert_eq!(snap.root.global.len(), 2);
    assert_eq!(integer_at(table_at(&snap.root, "a"), "x"), Some(1));
    assert_eq!(integer_at(table_at(&snap.root, "b"), "x"), Some(2));
    assert_eq!(snap.root.global.get("a").unwrap().defined, 1..2);
    assert!(snap.root.global.get("a").unwrap().exported);
}

#[test]
fn a_normal_header_is_never_continued() {
    // [a]
    // [a]
    let snap = run(vec![
        header(TableHeaderKind::Normal, normal("a", 1), None, 0..3),
        header(TableHeaderKind::Normal, normal("a", 5), None, 4..7),
    ]);
    assert_eq!(
        snap.errors,
        vec![Error::DuplicateKey {
            existing: Span { file_id: 7, span: 1..2 },
            found: Span { file_id: 7, span: 5..6 },
        }]
    );
}

#[test]
fn array_headers_of_other_namespace_do_not_continue() {
    // [[a]]
    // [[_a]]
    let snap = run(vec![
        header(TableHeaderKind::Array, normal("a", 2), None, 0..5),
        header(TableHeaderKind::Array, local("a", 8), None, 6..12),
    ]);
    assert_eq!(array_at(&snap.root, "a").len(), 1);
    assert_eq!(
        snap.errors,
        vec![Error::DuplicateKey {
            existing: Span { file_id: 7, span: 2..3 },
            found: Span { file_id: 7, span: 9..10 },
        }]
    );
}

#[test]
fn default_that_is_no_table_is_a_kind_mismatch() {
    // [t = 1]
    // x = 2
    let snap = run(vec![
        header(TableHeaderKind::Normal, normal("t", 1), Some(integer(1, 5)), 0..7),
        binding(normal("x", 8), integer(2, 12)),
    ]);
    assert_eq!(
        snap.errors,
        vec![Error::KindMismatch {
            expect: vec![Kind::Table],
            found: Kind::Integer,
            span: Span { file_id: 7, span: 5..6 },
        }]
    );
    assert_eq!(integer_at(table_at(&snap.root, "t"), "x"), Some(2));
    assert_eq!(table_at(&snap.root, "t").global.len(), 1);
}

#[test]
fn builtin_takes_only_strings() {
    // @output = 1
    let snap = run(vec![binding(builtin("output", 0), integer(1, 10))]);
    assert_eq!(snap.builtin.output, None);
    assert_eq!(
        snap.errors,
        vec![Error::KindMismatch {
            expect: vec![Kind::String],
            found: Kind::Integer,
            span: Span { file_id: 7, span: 1..7 },
        }]
    );
}

#[test]
fn builtin_is_overwritten_without_a_diagnostic() {
    // @output = "a"
    // @filetype = "elf"
    // @output = "b"
    let snap = run(vec![
        binding(builtin("output", 0), text("a", 10)),
        binding(builtin("filetype", 14), text("elf", 26)),
        binding(builtin("output", 32), text("b", 42)),
    ]);
    assert!(snap.errors.is_empty());
    assert_eq!(snap.builtin.output, Some("b".to_string()));
    assert_eq!(snap.builtin.filetype, Some("elf".to_string()));
    assert_eq!(snap.root.global.len(), 0);
}

#[test]
fn builtin_under_a_local_key_does_not_exist() {
    // @_output = "a"
    let pattern = Pattern { kind: PatternKind::Builtin(key(KeyKind::Local, "output", 2)), span: 0..8 };
    let snap = run(vec![binding(pattern, text("a", 11))]);
    assert_eq!(snap.builtin.output, None);
    assert_eq!(snap.errors, vec![Error::BuiltinNotFound { span: Span { file_id: 7, span: 2..8 } }]);
}

#[test]
fn builtin_names_are_case_sensitive() {
    // @Output = "a"
    let snap = run(vec![binding(builtin("Output", 0), text("a", 10))]);
    assert_eq!(snap.builtin.output, None);
    assert_eq!(snap.errors, vec![Error::BuiltinNotFound { span: Span { file_id: 7, span: 1..7 } }]);
}

#[test]
fn builtin_binding_inside_a_section_leaves_the_section_alone() {
    // [t]
    // @output = "a"
    // x = 1
    let snap = run(vec![
        header(TableHeaderKind::Normal, normal("t", 1), None, 0..3),
        binding(builtin("output", 4), text("a", 14)),
        binding(normal("x", 18), integer(1, 22)),
    ]);
    assert!(snap.errors.is_empty());
    assert_eq!(snap.builtin.output, Some("a".to_string()));
    assert_eq!(table_at(&snap.root, "t").global.len(), 1);
    assert_eq!(integer_at(table_at(&snap.root, "t"), "x"), Some(1));
}

#[test]
fn header_on_a_builtin_pattern_is_a_kind_mismatch_when_it_closes() {
    // [@output]
    let snap = run(vec![header(TableHeaderKind::Normal, builtin("output", 1), None, 0..9)]);
    assert_eq!(snap.builtin.output, None);
    assert_eq!(snap.root.global.len(), 0);
    assert_eq!(
        snap.errors,
        vec![Error::KindMismatch {
            expect: vec![Kind::String],
            found: Kind::Table,
            span: Span { file_id: 7, span: 2..8 },
        }]
    );
}

#[test]
fn shapes_that_are_not_handled_are_reported_and_skipped() {
    let unknown_stmt = Statement { kind: StatementKind::Unknown, span: 0..3 };
    let unknown_pattern = Pattern { kind: PatternKind::Unknown, span: 4..5 };
    let unknown_expr = Expression { kind: ExpressionKind::Unknown, span: 14..15 };
    let unknown_key = Pattern { kind: PatternKind::Key(key(KeyKind::Builtin, "q", 16)), span: 16..17 };
    let snap = run(vec![
        unknown_stmt,
        binding(unknown_pattern, integer(1, 8)),
        binding(normal("e", 10), unknown_expr),
        binding(unknown_key, integer(2, 20)),
        binding(normal("k", 22), integer(3, 26)),
    ]);
    assert_eq!(
        snap.errors,
        vec![
            Error::NotSupported { feature: "unknown statements", span: Span { file_id: 7, span: 0..3 } },
            Error::NotSupported { feature: "unknown pattern", span: Span { file_id: 7, span: 4..5 } },
            Error::NotSupported { feature: "unknown expressions", span: Span { file_id: 7, span: 14..15 } },
            Error::NotSupported { feature: "unknown keys", span: Span { file_id: 7, span: 16..17 } },
        ]
    );
    // The unknown expression evaluates to an empty table, and later statements still count.
    assert_eq!(table_at(&snap.root, "e").global.len(), 0);
    assert_eq!(integer_at(&snap.root, "k"), Some(3));
    assert_eq!(snap.root.global.len(), 2);
}

#[test]
fn an_early_diagnostic_does_not_suppress_a_later_one() {
    // [[a]]
    // [[a = {x = 1}]]
    // y = 1
    // y = 2
    let default = inline(vec![(key(KeyKind::Normal, "x", 13), integer(1, 17))], 12..19);
    let snap = run(vec![
        header(TableHeaderKind::Array, normal("a", 2), None, 0..5),
        header(TableHeaderKind::Array, normal("a", 8), Some(default), 6..21),
        binding(normal("y", 22), integer(1, 26)),
        binding(normal("y", 28), integer(2, 32)),
    ]);
    assert_eq!(
        snap.errors,
        vec![
            Error::UnallowedDefaultValue { span: Span { file_id: 7, span: 12..19 } },
            Error::DuplicateKey {
                existing: Span { file_id: 7, span: 22..23 },
                found: Span { file_id: 7, span: 28..29 },
            },
        ]
    );
}

#[test]
fn expressions_evaluate_structurally() {
    // v = ['c', "s", 1, [2], {a = 3, a = 4}]
    let array = Expression {
        kind: ExpressionKind::Array(vec![
            Expression { kind: ExpressionKind::Literal(Literal::Character('c')), span: 5..8 },
            text("s", 10),
            integer(1, 15),
            Expression { kind: ExpressionKind::Array(vec![integer(2, 19)]), span: 18..21 },
            inline(
                vec![
                    (key(KeyKind::Normal, "a", 24), integer(3, 28)),
                    (key(KeyKind::Local, "a", 31), integer(4, 35)),
                ],
                23..37,
            ),
        ]),
        span: 4..38,
    };
    let snap = run(vec![binding(normal("v", 0), array)]);
    assert_eq!(
        snap.errors,
        vec![Error::DuplicateKey {
            existing: Span { file_id: 7, span: 24..25 },
            found: Span { file_id: 7, span: 31..32 },
        }]
    );
    let values = array_at(&snap.root, "v");
    assert_eq!(values.len(), 5);
    assert_eq!(values[0], Value::Character('c'));
    assert_eq!(values[1], Value::String("s".to_string()));
    assert_eq!(values[2], Value::Integer(1));
    assert_eq!(values[3], Value::Array(vec![Value::Integer(2)]));
    match &values[4] {
        Value::Table(t) => {
            assert_eq!(integer_at(t, "a"), Some(3));
            assert_eq!(t.global.len(), 1);
        }
        other => panic!("not a table: {:?}", other),
    }
    assert_eq!(values[0].kind(), Kind::Character);
    assert_eq!(values[1].kind(), Kind::String);
    assert_eq!(values[2].kind(), Kind::Integer);
    assert_eq!(values[3].kind(), Kind::Array);
    assert_eq!(values[4].kind(), Kind::Table);
}

#[test]
fn empty_document_leaves_nothing_behind() {
    let snap = run(vec![]);
    assert!(snap.errors.is_empty());
    assert_eq!(snap.root.global.len(), 0);
    assert_eq!(snap.root.local.len(), 0);
    assert_eq!(snap.builtin.output, None);
    assert_eq!(snap.builtin.filetype, None);
}
