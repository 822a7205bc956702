use drake::ast::{
    Expression, ExpressionKind, Key, KeyKind, Literal, Pattern, PatternKind, Statement, StatementKind,
    TableHeaderKind,
};
use drake::render::{number_to_text, Piece};
use drake::token::{Identifier, IdentifierKind, Literal as TokenLit, Radix, StringKind, Symbol, Token};
use drake::value::FloatParts;
use somen_language::numeric::float::compute_float;

fn join(pieces: Vec<Piece>) -> String {
    let mut out = String::new();
    for piece in pieces {
        match piece {
            Piece::Text(text) => out.push_str(&text),
            Piece::Float(parts) => {
                let value: f64 = compute_float(false, parts.mantissa, parts.exponent)
                    .unwrap_or_else(|| parts.mantissa as f64 * 10f64.powi(parts.exponent));
                out.push_str(&value.to_string());
            }
        }
    }
    out
}

fn key(kind: KeyKind, name: &str) -> Key<usize> {
    Key { kind, name: name.to_string(), span: 0..0 }
}

fn lit(l: Literal) -> Expression<usize> {
    Expression { kind: ExpressionKind::Literal(l), span: 0..0 }
}

#[test]
fn keys_and_patterns_are_written_with_their_prefixes() {
    assert_eq!(key(KeyKind::Normal, "abc").to_text(), "abc");
    assert_eq!(key(KeyKind::Local, "abc").to_text(), "_abc");
    assert_eq!(key(KeyKind::Builtin, "abc").to_text(), "@abc");
    let pattern = |kind: PatternKind<usize>| Pattern { kind, span: 0..0 };
    assert_eq!(pattern(PatternKind::Key(key(KeyKind::Local, "k"))).to_text(), "_k");
    assert_eq!(pattern(PatternKind::Builtin(key(KeyKind::Normal, "output"))).to_text(), "@output");
    assert_eq!(pattern(PatternKind::Builtin(key(KeyKind::Local, "x"))).to_text(), "@_x");
    assert_eq!(pattern(PatternKind::Unknown).to_text(), "");
}

#[test]
fn statements_are_written_as_they_are_read() {
    let pattern = || Pattern { kind: PatternKind::Key(key(KeyKind::Normal, "t")), span: 0..0 };
    let array = Expression {
        kind: ExpressionKind::Array(vec![
            lit(Literal::Integer(1)),
            lit(Literal::Character('a')),
            lit(Literal::String("s\n".to_string())),
            lit(Literal::Float(FloatParts { mantissa: 25, exponent: -1 })),
            Expression { kind: ExpressionKind::Array(vec![]), span: 0..0 },
        ]),
        span: 0..0,
    };
    let binding = Statement { kind: StatementKind::ValueBinding(pattern(), array), span: 0..0 };
    assert_eq!(join(binding.render()), "t = [1, 'a', \"s\\n\", 2.5, []]");

    let table = || Expression {
        kind: ExpressionKind::InlineTable(vec![
            (key(KeyKind::Normal, "x"), lit(Literal::Integer(10))),
            (key(KeyKind::Local, "y"), Expression { kind: ExpressionKind::InlineTable(vec![]), span: 0..0 }),
        ]),
        span: 0..0,
    };
    let header = |kind: TableHeaderKind, default: Option<Expression<usize>>| Statement {
        kind: StatementKind::TableHeader(kind, pattern(), default),
        span: 0..0,
    };
    assert_eq!(join(header(TableHeaderKind::Normal, None).render()), "[t]");
    assert_eq!(join(header(TableHeaderKind::Array, None).render()), "[[t]]");
    assert_eq!(join(header(TableHeaderKind::Normal, Some(table())).render()), "[t = {x = 10, _y = {}}]");
    assert_eq!(join(header(TableHeaderKind::Array, Some(table())).render()), "[[t = {x = 10, _y = {}}]]");
    assert_eq!(join(Statement::<usize> { kind: StatementKind::Unknown, span: 0..0 }.render()), "");
}

#[test]
fn expression_pieces_keep_floats_apart() {
    let mut out = Vec::new();
    lit(Literal::Float(FloatParts { mantissa: 1, exponent: 3 })).render(&mut out);
    assert_eq!(out, vec![Piece::Float(FloatParts { mantissa: 1, exponent: 3 })]);
    let mut out = vec![Piece::Text("x".to_string())];
    Literal::Integer(0).render(&mut out);
    assert_eq!(out, vec![Piece::Text("x".to_string()), Piece::Text("0".to_string())]);
}

#[test]
fn numbers_are_written_in_their_radix() {
    assert_eq!(number_to_text(0, 10), "0");
    assert_eq!(number_to_text(u64::MAX, 10), "18446744073709551615");
    assert_eq!(number_to_text(0b1011, 2), "1011");
    assert_eq!(number_to_text(0o644, 8), "644");
    assert_eq!(number_to_text(0xdeadbeef, 16), "deadbeef");
    assert_eq!(number_to_text(35, 36), "z");
}

#[test]
fn tokens_are_written() {
    assert_eq!(join(Token::Newline.render()), "newline");
    assert_eq!(join(Token::Whitespaces.render()), "whitespaces");
    assert_eq!(join(Token::Comment(" hi".to_string()).render()), "//  hi");
    assert_eq!(join(Token::Symbol(Symbol::BackSlash).render()), "\\");
    assert_eq!(Symbol::Assign.to_text(), "=");
    assert_eq!(Symbol::OpenBrace.to_char(), '{');
    let bare = Identifier { kind: IdentifierKind::Bare, name: "abc".to_string() };
    assert_eq!(join(Token::Identifier(bare).render()), "abc");
    let raw = Identifier { kind: IdentifierKind::Raw, name: "a {b}\n".to_string() };
    assert_eq!(raw.to_text(), "${a \\{b}\\n}");
    assert_eq!(join(Token::Literal(TokenLit::Integer(5, Radix::Binary)).render()), "0b101");
    assert_eq!(join(Token::Literal(TokenLit::Integer(8, Radix::Octal)).render()), "0o10");
    assert_eq!(join(Token::Literal(TokenLit::Integer(31, Radix::Hexadecimal)).render()), "0o1f");
    assert_eq!(join(Token::Literal(TokenLit::Integer(31, Radix::Decimal)).render()), "31");
    assert_eq!(join(Token::Literal(TokenLit::Character('\'')).render()), "'\\''");
    assert_eq!(
        join(Token::Literal(TokenLit::String("a\"b".to_string(), StringKind::Normal)).render()),
        "\"a\\\"b\""
    );
    assert_eq!(
        join(Token::Literal(TokenLit::String("ab".to_string(), StringKind::Raw(3))).render()),
        "\"\"\"ab\"\"\""
    );
    assert_eq!(
        join(TokenLit::Float(FloatParts { mantissa: 314, exponent: -2 }).render()),
        "3.14"
    );
}
