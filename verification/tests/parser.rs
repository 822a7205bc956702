use drake::ast::{
    Expression, ExpressionKind, Key, KeyKind, Literal, Pattern, PatternKind, Statement, StatementKind,
    TableHeaderKind,
};
use drake::module::Token as Placed;
use drake::parser;
use drake::scan::Failure;
use drake::token::{Identifier, IdentifierKind, Literal as TokenLit, Radix, StringKind, Symbol, Token};
use drake::value::FloatParts;

/// The tokens, each one position long.
fn place(kinds: &[Token]) -> Vec<Placed> {
    kinds.iter().enumerate().map(|(i, kind)| Placed { kind: kind.clone(), span: i..i + 1 }).collect()
}

/// What a reading of all the tokens comes to: the value, if every token was read.
fn whole<T>(read: impl Fn(&[Placed], usize) -> Result<(T, usize), Failure>, kinds: &[Token]) -> Option<T> {
    let tokens = place(kinds);
    match read(&tokens, 0) {
        Ok((value, next)) if next == tokens.len() => Some(value),
        _ => None,
    }
}

fn ident(name: &str) -> Token {
    Token::Identifier(Identifier { kind: IdentifierKind::Bare, name: String::from(name) })
}

fn chr(c: char) -> Token {
    Token::Literal(TokenLit::Character(c))
}

fn sym(symbol: Symbol) -> Token {
    Token::Symbol(symbol)
}

fn key_of(kind: KeyKind, name: &str, span: std::ops::Range<usize>) -> Key<usize> {
    Key { kind, name: String::from(name), span }
}

fn lit(c: char, span: std::ops::Range<usize>) -> Expression<usize> {
    Expression { kind: ExpressionKind::Literal(Literal::Character(c)), span }
}

#[test]
fn spaces() {
    let parser = |tokens: &[Placed], at: usize| parser::token::spaces(tokens, at, false);
    assert_eq!(whole(parser, &[Token::Whitespaces]), Some(()));
    assert_eq!(whole(parser, &[Token::Comment(String::from("abc"))]), Some(()));
    assert_eq!(
        whole(parser, &[Token::Whitespaces, Token::Comment(String::from("abc")), Token::Whitespaces]),
        Some(())
    );
    assert_eq!(whole(parser, &[sym(Symbol::BackSlash), Token::Newline]), Some(()));
    assert_eq!(
        whole(
            parser,
            &[
                Token::Whitespaces,
                sym(Symbol::BackSlash),
                Token::Newline,
                Token::Comment(String::from("abc")),
                Token::Whitespaces,
                sym(Symbol::BackSlash),
                Token::Newline,
            ]
        ),
        Some(())
    );
    assert_eq!(whole(parser, &[Token::Newline]), None);
    assert_eq!(whole(parser, &[Token::Whitespaces, sym(Symbol::Assign)]), None);
    assert_eq!(whole(parser, &[sym(Symbol::BackSlash)]), None);
    assert_eq!(whole(parser, &[sym(Symbol::BackSlash), Token::Newline, sym(Symbol::Assign)]), None);
}

#[test]
fn spaces_between_brackets_take_line_breaks() {
    let parser = |tokens: &[Placed], at: usize| parser::token::spaces(tokens, at, true);
    assert_eq!(whole(parser, &[Token::Newline, Token::Whitespaces, Token::Newline]), Some(()));
    let tokens = place(&[Token::Whitespaces, sym(Symbol::BackSlash), Token::Whitespaces, sym(Symbol::Assign)]);
    // A backslash without a line break behind it: the failure is where the line break should be.
    assert_eq!(parser::token::spaces(&tokens, 0, true), Err(Failure { at: 3, hard: false }));
    assert_eq!(parser::token::spaces(&tokens, 3, true), Ok(((), 3)));
    assert_eq!(parser::token::spaces(&tokens, 9, true), Ok(((), 9)));
}

#[test]
fn tests_newline() {
    let parser = parser::token::newline;
    assert_eq!(whole(parser, &[Token::Newline]), Some(()));
    assert_eq!(whole(parser, &[Token::Whitespaces, Token::Newline]), Some(()));
    assert_eq!(
        whole(
            parser,
            &[Token::Whitespaces, Token::Comment(String::from("abc")), Token::Whitespaces, Token::Newline]
        ),
        Some(())
    );
}

#[test]
fn tests_literal() {
    let parser = parser::token::literal;
    assert_eq!(whole(parser, &[chr('a')]), Some(Literal::Character('a')));
    assert_eq!(
        whole(parser, &[Token::Literal(TokenLit::String(String::from("abc"), StringKind::Normal))]),
        Some(Literal::String(String::from("abc")))
    );
    assert_eq!(
        whole(parser, &[Token::Literal(TokenLit::Integer(0, Radix::Decimal))]),
        Some(Literal::Integer(0))
    );
    assert_eq!(
        whole(parser, &[Token::Literal(TokenLit::Float(FloatParts { mantissa: 0, exponent: 0 }))]),
        Some(Literal::Float(FloatParts { mantissa: 0, exponent: 0 }))
    );
    assert_eq!(whole(parser, &[Token::Whitespaces]), None);
}

#[test]
fn tests_symbol() {
    let parser = |tokens: &[Placed], at: usize| parser::token::symbol(tokens, at, Symbol::Assign);
    assert_eq!(whole(parser, &[sym(Symbol::Assign)]), Some(()));
    assert_eq!(whole(parser, &[sym(Symbol::Comma)]), None);
    assert_eq!(whole(parser, &[Token::Whitespaces]), None);
}

#[test]
fn tests_identifier() {
    let parser = parser::token::identifier;
    assert_eq!(whole(parser, &[ident("abc")]), Some(String::from("abc")));
    assert_eq!(whole(parser, &[Token::Whitespaces]), None);
}

#[test]
fn key() {
    let parser = parser::key::key;
    assert_eq!(whole(parser, &[ident("abc")]), Some(key_of(KeyKind::Normal, "abc", 0..1)));
    assert_eq!(
        whole(parser, &[sym(Symbol::Underscore), ident("abc")]),
        Some(key_of(KeyKind::Local, "abc", 0..2))
    );
    assert_eq!(whole(parser, &[sym(Symbol::Assign), ident("abc")]), None);
    assert_eq!(whole(parser, &[sym(Symbol::Underscore), Token::Whitespaces, ident("abc")]), None);
}

#[test]
fn key_spans_reach_from_the_prefix_to_the_name() {
    let tokens = place(&[Token::Whitespaces, sym(Symbol::Underscore), ident("abc"), sym(Symbol::At), ident("x")]);
    let (found, next) = parser::key::key(&tokens, 1).expect("a local key stands there");
    assert_eq!(next, 3);
    assert_eq!(found.kind, KeyKind::Local);
    assert_eq!(found.name, "abc");
    assert_eq!(found.span, 1..3);
    let (found, next) = parser::key::key(&tokens, 3).expect("a built-in key stands there");
    assert_eq!(next, 5);
    assert_eq!(found.kind, KeyKind::Builtin);
    assert_eq!(found.span, 3..5);
    assert_eq!(parser::key::key(&tokens, 0), Err(Failure { at: 0, hard: false }));
    // The prefix is read before the name is missed.
    assert_eq!(parser::key::key(&tokens[..2], 1), Err(Failure { at: 2, hard: false }));
}

#[test]
fn pattern() {
    let parser = parser::pattern::pattern;
    assert_eq!(
        whole(parser, &[sym(Symbol::At), ident("abc")]),
        Some(Pattern { kind: PatternKind::Builtin(key_of(KeyKind::Normal, "abc", 1..2)), span: 0..2 })
    );
    assert_eq!(
        whole(parser, &[ident("abc")]),
        Some(Pattern { kind: PatternKind::Key(key_of(KeyKind::Normal, "abc", 0..1)), span: 0..1 })
    );
    assert_eq!(whole(parser, &[Token::Whitespaces]), None);
}

#[test]
fn pattern_spans_are_exact() {
    let tokens = place(&[sym(Symbol::At), sym(Symbol::Underscore), ident("x")]);
    let (found, next) = parser::pattern::pattern(&tokens, 0).expect("a pattern stands there");
    assert_eq!(next, 3);
    assert_eq!(found.span, 0..3);
    match found.kind {
        PatternKind::Builtin(key) => {
            assert_eq!(key.kind, KeyKind::Local);
            assert_eq!(key.span, 1..3);
        }
        other => panic!("not a built-in pattern: {:?}", other),
    }
}

#[test]
fn expression() {
    let parser = parser::expression::expression;
    assert_eq!(whole(parser, &[chr('a')]), Some(lit('a', 0..1)));
    assert_eq!(
        whole(parser, &[sym(Symbol::OpenBracket), sym(Symbol::CloseBracket)]),
        Some(Expression { kind: ExpressionKind::Array(vec![]), span: 0..2 })
    );
    assert_eq!(
        whole(parser, &[sym(Symbol::OpenBrace), sym(Symbol::CloseBrace)]),
        Some(Expression { kind: ExpressionKind::InlineTable(vec![]), span: 0..2 })
    );
    assert_eq!(whole(parser, &[Token::Whitespaces]), None);
}

#[test]
fn array() {
    let parser = parser::expression::array;
    let open = || sym(Symbol::OpenBracket);
    let close = || sym(Symbol::CloseBracket);
    let comma = || sym(Symbol::Comma);
    assert_eq!(whole(parser, &[open(), close()]), Some(vec![]));
    assert_eq!(whole(parser, &[open(), Token::Whitespaces, Token::Newline, close()]), Some(vec![]));
    assert_eq!(
        whole(parser, &[open(), chr('a'), Token::Whitespaces, Token::Newline, comma(), close()]),
        Some(vec![lit('a', 1..2)])
    );
    assert_eq!(
        whole(parser, &[open(), chr('a'), comma(), Token::Whitespaces, Token::Newline, close()]),
        Some(vec![lit('a', 1..2)])
    );
    assert_eq!(
        whole(parser, &[open(), chr('a'), comma(), chr('b'), comma(), close()]),
        Some(vec![lit('a', 1..2), lit('b', 3..4)])
    );
    assert_eq!(whole(parser, &[open(), comma(), close()]), None);
    assert_eq!(whole(parser, &[open(), chr('a'), comma(), comma(), close()]), None);
    assert_eq!(whole(parser, &[open(), chr('a'), chr('b'), close()]), None);
    assert_eq!(
        whole(parser, &[Token::Whitespaces, open(), Token::Whitespaces, close(), Token::Newline]),
        None
    );
    assert_eq!(whole(parser, &[Token::Whitespaces]), None);
}

#[test]
fn inline_table() {
    let parser = parser::expression::inline_table;
    let open = || sym(Symbol::OpenBrace);
    let close = || sym(Symbol::CloseBrace);
    let comma = || sym(Symbol::Comma);
    let assign = || sym(Symbol::Assign);
    assert_eq!(whole(parser, &[open(), close()]), Some(vec![]));
    assert_eq!(whole(parser, &[open(), Token::Whitespaces, Token::Newline, close()]), Some(vec![]));
    assert_eq!(
        whole(
            parser,
            &[
                open(),
                ident("abc"),
                Token::Whitespaces,
                Token::Newline,
                assign(),
                Token::Whitespaces,
                Token::Newline,
                chr('a'),
                Token::Whitespaces,
                Token::Newline,
                comma(),
                Token::Whitespaces,
                Token::Newline,
                close(),
            ]
        ),
        Some(vec![(key_of(KeyKind::Normal, "abc", 1..2), lit('a', 7..8))])
    );
    assert_eq!(whole(parser, &[open(), comma(), close()]), None);
    assert_eq!(whole(parser, &[open(), ident("abc"), close()]), None);
    assert_eq!(whole(parser, &[open(), chr('a'), close()]), None);
    assert_eq!(
        whole(parser, &[open(), ident("abc"), assign(), chr('a'), comma(), comma(), close()]),
        None
    );
    assert_eq!(
        whole(
            parser,
            &[open(), ident("abc"), assign(), chr('a'), ident("def"), assign(), chr('b'), close()]
        ),
        None
    );
    assert_eq!(
        whole(parser, &[Token::Whitespaces, open(), Token::Whitespaces, close(), Token::Newline]),
        None
    );
    assert_eq!(whole(parser, &[Token::Whitespaces]), None);
}

#[test]
fn nested_expressions_keep_their_spans() {
    // [ 'a', { k = [ 'b' ] } ]
    let tokens = place(&[
        sym(Symbol::OpenBracket),
        Token::Whitespaces,
        chr('a'),
        sym(Symbol::Comma),
        Token::Whitespaces,
        sym(Symbol::OpenBrace),
        ident("k"),
        sym(Symbol::Assign),
        sym(Symbol::OpenBracket),
        chr('b'),
        sym(Symbol::CloseBracket),
        sym(Symbol::CloseBrace),
        Token::Whitespaces,
        sym(Symbol::CloseBracket),
    ]);
    let (found, next) = parser::expression::expression(&tokens, 0).expect("an array stands there");
    assert_eq!(next, 14);
    assert_eq!(found.span, 0..14);
    match found.kind {
        ExpressionKind::Array(items) => {
            assert_eq!(items.len(), 2);
            assert_eq!(items[0].span, 2..3);
            assert_eq!(items[1].span, 5..12);
            match &items[1].kind {
                ExpressionKind::InlineTable(pairs) => {
                    assert_eq!(pairs.len(), 1);
                    assert_eq!(pairs[0].0.span, 6..7);
                    assert_eq!(pairs[0].1.span, 8..11);
                    assert!(pairs[0].1 == Expression { kind: ExpressionKind::Array(vec![lit('b', 0..0)]), span: 0..0 });
                }
                other => panic!("not an inline table: {:?}", other),
            }
        }
        other => panic!("not an array: {:?}", other),
    }
    // An array that does not close fails where the bracket should be.
    assert_eq!(parser::expression::expression(&tokens[..13], 0), Err(Failure { at: 13, hard: false }));
    assert_eq!(parser::expression::expression(&tokens, 1), Err(Failure { at: 1, hard: false }));
}

#[test]
fn statement() {
    let parser = parser::statement::statement;
    assert_eq!(
        whole(parser, &[ident("abc"), sym(Symbol::Assign), chr('a')]),
        Some(Statement {
            kind: StatementKind::ValueBinding(
                Pattern { kind: PatternKind::Key(key_of(KeyKind::Normal, "abc", 0..1)), span: 0..1 },
                lit('a', 2..3),
            ),
            span: 0..3,
        })
    );
    assert_eq!(
        whole(parser, &[sym(Symbol::OpenBracket), ident("abc"), sym(Symbol::CloseBracket)]),
        Some(Statement {
            kind: StatementKind::TableHeader(
                TableHeaderKind::Normal,
                Pattern { kind: PatternKind::Key(key_of(KeyKind::Normal, "abc", 1..2)), span: 1..2 },
                None,
            ),
            span: 0..3,
        })
    );
    assert_eq!(whole(parser, &[Token::Whitespaces]), None);
}

#[test]
fn value_binding() {
    let parser = parser::statement::value_binding;
    let pat = || Pattern { kind: PatternKind::Key(key_of(KeyKind::Normal, "abc", 0..1)), span: 0..1 };
    assert_eq!(
        whole(parser, &[ident("abc"), sym(Symbol::Assign), chr('a')]),
        Some((pat(), lit('a', 2..3)))
    );
    assert_eq!(
        whole(
            parser,
            &[ident("abc"), Token::Whitespaces, sym(Symbol::Assign), Token::Whitespaces, chr('a')]
        ),
        Some((pat(), lit('a', 4..5)))
    );
    assert_eq!(whole(parser, &[ident("abc"), sym(Symbol::Assign), Token::Newline, chr('a')]), None);
    assert_eq!(whole(parser, &[Token::Whitespaces]), None);
}

#[test]
fn table_header() {
    let parser = parser::statement::table_header;
    let open = || sym(Symbol::OpenBracket);
    let close = || sym(Symbol::CloseBracket);
    let ws = || Token::Whitespaces;
    let nl = || Token::Newline;
    let pat = |span: std::ops::Range<usize>| Pattern {
        kind: PatternKind::Key(key_of(KeyKind::Normal, "abc", span.clone())),
        span,
    };
    assert_eq!(
        whole(parser, &[open(), ident("abc"), close()]),
        Some((TableHeaderKind::Normal, pat(1..2), None))
    );
    assert_eq!(
        whole(
            parser,
            &[
                open(),
                ws(),
                nl(),
                ident("abc"),
                ws(),
                nl(),
                sym(Symbol::Assign),
                ws(),
                nl(),
                chr('a'),
                ws(),
                nl(),
                close(),
            ]
        ),
        Some((TableHeaderKind::Normal, pat(3..4), Some(lit('a', 9..10))))
    );
    assert_eq!(
        whole(parser, &[open(), open(), ident("abc"), close(), close()]),
        Some((TableHeaderKind::Array, pat(2..3), None))
    );
    assert_eq!(
        whole(
            parser,
            &[
                open(),
                ws(),
                nl(),
                open(),
                ws(),
                nl(),
                ident("abc"),
                ws(),
                nl(),
                sym(Symbol::Assign),
                ws(),
                nl(),
                chr('a'),
                ws(),
                nl(),
                close(),
                ws(),
                nl(),
                close(),
            ]
        ),
        Some((TableHeaderKind::Array, pat(6..7), Some(lit('a', 12..13))))
    );
    assert_eq!(whole(parser, &[open(), close()]), None);
    assert_eq!(whole(parser, &[ws(), open(), ws(), ident("abc"), ws(), close(), ws()]), None);
    assert_eq!(whole(parser, &[ws()]), None);
}

#[test]
fn table_header_takes_no_space_before_the_closing_bracket() {
    let tokens = place(&[sym(Symbol::OpenBracket), ident("a"), Token::Whitespaces, sym(Symbol::CloseBracket)]);
    // Spaces behind the pattern are read as the start of a default, and the sign is missed.
    assert_eq!(parser::statement::table_header(&tokens, 0), Err(Failure { at: 3, hard: false }));
    let tokens = place(&[sym(Symbol::OpenBracket), Token::Whitespaces, ident("a"), sym(Symbol::CloseBracket)]);
    assert!(parser::statement::table_header(&tokens, 0).is_ok());
    // One closing bracket is missing.
    let tokens =
        place(&[sym(Symbol::OpenBracket), sym(Symbol::OpenBracket), ident("a"), sym(Symbol::CloseBracket)]);
    assert_eq!(parser::statement::table_header(&tokens, 0), Err(Failure { at: 4, hard: false }));
}

#[test]
fn parse_reads_statements_that_follow_one_another() {
    // [t]x='a'[[u]]  and then a line break, which begins no statement
    let tokens = place(&[
        sym(Symbol::OpenBracket),
        ident("t"),
        sym(Symbol::CloseBracket),
        ident("x"),
        sym(Symbol::Assign),
        chr('a'),
        sym(Symbol::OpenBracket),
        sym(Symbol::OpenBracket),
        ident("u"),
        sym(Symbol::CloseBracket),
        sym(Symbol::CloseBracket),
        Token::Newline,
        ident("y"),
    ]);
    let (found, end) = parser::parse(&tokens).expect("the tokens begin with statements");
    assert_eq!(end, 11);
    assert_eq!(found.len(), 3);
    assert_eq!(found[0].span, 0..3);
    assert_eq!(found[1].span, 3..6);
    assert_eq!(found[2].span, 6..11);
    match &found[2].kind {
        StatementKind::TableHeader(kind, pattern, default) => {
            assert_eq!(*kind, TableHeaderKind::Array);
            assert_eq!(pattern.span, 8..9);
            assert!(default.is_none());
        }
        other => panic!("not a header: {:?}", other),
    }
    assert_eq!(parser::parse(&[]), Ok((vec![], 0)));
    // A statement that breaks off is a failure.
    assert_eq!(parser::parse(&tokens[..5]), Err(Failure { at: 5, hard: false }));
}
