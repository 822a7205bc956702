//! The grammar of statements, stated on sequences of tokens. Each reading
//! starts at a token of the input and comes to an [`Outcome`]; the spans of
//! what is read are taken from the places of the tokens.
use crate::ast::{
    ExpressionKindView, ExpressionView, KeyKind, KeyView, LiteralView, PatternKindView, PatternView,
    StatementKindView, StatementView, TableHeaderKind,
};
use crate::scan::Outcome;
use crate::token::{LiteralView as TokenLiteral, Symbol, TokenView};
use core::ops::Range;
use vstd::prelude::*;

verus! {

/// Tokens with their places.
pub type Tokens = Seq<(TokenView, Range<usize>)>;

/// The position in the text before the token `at`: the end of the token
/// before it, and 0 before the first token.
pub open spec fn position(tokens: Tokens, at: int) -> usize {
    if at <= 0 || tokens.len() == 0 {
        0
    } else if at <= tokens.len() {
        tokens[at - 1].1.end
    } else {
        tokens[tokens.len() - 1].1.end
    }
}

/// The span from before the token `from` to before the token `to`.
pub open spec fn span(tokens: Tokens, from: int, to: int) -> Range<usize> {
    position(tokens, from)..position(tokens, to)
}

/// Whether the symbol stands at `at`.
pub open spec fn symbol_at(tokens: Tokens, at: int, symbol: Symbol) -> bool {
    0 <= at < tokens.len() && tokens[at].0 == TokenView::Symbol(symbol)
}

/// Whether blanks or a comment stand at `at`.
pub open spec fn blank_at(tokens: Tokens, at: int) -> bool {
    0 <= at < tokens.len() && (tokens[at].0 is Whitespaces || tokens[at].0 is Comment)
}

/// Whether a space stands at `at`: blanks, a comment, or, between brackets,
/// a line break.
pub open spec fn space_at(tokens: Tokens, at: int, in_bracket: bool) -> bool {
    blank_at(tokens, at) || (in_bracket && 0 <= at < tokens.len() && tokens[at].0 is Newline)
}

/// The end of the run of blanks and comments that starts at `at`.
pub open spec fn blank_end(tokens: Tokens, at: int) -> int
    decreases tokens.len() - at,
{
    if blank_at(tokens, at) {
        blank_end(tokens, at + 1)
    } else {
        at
    }
}

/// A newline: blanks and comments, if any, and then a line break.
pub open spec fn newline(tokens: Tokens, at: int) -> Outcome<()> {
    let end = blank_end(tokens, at);
    if 0 <= end < tokens.len() && tokens[end].0 is Newline {
        Outcome::Done((), end + 1)
    } else {
        Outcome::Failed(end, false)
    }
}

/// Spaces and line continuations, as many as follow one another: a space,
/// or a backslash with a newline behind it.
pub open spec fn spaces(tokens: Tokens, at: int, in_bracket: bool) -> Outcome<()>
    decreases tokens.len() - at,
{
    if space_at(tokens, at, in_bracket) {
        spaces(tokens, at + 1, in_bracket)
    } else if symbol_at(tokens, at, Symbol::BackSlash) {
        match newline(tokens, at + 1) {
            Outcome::Done(_, next) => if at < next <= tokens.len() {
                spaces(tokens, next, in_bracket)
            } else {
                Outcome::Done((), at)
            },
            Outcome::Failed(p, hard) => Outcome::Failed(p, hard),
        }
    } else {
        Outcome::Done((), at)
    }
}

/// The literal of an expression that the literal of a token stands for.
pub open spec fn literal_of(lit: TokenLiteral) -> LiteralView {
    match lit {
        TokenLiteral::Character(c) => LiteralView::Character(c),
        TokenLiteral::String(s, _) => LiteralView::String(s),
        TokenLiteral::Integer(i, _) => LiteralView::Integer(i),
        TokenLiteral::Float(f) => LiteralView::Float(f),
    }
}

/// A literal: one token.
pub open spec fn literal(tokens: Tokens, at: int) -> Outcome<LiteralView> {
    if 0 <= at < tokens.len() && tokens[at].0 is Literal {
        Outcome::Done(literal_of(tokens[at].0->Literal_0), at + 1)
    } else {
        Outcome::Failed(at, false)
    }
}

/// A specified symbol: one token.
pub open spec fn symbol(tokens: Tokens, at: int, sym: Symbol) -> Outcome<()> {
    if symbol_at(tokens, at, sym) {
        Outcome::Done((), at + 1)
    } else {
        Outcome::Failed(at, false)
    }
}

/// An identifier: one token. It comes to the name.
pub open spec fn identifier(tokens: Tokens, at: int) -> Outcome<Seq<char>> {
    if 0 <= at < tokens.len() && tokens[at].0 is Identifier {
        Outcome::Done(tokens[at].0->Identifier_0.name, at + 1)
    } else {
        Outcome::Failed(at, false)
    }
}

/// A key: an identifier, behind an underscore for a local key and behind an
/// at sign for a built-in key.
pub open spec fn key(tokens: Tokens, at: int) -> Outcome<KeyView<usize>> {
    let kind = if symbol_at(tokens, at, Symbol::Underscore) {
        KeyKind::Local
    } else if symbol_at(tokens, at, Symbol::At) {
        KeyKind::Builtin
    } else {
        KeyKind::Normal
    };
    let name = if kind == KeyKind::Normal {
        at
    } else {
        at + 1
    };
    match identifier(tokens, name) {
        Outcome::Done(text, next) => Outcome::Done(
            KeyView { kind, name: text, span: span(tokens, at, next) },
            next,
        ),
        Outcome::Failed(p, hard) => Outcome::Failed(p, hard),
    }
}

/// A pattern: a key behind an at sign, which is a built-in pattern, or a key.
pub open spec fn pattern(tokens: Tokens, at: int) -> Outcome<PatternView<usize>> {
    if symbol_at(tokens, at, Symbol::At) {
        match key(tokens, at + 1) {
            Outcome::Done(k, next) => Outcome::Done(
                PatternView { kind: PatternKindView::Builtin(k), span: span(tokens, at, next) },
                next,
            ),
            Outcome::Failed(p, hard) => Outcome::Failed(p, hard),
        }
    } else {
        match key(tokens, at) {
            Outcome::Done(k, next) => Outcome::Done(
                PatternView { kind: PatternKindView::Key(k), span: span(tokens, at, next) },
                next,
            ),
            Outcome::Failed(p, hard) => Outcome::Failed(p, hard),
        }
    }
}

/// What follows an element of a list: spaces, and then either a comma with
/// spaces behind it, after which the list goes on, or the end of the list.
/// It comes to whether the list goes on.
pub open spec fn separator(tokens: Tokens, at: int) -> Outcome<bool> {
    match spaces(tokens, at, true) {
        Outcome::Failed(p, hard) => Outcome::Failed(p, hard),
        Outcome::Done(_, comma) => if symbol_at(tokens, comma, Symbol::Comma) {
            match spaces(tokens, comma + 1, true) {
                Outcome::Failed(p, hard) => Outcome::Failed(p, hard),
                Outcome::Done(_, next) => Outcome::Done(true, next),
            }
        } else {
            Outcome::Done(false, comma)
        },
    }
}

/// An expression: a literal, an array or an inline table.
pub open spec fn expression(tokens: Tokens, at: int) -> Outcome<ExpressionView<usize>>
    decreases tokens.len() - at, 0int,
{
    if literal(tokens, at) is Done {
        Outcome::Done(
            ExpressionView {
                kind: ExpressionKindView::Literal(literal(tokens, at)->Done_0),
                span: span(tokens, at, at + 1),
            },
            at + 1,
        )
    } else if symbol_at(tokens, at, Symbol::OpenBracket) {
        match spaces(tokens, at + 1, true) {
            Outcome::Failed(p, hard) => Outcome::Failed(p, hard),
            Outcome::Done(_, first) => if at < first <= tokens.len() {
                match array_items(tokens, first, Seq::empty()) {
                    Outcome::Failed(p, hard) => Outcome::Failed(p, hard),
                    Outcome::Done(items, close) => if symbol_at(
                        tokens,
                        close,
                        Symbol::CloseBracket,
                    ) {
                        Outcome::Done(
                            ExpressionView {
                                kind: ExpressionKindView::Array(items),
                                span: span(tokens, at, close + 1),
                            },
                            close + 1,
                        )
                    } else {
                        Outcome::Failed(close, false)
                    },
                }
            } else {
                Outcome::Failed(at, false)
            },
        }
    } else if symbol_at(tokens, at, Symbol::OpenBrace) {
        match spaces(tokens, at + 1, true) {
            Outcome::Failed(p, hard) => Outcome::Failed(p, hard),
            Outcome::Done(_, first) => if at < first <= tokens.len() {
                match table_items(tokens, first, Seq::empty()) {
                    Outcome::Failed(p, hard) => Outcome::Failed(p, hard),
                    Outcome::Done(items, close) => if symbol_at(tokens, close, Symbol::CloseBrace) {
                        Outcome::Done(
                            ExpressionView {
                                kind: ExpressionKindView::InlineTable(items),
                                span: span(tokens, at, close + 1),
                            },
                            close + 1,
                        )
                    } else {
                        Outcome::Failed(close, false)
                    },
                }
            } else {
                Outcome::Failed(at, false)
            },
        }
    } else {
        Outcome::Failed(at, false)
    }
}

/// The elements of an array from `at` on, after those of `found`:
/// expressions with commas between them, and one behind the last if there is
/// one, with spaces around the commas.
pub open spec fn array_items(tokens: Tokens, at: int, found: Seq<ExpressionView<usize>>) -> Outcome<
    Seq<ExpressionView<usize>>,
>
    decreases tokens.len() - at, 1int,
{
    match expression(tokens, at) {
        Outcome::Failed(p, hard) => if !hard && p == at {
            Outcome::Done(found, at)
        } else {
            Outcome::Failed(p, hard)
        },
        Outcome::Done(item, end) => match separator(tokens, end) {
            Outcome::Failed(p, hard) => Outcome::Failed(p, hard),
            Outcome::Done(more, next) => if more && at < next <= tokens.len() {
                array_items(tokens, next, found.push(item))
            } else {
                Outcome::Done(found.push(item), next)
            },
        },
    }
}

/// A key, an assign sign and an expression, with spaces around the sign.
pub open spec fn table_item(tokens: Tokens, at: int) -> Outcome<
    (KeyView<usize>, ExpressionView<usize>),
>
    decreases tokens.len() - at, 1int,
{
    match key(tokens, at) {
        Outcome::Failed(p, hard) => Outcome::Failed(p, hard),
        Outcome::Done(k, end) => match spaces(tokens, end, true) {
            Outcome::Failed(p, hard) => Outcome::Failed(p, hard),
            Outcome::Done(_, sign) => if symbol_at(tokens, sign, Symbol::Assign) {
                match spaces(tokens, sign + 1, true) {
                    Outcome::Failed(p, hard) => Outcome::Failed(p, hard),
                    Outcome::Done(_, value) => if at < value <= tokens.len() {
                        match expression(tokens, value) {
                            Outcome::Failed(p, hard) => Outcome::Failed(p, hard),
                            Outcome::Done(e, next) => Outcome::Done((k, e), next),
                        }
                    } else {
                        Outcome::Failed(sign, false)
                    },
                }
            } else {
                Outcome::Failed(sign, false)
            },
        },
    }
}

/// The elements of an inline table from `at` on, after those of `found`:
/// keys with their expressions, with commas between them, and one behind the
/// last if there is one, with spaces around the commas.
pub open spec fn table_items(
    tokens: Tokens,
    at: int,
    found: Seq<(KeyView<usize>, ExpressionView<usize>)>,
) -> Outcome<Seq<(KeyView<usize>, ExpressionView<usize>)>>
    decreases tokens.len() - at, 2int,
{
    match table_item(tokens, at) {
        Outcome::Failed(p, hard) => if !hard && p == at {
            Outcome::Done(found, at)
        } else {
            Outcome::Failed(p, hard)
        },
        Outcome::Done(item, end) => match separator(tokens, end) {
            Outcome::Failed(p, hard) => Outcome::Failed(p, hard),
            Outcome::Done(more, next) => if more && at < next <= tokens.len() {
                table_items(tokens, next, found.push(item))
            } else {
                Outcome::Done(found.push(item), next)
            },
        },
    }
}

/// An array: the elements between brackets.
pub open spec fn array(tokens: Tokens, at: int) -> Outcome<Seq<ExpressionView<usize>>> {
    if symbol_at(tokens, at, Symbol::OpenBracket) {
        match expression(tokens, at) {
            Outcome::Done(e, next) => Outcome::Done(e.kind->Array_0, next),
            Outcome::Failed(p, hard) => Outcome::Failed(p, hard),
        }
    } else {
        Outcome::Failed(at, false)
    }
}

/// An inline table: the elements between braces.
pub open spec fn inline_table(tokens: Tokens, at: int) -> Outcome<
    Seq<(KeyView<usize>, ExpressionView<usize>)>,
> {
    if symbol_at(tokens, at, Symbol::OpenBrace) {
        match expression(tokens, at) {
            Outcome::Done(e, next) => Outcome::Done(e.kind->InlineTable_0, next),
            Outcome::Failed(p, hard) => Outcome::Failed(p, hard),
        }
    } else {
        Outcome::Failed(at, false)
    }
}

/// An assign sign with spaces around it, from `at` on. It comes to nothing
/// but the position behind it.
pub open spec fn assign(tokens: Tokens, at: int, in_bracket: bool) -> Outcome<()> {
    match spaces(tokens, at, in_bracket) {
        Outcome::Failed(p, hard) => Outcome::Failed(p, hard),
        Outcome::Done(_, sign) => if symbol_at(tokens, sign, Symbol::Assign) {
            spaces(tokens, sign + 1, in_bracket)
        } else {
            Outcome::Failed(sign, false)
        },
    }
}

/// A value binding: a pattern, an assign sign and an expression, with spaces
/// around the sign but no line break.
pub open spec fn value_binding(tokens: Tokens, at: int) -> Outcome<
    (PatternView<usize>, ExpressionView<usize>),
> {
    match pattern(tokens, at) {
        Outcome::Failed(p, hard) => Outcome::Failed(p, hard),
        Outcome::Done(pat, end) => match assign(tokens, end, false) {
            Outcome::Failed(p, hard) => Outcome::Failed(p, hard),
            Outcome::Done(_, value) => match expression(tokens, value) {
                Outcome::Failed(p, hard) => Outcome::Failed(p, hard),
                Outcome::Done(e, next) => Outcome::Done((pat, e), next),
            },
        },
    }
}

/// What stands between the brackets of a table header: a pattern, and then,
/// if an assign sign follows, a default expression. Spaces may stand around
/// the sign; spaces behind the pattern with no sign behind them are a failure.
pub open spec fn table_header_inner(tokens: Tokens, at: int) -> Outcome<
    (PatternView<usize>, Option<ExpressionView<usize>>),
> {
    match pattern(tokens, at) {
        Outcome::Failed(p, hard) => Outcome::Failed(p, hard),
        Outcome::Done(pat, end) => match assign(tokens, end, true) {
            Outcome::Failed(p, hard) => if !hard && p == end {
                Outcome::Done((pat, None), end)
            } else {
                Outcome::Failed(p, hard)
            },
            Outcome::Done(_, value) => match expression(tokens, value) {
                Outcome::Failed(p, hard) => Outcome::Failed(p, hard),
                Outcome::Done(e, next) => Outcome::Done((pat, Some(e)), next),
            },
        },
    }
}

/// A closing bracket with spaces before it, if any.
pub open spec fn closing(tokens: Tokens, at: int) -> Outcome<()> {
    match spaces(tokens, at, true) {
        Outcome::Failed(p, hard) => Outcome::Failed(p, hard),
        Outcome::Done(_, bracket) => symbol(tokens, bracket, Symbol::CloseBracket),
    }
}

/// A table header: what stands between one pair of brackets, or between two
/// for an array of tables. Spaces may stand behind each opening bracket and
/// before each closing one.
pub open spec fn table_header(tokens: Tokens, at: int) -> Outcome<
    (TableHeaderKind, PatternView<usize>, Option<ExpressionView<usize>>),
> {
    if !symbol_at(tokens, at, Symbol::OpenBracket) {
        Outcome::Failed(at, false)
    } else {
        match spaces(tokens, at + 1, true) {
            Outcome::Failed(p, hard) => Outcome::Failed(p, hard),
            Outcome::Done(_, second) => {
                let is_array = symbol_at(tokens, second, Symbol::OpenBracket);
                let before = if is_array {
                    spaces(tokens, second + 1, true)
                } else {
                    Outcome::Done((), second)
                };
                match before {
                    Outcome::Failed(p, hard) => Outcome::Failed(p, hard),
                    Outcome::Done(_, inner) => match table_header_inner(tokens, inner) {
                        Outcome::Failed(p, hard) => Outcome::Failed(p, hard),
                        Outcome::Done((pat, default), end) => match closing(tokens, end) {
                            Outcome::Failed(p, hard) => Outcome::Failed(p, hard),
                            Outcome::Done(_, once) => if !is_array {
                                Outcome::Done((TableHeaderKind::Normal, pat, default), once)
                            } else {
                                match closing(tokens, once) {
                                    Outcome::Failed(p, hard) => Outcome::Failed(p, hard),
                                    Outcome::Done(_, twice) => Outcome::Done(
                                        (TableHeaderKind::Array, pat, default),
                                        twice,
                                    ),
                                }
                            },
                        },
                    },
                }
            },
        }
    }
}

/// A statement: a value binding, or else a table header.
pub open spec fn statement(tokens: Tokens, at: int) -> Outcome<StatementView<usize>> {
    match value_binding(tokens, at) {
        Outcome::Done((pat, e), next) => Outcome::Done(
            StatementView {
                kind: StatementKindView::ValueBinding(pat, e),
                span: span(tokens, at, next),
            },
            next,
        ),
        Outcome::Failed(p, hard) => if !(!hard && p == at) {
            Outcome::Failed(p, hard)
        } else {
            match table_header(tokens, at) {
                Outcome::Done((kind, pat, default), next) => Outcome::Done(
                    StatementView {
                        kind: StatementKindView::TableHeader(kind, pat, default),
                        span: span(tokens, at, next),
                    },
                    next,
                ),
                Outcome::Failed(p, hard) => Outcome::Failed(p, hard),
            }
        },
    }
}

/// The statements from `at` up to where no further one begins, after those
/// of `found`. They follow one another with nothing between them.
pub open spec fn statements(tokens: Tokens, at: int, found: Seq<StatementView<usize>>) -> Outcome<
    Seq<StatementView<usize>>,
>
    decreases tokens.len() - at,
{
    match statement(tokens, at) {
        Outcome::Done(stmt, next) => if at < next <= tokens.len() {
            statements(tokens, next, found.push(stmt))
        } else {
            Outcome::Done(found, at)
        },
        Outcome::Failed(p, hard) => if !hard && p == at {
            Outcome::Done(found, at)
        } else {
            Outcome::Failed(p, hard)
        },
    }
}

/// Spaces end at or behind where they begin, inside the tokens.
pub proof fn lemma_spaces_advance(tokens: Tokens, at: int, in_bracket: bool)
    requires
        0 <= at,
    ensures
        match spaces(tokens, at, in_bracket) {
            Outcome::Done(_, next) => at <= next && (at <= tokens.len() ==> next <= tokens.len()),
            Outcome::Failed(p, _) => at < p && (at <= tokens.len() ==> p <= tokens.len()),
        },
    decreases tokens.len() - at,
{
    if space_at(tokens, at, in_bracket) {
        lemma_spaces_advance(tokens, at + 1, in_bracket);
    } else if symbol_at(tokens, at, Symbol::BackSlash) {
        lemma_blank_end(tokens, at + 1);
        match newline(tokens, at + 1) {
            Outcome::Done(_, next) => {
                lemma_spaces_advance(tokens, next, in_bracket);
            },
            Outcome::Failed(_, _) => {},
        }
    }
}

/// A run of blanks ends at or behind where it begins, inside the tokens.
pub proof fn lemma_blank_end(tokens: Tokens, at: int)
    requires
        0 <= at,
    ensures
        at <= blank_end(tokens, at),
        at <= tokens.len() ==> blank_end(tokens, at) <= tokens.len(),
    decreases tokens.len() - at,
{
    if blank_at(tokens, at) {
        lemma_blank_end(tokens, at + 1);
    }
}

/// An expression ends behind where it begins, inside the tokens, and where
/// it breaks off is inside the tokens too.
pub proof fn lemma_expression_advances(tokens: Tokens, at: int)
    requires
        0 <= at <= tokens.len(),
    ensures
        match expression(tokens, at) {
            Outcome::Done(_, next) => at < next <= tokens.len(),
            Outcome::Failed(p, _) => at <= p <= tokens.len(),
        },
    decreases tokens.len() - at, 0int,
{
    if symbol_at(tokens, at, Symbol::OpenBracket) {
        lemma_spaces_advance(tokens, at + 1, true);
        match spaces(tokens, at + 1, true) {
            Outcome::Done(_, first) => {
                lemma_array_items_advance(tokens, first, Seq::empty());
            },
            Outcome::Failed(_, _) => {},
        }
    } else if symbol_at(tokens, at, Symbol::OpenBrace) {
        lemma_spaces_advance(tokens, at + 1, true);
        match spaces(tokens, at + 1, true) {
            Outcome::Done(_, first) => {
                lemma_table_items_advance(tokens, first, Seq::empty());
            },
            Outcome::Failed(_, _) => {},
        }
    }
}

/// What follows an element ends inside the tokens.
pub proof fn lemma_separator_advances(tokens: Tokens, at: int)
    requires
        0 <= at <= tokens.len(),
    ensures
        match separator(tokens, at) {
            Outcome::Done(more, next) => at <= next <= tokens.len() && (more ==> at < next),
            Outcome::Failed(p, _) => at <= p <= tokens.len(),
        },
{
    lemma_spaces_advance(tokens, at, true);
    match spaces(tokens, at, true) {
        Outcome::Done(_, comma) => {
            lemma_spaces_advance(tokens, comma + 1, true);
        },
        Outcome::Failed(_, _) => {},
    }
}

/// The elements of an array end inside the tokens.
pub proof fn lemma_array_items_advance(
    tokens: Tokens,
    at: int,
    found: Seq<ExpressionView<usize>>,
)
    requires
        0 <= at <= tokens.len(),
    ensures
        match array_items(tokens, at, found) {
            Outcome::Done(_, next) => at <= next <= tokens.len(),
            Outcome::Failed(p, _) => at <= p <= tokens.len(),
        },
    decreases tokens.len() - at, 1int,
{
    lemma_expression_advances(tokens, at);
    match expression(tokens, at) {
        Outcome::Done(item, end) => {
            lemma_separator_advances(tokens, end);
            match separator(tokens, end) {
                Outcome::Done(more, next) => {
                    if more {
                        lemma_array_items_advance(tokens, next, found.push(item));
                    }
                },
                Outcome::Failed(_, _) => {},
            }
        },
        Outcome::Failed(_, _) => {},
    }
}

/// A key with its expression ends behind where it begins, inside the tokens.
pub proof fn lemma_table_item_advances(tokens: Tokens, at: int)
    requires
        0 <= at <= tokens.len(),
    ensures
        match table_item(tokens, at) {
            Outcome::Done(_, next) => at < next <= tokens.len(),
            Outcome::Failed(p, _) => at <= p <= tokens.len(),
        },
    decreases tokens.len() - at, 1int,
{
    match key(tokens, at) {
        Outcome::Done(_, end) => {
            lemma_spaces_advance(tokens, end, true);
            match spaces(tokens, end, true) {
                Outcome::Done(_, sign) => {
                    lemma_spaces_advance(tokens, sign + 1, true);
                    match spaces(tokens, sign + 1, true) {
                        Outcome::Done(_, value) => {
                            if symbol_at(tokens, sign, Symbol::Assign) {
                                lemma_expression_advances(tokens, value);
                            }
                        },
                        Outcome::Failed(_, _) => {},
                    }
                },
                Outcome::Failed(_, _) => {},
            }
        },
        Outcome::Failed(_, _) => {},
    }
}

/// The elements of an inline table end inside the tokens.
pub proof fn lemma_table_items_advance(
    tokens: Tokens,
    at: int,
    found: Seq<(KeyView<usize>, ExpressionView<usize>)>,
)
    requires
        0 <= at <= tokens.len(),
    ensures
        match table_items(tokens, at, found) {
            Outcome::Done(_, next) => at <= next <= tokens.len(),
            Outcome::Failed(p, _) => at <= p <= tokens.len(),
        },
    decreases tokens.len() - at, 2int,
{
    lemma_table_item_advances(tokens, at);
    match table_item(tokens, at) {
        Outcome::Done(item, end) => {
            lemma_separator_advances(tokens, end);
            match separator(tokens, end) {
                Outcome::Done(more, next) => {
                    if more {
                        lemma_table_items_advance(tokens, next, found.push(item));
                    }
                },
                Outcome::Failed(_, _) => {},
            }
        },
        Outcome::Failed(_, _) => {},
    }
}

/// A statement ends behind where it begins, inside the tokens, and where it
/// breaks off is inside the tokens too.
pub proof fn lemma_statement_advances(tokens: Tokens, at: int)
    requires
        0 <= at <= tokens.len(),
    ensures
        match statement(tokens, at) {
            Outcome::Done(_, next) => at < next <= tokens.len(),
            Outcome::Failed(p, _) => at <= p <= tokens.len(),
        },
{
    // value binding
    match pattern(tokens, at) {
        Outcome::Done(_, end) => {
            lemma_assign_advances(tokens, end, false);
            match assign(tokens, end, false) {
                Outcome::Done(_, value) => {
                    lemma_expression_advances(tokens, value);
                },
                Outcome::Failed(_, _) => {},
            }
        },
        Outcome::Failed(_, _) => {},
    }
    // table header
    if symbol_at(tokens, at, Symbol::OpenBracket) {
        lemma_spaces_advance(tokens, at + 1, true);
        match spaces(tokens, at + 1, true) {
            Outcome::Done(_, second) => {
                lemma_spaces_advance(tokens, second + 1, true);
                let inner = if symbol_at(tokens, second, Symbol::OpenBracket) {
                    spaces(tokens, second + 1, true)
                } else {
                    Outcome::Done((), second)
                };
                match inner {
                    Outcome::Done(_, inner) => {
                        match pattern(tokens, inner) {
                            Outcome::Done(_, end) => {
                                lemma_assign_advances(tokens, end, true);
                                match assign(tokens, end, true) {
                                    Outcome::Done(_, value) => {
                                        lemma_expression_advances(tokens, value);
                                    },
                                    Outcome::Failed(_, _) => {},
                                }
                            },
                            Outcome::Failed(_, _) => {},
                        }
                        match table_header_inner(tokens, inner) {
                            Outcome::Done(_, end) => {
                                lemma_spaces_advance(tokens, end, true);
                                match closing(tokens, end) {
                                    Outcome::Done(_, once) => {
                                        lemma_spaces_advance(tokens, once, true);
                                    },
                                    Outcome::Failed(_, _) => {},
                                }
                            },
                            Outcome::Failed(_, _) => {},
                        }
                    },
                    Outcome::Failed(_, _) => {},
                }
            },
            Outcome::Failed(_, _) => {},
        }
    }
}

/// An assign sign with its spaces ends behind where it begins, inside the tokens.
pub proof fn lemma_assign_advances(tokens: Tokens, at: int, in_bracket: bool)
    requires
        0 <= at <= tokens.len(),
    ensures
        match assign(tokens, at, in_bracket) {
            Outcome::Done(_, next) => at < next <= tokens.len(),
            Outcome::Failed(p, _) => at <= p <= tokens.len(),
        },
{
    lemma_spaces_advance(tokens, at, in_bracket);
    match spaces(tokens, at, in_bracket) {
        Outcome::Done(_, sign) => {
            lemma_spaces_advance(tokens, sign + 1, in_bracket);
        },
        Outcome::Failed(_, _) => {},
    }
}

/// Where the statements of a document break off, it is inside the tokens.
pub proof fn lemma_statements_fail_inside(
    tokens: Tokens,
    at: int,
    found: Seq<StatementView<usize>>,
)
    requires
        0 <= at <= tokens.len(),
    ensures
        match statements(tokens, at, found) {
            Outcome::Done(_, end) => at <= end <= tokens.len(),
            Outcome::Failed(p, _) => at <= p <= tokens.len(),
        },
    decreases tokens.len() - at,
{
    lemma_statement_advances(tokens, at);
    match statement(tokens, at) {
        Outcome::Done(stmt, next) => {
            lemma_statements_fail_inside(tokens, next, found.push(stmt));
        },
        Outcome::Failed(_, _) => {},
    }
}

} // verus!
