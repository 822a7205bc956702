//! Parsers for expressions
use crate::ast::{
    expressions_view, lemma_array_view, lemma_inline_table_view, pairs_view, Expression,
    ExpressionKind, ExpressionView, Key, KeyView,
};
use crate::module::{placed_view, Token as Placed};
use crate::parser::grammar;
use crate::parser::key::key;
use crate::parser::token::{literal, span, spaces, symbol_at};
use crate::scan::{outcome_of, Failure, Outcome};
use crate::token::Symbol;
use vstd::prelude::*;

verus! {

/// What follows an element of a list: whether the list goes on behind a comma.
fn separator(tokens: &[Placed], at: usize) -> (r: Result<(bool, usize), Failure>)
    ensures
        outcome_of(r) == grammar::separator(placed_view(tokens@), at as int),
        r matches Ok((_, next)) ==> at <= next && (at <= tokens@.len() ==> next <= tokens@.len()),
        r matches Err(failure) ==> at < failure.at,
{
    match spaces(tokens, at, true) {
        Err(failure) => Err(failure),
        Ok((_, comma)) => if symbol_at(tokens, comma, Symbol::Comma) {
            match spaces(tokens, comma + 1, true) {
                Err(failure) => Err(failure),
                Ok((_, next)) => Ok((true, next)),
            }
        } else {
            Ok((false, comma))
        },
    }
}

/// A parser for expression
pub fn expression(tokens: &[Placed], at: usize) -> (r: Result<(Expression<usize>, usize), Failure>)
    ensures
        match r {
            Ok((e, next)) => grammar::expression(placed_view(tokens@), at as int) == Outcome::Done(
                e@,
                next as int,
            ) && at < next <= tokens@.len(),
            Err(failure) => grammar::expression(placed_view(tokens@), at as int) == Outcome::<
                ExpressionView<usize>,
            >::Failed(failure.at as int, failure.hard) && at <= failure.at,
        },
    decreases tokens@.len() - at, 0int,
{
    match literal(tokens, at) {
        Ok((lit, next)) => {
            return Ok((Expression { kind: ExpressionKind::Literal(lit), span: span(tokens, at, next) }, next));
        },
        Err(_) => {},
    }
    if symbol_at(tokens, at, Symbol::OpenBracket) {
        match spaces(tokens, at + 1, true) {
            Err(failure) => Err(failure),
            Ok((_, first)) => match array_items(tokens, first) {
                Err(failure) => Err(failure),
                Ok((items, close)) => if symbol_at(tokens, close, Symbol::CloseBracket) {
                    proof {
                        lemma_array_view(items);
                    }
                    Ok(
                        (
                            Expression {
                                kind: ExpressionKind::Array(items),
                                span: span(tokens, at, close + 1),
                            },
                            close + 1,
                        ),
                    )
                } else {
                    Err(Failure { at: close, hard: false })
                },
            },
        }
    } else if symbol_at(tokens, at, Symbol::OpenBrace) {
        match spaces(tokens, at + 1, true) {
            Err(failure) => Err(failure),
            Ok((_, first)) => match table_items(tokens, first) {
                Err(failure) => Err(failure),
                Ok((items, close)) => if symbol_at(tokens, close, Symbol::CloseBrace) {
                    proof {
                        lemma_inline_table_view(items);
                    }
                    Ok(
                        (
                            Expression {
                                kind: ExpressionKind::InlineTable(items),
                                span: span(tokens, at, close + 1),
                            },
                            close + 1,
                        ),
                    )
                } else {
                    Err(Failure { at: close, hard: false })
                },
            },
        }
    } else {
        Err(Failure { at, hard: false })
    }
}

/// The elements of an array from `at` on.
fn array_items(tokens: &[Placed], at: usize) -> (r: Result<(Vec<Expression<usize>>, usize), Failure>)
    requires
        at <= tokens@.len(),
    ensures
        match r {
            Ok((items, next)) => grammar::array_items(
                placed_view(tokens@),
                at as int,
                Seq::empty(),
            ) == Outcome::Done(expressions_view(items@), next as int) && at <= next
                <= tokens@.len(),
            Err(failure) => grammar::array_items(placed_view(tokens@), at as int, Seq::empty())
                == Outcome::<Seq<ExpressionView<usize>>>::Failed(failure.at as int, failure.hard)
                && at <= failure.at,
        },
    decreases tokens@.len() - at, 1int,
{
    let mut found: Vec<Expression<usize>> = Vec::new();
    let mut pos = at;
    proof {
        assert(expressions_view(found@) =~= Seq::empty());
    }
    loop
        invariant
            at <= pos <= tokens@.len(),
            grammar::array_items(placed_view(tokens@), at as int, Seq::empty())
                == grammar::array_items(placed_view(tokens@), pos as int, expressions_view(found@)),
        decreases tokens@.len() - pos,
    {
        match expression(tokens, pos) {
            Err(failure) => {
                if !failure.hard && failure.at == pos {
                    return Ok((found, pos));
                } else {
                    return Err(failure);
                }
            },
            Ok((item, end)) => {
                let ghost before = expressions_view(found@);
                let ghost item_view = item@;
                found.push(item);
                proof {
                    assert(expressions_view(found@) =~= before.push(item_view));
                }
                match separator(tokens, end) {
                    Err(failure) => {
                        return Err(failure);
                    },
                    Ok((more, next)) => {
                        if more {
                            pos = next;
                        } else {
                            return Ok((found, next));
                        }
                    },
                }
            },
        }
    }
}

/// A key, an assign sign and an expression, with spaces around the sign.
fn table_item(tokens: &[Placed], at: usize) -> (r: Result<((Key<usize>, Expression<usize>), usize), Failure>)
    requires
        at <= tokens@.len(),
    ensures
        match r {
            Ok((item, next)) => grammar::table_item(placed_view(tokens@), at as int)
                == Outcome::Done((item.0@, item.1@), next as int) && at < next <= tokens@.len(),
            Err(failure) => grammar::table_item(placed_view(tokens@), at as int) == Outcome::<
                (KeyView<usize>, ExpressionView<usize>),
            >::Failed(failure.at as int, failure.hard) && at <= failure.at,
        },
    decreases tokens@.len() - at, 1int,
{
    match key(tokens, at) {
        Err(failure) => Err(failure),
        Ok((k, end)) => match spaces(tokens, end, true) {
            Err(failure) => Err(failure),
            Ok((_, sign)) => if symbol_at(tokens, sign, Symbol::Assign) {
                match spaces(tokens, sign + 1, true) {
                    Err(failure) => Err(failure),
                    Ok((_, value)) => match expression(tokens, value) {
                        Err(failure) => Err(failure),
                        Ok((e, next)) => Ok(((k, e), next)),
                    },
                }
            } else {
                Err(Failure { at: sign, hard: false })
            },
        },
    }
}

/// The elements of an inline table from `at` on.
fn table_items(tokens: &[Placed], at: usize) -> (r: Result<(Vec<(Key<usize>, Expression<usize>)>, usize), Failure>)
    requires
        at <= tokens@.len(),
    ensures
        match r {
            Ok((items, next)) => grammar::table_items(
                placed_view(tokens@),
                at as int,
                Seq::empty(),
            ) == Outcome::Done(pairs_view(items@), next as int) && at <= next <= tokens@.len(),
            Err(failure) => grammar::table_items(placed_view(tokens@), at as int, Seq::empty())
                == Outcome::<Seq<(KeyView<usize>, ExpressionView<usize>)>>::Failed(
                failure.at as int,
                failure.hard,
            ) && at <= failure.at,
        },
    decreases tokens@.len() - at, 2int,
{
    let mut found: Vec<(Key<usize>, Expression<usize>)> = Vec::new();
    let mut pos = at;
    proof {
        assert(pairs_view(found@) =~= Seq::empty());
    }
    loop
        invariant
            at <= pos <= tokens@.len(),
            grammar::table_items(placed_view(tokens@), at as int, Seq::empty())
                == grammar::table_items(placed_view(tokens@), pos as int, pairs_view(found@)),
        decreases tokens@.len() - pos,
    {
        match table_item(tokens, pos) {
            Err(failure) => {
                if !failure.hard && failure.at == pos {
                    return Ok((found, pos));
                } else {
                    return Err(failure);
                }
            },
            Ok((item, end)) => {
                let ghost before = pairs_view(found@);
                let ghost item_view = (item.0@, item.1@);
                found.push(item);
                proof {
                    assert(pairs_view(found@) =~= before.push(item_view));
                }
                match separator(tokens, end) {
                    Err(failure) => {
                        return Err(failure);
                    },
                    Ok((more, next)) => {
                        if more {
                            pos = next;
                        } else {
                            return Ok((found, next));
                        }
                    },
                }
            },
        }
    }
}

/// A parser for arrays
pub fn array(tokens: &[Placed], at: usize) -> (r: Result<(Vec<Expression<usize>>, usize), Failure>)
    ensures
        match r {
            Ok((items, next)) => grammar::array(placed_view(tokens@), at as int) == Outcome::Done(
                expressions_view(items@),
                next as int,
            ),
            Err(failure) => grammar::array(placed_view(tokens@), at as int) == Outcome::<
                Seq<ExpressionView<usize>>,
            >::Failed(failure.at as int, failure.hard),
        },
{
    if symbol_at(tokens, at, Symbol::OpenBracket) {
        match expression(tokens, at) {
            Ok((e, next)) => match e.kind {
                ExpressionKind::Array(items) => {
                    proof {
                        lemma_array_view(items);
                    }
                    Ok((items, next))
                },
                _ => Err(Failure { at, hard: false }),
            },
            Err(failure) => Err(failure),
        }
    } else {
        Err(Failure { at, hard: false })
    }
}

/// A parser for inline tables
pub fn inline_table(tokens: &[Placed], at: usize) -> (r: Result<(Vec<(Key<usize>, Expression<usize>)>, usize), Failure>)
    ensures
        match r {
            Ok((items, next)) => grammar::inline_table(placed_view(tokens@), at as int)
                == Outcome::Done(pairs_view(items@), next as int),
            Err(failure) => grammar::inline_table(placed_view(tokens@), at as int) == Outcome::<
                Seq<(KeyView<usize>, ExpressionView<usize>)>,
            >::Failed(failure.at as int, failure.hard),
        },
{
    if symbol_at(tokens, at, Symbol::OpenBrace) {
        match expression(tokens, at) {
            Ok((e, next)) => match e.kind {
                ExpressionKind::InlineTable(items) => {
                    proof {
                        lemma_inline_table_view(items);
                    }
                    Ok((items, next))
                },
                _ => Err(Failure { at, hard: false }),
            },
            Err(failure) => Err(failure),
        }
    } else {
        Err(Failure { at, hard: false })
    }
}

} // verus!
