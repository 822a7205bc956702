//! Parsers for statements
use crate::ast::{
    Expression, ExpressionView, Pattern, PatternView, Statement, StatementKind, TableHeaderKind,
};
use crate::module::{placed_view, Token as Placed};
use crate::parser::expression::expression;
use crate::parser::grammar;
use crate::parser::pattern::pattern;
use crate::parser::token::{span, spaces, symbol, symbol_at};
use crate::scan::{outcome_of, Failure, Outcome};
use crate::token::Symbol;
use vstd::prelude::*;

verus! {

/// An assign sign with spaces around it.
fn assign(tokens: &[Placed], at: usize, in_bracket: bool) -> (r: Result<((), usize), Failure>)
    ensures
        outcome_of(r) == grammar::assign(placed_view(tokens@), at as int, in_bracket),
        r matches Ok((_, next)) ==> at < next && (at <= tokens@.len() ==> next <= tokens@.len()),
        r matches Err(failure) ==> at <= failure.at,
{
    match spaces(tokens, at, in_bracket) {
        Err(failure) => Err(failure),
        Ok((_, sign)) => if symbol_at(tokens, sign, Symbol::Assign) {
            spaces(tokens, sign + 1, in_bracket)
        } else {
            Err(Failure { at: sign, hard: false })
        },
    }
}

/// A parser for value bindings
pub fn value_binding(tokens: &[Placed], at: usize) -> (r: Result<((Pattern<usize>, Expression<usize>), usize), Failure>)
    ensures
        match r {
            Ok((bound, next)) => grammar::value_binding(placed_view(tokens@), at as int)
                == Outcome::Done((bound.0@, bound.1@), next as int) && at < next <= tokens@.len(),
            Err(failure) => grammar::value_binding(placed_view(tokens@), at as int) == Outcome::<
                (PatternView<usize>, ExpressionView<usize>),
            >::Failed(failure.at as int, failure.hard) && at <= failure.at,
        },
{
    match pattern(tokens, at) {
        Err(failure) => Err(failure),
        Ok((pat, end)) => match assign(tokens, end, false) {
            Err(failure) => Err(failure),
            Ok((_, value)) => match expression(tokens, value) {
                Err(failure) => Err(failure),
                Ok((e, next)) => Ok(((pat, e), next)),
            },
        },
    }
}

/// The model of an optional expression.
pub open spec fn default_view(default: Option<Expression<usize>>) -> Option<ExpressionView<usize>> {
    match default {
        Some(e) => Some(e@),
        None => None,
    }
}

/// A parser for what stands between the brackets of a table header
pub fn table_header_inner(tokens: &[Placed], at: usize) -> (r: Result<((Pattern<usize>, Option<Expression<usize>>), usize), Failure>)
    ensures
        match r {
            Ok((inner, next)) => grammar::table_header_inner(placed_view(tokens@), at as int)
                == Outcome::Done((inner.0@, default_view(inner.1)), next as int) && at < next
                <= tokens@.len(),
            Err(failure) => grammar::table_header_inner(placed_view(tokens@), at as int)
                == Outcome::<(PatternView<usize>, Option<ExpressionView<usize>>)>::Failed(
                failure.at as int,
                failure.hard,
            ) && at <= failure.at,
        },
{
    match pattern(tokens, at) {
        Err(failure) => Err(failure),
        Ok((pat, end)) => match assign(tokens, end, true) {
            Err(failure) => if !failure.hard && failure.at == end {
                Ok(((pat, None), end))
            } else {
                Err(failure)
            },
            Ok((_, value)) => match expression(tokens, value) {
                Err(failure) => Err(failure),
                Ok((e, next)) => Ok(((pat, Some(e)), next)),
            },
        },
    }
}

/// A closing bracket with spaces before it, if any.
fn closing(tokens: &[Placed], at: usize) -> (r: Result<((), usize), Failure>)
    ensures
        outcome_of(r) == grammar::closing(placed_view(tokens@), at as int),
        r matches Ok((_, next)) ==> at < next <= tokens@.len(),
        r matches Err(failure) ==> at <= failure.at,
{
    match spaces(tokens, at, true) {
        Err(failure) => Err(failure),
        Ok((_, bracket)) => symbol(tokens, bracket, Symbol::CloseBracket),
    }
}

/// A parser for table headers
pub fn table_header(tokens: &[Placed], at: usize) -> (r: Result<((TableHeaderKind, Pattern<usize>, Option<Expression<usize>>), usize), Failure>)
    ensures
        match r {
            Ok((header, next)) => grammar::table_header(placed_view(tokens@), at as int)
                == Outcome::Done((header.0, header.1@, default_view(header.2)), next as int) && at
                < next <= tokens@.len(),
            Err(failure) => grammar::table_header(placed_view(tokens@), at as int) == Outcome::<
                (TableHeaderKind, PatternView<usize>, Option<ExpressionView<usize>>),
            >::Failed(failure.at as int, failure.hard) && at <= failure.at,
        },
{
    if !symbol_at(tokens, at, Symbol::OpenBracket) {
        return Err(Failure { at, hard: false });
    }
    let second = match spaces(tokens, at + 1, true) {
        Err(failure) => {
            return Err(failure);
        },
        Ok((_, second)) => second,
    };
    let is_array = symbol_at(tokens, second, Symbol::OpenBracket);
    let inner = if is_array {
        match spaces(tokens, second + 1, true) {
            Err(failure) => {
                return Err(failure);
            },
            Ok((_, inner)) => inner,
        }
    } else {
        second
    };
    let ((pat, default), end) = match table_header_inner(tokens, inner) {
        Err(failure) => {
            return Err(failure);
        },
        Ok(found) => found,
    };
    let once = match closing(tokens, end) {
        Err(failure) => {
            return Err(failure);
        },
        Ok((_, once)) => once,
    };
    if !is_array {
        return Ok(((TableHeaderKind::Normal, pat, default), once));
    }
    match closing(tokens, once) {
        Err(failure) => Err(failure),
        Ok((_, twice)) => Ok(((TableHeaderKind::Array, pat, default), twice)),
    }
}

/// A parser for statements
pub fn statement(tokens: &[Placed], at: usize) -> (r: Result<(Statement<usize>, usize), Failure>)
    ensures
        outcome_of(r) == grammar::statement(placed_view(tokens@), at as int),
        r matches Ok((_, next)) ==> at < next <= tokens@.len(),
        r matches Err(failure) ==> at <= failure.at,
{
    match value_binding(tokens, at) {
        Ok(((pat, e), next)) => {
            return Ok(
                (
                    Statement {
                        kind: StatementKind::ValueBinding(pat, e),
                        span: span(tokens, at, next),
                    },
                    next,
                ),
            );
        },
        Err(failure) => if !(!failure.hard && failure.at == at) {
            return Err(failure);
        },
    }
    match table_header(tokens, at) {
        Ok(((kind, pat, default), next)) => Ok(
            (
                Statement {
                    kind: StatementKind::TableHeader(kind, pat, default),
                    span: span(tokens, at, next),
                },
                next,
            ),
        ),
        Err(failure) => Err(failure),
    }
}

} // verus!
