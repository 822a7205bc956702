//! The parser: it reads the tokens of a source text into statements.
pub mod expression;
pub mod grammar;
pub mod key;
pub mod pattern;
pub mod statement;
pub mod token;

use crate::ast::{statements_view, Statement, StatementView};
use crate::module::{placed_view, Token as Placed};
use crate::parser::statement::statement;
use crate::scan::{Failure, Outcome};
use vstd::prelude::*;

verus! {

/// Reads the tokens into statements, from the first token up to where no
/// further statement begins. The position that comes back with the
/// statements is the index of the first token that was not read.
pub fn parse(tokens: &[Placed]) -> (r: Result<(Vec<Statement<usize>>, usize), Failure>)
    ensures
        match r {
            Ok((found, end)) => grammar::statements(placed_view(tokens@), 0, Seq::empty())
                == Outcome::Done(statements_view(found@), end as int) && end <= tokens@.len(),
            Err(failure) => grammar::statements(placed_view(tokens@), 0, Seq::empty())
                == Outcome::<Seq<StatementView<usize>>>::Failed(failure.at as int, failure.hard),
        },
{
    let mut found: Vec<Statement<usize>> = Vec::new();
    let mut pos: usize = 0;
    proof {
        assert(statements_view(found@) =~= Seq::empty());
    }
    loop
        invariant
            pos <= tokens@.len(),
            grammar::statements(placed_view(tokens@), 0, Seq::empty()) == grammar::statements(
                placed_view(tokens@),
                pos as int,
                statements_view(found@),
            ),
        decreases tokens@.len() - pos,
    {
        match statement(tokens, pos) {
            Ok((stmt, next)) => {
                let ghost before = statements_view(found@);
                let ghost stmt_view = stmt@;
                found.push(stmt);
                proof {
                    assert(statements_view(found@) =~= before.push(stmt_view));
                }
                pos = next;
            },
            Err(failure) => {
                if !failure.hard && failure.at == pos {
                    return Ok((found, pos));
                } else {
                    return Err(failure);
                }
            },
        }
    }
}

} // verus!
