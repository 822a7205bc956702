//! Whitespaces and comments
use crate::lexer::grammar;
use crate::lexer::grammar::{lemma_run_end, Class};
use crate::lexer::utils::{collect, has, has_char, skip};
use crate::scan::{miss, outcome_of, Failure, Outcome};
use core::ops::Range;
use vstd::prelude::*;

verus! {

/// A parser for whitespaces
pub fn whitespaces(input: &[char], at: usize) -> (r: Result<((), usize), Failure>)
    ensures
        outcome_of(r) == grammar::whitespaces(input@, at as int),
{
    Ok(((), skip(input, at, Class::Blank)))
}

/// A parser for newlines
pub fn newline(input: &[char], at: usize) -> (r: Result<((), usize), Failure>)
    ensures
        outcome_of(r) == grammar::newline(input@, at as int),
{
    if has(input, at, Class::Break) {
        Ok(((), skip(input, at + 1, Class::BlankOrBreak)))
    } else {
        miss(at)
    }
}

/// A parser for comments
pub fn comment(input: &[char], at: usize) -> (r: Result<(String, usize), Failure>)
    ensures
        outcome_of(r) == grammar::comment(input@, at as int),
{
    if has_char(input, at, '#') {
        let end = skip(input, at + 1, Class::NotBreak);
        Ok((collect(input, at + 1, end), end))
    } else {
        miss(at)
    }
}

/// The comments of a line continuation with their places, as the grammar
/// speaks of them.
pub open spec fn comments_view(found: Seq<(String, Range<usize>)>) -> Seq<(Seq<char>, Range<usize>)> {
    found.map_values(|c: (String, Range<usize>)| (c.0@, c.1))
}

/// A parser for continuous lines with comments
pub fn continuous(input: &[char], at: usize) -> (r: Result<(Vec<(String, Range<usize>)>, usize), Failure>)
    ensures
        match r {
            Ok((found, next)) => grammar::continuous(input@, at as int) == Outcome::Done(
                comments_view(found@),
                next as int,
            ),
            Err(failure) => grammar::continuous(input@, at as int) == Outcome::<
                Seq<(Seq<char>, Range<usize>)>,
            >::Failed(failure.at as int, failure.hard),
        },
{
    if !has_char(input, at, '\\') {
        return Err(Failure { at, hard: false });
    }
    let from = skip(input, at + 1, Class::Blank);
    if !(has(input, from, Class::Break) || has_char(input, from, '#')) {
        return Err(Failure { at: from, hard: false });
    }
    let mut found: Vec<(String, Range<usize>)> = Vec::new();
    let mut pos = from;
    proof {
        assert(comments_view(found@) =~= Seq::empty());
    }
    loop
        invariant
            pos <= input@.len(),
            grammar::continued(input@, from as int, Seq::empty()) == grammar::continued(
                input@,
                pos as int,
                comments_view(found@),
            ),
        ensures
            !grammar::stands(input@, pos as int, Class::Break),
            !grammar::is_at(input@, pos as int, '#'),
        decreases input@.len() - pos,
    {
        if has(input, pos, Class::Break) {
            proof {
                lemma_run_end(input@, pos + 1, Class::BlankOrBreak);
            }
            pos = skip(input, pos + 1, Class::BlankOrBreak);
        } else if has_char(input, pos, '#') {
            proof {
                lemma_run_end(input@, pos + 1, Class::NotBreak);
            }
            let end = skip(input, pos + 1, Class::NotBreak);
            let ghost before = comments_view(found@);
            let text = collect(input, pos + 1, end);
            found.push((text, pos..end));
            proof {
                assert(comments_view(found@) =~= before.push(
                    (input@.subrange(pos + 1, end as int), (pos as usize)..(end as usize)),
                ));
            }
            pos = end;
        } else {
            break ;
        }
    }
    Ok((found, pos))
}

} // verus!
