//! String literals
use crate::lexer::grammar;
use crate::lexer::grammar::{lemma_run_end, Class};
use crate::lexer::utils::{break_end, escaped_char, has, has_char, skip, text_run};
use crate::scan::{miss, outcome_of, Failure};
use crate::token::StringKind;
use vstd::prelude::*;

verus! {

/// A parser for characters
pub fn character(input: &[char], at: usize) -> (r: Result<(char, usize), Failure>)
    ensures
        outcome_of(r) == grammar::character(input@, at as int),
{
    if has_char(input, at, '\'') {
        match escaped_char(input, at + 1, '\'') {
            Ok((c, p)) => if has_char(input, p, '\'') {
                Ok((c, p + 1))
            } else {
                Err(Failure { at: p, hard: false })
            },
            Err(failure) => Err(failure),
        }
    } else {
        miss(at)
    }
}

/// A parser for normal strings
pub fn normal_string(input: &[char], at: usize) -> (r: Result<(String, usize), Failure>)
    ensures
        outcome_of(r) == grammar::normal_string(input@, at as int),
{
    if has_char(input, at, '"') {
        match text_run(input, at + 1, '"', true) {
            Ok((text, p)) => if has_char(input, p, '"') {
                Ok((text, p + 1))
            } else {
                Err(Failure { at: p, hard: false })
            },
            Err(failure) => Err(failure),
        }
    } else {
        miss(at)
    }
}

/// A run of quotes is at least `n` long exactly when a quote stands at each
/// of the `n` positions from its start.
proof fn lemma_quotes_at(input: Seq<char>, at: int, n: int)
    requires
        0 <= at <= input.len(),
        0 <= n,
    ensures
        grammar::quotes_at(input, at, n) <==> forall|i: int|
            at <= i < at + n ==> grammar::stands(input, i, Class::Quote),
    decreases n,
{
    lemma_run_end(input, at, Class::Quote);
    if n > 0 && grammar::stands(input, at, Class::Quote) {
        lemma_quotes_at(input, at + 1, n - 1);
    }
}

/// Whether at least `n` double quotes stand at `at`, one after the other.
fn quotes_at(input: &[char], at: usize, n: usize) -> (r: bool)
    requires
        at <= input@.len(),
    ensures
        r == grammar::quotes_at(input@, at as int, n as int),
        r ==> at + n <= input@.len(),
{
    proof {
        lemma_quotes_at(input@, at as int, n as int);
    }
    if n > input.len() - at {
        proof {
            if grammar::quotes_at(input@, at as int, n as int) {
                assert(grammar::stands(input@, input@.len() as int, Class::Quote));
            }
        }
        return false;
    }
    let mut i: usize = 0;
    while i < n
        invariant
            i <= n,
            at + n <= input@.len() <= usize::MAX,
            grammar::quotes_at(input@, at as int, n as int) <==> forall|j: int|
                at <= j < at + n ==> grammar::stands(input@, j, Class::Quote),
            forall|j: int| at <= j < at + i ==> grammar::stands(input@, j, Class::Quote),
        decreases n - i,
    {
        if input[at + i] != '"' {
            proof {
                assert(!grammar::stands(input@, at + i, Class::Quote));
            }
            return false;
        }
        i += 1;
    }
    true
}

/// A parser for raw strings
pub fn raw_string(input: &[char], at: usize) -> (r: Result<((String, u8), usize), Failure>)
    ensures
        outcome_of(r) == grammar::raw_string(input@, at as int),
{
    if at > input.len() {
        return miss(at);
    }
    proof {
        lemma_run_end(input@, at as int, Class::Quote);
    }
    let open = skip(input, at, Class::Quote);
    let n = open - at;
    if n < 3 {
        return miss(at);
    }
    let mut text = String::new();
    let mut pos = open;
    loop
        invariant
            n >= 3,
            pos <= input@.len() <= usize::MAX,
            n == grammar::run_end(input@, at as int, Class::Quote) - at,
            open == at + n,
            grammar::raw_run(input@, open as int, n as int, Seq::empty()) == grammar::raw_run(
                input@,
                pos as int,
                n as int,
                text@,
            ),
        decreases input@.len() - pos,
    {
        if quotes_at(input, pos, n) {
            return Ok(((text, (n % 256) as u8), pos + n));
        } else if pos >= input.len() {
            return Err(Failure { at: pos, hard: false });
        } else if has(input, pos, Class::Break) {
            text.push('\n');
            pos = break_end(input, pos);
        } else {
            text.push(input[pos]);
            pos += 1;
        }
    }
}

/// A parser for (normal and raw) strings
pub fn string(input: &[char], at: usize) -> (r: Result<((String, StringKind), usize), Failure>)
    ensures
        outcome_of(r) == grammar::string(input@, at as int),
{
    match raw_string(input, at) {
        Ok(((text, n), p)) => Ok(((text, StringKind::Raw(n)), p)),
        Err(failure) => if !failure.hard && failure.at == at {
            match normal_string(input, at) {
                Ok((text, p)) => Ok(((text, StringKind::Normal), p)),
                Err(failure) => Err(failure),
            }
        } else {
            Err(failure)
        },
    }
}

} // verus!
