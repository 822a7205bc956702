//! What reading a piece of the input comes to, and texts put together
//! character by character.
use vstd::prelude::*;

verus! {

/// `std::string::String::push`: the character is appended.
pub assume_specification[ std::string::String::push ](s: &mut std::string::String, c: char)
    ensures
        final(s)@ == old(s)@.push(c),
;

/// Appends a text to a string.
pub fn push_text(target: &mut String, text: &str)
    ensures
        final(target)@ == old(target)@ + text@,
{
    let ghost before = target@;
    for c in it: text.chars()
        invariant
            it.seq() == text@,
            target@ == before + it.seq().take(it.index() as int),
    {
        target.push(c);
    }
}

/// Where and how a reading of the input came to nothing.
#[derive(Clone, Copy, Debug, PartialEq, Eq, Structural)]
pub struct Failure {
    /// The position at which the input stopped fitting
    pub at: usize,
    /// Whether the reading had gone too far for another one to be tried in its place
    pub hard: bool,
}

/// What reading the input from some position comes to: a value and the
/// position behind what was read, or a failure at a position, hard or not.
/// A failure that is not hard, at the position where the reading began, has
/// read nothing and leaves another reading from there open.
pub enum Outcome<T> {
    Done(T, int),
    Failed(int, bool),
}

/// The outcome that a result stands for.
pub open spec fn outcome_of<T: View>(r: Result<(T, usize), Failure>) -> Outcome<T::V> {
    match r {
        Ok((value, next)) => Outcome::Done(value@, next as int),
        Err(failure) => Outcome::Failed(failure.at as int, failure.hard),
    }
}

/// A failure at `at` that leaves other readings open.
pub fn miss<T>(at: usize) -> (r: Result<(T, usize), Failure>)
    ensures
        r == Err::<(T, usize), Failure>(Failure { at, hard: false }),
{
    Err(Failure { at, hard: false })
}

} // verus!
