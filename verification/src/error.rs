//! Diagnostics: spans, value kinds and the error taxonomy.
use core::ops::Range;
use vstd::prelude::*;

verus! {

/// A position range inside one source file.
#[derive(Debug, PartialEq, Eq)]
pub struct Span<L> {
    /// The file the range belongs to
    pub file_id: usize,
    /// The range in the file
    pub span: Range<L>,
}

/// The shape of an evaluated value, as named in diagnostics.
#[derive(Clone, Copy, Debug, PartialEq, Eq, Structural)]
#[non_exhaustive]
pub enum Kind {
    Character,
    String,
    Integer,
    Float,
    Array,
    Table,
}

/// A diagnostic. None of them stops the evaluation.
#[derive(Debug, PartialEq, Eq)]
#[non_exhaustive]
#[allow(inconsistent_fields)]
pub enum Error<L> {
    /// The source text is no document: what was expected instead, and where.
    ParseError { expects: Vec<String>, span: Span<L> },
    /// A key was bound twice in one table, and the first binding was not a default.
    DuplicateKey { existing: Span<L>, found: Span<L> },
    /// A value of the wrong shape was given where `expect` lists the accepted ones.
    KindMismatch { expect: Vec<Kind>, found: Kind, span: Span<L> },
    /// A built-in key that does not exist.
    BuiltinNotFound { span: Span<L> },
    /// A default table on a later occurrence of an array-of-tables header.
    UnallowedDefaultValue { span: Span<L> },
    /// A shape of statement, pattern, expression or key that is not handled.
    NotSupported { feature: &'static str, span: Span<L> },
    /// A broken internal invariant.
    Unexpected,
}

/// The mathematical model of an [`Error`].
#[allow(inconsistent_fields)]
pub enum ErrorView<L> {
    ParseError { expects: Seq<Seq<char>>, span: Span<L> },
    DuplicateKey { existing: Span<L>, found: Span<L> },
    KindMismatch { expect: Seq<Kind>, found: Kind, span: Span<L> },
    BuiltinNotFound { span: Span<L> },
    UnallowedDefaultValue { span: Span<L> },
    NotSupported { feature: Seq<char>, span: Span<L> },
    Unexpected,
}

impl<L> View for Error<L> {
    type V = ErrorView<L>;

    open spec fn view(&self) -> ErrorView<L> {
        match *self {
            Error::ParseError { expects, span } => ErrorView::ParseError {
                expects: expects@.map_values(|s: String| s@),
                span,
            },
            Error::DuplicateKey { existing, found } => ErrorView::DuplicateKey { existing, found },
            Error::KindMismatch { expect, found, span } => ErrorView::KindMismatch {
                expect: expect@,
                found,
                span,
            },
            Error::BuiltinNotFound { span } => ErrorView::BuiltinNotFound { span },
            Error::UnallowedDefaultValue { span } => ErrorView::UnallowedDefaultValue { span },
            Error::NotSupported { feature, span } => ErrorView::NotSupported {
                feature: feature@,
                span,
            },
            Error::Unexpected => ErrorView::Unexpected,
        }
    }
}

/// The models of a list of errors, in order.
pub open spec fn errors_view<L>(errors: Seq<Error<L>>) -> Seq<ErrorView<L>> {
    errors.map_values(|e: Error<L>| e@)
}

impl<L: Copy> Clone for Span<L> {
    fn clone(&self) -> (r: Self)
        ensures
            r == *self,
    {
        Span { file_id: self.file_id, span: self.span.start..self.span.end }
    }
}

impl<L: Copy> Clone for Error<L> {
    fn clone(&self) -> (r: Self)
        ensures
            r@ == self@,
    {
        match self {
            Error::ParseError { expects, span } => {
                let mut copy: Vec<String> = Vec::new();
                let mut i: usize = 0;
                while i < expects.len()
                    invariant
                        i <= expects.len(),
                        copy@.len() == i,
                        forall|j: int| 0 <= j < i ==> (#[trigger] copy@[j])@ == expects@[j]@,
                    decreases expects.len() - i,
                {
                    copy.push(expects[i].clone());
                    i += 1;
                }
                assert(copy@.map_values(|s: String| s@) =~= expects@.map_values(|s: String| s@));
                Error::ParseError { expects: copy, span: span.clone() }
            },
            Error::DuplicateKey { existing, found } => Error::DuplicateKey {
                existing: existing.clone(),
                found: found.clone(),
            },
            Error::KindMismatch { expect, found, span } => {
                let mut copy: Vec<Kind> = Vec::new();
                let mut i: usize = 0;
                while i < expect.len()
                    invariant
                        i <= expect.len(),
                        copy@ == expect@.take(i as int),
                    decreases expect.len() - i,
                {
                    copy.push(expect[i]);
                    i += 1;
                }
                assert(expect@.take(expect.len() as int) =~= expect@);
                Error::KindMismatch { expect: copy, found: *found, span: span.clone() }
            },
            Error::BuiltinNotFound { span } => Error::BuiltinNotFound { span: span.clone() },
            Error::UnallowedDefaultValue { span } => Error::UnallowedDefaultValue {
                span: span.clone(),
            },
            Error::NotSupported { feature, span } => Error::NotSupported {
                feature: *feature,
                span: span.clone(),
            },
            Error::Unexpected => Error::Unexpected,
        }
    }
}

/// Copies a list of diagnostics.
pub fn clone_errors<L: Copy>(errors: &Vec<Error<L>>) -> (copy: Vec<Error<L>>)
    ensures
        errors_view(copy@) == errors_view(errors@),
{
    let mut copy: Vec<Error<L>> = Vec::new();
    let mut i: usize = 0;
    while i < errors.len()
        invariant
            i <= errors.len(),
            copy@.len() == i,
            forall|j: int| 0 <= j < i ==> (#[trigger] copy@[j])@ == errors@[j]@,
        decreases errors.len() - i,
    {
        copy.push(errors[i].clone());
        i += 1;
    }
    copy
}

} // verus!
