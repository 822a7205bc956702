//! The outcome of an evaluation.
use crate::error::{clone_errors, errors_view, Error, ErrorView};
use crate::value::{Table, TableView};
use vstd::prelude::*;

verus! {

/// The built-in keys of a document.
#[derive(Debug, PartialEq, Eq)]
pub struct Builtin {
    /// What `@output` was set to
    pub output: Option<String>,
    /// What `@filetype` was set to
    pub filetype: Option<String>,
}

/// The mathematical model of a [`Builtin`].
pub struct BuiltinView {
    pub output: Option<Seq<char>>,
    pub filetype: Option<Seq<char>>,
}

impl BuiltinView {
    /// No built-in key is set.
    pub open spec fn empty() -> BuiltinView {
        BuiltinView { output: None, filetype: None }
    }
}

impl View for Builtin {
    type V = BuiltinView;

    open spec fn view(&self) -> BuiltinView {
        BuiltinView {
            output: match self.output {
                Some(s) => Some(s@),
                None => None,
            },
            filetype: match self.filetype {
                Some(s) => Some(s@),
                None => None,
            },
        }
    }
}

impl Builtin {
    /// Creates a new instance.
    pub fn new() -> (b: Self)
        ensures
            b@ == BuiltinView::empty(),
    {
        Builtin { output: None, filetype: None }
    }
}

impl Default for Builtin {
    fn default() -> (b: Self)
        ensures
            b@ == BuiltinView::empty(),
    {
        Builtin::new()
    }
}

impl Clone for Builtin {
    fn clone(&self) -> (b: Self)
        ensures
            b@ == self@,
    {
        Builtin {
            output: match &self.output {
                Some(s) => Some(s.clone()),
                None => None,
            },
            filetype: match &self.filetype {
                Some(s) => Some(s.clone()),
                None => None,
            },
        }
    }
}

/// Snapshots for the runtime: what an evaluation leaves behind.
#[derive(Debug, PartialEq)]
pub struct Snapshot<L> {
    /// The root table of the document
    pub root: Table<L>,
    /// The built-in keys
    pub builtin: Builtin,
    /// Every diagnostic of the evaluation, in the order in which they arose
    pub errors: Vec<Error<L>>,
}

/// The mathematical model of a [`Snapshot`].
pub struct SnapshotView<L> {
    pub root: TableView<L>,
    pub builtin: BuiltinView,
    pub errors: Seq<ErrorView<L>>,
}

impl<L> Snapshot<L> {
    pub open spec fn view(&self) -> SnapshotView<L> {
        SnapshotView { root: self.root@, builtin: self.builtin@, errors: errors_view(self.errors@) }
    }

    /// The root table is well-formed.
    pub open spec fn wf(&self) -> bool {
        self.root.wf()
    }
}

impl<L: Copy> Clone for Snapshot<L> {
    fn clone(&self) -> (r: Self)
        ensures
            r@ == self@,
            self.wf() ==> r.wf(),
    {
        Snapshot {
            root: self.root.clone(),
            builtin: self.builtin.clone(),
            errors: clone_errors(&self.errors),
        }
    }
}

} // verus!
