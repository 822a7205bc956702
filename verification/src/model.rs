//! What an evaluation means, stated on mathematical values: an environment
//! that each statement carries one step further.
use crate::ast::{
    ExpressionKindView, ExpressionView, KeyKind, KeyView, LiteralView, PatternKindView, PatternView,
    StatementKindView, StatementView, TableHeaderKind,
};
use crate::error::{ErrorView, Kind, Span};
use crate::snapshot::{BuiltinView, SnapshotView};
use crate::value::{ElementView, TableView, ValueView};
use core::ops::Range;
use vstd::prelude::*;

verus! {

/// The still-open section: one table, or the tables of an array together
/// with the seed that each further table starts from.
pub enum CurrentValueView<L> {
    Table(TableView<L>),
    Array(Seq<TableView<L>>, TableView<L>),
}

/// The still-open section and the pattern it will be bound to.
pub struct CurrentView<L> {
    pub pattern: PatternView<L>,
    pub value: CurrentValueView<L>,
}

/// The state of an evaluation between two statements.
pub struct EnvView<L> {
    pub file_id: usize,
    pub root: TableView<L>,
    pub builtin: BuiltinView,
    pub current: Option<CurrentView<L>>,
    pub errors: Seq<ErrorView<L>>,
}

/// Binding `value` to `key` in `table`: the table afterwards and the diagnostics.
///
/// Normal and local keys share the global namespace and differ in the
/// `exported` flag; a built-in key is given to no table. The first binding
/// of a name stays, unless it is a default.
pub open spec fn table_insert<L>(
    table: TableView<L>,
    key: KeyView<L>,
    value: ValueView<L>,
    file_id: usize,
) -> (TableView<L>, Seq<ErrorView<L>>) {
    if key.kind == KeyKind::Builtin {
        (
            table,
            seq![
                ErrorView::NotSupported {
                    feature: "unknown keys"@,
                    span: Span { file_id, span: key.span },
                },
            ],
        )
    } else if table.global.contains_key(key.name) && !table.global[key.name].is_default {
        (
            table,
            seq![
                ErrorView::DuplicateKey {
                    existing: Span { file_id, span: table.global[key.name].defined },
                    found: Span { file_id, span: key.span },
                },
            ],
        )
    } else {
        (
            TableView {
                global: table.global.insert(
                    key.name,
                    ElementView {
                        value,
                        defined: key.span,
                        is_default: false,
                        exported: key.kind == KeyKind::Normal,
                    },
                ),
                local: table.local,
            },
            Seq::empty(),
        )
    }
}

/// The value of a literal.
pub open spec fn literal_value<L>(lit: LiteralView) -> ValueView<L> {
    match lit {
        LiteralView::Character(c) => ValueView::Character(c),
        LiteralView::String(s) => ValueView::String(s),
        LiteralView::Integer(i) => ValueView::Integer(i),
        LiteralView::Float(f) => ValueView::Float(f),
    }
}

/// The value of an expression and the diagnostics of evaluating it.
pub open spec fn expr_value<L>(expr: ExpressionView<L>, file_id: usize) -> (
    ValueView<L>,
    Seq<ErrorView<L>>,
)
    decreases expr,
{
    match expr.kind {
        ExpressionKindView::Literal(lit) => (literal_value(lit), Seq::empty()),
        ExpressionKindView::Array(elems) => {
            let r = array_values(elems, file_id);
            (ValueView::Array(r.0), r.1)
        },
        ExpressionKindView::InlineTable(pairs) => {
            let r = inline_table(pairs, file_id);
            (ValueView::Table(r.0), r.1)
        },
        ExpressionKindView::Unknown => (
            ValueView::Table(TableView::empty()),
            seq![
                ErrorView::NotSupported {
                    feature: "unknown expressions"@,
                    span: Span { file_id, span: expr.span },
                },
            ],
        ),
    }
}

/// The values of the elements of an array, in order, and the diagnostics of
/// evaluating them one after the other.
pub open spec fn array_values<L>(elems: Seq<ExpressionView<L>>, file_id: usize) -> (
    Seq<ValueView<L>>,
    Seq<ErrorView<L>>,
)
    decreases elems,
{
    if elems.len() == 0 {
        (Seq::empty(), Seq::empty())
    } else {
        let front = array_values(elems.drop_last(), file_id);
        let last = expr_value(elems.last(), file_id);
        (front.0.push(last.0), front.1 + last.1)
    }
}

/// The table that an inline table builds: each pair is evaluated and then
/// bound, one after the other, starting from the empty table.
pub open spec fn inline_table<L>(pairs: Seq<(KeyView<L>, ExpressionView<L>)>, file_id: usize) -> (
    TableView<L>,
    Seq<ErrorView<L>>,
)
    decreases pairs,
{
    if pairs.len() == 0 {
        (TableView::empty(), Seq::empty())
    } else {
        let front = inline_table(pairs.drop_last(), file_id);
        let last = expr_value(pairs.last().1, file_id);
        let bound = table_insert(front.0, pairs.last().0, last.0, file_id);
        (bound.0, front.1 + last.1 + bound.1)
    }
}

/// The table inside a value, or a diagnostic at `span` if the value is no table.
pub open spec fn as_table<L>(value: ValueView<L>, span: Range<L>, file_id: usize) -> (
    Option<TableView<L>>,
    Seq<ErrorView<L>>,
) {
    match value {
        ValueView::Table(table) => (Some(table), Seq::empty()),
        _ => (
            None,
            seq![
                ErrorView::KindMismatch {
                    expect: seq![Kind::Table],
                    found: value.kind(),
                    span: Span { file_id, span },
                },
            ],
        ),
    }
}

/// The seed table of a header, the span of its default expression, and the
/// diagnostics of evaluating that expression. Without a default expression,
/// or with one that is no table, the seed is empty.
pub open spec fn header_seed<L>(default: Option<ExpressionView<L>>, file_id: usize) -> (
    TableView<L>,
    Option<Range<L>>,
    Seq<ErrorView<L>>,
) {
    match default {
        Some(expr) => {
            let value = expr_value(expr, file_id);
            let table = as_table(value.0, expr.span, file_id);
            (
                match table.0 {
                    Some(t) => t.as_default(),
                    None => TableView::empty(),
                },
                Some(expr.span),
                value.1 + table.1,
            )
        },
        None => (TableView::empty(), None, Seq::empty()),
    }
}

impl<L> CurrentValueView<L> {
    /// The table that bindings go to: the table itself, or the last of the array.
    pub open spec fn tip(self) -> Option<TableView<L>> {
        match self {
            CurrentValueView::Table(table) => Some(table),
            CurrentValueView::Array(tables, _) => if tables.len() > 0 {
                Some(tables.last())
            } else {
                None
            },
        }
    }

    /// The same section with `table` in the place of its tip.
    pub open spec fn with_tip(self, table: TableView<L>) -> CurrentValueView<L> {
        match self {
            CurrentValueView::Table(_) => CurrentValueView::Table(table),
            CurrentValueView::Array(tables, seed) => if tables.len() > 0 {
                CurrentValueView::Array(tables.update(tables.len() - 1, table), seed)
            } else {
                self
            },
        }
    }

    /// The value that the section is bound as when it is closed.
    pub open spec fn into_value(self) -> ValueView<L> {
        match self {
            CurrentValueView::Table(table) => ValueView::Table(table),
            CurrentValueView::Array(tables, _) => ValueView::Array(
                tables.map_values(|t: TableView<L>| ValueView::Table(t)),
            ),
        }
    }
}

impl<L> CurrentView<L> {
    /// The section that a header opens.
    pub open spec fn new(kind: TableHeaderKind, pattern: PatternView<L>, seed: TableView<L>) -> CurrentView<
        L,
    > {
        CurrentView {
            pattern,
            value: match kind {
                TableHeaderKind::Normal => CurrentValueView::Table(seed),
                TableHeaderKind::Array => CurrentValueView::Array(seq![seed], seed),
            },
        }
    }

    /// Whether a header continues this section: an array header, on an open
    /// array, with the same pattern.
    pub open spec fn is_movable(self, kind: TableHeaderKind, pattern: PatternView<L>) -> bool {
        kind == TableHeaderKind::Array && self.value is Array && self.pattern.same(pattern)
    }

    /// The section with one more table, a copy of the seed, and the
    /// diagnostics of adding it.
    pub open spec fn next_array(self) -> (CurrentView<L>, Seq<ErrorView<L>>) {
        match self.value {
            CurrentValueView::Table(_) => (self, seq![ErrorView::Unexpected]),
            CurrentValueView::Array(tables, seed) => (
                CurrentView { pattern: self.pattern, value: CurrentValueView::Array(tables.push(seed), seed) },
                Seq::empty(),
            ),
        }
    }
}

impl<L> EnvView<L> {
    /// The state before the first statement.
    pub open spec fn new(file_id: usize) -> EnvView<L> {
        EnvView {
            file_id,
            root: TableView::empty(),
            builtin: BuiltinView::empty(),
            current: None,
            errors: Seq::empty(),
        }
    }

    /// The state with further diagnostics.
    pub open spec fn with_errors(self, errors: Seq<ErrorView<L>>) -> EnvView<L> {
        EnvView { errors: self.errors + errors, ..self }
    }

    /// Setting a built-in key. Only `output` and `filetype` exist, under normal
    /// keys, and both take a string; a later value replaces an earlier one.
    pub open spec fn builtin_write(self, key: KeyView<L>, value: ValueView<L>) -> EnvView<L> {
        let span = Span { file_id: self.file_id, span: key.span };
        let mismatch = ErrorView::KindMismatch { expect: seq![Kind::String], found: value.kind(), span };
        if key.kind != KeyKind::Normal {
            self.with_errors(seq![ErrorView::BuiltinNotFound { span }])
        } else if key.name == "output"@ {
            match value {
                ValueView::String(s) => EnvView {
                    builtin: BuiltinView { output: Some(s), ..self.builtin },
                    ..self
                },
                _ => self.with_errors(seq![mismatch]),
            }
        } else if key.name == "filetype"@ {
            match value {
                ValueView::String(s) => EnvView {
                    builtin: BuiltinView { filetype: Some(s), ..self.builtin },
                    ..self
                },
                _ => self.with_errors(seq![mismatch]),
            }
        } else {
            self.with_errors(seq![ErrorView::BuiltinNotFound { span }])
        }
    }

    /// Binding a value at a pattern: a key pattern binds in the tip of the
    /// open section, or in the root table if no section is open; a built-in
    /// pattern sets a built-in key.
    pub open spec fn bind(self, pattern: PatternView<L>, value: ValueView<L>) -> EnvView<L> {
        match pattern.kind {
            PatternKindView::Key(key) => match self.current {
                Some(cur) => match cur.value.tip() {
                    Some(table) => {
                        let bound = table_insert(table, key, value, self.file_id);
                        EnvView {
                            current: Some(
                                CurrentView { pattern: cur.pattern, value: cur.value.with_tip(bound.0) },
                            ),
                            errors: self.errors + bound.1,
                            ..self
                        }
                    },
                    None => self.with_errors(seq![ErrorView::Unexpected]),
                },
                None => {
                    let bound = table_insert(self.root, key, value, self.file_id);
                    EnvView { root: bound.0, errors: self.errors + bound.1, ..self }
                },
            },
            PatternKindView::Builtin(key) => self.builtin_write(key, value),
            PatternKindView::Unknown => self.with_errors(
                seq![
                    ErrorView::NotSupported {
                        feature: "unknown pattern"@,
                        span: Span { file_id: self.file_id, span: pattern.span },
                    },
                ],
            ),
        }
    }

    /// The state with no section open, after the open one, if there is one,
    /// was bound in the root table at its pattern.
    pub open spec fn finalize(self) -> EnvView<L> {
        match self.current {
            Some(cur) => EnvView { current: None, ..self }.bind(cur.pattern, cur.value.into_value()),
            None => self,
        }
    }

    /// A table header: it continues the open array, or closes the open
    /// section and opens a new one.
    pub open spec fn header(
        self,
        kind: TableHeaderKind,
        pattern: PatternView<L>,
        default: Option<ExpressionView<L>>,
    ) -> EnvView<L> {
        let seed = header_seed(default, self.file_id);
        let env = self.with_errors(seed.2);
        if env.current is Some && env.current->0.is_movable(kind, pattern) {
            let refused = match seed.1 {
                Some(span) => seq![
                    ErrorView::UnallowedDefaultValue { span: Span { file_id: self.file_id, span } },
                ],
                None => Seq::empty(),
            };
            let next = env.current->0.next_array();
            EnvView { current: Some(next.0), errors: env.errors + refused + next.1, ..env }
        } else {
            EnvView { current: Some(CurrentView::new(kind, pattern, seed.0)), ..env.finalize() }
        }
    }

    /// One statement.
    pub open spec fn step(self, stmt: StatementView<L>) -> EnvView<L> {
        match stmt.kind {
            StatementKindView::ValueBinding(pattern, expr) => {
                let value = expr_value(expr, self.file_id);
                self.with_errors(value.1).bind(pattern, value.0)
            },
            StatementKindView::TableHeader(kind, pattern, default) => self.header(
                kind,
                pattern,
                default,
            ),
            StatementKindView::Unknown => self.with_errors(
                seq![
                    ErrorView::NotSupported {
                        feature: "unknown statements"@,
                        span: Span { file_id: self.file_id, span: stmt.span },
                    },
                ],
            ),
        }
    }

    /// The end of the input: the open section is bound, and root table,
    /// built-in keys and diagnostics are what the evaluation leaves behind.
    pub open spec fn close(self) -> SnapshotView<L> {
        let env = self.finalize();
        SnapshotView { root: env.root, builtin: env.builtin, errors: env.errors }
    }
}

/// The state after the statements, taken in order from the initial state.
pub open spec fn run<L>(stmts: Seq<StatementView<L>>, file_id: usize) -> EnvView<L>
    decreases stmts.len(),
{
    if stmts.len() == 0 {
        EnvView::new(file_id)
    } else {
        run(stmts.drop_last(), file_id).step(stmts.last())
    }
}

/// What evaluating the statements leaves behind.
pub open spec fn evaluation<L>(stmts: Seq<StatementView<L>>, file_id: usize) -> SnapshotView<L> {
    run(stmts, file_id).close()
}

} // verus!
