//! The evaluator: it takes the statements of a document in order and builds
//! the root table, the built-in keys and the list of diagnostics.
use crate::ast::{
    statements_view, Expression, ExpressionKind, Key, KeyKind, Literal, Pattern, PatternKind,
    Statement, StatementKind, TableHeaderKind,
};
use crate::error::{errors_view, Error, Kind, Span};
use crate::model::{
    array_values, as_table, evaluation, expr_value, header_seed, inline_table, run, table_insert,
    CurrentValueView, CurrentView, EnvView,
};
use crate::snapshot::{Builtin, Snapshot};
use crate::value::{as_default, Element, ElementView, Table, TableView, Value, ValueView};
use core::ops::Range;
use vstd::prelude::*;

verus! {

/// Appends one diagnostic.
fn report<L>(errors: &mut Vec<Error<L>>, error: Error<L>)
    ensures
        errors_view(final(errors)@) == errors_view(old(errors)@).push(error@),
        errors_view(final(errors)@) == errors_view(old(errors)@) + seq![error@],
{
    errors.push(error);
}

/// Binds `value` to `key` in `table`. A name that is already bound, and not
/// by a default, keeps its element, and the new binding is reported.
pub fn insert<L: Copy>(
    table: &mut Table<L>,
    key: Key<L>,
    value: Value<L>,
    errors: &mut Vec<Error<L>>,
    file_id: usize,
)
    requires
        old(table).wf(),
        value.wf(),
    ensures
        final(table).wf(),
        final(table)@ == table_insert(old(table)@, key@, value@, file_id).0,
        errors_view(final(errors)@) == errors_view(old(errors)@) + table_insert(
            old(table)@,
            key@,
            value@,
            file_id,
        ).1,
{
    let exported = match key.kind {
        KeyKind::Normal => true,
        KeyKind::Local => false,
        KeyKind::Builtin => {
            report(
                errors,
                Error::NotSupported { feature: "unknown keys", span: Span { file_id, span: key.span } },
            );
            return ;
        },
    };
    let existing: Option<Range<L>> = match table.global.get(key.name.as_str()) {
        Some(elem) => if elem.is_default {
            None
        } else {
            Some(elem.defined.start..elem.defined.end)
        },
        None => None,
    };
    match existing {
        Some(defined) => {
            report(
                errors,
                Error::DuplicateKey {
                    existing: Span { file_id, span: defined },
                    found: Span { file_id, span: key.span },
                },
            );
        },
        None => {
            table.global.insert(
                key.name,
                Element { value, defined: key.span, is_default: false, exported },
            );
        },
    }
}

/// Evaluates an expression. The diagnostics of the evaluation are appended to
/// `errors`; the value comes with the span of the expression.
pub fn expr_to_value<L: Copy>(expr: &Expression<L>, errors: &mut Vec<Error<L>>, file_id: usize) -> (r: (
    Value<L>,
    Range<L>,
))
    ensures
        r.0@ == expr_value(expr@, file_id).0,
        r.0.wf(),
        r.1 == expr.span,
        errors_view(final(errors)@) == errors_view(old(errors)@) + expr_value(expr@, file_id).1,
    decreases expr,
{
    let ghost before = errors_view(errors@);
    let val = match &expr.kind {
        ExpressionKind::Literal(Literal::Character(c)) => Value::Character(*c),
        ExpressionKind::Literal(Literal::String(s)) => Value::String(s.clone()),
        ExpressionKind::Literal(Literal::Integer(i)) => Value::Integer(*i),
        ExpressionKind::Literal(Literal::Float(f)) => Value::Float(*f),
        ExpressionKind::Array(arr) => {
            let ghost elems = expr@.kind->Array_0;
            let mut out: Vec<Value<L>> = Vec::new();
            let mut i: usize = 0;
            while i < arr.len()
                invariant
                    i <= arr.len(),
                    expr.kind is Array && expr.kind->Array_0 == *arr,
                    elems == expr@.kind->Array_0,
                    elems.len() == arr.len(),
                    out@.len() == i,
                    array_values(elems.take(i as int), file_id).0.len() == i,
                    forall|j: int|
                        0 <= j < i ==> (#[trigger] out@[j])@ == array_values(
                            elems.take(i as int),
                            file_id,
                        ).0[j],
                    forall|j: int| 0 <= j < i ==> (#[trigger] out@[j]).wf(),
                    errors_view(errors@) == before + array_values(elems.take(i as int), file_id).1,
                decreases arr.len() - i,
            {
                proof {
                    assert(elems.take(i + 1).drop_last() =~= elems.take(i as int));
                }
                let v = expr_to_value(&arr[i], errors, file_id).0;
                out.push(v);
                i += 1;
            }
            proof {
                assert(elems.take(arr.len() as int) =~= elems);
            }
            let r = Value::Array(out);
            assert(r@->Array_0 =~= array_values(elems, file_id).0);
            r
        },
        ExpressionKind::InlineTable(arr) => {
            let ghost pairs = expr@.kind->InlineTable_0;
            let mut table: Table<L> = Table::new();
            let mut i: usize = 0;
            while i < arr.len()
                invariant
                    i <= arr.len(),
                    expr.kind is InlineTable && expr.kind->InlineTable_0 == *arr,
                    pairs == expr@.kind->InlineTable_0,
                    pairs.len() == arr.len(),
                    table.wf(),
                    table@ == inline_table(pairs.take(i as int), file_id).0,
                    errors_view(errors@) == before + inline_table(pairs.take(i as int), file_id).1,
                decreases arr.len() - i,
            {
                proof {
                    assert(pairs.take(i + 1).drop_last() =~= pairs.take(i as int));
                }
                let v = expr_to_value(&arr[i].1, errors, file_id).0;
                insert(&mut table, arr[i].0.clone(), v, errors, file_id);
                i += 1;
            }
            proof {
                assert(pairs.take(arr.len() as int) =~= pairs);
            }
            Value::Table(table)
        },
        ExpressionKind::Unknown => {
            report(
                errors,
                Error::NotSupported {
                    feature: "unknown expressions",
                    span: Span { file_id, span: expr.span.start..expr.span.end },
                },
            );
            Value::Table(Table::new())
        },
    };
    (val, expr.span.start..expr.span.end)
}

/// Takes the table out of a value. A value of another shape is reported at `span`.
pub fn assert_table<L>(val: Value<L>, span: Range<L>, errors: &mut Vec<Error<L>>, file_id: usize) -> (r:
    Option<Table<L>>)
    requires
        val.wf(),
    ensures
        match r {
            Some(table) => table.wf() && as_table(val@, span, file_id).0 == Some(table@),
            None => as_table(val@, span, file_id).0 is None,
        },
        errors_view(final(errors)@) == errors_view(old(errors)@) + as_table(val@, span, file_id).1,
{
    match val {
        Value::Table(table) => {
            Some(table)
        },
        val => {
            let found = val.kind();
            let expect = vec![Kind::Table];
            assert(expect@ =~= seq![Kind::Table]);
            report(errors, Error::KindMismatch { expect, found, span: Span { file_id, span } });
            None
        },
    }
}

/// The still-open section: one table, or the tables of an array together
/// with the seed that each further table starts from.
#[derive(Debug, PartialEq)]
pub enum CurrentValue<L> {
    Table(Table<L>),
    Array(Vec<Table<L>>, Table<L>),
}

impl<L> CurrentValue<L> {
    pub open spec fn view(&self) -> CurrentValueView<L> {
        match self {
            CurrentValue::Table(table) => CurrentValueView::Table(table@),
            CurrentValue::Array(tables, seed) => CurrentValueView::Array(
                tables@.map_values(|t: Table<L>| t@),
                seed@,
            ),
        }
    }

    /// Every table of the section is well-formed.
    pub open spec fn wf(&self) -> bool {
        match self {
            CurrentValue::Table(table) => table.wf(),
            CurrentValue::Array(tables, seed) => seed.wf() && forall|i: int|
                0 <= i < tables@.len() ==> (#[trigger] tables@[i]).wf(),
        }
    }

    /// Whether this section is `before` with `table` in the place of its tip.
    pub open spec fn replaces_tip(&self, before: CurrentValue<L>, table: Table<L>) -> bool {
        match before {
            CurrentValue::Table(_) => *self == CurrentValue::Table(table),
            CurrentValue::Array(tables, seed) => {
                &&& tables@.len() > 0
                &&& *self is Array
                &&& self->Array_0@ == tables@.update(tables@.len() - 1, table)
                &&& self->Array_1 == seed
            },
        }
    }

    /// Replacing the tip of a section replaces the tip of its model.
    pub proof fn lemma_replaces_tip(&self, before: CurrentValue<L>, table: Table<L>)
        requires
            self.replaces_tip(before, table),
        ensures
            self@ == before@.with_tip(table@),
    {
        match before {
            CurrentValue::Table(_) => {},
            CurrentValue::Array(tables, seed) => {
                let n = tables@.len() - 1;
                assert(self@->Array_0 =~= before@->Array_0.update(n, table@));
            },
        }
    }

    /// The table that bindings go to: the table itself, or the last of the array.
    pub fn as_mut_table(&mut self) -> (r: Option<&mut Table<L>>)
        requires
            old(self).wf(),
        ensures
            match r {
                Some(table) => {
                    &&& table.wf()
                    &&& old(self)@.tip() == Some(table@)
                    &&& final(self).replaces_tip(*old(self), *final(table))
                    &&& final(table).wf() ==> final(self).wf()
                },
                None => old(self)@.tip() is None && *final(self) == *old(self),
            },
    {
        match self {
            CurrentValue::Table(table) => Some(table),
            CurrentValue::Array(tables, _) => {
                let n = tables.len();
                if n == 0 {
                    None
                } else {
                    Some(&mut tables[n - 1])
                }
            },
        }
    }
}

impl<L> CurrentValue<L> {
    /// The value that the section is bound as when it is closed.
    pub fn into_value(self) -> (r: Value<L>)
        requires
            self.wf(),
        ensures
            r@ == self@.into_value(),
            r.wf(),
    {
        match self {
            CurrentValue::Table(table) => Value::Table(table),
            CurrentValue::Array(tables, _) => {
                let ghost all = tables@;
                let ghost models = all.map_values(|t: Table<L>| t@);
                let mut out: Vec<Value<L>> = Vec::new();
                for table in it: tables
                    invariant
                        out@.len() == it.index(),
                        it.seq() == all,
                        forall|j: int| 0 <= j < all.len() ==> (#[trigger] all[j]).wf(),
                        forall|j: int|
                            0 <= j < out@.len() ==> (#[trigger] out@[j]) == Value::Table(all[j]),
                {
                    out.push(Value::Table(table));
                }
                let r = Value::Array(out);
                assert forall|j: int| 0 <= j < out@.len() implies (#[trigger] out@[j])@
                    == ValueView::Table(all[j]@) && out@[j].wf() by {
                }
                assert(r@->Array_0 =~= models.map_values(|t: TableView<L>| ValueView::Table(t)));
                r
            },
        }
    }
}

/// The still-open section and the pattern it will be bound to.
#[derive(Debug)]
pub struct Current<L> {
    pub pattern: Pattern<L>,
    pub value: CurrentValue<L>,
}

impl<L> Current<L> {
    pub open spec fn view(&self) -> CurrentView<L> {
        CurrentView { pattern: self.pattern@, value: self.value@ }
    }

    /// Every table of the section is well-formed.
    pub open spec fn wf(&self) -> bool {
        self.value.wf()
    }
}

impl<L: Copy> Current<L> {
    /// The section that a header opens, seeded with `default`.
    pub fn new(kind: TableHeaderKind, pattern: Pattern<L>, default: Table<L>) -> (cur: Self)
        requires
            default.wf(),
        ensures
            cur.wf(),
            cur@ == CurrentView::new(kind, pattern@, default@),
    {
        let value = match kind {
            TableHeaderKind::Normal => CurrentValue::Table(default),
            TableHeaderKind::Array => {
                let tables = vec![default.clone()];
                assert(tables@.map_values(|t: Table<L>| t@) =~= seq![default@]);
                CurrentValue::Array(tables, default)
            },
        };
        Current { pattern, value }
    }

    /// Whether a header continues this section: an array header, on an open
    /// array, with the same pattern.
    pub fn is_movable(&self, kind: TableHeaderKind, pattern: &Pattern<L>) -> (r: bool)
        ensures
            r == self@.is_movable(kind, pattern@),
    {
        kind == TableHeaderKind::Array && matches!(self.value, CurrentValue::Array(_, _))
            && self.pattern.same(pattern)
    }

    /// Adds one more table to the array, a copy of the seed.
    pub fn next_array(&mut self, errors: &mut Vec<Error<L>>)
        requires
            old(self).wf(),
        ensures
            final(self).wf(),
            final(self)@ == old(self)@.next_array().0,
            errors_view(final(errors)@) == errors_view(old(errors)@) + old(self)@.next_array().1,
    {
        match &mut self.value {
            CurrentValue::Table(_) => {
                report(errors, Error::Unexpected);
            },
            CurrentValue::Array(tables, seed) => {
                tables.push(seed.clone());
            },
        }
        proof {
            if old(self).value is Array {
                assert(self.value@->Array_0 =~= old(self).value@->Array_0.push(
                    old(self).value@->Array_1,
                ));
            }
        }
    }
}

/// The state of an evaluation between two statements.
#[derive(Debug)]
pub struct Environment<L> {
    file_id: usize,
    root: Table<L>,
    builtin: Builtin,
    current: Option<Current<L>>,
    errors: Vec<Error<L>>,
}

impl<L> Environment<L> {
    pub closed spec fn view(&self) -> EnvView<L> {
        EnvView {
            file_id: self.file_id,
            root: self.root@,
            builtin: self.builtin@,
            current: match self.current {
                Some(cur) => Some(cur@),
                None => None,
            },
            errors: errors_view(self.errors@),
        }
    }

    /// The root table and the tables of the open section are well-formed.
    pub closed spec fn wf(&self) -> bool {
        &&& self.root.wf()
        &&& self.current matches Some(cur) ==> cur.wf()
    }
}

impl<L: Copy> Environment<L> {
    /// The state before the first statement of the file `file_id`.
    pub fn new(file_id: usize) -> (env: Self)
        ensures
            env.wf(),
            env@ == EnvView::<L>::new(file_id),
    {
        let env = Environment {
            file_id,
            root: Table::new(),
            builtin: Builtin::new(),
            current: None,
            errors: Vec::new(),
        };
        assert(errors_view(env.errors@) =~= Seq::empty());
        env
    }

    /// Binds a value at a pattern: a key pattern binds in the tip of the open
    /// section, or in the root table if no section is open; a built-in
    /// pattern sets a built-in key.
    pub fn bind(&mut self, pattern: Pattern<L>, value: Value<L>)
        requires
            old(self).wf(),
            value.wf(),
        ensures
            final(self).wf(),
            final(self)@ == old(self)@.bind(pattern@, value@),
    {
        match pattern.kind {
            PatternKind::Key(key) => {
                match &mut self.current {
                    Some(cur) => {
                        let ghost before = cur.value;
                        match cur.value.as_mut_table() {
                            Some(table) => {
                                insert(table, key, value, &mut self.errors, self.file_id);
                            },
                            None => {
                                report(&mut self.errors, Error::Unexpected);
                            },
                        }
                        proof {
                            if before@.tip() is Some {
                                let after = cur.value;
                                let tip = match after {
                                    CurrentValue::Table(table) => table,
                                    CurrentValue::Array(tables, _) => tables@[tables@.len() - 1],
                                };
                                after.lemma_replaces_tip(before, tip);
                            }
                        }
                    },
                    None => {
                        insert(&mut self.root, key, value, &mut self.errors, self.file_id);
                    },
                }
            },
            PatternKind::Builtin(key) => {
                self.builtin_write(key, value);
            },
            PatternKind::Unknown => {
                report(
                    &mut self.errors,
                    Error::NotSupported {
                        feature: "unknown pattern",
                        span: Span { file_id: self.file_id, span: pattern.span },
                    },
                );
            },
        }
    }

    /// Binds the open section, if there is one, in the root table at its
    /// pattern, and leaves no section open.
    fn finalize(&mut self)
        requires
            old(self).wf(),
        ensures
            final(self).wf(),
            final(self)@ == old(self)@.finalize(),
    {
        match self.current.take() {
            Some(cur) => {
                let Current { pattern, value } = cur;
                self.bind(pattern, value.into_value());
            },
            None => {},
        }
    }

    /// A table header with its optional default expression: it continues the
    /// open array, or closes the open section and opens a new one.
    pub fn header(&mut self, kind: TableHeaderKind, pattern: Pattern<L>, default: Option<&Expression<L>>)
        requires
            old(self).wf(),
        ensures
            final(self).wf(),
            final(self)@ == old(self)@.header(
                kind,
                pattern@,
                match default {
                    Some(expr) => Some(expr@),
                    None => None,
                },
            ),
    {
        let ghost default_view = match default {
            Some(expr) => Some(expr@),
            None => None,
        };
        let ghost seed = header_seed(default_view, self.file_id);
        let (mut table, default_span) = match default {
            Some(expr) => {
                let (val, span) = expr_to_value(expr, &mut self.errors, self.file_id);
                let found = assert_table(
                    val,
                    span.start..span.end,
                    &mut self.errors,
                    self.file_id,
                );
                let table = match found {
                    Some(table) => table,
                    None => Table::new(),
                };
                (table, Some(span))
            },
            None => (Table::new(), None),
        };
        table.make_default();
        proof {
            assert(table@ =~~= seed.0) by {
                assert(as_default(Map::<Seq<char>, ElementView<L>>::empty()) =~= Map::<
                    Seq<char>,
                    ElementView<L>,
                >::empty());
            }
            assert(errors_view(self.errors@) =~= errors_view(old(self).errors@) + seed.2);
        }
        let movable = match &self.current {
            Some(cur) => cur.is_movable(kind, &pattern),
            None => false,
        };
        if movable {
            match default_span {
                Some(span) => {
                    report(
                        &mut self.errors,
                        Error::UnallowedDefaultValue { span: Span { file_id: self.file_id, span } },
                    );
                },
                None => {},
            }
            match &mut self.current {
                Some(cur) => {
                    cur.next_array(&mut self.errors);
                },
                None => {},
            }
        } else {
            self.finalize();
            self.current = Some(Current::new(kind, pattern, table));
        }
    }

    /// One statement.
    pub fn step(&mut self, stmt: &Statement<L>)
        requires
            old(self).wf(),
        ensures
            final(self).wf(),
            final(self)@ == old(self)@.step(stmt@),
    {
        match &stmt.kind {
            StatementKind::ValueBinding(pattern, expr) => {
                let value = expr_to_value(expr, &mut self.errors, self.file_id).0;
                self.bind(pattern.clone(), value);
            },
            StatementKind::TableHeader(kind, pattern, default) => {
                self.header(*kind, pattern.clone(), default.as_ref());
            },
            StatementKind::Unknown => {
                report(
                    &mut self.errors,
                    Error::NotSupported {
                        feature: "unknown statements",
                        span: Span { file_id: self.file_id, span: stmt.span.start..stmt.span.end },
                    },
                );
            },
        }
    }

    /// The end of the input: the open section is bound, and root table,
    /// built-in keys and diagnostics are handed out.
    pub fn close(self) -> (snapshot: Snapshot<L>)
        requires
            self.wf(),
        ensures
            snapshot.wf(),
            snapshot@ == self@.close(),
    {
        let mut env = self;
        env.finalize();
        Snapshot { root: env.root, builtin: env.builtin, errors: env.errors }
    }

    /// Sets a built-in key. Only `output` and `filetype` exist, under normal
    /// keys, and both take a string; a later value replaces an earlier one.
    pub fn builtin_write(&mut self, key: Key<L>, value: Value<L>)
        requires
            old(self).wf(),
        ensures
            final(self).wf(),
            final(self)@ == old(self)@.builtin_write(key@, value@),
    {
        let span = Span { file_id: self.file_id, span: key.span };
        if key.kind != KeyKind::Normal {
            report(&mut self.errors, Error::BuiltinNotFound { span });
            return ;
        }
        let is_output = key.name == "output".to_owned();
        let is_filetype = key.name == "filetype".to_owned();
        if is_output || is_filetype {
            match value {
                Value::String(s) => {
                    if is_output {
                        self.builtin.output = Some(s);
                    } else {
                        self.builtin.filetype = Some(s);
                    }
                },
                value => {
                    let found = value.kind();
                    let expect = vec![Kind::String];
                    assert(expect@ =~= seq![Kind::String]);
                    report(&mut self.errors, Error::KindMismatch { expect, found, span });
                },
            }
        } else {
            report(&mut self.errors, Error::BuiltinNotFound { span });
        }
    }
}

/// Evaluates an AST to a value.
///
/// The statements are taken in order. None of them stops the evaluation:
/// what cannot be done is reported in the snapshot's list of diagnostics.
pub fn evaluate<L: Copy>(ast: &[Statement<L>], file_id: usize) -> (snapshot: Snapshot<L>)
    ensures
        snapshot.wf(),
        snapshot@ == evaluation(statements_view(ast@), file_id),
{
    let ghost stmts = statements_view(ast@);
    let mut env: Environment<L> = Environment::new(file_id);
    let mut i: usize = 0;
    while i < ast.len()
        invariant
            i <= ast.len(),
            stmts == statements_view(ast@),
            env.wf(),
            env@ == run(stmts.take(i as int), file_id),
        decreases ast.len() - i,
    {
        proof {
            assert(stmts.take(i + 1).drop_last() =~= stmts.take(i as int));
        }
        env.step(&ast[i]);
        i += 1;
    }
    proof {
        assert(stmts.take(ast.len() as int) =~= stmts);
    }
    env.close()
}

} // verus!
