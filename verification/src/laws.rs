//! What holds of every evaluation, proved of the model that the evaluator
//! is verified against.
use crate::ast::{
    statements_view, ExpressionKindView, ExpressionView, KeyKind, KeyView, PatternKindView,
    PatternView, Statement, StatementKindView, StatementView, TableHeaderKind,
};
use crate::error::{errors_view, ErrorView, Span};
use crate::model::{
    array_values, evaluation, expr_value, header_seed, inline_table, run, table_insert,
    CurrentValueView, EnvView,
};
use crate::snapshot::{BuiltinView, Snapshot};
use crate::value::{as_default, ElementView, TableView, ValueView};
use vstd::prelude::*;

verus! {

/// The statement `key = expr`.
pub open spec fn binding<L>(key: KeyView<L>, expr: ExpressionView<L>, span: core::ops::Range<L>) -> StatementView<
    L,
> {
    StatementView {
        kind: StatementKindView::ValueBinding(
            PatternView { kind: PatternKindView::Key(key), span: key.span },
            expr,
        ),
        span,
    }
}

/// The header `[pattern]` or `[[pattern]]`, with its default expression if it has one.
pub open spec fn header<L>(
    kind: TableHeaderKind,
    key: KeyView<L>,
    default: Option<ExpressionView<L>>,
    span: core::ops::Range<L>,
) -> StatementView<L> {
    StatementView {
        kind: StatementKindView::TableHeader(
            kind,
            PatternView { kind: PatternKindView::Key(key), span: key.span },
            default,
        ),
        span,
    }
}

/// The statement `@key = expr`.
pub open spec fn builtin_binding<L>(
    key: KeyView<L>,
    expr: ExpressionView<L>,
    span: core::ops::Range<L>,
) -> StatementView<L> {
    StatementView {
        kind: StatementKindView::ValueBinding(
            PatternView { kind: PatternKindView::Builtin(key), span },
            expr,
        ),
        span,
    }
}

/// A document of one statement is one step from the initial state.
pub proof fn lemma_run_one<L>(s1: StatementView<L>, file_id: usize)
    ensures
        run(seq![s1], file_id) == EnvView::<L>::new(file_id).step(s1),
{
    reveal_with_fuel(run, 2);
}

/// A document of two statements is two steps from the initial state.
pub proof fn lemma_run_two<L>(s1: StatementView<L>, s2: StatementView<L>, file_id: usize)
    ensures
        run(seq![s1, s2], file_id) == EnvView::<L>::new(file_id).step(s1).step(s2),
{
    let stmts = seq![s1, s2];
    assert(stmts.drop_last() =~= seq![s1]);
    lemma_run_one(s1, file_id);
}

/// Two array headers of the same key, one after the other and without
/// bindings, leave one array of two empty tables in the root table, bound
/// at the first header's key, and no diagnostic.
pub proof fn law_array_headers_accumulate<L>(
    k1: KeyView<L>,
    s1: core::ops::Range<L>,
    k2: KeyView<L>,
    s2: core::ops::Range<L>,
    file_id: usize,
)
    requires
        k1.kind != KeyKind::Builtin,
        k1.same(k2),
    ensures
        ({
            let snapshot = evaluation(
                seq![
                    header(TableHeaderKind::Array, k1, None, s1),
                    header(TableHeaderKind::Array, k2, None, s2),
                ],
                file_id,
            );
            &&& snapshot.errors == Seq::<ErrorView<L>>::empty()
            &&& snapshot.root.global.dom() == set![k1.name]
            &&& snapshot.root.global[k1.name] == (ElementView {
                value: ValueView::Array(
                    seq![ValueView::Table(TableView::<L>::empty()), ValueView::Table(TableView::<L>::empty())],
                ),
                defined: k1.span,
                is_default: false,
                exported: k1.kind == KeyKind::Normal,
            })
        }),
{
    let h1 = header(TableHeaderKind::Array, k1, None, s1);
    let h2 = header(TableHeaderKind::Array, k2, None, s2);
    lemma_run_two(h1, h2, file_id);
    let env1 = EnvView::<L>::new(file_id).step(h1);
    let env2 = env1.step(h2);
    let empty = TableView::<L>::empty();
    assert(env2.current->0.value.into_value()->Array_0 =~= seq![
        ValueView::Table(empty),
        ValueView::Table(empty),
    ]);
}

/// An array header and then a normal header of the same key are two
/// sections: the array is bound when the normal header closes it, and the
/// table, which meets the name bound at the end of the document, is reported
/// as a duplicate and dropped.
pub proof fn law_kind_switch_is_a_duplicate<L>(
    k1: KeyView<L>,
    s1: core::ops::Range<L>,
    k2: KeyView<L>,
    s2: core::ops::Range<L>,
    file_id: usize,
)
    requires
        k1.kind != KeyKind::Builtin,
        k1.same(k2),
    ensures
        ({
            let snapshot = evaluation(
                seq![
                    header(TableHeaderKind::Array, k1, None, s1),
                    header(TableHeaderKind::Normal, k2, None, s2),
                ],
                file_id,
            );
            &&& snapshot.errors == seq![
                ErrorView::DuplicateKey {
                    existing: Span { file_id, span: k1.span },
                    found: Span { file_id, span: k2.span },
                },
            ]
            &&& snapshot.root.global.dom() == set![k1.name]
            &&& snapshot.root.global[k1.name].value == ValueView::Array(
                seq![ValueView::Table(TableView::<L>::empty())],
            )
        }),
{
    let h1 = header(TableHeaderKind::Array, k1, None, s1);
    let h2 = header(TableHeaderKind::Normal, k2, None, s2);
    lemma_run_two(h1, h2, file_id);
    let env1 = EnvView::<L>::new(file_id).step(h1);
    let empty = TableView::<L>::empty();
    assert(env1.current->0.value.into_value()->Array_0 =~= seq![ValueView::Table(empty)]);
}

/// A binding in a section overrides an element that the header's default
/// table gave: of `[t = {x = d}]` followed by `x = e`, the table bound to `t`
/// holds the value of `e` under `x`, no longer a default, and there is no
/// diagnostic but those of evaluating `d` and `e`.
pub proof fn law_default_is_overridden<L>(
    t: KeyView<L>,
    x1: KeyView<L>,
    d: ExpressionView<L>,
    default_span: core::ops::Range<L>,
    s1: core::ops::Range<L>,
    x2: KeyView<L>,
    e: ExpressionView<L>,
    s2: core::ops::Range<L>,
    file_id: usize,
)
    requires
        t.kind != KeyKind::Builtin,
        x1.kind != KeyKind::Builtin,
        x2.kind != KeyKind::Builtin,
        x1.name == x2.name,
    ensures
        ({
            let default = ExpressionView {
                kind: ExpressionKindView::InlineTable(seq![(x1, d)]),
                span: default_span,
            };
            let snapshot = evaluation(
                seq![header(TableHeaderKind::Normal, t, Some(default), s1), binding(x2, e, s2)],
                file_id,
            );
            &&& snapshot.errors == expr_value(d, file_id).1 + expr_value(e, file_id).1
            &&& snapshot.root.global.dom() == set![t.name]
            &&& snapshot.root.global[t.name].value is Table
            &&& snapshot.root.global[t.name].value->Table_0.global.dom() == set![x1.name]
            &&& snapshot.root.global[t.name].value->Table_0.global[x1.name] == (ElementView {
                value: expr_value(e, file_id).0,
                defined: x2.span,
                is_default: false,
                exported: x2.kind == KeyKind::Normal,
            })
        }),
{
    let default = ExpressionView {
        kind: ExpressionKindView::InlineTable(seq![(x1, d)]),
        span: default_span,
    };
    let h = header(TableHeaderKind::Normal, t, Some(default), s1);
    let b = binding(x2, e, s2);
    lemma_run_two(h, b, file_id);
    let pairs = seq![(x1, d)];
    let dv = expr_value(d, file_id);
    let built = inline_table(pairs, file_id);
    assert(built.1 =~= dv.1) by {
        reveal_with_fuel(inline_table, 2);
    }
    assert(built.0.global =~= Map::<Seq<char>, ElementView<L>>::empty().insert(
        x1.name,
        ElementView {
            value: dv.0,
            defined: x1.span,
            is_default: false,
            exported: x1.kind == KeyKind::Normal,
        },
    )) by {
        reveal_with_fuel(inline_table, 2);
    }
}

/// A default on a later header of an open array is refused: of `[[a]]`
/// followed by `[[a = d]]`, the second header is reported, after the
/// diagnostics of evaluating `d`, and the table it adds is the seed of the
/// first header, which is empty.
pub proof fn law_default_on_repeat_is_refused<L>(
    k1: KeyView<L>,
    s1: core::ops::Range<L>,
    k2: KeyView<L>,
    d: ExpressionView<L>,
    s2: core::ops::Range<L>,
    file_id: usize,
)
    requires
        k1.kind != KeyKind::Builtin,
        k1.same(k2),
    ensures
        ({
            let snapshot = evaluation(
                seq![
                    header(TableHeaderKind::Array, k1, None, s1),
                    header(TableHeaderKind::Array, k2, Some(d), s2),
                ],
                file_id,
            );
            &&& snapshot.errors == header_seed(Some(d), file_id).2 + seq![
                ErrorView::UnallowedDefaultValue { span: Span { file_id, span: d.span } },
            ]
            &&& snapshot.root.global.dom() == set![k1.name]
            &&& snapshot.root.global[k1.name].value == ValueView::Array(
                seq![ValueView::Table(TableView::<L>::empty()), ValueView::Table(TableView::<L>::empty())],
            )
        }),
{
    let h1 = header(TableHeaderKind::Array, k1, None, s1);
    let h2 = header(TableHeaderKind::Array, k2, Some(d), s2);
    lemma_run_two(h1, h2, file_id);
    let env1 = EnvView::<L>::new(file_id).step(h1);
    let env2 = env1.step(h2);
    let empty = TableView::<L>::empty();
    assert(env2.current->0.value.into_value()->Array_0 =~= seq![
        ValueView::Table(empty),
        ValueView::Table(empty),
    ]);
}

/// `@output = "s"` sets the built-in key `output` to `s` and touches nothing
/// else; a built-in key of any name but `output` and `filetype` does not
/// exist, and binding it gives exactly one diagnostic, at the key.
pub proof fn law_builtin_roundtrip<L>(
    key: KeyView<L>,
    expr: ExpressionView<L>,
    span: core::ops::Range<L>,
    file_id: usize,
)
    requires
        key.kind == KeyKind::Normal,
    ensures
        ({
            let snapshot = evaluation(seq![builtin_binding(key, expr, span)], file_id);
            let value = expr_value(expr, file_id);
            &&& snapshot.root == TableView::<L>::empty()
            &&& key.name == "output"@ && value.0 is String ==> {
                &&& snapshot.builtin.output == Some(value.0->String_0)
                &&& snapshot.builtin.filetype is None
                &&& snapshot.errors == value.1
            }
            &&& key.name != "output"@ && key.name != "filetype"@ ==> {
                &&& snapshot.builtin == BuiltinView::empty()
                &&& snapshot.errors == value.1 + seq![
                    ErrorView::BuiltinNotFound { span: Span { file_id, span: key.span } },
                ]
            }
        }),
{
    let b = builtin_binding(key, expr, span);
    lemma_run_one(b, file_id);
}

/// Once a name is bound in a table, a further binding of that name changes
/// nothing and is reported as a duplicate of the element that is there, under
/// a normal key as under a local one.
pub proof fn law_bound_name_stays<L>(
    table: TableView<L>,
    first: KeyView<L>,
    v1: ValueView<L>,
    second: KeyView<L>,
    v2: ValueView<L>,
    file_id: usize,
)
    requires
        first.kind != KeyKind::Builtin,
        second.kind != KeyKind::Builtin,
        first.name == second.name,
    ensures
        ({
            let once = table_insert(table, first, v1, file_id).0;
            &&& once.global.contains_key(first.name)
            &&& !once.global[first.name].is_default
            &&& table_insert(once, second, v2, file_id) == (
                once,
                seq![
                    ErrorView::DuplicateKey {
                        existing: Span { file_id, span: once.global[first.name].defined },
                        found: Span { file_id, span: second.span },
                    },
                ],
            )
        }),
{
}

/// Of the two statements `k = v1` and `k = v2` at the top of a document, with
/// the same name under normal or local keys, the first wins: the root table
/// binds the name to the value of `v1`, at the first key's span. The
/// diagnostics are those of evaluating `v1`, those of evaluating `v2`, and
/// then one duplicate key that names the first key's span as the existing
/// definition and the second key's span as the one found.
pub proof fn law_first_binding_wins<L>(
    k1: KeyView<L>,
    e1: ExpressionView<L>,
    s1: core::ops::Range<L>,
    k2: KeyView<L>,
    e2: ExpressionView<L>,
    s2: core::ops::Range<L>,
    file_id: usize,
)
    requires
        k1.kind != KeyKind::Builtin,
        k2.kind != KeyKind::Builtin,
        k1.name == k2.name,
    ensures
        ({
            let snapshot = evaluation(seq![binding(k1, e1, s1), binding(k2, e2, s2)], file_id);
            let v1 = expr_value(e1, file_id);
            let v2 = expr_value(e2, file_id);
            let duplicate = ErrorView::DuplicateKey {
                existing: Span { file_id, span: k1.span },
                found: Span { file_id, span: k2.span },
            };
            &&& snapshot.root.global.dom() == set![k1.name]
            &&& snapshot.root.global[k1.name] == (ElementView {
                value: v1.0,
                defined: k1.span,
                is_default: false,
                exported: k1.kind == KeyKind::Normal,
            })
            &&& snapshot.root.local == Map::<Seq<char>, ElementView<L>>::empty()
            &&& snapshot.errors == v1.1 + v2.1 + seq![duplicate]
            &&& v1.1.len() == 0 && v2.1.len() == 0 ==> snapshot.errors == seq![duplicate]
        }),
{
    let b1 = binding(k1, e1, s1);
    let b2 = binding(k2, e2, s2);
    lemma_run_two(b1, b2, file_id);
}

/// A local key and a normal key of the same name meet in one namespace: of
/// `_k = v1` followed by `k = v2` the second is a duplicate, and the element
/// that stays is not exported.
pub proof fn law_local_and_normal_keys_collide<L>(
    k1: KeyView<L>,
    e1: ExpressionView<L>,
    s1: core::ops::Range<L>,
    k2: KeyView<L>,
    e2: ExpressionView<L>,
    s2: core::ops::Range<L>,
    file_id: usize,
)
    requires
        k1.kind == KeyKind::Local,
        k2.kind == KeyKind::Normal,
        k1.name == k2.name,
    ensures
        ({
            let snapshot = evaluation(seq![binding(k1, e1, s1), binding(k2, e2, s2)], file_id);
            &&& snapshot.root.global[k1.name].value == expr_value(e1, file_id).0
            &&& !snapshot.root.global[k1.name].exported
            &&& snapshot.errors == expr_value(e1, file_id).1 + expr_value(e2, file_id).1 + seq![
                ErrorView::DuplicateKey {
                    existing: Span { file_id, span: k1.span },
                    found: Span { file_id, span: k2.span },
                },
            ]
        }),
{
    law_first_binding_wins(k1, e1, s1, k2, e2, s2, file_id);
}

/// Evaluation is a function of the statements and the file: whatever two
/// evaluations of statements with the same contents in the same file leave
/// behind is the same, in root table, built-in keys and diagnostics.
pub proof fn law_evaluation_repeats<L>(
    a: Seq<Statement<L>>,
    b: Seq<Statement<L>>,
    file_id: usize,
    first: Snapshot<L>,
    second: Snapshot<L>,
)
    requires
        statements_view(a) == statements_view(b),
        first@ == evaluation(statements_view(a), file_id),
        second@ == evaluation(statements_view(b), file_id),
    ensures
        first@ == second@,
        first.root@ == second.root@,
        first.builtin@ == second.builtin@,
        errors_view(first.errors@) == errors_view(second.errors@),
{
}

/// No diagnostic of the list reports a broken internal invariant.
pub open spec fn free_of_unexpected<L>(errors: Seq<ErrorView<L>>) -> bool {
    forall|i: int| 0 <= i < errors.len() ==> !(#[trigger] errors[i] is Unexpected)
}

impl<L> EnvView<L> {
    /// An open array of tables has at least one table.
    pub open spec fn inv(self) -> bool {
        self.current matches Some(cur) ==> (cur.value matches CurrentValueView::Array(tables, _)
            ==> tables.len() > 0)
    }
}

proof fn lemma_expr_value_free<L>(expr: ExpressionView<L>, file_id: usize)
    ensures
        free_of_unexpected(expr_value(expr, file_id).1),
    decreases expr,
{
    match expr.kind {
        ExpressionKindView::Array(elems) => lemma_array_values_free(elems, file_id),
        ExpressionKindView::InlineTable(pairs) => lemma_inline_table_free(pairs, file_id),
        _ => {},
    }
}

proof fn lemma_array_values_free<L>(elems: Seq<ExpressionView<L>>, file_id: usize)
    ensures
        free_of_unexpected(array_values(elems, file_id).1),
    decreases elems,
{
    if elems.len() > 0 {
        lemma_array_values_free(elems.drop_last(), file_id);
        lemma_expr_value_free(elems.last(), file_id);
    }
}

proof fn lemma_inline_table_free<L>(pairs: Seq<(KeyView<L>, ExpressionView<L>)>, file_id: usize)
    ensures
        free_of_unexpected(inline_table(pairs, file_id).1),
    decreases pairs,
{
    if pairs.len() > 0 {
        lemma_inline_table_free(pairs.drop_last(), file_id);
        lemma_expr_value_free(pairs.last().1, file_id);
    }
}

proof fn lemma_bind_keeps_inv<L>(env: EnvView<L>, pattern: PatternView<L>, value: ValueView<L>)
    requires
        env.inv(),
        free_of_unexpected(env.errors),
    ensures
        env.bind(pattern, value).inv(),
        free_of_unexpected(env.bind(pattern, value).errors),
        env.errors.is_prefix_of(env.bind(pattern, value).errors),
        env.current is None ==> env.bind(pattern, value).current is None,
{
}

/// One statement keeps the invariant, adds no report of a broken invariant,
/// and keeps every diagnostic that was there.
proof fn lemma_step_keeps_inv<L>(env: EnvView<L>, stmt: StatementView<L>)
    requires
        env.inv(),
        free_of_unexpected(env.errors),
    ensures
        env.step(stmt).inv(),
        free_of_unexpected(env.step(stmt).errors),
        env.errors.is_prefix_of(env.step(stmt).errors),
{
    match stmt.kind {
        StatementKindView::ValueBinding(pattern, expr) => {
            lemma_expr_value_free(expr, env.file_id);
            let value = expr_value(expr, env.file_id);
            lemma_bind_keeps_inv(env.with_errors(value.1), pattern, value.0);
        },
        StatementKindView::TableHeader(kind, pattern, default) => {
            if default is Some {
                lemma_expr_value_free(default->0, env.file_id);
            }
            let seed = header_seed(default, env.file_id);
            let opened = env.with_errors(seed.2);
            if !(opened.current is Some && opened.current->0.is_movable(kind, pattern)) {
                if opened.current is Some {
                    let cur = opened.current->0;
                    lemma_bind_keeps_inv(
                        EnvView { current: None, ..opened },
                        cur.pattern,
                        cur.value.into_value(),
                    );
                }
            }
        },
        StatementKindView::Unknown => {},
    }
}

proof fn lemma_run_keeps_inv<L>(stmts: Seq<StatementView<L>>, file_id: usize)
    ensures
        run(stmts, file_id).inv(),
        free_of_unexpected(run(stmts, file_id).errors),
    decreases stmts.len(),
{
    if stmts.len() > 0 {
        lemma_run_keeps_inv(stmts.drop_last(), file_id);
        lemma_step_keeps_inv(run(stmts.drop_last(), file_id), stmts.last());
    }
}

/// No evaluation reports a broken internal invariant.
pub proof fn law_unexpected_never_arises<L>(stmts: Seq<StatementView<L>>, file_id: usize)
    ensures
        free_of_unexpected(evaluation(stmts, file_id).errors),
{
    lemma_run_keeps_inv(stmts, file_id);
    let env = run(stmts, file_id);
    if env.current is Some {
        let cur = env.current->0;
        lemma_bind_keeps_inv(EnvView { current: None, ..env }, cur.pattern, cur.value.into_value());
    }
}

/// No diagnostic is lost: what the first `n` statements reported stands, in
/// the same order, at the front of what the whole document reports.
pub proof fn law_diagnostics_are_kept<L>(stmts: Seq<StatementView<L>>, n: int, file_id: usize)
    requires
        0 <= n <= stmts.len(),
    ensures
        run(stmts.take(n), file_id).errors.is_prefix_of(evaluation(stmts, file_id).errors),
    decreases stmts.len() - n,
{
    lemma_run_keeps_inv(stmts, file_id);
    let env = run(stmts, file_id);
    if n == stmts.len() {
        assert(stmts.take(n) =~= stmts);
        if env.current is Some {
            let cur = env.current->0;
            lemma_bind_keeps_inv(
                EnvView { current: None, ..env },
                cur.pattern,
                cur.value.into_value(),
            );
        }
    } else {
        law_diagnostics_are_kept(stmts, n + 1, file_id);
        assert(stmts.take(n + 1).drop_last() =~= stmts.take(n));
        lemma_run_keeps_inv(stmts.take(n), file_id);
        lemma_step_keeps_inv(run(stmts.take(n), file_id), stmts.take(n + 1).last());
    }
}

} // verus!
