//! The statements that a parser hands to the evaluator.
use crate::scan::push_text;
use crate::value::FloatParts;
use core::ops::Range;
use vstd::prelude::*;
use vstd::std_specs::cmp::PartialEqSpecImpl;

verus! {

/// Kinds of table headers
#[derive(Clone, Copy, Debug, PartialEq, Eq, Structural)]
#[non_exhaustive]
pub enum TableHeaderKind {
    /// A normal table header like `[table]`
    Normal,
    /// An array of tables like `[[array]]`
    Array,
}

/// Kinds of keys
#[derive(Clone, Copy, Debug, PartialEq, Eq, Structural)]
#[non_exhaustive]
pub enum KeyKind {
    /// A normal key like `key`
    Normal,
    /// A local key like `_key`
    Local,
    /// A built-in key like `@key`, which no table takes
    Builtin,
}

/// Keys
#[derive(Debug)]
pub struct Key<L> {
    /// The kind of the key
    pub kind: KeyKind,
    /// The name of the key
    pub name: String,
    /// The range in the file
    pub span: Range<L>,
}

/// The mathematical model of a [`Key`].
pub struct KeyView<L> {
    pub kind: KeyKind,
    pub name: Seq<char>,
    pub span: Range<L>,
}

impl<L> View for Key<L> {
    type V = KeyView<L>;

    open spec fn view(&self) -> KeyView<L> {
        KeyView { kind: self.kind, name: self.name@, span: self.span }
    }
}

impl<L> KeyView<L> {
    /// Two keys are the same key when kind and name agree; the spans may differ.
    pub open spec fn same(self, other: KeyView<L>) -> bool {
        self.kind == other.kind && self.name == other.name
    }
}

impl<L> Key<L> {
    /// Compares kind and name, not the span.
    pub fn same(&self, other: &Key<L>) -> (r: bool)
        ensures
            r == self@.same(other@),
    {
        self.kind == other.kind && self.name == other.name
    }
}

impl<L> KeyView<L> {
    /// The key as it is written: the name, behind an underscore for a local
    /// key and behind an at sign for a built-in key.
    pub open spec fn text(self) -> Seq<char> {
        match self.kind {
            KeyKind::Normal => self.name,
            KeyKind::Local => seq!['_'] + self.name,
            KeyKind::Builtin => seq!['@'] + self.name,
        }
    }
}

impl<L> Key<L> {
    /// The key as it is written.
    pub fn to_text(&self) -> (text: String)
        ensures
            text@ == self@.text(),
    {
        let mut text = String::new();
        match self.kind {
            KeyKind::Normal => {},
            KeyKind::Local => {
                text.push('_');
            },
            KeyKind::Builtin => {
                text.push('@');
            },
        }
        push_text(&mut text, self.name.as_str());
        text
    }
}

impl<L> PartialEq for Key<L> {
    fn eq(&self, other: &Self) -> (r: bool) {
        self.same(other)
    }
}

impl<L> PartialEqSpecImpl for Key<L> {
    open spec fn obeys_eq_spec() -> bool {
        true
    }

    open spec fn eq_spec(&self, other: &Self) -> bool {
        self@.same(other@)
    }
}

impl<L: Copy> Clone for Key<L> {
    fn clone(&self) -> (r: Self)
        ensures
            r@ == self@,
    {
        Key { kind: self.kind, name: self.name.clone(), span: self.span.start..self.span.end }
    }
}

/// Kinds of patterns
#[derive(Debug)]
#[non_exhaustive]
pub enum PatternKind<L> {
    /// A key pattern
    Key(Key<L>),
    /// A built-in pattern
    Builtin(Key<L>),
    /// A pattern of a kind that is not handled
    Unknown,
}

/// Patterns
#[derive(Debug)]
pub struct Pattern<L> {
    /// The kind of the pattern
    pub kind: PatternKind<L>,
    /// The range in the file
    pub span: Range<L>,
}

/// The mathematical model of a [`PatternKind`].
pub enum PatternKindView<L> {
    Key(KeyView<L>),
    Builtin(KeyView<L>),
    Unknown,
}

/// The mathematical model of a [`Pattern`].
pub struct PatternView<L> {
    pub kind: PatternKindView<L>,
    pub span: Range<L>,
}

impl<L> View for PatternKind<L> {
    type V = PatternKindView<L>;

    open spec fn view(&self) -> PatternKindView<L> {
        match self {
            PatternKind::Key(key) => PatternKindView::Key(key@),
            PatternKind::Builtin(key) => PatternKindView::Builtin(key@),
            PatternKind::Unknown => PatternKindView::Unknown,
        }
    }
}

impl<L> View for Pattern<L> {
    type V = PatternView<L>;

    open spec fn view(&self) -> PatternView<L> {
        PatternView { kind: self.kind@, span: self.span }
    }
}

impl<L> PatternView<L> {
    /// Two patterns address the same place when both are key patterns, or both
    /// built-in patterns, of the same key. The spans may differ.
    pub open spec fn same(self, other: PatternView<L>) -> bool {
        match (self.kind, other.kind) {
            (PatternKindView::Key(a), PatternKindView::Key(b)) => a.same(b),
            (PatternKindView::Builtin(a), PatternKindView::Builtin(b)) => a.same(b),
            _ => false,
        }
    }
}

impl<L> Pattern<L> {
    /// Whether both patterns address the same place; the spans are not compared.
    pub fn same(&self, other: &Pattern<L>) -> (r: bool)
        ensures
            r == self@.same(other@),
    {
        match (&self.kind, &other.kind) {
            (PatternKind::Key(a), PatternKind::Key(b)) => a.same(b),
            (PatternKind::Builtin(a), PatternKind::Builtin(b)) => a.same(b),
            _ => false,
        }
    }
}

impl<L> PatternView<L> {
    /// The pattern as it is written: the key, behind an at sign for a
    /// built-in pattern. A pattern of a kind that is not handled has no text.
    pub open spec fn text(self) -> Seq<char> {
        match self.kind {
            PatternKindView::Key(key) => key.text(),
            PatternKindView::Builtin(key) => seq!['@'] + key.text(),
            PatternKindView::Unknown => Seq::empty(),
        }
    }
}

impl<L> Pattern<L> {
    /// The pattern as it is written.
    pub fn to_text(&self) -> (text: String)
        ensures
            text@ == self@.text(),
    {
        match &self.kind {
            PatternKind::Key(key) => key.to_text(),
            PatternKind::Builtin(key) => {
                let mut text = String::new();
                text.push('@');
                let inner = key.to_text();
                push_text(&mut text, inner.as_str());
                text
            },
            PatternKind::Unknown => String::new(),
        }
    }
}

impl<L> PartialEq for Pattern<L> {
    fn eq(&self, other: &Self) -> (r: bool) {
        self.same(other)
    }
}

impl<L> PartialEqSpecImpl for Pattern<L> {
    open spec fn obeys_eq_spec() -> bool {
        true
    }

    open spec fn eq_spec(&self, other: &Self) -> bool {
        self@.same(other@)
    }
}

impl<L: Copy> Clone for PatternKind<L> {
    fn clone(&self) -> (r: Self)
        ensures
            r@ == self@,
    {
        match self {
            PatternKind::Key(key) => PatternKind::Key(key.clone()),
            PatternKind::Builtin(key) => PatternKind::Builtin(key.clone()),
            PatternKind::Unknown => PatternKind::Unknown,
        }
    }
}

impl<L: Copy> Clone for Pattern<L> {
    fn clone(&self) -> (r: Self)
        ensures
            r@ == self@,
    {
        Pattern { kind: self.kind.clone(), span: self.span.start..self.span.end }
    }
}

/// Values of literals
#[derive(Debug)]
#[non_exhaustive]
pub enum Literal {
    Character(char),
    String(String),
    Integer(u64),
    Float(FloatParts),
}

/// The mathematical model of a [`Literal`].
pub enum LiteralView {
    Character(char),
    String(Seq<char>),
    Integer(u64),
    Float(FloatParts),
}

impl View for Literal {
    type V = LiteralView;

    open spec fn view(&self) -> LiteralView {
        match self {
            Literal::Character(c) => LiteralView::Character(*c),
            Literal::String(s) => LiteralView::String(s@),
            Literal::Integer(i) => LiteralView::Integer(*i),
            Literal::Float(f) => LiteralView::Float(*f),
        }
    }
}

impl Literal {
    /// Whether both literals are of the same kind and hold the same.
    pub fn same(&self, other: &Literal) -> (r: bool)
        ensures
            r == (self@ == other@),
    {
        match (self, other) {
            (Literal::Character(a), Literal::Character(b)) => *a == *b,
            (Literal::String(a), Literal::String(b)) => *a == *b,
            (Literal::Integer(a), Literal::Integer(b)) => *a == *b,
            (Literal::Float(a), Literal::Float(b)) => a.mantissa == b.mantissa && a.exponent == b.exponent,
            _ => false,
        }
    }
}

impl PartialEq for Literal {
    fn eq(&self, other: &Self) -> (r: bool) {
        self.same(other)
    }
}

impl PartialEqSpecImpl for Literal {
    open spec fn obeys_eq_spec() -> bool {
        true
    }

    open spec fn eq_spec(&self, other: &Self) -> bool {
        self@ == other@
    }
}

impl Clone for Literal {
    fn clone(&self) -> (r: Self)
        ensures
            r@ == self@,
    {
        match self {
            Literal::Character(c) => Literal::Character(*c),
            Literal::String(s) => Literal::String(s.clone()),
            Literal::Integer(i) => Literal::Integer(*i),
            Literal::Float(f) => Literal::Float(*f),
        }
    }
}

/// Kinds of expressions
#[derive(Debug)]
#[non_exhaustive]
pub enum ExpressionKind<L> {
    /// A literal
    Literal(Literal),
    /// An array
    Array(Vec<Expression<L>>),
    /// An inline table
    InlineTable(Vec<(Key<L>, Expression<L>)>),
    /// An expression of a kind that is not handled
    Unknown,
}

/// Expressions
#[derive(Debug)]
pub struct Expression<L> {
    /// The kind of the expression
    pub kind: ExpressionKind<L>,
    /// The range in the file
    pub span: Range<L>,
}

/// The mathematical model of an [`ExpressionKind`].
pub enum ExpressionKindView<L> {
    Literal(LiteralView),
    Array(Seq<ExpressionView<L>>),
    InlineTable(Seq<(KeyView<L>, ExpressionView<L>)>),
    Unknown,
}

/// The mathematical model of an [`Expression`].
pub struct ExpressionView<L> {
    pub kind: ExpressionKindView<L>,
    pub span: Range<L>,
}

impl<L> ExpressionKind<L> {
    pub open spec fn view(&self) -> ExpressionKindView<L>
        decreases self,
    {
        match self {
            ExpressionKind::Literal(lit) => ExpressionKindView::Literal(lit@),
            ExpressionKind::Array(arr) => ExpressionKindView::Array(
                Seq::new(
                    arr@.len(),
                    |i: int|
                        if 0 <= i < arr@.len() {
                            arr@[i].view()
                        } else {
                            arbitrary()
                        },
                ),
            ),
            ExpressionKind::InlineTable(arr) => ExpressionKindView::InlineTable(
                Seq::new(
                    arr@.len(),
                    |i: int|
                        if 0 <= i < arr@.len() {
                            (arr@[i].0@, arr@[i].1.view())
                        } else {
                            arbitrary()
                        },
                ),
            ),
            ExpressionKind::Unknown => ExpressionKindView::Unknown,
        }
    }
}

impl<L> Expression<L> {
    pub open spec fn view(&self) -> ExpressionView<L>
        decreases self,
    {
        ExpressionView { kind: self.kind.view(), span: self.span }
    }
}

/// The models of a sequence of expressions, in order.
pub open spec fn expressions_view<L>(exprs: Seq<Expression<L>>) -> Seq<ExpressionView<L>> {
    Seq::new(exprs.len(), |i: int| exprs[i]@)
}

/// The models of a sequence of keys with their expressions, in order.
pub open spec fn pairs_view<L>(pairs: Seq<(Key<L>, Expression<L>)>) -> Seq<
    (KeyView<L>, ExpressionView<L>),
> {
    Seq::new(pairs.len(), |i: int| (pairs[i].0@, pairs[i].1@))
}

/// The model of an array is made of the models of its elements.
pub proof fn lemma_array_view<L>(items: Vec<Expression<L>>)
    ensures
        ExpressionKind::Array(items)@ == ExpressionKindView::Array(expressions_view(items@)),
{
    assert(ExpressionKind::Array(items)@->Array_0 =~= expressions_view(items@));
}

/// The model of an inline table is made of the models of its keys and expressions.
pub proof fn lemma_inline_table_view<L>(items: Vec<(Key<L>, Expression<L>)>)
    ensures
        ExpressionKind::InlineTable(items)@ == ExpressionKindView::InlineTable(pairs_view(items@)),
{
    assert(ExpressionKind::InlineTable(items)@->InlineTable_0 =~= pairs_view(items@));
}

impl<L> ExpressionView<L> {
    /// Two expressions are the same when their kinds are: the same literal,
    /// arrays of the same elements, or inline tables of the same keys and
    /// expressions, in the same order. The spans may differ. An expression of
    /// a kind that is not handled is the same as none.
    pub open spec fn same(self, other: ExpressionView<L>) -> bool
        decreases self,
    {
        match (self.kind, other.kind) {
            (ExpressionKindView::Literal(a), ExpressionKindView::Literal(b)) => a == b,
            (ExpressionKindView::Array(a), ExpressionKindView::Array(b)) => {
                &&& a.len() == b.len()
                &&& forall|i: int| 0 <= i < a.len() ==> (#[trigger] a[i]).same(b[i])
            },
            (ExpressionKindView::InlineTable(a), ExpressionKindView::InlineTable(b)) => {
                &&& a.len() == b.len()
                &&& forall|i: int|
                    0 <= i < a.len() ==> (#[trigger] a[i]).0.same(b[i].0) && a[i].1.same(b[i].1)
            },
            _ => false,
        }
    }
}

impl<L> Expression<L> {
    /// Whether both expressions are the same; the spans are not compared.
    pub fn same(&self, other: &Expression<L>) -> (r: bool)
        ensures
            r == self@.same(other@),
        decreases self,
    {
        match (&self.kind, &other.kind) {
            (ExpressionKind::Literal(a), ExpressionKind::Literal(b)) => a.same(b),
            (ExpressionKind::Array(a), ExpressionKind::Array(b)) => {
                if a.len() != b.len() {
                    return false;
                }
                let mut i: usize = 0;
                while i < a.len()
                    invariant
                        i <= a.len(),
                        a.len() == b.len(),
                        self.kind is Array && self.kind->Array_0 == *a,
                        other.kind is Array && other.kind->Array_0 == *b,
                        forall|j: int| 0 <= j < i ==> (#[trigger] a@[j])@.same(b@[j]@),
                    decreases a.len() - i,
                {
                    if !a[i].same(&b[i]) {
                        proof {
                            assert(self@.kind->Array_0[i as int] == a@[i as int]@);
                        }
                        return false;
                    }
                    i += 1;
                }
                true
            },
            (ExpressionKind::InlineTable(a), ExpressionKind::InlineTable(b)) => {
                if a.len() != b.len() {
                    return false;
                }
                let mut i: usize = 0;
                while i < a.len()
                    invariant
                        i <= a.len(),
                        a.len() == b.len(),
                        self.kind is InlineTable && self.kind->InlineTable_0 == *a,
                        other.kind is InlineTable && other.kind->InlineTable_0 == *b,
                        forall|j: int|
                            0 <= j < i ==> (#[trigger] a@[j]).0@.same(b@[j].0@) && a@[j].1@.same(
                                b@[j].1@,
                            ),
                    decreases a.len() - i,
                {
                    if !(a[i].0.same(&b[i].0) && a[i].1.same(&b[i].1)) {
                        proof {
                            assert(self@.kind->InlineTable_0[i as int] == (
                                a@[i as int].0@,
                                a@[i as int].1@,
                            ));
                        }
                        return false;
                    }
                    i += 1;
                }
                true
            },
            _ => false,
        }
    }
}

impl<L> PartialEq for Expression<L> {
    fn eq(&self, other: &Self) -> (r: bool) {
        self.same(other)
    }
}

impl<L> PartialEqSpecImpl for Expression<L> {
    open spec fn obeys_eq_spec() -> bool {
        true
    }

    open spec fn eq_spec(&self, other: &Self) -> bool {
        self@.same(other@)
    }
}

impl<L: Copy> Clone for Expression<L> {
    fn clone(&self) -> (r: Self)
        ensures
            r@ == self@,
        decreases self,
    {
        let kind = match &self.kind {
            ExpressionKind::Literal(lit) => ExpressionKind::Literal(lit.clone()),
            ExpressionKind::Array(arr) => {
                let mut out: Vec<Expression<L>> = Vec::new();
                let mut i: usize = 0;
                while i < arr.len()
                    invariant
                        i <= arr.len(),
                        out@.len() == i,
                        self.kind is Array && self.kind->Array_0 == *arr,
                        forall|j: int| 0 <= j < i ==> (#[trigger] out@[j])@ == arr@[j]@,
                    decreases arr.len() - i,
                {
                    out.push(arr[i].clone());
                    i += 1;
                }
                let kind = ExpressionKind::Array(out);
                assert(kind.view()->Array_0 =~= self.kind.view()->Array_0);
                kind
            },
            ExpressionKind::InlineTable(arr) => {
                let mut out: Vec<(Key<L>, Expression<L>)> = Vec::new();
                let mut i: usize = 0;
                while i < arr.len()
                    invariant
                        i <= arr.len(),
                        out@.len() == i,
                        self.kind is InlineTable && self.kind->InlineTable_0 == *arr,
                        forall|j: int|
                            0 <= j < i ==> (#[trigger] out@[j]).0@ == arr@[j].0@ && out@[j].1@
                                == arr@[j].1@,
                    decreases arr.len() - i,
                {
                    out.push((arr[i].0.clone(), arr[i].1.clone()));
                    i += 1;
                }
                let kind = ExpressionKind::InlineTable(out);
                assert(kind.view()->InlineTable_0 =~= self.kind.view()->InlineTable_0);
                kind
            },
            ExpressionKind::Unknown => ExpressionKind::Unknown,
        };
        Expression { kind, span: self.span.start..self.span.end }
    }
}

/// Kinds of statements
#[derive(Debug)]
#[non_exhaustive]
pub enum StatementKind<L> {
    /// A value binding like `pat = "expr"`
    ValueBinding(Pattern<L>, Expression<L>),
    /// A table header
    TableHeader(TableHeaderKind, Pattern<L>, Option<Expression<L>>),
    /// A statement of a kind that is not handled
    Unknown,
}

/// Statements
#[derive(Debug)]
pub struct Statement<L> {
    /// The kind of the statement
    pub kind: StatementKind<L>,
    /// The range in the file
    pub span: Range<L>,
}

/// The mathematical model of a [`StatementKind`].
pub enum StatementKindView<L> {
    ValueBinding(PatternView<L>, ExpressionView<L>),
    TableHeader(TableHeaderKind, PatternView<L>, Option<ExpressionView<L>>),
    Unknown,
}

/// The mathematical model of a [`Statement`].
pub struct StatementView<L> {
    pub kind: StatementKindView<L>,
    pub span: Range<L>,
}

impl<L> View for StatementKind<L> {
    type V = StatementKindView<L>;

    open spec fn view(&self) -> StatementKindView<L> {
        match self {
            StatementKind::ValueBinding(pattern, expr) => StatementKindView::ValueBinding(
                pattern@,
                expr@,
            ),
            StatementKind::TableHeader(kind, pattern, default) => StatementKindView::TableHeader(
                *kind,
                pattern@,
                match default {
                    Some(expr) => Some(expr@),
                    None => None,
                },
            ),
            StatementKind::Unknown => StatementKindView::Unknown,
        }
    }
}

impl<L> View for Statement<L> {
    type V = StatementView<L>;

    open spec fn view(&self) -> StatementView<L> {
        StatementView { kind: self.kind@, span: self.span }
    }
}

impl<L> StatementView<L> {
    /// Two statements are the same when both bind the same pattern to the same
    /// expression, or both are headers of the same kind with the same pattern
    /// and the same default. The spans may differ.
    pub open spec fn same(self, other: StatementView<L>) -> bool {
        match (self.kind, other.kind) {
            (
                StatementKindView::ValueBinding(p1, e1),
                StatementKindView::ValueBinding(p2, e2),
            ) => p1.same(p2) && e1.same(e2),
            (
                StatementKindView::TableHeader(k1, p1, d1),
                StatementKindView::TableHeader(k2, p2, d2),
            ) => k1 == k2 && p1.same(p2) && match (d1, d2) {
                (Some(e1), Some(e2)) => e1.same(e2),
                (None, None) => true,
                _ => false,
            },
            _ => false,
        }
    }
}

impl<L> Statement<L> {
    /// Whether both statements are the same; the spans are not compared.
    pub fn same(&self, other: &Statement<L>) -> (r: bool)
        ensures
            r == self@.same(other@),
    {
        match (&self.kind, &other.kind) {
            (StatementKind::ValueBinding(p1, e1), StatementKind::ValueBinding(p2, e2)) => p1.same(p2)
                && e1.same(e2),
            (
                StatementKind::TableHeader(k1, p1, d1),
                StatementKind::TableHeader(k2, p2, d2),
            ) => *k1 == *k2 && p1.same(p2) && match (d1, d2) {
                (Some(e1), Some(e2)) => e1.same(e2),
                (None, None) => true,
                _ => false,
            },
            _ => false,
        }
    }
}

impl<L> PartialEq for Statement<L> {
    fn eq(&self, other: &Self) -> (r: bool) {
        self.same(other)
    }
}

impl<L> PartialEqSpecImpl for Statement<L> {
    open spec fn obeys_eq_spec() -> bool {
        true
    }

    open spec fn eq_spec(&self, other: &Self) -> bool {
        self@.same(other@)
    }
}

impl<L: Copy> Clone for Statement<L> {
    fn clone(&self) -> (r: Self)
        ensures
            r@ == self@,
    {
        let kind = match &self.kind {
            StatementKind::ValueBinding(pattern, expr) => StatementKind::ValueBinding(
                pattern.clone(),
                expr.clone(),
            ),
            StatementKind::TableHeader(kind, pattern, default) => StatementKind::TableHeader(
                *kind,
                pattern.clone(),
                match default {
                    Some(expr) => Some(expr.clone()),
                    None => None,
                },
            ),
            StatementKind::Unknown => StatementKind::Unknown,
        };
        Statement { kind, span: self.span.start..self.span.end }
    }
}

/// The models of a sequence of statements, in order.
pub open spec fn statements_view<L>(stmts: Seq<Statement<L>>) -> Seq<StatementView<L>> {
    stmts.map_values(|s: Statement<L>| s@)
}

} // verus!
