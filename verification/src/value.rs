//! Evaluated values and the tables that hold them.
use crate::error::Kind;
use crate::index::{index_contents, NameIndex};
use core::ops::Range;
use vstd::prelude::*;

verus! {

/// A floating-point literal, held as the decimal number it was written as:
/// `mantissa` times ten to the power of `exponent`.
#[derive(Clone, Copy, Debug, PartialEq, Eq, Structural)]
pub struct FloatParts {
    pub mantissa: u64,
    pub exponent: i32,
}

impl View for FloatParts {
    type V = FloatParts;

    open spec fn view(&self) -> FloatParts {
        *self
    }
}

/// Evaluated values
#[derive(Debug, PartialEq)]
#[non_exhaustive]
pub enum Value<L> {
    /// A literal character
    Character(char),
    /// A literal string
    String(String),
    /// A literal integer
    Integer(u64),
    /// A literal float
    Float(FloatParts),
    /// An array
    Array(Vec<Value<L>>),
    /// A table
    Table(Table<L>),
}

/// Table's elements
#[derive(Debug, PartialEq)]
pub struct Element<L> {
    /// A value of the element
    pub value: Value<L>,
    /// A position where the element is defined
    pub defined: Range<L>,
    /// Whether the element came from a header's default table and may still be overridden
    pub is_default: bool,
    /// Whether the element was bound by a normal key, and so is exported
    pub exported: bool,
}

/// One name of a namespace with the element bound to it.
#[derive(Debug, PartialEq)]
pub struct Slot<L> {
    name: String,
    element: Element<L>,
}

/// The elements of one namespace of a table, found by name. Two namespaces
/// are equal under `==` when they hold the same elements, bound in the same
/// order.
#[derive(Debug, PartialEq)]
pub struct Namespace<L> {
    slots: Vec<Slot<L>>,
    index: NameIndex,
}

/// Evaluated tables
#[derive(Debug, PartialEq)]
pub struct Table<L> {
    /// The elements bound by normal and by local keys
    pub global: Namespace<L>,
    /// A second namespace, which no binding fills
    pub local: Namespace<L>,
}

/// The mathematical model of a [`Value`].
pub enum ValueView<L> {
    Character(char),
    String(Seq<char>),
    Integer(u64),
    Float(FloatParts),
    Array(Seq<ValueView<L>>),
    Table(TableView<L>),
}

/// The mathematical model of an [`Element`].
pub struct ElementView<L> {
    pub value: ValueView<L>,
    pub defined: Range<L>,
    pub is_default: bool,
    pub exported: bool,
}

/// The mathematical model of a [`Table`]: each namespace is a map from names to elements.
pub struct TableView<L> {
    pub global: Map<Seq<char>, ElementView<L>>,
    pub local: Map<Seq<char>, ElementView<L>>,
}

/// The map that a sequence of slots stands for. A later slot wins over an
/// earlier one of the same name; a well-formed namespace has no such pair.
pub closed spec fn slots_view<L>(slots: Seq<Slot<L>>) -> Map<Seq<char>, ElementView<L>>
    decreases slots,
{
    if slots.len() == 0 {
        Map::empty()
    } else {
        slots_view(slots.drop_last()).insert(slots.last().name@, slots.last().element.view())
    }
}

impl<L> Value<L> {
    pub open spec fn view(&self) -> ValueView<L>
        decreases self,
    {
        match self {
            Value::Character(c) => ValueView::Character(*c),
            Value::String(s) => ValueView::String(s@),
            Value::Integer(i) => ValueView::Integer(*i),
            Value::Float(f) => ValueView::Float(*f),
            Value::Array(a) => ValueView::Array(
                Seq::new(
                    a@.len(),
                    |i: int|
                        if 0 <= i < a@.len() {
                            a@[i].view()
                        } else {
                            arbitrary()
                        },
                ),
            ),
            Value::Table(t) => ValueView::Table(t.view()),
        }
    }

    /// Every table inside the value is well-formed.
    pub open spec fn wf(&self) -> bool
        decreases self,
    {
        match self {
            Value::Array(a) => forall|i: int| 0 <= i < a@.len() ==> (#[trigger] a@[i]).wf(),
            Value::Table(t) => t.wf(),
            _ => true,
        }
    }
}

impl<L> Element<L> {
    pub open spec fn view(&self) -> ElementView<L>
        decreases self,
    {
        ElementView {
            value: self.value.view(),
            defined: self.defined,
            is_default: self.is_default,
            exported: self.exported,
        }
    }
}

/// The elements of a map, each marked as a default.
pub open spec fn as_default<L>(m: Map<Seq<char>, ElementView<L>>) -> Map<Seq<char>, ElementView<L>> {
    m.map_values(|e: ElementView<L>| ElementView { is_default: true, ..e })
}

impl<L> TableView<L> {
    /// The table without elements.
    pub open spec fn empty() -> TableView<L> {
        TableView { global: Map::empty(), local: Map::empty() }
    }

    /// The same table with every element marked as a default.
    pub open spec fn as_default(self) -> TableView<L> {
        TableView { global: as_default(self.global), local: as_default(self.local) }
    }
}

impl<L> ValueView<L> {
    /// The shape of the value.
    pub open spec fn kind(self) -> Kind {
        match self {
            ValueView::Character(_) => Kind::Character,
            ValueView::String(_) => Kind::String,
            ValueView::Integer(_) => Kind::Integer,
            ValueView::Float(_) => Kind::Float,
            ValueView::Array(_) => Kind::Array,
            ValueView::Table(_) => Kind::Table,
        }
    }
}

impl<L> Value<L> {
    /// Returns a kind of the value
    pub fn kind(&self) -> (k: Kind)
        ensures
            k == self@.kind(),
    {
        match self {
            Value::Character(_) => Kind::Character,
            Value::String(_) => Kind::String,
            Value::Integer(_) => Kind::Integer,
            Value::Float(_) => Kind::Float,
            Value::Array(_) => Kind::Array,
            Value::Table(_) => Kind::Table,
        }
    }
}

impl<L: Copy> Clone for Value<L> {
    fn clone(&self) -> (r: Self)
        ensures
            r@ == self@,
            self.wf() ==> r.wf(),
        decreases self,
    {
        match self {
            Value::Character(c) => Value::Character(*c),
            Value::String(s) => Value::String(s.clone()),
            Value::Integer(i) => Value::Integer(*i),
            Value::Float(f) => Value::Float(*f),
            Value::Array(a) => {
                let mut out: Vec<Value<L>> = Vec::new();
                let mut i: usize = 0;
                while i < a.len()
                    invariant
                        i <= a.len(),
                        out@.len() == i,
                        forall|j: int| 0 <= j < i ==> (#[trigger] out@[j])@ == a@[j]@,
                        forall|j: int| 0 <= j < i && a@[j].wf() ==> (#[trigger] out@[j]).wf(),
                        self is Array && self->Array_0 == *a,
                    decreases a.len() - i,
                {
                    out.push(a[i].clone());
                    i += 1;
                }
                let r = Value::Array(out);
                assert(r@ =~= self@) by {
                    assert(r@->Array_0 =~= self@->Array_0);
                }
                r
            },
            Value::Table(t) => Value::Table(t.clone()),
        }
    }
}

impl<L: Copy> Clone for Element<L> {
    fn clone(&self) -> (r: Self)
        ensures
            r@ == self@,
            self.wf() ==> r.wf(),
        decreases self,
    {
        Element {
            value: self.value.clone(),
            defined: self.defined.start..self.defined.end,
            is_default: self.is_default,
            exported: self.exported,
        }
    }
}

impl<L: Copy> Slot<L> {
    fn duplicate(&self) -> (r: Self)
        ensures
            r.name@ == self.name@,
            r.element@ == self.element@,
            self.element.wf() ==> r.element.wf(),
        decreases self,
    {
        Slot { name: self.name.clone(), element: self.element.clone() }
    }
}

/// Slots with the same names and the same elements stand for the same map.
proof fn lemma_slots_view_same<L>(a: Seq<Slot<L>>, b: Seq<Slot<L>>)
    requires
        a.len() == b.len(),
        forall|i: int|
            0 <= i < a.len() ==> (#[trigger] b[i]).name@ == a[i].name@ && b[i].element@
                == a[i].element@,
    ensures
        slots_view(b) == slots_view(a),
    decreases a.len(),
{
    if a.len() > 0 {
        lemma_slots_view_same(a.drop_last(), b.drop_last());
    }
}

/// Marking every slot's element as a default marks every element of the map.
proof fn lemma_slots_view_marked<L>(a: Seq<Slot<L>>, b: Seq<Slot<L>>)
    requires
        a.len() == b.len(),
        forall|i: int|
            0 <= i < a.len() ==> (#[trigger] b[i]).name@ == a[i].name@ && b[i].element@ == (
            ElementView { is_default: true, ..a[i].element@ }),
    ensures
        slots_view(b) == as_default(slots_view(a)),
    decreases a.len(),
{
    if a.len() > 0 {
        lemma_slots_view_marked(a.drop_last(), b.drop_last());
    }
}

impl<L: Copy> Clone for Namespace<L> {
    fn clone(&self) -> (r: Self)
        ensures
            r@ == self@,
            self.wf() ==> r.wf(),
        decreases self,
    {
        let mut slots: Vec<Slot<L>> = Vec::new();
        let mut i: usize = 0;
        while i < self.slots.len()
            invariant
                i <= self.slots.len(),
                slots@.len() == i,
                forall|j: int|
                    0 <= j < i ==> (#[trigger] slots@[j]).name@ == self.slots@[j].name@
                        && slots@[j].element@ == self.slots@[j].element@,
                forall|j: int|
                    0 <= j < i && self.slots@[j].element.wf() ==> (#[trigger] slots@[j]).element.wf(),
            decreases self.slots.len() - i,
        {
            slots.push(self.slots[i].duplicate());
            i += 1;
        }
        proof {
            lemma_slots_view_same(self.slots@, slots@);
        }
        Namespace { slots, index: self.index.clone() }
    }
}

impl<L: Copy> Clone for Table<L> {
    fn clone(&self) -> (r: Self)
        ensures
            r@ == self@,
            self.wf() ==> r.wf(),
        decreases self,
    {
        Table { global: self.global.clone(), local: self.local.clone() }
    }
}

impl<L> Default for Table<L> {
    fn default() -> (t: Self)
        ensures
            t.wf(),
            t@ == TableView::<L>::empty(),
    {
        Table::new()
    }
}

impl<L> Table<L> {
    /// Creates a new instance.
    pub fn new() -> (t: Self)
        ensures
            t.wf(),
            t@ == TableView::<L>::empty(),
    {
        Table { global: Namespace::new(), local: Namespace::new() }
    }

    /// Marks the table as a default table.
    pub fn make_default(&mut self)
        requires
            old(self).wf(),
        ensures
            final(self).wf(),
            final(self)@ == old(self)@.as_default(),
    {
        self.global.mark_default();
        self.local.mark_default();
    }
}

impl<L> Namespace<L> {
    /// Marks every element as a default.
    pub fn mark_default(&mut self)
        requires
            old(self).wf(),
        ensures
            final(self).wf(),
            final(self)@ == as_default(old(self)@),
    {
        let mut i: usize = 0;
        while i < self.slots.len()
            invariant
                i <= self.slots.len(),
                self.slots@.len() == old(self).slots@.len(),
                self.index == old(self).index,
                forall|j: int|
                    0 <= j < self.slots@.len() ==> (#[trigger] self.slots@[j]).name@ == old(
                        self,
                    ).slots@[j].name@ && self.slots@[j].element.value == old(
                        self,
                    ).slots@[j].element.value && self.slots@[j].element.defined == old(
                        self,
                    ).slots@[j].element.defined && self.slots@[j].element.exported == old(
                        self,
                    ).slots@[j].element.exported,
                forall|j: int| 0 <= j < i ==> (#[trigger] self.slots@[j]).element.is_default,
                forall|j: int|
                    i <= j < self.slots@.len() ==> (#[trigger] self.slots@[j]).element.is_default
                        == old(self).slots@[j].element.is_default,
            decreases self.slots.len() - i,
        {
            self.slots[i].element.is_default = true;
            i += 1;
        }
        proof {
            lemma_slots_view_marked(old(self).slots@, self.slots@);
        }
    }
}

impl<L> Element<L> {
    /// The value is well-formed.
    pub open spec fn wf(&self) -> bool {
        self.value.wf()
    }
}

/// No two slots have the same name.
pub closed spec fn distinct_names<L>(slots: Seq<Slot<L>>) -> bool {
    forall|a: int, b: int|
        0 <= a < b < slots.len() ==> (#[trigger] slots[a]).name@ != (#[trigger] slots[b]).name@
}

/// A name is in the map exactly when a slot has it.
proof fn lemma_slots_view_dom<L>(slots: Seq<Slot<L>>, k: Seq<char>)
    ensures
        slots_view(slots).contains_key(k) <==> exists|i: int|
            0 <= i < slots.len() && (#[trigger] slots[i]).name@ == k,
    decreases slots.len(),
{
    if slots.len() > 0 {
        let front = slots.drop_last();
        lemma_slots_view_dom(front, k);
        if exists|i: int| 0 <= i < slots.len() && (#[trigger] slots[i]).name@ == k {
            let i = choose|i: int| 0 <= i < slots.len() && (#[trigger] slots[i]).name@ == k;
            if i < front.len() {
                assert(front[i].name@ == k);
            }
        }
    }
}

/// Where names are distinct, each slot's name leads to that slot's element.
proof fn lemma_slots_view_index<L>(slots: Seq<Slot<L>>, i: int)
    requires
        0 <= i < slots.len(),
        distinct_names(slots),
    ensures
        slots_view(slots).contains_key(slots[i].name@),
        slots_view(slots)[slots[i].name@] == slots[i].element@,
    decreases slots.len(),
{
    let front = slots.drop_last();
    if i < slots.len() - 1 {
        lemma_slots_view_index(front, i);
    }
}

/// Where names are distinct, the map has as many names as there are slots.
proof fn lemma_slots_view_len<L>(slots: Seq<Slot<L>>)
    requires
        distinct_names(slots),
    ensures
        slots_view(slots).dom().finite(),
        slots_view(slots).dom().len() == slots.len(),
    decreases slots.len(),
{
    if slots.len() > 0 {
        let front = slots.drop_last();
        lemma_slots_view_len(front);
        lemma_slots_view_dom(front, slots.last().name@);
    }
}

/// Appending a slot binds its name.
proof fn lemma_slots_view_push<L>(slots: Seq<Slot<L>>, slot: Slot<L>)
    ensures
        slots_view(slots.push(slot)) == slots_view(slots).insert(slot.name@, slot.element@),
{
    assert(slots.push(slot).drop_last() =~= slots);
}

/// Where names are distinct, replacing a slot by one of the same name rebinds that name.
proof fn lemma_slots_view_update<L>(slots: Seq<Slot<L>>, i: int, slot: Slot<L>)
    requires
        0 <= i < slots.len(),
        distinct_names(slots),
        slot.name@ == slots[i].name@,
    ensures
        slots_view(slots.update(i, slot)) == slots_view(slots).insert(slot.name@, slot.element@),
    decreases slots.len(),
{
    let front = slots.drop_last();
    if i == slots.len() - 1 {
        assert(slots.update(i, slot).drop_last() =~= front);
    } else {
        lemma_slots_view_update(front, i, slot);
        assert(slots.update(i, slot).drop_last() =~= front.update(i, slot));
    }
}

impl<L> Namespace<L> {
    /// In a well-formed namespace no two slots share a name.
    proof fn lemma_wf_distinct(&self)
        requires
            self.wf(),
        ensures
            distinct_names(self.slots@),
    {
    }

    /// A namespace without elements.
    pub fn new() -> (ns: Self)
        ensures
            ns.wf(),
            ns@ == Map::<Seq<char>, ElementView<L>>::empty(),
    {
        Namespace { slots: Vec::new(), index: NameIndex::new() }
    }

    /// The number of elements.
    pub fn len(&self) -> (n: usize)
        requires
            self.wf(),
        ensures
            n == self@.dom().len(),
            n == self.names().len(),
            self@.dom().finite(),
    {
        proof {
            self.lemma_wf_distinct();
            lemma_slots_view_len(self.slots@);
        }
        self.slots.len()
    }

    /// The element bound to `name`, if there is one.
    pub fn get(&self, name: &str) -> (r: Option<&Element<L>>)
        requires
            self.wf(),
        ensures
            match r {
                Some(e) => self@.contains_key(name@) && self@[name@] == e@ && e.wf(),
                None => !self@.contains_key(name@),
            },
    {
        proof {
            self.lemma_wf_distinct();
            lemma_slots_view_dom(self.slots@, name@);
        }
        match self.index.get(name) {
            Some(i) => {
                proof {
                    lemma_slots_view_index(self.slots@, i as int);
                }
                Some(&self.slots[i].element)
            },
            None => None,
        }
    }

    /// The names of the namespace, in the order in which they were first bound.
    pub closed spec fn names(&self) -> Seq<Seq<char>> {
        self.slots@.map_values(|slot: Slot<L>| slot.name@)
    }

    /// The names of a well-formed namespace are the names of its map, each once.
    pub proof fn lemma_names(&self)
        requires
            self.wf(),
        ensures
            self.names().no_duplicates(),
            self.names().len() == self@.dom().len(),
            forall|k: Seq<char>| self.names().contains(k) <==> self@.contains_key(k),
    {
        self.lemma_wf_distinct();
        lemma_slots_view_len(self.slots@);
        let names = self.names();
        assert forall|k: Seq<char>| names.contains(k) <==> self@.contains_key(k) by {
            lemma_slots_view_dom(self.slots@, k);
            if names.contains(k) {
                let i = choose|i: int| 0 <= i < names.len() && names[i] == k;
            }
            if self@.contains_key(k) {
                let i = choose|i: int| 0 <= i < self.slots@.len() && (#[trigger] self.slots@[i]).name@ == k;
                assert(names[i] == k);
            }
        }
    }

    /// The name that was bound as the `i`-th, with its element, if there are
    /// that many.
    pub fn nth(&self, i: usize) -> (r: Option<(&str, &Element<L>)>)
        requires
            self.wf(),
        ensures
            match r {
                Some((name, element)) => {
                    &&& i < self.names().len()
                    &&& name@ == self.names()[i as int]
                    &&& self@.contains_key(name@)
                    &&& self@[name@] == element@
                    &&& element.wf()
                },
                None => i >= self.names().len(),
            },
    {
        if i < self.slots.len() {
            proof {
                self.lemma_wf_distinct();
                lemma_slots_view_index(self.slots@, i as int);
            }
            Some((self.slots[i].name.as_str(), &self.slots[i].element))
        } else {
            None
        }
    }

    /// Whether an element is bound to `name`.
    pub fn contains_key(&self, name: &str) -> (r: bool)
        requires
            self.wf(),
        ensures
            r == self@.contains_key(name@),
    {
        self.get(name).is_some()
    }

    /// Binds `element` to `name`, in place of what was bound to it before, if anything was.
    pub fn insert(&mut self, name: String, element: Element<L>)
        requires
            old(self).wf(),
            element.wf(),
        ensures
            final(self).wf(),
            final(self)@ == old(self)@.insert(name@, element@),
    {
        proof {
            self.lemma_wf_distinct();
        }
        match self.index.get(name.as_str()) {
            Some(i) => {
                let slot = Slot { name, element };
                proof {
                    lemma_slots_view_update(self.slots@, i as int, slot);
                }
                self.slots.set(i, slot);
            },
            None => {
                let pos = self.slots.len();
                let slot = Slot { name: name.clone(), element };
                proof {
                    lemma_slots_view_push(self.slots@, slot);
                }
                self.index.insert(name, pos);
                self.slots.push(slot);
            },
        }
    }

    pub closed spec fn view(&self) -> Map<Seq<char>, ElementView<L>>
        decreases self,
    {
        slots_view(self.slots@)
    }

    /// The index leads from each name to its slot and to nothing else, and
    /// every element is well-formed.
    pub closed spec fn wf(&self) -> bool
        decreases self,
    {
        &&& forall|i: int|
            0 <= i < self.slots@.len() ==> {
                &&& index_contents(self.index).contains_key((#[trigger] self.slots@[i]).name@)
                &&& index_contents(self.index)[self.slots@[i].name@] == i
            }
        &&& forall|k: Seq<char>| #[trigger]
            index_contents(self.index).contains_key(k) ==> {
                &&& index_contents(self.index)[k] < self.slots@.len()
                &&& self.slots@[index_contents(self.index)[k] as int].name@ == k
            }
        &&& forall|i: int| 0 <= i < self.slots@.len() ==> (#[trigger] self.slots@[i]).element.value.wf()
    }
}

impl<L> Table<L> {
    pub open spec fn view(&self) -> TableView<L>
        decreases self,
    {
        TableView { global: self.global.view(), local: self.local.view() }
    }

    /// Both namespaces are well-formed.
    pub open spec fn wf(&self) -> bool
        decreases self,
    {
        self.global.wf() && self.local.wf()
    }
}

} // verus!
