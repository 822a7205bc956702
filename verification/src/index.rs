//! A hash index from names to positions.
use vstd::prelude::*;

verus! {

/// A hash map from names to positions, kept by `hashbrown`.
#[derive(Debug, PartialEq, Eq)]
#[verifier::external_body]
pub struct NameIndex {
    map: hashbrown::HashMap<String, usize>,
}

/// What a [`NameIndex`] holds: the position stored under each name.
pub uninterp spec fn index_contents(ix: NameIndex) -> Map<Seq<char>, usize>;

impl NameIndex {
    /// `hashbrown::HashMap::new`: a map that holds nothing.
    #[verifier::external_body]
    pub(crate) fn new() -> (ix: NameIndex)
        ensures
            index_contents(ix) == (Map::<Seq<char>, usize>::empty()),
    {
        NameIndex { map: hashbrown::HashMap::new() }
    }

    /// `hashbrown::HashMap::get`: the position stored under `name`, if there is one.
    #[verifier::external_body]
    pub(crate) fn get(&self, name: &str) -> (r: Option<usize>)
        ensures
            r == (if index_contents(*self).contains_key(name@) {
                Some(index_contents(*self)[name@])
            } else {
                None
            }),
    {
        self.map.get(name).copied()
    }

    /// `hashbrown::HashMap::insert`: afterwards `name` leads to `pos`, and every
    /// other name to what it led to before.
    #[verifier::external_body]
    pub(crate) fn insert(&mut self, name: String, pos: usize)
        ensures
            index_contents(*final(self)) == index_contents(*old(self)).insert(name@, pos),
    {
        self.map.insert(name, pos);
    }
}

impl Clone for NameIndex {
    /// `Clone::clone` of `hashbrown::HashMap`: a map that holds the same.
    #[verifier::external_body]
    fn clone(&self) -> (ix: NameIndex)
        ensures
            index_contents(ix) == index_contents(*self),
    {
        NameIndex { map: self.map.clone() }
    }
}

} // verus!
