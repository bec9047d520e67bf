//! Arenas that hand out numbered slots for types.
use vstd::prelude::*;

use crate::ast::types::{SpecType, Type};

verus! {

/// The number of a type in a [`TypeArena`].
#[derive(Debug, Clone, Copy, PartialEq, Eq, Hash, Structural)]
pub struct TypeId(pub usize);

impl TypeId {
    pub fn new(idx: usize) -> (r: TypeId)
        ensures
            r.0 == idx,
    {
        TypeId(idx)
    }

    pub fn index(&self) -> (r: usize)
        ensures
            r == self.0,
    {
        self.0
    }
}

/// The number of a term in a term arena.
#[derive(Debug, Clone, Copy, PartialEq, Eq, Hash, Structural)]
pub struct TermId(pub usize);

impl TermId {
    pub fn new(idx: usize) -> (r: TermId)
        ensures
            r.0 == idx,
    {
        TermId(idx)
    }

    pub fn index(&self) -> (r: usize)
        ensures
            r == self.0,
    {
        self.0
    }
}

/// Types stored in the order they were allocated; a type's number is its
/// position.
#[derive(Debug)]
pub struct TypeArena {
    types: Vec<Type>,
}

impl View for TypeArena {
    type V = Seq<SpecType>;

    closed spec fn view(&self) -> Seq<SpecType> {
        self.types@.map_values(|t: Type| t@)
    }
}

impl TypeArena {
    /// An empty arena.
    pub fn new() -> (r: TypeArena)
        ensures
            r@ == Seq::<SpecType>::empty(),
    {
        let r = TypeArena { types: Vec::new() };
        assert(r@ =~= Seq::<SpecType>::empty());
        r
    }

    /// Stores `ty` and returns its number, the next free one.
    pub fn allocate(&mut self, ty: Type) -> (r: TypeId)
        ensures
            r.0 == old(self)@.len(),
            final(self)@ == old(self)@.push(ty@),
    {
        let id = TypeId(self.types.len());
        let ghost v = ty@;
        self.types.push(ty);
        assert(self@ =~= old(self)@.push(v));
        id
    }

    /// The type numbered `id`, if there is one.
    pub fn get(&self, id: TypeId) -> (r: Option<&Type>)
        ensures
            r matches Some(t) ==> id.0 < self@.len() && t@ == self@[id.0 as int],
            r is None ==> id.0 >= self@.len(),
    {
        if id.0 < self.types.len() {
            Some(&self.types[id.0])
        } else {
            None
        }
    }

    /// The type numbered `id`, which must exist.
    pub fn index(&self, id: TypeId) -> (r: &Type)
        requires
            id.0 < self@.len(),
        ensures
            r@ == self@[id.0 as int],
    {
        &self.types[id.0]
    }

    pub fn len(&self) -> (r: usize)
        ensures
            r == self@.len(),
    {
        self.types.len()
    }

    pub fn is_empty(&self) -> (r: bool)
        ensures
            r == (self@.len() == 0),
    {
        self.types.len() == 0
    }
}

} // verus!
