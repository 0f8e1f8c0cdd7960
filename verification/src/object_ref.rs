//! Typed handles to runtime objects: `ObjectRef<T>` (live) and `WeakRef<T>` (unvalidated).
use std::marker::PhantomData;

use vstd::prelude::*;

use crate::ids::ObjectId;
use crate::object_tree::ObjectTree;

verus! {

/// Typed handle to an object believed to be alive; carries only the id.
#[derive(Debug)]
pub struct ObjectRef<T> {
    id: ObjectId,
    marker: PhantomData<T>,
}

impl<T> View for ObjectRef<T> {
    type V = ObjectId;

    closed spec fn view(&self) -> ObjectId {
        self.id
    }
}

impl<T> ObjectRef<T> {
    /// Wraps `id` as a typed handle.
    pub fn new(id: ObjectId) -> (r: Self)
        ensures
            r@ == id,
    {
        ObjectRef { id, marker: PhantomData }
    }

    /// Returns the wrapped id.
    pub fn id(&self) -> (r: ObjectId)
        ensures
            r == self@,
    {
        self.id
    }

    /// Turns this handle into a weak handle with the same id.
    pub fn downgrade(self) -> (r: WeakRef<T>)
        ensures
            r@ == self@,
    {
        WeakRef { id: self.id, marker: PhantomData }
    }
}

impl<T> Clone for ObjectRef<T> {
    fn clone(&self) -> (r: Self)
        ensures
            r@ == self@,
    {
        ObjectRef { id: self.id, marker: PhantomData }
    }
}

impl<T> Copy for ObjectRef<T> {
}

impl<T> PartialEq for ObjectRef<T> {
    fn eq(&self, other: &Self) -> (r: bool) {
        self.id == other.id
    }
}

impl<T> vstd::std_specs::cmp::PartialEqSpecImpl for ObjectRef<T> {
    open spec fn obeys_eq_spec() -> bool {
        true
    }

    open spec fn eq_spec(&self, other: &Self) -> bool {
        self@ == other@
    }
}

impl<T> Eq for ObjectRef<T> {
}

/// Typed handle whose object may already be gone; check with [`is_valid`](Self::is_valid).
#[derive(Debug)]
pub struct WeakRef<T> {
    id: ObjectId,
    marker: PhantomData<T>,
}

impl<T> View for WeakRef<T> {
    type V = ObjectId;

    closed spec fn view(&self) -> ObjectId {
        self.id
    }
}

impl<T> WeakRef<T> {
    /// Wraps `id` as a weak typed handle.
    pub fn new(id: ObjectId) -> (r: Self)
        ensures
            r@ == id,
    {
        WeakRef { id, marker: PhantomData }
    }

    /// Returns the wrapped id.
    pub fn id(&self) -> (r: ObjectId)
        ensures
            r == self@,
    {
        self.id
    }

    /// Returns `true` if the object is still present in `tree`.
    pub fn is_valid(&self, tree: &ObjectTree) -> (r: bool)
        ensures
            r == tree@.objects.contains_key(self@.0),
    {
        tree.contains(self.id)
    }
}

impl<T> Clone for WeakRef<T> {
    fn clone(&self) -> (r: Self)
        ensures
            r@ == self@,
    {
        WeakRef { id: self.id, marker: PhantomData }
    }
}

impl<T> Copy for WeakRef<T> {
}

impl<T> PartialEq for WeakRef<T> {
    fn eq(&self, other: &Self) -> (r: bool) {
        self.id == other.id
    }
}

impl<T> vstd::std_specs::cmp::PartialEqSpecImpl for WeakRef<T> {
    open spec fn obeys_eq_spec() -> bool {
        true
    }

    open spec fn eq_spec(&self, other: &Self) -> bool {
        self@ == other@
    }
}

impl<T> Eq for WeakRef<T> {
}

} // verus!
