//! Parent and child lookups from an object's own base.
use vstd::prelude::*;

use crate::application::{AppRegistry, TreeAccessError};
use crate::ids::ObjectId;
use crate::object_tree::{kids_of, ObjectBase, ObjectTree};

verus! {

fn copy_ids(s: &[ObjectId]) -> (r: Vec<ObjectId>)
    ensures
        r@ == s@,
{
    let mut r: Vec<ObjectId> = Vec::new();
    let mut i: usize = 0;
    while i < s.len()
        invariant
            i <= s@.len(),
            r@ == s@.take(i as int),
        decreases s@.len() - i,
    {
        r.push(s[i]);
        assert(s@.take(i as int + 1) =~= s@.take(i as int).push(s@[i as int]));
        i = i + 1;
    }
    assert(s@.take(s@.len() as int) =~= s@);
    r
}

impl ObjectBase {
    /// The parent of this object in `tree`, or `None` for a root or an object that is
    /// not in `tree`.
    pub fn parent_in(&self, tree: &ObjectTree) -> (r: Option<ObjectId>)
        ensures
            r == (if tree@.parents.contains_key(self.id.0) {
                Some(tree@.parents[self.id.0])
            } else {
                None
            }),
    {
        tree.parent_of(self.id)
    }

    /// The ordered children of this object in `tree`.
    pub fn children_in<'t>(&self, tree: &'t ObjectTree) -> (r: &'t [ObjectId])
        ensures
            r@ == kids_of(tree@, self.id.0),
    {
        tree.children_of(self.id)
    }

    /// The parent of this object in the application's tree; `Err(TreeAccessError)` when
    /// no application is live.
    pub fn parent(&self, app: &AppRegistry, tree: &ObjectTree) -> (r: Result<Option<ObjectId>, TreeAccessError>)
        ensures
            !app.spec_live() ==> r == Err::<Option<ObjectId>, TreeAccessError>(TreeAccessError),
            app.spec_live() ==> r == Ok::<Option<ObjectId>, TreeAccessError>(
                if tree@.parents.contains_key(self.id.0) {
                    Some(tree@.parents[self.id.0])
                } else {
                    None
                },
            ),
    {
        let id = self.id;
        app.try_with_tree(tree, |t: &ObjectTree| -> (p: Option<ObjectId>)
            ensures
                p == (if t@.parents.contains_key(id.0) {
                    Some(t@.parents[id.0])
                } else {
                    None
                }),
            { t.parent_of(id) })
    }

    /// The ordered children of this object in the application's tree;
    /// `Err(TreeAccessError)` when no application is live.
    pub fn children(&self, app: &AppRegistry, tree: &ObjectTree) -> (r: Result<Vec<ObjectId>, TreeAccessError>)
        ensures
            !app.spec_live() ==> r == Err::<Vec<ObjectId>, TreeAccessError>(TreeAccessError),
            app.spec_live() ==> (r matches Ok(v) && v@ == kids_of(tree@, self.id.0)),
    {
        let id = self.id;
        app.try_with_tree(tree, |t: &ObjectTree| -> (v: Vec<ObjectId>)
            ensures
                v@ == kids_of(t@, id.0),
            { copy_ids(t.children_of(id)) })
    }
}

} // verus!
