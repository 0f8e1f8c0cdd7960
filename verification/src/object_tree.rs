//! Hierarchical store of runtime objects: identities, names and parent/child links.
use std::collections::HashMap;

use vstd::prelude::*;

use crate::ids::ObjectId;
use crate::seq_util::{lemma_without_excludes, without};

verus! {

broadcast use vstd::std_specs::hash::group_hash_axioms;

/// The per-object data that the tree reads and writes: identity and optional name.
#[derive(Debug)]
pub struct ObjectBase {
    /// Stable identity of the object.
    pub id: ObjectId,
    /// Optional human-readable name; `None` means anonymous.
    pub name: Option<String>,
}

/// The view of an optional name as a character sequence.
pub open spec fn name_view(name: Option<String>) -> Option<Seq<char>> {
    match name {
        Some(s) => Some(s@),
        None => None,
    }
}

impl ObjectBase {
    /// Creates an anonymous object base.
    pub fn new(id: ObjectId) -> (r: ObjectBase)
        ensures
            r.id == id,
            r.name is None,
    {
        ObjectBase { id, name: None }
    }

    /// Creates a named object base.
    pub fn named(id: ObjectId, name: String) -> (r: ObjectBase)
        ensures
            r.id == id,
            r.name == Some(name),
    {
        ObjectBase { id, name: Some(name) }
    }

    /// Returns the identity.
    pub fn id(&self) -> (r: ObjectId)
        ensures
            r == self.id,
    {
        self.id
    }

    /// Returns the name, or `None` for an anonymous object.
    pub fn name(&self) -> (r: Option<&str>)
        ensures
            r is Some <==> self.name is Some,
            r matches Some(s) ==> s@ == self.name->0@,
    {
        match &self.name {
            Some(s) => Some(s.as_str()),
            None => None,
        }
    }
}

/// Payload of the `name_changed` signal that a name mutation asks the caller to emit.
///
/// `None` stands for an anonymous object on either side of the change.
#[derive(Debug)]
pub struct NameChange {
    /// The name before the change.
    pub old: Option<String>,
    /// The name after the change.
    pub new: Option<String>,
}

/// One entry of the by-name index: a name and the ids that carry it, in insertion order.
struct NameBucket {
    name: String,
    ids: Vec<ObjectId>,
}

/// Abstract state of an [`ObjectTree`].
///
/// - `objects`: the objects present, keyed by raw id.
/// - `parents`: child raw id to parent id.
/// - `kids`: the ordered children recorded under each raw id (empty when none).
/// - `named`: the ordered ids recorded under each name (empty when none).
#[verifier::ext_equal]
pub struct TreeModel {
    pub objects: Map<u64, ObjectBase>,
    pub parents: Map<u64, ObjectId>,
    pub kids: spec_fn(u64) -> Seq<ObjectId>,
    pub named: spec_fn(Seq<char>) -> Seq<ObjectId>,
}

/// The children recorded under `x`.
pub open spec fn kids_of(m: TreeModel, x: u64) -> Seq<ObjectId> {
    (m.kids)(x)
}

/// The ids recorded under the name `n`.
pub open spec fn named_of(m: TreeModel, n: Seq<char>) -> Seq<ObjectId> {
    (m.named)(n)
}

/// True when the object stored under `id` carries exactly the name `n`.
pub open spec fn has_name(m: TreeModel, id: u64, n: Seq<char>) -> bool {
    m.objects.contains_key(id) && name_view(m.objects[id].name) == Some(n)
}

/// Effect of `insert`.
pub open spec fn model_insert(m: TreeModel, base: ObjectBase, parent: Option<ObjectId>) -> TreeModel {
    let id = base.id;
    TreeModel {
        objects: m.objects.insert(id.0, base),
        parents: match parent {
            Some(p) => m.parents.insert(id.0, p),
            None => m.parents,
        },
        kids: |x: u64|
            if parent == Some(ObjectId(x)) {
                (m.kids)(x).push(id)
            } else {
                (m.kids)(x)
            },
        named: |n: Seq<char>|
            if name_view(base.name) == Some(n) {
                (m.named)(n).push(id)
            } else {
                (m.named)(n)
            },
    }
}

/// Effect of removing `id` from its parent's children and dropping its parent link.
pub open spec fn model_detach(m: TreeModel, id: u64) -> TreeModel {
    if m.parents.contains_key(id) {
        let old_parent = m.parents[id];
        TreeModel {
            objects: m.objects,
            parents: m.parents.remove(id),
            kids: |x: u64|
                if x == old_parent.0 {
                    without((m.kids)(x), ObjectId(id))
                } else {
                    (m.kids)(x)
                },
            named: m.named,
        }
    } else {
        m
    }
}

/// Effect of `reparent`.
pub open spec fn model_reparent(m: TreeModel, id: u64, new_parent: Option<ObjectId>) -> TreeModel {
    let d = model_detach(m, id);
    match new_parent {
        Some(p) => TreeModel {
            objects: d.objects,
            parents: d.parents.insert(id, p),
            kids: |x: u64|
                if x == p.0 {
                    (d.kids)(x).push(ObjectId(id))
                } else {
                    (d.kids)(x)
                },
            named: d.named,
        },
        None => d,
    }
}

/// The by-name index with `id` removed from the bucket of `name`.
pub open spec fn named_without(
    named: spec_fn(Seq<char>) -> Seq<ObjectId>,
    name: Seq<char>,
    id: ObjectId,
) -> spec_fn(Seq<char>) -> Seq<ObjectId> {
    |n: Seq<char>|
        if n == name {
            without(named(n), id)
        } else {
            named(n)
        }
}

/// Effect of removing one object (not its descendants) from the tree.
pub open spec fn model_remove_node(m: TreeModel, id: u64) -> TreeModel {
    let m1 = if m.objects.contains_key(id) {
        TreeModel {
            objects: m.objects.remove(id),
            parents: m.parents,
            kids: m.kids,
            named: match m.objects[id].name {
                Some(s) => named_without(m.named, s@, ObjectId(id)),
                None => m.named,
            },
        }
    } else {
        m
    };
    let m2 = model_detach(m1, id);
    TreeModel {
        objects: m2.objects,
        parents: m2.parents,
        kids: |x: u64|
            if x == id {
                Seq::<ObjectId>::empty()
            } else {
                (m2.kids)(x)
            },
        named: m2.named,
    }
}

/// Effect of removing each id of `ids`, in order.
pub open spec fn model_remove_all(m: TreeModel, ids: Seq<ObjectId>) -> TreeModel
    decreases ids.len(),
{
    if ids.len() == 0 {
        m
    } else {
        model_remove_node(model_remove_all(m, ids.drop_last()), ids.last().0)
    }
}

/// Effect of a rename of an object that is present and whose name differs from `new_name`.
pub open spec fn model_rename(m: TreeModel, id: u64, new_name: String) -> TreeModel {
    let named1 = match m.objects[id].name {
        Some(o) => named_without(m.named, o@, ObjectId(id)),
        None => m.named,
    };
    TreeModel {
        objects: m.objects.insert(id, ObjectBase { id: m.objects[id].id, name: Some(new_name) }),
        parents: m.parents,
        kids: m.kids,
        named: |n: Seq<char>|
            if n == new_name@ {
                named1(n).push(ObjectId(id))
            } else {
                named1(n)
            },
    }
}

/// Effect of clearing the name of an object that is present and named `old_name`.
pub open spec fn model_clear_name(m: TreeModel, id: u64, old_name: Seq<char>) -> TreeModel {
    TreeModel {
        objects: m.objects.insert(id, ObjectBase { id: m.objects[id].id, name: None }),
        parents: m.parents,
        kids: m.kids,
        named: named_without(m.named, old_name, ObjectId(id)),
    }
}

/// True when every chain of children below `id` has fewer than `fuel` levels.
pub open spec fn bounded(m: TreeModel, id: u64, fuel: nat) -> bool
    decreases fuel,
{
    fuel > 0 && forall|i: int|
        0 <= i < kids_of(m, id).len() ==> bounded(m, #[trigger] kids_of(m, id)[i].0, (fuel - 1) as nat)
}

/// True when the subtree below `id` is finite (no child chain from `id` loops back).
pub open spec fn finite_subtree(m: TreeModel, id: u64) -> bool {
    exists|fuel: nat| bounded(m, id, fuel)
}

/// Depth-first post-order of the subtree at `id`, cut off after `fuel` levels.
pub open spec fn post_order(m: TreeModel, id: u64, fuel: nat) -> Seq<ObjectId>
    decreases fuel, 0nat,
{
    if fuel == 0 {
        Seq::empty()
    } else {
        post_order_list(m, kids_of(m, id), (fuel - 1) as nat).push(ObjectId(id))
    }
}

/// Post-orders of each id of `cs`, concatenated.
pub open spec fn post_order_list(m: TreeModel, cs: Seq<ObjectId>, fuel: nat) -> Seq<ObjectId>
    decreases fuel, cs.len(),
{
    if cs.len() == 0 {
        Seq::empty()
    } else {
        post_order_list(m, cs.drop_last(), fuel) + post_order(m, cs.last().0, fuel)
    }
}

/// Depth-first pre-order of the subtree at `id` (`id` first, then each child's
/// subtree in order), cut off after `fuel` levels.
pub open spec fn pre_order(m: TreeModel, id: u64, fuel: nat) -> Seq<ObjectId>
    decreases fuel, 0nat,
{
    if fuel == 0 {
        Seq::empty()
    } else {
        seq![ObjectId(id)] + pre_order_list(m, kids_of(m, id), (fuel - 1) as nat)
    }
}

/// Pre-orders of each id of `cs`, concatenated.
pub open spec fn pre_order_list(m: TreeModel, cs: Seq<ObjectId>, fuel: nat) -> Seq<ObjectId>
    decreases fuel, cs.len(),
{
    if cs.len() == 0 {
        Seq::empty()
    } else {
        pre_order_list(m, cs.drop_last(), fuel) + pre_order(m, cs.last().0, fuel)
    }
}

/// The depth-first pre-order (`id` first) of a finite subtree.
pub open spec fn subtree_pre_order(m: TreeModel, id: u64) -> Seq<ObjectId> {
    pre_order(m, id, choose|fuel: nat| bounded(m, id, fuel))
}

/// The depth-first post-order (leaves first, `id` last) of a finite subtree.
pub open spec fn subtree_post_order(m: TreeModel, id: u64) -> Seq<ObjectId> {
    post_order(m, id, choose|fuel: nat| bounded(m, id, fuel))
}

/// The children of each id of `level`, concatenated in order.
pub open spec fn next_level(m: TreeModel, level: Seq<ObjectId>) -> Seq<ObjectId>
    decreases level.len(),
{
    if level.len() == 0 {
        Seq::empty()
    } else {
        next_level(m, level.drop_last()) + kids_of(m, level.last().0)
    }
}

/// Breadth-first order from `level`: the level itself, then the next levels, at most
/// `fuel` levels deep.
pub open spec fn levels(m: TreeModel, level: Seq<ObjectId>, fuel: nat) -> Seq<ObjectId>
    decreases fuel,
{
    if fuel == 0 {
        Seq::empty()
    } else {
        level + levels(m, next_level(m, level), (fuel - 1) as nat)
    }
}

/// The breadth-first order (shallowest first, siblings in insertion order) of a
/// finite subtree.
pub open spec fn subtree_bfs(m: TreeModel, root: u64) -> Seq<ObjectId> {
    levels(m, seq![ObjectId(root)], choose|fuel: nat| bounded(m, root, fuel))
}

/// The ids of `s` whose object is present and named `n`, order kept.
pub open spec fn carrying(m: TreeModel, s: Seq<ObjectId>, n: Seq<char>) -> Seq<ObjectId>
    decreases s.len(),
{
    if s.len() == 0 {
        s
    } else {
        let r = carrying(m, s.drop_last(), n);
        if has_name(m, s.last().0, n) {
            r.push(s.last())
        } else {
            r
        }
    }
}

proof fn lemma_carrying_concat(m: TreeModel, a: Seq<ObjectId>, b: Seq<ObjectId>, n: Seq<char>)
    ensures
        carrying(m, a + b, n) == carrying(m, a, n) + carrying(m, b, n),
    decreases b.len(),
{
    if b.len() == 0 {
        assert(a + b =~= a);
        assert(carrying(m, a, n) + carrying(m, b, n) =~= carrying(m, a, n));
    } else {
        assert((a + b).drop_last() =~= a + b.drop_last());
        lemma_carrying_concat(m, a, b.drop_last(), n);
        assert((a + b).last() == b.last());
        if has_name(m, b.last().0, n) {
            assert(carrying(m, a, n) + carrying(m, b, n) =~= (carrying(m, a, n) + carrying(m, b.drop_last(), n)).push(b.last()));
        } else {
        }
    }
}

proof fn lemma_levels_empty(m: TreeModel, fuel: nat)
    ensures
        levels(m, Seq::<ObjectId>::empty(), fuel) == Seq::<ObjectId>::empty(),
    decreases fuel,
{
    if fuel > 0 {
        assert(next_level(m, Seq::<ObjectId>::empty()) == Seq::<ObjectId>::empty());
        lemma_levels_empty(m, (fuel - 1) as nat);
        assert(Seq::<ObjectId>::empty() + Seq::<ObjectId>::empty() =~= Seq::<ObjectId>::empty());
    }
}

proof fn lemma_next_level_bounded(m: TreeModel, level: Seq<ObjectId>, fuel: nat)
    requires
        fuel > 0,
        forall|i: int| 0 <= i < level.len() ==> bounded(m, #[trigger] level[i].0, fuel),
    ensures
        forall|i: int| 0 <= i < next_level(m, level).len() ==> bounded(m, #[trigger] next_level(m, level)[i].0, (fuel - 1) as nat),
    decreases level.len(),
{
    if level.len() > 0 {
        let front = level.drop_last();
        assert forall|i: int| 0 <= i < front.len() implies bounded(m, #[trigger] front[i].0, fuel) by {
            assert(front[i] == level[i]);
        }
        lemma_next_level_bounded(m, front, fuel);
        let nl = next_level(m, level);
        let a = next_level(m, front);
        let b = kids_of(m, level.last().0);
        assert(bounded(m, level[level.len() - 1].0, fuel));
        assert forall|i: int| 0 <= i < nl.len() implies bounded(m, #[trigger] nl[i].0, (fuel - 1) as nat) by {
            if i < a.len() {
                assert(nl[i] == a[i]);
            } else {
                assert(nl[i] == b[i - a.len()]);
            }
        }
    }
}

/// The ids recorded under name `n` in the bucket list (the last bucket of that name).
spec fn lookup(bs: Seq<NameBucket>, n: Seq<char>) -> Seq<ObjectId>
    decreases bs.len(),
{
    if bs.len() == 0 {
        Seq::empty()
    } else if bs.last().name@ == n {
        bs.last().ids@
    } else {
        lookup(bs.drop_last(), n)
    }
}

spec fn distinct_names(bs: Seq<NameBucket>) -> bool {
    forall|i: int, j: int| 0 <= i < j < bs.len() ==> bs[i].name@ != bs[j].name@
}

proof fn lemma_lookup_absent(bs: Seq<NameBucket>, n: Seq<char>)
    requires
        forall|j: int| 0 <= j < bs.len() ==> bs[j].name@ != n,
    ensures
        lookup(bs, n) == Seq::<ObjectId>::empty(),
    decreases bs.len(),
{
    if bs.len() > 0 {
        lemma_lookup_absent(bs.drop_last(), n);
    }
}

proof fn lemma_lookup_at(bs: Seq<NameBucket>, n: Seq<char>, i: int)
    requires
        distinct_names(bs),
        0 <= i < bs.len(),
        bs[i].name@ == n,
    ensures
        lookup(bs, n) == bs[i].ids@,
    decreases bs.len(),
{
    if i != bs.len() - 1 {
        assert(bs.drop_last()[i] == bs[i]);
        lemma_lookup_at(bs.drop_last(), n, i);
    }
}

/// The lookup of every name `n` in `bs` agrees with `f(n)` provided the buckets agree.
proof fn lemma_lookup_same(bs: Seq<NameBucket>, cs: Seq<NameBucket>, n: Seq<char>)
    requires
        distinct_names(bs),
        distinct_names(cs),
        forall|i: int| 0 <= i < bs.len() && bs[i].name@ == n ==> exists|j: int| 0 <= j < cs.len() && cs[j].name@ == n && cs[j].ids@ == bs[i].ids@,
        forall|j: int| 0 <= j < cs.len() && cs[j].name@ == n ==> exists|i: int| 0 <= i < bs.len() && bs[i].name@ == n,
    ensures
        lookup(bs, n) == lookup(cs, n),
{
    if exists|i: int| 0 <= i < bs.len() && bs[i].name@ == n {
        let i = choose|i: int| 0 <= i < bs.len() && bs[i].name@ == n;
        let j = choose|j: int| 0 <= j < cs.len() && cs[j].name@ == n && cs[j].ids@ == bs[i].ids@;
        lemma_lookup_at(bs, n, i);
        lemma_lookup_at(cs, n, j);
    } else {
        lemma_lookup_absent(bs, n);
        lemma_lookup_absent(cs, n);
    }
}

/// Central store for all runtime objects.
///
/// Maintains the objects by id, the parent and children relations, and an index
/// from names to the (ordered) ids that carry them. All mutations go through the
/// methods here.
pub struct ObjectTree {
    objects: HashMap<u64, ObjectBase>,
    parent_map: HashMap<u64, ObjectId>,
    children_map: HashMap<u64, Vec<ObjectId>>,
    by_name: Vec<NameBucket>,
}

impl View for ObjectTree {
    type V = TreeModel;

    closed spec fn view(&self) -> TreeModel {
        TreeModel {
            objects: self.objects@,
            parents: self.parent_map@,
            kids: |x: u64|
                if self.children_map@.contains_key(x) {
                    self.children_map@[x]@
                } else {
                    Seq::<ObjectId>::empty()
                },
            named: |n: Seq<char>| lookup(self.by_name@, n),
        }
    }
}

impl ObjectTree {
    /// Internal consistency: the names of the by-name index are pairwise distinct.
    pub closed spec fn wf(&self) -> bool {
        distinct_names(self.by_name@)
    }

    /// Creates an empty tree.
    pub fn new() -> (r: ObjectTree)
        ensures
            r.wf(),
            r@.objects == Map::<u64, ObjectBase>::empty(),
            r@.parents == Map::<u64, ObjectId>::empty(),
            forall|x: u64| #[trigger] kids_of(r@, x) == Seq::<ObjectId>::empty(),
            forall|n: Seq<char>| #[trigger] named_of(r@, n) == Seq::<ObjectId>::empty(),
            linked(r@),
    {
        let r = ObjectTree {
            objects: HashMap::new(),
            parent_map: HashMap::new(),
            children_map: HashMap::new(),
            by_name: Vec::new(),
        };
        assert forall|n: Seq<char>| #[trigger] named_of(r@, n) == Seq::<ObjectId>::empty() by {
            lemma_lookup_absent(r.by_name@, n);
        }
        r
    }

    /// Position of the bucket named `name`, if any.
    fn bucket_index(&self, name: &String) -> (r: Option<usize>)
        ensures
            r matches Some(i) ==> i < self.by_name@.len() && self.by_name@[i as int].name@ == name@,
            r is None ==> forall|j: int| 0 <= j < self.by_name@.len() ==> self.by_name@[j].name@ != name@,
    {
        let mut i: usize = 0;
        while i < self.by_name.len()
            invariant
                i <= self.by_name@.len(),
                forall|j: int| 0 <= j < i ==> self.by_name@[j].name@ != name@,
            decreases self.by_name@.len() - i,
        {
            if self.by_name[i].name == *name {
                return Some(i);
            }
            i = i + 1;
        }
        None
    }

    /// Appends `id` to the bucket of `name`, creating the bucket when absent.
    fn add_to_by_name(&mut self, name: String, id: ObjectId)
        requires
            old(self).wf(),
        ensures
            final(self).wf(),
            final(self).objects@ == old(self).objects@,
            final(self).parent_map@ == old(self).parent_map@,
            final(self).children_map@ == old(self).children_map@,
            forall|n: Seq<char>|
                #![trigger lookup(final(self).by_name@, n)]
                lookup(final(self).by_name@, n) == if n == name@ {
                    lookup(old(self).by_name@, n).push(id)
                } else {
                    lookup(old(self).by_name@, n)
                },
    {
        let ghost old_bs = self.by_name@;
        match self.bucket_index(&name) {
            Some(i) => {
                let mut bucket = self.by_name.remove(i);
                bucket.ids.push(id);
                self.by_name.insert(i, bucket);
                let ghost new_bs = self.by_name@;
                assert(new_bs =~= old_bs.update(i as int, new_bs[i as int]));
                assert(distinct_names(new_bs));
                assert forall|n: Seq<char>|
                    #![trigger lookup(new_bs, n)]
                    lookup(new_bs, n) == if n == name@ {
                        lookup(old_bs, n).push(id)
                    } else {
                        lookup(old_bs, n)
                    } by {
                    if n == name@ {
                        lemma_lookup_at(old_bs, n, i as int);
                        lemma_lookup_at(new_bs, n, i as int);
                    } else {
                        assert forall|k: int| 0 <= k < old_bs.len() && old_bs[k].name@ == n implies
                            exists|j: int| 0 <= j < new_bs.len() && new_bs[j].name@ == n && new_bs[j].ids@ == old_bs[k].ids@ by {
                            assert(new_bs[k] == old_bs[k]);
                        }
                        lemma_lookup_same(old_bs, new_bs, n);
                    }
                }
            },
            None => {
                let mut ids = Vec::new();
                ids.push(id);
                let ghost name_view_s = name@;
                self.by_name.push(NameBucket { name, ids });
                let ghost new_bs = self.by_name@;
                assert(new_bs =~= old_bs.push(new_bs.last()));
                assert(distinct_names(new_bs));
                assert forall|n: Seq<char>|
                    #![trigger lookup(new_bs, n)]
                    lookup(new_bs, n) == if n == name_view_s {
                        lookup(old_bs, n).push(id)
                    } else {
                        lookup(old_bs, n)
                    } by {
                    if n == name_view_s {
                        lemma_lookup_absent(old_bs, n);
                        lemma_lookup_at(new_bs, n, new_bs.len() - 1);
                        assert(Seq::<ObjectId>::empty().push(id) =~= seq![id]);
                    } else {
                        assert forall|k: int| 0 <= k < old_bs.len() && old_bs[k].name@ == n implies
                            exists|j: int| 0 <= j < new_bs.len() && new_bs[j].name@ == n && new_bs[j].ids@ == old_bs[k].ids@ by {
                            assert(new_bs[k] == old_bs[k]);
                        }
                        lemma_lookup_same(old_bs, new_bs, n);
                    }
                }
            },
        }
    }

    /// Appends `child` to the children recorded under `parent`.
    fn push_child(&mut self, parent: u64, child: ObjectId)
        ensures
            final(self).objects@ == old(self).objects@,
            final(self).parent_map@ == old(self).parent_map@,
            final(self).by_name@ == old(self).by_name@,
            final(self).children_map@.contains_key(parent),
            final(self).children_map@[parent]@ == (old(self)@.kids)(parent).push(child),
            forall|x: u64| x != parent ==> #[trigger] final(self).children_map@.contains_key(x) == old(self).children_map@.contains_key(x),
            forall|x: u64| x != parent && old(self).children_map@.contains_key(x) ==> #[trigger] final(self).children_map@[x] == old(self).children_map@[x],
    {
        let mut v = match self.children_map.remove(&parent) {
            Some(v) => v,
            None => Vec::new(),
        };
        v.push(child);
        self.children_map.insert(parent, v);
    }

    /// Inserts an object, optionally under `parent_id`, and returns its id.
    pub fn insert(&mut self, base: ObjectBase, parent_id: Option<ObjectId>) -> (r: ObjectId)
        requires
            old(self).wf(),
        ensures
            final(self).wf(),
            r == base.id,
            final(self)@ == model_insert(old(self)@, base, parent_id),
            linked(old(self)@) && absent(old(self)@, base.id.0) ==> linked(final(self)@),
    {
        let ghost old_model = self@;
        let ghost base_copy = base;
        let id = base.id;
        match &base.name {
            Some(name) => {
                let n = name.clone();
                self.add_to_by_name(n, id);
            },
            None => {},
        }
        let ghost after_names = self@;
        self.objects.insert(id.0, base);
        if !self.children_map.contains_key(&id.0) {
            self.children_map.insert(id.0, Vec::new());
        }
        let ghost after_entry = self@;
        assert((after_entry.kids) =~= (after_names.kids));
        match parent_id {
            Some(pid) => {
                self.parent_map.insert(id.0, pid);
                self.push_child(pid.0, id);
            },
            None => {},
        }
        assert(self@ =~= model_insert(old_model, base_copy, parent_id));
        proof {
            if linked(old_model) && absent(old_model, base_copy.id.0) {
                law_insert_keeps_linked(old_model, base_copy, parent_id);
            }
        }
        id
    }

    /// Returns `true` if `id` is present in the tree.
    pub fn contains(&self, id: ObjectId) -> (r: bool)
        ensures
            r == self@.objects.contains_key(id.0),
    {
        self.objects.contains_key(&id.0)
    }

    /// Runs `f` on the object `id`; `None` if `id` is not in the tree.
    pub fn with<R, F: FnOnce(&ObjectBase) -> R>(&self, id: ObjectId, f: F) -> (r: Option<R>)
        requires
            forall|b: &ObjectBase| f.requires((b,)),
        ensures
            r is Some <==> self@.objects.contains_key(id.0),
            r matches Some(v) ==> f.ensures((&self@.objects[id.0],), v),
    {
        match self.objects.get(&id.0) {
            Some(b) => Some(f(b)),
            None => None,
        }
    }

    /// Runs `f` on the object `id` with exclusive access; `None` if `id` is not in the tree.
    ///
    /// The parent, children and by-name records are untouched: a name changed through
    /// `f` is not reindexed (use [`rename`](Self::rename) for that).
    pub fn with_mut<R, F: FnOnce(&mut ObjectBase) -> R>(&mut self, id: ObjectId, f: F) -> (r: Option<R>)
        requires
            forall|b: &mut ObjectBase| f.requires((b,)),
        ensures
            final(self).wf() == old(self).wf(),
            r is Some <==> old(self)@.objects.contains_key(id.0),
            final(self)@.objects.dom() == old(self)@.objects.dom(),
            forall|x: u64| x != id.0 && old(self)@.objects.contains_key(x) ==> #[trigger] final(self)@.objects[x] == old(self)@.objects[x],
            final(self)@.parents == old(self)@.parents,
            final(self)@.kids == old(self)@.kids,
            final(self)@.named == old(self)@.named,
    {
        match self.objects.remove(&id.0) {
            Some(b) => {
                let mut b = b;
                let v = f(&mut b);
                self.objects.insert(id.0, b);
                assert(self@.objects.dom() =~= old(self)@.objects.dom());
                Some(v)
            },
            None => None,
        }
    }

    /// Returns the parent of `id`, or `None` if `id` is a root (or unknown).
    pub fn parent_of(&self, id: ObjectId) -> (r: Option<ObjectId>)
        ensures
            r == (if self@.parents.contains_key(id.0) {
                Some(self@.parents[id.0])
            } else {
                None
            }),
    {
        match self.parent_map.get(&id.0) {
            Some(p) => Some(*p),
            None => None,
        }
    }

    /// Returns the ordered children of `id`.
    pub fn children_of(&self, id: ObjectId) -> (r: &[ObjectId])
        ensures
            r@ == kids_of(self@, id.0),
    {
        match self.children_map.get(&id.0) {
            Some(v) => v.as_slice(),
            None => &[],
        }
    }

    /// Returns the ids of the objects named `name`, in the order they acquired it.
    pub fn find_by_name(&self, name: &str) -> (r: &[ObjectId])
        requires
            self.wf(),
        ensures
            r@ == named_of(self@, name@),
    {
        let key = name.to_owned();
        match self.bucket_index(&key) {
            Some(i) => {
                proof {
                    lemma_lookup_at(self.by_name@, name@, i as int);
                }
                self.by_name[i].ids.as_slice()
            },
            None => {
                proof {
                    lemma_lookup_absent(self.by_name@, name@);
                }
                &[]
            },
        }
    }

    /// `v` with every occurrence of `id` removed, order kept.
    fn without_id(v: &Vec<ObjectId>, id: ObjectId) -> (r: Vec<ObjectId>)
        ensures
            r@ == without(v@, id),
    {
        let mut r: Vec<ObjectId> = Vec::new();
        let mut i: usize = 0;
        while i < v.len()
            invariant
                i <= v@.len(),
                r@ == without(v@.take(i as int), id),
            decreases v@.len() - i,
        {
            assert(v@.take(i as int + 1).drop_last() =~= v@.take(i as int));
            if v[i] != id {
                r.push(v[i]);
            }
            i = i + 1;
        }
        assert(v@.take(v@.len() as int) =~= v@);
        r
    }

    /// Removes `id` from the bucket of `name`, dropping the bucket when it becomes empty.
    fn remove_from_by_name(&mut self, name: &String, id: ObjectId)
        requires
            old(self).wf(),
        ensures
            final(self).wf(),
            final(self).objects@ == old(self).objects@,
            final(self).parent_map@ == old(self).parent_map@,
            final(self).children_map@ == old(self).children_map@,
            forall|n: Seq<char>|
                #![trigger lookup(final(self).by_name@, n)]
                lookup(final(self).by_name@, n) == if n == name@ {
                    without(lookup(old(self).by_name@, n), id)
                } else {
                    lookup(old(self).by_name@, n)
                },
    {
        let ghost old_bs = self.by_name@;
        match self.bucket_index(name) {
            Some(i) => {
                proof {
                    lemma_lookup_at(old_bs, name@, i as int);
                }
                let bucket = self.by_name.remove(i);
                let ids = Self::without_id(&bucket.ids, id);
                if ids.len() == 0 {
                    let ghost new_bs = self.by_name@;
                    assert(new_bs =~= old_bs.remove(i as int));
                    assert(distinct_names(new_bs));
                    assert forall|n: Seq<char>|
                        #![trigger lookup(new_bs, n)]
                        lookup(new_bs, n) == if n == name@ {
                            without(lookup(old_bs, n), id)
                        } else {
                            lookup(old_bs, n)
                        } by {
                        if n == name@ {
                            assert forall|j: int| 0 <= j < new_bs.len() implies new_bs[j].name@ != n by {
                                if j < i {
                                    assert(new_bs[j] == old_bs[j]);
                                } else {
                                    assert(new_bs[j] == old_bs[j + 1]);
                                }
                            }
                            lemma_lookup_absent(new_bs, n);
                            assert(without(lookup(old_bs, n), id) =~= ids@);
                        } else {
                            assert forall|k: int| 0 <= k < old_bs.len() && old_bs[k].name@ == n implies
                                exists|j: int| 0 <= j < new_bs.len() && new_bs[j].name@ == n && new_bs[j].ids@ == old_bs[k].ids@ by {
                                if k < i {
                                    assert(new_bs[k] == old_bs[k]);
                                } else {
                                    assert(new_bs[k - 1] == old_bs[k]);
                                }
                            }
                            assert forall|j: int| 0 <= j < new_bs.len() && new_bs[j].name@ == n implies
                                exists|k: int| 0 <= k < old_bs.len() && old_bs[k].name@ == n by {
                                if j < i {
                                    assert(new_bs[j] == old_bs[j]);
                                } else {
                                    assert(new_bs[j] == old_bs[j + 1]);
                                }
                            }
                            lemma_lookup_same(old_bs, new_bs, n);
                        }
                    }
                } else {
                    self.by_name.insert(i, NameBucket { name: bucket.name, ids });
                    let ghost new_bs = self.by_name@;
                    assert(new_bs =~= old_bs.update(i as int, new_bs[i as int]));
                    assert(distinct_names(new_bs));
                    assert forall|n: Seq<char>|
                        #![trigger lookup(new_bs, n)]
                        lookup(new_bs, n) == if n == name@ {
                            without(lookup(old_bs, n), id)
                        } else {
                            lookup(old_bs, n)
                        } by {
                        if n == name@ {
                            lemma_lookup_at(new_bs, n, i as int);
                        } else {
                            assert forall|k: int| 0 <= k < old_bs.len() && old_bs[k].name@ == n implies
                                exists|j: int| 0 <= j < new_bs.len() && new_bs[j].name@ == n && new_bs[j].ids@ == old_bs[k].ids@ by {
                                assert(new_bs[k] == old_bs[k]);
                            }
                            lemma_lookup_same(old_bs, new_bs, n);
                        }
                    }
                }
            },
            None => {
                proof {
                    lemma_lookup_absent(old_bs, name@);
                }
            },
        }
    }

    /// Drops the parent link of `id` and removes `id` from its old parent's children.
    fn detach_from_parent(&mut self, id: u64)
        ensures
            final(self).wf() == old(self).wf(),
            final(self)@ == model_detach(old(self)@, id),
            final(self).by_name@ == old(self).by_name@,
    {
        let ghost old_model = self@;
        match self.parent_map.remove(&id) {
            Some(old_parent) => {
                match self.children_map.remove(&old_parent.0) {
                    Some(v) => {
                        let nv = Self::without_id(&v, ObjectId(id));
                        self.children_map.insert(old_parent.0, nv);
                    },
                    None => {},
                }
            },
            None => {},
        }
        assert(self@ =~= model_detach(old_model, id));
    }

    /// Moves `id` under `new_parent`; `None` makes it a root.
    pub fn reparent(&mut self, id: ObjectId, new_parent: Option<ObjectId>)
        requires
            old(self).wf(),
        ensures
            final(self).wf(),
            final(self)@ == model_reparent(old(self)@, id.0, new_parent),
            linked(old(self)@) ==> linked(final(self)@),
    {
        proof {
            if linked(self@) {
                law_reparent_keeps_linked(self@, id.0, new_parent);
            }
        }
        let ghost old_model = self@;
        self.detach_from_parent(id.0);
        let ghost detached = self@;
        match new_parent {
            Some(pid) => {
                self.parent_map.insert(id.0, pid);
                self.push_child(pid.0, id);
            },
            None => {},
        }
        assert(self@ =~= model_reparent(old_model, id.0, new_parent));
    }

    /// Renames `id` to `new_name` and returns the `name_changed` payload to emit.
    ///
    /// No effect (and nothing to emit) when `id` is not in the tree or already
    /// carries exactly `new_name`.
    pub fn rename(&mut self, id: ObjectId, new_name: String) -> (r: Option<NameChange>)
        requires
            old(self).wf(),
        ensures
            final(self).wf(),
            !old(self)@.objects.contains_key(id.0) || name_view(old(self)@.objects[id.0].name) == Some(new_name@)
                ==> final(self)@ == old(self)@ && r is None,
            old(self)@.objects.contains_key(id.0) && name_view(old(self)@.objects[id.0].name) != Some(new_name@)
                ==> final(self)@ == model_rename(old(self)@, id.0, new_name)
                    && r == Some(NameChange { old: old(self)@.objects[id.0].name, new: Some(new_name) }),
            linked(old(self)@) ==> linked(final(self)@),
    {
        proof {
            if linked(self@) && self@.objects.contains_key(id.0) {
                law_rename_keeps_linked(self@, id.0, new_name);
            }
        }
        let ghost old_model = self@;
        let old_name: Option<String> = match self.objects.get(&id.0) {
            None => {
                return None;
            },
            Some(b) => match &b.name {
                Some(s) => Some(s.clone()),
                None => None,
            },
        };
        match &old_name {
            Some(o) => {
                if *o == new_name {
                    return None;
                }
                self.remove_from_by_name(o, id);
            },
            None => {},
        }
        let ghost after_remove = self@;
        let base = self.objects.remove(&id.0).unwrap();
        self.objects.insert(id.0, ObjectBase { id: base.id, name: Some(new_name.clone()) });
        self.add_to_by_name(new_name.clone(), id);
        assert(self@ =~= model_rename(old_model, id.0, new_name));
        Some(NameChange { old: old_name, new: Some(new_name) })
    }

    /// Makes `id` anonymous and returns the `name_changed` payload to emit.
    ///
    /// No effect (and nothing to emit) when `id` is not in the tree or already anonymous.
    pub fn clear_name(&mut self, id: ObjectId) -> (r: Option<NameChange>)
        requires
            old(self).wf(),
        ensures
            final(self).wf(),
            !old(self)@.objects.contains_key(id.0) || old(self)@.objects[id.0].name is None
                ==> final(self)@ == old(self)@ && r is None,
            old(self)@.objects.contains_key(id.0) && old(self)@.objects[id.0].name is Some
                ==> final(self)@ == model_clear_name(old(self)@, id.0, old(self)@.objects[id.0].name->0@)
                    && r == Some(NameChange { old: old(self)@.objects[id.0].name, new: None }),
            linked(old(self)@) ==> linked(final(self)@),
    {
        proof {
            if linked(self@) && self@.objects.contains_key(id.0) && self@.objects[id.0].name is Some {
                law_clear_name_keeps_linked(self@, id.0);
            }
        }
        let ghost old_model = self@;
        let old_name: String = match self.objects.get(&id.0) {
            None => {
                return None;
            },
            Some(b) => match &b.name {
                Some(s) => s.clone(),
                None => {
                    return None;
                },
            },
        };
        self.remove_from_by_name(&old_name, id);
        let base = self.objects.remove(&id.0).unwrap();
        self.objects.insert(id.0, ObjectBase { id: base.id, name: None });
        assert(self@ =~= model_clear_name(old_model, id.0, old_name@));
        Some(NameChange { old: Some(old_name), new: None })
    }

    /// Removes one object (not its descendants): its name entry, its parent link and
    /// its children record.
    fn remove_node(&mut self, id: u64)
        requires
            old(self).wf(),
        ensures
            final(self).wf(),
            final(self)@ == model_remove_node(old(self)@, id),
    {
        let ghost old_model = self@;
        match self.objects.remove(&id) {
            Some(base) => {
                match &base.name {
                    Some(name) => {
                        self.remove_from_by_name(name, ObjectId(id));
                    },
                    None => {},
                }
            },
            None => {},
        }
        let ghost m1 = self@;
        proof {
            let e = if old_model.objects.contains_key(id) {
                TreeModel {
                    objects: old_model.objects.remove(id),
                    parents: old_model.parents,
                    kids: old_model.kids,
                    named: match old_model.objects[id].name {
                        Some(s) => named_without(old_model.named, s@, ObjectId(id)),
                        None => old_model.named,
                    },
                }
            } else {
                old_model
            };
            assert(m1 =~= e);
        }
        self.detach_from_parent(id);
        self.children_map.remove(&id);
        assert(self@ =~= model_remove_node(old_model, id));
    }

    /// Appends the post-order of the subtree at `id` to `out`.
    fn collect_post_order(&self, id: u64, out: &mut Vec<ObjectId>, Ghost(fuel): Ghost<nat>)
        requires
            bounded(self@, id, fuel),
        ensures
            final(out)@ == old(out)@ + post_order(self@, id, fuel),
        decreases fuel,
    {
        let ghost start = out@;
        match self.children_map.get(&id) {
            Some(children) => {
                let mut i: usize = 0;
                while i < children.len()
                    invariant
                        i <= children@.len(),
                        children@ == kids_of(self@, id),
                        bounded(self@, id, fuel),
                        out@ == start + post_order_list(self@, children@.take(i as int), (fuel - 1) as nat),
                    decreases children@.len() - i,
                {
                    let ghost before = out@;
                    assert(children@.take(i as int + 1).drop_last() =~= children@.take(i as int));
                    assert(kids_of(self@, id)[i as int] == children@[i as int]);
                    self.collect_post_order(children[i].0, out, Ghost((fuel - 1) as nat));
                    assert(out@ =~= start + post_order_list(self@, children@.take(i as int + 1), (fuel - 1) as nat));
                    i = i + 1;
                }
                assert(children@.take(children@.len() as int) =~= children@);
            },
            None => {
                assert(kids_of(self@, id) =~= Seq::<ObjectId>::empty());
            },
        }
        out.push(ObjectId(id));
        assert(out@ =~= start + post_order(self@, id, fuel));
    }

    /// Appends the pre-order of the subtree at `id` to `out`.
    fn collect_pre_order(&self, id: u64, out: &mut Vec<ObjectId>, Ghost(fuel): Ghost<nat>)
        requires
            bounded(self@, id, fuel),
        ensures
            final(out)@ == old(out)@ + pre_order(self@, id, fuel),
        decreases fuel,
    {
        let ghost start = out@;
        out.push(ObjectId(id));
        let ghost head = out@;
        match self.children_map.get(&id) {
            Some(children) => {
                let mut i: usize = 0;
                while i < children.len()
                    invariant
                        i <= children@.len(),
                        children@ == kids_of(self@, id),
                        bounded(self@, id, fuel),
                        head == start.push(ObjectId(id)),
                        out@ == head + pre_order_list(self@, children@.take(i as int), (fuel - 1) as nat),
                    decreases children@.len() - i,
                {
                    assert(children@.take(i as int + 1).drop_last() =~= children@.take(i as int));
                    assert(kids_of(self@, id)[i as int] == children@[i as int]);
                    self.collect_pre_order(children[i].0, out, Ghost((fuel - 1) as nat));
                    assert(out@ =~= head + pre_order_list(self@, children@.take(i as int + 1), (fuel - 1) as nat));
                    i = i + 1;
                }
                assert(children@.take(children@.len() as int) =~= children@);
            },
            None => {
                assert(kids_of(self@, id) =~= Seq::<ObjectId>::empty());
            },
        }
        assert(out@ =~= start + pre_order(self@, id, fuel));
    }

    /// The ids of the subtree rooted at `root` in depth-first pre-order: each object
    /// before its children, siblings in insertion order.
    pub fn collect_ids(&self, root: ObjectId) -> (r: Vec<ObjectId>)
        requires
            finite_subtree(self@, root.0),
        ensures
            r@ == subtree_pre_order(self@, root.0),
    {
        let ghost fuel = choose|fuel: nat| bounded(self@, root.0, fuel);
        let mut out: Vec<ObjectId> = Vec::new();
        self.collect_pre_order(root.0, &mut out, Ghost(fuel));
        assert(out@ =~= subtree_pre_order(self@, root.0));
        out
    }

    /// The ids within the subtree rooted at `root` (inclusive) whose name equals `name`,
    /// shallowest first; siblings keep insertion order. Empty when `root` is unknown.
    pub fn find_by_name_in(&self, root: ObjectId, name: &str) -> (r: Vec<ObjectId>)
        requires
            self@.objects.contains_key(root.0) ==> finite_subtree(self@, root.0),
        ensures
            !self@.objects.contains_key(root.0) ==> r@ == Seq::<ObjectId>::empty(),
            self@.objects.contains_key(root.0) ==> r@ == carrying(self@, subtree_bfs(self@, root.0), name@),
    {
        let mut result: Vec<ObjectId> = Vec::new();
        if !self.contains(root) {
            return result;
        }
        let key = name.to_owned();
        let ghost fuel = choose|fuel: nat| bounded(self@, root.0, fuel);
        let ghost target = carrying(self@, subtree_bfs(self@, root.0), name@);
        let mut level: Vec<ObjectId> = Vec::new();
        level.push(root);
        let ghost mut k: nat = fuel;
        assert(level@ =~= seq![root]);
        while level.len() > 0
            invariant
                result@ + carrying(self@, levels(self@, level@, k), name@) == target,
                forall|i: int| 0 <= i < level@.len() ==> bounded(self@, #[trigger] level@[i].0, k),
                key@ == name@,
            decreases k,
        {
            assert(bounded(self@, level@[0].0, k));
            let ghost r0 = result@;
            let mut next: Vec<ObjectId> = Vec::new();
            let mut i: usize = 0;
            while i < level.len()
                invariant
                    i <= level@.len(),
                    result@ == r0 + carrying(self@, level@.take(i as int), name@),
                    next@ == next_level(self@, level@.take(i as int)),
                    key@ == name@,
                decreases level@.len() - i,
            {
                let x = level[i];
                assert(level@.take(i as int + 1).drop_last() =~= level@.take(i as int));
                assert(level@.take(i as int + 1).last() == x);
                let matches = match self.objects.get(&x.0) {
                    Some(b) => match &b.name {
                        Some(s) => *s == key,
                        None => false,
                    },
                    None => false,
                };
                if matches {
                    result.push(x);
                }
                let ghost next_before = next@;
                match self.children_map.get(&x.0) {
                    Some(children) => {
                        let mut j: usize = 0;
                        while j < children.len()
                            invariant
                                j <= children@.len(),
                                next@ == next_before + children@.take(j as int),
                            decreases children@.len() - j,
                        {
                            next.push(children[j]);
                            assert(children@.take(j as int + 1) =~= children@.take(j as int).push(children@[j as int]));
                            assert(next@ =~= next_before + children@.take(j as int + 1));
                            j = j + 1;
                        }
                        assert(children@.take(children@.len() as int) =~= children@);
                    },
                    None => {
                        assert(next@ =~= next_before + kids_of(self@, x.0));
                    },
                }
                i = i + 1;
            }
            assert(level@.take(level@.len() as int) =~= level@);
            proof {
                lemma_next_level_bounded(self@, level@, k);
                lemma_carrying_concat(self@, level@, levels(self@, next@, (k - 1) as nat), name@);
            }
            level = next;
            proof {
                k = (k - 1) as nat;
            }
        }
        proof {
            lemma_levels_empty(self@, k);
        }
        assert(result@ =~= target);
        result
    }

    /// Removes `id` and all its descendants (depth-first post-order, leaves first) and
    /// returns the removal order.
    pub fn destroy(&mut self, id: ObjectId) -> (r: Vec<ObjectId>)
        requires
            old(self).wf(),
            finite_subtree(old(self)@, id.0),
        ensures
            final(self).wf(),
            r@ == subtree_post_order(old(self)@, id.0),
            final(self)@ == model_remove_all(old(self)@, r@),
            linked(old(self)@) ==> linked(final(self)@) && forall|k: int|
                0 <= k < r@.len() ==> absent(final(self)@, (#[trigger] r@[k]).0),
    {
        let ghost old_model = self@;
        let ghost fuel = choose|fuel: nat| bounded(self@, id.0, fuel);
        let mut order: Vec<ObjectId> = Vec::new();
        self.collect_post_order(id.0, &mut order, Ghost(fuel));
        assert(order@ =~= subtree_post_order(old_model, id.0));
        let mut i: usize = 0;
        while i < order.len()
            invariant
                i <= order@.len(),
                self.wf(),
                self@ == model_remove_all(old_model, order@.take(i as int)),
            decreases order@.len() - i,
        {
            assert(order@.take(i as int + 1).drop_last() =~= order@.take(i as int));
            self.remove_node(order[i].0);
            i = i + 1;
        }
        assert(order@.take(order@.len() as int) =~= order@);
        proof {
            if linked(old_model) {
                lemma_remove_all_unlinks(old_model, order@);
            }
        }
        order
    }
}

} // verus!

verus! {

/// Inserting an object makes it present with the given data, links it under its
/// parent, and records it under its name.
pub proof fn law_insert_links(m: TreeModel, base: ObjectBase, parent: Option<ObjectId>)
    ensures
        model_insert(m, base, parent).objects[base.id.0] == base,
        parent matches Some(p) ==> model_insert(m, base, parent).parents[base.id.0] == p
            && kids_of(model_insert(m, base, parent), p.0).last() == base.id,
        base.name matches Some(n) ==> named_of(model_insert(m, base, parent), n@).last() == base.id,
{
}

/// A rename moves the object from its old name's bucket to the end of the new name's
/// bucket.
pub proof fn law_rename_reindexes(m: TreeModel, id: u64, new_name: String)
    requires
        m.objects.contains_key(id),
        name_view(m.objects[id].name) != Some(new_name@),
    ensures
        name_view(model_rename(m, id, new_name).objects[id].name) == Some(new_name@),
        named_of(model_rename(m, id, new_name), new_name@).last() == ObjectId(id),
        m.objects[id].name matches Some(o) ==> !named_of(model_rename(m, id, new_name), o@).contains(ObjectId(id)),
{
    match m.objects[id].name {
        Some(o) => {
            lemma_without_excludes(named_of(m, o@), ObjectId(id));
        },
        None => {},
    }
}

/// Clearing a name makes the object anonymous and drops it from its old bucket.
pub proof fn law_clear_name_unindexes(m: TreeModel, id: u64, old_name: Seq<char>)
    requires
        m.objects.contains_key(id),
    ensures
        model_clear_name(m, id, old_name).objects[id].name is None,
        !named_of(model_clear_name(m, id, old_name), old_name).contains(ObjectId(id)),
{
    lemma_without_excludes(named_of(m, old_name), ObjectId(id));
}

/// Reparenting under `p` records `p` as the parent, appends the object to `p`'s
/// children, and drops it from a different old parent's children.
pub proof fn law_reparent_moves(m: TreeModel, id: u64, p: ObjectId)
    ensures
        model_reparent(m, id, Some(p)).parents[id] == p,
        kids_of(model_reparent(m, id, Some(p)), p.0).last() == ObjectId(id),
        m.parents.contains_key(id) && m.parents[id] != p
            ==> !kids_of(model_reparent(m, id, Some(p)), m.parents[id].0).contains(ObjectId(id)),
        model_reparent(m, id, None).parents.contains_key(id) == false,
{
    if m.parents.contains_key(id) {
        lemma_without_excludes(kids_of(m, m.parents[id].0), ObjectId(id));
    }
}

/// Removing a sequence of ids removes exactly those objects and keeps all others.
pub proof fn law_remove_all_objects(m: TreeModel, ids: Seq<ObjectId>)
    ensures
        forall|x: u64| #[trigger] model_remove_all(m, ids).objects.contains_key(x)
            <==> m.objects.contains_key(x) && !ids.contains(ObjectId(x)),
        forall|x: u64| #[trigger] model_remove_all(m, ids).objects.contains_key(x)
            ==> model_remove_all(m, ids).objects[x] == m.objects[x],
    decreases ids.len(),
{
    if ids.len() > 0 {
        law_remove_all_objects(m, ids.drop_last());
        let prev = model_remove_all(m, ids.drop_last());
        let last = ids.last();
        assert forall|x: u64| #[trigger] model_remove_all(m, ids).objects.contains_key(x)
            <==> m.objects.contains_key(x) && !ids.contains(ObjectId(x)) by {
            if ids.contains(ObjectId(x)) {
                let k = choose|k: int| 0 <= k < ids.len() && ids[k] == ObjectId(x);
                if k < ids.len() - 1 {
                    assert(ids.drop_last()[k] == ObjectId(x));
                }
            }
            if ids.drop_last().contains(ObjectId(x)) {
                let k = choose|k: int| 0 <= k < ids.drop_last().len() && ids.drop_last()[k] == ObjectId(x);
                assert(ids[k] == ObjectId(x));
            }
        }
    }
}

/// Destroying a finite subtree removes its root and every descendant, in post-order
/// with the root last, and leaves every other object untouched.
pub proof fn law_destroy_removes_subtree(m: TreeModel, id: u64)
    requires
        finite_subtree(m, id),
    ensures
        subtree_post_order(m, id).last() == ObjectId(id),
        !model_remove_all(m, subtree_post_order(m, id)).objects.contains_key(id),
        forall|x: u64| #[trigger] model_remove_all(m, subtree_post_order(m, id)).objects.contains_key(x)
            <==> m.objects.contains_key(x) && !subtree_post_order(m, id).contains(ObjectId(x)),
{
    let order = subtree_post_order(m, id);
    law_remove_all_objects(m, order);
    assert(order[order.len() - 1] == ObjectId(id));
}

/// Children lists list only children whose parent link points back, and name buckets
/// list only objects that carry that name.
pub open spec fn linked(m: TreeModel) -> bool {
    &&& forall|x: u64, k: int|
        0 <= k < kids_of(m, x).len() ==> {
            &&& m.parents.contains_key((#[trigger] kids_of(m, x)[k]).0)
            &&& m.parents[kids_of(m, x)[k].0] == ObjectId(x)
        }
    &&& forall|n: Seq<char>, k: int|
        0 <= k < named_of(m, n).len() ==> has_name(m, (#[trigger] named_of(m, n)[k]).0, n)
}

/// No trace of `r` is left: no object, parent link, children list, or name-bucket entry.
pub open spec fn absent(m: TreeModel, r: u64) -> bool {
    &&& !m.objects.contains_key(r)
    &&& !m.parents.contains_key(r)
    &&& kids_of(m, r).len() == 0
    &&& forall|x: u64| !(#[trigger] kids_of(m, x)).contains(ObjectId(r))
    &&& forall|n: Seq<char>| !(#[trigger] named_of(m, n)).contains(ObjectId(r))
}

proof fn lemma_remove_node_unlinks(m: TreeModel, id: u64)
    requires
        linked(m),
    ensures
        linked(model_remove_node(m, id)),
        absent(model_remove_node(m, id), id),
        forall|r: u64| #[trigger] absent(m, r) ==> absent(model_remove_node(m, id), r),
{
    let f = model_remove_node(m, id);
    let has_parent = m.parents.contains_key(id);
    let p = m.parents[id];
    assert forall|x: u64| !(#[trigger] kids_of(f, x)).contains(ObjectId(id)) by {
        if x == id {
        } else if has_parent && x == p.0 {
            lemma_without_excludes(kids_of(m, x), ObjectId(id));
        } else {
            assert(kids_of(f, x) == kids_of(m, x));
            if kids_of(m, x).contains(ObjectId(id)) {
                let k = choose|k: int| 0 <= k < kids_of(m, x).len() && kids_of(m, x)[k] == ObjectId(id);
                assert(m.parents.contains_key(kids_of(m, x)[k].0));
            }
        }
    }
    assert forall|n: Seq<char>| !(#[trigger] named_of(f, n)).contains(ObjectId(id)) by {
        if named_of(m, n).contains(ObjectId(id)) {
            let k = choose|k: int| 0 <= k < named_of(m, n).len() && named_of(m, n)[k] == ObjectId(id);
            assert(has_name(m, named_of(m, n)[k].0, n));
            lemma_without_excludes(named_of(m, n), ObjectId(id));
        } else {
            let s0 = m.objects[id].name;
            if m.objects.contains_key(id) && s0 is Some && n == s0->0@ {
                lemma_without_excludes(named_of(m, n), ObjectId(id));
            }
        }
    }
    assert forall|x: u64, k: int| 0 <= k < kids_of(f, x).len() implies {
        &&& f.parents.contains_key((#[trigger] kids_of(f, x)[k]).0)
        &&& f.parents[kids_of(f, x)[k].0] == ObjectId(x)
    } by {
        let c = kids_of(f, x)[k];
        assert(kids_of(f, x).contains(c));
        assert(c != ObjectId(id));
        if has_parent && x == p.0 && x != id {
            lemma_without_excludes(kids_of(m, x), ObjectId(id));
        }
        assert(kids_of(m, x).contains(c));
        let j = choose|j: int| 0 <= j < kids_of(m, x).len() && kids_of(m, x)[j] == c;
        assert(m.parents.contains_key(kids_of(m, x)[j].0));
    }
    assert forall|n: Seq<char>, k: int| 0 <= k < named_of(f, n).len() implies has_name(
        f,
        (#[trigger] named_of(f, n)[k]).0,
        n,
    ) by {
        let c = named_of(f, n)[k];
        assert(named_of(f, n).contains(c));
        assert(c != ObjectId(id));
        lemma_without_excludes(named_of(m, n), ObjectId(id));
        assert(named_of(m, n).contains(c));
        let j = choose|j: int| 0 <= j < named_of(m, n).len() && named_of(m, n)[j] == c;
        assert(has_name(m, named_of(m, n)[j].0, n));
    }
    assert forall|r: u64| #[trigger] absent(m, r) implies absent(f, r) by {
        assert forall|x: u64| !(#[trigger] kids_of(f, x)).contains(ObjectId(r)) by {
            lemma_without_excludes(kids_of(m, x), ObjectId(id));
        }
        assert forall|n: Seq<char>| !(#[trigger] named_of(f, n)).contains(ObjectId(r)) by {
            lemma_without_excludes(named_of(m, n), ObjectId(id));
        }
        if r != id && has_parent && r == p.0 {
            assert(without(kids_of(m, r), ObjectId(id)) =~= Seq::<ObjectId>::empty());
        }
    }
}

proof fn lemma_remove_all_unlinks(m: TreeModel, ids: Seq<ObjectId>)
    requires
        linked(m),
    ensures
        linked(model_remove_all(m, ids)),
        forall|k: int| 0 <= k < ids.len() ==> absent(model_remove_all(m, ids), (#[trigger] ids[k]).0),
    decreases ids.len(),
{
    if ids.len() > 0 {
        let front = ids.drop_last();
        lemma_remove_all_unlinks(m, front);
        let prev = model_remove_all(m, front);
        lemma_remove_node_unlinks(prev, ids.last().0);
        assert forall|k: int| 0 <= k < ids.len() implies absent(model_remove_all(m, ids), (#[trigger] ids[k]).0) by {
            if k < ids.len() - 1 {
                assert(ids[k] == front[k]);
                assert(absent(prev, front[k].0));
            }
        }
    }
}

/// On a tree whose children lists and name buckets agree with the objects, destroying
/// a finite subtree leaves no trace of any removed object: no parent link, no children
/// list of its own, no entry in any children list or name bucket; and the tree still
/// agrees.
pub proof fn law_destroy_unlinks(m: TreeModel, id: u64)
    requires
        linked(m),
        finite_subtree(m, id),
    ensures
        linked(model_remove_all(m, subtree_post_order(m, id))),
        forall|k: int|
            0 <= k < subtree_post_order(m, id).len() ==> absent(
                model_remove_all(m, subtree_post_order(m, id)),
                (#[trigger] subtree_post_order(m, id)[k]).0,
            ),
{
    lemma_remove_all_unlinks(m, subtree_post_order(m, id));
}

/// Inserting an object under an id that has left no trace keeps children lists and
/// name buckets in agreement with the objects.
pub proof fn law_insert_keeps_linked(m: TreeModel, base: ObjectBase, parent: Option<ObjectId>)
    requires
        linked(m),
        absent(m, base.id.0),
    ensures
        linked(model_insert(m, base, parent)),
{
    let f = model_insert(m, base, parent);
    let id = base.id;
    assert forall|x: u64, k: int| 0 <= k < kids_of(f, x).len() implies {
        &&& f.parents.contains_key((#[trigger] kids_of(f, x)[k]).0)
        &&& f.parents[kids_of(f, x)[k].0] == ObjectId(x)
    } by {
        if parent == Some(ObjectId(x)) && k == kids_of(m, x).len() {
            assert(kids_of(f, x)[k] == id);
        } else {
            assert(kids_of(f, x)[k] == kids_of(m, x)[k]);
            assert(kids_of(m, x).contains(kids_of(m, x)[k]));
            assert(m.parents.contains_key(kids_of(m, x)[k].0));
        }
    }
    assert forall|n: Seq<char>, k: int| 0 <= k < named_of(f, n).len() implies has_name(
        f,
        (#[trigger] named_of(f, n)[k]).0,
        n,
    ) by {
        if name_view(base.name) == Some(n) && k == named_of(m, n).len() {
            assert(named_of(f, n)[k] == id);
        } else {
            assert(named_of(f, n)[k] == named_of(m, n)[k]);
            assert(has_name(m, named_of(m, n)[k].0, n));
        }
    }
}

/// Reparenting keeps children lists in agreement with the parent links.
pub proof fn law_reparent_keeps_linked(m: TreeModel, id: u64, new_parent: Option<ObjectId>)
    requires
        linked(m),
    ensures
        linked(model_reparent(m, id, new_parent)),
{
    let d = model_detach(m, id);
    let f = model_reparent(m, id, new_parent);
    let has_parent = m.parents.contains_key(id);
    let op = m.parents[id];
    assert forall|x: u64, k: int| 0 <= k < kids_of(d, x).len() implies {
        &&& d.parents.contains_key((#[trigger] kids_of(d, x)[k]).0)
        &&& d.parents[kids_of(d, x)[k].0] == ObjectId(x)
    } by {
        let c = kids_of(d, x)[k];
        assert(kids_of(d, x).contains(c));
        if has_parent && x == op.0 {
            lemma_without_excludes(kids_of(m, x), ObjectId(id));
        } else if kids_of(m, x).contains(ObjectId(id)) {
            let j = choose|j: int| 0 <= j < kids_of(m, x).len() && kids_of(m, x)[j] == ObjectId(id);
            assert(m.parents.contains_key(kids_of(m, x)[j].0));
        }
        assert(kids_of(m, x).contains(c));
        let j = choose|j: int| 0 <= j < kids_of(m, x).len() && kids_of(m, x)[j] == c;
        assert(m.parents.contains_key(kids_of(m, x)[j].0));
        assert(c != ObjectId(id)) by {
            if c == ObjectId(id) {
                if has_parent && x == op.0 {
                } else {
                    assert(m.parents[kids_of(m, x)[j].0] == ObjectId(x));
                }
            }
        }
    }
    match new_parent {
        Some(p) => {
            assert forall|x: u64, k: int| 0 <= k < kids_of(f, x).len() implies {
                &&& f.parents.contains_key((#[trigger] kids_of(f, x)[k]).0)
                &&& f.parents[kids_of(f, x)[k].0] == ObjectId(x)
            } by {
                if x == p.0 && k == kids_of(d, x).len() {
                    assert(kids_of(f, x)[k] == ObjectId(id));
                } else {
                    assert(kids_of(f, x)[k] == kids_of(d, x)[k]);
                }
            }
            assert forall|n: Seq<char>, k: int| 0 <= k < named_of(f, n).len() implies has_name(
                f,
                (#[trigger] named_of(f, n)[k]).0,
                n,
            ) by {
                assert(has_name(m, named_of(m, n)[k].0, n));
            }
        },
        None => {
            assert forall|n: Seq<char>, k: int| 0 <= k < named_of(f, n).len() implies has_name(
                f,
                (#[trigger] named_of(f, n)[k]).0,
                n,
            ) by {
                assert(has_name(m, named_of(m, n)[k].0, n));
            }
        },
    }
}

/// Renaming keeps name buckets in agreement with the objects.
pub proof fn law_rename_keeps_linked(m: TreeModel, id: u64, new_name: String)
    requires
        linked(m),
        m.objects.contains_key(id),
    ensures
        linked(model_rename(m, id, new_name)),
{
    let f = model_rename(m, id, new_name);
    assert forall|n: Seq<char>, k: int| 0 <= k < named_of(f, n).len() implies has_name(
        f,
        (#[trigger] named_of(f, n)[k]).0,
        n,
    ) by {
        let old_bucket = match m.objects[id].name {
            Some(o) => if n == o@ {
                without(named_of(m, n), ObjectId(id))
            } else {
                named_of(m, n)
            },
            None => named_of(m, n),
        };
        lemma_without_excludes(named_of(m, n), ObjectId(id));
        if n == new_name@ && k == old_bucket.len() {
            assert(named_of(f, n)[k] == ObjectId(id));
        } else {
            let c = named_of(f, n)[k];
            assert(old_bucket[k] == c);
            assert(old_bucket.contains(c));
            assert(named_of(m, n).contains(c));
            let j = choose|j: int| 0 <= j < named_of(m, n).len() && named_of(m, n)[j] == c;
            assert(has_name(m, named_of(m, n)[j].0, n));
            if c == ObjectId(id) {
                assert(m.objects[id].name is Some && n == m.objects[id].name->0@);
            }
        }
    }
    assert forall|x: u64, k: int| 0 <= k < kids_of(f, x).len() implies {
        &&& f.parents.contains_key((#[trigger] kids_of(f, x)[k]).0)
        &&& f.parents[kids_of(f, x)[k].0] == ObjectId(x)
    } by {
        assert(kids_of(f, x)[k] == kids_of(m, x)[k]);
    }
}

/// Clearing a name keeps name buckets in agreement with the objects.
pub proof fn law_clear_name_keeps_linked(m: TreeModel, id: u64)
    requires
        linked(m),
        m.objects.contains_key(id),
        m.objects[id].name is Some,
    ensures
        linked(model_clear_name(m, id, m.objects[id].name->0@)),
{
    let o = m.objects[id].name->0@;
    let g = model_clear_name(m, id, o);
    assert forall|n: Seq<char>, k: int| 0 <= k < named_of(g, n).len() implies has_name(
        g,
        (#[trigger] named_of(g, n)[k]).0,
        n,
    ) by {
        lemma_without_excludes(named_of(m, n), ObjectId(id));
        let c = named_of(g, n)[k];
        assert(named_of(g, n).contains(c));
        assert(named_of(m, n).contains(c));
        let j = choose|j: int| 0 <= j < named_of(m, n).len() && named_of(m, n)[j] == c;
        assert(has_name(m, named_of(m, n)[j].0, n));
    }
    assert forall|x: u64, k: int| 0 <= k < kids_of(g, x).len() implies {
        &&& g.parents.contains_key((#[trigger] kids_of(g, x)[k]).0)
        &&& g.parents[kids_of(g, x)[k].0] == ObjectId(x)
    } by {
        assert(kids_of(g, x)[k] == kids_of(m, x)[k]);
    }
}

/// Every id found by a by-name search carries the searched name.
pub proof fn law_carrying_sound(m: TreeModel, s: Seq<ObjectId>, n: Seq<char>)
    ensures
        forall|i: int| 0 <= i < carrying(m, s, n).len() ==> has_name(m, #[trigger] carrying(m, s, n)[i].0, n),
        forall|i: int| 0 <= i < carrying(m, s, n).len() ==> s.contains(#[trigger] carrying(m, s, n)[i]),
    decreases s.len(),
{
    if s.len() > 0 {
        law_carrying_sound(m, s.drop_last(), n);
        let r = carrying(m, s.drop_last(), n);
        assert forall|i: int| 0 <= i < carrying(m, s, n).len() implies s.contains(#[trigger] carrying(m, s, n)[i]) by {
            if i < r.len() {
                assert(carrying(m, s, n)[i] == r[i]);
                let k = choose|k: int| 0 <= k < s.drop_last().len() && s.drop_last()[k] == r[i];
                assert(s[k] == r[i]);
            } else {
                assert(s[s.len() - 1] == carrying(m, s, n)[i]);
            }
        }
        assert forall|i: int| 0 <= i < carrying(m, s, n).len() implies has_name(m, #[trigger] carrying(m, s, n)[i].0, n) by {
            if i < r.len() {
                assert(carrying(m, s, n)[i] == r[i]);
            }
        }
    }
}

} // verus!
