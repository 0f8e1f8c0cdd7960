//! Paint traversal of a widget tree: which widgets are drawn, in which order, and how
//! the painter is saved, translated and restored around each child.
//!
//! The traversal produces a plan of [`PaintOp`]s; the caller runs it against the
//! active style and painter.
use std::collections::HashMap;

use vstd::prelude::*;

use crate::ids::ObjectId;
use crate::renderer::events::Point;

verus! {

broadcast use vstd::std_specs::hash::group_hash_axioms;

/// What the traversal reads of a widget.
#[derive(Debug, PartialEq, Eq)]
pub struct WidgetNode {
    /// Whether the widget is visible; hidden widgets and their subtrees are skipped.
    pub visible: bool,
    /// Top-left of the widget in its parent's coordinates.
    pub origin: Point,
    /// Child widgets, in paint order (a scroll area lists its content widget).
    pub children: Vec<ObjectId>,
}

/// One step of a paint plan.
#[derive(Clone, Copy, Debug, PartialEq, Eq, Structural)]
pub enum PaintOp {
    /// Let the style draw the widget at the painter's current origin.
    Draw(ObjectId),
    /// Save the painter state.
    Save,
    /// Move the painter origin by the given offset.
    Translate(Point),
    /// Restore the last saved painter state.
    Restore,
}

/// The widgets known to a traversal, by id.
#[derive(Debug)]
pub struct WidgetTable {
    nodes: HashMap<u64, WidgetNode>,
}

impl View for WidgetTable {
    type V = Map<u64, WidgetNode>;

    closed spec fn view(&self) -> Map<u64, WidgetNode> {
        self.nodes@
    }
}

/// True when `id` resolves to a visible widget.
pub open spec fn shown(m: Map<u64, WidgetNode>, id: u64) -> bool {
    m.contains_key(id) && m[id].visible
}

/// True when every chain of visible widgets below `id` is shorter than `fuel`.
pub open spec fn bounded(m: Map<u64, WidgetNode>, id: u64, fuel: nat) -> bool
    decreases fuel,
{
    fuel > 0 && (shown(m, id) ==> forall|i: int|
        0 <= i < m[id].children@.len() ==> bounded(m, #[trigger] m[id].children@[i].0, (fuel - 1) as nat))
}

/// True when the visible part of the tree below `id` has finite depth (no visible
/// child chain from `id` loops back).
pub open spec fn finite_depth(m: Map<u64, WidgetNode>, id: u64) -> bool {
    exists|fuel: nat| bounded(m, id, fuel)
}

/// Plan for the subtree at `id`, cut off after `fuel` levels: nothing for an unknown
/// or hidden widget; otherwise the widget itself, then its visible children.
pub open spec fn plan(m: Map<u64, WidgetNode>, id: u64, fuel: nat) -> Seq<PaintOp>
    decreases fuel, 0nat,
{
    if fuel == 0 || !shown(m, id) {
        Seq::empty()
    } else {
        seq![PaintOp::Draw(ObjectId(id))] + child_plans(m, m[id].children@, (fuel - 1) as nat)
    }
}

/// Plans of the children `cs` in order; each visible child is wrapped in
/// save / translate-to-its-origin / restore.
pub open spec fn child_plans(m: Map<u64, WidgetNode>, cs: Seq<ObjectId>, fuel: nat) -> Seq<PaintOp>
    decreases fuel, cs.len(),
{
    if cs.len() == 0 {
        Seq::empty()
    } else {
        let c = cs.last().0;
        child_plans(m, cs.drop_last(), fuel) + if shown(m, c) {
            seq![PaintOp::Save, PaintOp::Translate(m[c].origin)] + plan(m, c, fuel) + seq![PaintOp::Restore]
        } else {
            Seq::empty()
        }
    }
}

/// The full paint plan of the finite-depth subtree at `root`.
pub open spec fn paint_plan(m: Map<u64, WidgetNode>, root: u64) -> Seq<PaintOp> {
    plan(m, root, choose|fuel: nat| bounded(m, root, fuel))
}

impl WidgetTable {
    /// A table with no widget.
    pub fn new() -> (r: WidgetTable)
        ensures
            r@ == Map::<u64, WidgetNode>::empty(),
    {
        WidgetTable { nodes: HashMap::new() }
    }

    /// Records (or replaces) the widget `id`.
    pub fn insert(&mut self, id: ObjectId, node: WidgetNode)
        ensures
            final(self)@ == old(self)@.insert(id.0, node),
    {
        self.nodes.insert(id.0, node);
    }

    /// The widget `id`, if known.
    pub fn resolve(&self, id: ObjectId) -> (r: Option<&WidgetNode>)
        ensures
            r is Some <==> self@.contains_key(id.0),
            r matches Some(n) ==> *n == self@[id.0],
    {
        self.nodes.get(&id.0)
    }

    /// Appends the plan of the subtree at `id` to `out`.
    fn visit(&self, id: ObjectId, out: &mut Vec<PaintOp>, Ghost(fuel): Ghost<nat>)
        requires
            bounded(self@, id.0, fuel),
        ensures
            final(out)@ == old(out)@ + plan(self@, id.0, fuel),
        decreases fuel,
    {
        let ghost start = out@;
        let widget = match self.nodes.get(&id.0) {
            Some(w) => w,
            None => {
                assert(out@ =~= start + plan(self@, id.0, fuel));
                return;
            },
        };
        if !widget.visible {
            assert(out@ =~= start + plan(self@, id.0, fuel));
            return;
        }
        out.push(PaintOp::Draw(id));
        let ghost head = out@;
        let mut i: usize = 0;
        while i < widget.children.len()
            invariant
                i <= widget.children@.len(),
                *widget == self@[id.0],
                shown(self@, id.0),
                bounded(self@, id.0, fuel),
                head == start + seq![PaintOp::Draw(id)],
                out@ == head + child_plans(self@, widget.children@.take(i as int), (fuel - 1) as nat),
            decreases widget.children@.len() - i,
        {
            let child_id = widget.children[i];
            let ghost cs = widget.children@.take(i as int + 1);
            assert(cs.drop_last() =~= widget.children@.take(i as int));
            assert(cs.last() == child_id);
            let ghost before = out@;
            match self.nodes.get(&child_id.0) {
                Some(child) => {
                    if child.visible {
                        out.push(PaintOp::Save);
                        out.push(PaintOp::Translate(child.origin));
                        assert(bounded(self@, widget.children@[i as int].0, (fuel - 1) as nat));
                        self.visit(child_id, out, Ghost((fuel - 1) as nat));
                        out.push(PaintOp::Restore);
                        assert(out@ =~= before + (seq![PaintOp::Save, PaintOp::Translate(self@[child_id.0].origin)]
                            + plan(self@, child_id.0, (fuel - 1) as nat) + seq![PaintOp::Restore]));
                    }
                },
                None => {},
            }
            assert(out@ =~= head + child_plans(self@, cs, (fuel - 1) as nat));
            i = i + 1;
        }
        assert(widget.children@.take(widget.children@.len() as int) =~= widget.children@);
        assert(out@ =~= start + plan(self@, id.0, fuel));
    }
}

/// Plans the painting of the widget subtree at `root`: depth-first, parent before
/// children; hidden or unknown widgets are skipped with their subtrees; every drawn
/// non-root child is wrapped in save / translate-to-its-origin / restore. With no
/// style installed nothing is painted.
pub fn dispatch_paint(root: ObjectId, widgets: &WidgetTable, style_installed: bool) -> (r: Vec<PaintOp>)
    requires
        finite_depth(widgets@, root.0),
    ensures
        !style_installed ==> r@ == Seq::<PaintOp>::empty(),
        style_installed ==> r@ == paint_plan(widgets@, root.0),
{
    let mut out: Vec<PaintOp> = Vec::new();
    if !style_installed {
        return out;
    }
    let ghost fuel = choose|fuel: nat| bounded(widgets@, root.0, fuel);
    widgets.visit(root, &mut out, Ghost(fuel));
    assert(out@ =~= paint_plan(widgets@, root.0));
    out
}

/// Number of times `op` occurs in `s`.
pub open spec fn occurrences(s: Seq<PaintOp>, op: PaintOp) -> nat
    decreases s.len(),
{
    if s.len() == 0 {
        0
    } else {
        occurrences(s.drop_last(), op) + if s.last() == op {
            1nat
        } else {
            0nat
        }
    }
}

proof fn lemma_occurrences_concat(a: Seq<PaintOp>, b: Seq<PaintOp>, op: PaintOp)
    ensures
        occurrences(a + b, op) == occurrences(a, op) + occurrences(b, op),
    decreases b.len(),
{
    if b.len() == 0 {
        assert(a + b =~= a);
    } else {
        lemma_occurrences_concat(a, b.drop_last(), op);
        assert((a + b).drop_last() =~= a + b.drop_last());
    }
}

proof fn lemma_occurrences_single(x: PaintOp, op: PaintOp)
    ensures
        occurrences(seq![x], op) == if x == op {
            1nat
        } else {
            0nat
        },
{
    let s = seq![x];
    assert(s.drop_last() =~= Seq::<PaintOp>::empty());
    assert(occurrences(s.drop_last(), op) == 0);
    assert(s.last() == x);
}

/// Saves minus restores in `s`.
pub open spec fn save_depth(s: Seq<PaintOp>) -> int {
    occurrences(s, PaintOp::Save) - occurrences(s, PaintOp::Restore)
}

/// Every restore of `s` closes an earlier save, and every save is closed by the end.
pub open spec fn well_nested(s: Seq<PaintOp>) -> bool {
    &&& save_depth(s) == 0
    &&& forall|k: int| 0 <= k <= s.len() ==> save_depth(#[trigger] s.take(k)) >= 0
}

proof fn lemma_nested_concat(a: Seq<PaintOp>, b: Seq<PaintOp>)
    requires
        well_nested(a),
        well_nested(b),
    ensures
        well_nested(a + b),
{
    let ab = a + b;
    lemma_occurrences_concat(a, b, PaintOp::Save);
    lemma_occurrences_concat(a, b, PaintOp::Restore);
    assert forall|k: int| 0 <= k <= ab.len() implies save_depth(#[trigger] ab.take(k)) >= 0 by {
        if k <= a.len() {
            assert(ab.take(k) =~= a.take(k));
        } else {
            let bk = b.take(k - a.len());
            assert(ab.take(k) =~= a + bk);
            assert(save_depth(b.take(k - a.len())) >= 0);
            lemma_occurrences_concat(a, bk, PaintOp::Save);
            lemma_occurrences_concat(a, bk, PaintOp::Restore);
            assert(a.take(a.len() as int) =~= a);
        }
    }
}

proof fn lemma_nested_empty()
    ensures
        well_nested(Seq::<PaintOp>::empty()),
{
    assert forall|k: int| 0 <= k <= 0 implies save_depth(#[trigger] Seq::<PaintOp>::empty().take(k)) >= 0 by {
        assert(Seq::<PaintOp>::empty().take(k) =~= Seq::<PaintOp>::empty());
    }
}

proof fn lemma_nested_draw(id: ObjectId)
    ensures
        well_nested(seq![PaintOp::Draw(id)]),
{
    let d = seq![PaintOp::Draw(id)];
    lemma_occurrences_single(PaintOp::Draw(id), PaintOp::Save);
    lemma_occurrences_single(PaintOp::Draw(id), PaintOp::Restore);
    assert forall|k: int| 0 <= k <= d.len() implies save_depth(#[trigger] d.take(k)) >= 0 by {
        if k == 0 {
            assert(d.take(k) =~= Seq::<PaintOp>::empty());
        } else {
            assert(d.take(k) =~= d);
        }
    }
}

proof fn lemma_nested_wrap(o: Point, inner: Seq<PaintOp>)
    requires
        well_nested(inner),
    ensures
        well_nested(seq![PaintOp::Save, PaintOp::Translate(o)] + inner + seq![PaintOp::Restore]),
{
    let open = seq![PaintOp::Save, PaintOp::Translate(o)];
    let close = seq![PaintOp::Restore];
    let w = open + inner + close;
    assert(open =~= seq![PaintOp::Save] + seq![PaintOp::Translate(o)]);
    lemma_occurrences_single(PaintOp::Save, PaintOp::Save);
    lemma_occurrences_single(PaintOp::Save, PaintOp::Restore);
    lemma_occurrences_single(PaintOp::Translate(o), PaintOp::Save);
    lemma_occurrences_single(PaintOp::Translate(o), PaintOp::Restore);
    lemma_occurrences_single(PaintOp::Restore, PaintOp::Save);
    lemma_occurrences_single(PaintOp::Restore, PaintOp::Restore);
    lemma_occurrences_concat(seq![PaintOp::Save], seq![PaintOp::Translate(o)], PaintOp::Save);
    lemma_occurrences_concat(seq![PaintOp::Save], seq![PaintOp::Translate(o)], PaintOp::Restore);
    lemma_occurrences_concat(open, inner, PaintOp::Save);
    lemma_occurrences_concat(open, inner, PaintOp::Restore);
    lemma_occurrences_concat(open + inner, close, PaintOp::Save);
    lemma_occurrences_concat(open + inner, close, PaintOp::Restore);
    assert forall|k: int| 0 <= k <= w.len() implies save_depth(#[trigger] w.take(k)) >= 0 by {
        if k == 0 {
            assert(w.take(k) =~= Seq::<PaintOp>::empty());
        } else if k == 1 {
            assert(w.take(k) =~= seq![PaintOp::Save]);
        } else if k <= 2 + inner.len() {
            let ik = inner.take(k - 2);
            assert(w.take(k) =~= open + ik);
            assert(save_depth(inner.take(k - 2)) >= 0);
            lemma_occurrences_concat(open, ik, PaintOp::Save);
            lemma_occurrences_concat(open, ik, PaintOp::Restore);
        } else {
            assert(w.take(k) =~= w);
        }
    }
}

proof fn lemma_plan_nested(m: Map<u64, WidgetNode>, id: u64, fuel: nat)
    ensures
        well_nested(plan(m, id, fuel)),
    decreases fuel, 0nat,
{
    if fuel > 0 && shown(m, id) {
        lemma_nested_draw(ObjectId(id));
        lemma_child_plans_nested(m, m[id].children@, (fuel - 1) as nat);
        lemma_nested_concat(seq![PaintOp::Draw(ObjectId(id))], child_plans(m, m[id].children@, (fuel - 1) as nat));
    } else {
        lemma_nested_empty();
    }
}

proof fn lemma_child_plans_nested(m: Map<u64, WidgetNode>, cs: Seq<ObjectId>, fuel: nat)
    ensures
        well_nested(child_plans(m, cs, fuel)),
    decreases fuel, cs.len(),
{
    if cs.len() == 0 {
        lemma_nested_empty();
    } else {
        let c = cs.last().0;
        lemma_child_plans_nested(m, cs.drop_last(), fuel);
        if shown(m, c) {
            lemma_plan_nested(m, c, fuel);
            lemma_nested_wrap(m[c].origin, plan(m, c, fuel));
            lemma_nested_concat(
                child_plans(m, cs.drop_last(), fuel),
                seq![PaintOp::Save, PaintOp::Translate(m[c].origin)] + plan(m, c, fuel) + seq![PaintOp::Restore],
            );
        } else {
            assert(child_plans(m, cs, fuel) =~= child_plans(m, cs.drop_last(), fuel));
        }
    }
}

/// A paint plan never restores a painter state it did not save, and restores every
/// state it saved: each prefix holds at least as many saves as restores, and the
/// whole plan as many of each.
pub proof fn law_paint_plan_nested(m: Map<u64, WidgetNode>, root: u64)
    ensures
        well_nested(paint_plan(m, root)),
{
    lemma_plan_nested(m, root, choose|fuel: nat| bounded(m, root, fuel));
}

proof fn lemma_plan_draws_shown(m: Map<u64, WidgetNode>, id: u64, fuel: nat)
    ensures
        forall|k: int|
            0 <= k < plan(m, id, fuel).len() ==> (#[trigger] plan(m, id, fuel)[k] matches PaintOp::Draw(w)
                ==> shown(m, w.0)),
    decreases fuel, 0nat,
{
    if fuel > 0 && shown(m, id) {
        let d = seq![PaintOp::Draw(ObjectId(id))];
        let rest = child_plans(m, m[id].children@, (fuel - 1) as nat);
        lemma_child_plans_draws_shown(m, m[id].children@, (fuel - 1) as nat);
        assert forall|k: int| 0 <= k < (d + rest).len() implies (#[trigger] (d + rest)[k] matches PaintOp::Draw(w)
            ==> shown(m, w.0)) by {
            if k >= 1 {
                assert((d + rest)[k] == rest[k - 1]);
            }
        }
    }
}

proof fn lemma_child_plans_draws_shown(m: Map<u64, WidgetNode>, cs: Seq<ObjectId>, fuel: nat)
    ensures
        forall|k: int|
            0 <= k < child_plans(m, cs, fuel).len() ==> (#[trigger] child_plans(m, cs, fuel)[k] matches PaintOp::Draw(
                w,
            ) ==> shown(m, w.0)),
    decreases fuel, cs.len(),
{
    if cs.len() > 0 {
        let c = cs.last().0;
        let front = child_plans(m, cs.drop_last(), fuel);
        lemma_child_plans_draws_shown(m, cs.drop_last(), fuel);
        if shown(m, c) {
            let open = seq![PaintOp::Save, PaintOp::Translate(m[c].origin)];
            let inner = plan(m, c, fuel);
            let close = seq![PaintOp::Restore];
            lemma_plan_draws_shown(m, c, fuel);
            let all = front + (open + inner + close);
            assert(all =~= child_plans(m, cs, fuel));
            assert forall|k: int| 0 <= k < all.len() implies (#[trigger] all[k] matches PaintOp::Draw(w) ==> shown(m, w.0)) by {
                if k < front.len() {
                    assert(all[k] == front[k]);
                } else if k < front.len() + 2 {
                } else if k < front.len() + 2 + inner.len() {
                    assert(all[k] == inner[k - front.len() - 2]);
                }
            }
        } else {
            assert(child_plans(m, cs, fuel) =~= front);
        }
    }
}

/// Only visible widgets are drawn, and a visible root is drawn first; a hidden or
/// unknown root paints nothing.
pub proof fn law_paint_plan_draws_visible(m: Map<u64, WidgetNode>, root: u64)
    requires
        finite_depth(m, root),
    ensures
        forall|k: int|
            0 <= k < paint_plan(m, root).len() ==> (#[trigger] paint_plan(m, root)[k] matches PaintOp::Draw(w)
                ==> shown(m, w.0)),
        shown(m, root) ==> paint_plan(m, root)[0] == PaintOp::Draw(ObjectId(root)),
        !shown(m, root) ==> paint_plan(m, root) == Seq::<PaintOp>::empty(),
{
    let fuel = choose|fuel: nat| bounded(m, root, fuel);
    lemma_plan_draws_shown(m, root, fuel);
}

proof fn lemma_child_plans_draw_each(m: Map<u64, WidgetNode>, cs: Seq<ObjectId>, fuel: nat, k: int)
    requires
        fuel > 0,
        0 <= k < cs.len(),
        shown(m, cs[k].0),
    ensures
        child_plans(m, cs, fuel).contains(PaintOp::Draw(cs[k])),
    decreases cs.len(),
{
    let front = child_plans(m, cs.drop_last(), fuel);
    let all = child_plans(m, cs, fuel);
    if k < cs.len() - 1 {
        assert(cs.drop_last()[k] == cs[k]);
        lemma_child_plans_draw_each(m, cs.drop_last(), fuel, k);
        let j = choose|j: int| 0 <= j < front.len() && front[j] == PaintOp::Draw(cs[k]);
        let c = cs.last().0;
        if shown(m, c) {
            let block = seq![PaintOp::Save, PaintOp::Translate(m[c].origin)] + plan(m, c, fuel) + seq![PaintOp::Restore];
            assert(all == front + block);
            assert(all[j] == front[j]);
        } else {
            assert(all == front + Seq::<PaintOp>::empty());
            assert(all[j] == front[j]);
        }
    } else {
        let c = cs.last().0;
        assert(cs[k] == cs.last());
        let inner = plan(m, c, fuel);
        assert(inner[0] == PaintOp::Draw(ObjectId(c)));
        let block = seq![PaintOp::Save, PaintOp::Translate(m[c].origin)] + inner + seq![PaintOp::Restore];
        assert(all == front + block);
        assert(block[2] == inner[0]);
        assert(all[front.len() as int + 2] == block[2]);
        assert(ObjectId(c) == cs[k]);
    }
}

/// Every visible child of a drawn widget is drawn, whatever its siblings are: a child
/// is left out of the plan only when it is itself unknown or hidden.
pub proof fn law_visible_children_drawn(m: Map<u64, WidgetNode>, root: u64)
    requires
        finite_depth(m, root),
        shown(m, root),
    ensures
        forall|k: int|
            0 <= k < m[root].children@.len() && shown(m, (#[trigger] m[root].children@[k]).0) ==> paint_plan(
                m,
                root,
            ).contains(PaintOp::Draw(m[root].children@[k])),
{
    let fuel = choose|fuel: nat| bounded(m, root, fuel);
    let cs = m[root].children@;
    assert forall|k: int| 0 <= k < cs.len() && shown(m, (#[trigger] cs[k]).0) implies paint_plan(m, root).contains(
        PaintOp::Draw(cs[k]),
    ) by {
        assert(bounded(m, cs[k].0, (fuel - 1) as nat));
        lemma_child_plans_draw_each(m, cs, (fuel - 1) as nat, k);
        let rest = child_plans(m, cs, (fuel - 1) as nat);
        let p = paint_plan(m, root);
        assert(p == seq![PaintOp::Draw(ObjectId(root))] + rest);
        let j = choose|j: int| 0 <= j < rest.len() && rest[j] == PaintOp::Draw(cs[k]);
        assert(p[j + 1] == rest[j]);
    }
}

} // verus!
