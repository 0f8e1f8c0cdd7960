use quartzite::ids::ObjectId;
use quartzite::renderer::events::Point;
use quartzite::style_dispatch::{dispatch_paint, PaintOp, WidgetNode, WidgetTable};

fn node(visible: bool, x: i32, y: i32, children: &[u64]) -> WidgetNode {
    WidgetNode { visible, origin: Point { x, y }, children: children.iter().map(|c| ObjectId(*c)).collect() }
}

fn count_draws(ops: &[PaintOp]) -> usize {
    ops.iter().filter(|o| matches!(o, PaintOp::Draw(_))).count()
}

fn saves_and_restores_balanced(ops: &[PaintOp]) -> bool {
    let saves = ops.iter().filter(|o| matches!(o, PaintOp::Save)).count();
    let restores = ops.iter().filter(|o| matches!(o, PaintOp::Restore)).count();
    saves == restores
}

#[test]
fn dispatch_paint_invokes_draw_widget_once_per_visible_widget() {
    let mut t = WidgetTable::new();
    t.insert(ObjectId(1), node(true, 0, 0, &[]));
    let ops = dispatch_paint(ObjectId(1), &t, true);
    assert_eq!(count_draws(&ops), 1);
    assert!(saves_and_restores_balanced(&ops));
}

#[test]
fn hidden_root_produces_zero_paints() {
    let mut t = WidgetTable::new();
    t.insert(ObjectId(1), node(false, 0, 0, &[]));
    assert!(dispatch_paint(ObjectId(1), &t, true).is_empty());
}

#[test]
fn hidden_subtree_skipped_with_no_save_or_translate() {
    let mut t = WidgetTable::new();
    t.insert(ObjectId(1), node(true, 0, 0, &[2]));
    t.insert(ObjectId(2), node(false, 5, 5, &[3]));
    t.insert(ObjectId(3), node(true, 1, 1, &[]));
    let ops = dispatch_paint(ObjectId(1), &t, true);
    assert_eq!(count_draws(&ops), 1);
    assert!(!ops.contains(&PaintOp::Save));
    assert!(!ops.contains(&PaintOp::Restore));
}

#[test]
fn depth_first_parent_before_child_order() {
    let mut t = WidgetTable::new();
    t.insert(ObjectId(1), node(true, 0, 0, &[2, 3]));
    t.insert(ObjectId(2), node(true, 0, 0, &[]));
    t.insert(ObjectId(3), node(true, 0, 0, &[4]));
    t.insert(ObjectId(4), node(true, 0, 0, &[]));
    let ops = dispatch_paint(ObjectId(1), &t, true);
    assert_eq!(count_draws(&ops), 4);
    assert!(saves_and_restores_balanced(&ops));
    let drawn: Vec<ObjectId> = ops
        .iter()
        .filter_map(|o| match o {
            PaintOp::Draw(id) => Some(*id),
            _ => None,
        })
        .collect();
    assert_eq!(drawn, vec![ObjectId(1), ObjectId(2), ObjectId(3), ObjectId(4)]);
}

#[test]
fn save_translate_restore_wraps_each_non_root_child() {
    let mut t = WidgetTable::new();
    t.insert(ObjectId(1), node(true, 0, 0, &[2]));
    t.insert(ObjectId(2), node(true, 10, 20, &[]));
    let ops = dispatch_paint(ObjectId(1), &t, true);
    assert_eq!(
        ops,
        vec![
            PaintOp::Draw(ObjectId(1)),
            PaintOp::Save,
            PaintOp::Translate(Point { x: 10, y: 20 }),
            PaintOp::Draw(ObjectId(2)),
            PaintOp::Restore,
        ]
    );
}

#[test]
fn scroll_area_without_content_paints_only_chrome() {
    let mut t = WidgetTable::new();
    t.insert(ObjectId(1), node(true, 0, 0, &[]));
    let ops = dispatch_paint(ObjectId(1), &t, true);
    assert_eq!(count_draws(&ops), 1);
    assert!(saves_and_restores_balanced(&ops));
}

#[test]
fn scroll_area_with_content_paints_chrome_and_content() {
    let mut t = WidgetTable::new();
    t.insert(ObjectId(1), node(true, 0, 0, &[2]));
    t.insert(ObjectId(2), node(true, 0, 0, &[]));
    let ops = dispatch_paint(ObjectId(1), &t, true);
    assert_eq!(count_draws(&ops), 2);
    assert!(saves_and_restores_balanced(&ops));
}

#[test]
fn unknown_widget_type_paints_once_no_recursion() {
    let mut t = WidgetTable::new();
    t.insert(ObjectId(1), node(true, 0, 0, &[]));
    let ops = dispatch_paint(ObjectId(1), &t, true);
    assert_eq!(count_draws(&ops), 1);
    assert!(!ops.contains(&PaintOp::Save));
}

#[test]
fn no_style_installed_is_noop() {
    let mut t = WidgetTable::new();
    t.insert(ObjectId(1), node(true, 0, 0, &[]));
    assert!(dispatch_paint(ObjectId(1), &t, false).is_empty());
}

#[test]
fn resolver_miss_mid_tree_skips_subtree() {
    let mut t = WidgetTable::new();
    t.insert(ObjectId(1), node(true, 0, 0, &[2, 3, 4]));
    t.insert(ObjectId(2), node(true, 0, 0, &[]));
    t.insert(ObjectId(4), node(true, 0, 0, &[]));
    let ops = dispatch_paint(ObjectId(1), &t, true);
    assert_eq!(count_draws(&ops), 3);
    assert!(saves_and_restores_balanced(&ops));
    assert!(!ops.contains(&PaintOp::Draw(ObjectId(3))));
}

#[test]
fn resolver_miss_on_root_produces_zero_paints() {
    let t = WidgetTable::new();
    assert!(dispatch_paint(ObjectId(1), &t, true).is_empty());
}

#[test]
fn nested_translations_are_relative() {
    let mut t = WidgetTable::new();
    t.insert(ObjectId(1), node(true, 0, 0, &[2]));
    t.insert(ObjectId(2), node(true, 3, 4, &[3]));
    t.insert(ObjectId(3), node(true, 5, 6, &[]));
    let ops = dispatch_paint(ObjectId(1), &t, true);
    assert_eq!(
        ops,
        vec![
            PaintOp::Draw(ObjectId(1)),
            PaintOp::Save,
            PaintOp::Translate(Point { x: 3, y: 4 }),
            PaintOp::Draw(ObjectId(2)),
            PaintOp::Save,
            PaintOp::Translate(Point { x: 5, y: 6 }),
            PaintOp::Draw(ObjectId(3)),
            PaintOp::Restore,
            PaintOp::Restore,
        ]
    );
}

#[test]
fn resolve_finds_inserted_widget() {
    let mut t = WidgetTable::new();
    t.insert(ObjectId(7), node(true, 1, 2, &[8]));
    assert_eq!(t.resolve(ObjectId(7)), Some(&node(true, 1, 2, &[8])));
    assert!(t.resolve(ObjectId(8)).is_none());
}
