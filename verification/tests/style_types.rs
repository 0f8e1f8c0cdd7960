use std::collections::hash_map::RandomState;
use std::hash::BuildHasher;

use quartzite::style_types::{ColorGroup, ColorRole, Palette, GROUP_COUNT, ROLE_COUNT};

const WHITE: u32 = 0xFFFF_FFFF;
const BLACK: u32 = 0x0000_00FF;
const SKY_BLUE: u32 = 0x0080_FFFF;
const BLUE: u32 = 0x0000_FFFF;
const RED: u32 = 0xFF00_00FF;
const GREEN: u32 = 0x00FF_00FF;

/// Resting colours of the light palette, in role order.
fn light_normal() -> Vec<u32> {
    vec![WHITE, BLACK, WHITE, BLACK, WHITE, BLACK, SKY_BLUE, WHITE, BLUE, BLUE, WHITE, SKY_BLUE]
}

/// A light palette whose state cells are tagged so that every cell is distinct from
/// its resting value.
fn light_palette() -> Palette<u32> {
    let normal = light_normal();
    let hover: Vec<u32> = normal.iter().map(|c| c ^ 0x0101_0100).collect();
    let pressed: Vec<u32> = normal.iter().map(|c| c ^ 0x0202_0200).collect();
    Palette::derived(&normal, &hover, &pressed)
}

#[test]
fn color_group_all_constant_lists_every_variant() {
    let mut count = 0_usize;
    for group in ColorGroup::ALL {
        match group {
            ColorGroup::Normal | ColorGroup::Hover | ColorGroup::Pressed => count += 1,
        }
    }
    assert_eq!(ColorGroup::ALL.len(), count);
    assert_eq!(count, 3);
}

#[test]
fn default_is_normal() {
    assert_eq!(ColorGroup::default(), ColorGroup::Normal);
}

#[test]
fn color_group_equality_and_hashing_work() {
    let b = RandomState::new();
    assert_eq!(b.hash_one(ColorGroup::Normal), b.hash_one(ColorGroup::Normal));
    assert_eq!(ColorGroup::Normal, ColorGroup::Normal);
    assert_ne!(ColorGroup::Normal, ColorGroup::Hover);
}

#[test]
fn color_role_all_constant_lists_every_variant() {
    let mut count = 0_usize;
    for role in ColorRole::ALL {
        match role {
            ColorRole::Window
            | ColorRole::WindowText
            | ColorRole::Button
            | ColorRole::ButtonText
            | ColorRole::Base
            | ColorRole::Text
            | ColorRole::Highlight
            | ColorRole::HighlightedText
            | ColorRole::Link
            | ColorRole::LinkVisited
            | ColorRole::BrightText
            | ColorRole::FocusRing => count += 1,
        }
    }
    assert_eq!(ColorRole::ALL.len(), count);
    assert_eq!(count, 12);
}

#[test]
fn all_contains_each_named_role() {
    for role in [
        ColorRole::Window,
        ColorRole::WindowText,
        ColorRole::Button,
        ColorRole::ButtonText,
        ColorRole::Base,
        ColorRole::Text,
        ColorRole::Highlight,
        ColorRole::HighlightedText,
        ColorRole::Link,
        ColorRole::LinkVisited,
        ColorRole::BrightText,
        ColorRole::FocusRing,
    ] {
        assert!(ColorRole::ALL.contains(&role), "ALL is missing {role:?}");
    }
}

#[test]
fn color_role_equality_and_hashing_work() {
    let b = RandomState::new();
    assert_eq!(b.hash_one(ColorRole::Window), b.hash_one(ColorRole::Window));
    assert_eq!(ColorRole::Window, ColorRole::Window);
    assert_ne!(ColorRole::Window, ColorRole::Text);
}

#[test]
fn indices_follow_declaration_order() {
    for (i, role) in ColorRole::ALL.iter().enumerate() {
        assert_eq!(role.index(), i);
    }
    for (i, group) in ColorGroup::ALL.iter().enumerate() {
        assert_eq!(group.index(), i);
    }
    assert_eq!(ROLE_COUNT, 12);
    assert_eq!(GROUP_COUNT, 3);
}

#[test]
fn derived_palette_places_each_value() {
    let normal = light_normal();
    let palette = light_palette();
    for role in ColorRole::ALL {
        let n = normal[role.index()];
        assert_eq!(palette.color(role, ColorGroup::Normal), n);
        if role != ColorRole::FocusRing {
            assert_eq!(palette.color(role, ColorGroup::Hover), n ^ 0x0101_0100);
            assert_eq!(palette.color(role, ColorGroup::Pressed), n ^ 0x0202_0200);
        }
    }
}

#[test]
fn light_palette_focus_ring_per_group_mirrors_normal() {
    let palette = light_palette();
    let normal = palette.color(ColorRole::FocusRing, ColorGroup::Normal);
    assert_eq!(normal, SKY_BLUE);
    assert_eq!(palette.color(ColorRole::FocusRing, ColorGroup::Hover), normal);
    assert_eq!(palette.color(ColorRole::FocusRing, ColorGroup::Pressed), normal);
}

#[test]
fn default_highlight_differs_from_highlighted_text() {
    let palette = light_palette();
    assert_ne!(
        palette.color(ColorRole::Highlight, ColorGroup::Normal),
        palette.color(ColorRole::HighlightedText, ColorGroup::Normal)
    );
}

#[test]
fn with_role_replaces_single_cell() {
    let base = light_palette();
    let modified = base.clone().with_role(ColorRole::Window, ColorGroup::Normal, RED);
    assert_eq!(modified.color(ColorRole::Window, ColorGroup::Normal), RED);
    assert_eq!(
        modified.color(ColorRole::Text, ColorGroup::Normal),
        base.color(ColorRole::Text, ColorGroup::Normal)
    );
    assert_eq!(
        modified.color(ColorRole::Highlight, ColorGroup::Normal),
        base.color(ColorRole::Highlight, ColorGroup::Normal)
    );
    assert_eq!(
        modified.color(ColorRole::Window, ColorGroup::Hover),
        base.color(ColorRole::Window, ColorGroup::Hover)
    );
}

#[test]
fn with_role_all_groups_replaces_all_three_cells() {
    let palette = light_palette().with_role_all_groups(ColorRole::Button, RED);
    for group in ColorGroup::ALL {
        assert_eq!(palette.color(ColorRole::Button, group), RED, "Button group {group:?} should be RED");
    }
    let base = light_palette();
    for group in ColorGroup::ALL {
        assert_eq!(palette.color(ColorRole::Window, group), base.color(ColorRole::Window, group));
    }
}

#[test]
fn with_role_chains() {
    let palette = light_palette()
        .with_role(ColorRole::Window, ColorGroup::Normal, RED)
        .with_role(ColorRole::Highlight, ColorGroup::Normal, GREEN);
    assert_eq!(palette.color(ColorRole::Window, ColorGroup::Normal), RED);
    assert_eq!(palette.color(ColorRole::Highlight, ColorGroup::Normal), GREEN);
}

#[test]
fn clone_round_trip_preserves_equality() {
    let palette = light_palette().with_role(ColorRole::Button, ColorGroup::Normal, BLUE);
    assert_eq!(palette, palette.clone());
    assert_eq!(palette, palette.copy_cells());
}
