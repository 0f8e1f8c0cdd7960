//! Styling vocabulary: colour roles, colour groups, and the palette table indexed by both.
use vstd::prelude::*;

verus! {

/// Semantic role of a colour in a [`Palette`]: what the colour is for.
#[derive(Clone, Copy, Debug, PartialEq, Eq, Hash, Structural)]
pub enum ColorRole {
    /// Background of windows and top-level surfaces.
    Window,
    /// Text drawn on a `Window` background.
    WindowText,
    /// Background of push buttons and similar pressable surfaces.
    Button,
    /// Text drawn on a `Button` background.
    ButtonText,
    /// Background of editable text widgets.
    Base,
    /// Text drawn on a `Base` background.
    Text,
    /// Selection / highlight background.
    Highlight,
    /// Text drawn on a `Highlight` background.
    HighlightedText,
    /// Unvisited hyperlinks.
    Link,
    /// Visited hyperlinks.
    LinkVisited,
    /// High-contrast attention text.
    BrightText,
    /// Stroke of the keyboard-focus outline.
    FocusRing,
}

/// Number of colour roles.
pub const ROLE_COUNT: usize = 12;

/// Number of colour groups.
pub const GROUP_COUNT: usize = 3;

/// Position of a role in declaration order.
pub open spec fn role_index(r: ColorRole) -> int {
    match r {
        ColorRole::Window => 0,
        ColorRole::WindowText => 1,
        ColorRole::Button => 2,
        ColorRole::ButtonText => 3,
        ColorRole::Base => 4,
        ColorRole::Text => 5,
        ColorRole::Highlight => 6,
        ColorRole::HighlightedText => 7,
        ColorRole::Link => 8,
        ColorRole::LinkVisited => 9,
        ColorRole::BrightText => 10,
        ColorRole::FocusRing => 11,
    }
}

impl ColorRole {
    /// Every role, in declaration order.
    pub const ALL: [ColorRole; 12] = [
        ColorRole::Window,
        ColorRole::WindowText,
        ColorRole::Button,
        ColorRole::ButtonText,
        ColorRole::Base,
        ColorRole::Text,
        ColorRole::Highlight,
        ColorRole::HighlightedText,
        ColorRole::Link,
        ColorRole::LinkVisited,
        ColorRole::BrightText,
        ColorRole::FocusRing,
    ];

    /// Position of this role in declaration order.
    pub fn index(self) -> (r: usize)
        ensures
            r == role_index(self),
            r < ROLE_COUNT,
    {
        match self {
            ColorRole::Window => 0,
            ColorRole::WindowText => 1,
            ColorRole::Button => 2,
            ColorRole::ButtonText => 3,
            ColorRole::Base => 4,
            ColorRole::Text => 5,
            ColorRole::Highlight => 6,
            ColorRole::HighlightedText => 7,
            ColorRole::Link => 8,
            ColorRole::LinkVisited => 9,
            ColorRole::BrightText => 10,
            ColorRole::FocusRing => 11,
        }
    }
}

/// Interaction-state group of a colour: when the colour is used.
#[derive(Clone, Copy, Debug, PartialEq, Eq, Hash, Structural)]
pub enum ColorGroup {
    /// Resting state.
    Normal,
    /// Pointer over the widget, not pressed.
    Hover,
    /// Widget being pressed.
    Pressed,
}

/// Position of a group in declaration order.
pub open spec fn group_index(g: ColorGroup) -> int {
    match g {
        ColorGroup::Normal => 0,
        ColorGroup::Hover => 1,
        ColorGroup::Pressed => 2,
    }
}

impl ColorGroup {
    /// Every group, in declaration order.
    pub const ALL: [ColorGroup; 3] = [ColorGroup::Normal, ColorGroup::Hover, ColorGroup::Pressed];

    /// Position of this group in declaration order.
    pub fn index(self) -> (r: usize)
        ensures
            r == group_index(self),
            r < GROUP_COUNT,
    {
        match self {
            ColorGroup::Normal => 0,
            ColorGroup::Hover => 1,
            ColorGroup::Pressed => 2,
        }
    }
}

impl Default for ColorGroup {
    /// The resting group, `Normal`.
    fn default() -> (r: ColorGroup)
        ensures
            r == ColorGroup::Normal,
    {
        ColorGroup::Normal
    }
}

/// Flat position of the `(role, group)` cell.
pub open spec fn cell_index(r: ColorRole, g: ColorGroup) -> int {
    role_index(r) * 3 + group_index(g)
}

/// Colour lookup table keyed by [`ColorRole`] and [`ColorGroup`], generic over the
/// colour type.
#[derive(Debug, PartialEq)]
pub struct Palette<C> {
    colors: Vec<C>,
}

impl<C> Palette<C> {
    #[verifier::type_invariant]
    spec fn well_formed(&self) -> bool {
        self.colors@.len() == ROLE_COUNT * GROUP_COUNT
    }

    /// The colour stored in the `(role, group)` cell.
    pub closed spec fn cell(&self, role: ColorRole, group: ColorGroup) -> C {
        self.colors@[cell_index(role, group)]
    }
}

impl<C: Copy> Palette<C> {
    /// Builds a palette from per-role `Normal`, `Hover` and `Pressed` values (indexed
    /// by role order). The `FocusRing` role has no state variants: its `Hover` and
    /// `Pressed` cells mirror its `Normal` value.
    pub fn derived(normal: &Vec<C>, hover: &Vec<C>, pressed: &Vec<C>) -> (r: Palette<C>)
        requires
            normal@.len() == ROLE_COUNT,
            hover@.len() == ROLE_COUNT,
            pressed@.len() == ROLE_COUNT,
        ensures
            forall|role: ColorRole| #[trigger] r.cell(role, ColorGroup::Normal) == normal@[role_index(role)],
            forall|role: ColorRole|
                role != ColorRole::FocusRing ==> #[trigger] r.cell(role, ColorGroup::Hover) == hover@[role_index(role)],
            forall|role: ColorRole|
                role != ColorRole::FocusRing ==> #[trigger] r.cell(role, ColorGroup::Pressed) == pressed@[role_index(role)],
            r.cell(ColorRole::FocusRing, ColorGroup::Hover) == normal@[11],
            r.cell(ColorRole::FocusRing, ColorGroup::Pressed) == normal@[11],
    {
        let mut colors: Vec<C> = Vec::new();
        let mut i: usize = 0;
        while i < ROLE_COUNT
            invariant
                i <= ROLE_COUNT,
                normal@.len() == ROLE_COUNT,
                hover@.len() == ROLE_COUNT,
                pressed@.len() == ROLE_COUNT,
                colors@.len() == i * 3,
                forall|k: int| 0 <= k < i ==> #[trigger] colors@[k * 3] == normal@[k],
                forall|k: int| 0 <= k < i && k != 11 ==> #[trigger] colors@[k * 3 + 1] == hover@[k],
                forall|k: int| 0 <= k < i && k != 11 ==> #[trigger] colors@[k * 3 + 2] == pressed@[k],
                i == ROLE_COUNT ==> colors@[34] == normal@[11] && colors@[35] == normal@[11],
            decreases ROLE_COUNT - i,
        {
            let n = normal[i];
            colors.push(n);
            if i == 11 {
                colors.push(n);
                colors.push(n);
            } else {
                colors.push(hover[i]);
                colors.push(pressed[i]);
            }
            i = i + 1;
        }
        Palette { colors }
    }

    /// Copies every cell of this palette into a new one.
    pub fn copy_cells(&self) -> (r: Palette<C>)
        ensures
            forall|role: ColorRole, group: ColorGroup| #[trigger] r.cell(role, group) == self.cell(role, group),
    {
        proof {
            use_type_invariant(self);
        }
        let mut colors: Vec<C> = Vec::new();
        let mut i: usize = 0;
        while i < self.colors.len()
            invariant
                i <= self.colors@.len(),
                colors@ == self.colors@.take(i as int),
            decreases self.colors@.len() - i,
        {
            colors.push(self.colors[i]);
            assert(self.colors@.take(i as int + 1) =~= self.colors@.take(i as int).push(self.colors@[i as int]));
            i = i + 1;
        }
        assert(self.colors@.take(self.colors@.len() as int) =~= self.colors@);
        Palette { colors }
    }

    /// Returns the colour assigned to `(role, group)`.
    pub fn color(&self, role: ColorRole, group: ColorGroup) -> (r: C)
        ensures
            r == self.cell(role, group),
    {
        proof {
            use_type_invariant(self);
        }
        self.colors[role.index() * 3 + group.index()]
    }

    /// Returns the palette with the `(role, group)` cell replaced by `color`.
    pub fn with_role(self, role: ColorRole, group: ColorGroup, color: C) -> (r: Palette<C>)
        ensures
            r.cell(role, group) == color,
            forall|r2: ColorRole, g2: ColorGroup|
                (r2, g2) != (role, group) ==> #[trigger] r.cell(r2, g2) == self.cell(r2, g2),
    {
        proof {
            use_type_invariant(&self);
        }
        let i = role.index() * 3 + group.index();
        let mut colors = self.colors;
        colors.set(i, color);
        let p = Palette { colors };
        proof {
            assert forall|r2: ColorRole, g2: ColorGroup| (r2, g2) != (role, group) implies #[trigger] p.cell(r2, g2)
                == self.cell(r2, g2) by {
                assert(cell_index(r2, g2) != cell_index(role, group));
            }
        }
        p
    }

    /// Returns the palette with all three group cells of `role` replaced by `color`.
    pub fn with_role_all_groups(self, role: ColorRole, color: C) -> (r: Palette<C>)
        ensures
            forall|g: ColorGroup| #[trigger] r.cell(role, g) == color,
            forall|r2: ColorRole, g2: ColorGroup| r2 != role ==> #[trigger] r.cell(r2, g2) == self.cell(r2, g2),
    {
        let p = self.with_role(role, ColorGroup::Normal, color);
        let p = p.with_role(role, ColorGroup::Hover, color);
        let p = p.with_role(role, ColorGroup::Pressed, color);
        assert forall|g: ColorGroup| #[trigger] p.cell(role, g) == color by {
            match g {
                ColorGroup::Normal => {},
                ColorGroup::Hover => {},
                ColorGroup::Pressed => {},
            }
        }
        p
    }
}

impl<C: Copy> Clone for Palette<C> {
    fn clone(&self) -> (r: Self)
        ensures
            forall|role: ColorRole, group: ColorGroup| #[trigger] r.cell(role, group) == self.cell(role, group),
    {
        self.copy_cells()
    }
}

} // verus!
