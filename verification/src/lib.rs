//! Verified core of the quartzite GUI and object framework.
use vstd::prelude::*;

pub mod application;
pub mod connection_table;
pub mod event_loop;
pub mod factory;
pub mod global_tree;
pub mod ids;
pub mod loop_registry;
pub mod object_ref;
pub mod object_tree;
pub mod object_tree_ext;
pub mod renderer;
pub mod seq_util;
pub mod snapshot;
pub mod style_dispatch;
pub mod style_types;
pub mod timer;
pub mod timer_drivers;

verus! {

/// `ceil(value / align)` for a positive `align`.
pub open spec fn div_ceil_spec(value: int, align: int) -> int {
    if value % align == 0 {
        value / align
    } else {
        value / align + 1
    }
}

/// Rounding up gives the least multiple of `align` that is not below `value`.
pub proof fn law_align_up_least_multiple(value: int, align: int)
    requires
        0 <= value,
        0 < align,
    ensures
        (div_ceil_spec(value, align) * align) % align == 0,
        value <= div_ceil_spec(value, align) * align < value + align,
{
    let q = value / align;
    let r = value % align;
    assert(value == q * align + r && 0 <= r < align) by (nonlinear_arith)
        requires
            0 < align,
            q == value / align,
            r == value % align,
    ;
    if r == 0 {
        assert((q * align) % align == 0) by (nonlinear_arith)
            requires
                0 < align,
        ;
    } else {
        assert(((q + 1) * align) % align == 0 && (q + 1) * align == q * align + align) by (nonlinear_arith)
            requires
                0 < align,
        ;
    }
}

/// Rounds `value` up to the next multiple of `align`.
pub fn align_up(value: u32, align: u32) -> (r: u32)
    requires
        align > 0,
        div_ceil_spec(value as int, align as int) * align <= u32::MAX,
    ensures
        r == div_ceil_spec(value as int, align as int) * align,
{
    let q = if value % align == 0 {
        value / align
    } else {
        assert(value / align < u32::MAX) by (nonlinear_arith)
            requires
                align > 1,
        ;
        value / align + 1
    };
    q * align
}

} // verus!
