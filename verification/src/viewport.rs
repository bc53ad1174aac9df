//! Screen-to-plane viewport mapping.
//!
//! From zoom, view center and screen size, derive the visible rectangle of
//! the complex plane: the base per-axis extent is twice the stored zoom, the
//! axis with the larger pixel count is widened by the screen's aspect ratio
//! so the shorter axis keeps one plane unit per pixel, the origin is the
//! center minus half the extent, and the per-pixel step is the extent
//! divided by the pixel count.

use vstd::prelude::*;
use vstd::arithmetic::power2::lemma2_to64;
use vstd::arithmetic::div_mod::lemma_div_pos_is_pos;
use num::BigInt;
use crate::bignum::{big_shl, big_shr, big_sub, big_value};
use crate::fixed::{
    from_mantissa, from_mantissa_spec, lemma_from_mantissa_nonneg, lemma_mul_fix_nonneg,
    mul_bigint, mul_fix,
};
use crate::state::{RenderingState, StateModel};

verus! {

/// Mantissa of the aspect ratio `a / b`, truncated to
/// [`crate::fixed::BITS_PER_DIGIT`] fractional bits.
pub open spec fn aspect_mantissa_spec(a: int, b: int) -> int {
    (a * 65536) / b
}

/// Plane extent along the real axis: twice the zoom, widened by the aspect
/// ratio when the screen is wider than tall.
pub open spec fn extent_x_spec(m: StateModel) -> int {
    if m.screen_width > m.screen_height {
        mul_fix(
            2 * m.zoom,
            from_mantissa_spec(
                aspect_mantissa_spec(m.screen_width as int, m.screen_height as int),
                m.digits,
            ),
            m.digits,
        )
    } else {
        2 * m.zoom
    }
}

/// Plane extent along the imaginary axis: twice the zoom, widened by the
/// aspect ratio when the screen is at least as tall as wide.
pub open spec fn extent_y_spec(m: StateModel) -> int {
    if m.screen_width > m.screen_height {
        2 * m.zoom
    } else {
        mul_fix(
            2 * m.zoom,
            from_mantissa_spec(
                aspect_mantissa_spec(m.screen_height as int, m.screen_width as int),
                m.digits,
            ),
            m.digits,
        )
    }
}

/// Real coordinate of the viewport's low corner: the center minus half the
/// extent.
pub open spec fn origin_x_spec(m: StateModel) -> int {
    m.view_x - extent_x_spec(m) / 2
}

/// Imaginary coordinate of the viewport's low corner.
pub open spec fn origin_y_spec(m: StateModel) -> int {
    m.view_y - extent_y_spec(m) / 2
}

/// Plane step from one pixel column to the next.
pub open spec fn step_x_spec(m: StateModel) -> int {
    extent_x_spec(m) / m.screen_width as int
}

/// Plane step from one pixel row to the next.
pub open spec fn step_y_spec(m: StateModel) -> int {
    extent_y_spec(m) / m.screen_height as int
}

/// The viewport in the fixed-point domain: low corner and per-axis extent.
pub struct Viewport {
    pub pos_x: BigInt,
    pub pos_y: BigInt,
    pub width: BigInt,
    pub height: BigInt,
}

/// Aspect-ratio mantissa `a / b` in fixed-point, truncated.
fn aspect_mantissa(a: u32, b: u32) -> (r: i128)
    requires
        1 <= b,
    ensures
        r as int == aspect_mantissa_spec(a as int, b as int),
{
    proof {
        lemma_div_pos_is_pos(a as int * 65536, b as int);
    }
    (((a as u64) * 65536) / (b as u64)) as i128
}

/// Derives the visible plane rectangle from a state with a screen attached.
pub fn compute_viewport(state: &RenderingState) -> (v: Viewport)
    requires
        state.wf(),
        state.screen_width >= 1,
        state.screen_height >= 1,
    ensures
        big_value(v.width) == extent_x_spec(state.model()),
        big_value(v.height) == extent_y_spec(state.model()),
        big_value(v.pos_x) == origin_x_spec(state.model()),
        big_value(v.pos_y) == origin_y_spec(state.model()),
        big_value(v.width) >= 0,
        big_value(v.height) >= 0,
{
    proof {
        lemma2_to64();
    }
    let mut width = big_shl(&state.zoom, 1);
    let mut height = big_shl(&state.zoom, 1);
    if state.screen_width > state.screen_height {
        let m = aspect_mantissa(state.screen_width, state.screen_height);
        let aspect = from_mantissa(m, state.digits);
        width = mul_bigint(&width, &aspect, state.digits);
        proof {
            lemma_from_mantissa_nonneg(m as int, state.digits as nat);
            lemma_mul_fix_nonneg(
                2 * big_value(state.zoom),
                from_mantissa_spec(m as int, state.digits as nat),
                state.digits as nat,
            );
        }
    } else {
        let m = aspect_mantissa(state.screen_height, state.screen_width);
        let aspect = from_mantissa(m, state.digits);
        height = mul_bigint(&height, &aspect, state.digits);
        proof {
            lemma_from_mantissa_nonneg(m as int, state.digits as nat);
            lemma_mul_fix_nonneg(
                2 * big_value(state.zoom),
                from_mantissa_spec(m as int, state.digits as nat),
                state.digits as nat,
            );
        }
    }
    let pos_x = big_sub(&state.view_x, &big_shr(&width, 1));
    let pos_y = big_sub(&state.view_y, &big_shr(&height, 1));
    Viewport { pos_x, pos_y, width, height }
}

} // verus!
