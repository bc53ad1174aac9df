//! Mutable view parameters and the commands that mutate them.
//!
//! A `RenderingState` holds the zoom, the view center and the iteration
//! budget in the fixed-point domain, plus the screen size in pixels.  Zooming
//! is always multiplicative: one step multiplies the zoom by a fixed
//! geometric factor, `1/1.125` when zooming in and `1.125` when zooming out.
//! Panning shifts the view center by a screen-space displacement scaled by
//! the zoom, so a constant drag covers a zoom-invariant share of the screen.

use vstd::prelude::*;
use vstd::arithmetic::power2::{pow2, lemma_pow2_adds, lemma_pow2_pos, lemma2_to64};
use vstd::arithmetic::div_mod::{lemma_div_pos_is_pos, lemma_fundamental_div_mod, lemma_mod_bound};
use vstd::arithmetic::mul::lemma_mul_nonnegative;
use num::BigInt;
use crate::bignum::{big_add, big_clone, big_value};
use crate::cpu::{buffer_spec, CPURenderer};
use crate::fixed::{
    from_mantissa, from_mantissa_spec, lemma_from_mantissa_nonneg, lemma_mul_fix_nonneg, mul_bigint,
    mul_fix, scale, MAX_DIGITS,
};

verus! {

/// Mantissa (in [`crate::fixed::BITS_PER_DIGIT`] fractional bits) of the
/// zoom-in step `1/1.125`, truncated: `(65536 / 1.125)` rounded toward zero.
pub const ZOOM_IN_MANTISSA: i128 = 58254;

/// Mantissa of the zoom-out step `1.125`: `65536 * 1.125`, which is exact.
pub const ZOOM_OUT_MANTISSA: i128 = 73728;

/// The view parameters a render request is evaluated against.
///
/// The stored `zoom` is the view scale: half the base per-axis extent of
/// the viewport, so zooming in makes it smaller.  It and the view center
/// are fixed-point numbers at the shared `digits` scale.
pub struct RenderingState {
    pub zoom: BigInt,
    pub view_x: BigInt,
    pub view_y: BigInt,
    pub max_iterations: u32,
    pub screen_width: u32,
    pub screen_height: u32,
    pub digits: u32,
}

/// The mathematical content of a `RenderingState`: each big integer read as
/// the integer it holds.
pub struct StateModel {
    pub zoom: int,
    pub view_x: int,
    pub view_y: int,
    pub max_iterations: u32,
    pub screen_width: u32,
    pub screen_height: u32,
    pub digits: nat,
}

/// The mantissa of the geometric factor one zoom step multiplies by.
pub open spec fn zoom_mantissa(zoom_in: bool) -> int {
    if zoom_in {
        58254
    } else {
        73728
    }
}

/// The zoom stored after one zoom step from `z`.
pub open spec fn zoom_step(z: int, zoom_in: bool, digits: nat) -> int {
    mul_fix(z, from_mantissa_spec(zoom_mantissa(zoom_in), digits), digits)
}

impl RenderingState {
    pub open spec fn model(self) -> StateModel {
        StateModel {
            zoom: big_value(self.zoom),
            view_x: big_value(self.view_x),
            view_y: big_value(self.view_y),
            max_iterations: self.max_iterations,
            screen_width: self.screen_width,
            screen_height: self.screen_height,
            digits: self.digits as nat,
        }
    }

    /// Well-formedness: the limb count is in the supported band and the zoom
    /// is non-negative.  Every constructor establishes it and every command
    /// preserves it.
    pub open spec fn wf(self) -> bool {
        &&& 2 <= self.digits <= MAX_DIGITS
        &&& big_value(self.zoom) >= 0
    }

    /// Builds a state from fixed-point mantissas, with no screen attached
    /// yet.
    pub fn new(
        zoom_mantissa: i128,
        view_x_mantissa: i128,
        view_y_mantissa: i128,
        max_iterations: u32,
        digits: u32,
    ) -> (s: RenderingState)
        requires
            2 <= digits <= MAX_DIGITS,
            0 <= zoom_mantissa,
        ensures
            s.wf(),
            big_value(s.zoom) == from_mantissa_spec(zoom_mantissa as int, digits as nat),
            big_value(s.view_x) == from_mantissa_spec(view_x_mantissa as int, digits as nat),
            big_value(s.view_y) == from_mantissa_spec(view_y_mantissa as int, digits as nat),
            s.max_iterations == max_iterations,
            s.screen_width == 0,
            s.screen_height == 0,
            s.digits == digits,
    {
        proof {
            lemma_from_mantissa_nonneg(zoom_mantissa as int, digits as nat);
        }
        RenderingState {
            zoom: from_mantissa(zoom_mantissa, digits),
            view_x: from_mantissa(view_x_mantissa, digits),
            view_y: from_mantissa(view_y_mantissa, digits),
            max_iterations,
            screen_width: 0,
            screen_height: 0,
            digits,
        }
    }

    /// One multiplicative zoom step: in by `1/1.125`, out by `1.125`.
    pub fn change_zoom(&mut self, zoom_in: bool)
        requires
            old(self).wf(),
        ensures
            final(self).wf(),
            big_value(final(self).zoom) == zoom_step(
                big_value(old(self).zoom),
                zoom_in,
                old(self).digits as nat,
            ),
            final(self).view_x == old(self).view_x,
            final(self).view_y == old(self).view_y,
            final(self).max_iterations == old(self).max_iterations,
            final(self).screen_width == old(self).screen_width,
            final(self).screen_height == old(self).screen_height,
            final(self).digits == old(self).digits,
    {
        let factor = from_mantissa(
            if zoom_in {
                ZOOM_IN_MANTISSA
            } else {
                ZOOM_OUT_MANTISSA
            },
            self.digits,
        );
        let new_zoom = mul_bigint(&self.zoom, &factor, self.digits);
        proof {
            lemma_from_mantissa_nonneg(zoom_mantissa(zoom_in), old(self).digits as nat);
            lemma_mul_fix_nonneg(
                big_value(old(self).zoom),
                from_mantissa_spec(zoom_mantissa(zoom_in), old(self).digits as nat),
                old(self).digits as nat,
            );
        }
        self.zoom = new_zoom;
    }

    /// Pans the view center: a screen-space displacement, given as
    /// fixed-point mantissas, is scaled by the current zoom and added to the
    /// center, so the same drag moves the view by the same share of the
    /// screen at every depth.
    pub fn change_view(&mut self, delta_x_mantissa: i128, delta_y_mantissa: i128)
        requires
            old(self).wf(),
        ensures
            final(self).wf(),
            big_value(final(self).view_x) == big_value(old(self).view_x) + mul_fix(
                from_mantissa_spec(delta_x_mantissa as int, old(self).digits as nat),
                big_value(old(self).zoom),
                old(self).digits as nat,
            ),
            big_value(final(self).view_y) == big_value(old(self).view_y) + mul_fix(
                from_mantissa_spec(delta_y_mantissa as int, old(self).digits as nat),
                big_value(old(self).zoom),
                old(self).digits as nat,
            ),
            final(self).zoom == old(self).zoom,
            final(self).max_iterations == old(self).max_iterations,
            final(self).screen_width == old(self).screen_width,
            final(self).screen_height == old(self).screen_height,
            final(self).digits == old(self).digits,
    {
        let delta_x = from_mantissa(delta_x_mantissa, self.digits);
        let delta_y = from_mantissa(delta_y_mantissa, self.digits);
        let delta_view_x = mul_bigint(&delta_x, &self.zoom, self.digits);
        let delta_view_y = mul_bigint(&delta_y, &self.zoom, self.digits);
        self.view_x = big_add(&self.view_x, &delta_view_x);
        self.view_y = big_add(&self.view_y, &delta_view_y);
    }

    /// The state's model with a screen of the given size attached.
    pub open spec fn snapshot_model(self, screen_width: u32, screen_height: u32) -> StateModel {
        StateModel {
            zoom: big_value(self.zoom),
            view_x: big_value(self.view_x),
            view_y: big_value(self.view_y),
            max_iterations: self.max_iterations,
            screen_width,
            screen_height,
            digits: self.digits as nat,
        }
    }

    /// Takes an immutable snapshot of the view parameters, attaches the
    /// given screen, and sweeps it into a fresh escape-time buffer.
    pub fn render(&self, screen_width: u32, screen_height: u32) -> (r: Vec<u32>)
        requires
            self.wf(),
        ensures
            r@ == buffer_spec(self.snapshot_model(screen_width, screen_height)),
            forall|k: int| 0 <= k < r@.len() ==> 0 <= #[trigger] r@[k] <= self.max_iterations,
    {
        let snapshot = RenderingState {
            zoom: big_clone(&self.zoom),
            view_x: big_clone(&self.view_x),
            view_y: big_clone(&self.view_y),
            max_iterations: self.max_iterations,
            screen_width,
            screen_height,
            digits: self.digits,
        };
        let renderer = CPURenderer::new();
        renderer.calculate_escape_times(&snapshot)
    }

    /// Sets the per-pixel escape-test budget.
    pub fn set_max_iterations(&mut self, new_value: u32)
        requires
            old(self).wf(),
        ensures
            final(self).wf(),
            final(self).max_iterations == new_value,
            final(self).zoom == old(self).zoom,
            final(self).view_x == old(self).view_x,
            final(self).view_y == old(self).view_y,
            final(self).screen_width == old(self).screen_width,
            final(self).screen_height == old(self).screen_height,
            final(self).digits == old(self).digits,
    {
        self.max_iterations = new_value;
    }
}

/// Nonlinear core of the zoom round-trip bound, over abstract values: `q1`
/// and `q2` are the two truncated products, `f` the limb offset factor.
proof fn lemma_zoom_round_trip_core(
    z: int,
    f: int,
    s: int,
    q1: int,
    q2: int,
) by (nonlinear_arith)
    requires
        0 <= z,
        0 < f,
        s == 65536 * f,
        0 <= q1,
        s * q1 <= z * (58254 * f),
        z * (58254 * f) < s * q1 + s,
        s * q2 <= q1 * (73728 * f),
        q1 * (73728 * f) < s * q2 + s,
    ensures
        q2 <= z,
        4294967296 * (z - q2) < 16384 * z + 9126805504,
{
}

/// Zoom round trip: one step in and one step out multiplies the zoom by
/// factors whose product is just under one, and each step truncates, so the
/// result never exceeds the starting zoom, and (scaled by `2^32`) falls
/// short of it by less than `z / 2^18` plus a small constant.
pub proof fn lemma_zoom_round_trip(z: int, digits: nat)
    requires
        2 <= digits,
        0 <= z,
    ensures
        zoom_step(zoom_step(z, true, digits), false, digits) <= z,
        4294967296 * (z - zoom_step(zoom_step(z, true, digits), false, digits)) < 16384 * z
            + 9126805504,
{
    let f = pow2(((digits - 2) * 16) as nat) as int;
    let s = scale(digits);
    let fi = from_mantissa_spec(58254, digits);
    let fo = from_mantissa_spec(73728, digits);
    let q1 = zoom_step(z, true, digits);
    let q2 = zoom_step(q1, false, digits);
    lemma_pow2_pos(((digits - 2) * 16) as nat);
    lemma2_to64();
    lemma_pow2_adds(16, ((digits - 2) * 16) as nat);
    assert(16 + ((digits - 2) * 16) as nat == ((digits - 1) * 16) as nat);
    assert(s == 65536 * f);
    assert(fi == 58254 * f);
    assert(fo == 73728 * f);
    lemma_mul_nonnegative(z, fi);
    lemma_div_pos_is_pos(z * fi, s);
    lemma_fundamental_div_mod(z * fi, s);
    lemma_mod_bound(z * fi, s);
    lemma_fundamental_div_mod(q1 * fo, s);
    lemma_mod_bound(q1 * fo, s);
    lemma_zoom_round_trip_core(z, f, s, q1, q2);
}

} // verus!
