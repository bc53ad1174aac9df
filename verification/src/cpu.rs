//! The escape-time kernel in the fixed-point domain.
//!
//! For every pixel the kernel iterates `z := z*z + c` from zero, using the
//! truncating fixed-point multiply, and records the first iteration index at
//! which `re*re + im*im` strictly exceeds the representation of `4.0` -- the
//! provably sufficient divergence bound -- or the full budget if none does.
//! The whole sweep is a pure function of the state snapshot.

use vstd::prelude::*;
use vstd::arithmetic::power2::lemma2_to64;
use vstd::arithmetic::div_mod::lemma_fundamental_div_mod_converse;
use num::BigInt;
use crate::bignum::{
    big_add, big_div_u32, big_from_i128, big_gt, big_mul, big_shl, big_sub, big_value,
};
use crate::fixed::{from_mantissa, from_mantissa_spec, mul_bigint, mul_fix, MAX_DIGITS};
use crate::state::{RenderingState, StateModel};
use crate::viewport::{
    compute_viewport, origin_x_spec, origin_y_spec, step_x_spec, step_y_spec,
};

verus! {

/// The fixed-point image of the divergence threshold `4.0`.
pub open spec fn threshold(digits: nat) -> int {
    from_mantissa_spec(262144, digits)
}

/// One step of the quadratic recurrence, real part: `re*re - im*im + c_re`
/// under the truncating fixed-point multiply.
pub open spec fn orbit_step_re(zr: int, zi: int, c_re: int, digits: nat) -> int {
    mul_fix(zr, zr, digits) - mul_fix(zi, zi, digits) + c_re
}

/// One step of the quadratic recurrence, imaginary part: `2*re*im + c_im`.
pub open spec fn orbit_step_im(zr: int, zi: int, c_im: int, digits: nat) -> int {
    2 * mul_fix(zr, zi, digits) + c_im
}

/// Whether the orbit has left the escape radius: the magnitude test is
/// strictly above the threshold; equality does not count as escape.
pub open spec fn escaped(zr: int, zi: int, digits: nat) -> bool {
    mul_fix(zr, zr, digits) + mul_fix(zi, zi, digits) > threshold(digits)
}

/// Escape time of the orbit continued from `(zr, zi)` at iteration `i`: the
/// first index at which the stepped orbit escapes, or `max_iterations` if no
/// index below the budget does.
pub open spec fn escape_time_from(
    zr: int,
    zi: int,
    c_re: int,
    c_im: int,
    digits: nat,
    i: u32,
    max_iterations: u32,
) -> u32
    decreases max_iterations - i,
{
    if i >= max_iterations {
        max_iterations
    } else {
        let nr = orbit_step_re(zr, zi, c_re, digits);
        let ni = orbit_step_im(zr, zi, c_im, digits);
        if escaped(nr, ni, digits) {
            i
        } else {
            escape_time_from(nr, ni, c_re, c_im, digits, (i + 1) as u32, max_iterations)
        }
    }
}

/// Escape time of the plane point `(c_re, c_im)`, starting from `z = 0`.
pub open spec fn escape_time_spec(c_re: int, c_im: int, digits: nat, max_iterations: u32) -> u32 {
    escape_time_from(0, 0, c_re, c_im, digits, 0, max_iterations)
}

/// The orbit after `n` steps of the recurrence from zero at `(c_re, c_im)`.
pub open spec fn orbit(c_re: int, c_im: int, digits: nat, n: nat) -> (int, int)
    decreases n,
{
    if n == 0 {
        (0, 0)
    } else {
        let prev = orbit(c_re, c_im, digits, (n - 1) as nat);
        (
            orbit_step_re(prev.0, prev.1, c_re, digits),
            orbit_step_im(prev.0, prev.1, c_im, digits),
        )
    }
}

/// Whether the orbit point after `n` steps lies outside the escape radius.
pub open spec fn orbit_escaped(c_re: int, c_im: int, digits: nat, n: nat) -> bool {
    escaped(orbit(c_re, c_im, digits, n).0, orbit(c_re, c_im, digits, n).1, digits)
}

proof fn lemma_first_crossing_from(c_re: int, c_im: int, digits: nat, i: u32, max_iterations: u32)
    requires
        i <= max_iterations,
    ensures
        ({
            let z = orbit(c_re, c_im, digits, i as nat);
            let t = escape_time_from(z.0, z.1, c_re, c_im, digits, i, max_iterations);
            &&& i <= t <= max_iterations
            &&& t < max_iterations ==> orbit_escaped(c_re, c_im, digits, (t + 1) as nat)
            &&& forall|j: int|
                i <= j < t ==> !#[trigger] orbit_escaped(c_re, c_im, digits, (j + 1) as nat)
        }),
    decreases max_iterations - i,
{
    let z = orbit(c_re, c_im, digits, i as nat);
    let t = escape_time_from(z.0, z.1, c_re, c_im, digits, i, max_iterations);
    if i < max_iterations {
        let nr = orbit_step_re(z.0, z.1, c_re, digits);
        let ni = orbit_step_im(z.0, z.1, c_im, digits);
        assert(orbit(c_re, c_im, digits, (i + 1) as nat) == (nr, ni));
        if !escaped(nr, ni, digits) {
            lemma_first_crossing_from(c_re, c_im, digits, (i + 1) as u32, max_iterations);
            assert forall|j: int| i <= j < t implies !#[trigger] orbit_escaped(
                c_re,
                c_im,
                digits,
                (j + 1) as nat,
            ) by {
                if j == i {
                    assert(!orbit_escaped(c_re, c_im, digits, (i + 1) as nat));
                }
            }
        }
    }
}

/// The first crossing wins: an escape time below the budget is the least
/// iteration index whose orbit point lies outside the escape radius, and a
/// reported full budget means no orbit point within it ever escaped.
pub proof fn lemma_escape_time_first_crossing(
    c_re: int,
    c_im: int,
    digits: nat,
    max_iterations: u32,
)
    ensures
        escape_time_spec(c_re, c_im, digits, max_iterations) < max_iterations
            ==> orbit_escaped(
            c_re,
            c_im,
            digits,
            (escape_time_spec(c_re, c_im, digits, max_iterations) + 1) as nat,
        ),
        forall|j: int|
            0 <= j < escape_time_spec(c_re, c_im, digits, max_iterations)
                ==> !#[trigger] orbit_escaped(c_re, c_im, digits, (j + 1) as nat),
{
    assert(orbit(c_re, c_im, digits, 0) == (0int, 0int));
    lemma_first_crossing_from(c_re, c_im, digits, 0, max_iterations);
}

proof fn lemma_escape_time_from_in_budget(
    zr: int,
    zi: int,
    c_re: int,
    c_im: int,
    digits: nat,
    i: u32,
    max_iterations: u32,
)
    ensures
        escape_time_from(zr, zi, c_re, c_im, digits, i, max_iterations) <= max_iterations,
    decreases max_iterations - i,
{
    if i < max_iterations {
        let nr = orbit_step_re(zr, zi, c_re, digits);
        let ni = orbit_step_im(zr, zi, c_im, digits);
        if !escaped(nr, ni, digits) {
            lemma_escape_time_from_in_budget(
                nr,
                ni,
                c_re,
                c_im,
                digits,
                (i + 1) as u32,
                max_iterations,
            );
        }
    }
}

/// Every escape time lies in the budget `[0, max_iterations]`.
pub proof fn lemma_escape_time_in_budget(c_re: int, c_im: int, digits: nat, max_iterations: u32)
    ensures
        0 <= escape_time_spec(c_re, c_im, digits, max_iterations) <= max_iterations,
{
    lemma_escape_time_from_in_budget(0, 0, c_re, c_im, digits, 0, max_iterations);
}

/// Escape time of one plane point, computed with fixed-point arithmetic.
pub fn escape_time(c_real: &BigInt, c_img: &BigInt, digits: u32, max_iterations: u32) -> (t: u32)
    requires
        2 <= digits <= MAX_DIGITS,
    ensures
        t == escape_time_spec(
            big_value(*c_real),
            big_value(*c_img),
            digits as nat,
            max_iterations,
        ),
{
    let four = from_mantissa(262144, digits);
    let mut z_real = big_from_i128(0);
    let mut z_img = big_from_i128(0);
    let mut t: u32 = max_iterations;
    let mut i: u32 = 0;
    let mut done: bool = false;
    while i < max_iterations && !done
        invariant
            2 <= digits <= MAX_DIGITS,
            i <= max_iterations,
            big_value(four) == threshold(digits as nat),
            !done ==> t == max_iterations,
            !done ==> escape_time_from(
                big_value(z_real),
                big_value(z_img),
                big_value(*c_real),
                big_value(*c_img),
                digits as nat,
                i,
                max_iterations,
            ) == escape_time_spec(
                big_value(*c_real),
                big_value(*c_img),
                digits as nat,
                max_iterations,
            ),
            done ==> t == escape_time_spec(
                big_value(*c_real),
                big_value(*c_img),
                digits as nat,
                max_iterations,
            ),
        decreases max_iterations - i + (if done { 0int } else { 1int }),
    {
        proof {
            lemma2_to64();
        }
        let zr_sq = mul_bigint(&z_real, &z_real, digits);
        let zi_sq = mul_bigint(&z_img, &z_img, digits);
        let new_z_real = big_add(&big_sub(&zr_sq, &zi_sq), c_real);
        let new_z_img = big_add(&big_shl(&mul_bigint(&z_real, &z_img, digits), 1), c_img);
        z_real = new_z_real;
        z_img = new_z_img;
        let mag = big_add(
            &mul_bigint(&z_real, &z_real, digits),
            &mul_bigint(&z_img, &z_img, digits),
        );
        if big_gt(&mag, &four) {
            t = i;
            done = true;
        } else {
            i = i + 1;
        }
    }
    t
}

/// The fixed-point backend: sweeps every pixel with [`escape_time`].
pub struct CPURenderer {}

impl CPURenderer {
    pub fn new() -> (r: CPURenderer) {
        CPURenderer {}
    }
}

/// Escape time of the pixel at column `x`, row `y` of the viewport.
pub open spec fn pixel_spec(m: StateModel, x: int, y: int) -> u32 {
    escape_time_spec(
        origin_x_spec(m) + x * step_x_spec(m),
        origin_y_spec(m) + y * step_y_spec(m),
        m.digits,
        m.max_iterations,
    )
}

/// The whole escape-time buffer: `width * height` entries in row-major
/// order, row 0 first, column 0 first within each row.
pub open spec fn buffer_spec(m: StateModel) -> Seq<u32> {
    Seq::new(
        (m.screen_width * m.screen_height) as nat,
        |k: int| pixel_spec(m, k % m.screen_width as int, k / m.screen_width as int),
    )
}

/// The buffer is row-major: the entry for column `x` of row `y` stands at
/// index `y * width + x` and is that pixel's escape time.
pub proof fn lemma_buffer_at(m: StateModel, x: int, y: int)
    requires
        0 <= x < m.screen_width,
        0 <= y < m.screen_height,
    ensures
        buffer_spec(m)[y * m.screen_width + x] == pixel_spec(m, x, y),
{
    assert((y * m.screen_width + x) < (m.screen_width as int) * (m.screen_height as int))
        by (nonlinear_arith)
        requires
            0 <= x < m.screen_width,
            0 <= y < m.screen_height,
    ;
    lemma_fundamental_div_mod_converse(
        y * m.screen_width + x,
        m.screen_width as int,
        y,
        x,
    );
}

/// The sweep is a pure function of the snapshot: two buffers computed from
/// the same state model are bit-identical.
pub proof fn lemma_render_deterministic(m: StateModel, b1: Seq<u32>, b2: Seq<u32>)
    requires
        b1 == buffer_spec(m),
        b2 == buffer_spec(m),
    ensures
        b1 == b2,
{
}

/// Every entry of every buffer lies in `[0, max_iterations]`.
pub proof fn lemma_buffer_in_budget(m: StateModel)
    ensures
        forall|k: int|
            0 <= k < buffer_spec(m).len() ==> 0 <= #[trigger] buffer_spec(m)[k]
                <= m.max_iterations,
{
    assert forall|k: int| 0 <= k < buffer_spec(m).len() implies 0 <= #[trigger] buffer_spec(m)[k]
        <= m.max_iterations by {
        lemma_escape_time_in_budget(
            origin_x_spec(m) + (k % m.screen_width as int) * step_x_spec(m),
            origin_y_spec(m) + (k / m.screen_width as int) * step_y_spec(m),
            m.digits,
            m.max_iterations,
        );
    }
}

impl CPURenderer {
    /// Sweeps every pixel of the snapshot's screen and returns the
    /// escape-time buffer in row-major order.
    pub fn calculate_escape_times(&self, state: &RenderingState) -> (r: Vec<u32>)
        requires
            state.wf(),
        ensures
            r@ == buffer_spec(state.model()),
            forall|k: int| 0 <= k < r@.len() ==> 0 <= #[trigger] r@[k] <= state.max_iterations,
    {
        let w = state.screen_width;
        let h = state.screen_height;
        let mut escape_times: Vec<u32> = Vec::new();
        if w == 0 || h == 0 {
            proof {
                assert(escape_times@ =~= buffer_spec(state.model()));
                lemma_buffer_in_budget(state.model());
            }
            return escape_times;
        }
        let vp = compute_viewport(state);
        let step_x = big_div_u32(&vp.width, w);
        let step_y = big_div_u32(&vp.height, h);
        let mut y: u32 = 0;
        while y < h
            invariant
                state.wf(),
                1 <= w,
                1 <= h,
                w == state.screen_width,
                h == state.screen_height,
                y <= h,
                big_value(vp.pos_x) == origin_x_spec(state.model()),
                big_value(vp.pos_y) == origin_y_spec(state.model()),
                big_value(step_x) == step_x_spec(state.model()),
                big_value(step_y) == step_y_spec(state.model()),
                escape_times@.len() == y * w,
                forall|k: int|
                    0 <= k < escape_times@.len() ==> escape_times@[k] == buffer_spec(
                        state.model(),
                    )[k],
            decreases h - y,
        {
            let c_img = big_add(&vp.pos_y, &big_mul(&big_from_i128(y as i128), &step_y));
            let mut x: u32 = 0;
            while x < w
                invariant
                    state.wf(),
                    1 <= w,
                    1 <= h,
                    w == state.screen_width,
                    h == state.screen_height,
                    x <= w,
                    y < h,
                    big_value(vp.pos_x) == origin_x_spec(state.model()),
                    big_value(step_x) == step_x_spec(state.model()),
                    big_value(c_img) == origin_y_spec(state.model()) + y * step_y_spec(
                        state.model(),
                    ),
                    escape_times@.len() == y * w + x,
                    forall|k: int|
                        0 <= k < escape_times@.len() ==> escape_times@[k] == buffer_spec(
                            state.model(),
                        )[k],
                decreases w - x,
            {
                let c_real = big_add(&vp.pos_x, &big_mul(&big_from_i128(x as i128), &step_x));
                let t = escape_time(&c_real, &c_img, state.digits, state.max_iterations);
                proof {
                    assert((y as int * w as int + x as int) < (w as int) * (h as int))
                        by (nonlinear_arith)
                        requires
                            0 <= x < w,
                            0 <= y < h,
                    ;
                    lemma_fundamental_div_mod_converse(
                        y as int * w as int + x as int,
                        w as int,
                        y as int,
                        x as int,
                    );
                }
                escape_times.push(t);
                x = x + 1;
            }
            proof {
                assert((y as int + 1) * w as int == y as int * w as int + w as int)
                    by (nonlinear_arith);
            }
            y = y + 1;
        }
        proof {
            assert(h as int * w as int == w as int * h as int) by (nonlinear_arith);
            assert(escape_times@ =~= buffer_spec(state.model()));
            lemma_buffer_in_budget(state.model());
        }
        escape_times
    }
}

} // verus!
