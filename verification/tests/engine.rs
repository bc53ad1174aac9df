use mandelbrot::cpu::{escape_time, CPURenderer};
use mandelbrot::fixed::{from_mantissa, mul_bigint};
use mandelbrot::state::RenderingState;
use mandelbrot::viewport::compute_viewport;
use num::BigInt;
use num::ToPrimitive;

/// Fixed-point image of a float: the mantissa is the float scaled by 2^16
/// and truncated, then shifted onto its limb offset.
fn float_to_bigint(x: f64, digits: u32) -> BigInt {
    BigInt::from((x * f64::powi(2.0, 16)) as i128) << ((digits - 2) * 16) as usize
}

fn float_to_mantissa(x: f64) -> i128 {
    (x * 65536.0) as i128
}

/// The escape-time loop in native double arithmetic, for comparison.
fn float_escape_time(c_real: f64, c_img: f64, max_iterations: u32) -> u32 {
    let mut z_real = 0.0f64;
    let mut z_img = 0.0f64;
    for i in 0..max_iterations {
        let new_real = z_real * z_real - z_img * z_img + c_real;
        let new_img = 2.0 * z_real * z_img + c_img;
        z_real = new_real;
        z_img = new_img;
        if z_real * z_real + z_img * z_img > 4.0 {
            return i;
        }
    }
    max_iterations
}

#[test]
fn test_escape_times() {
    let renderer = CPURenderer::new();
    let digits = 2;
    let state = RenderingState {
        zoom: float_to_bigint(1.0, digits),
        view_x: float_to_bigint(-0.3, digits),
        view_y: float_to_bigint(0.0, digits),
        max_iterations: 30,
        screen_width: 10,
        screen_height: 10,
        digits,
    };
    println!("{:?}", renderer.calculate_escape_times(&state));
}

#[test]
fn viewport_square_screen() {
    let state = RenderingState {
        screen_width: 10,
        screen_height: 10,
        ..RenderingState::new(float_to_mantissa(1.0), 0, 0, 30, 2)
    };
    let vp = compute_viewport(&state);
    // zoom 1 on a square screen: extent (2, 2), origin (-1, -1)
    assert_eq!(vp.width, BigInt::from(131072));
    assert_eq!(vp.height, BigInt::from(131072));
    assert_eq!(vp.pos_x, BigInt::from(-65536));
    assert_eq!(vp.pos_y, BigInt::from(-65536));
}

#[test]
fn viewport_wide_screen_widens_real_axis() {
    let state = RenderingState {
        screen_width: 20,
        screen_height: 10,
        ..RenderingState::new(float_to_mantissa(1.0), 0, 0, 30, 2)
    };
    let vp = compute_viewport(&state);
    // the real axis is widened by the aspect ratio 2: extent (4, 2)
    assert_eq!(vp.width, BigInt::from(262144));
    assert_eq!(vp.height, BigInt::from(131072));
    assert_eq!(vp.pos_x, BigInt::from(-131072));
    assert_eq!(vp.pos_y, BigInt::from(-65536));
}

#[test]
fn center_and_corner_report_different_escape_times() {
    let state = RenderingState::new(
        float_to_mantissa(1.0),
        float_to_mantissa(-0.3),
        float_to_mantissa(0.0),
        30,
        2,
    );
    let buffer = state.render(10, 10);
    assert_eq!(buffer.len(), 100);
    // pixel (6, 5) is the one nearest the plane origin; pixel (0, 0) is a
    // corner far outside the bounded set
    let center = buffer[5 * 10 + 6];
    let corner = buffer[0];
    assert_ne!(center, corner);
    assert_eq!(center, 30);
    assert!(corner < 30);
}

#[test]
fn escape_times_stay_within_budget() {
    let state = RenderingState::new(
        float_to_mantissa(1.0),
        float_to_mantissa(-0.3),
        float_to_mantissa(0.0),
        30,
        2,
    );
    let buffer = state.render(10, 10);
    assert_eq!(buffer.len(), 100);
    for t in buffer {
        assert!(t <= 30);
    }
}

#[test]
fn render_twice_from_one_snapshot_is_bit_identical() {
    let state = RenderingState::new(
        float_to_mantissa(0.75),
        float_to_mantissa(-0.3),
        float_to_mantissa(0.2),
        25,
        3,
    );
    let first = state.render(8, 6);
    let second = state.render(8, 6);
    assert_eq!(first, second);
}

#[test]
fn mantissa_round_trip_recovers_float() {
    let digits = 4u32;
    for &x in &[0.0f64, 1.0, -0.3, 0.5, 3.25, -2.75, 123.456] {
        let b = from_mantissa(float_to_mantissa(x), digits);
        let back = b.to_f64().unwrap() / f64::powi(2.0, ((digits - 1) * 16) as i32);
        assert!((back - x).abs() <= 1.0 / 65536.0);
    }
}

#[test]
fn multiply_by_one_never_exceeds_operand() {
    let digits = 3u32;
    let one = from_mantissa(65536, digits);
    for &x in &[0.0f64, 1.0, -0.3, 0.7, 2.5, -1.25] {
        let a = from_mantissa(float_to_mantissa(x), digits);
        let p = mul_bigint(&a, &one, digits);
        assert!(p <= a);
        // multiplying by one loses nothing at all
        assert_eq!(p, a);
    }
}

#[test]
fn multiply_truncates_toward_negative_infinity() {
    // raw stored integers: (-3 * 1) >> 16 must floor to -1, not to 0
    let p = mul_bigint(&BigInt::from(-3), &BigInt::from(1), 2);
    assert_eq!(p, BigInt::from(-1));
}

#[test]
fn from_mantissa_places_limbs() {
    assert_eq!(from_mantissa(3, 5), BigInt::from(3) << 48usize);
    assert_eq!(from_mantissa(-19660, 2), BigInt::from(-19660));
}

#[test]
fn fixed_kernel_agrees_with_float_kernel_off_boundary() {
    let digits = 4u32;
    let max_iterations = 50u32;
    let points = [
        (0.0f64, 0.0f64),
        (-1.0, 0.0),
        (0.5, 0.5),
        (-2.5, 0.1),
        (1.0, 1.0),
        (0.25, -1.5),
        (0.3, -0.2),
    ];
    for &(c_real, c_img) in &points {
        let float_time = float_escape_time(c_real, c_img, max_iterations);
        let fixed_time = escape_time(
            &from_mantissa(float_to_mantissa(c_real), digits),
            &from_mantissa(float_to_mantissa(c_img), digits),
            digits,
            max_iterations,
        );
        let difference = (float_time as i64 - fixed_time as i64).abs();
        assert!(difference <= 1);
    }
}

#[test]
fn zoom_round_trip_returns_within_tolerance() {
    let mut state = RenderingState::new(float_to_mantissa(1.0), 0, 0, 30, 4);
    let original = state.zoom.clone();
    state.change_zoom(true);
    state.change_zoom(false);
    // truncation only ever loses: never above the starting zoom ...
    assert!(state.zoom <= original);
    // ... and short of it by less than original/2^18 plus a small constant
    let shortfall = (original.clone() - state.zoom.clone()) * BigInt::from(4294967296i128);
    let tolerance = BigInt::from(16384) * original.clone() + BigInt::from(9126805504i128);
    assert!(shortfall < tolerance);
    // cross-check the exact chain of truncating multiplies
    let offset = BigInt::from(1) << 32usize;
    let q1 = (original * (BigInt::from(58254) * offset.clone())) >> 48usize;
    let q2 = (q1 * (BigInt::from(73728) * offset)) >> 48usize;
    assert_eq!(state.zoom, q2);
}

#[test]
fn change_zoom_multiplies_by_the_factor() {
    let mut state = RenderingState::new(float_to_mantissa(1.0), 0, 0, 30, 2);
    state.change_zoom(false);
    // 1.0 * 1.125 is exact: (65536 * 73728) >> 16 == 73728
    assert_eq!(state.zoom, BigInt::from(73728));
    state.change_zoom(true);
    // (73728 * 58254) >> 16, truncated
    assert_eq!(state.zoom, BigInt::from((73728i128 * 58254) >> 16));
}

#[test]
fn change_view_scales_displacement_by_zoom() {
    let digits = 4u32;
    let mut state = RenderingState::new(float_to_mantissa(0.5), 0, 0, 30, digits);
    state.change_view(float_to_mantissa(1.0), float_to_mantissa(-2.0));
    let offset = BigInt::from(1) << 32usize;
    let zoom = BigInt::from(32768) * offset.clone();
    let expected_x = (BigInt::from(65536) * offset.clone() * zoom.clone()) >> 48usize;
    let expected_y = (BigInt::from(-131072) * offset * zoom) >> 48usize;
    assert_eq!(state.view_x, expected_x);
    assert_eq!(state.view_y, expected_y);
    // the zoom itself is untouched by panning
    assert_eq!(state.zoom, BigInt::from(32768) << 32usize);
}

#[test]
fn set_max_iterations_updates_the_budget() {
    let mut state = RenderingState::new(float_to_mantissa(1.0), 0, 0, 30, 2);
    state.set_max_iterations(200);
    assert_eq!(state.max_iterations, 200);
    assert_eq!(state.screen_width, 0);
    assert_eq!(state.screen_height, 0);
    assert_eq!(state.digits, 2);
}

#[test]
fn empty_screen_renders_empty_buffer() {
    let state = RenderingState::new(float_to_mantissa(1.0), 0, 0, 30, 2);
    assert_eq!(state.render(0, 10), Vec::<u32>::new());
    assert_eq!(state.render(10, 0), Vec::<u32>::new());
}
