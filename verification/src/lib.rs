//! Escape-time evaluation engine for deep-zoom Mandelbrot rendering.
//!
//! The engine iterates the complex quadratic recurrence in a fixed-point
//! arbitrary-precision number domain, so that magnification beyond the range
//! of native doubles still produces correct escape times.  The number domain
//! is built on `num`'s big integers; everything layered on top of them --
//! fixed-point arithmetic, viewport mapping, the per-pixel kernel and the
//! render-state commands -- is verified.

pub mod bignum;
pub mod fixed;
pub mod state;
pub mod viewport;
pub mod cpu;

pub use cpu::CPURenderer;
pub use state::RenderingState;
