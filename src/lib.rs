//! An escape-time fractal renderer over fixed-point numbers.
//!
//! Every real quantity (plane coordinates, jitter offsets, colour channels)
//! is a signed or unsigned integer counting units of `1 / ONE`, so that the
//! whole pipeline, from the orbit recurrence to the bytes handed to an image
//! encoder, is integer arithmetic with exact contracts.

mod color;
mod complex;
mod encode;
mod escape;
mod jitter;
mod render;
mod report;
mod viewport;

pub use color::{palette_color, Color, PALETTE_SIZE};
pub use complex::{Complex, ONE};
pub use render::{accumulate_samples, render, render_row, shade_pixel, validate, RenderConfig};
pub use report::{elapsed_parts, progress_bar, progress_marks, progress_percent, BAR_WIDTH};
pub use viewport::{sample_to_plane, RenderError, Viewport, MAX_COORD, MAX_SPAN};
pub use jitter::{JitterSource, HALF_PIXEL};
pub use encode::{rgba_bytes, to_byte};
pub use escape::evaluate;
