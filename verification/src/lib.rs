//! Dense disparity maps from rectified stereo pairs by local block
//! correlation, on exact integer arithmetic.
//!
//! Intensities are 16-bit samples, correlation costs are sums of absolute
//! differences held in `u128`, and disparities are fixed-point values with
//! sixteen fractional bits.
//!
//! [`mcmanamon`] holds the algorithm: for every pixel between the borders
//! it costs each candidate disparity of the row's search interval
//! ([`cost`]), keeps the cheapest and refines it ([`subpixel`]), and moves
//! the interval after each row ([`range`]). Costs are updated from those
//! of the neighbouring pixels where these are at hand ([`cache`]).
//! [`model`] says what the resulting map is and which laws it obeys.
//! [`frame`] and [`grid`] hold the images, [`disparity`] the values and
//! the map, [`luma`] the grey images a map is shown as.

pub mod cache;
pub mod cost;
pub mod disparity;
pub mod error;
pub mod frame;
pub mod grid;
pub mod luma;
pub mod mcmanamon;
pub mod model;
pub mod prelude;
pub mod range;
pub mod subpixel;
