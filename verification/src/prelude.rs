//! The items most callers need.

pub use crate::disparity::{DisparityAlgorithm, DisparityMap};
