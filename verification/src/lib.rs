//! Natural cubic spline interpolation.
//!
//! The library fits a piecewise-cubic curve through a sorted sequence of
//! knots and evaluates the fitted curve at query points.  Coordinates are
//! carried as IEEE-754 double-precision bit patterns (`u64`), so that the
//! ordering and validation logic can be reasoned about exactly; the caller
//! converts with `f64::to_bits` / `f64::from_bits` and performs the
//! floating-point arithmetic (the linear solve and the polynomial
//! evaluation) on the values the library hands back.

pub mod argparse;
pub mod common;
pub mod evaluate;
pub mod interpolate;
