//! Verified core of a small molecular-dynamics package.
//!
//! The crate holds the logic that can be checked exactly: the recipe text
//! parser (tokenisation, unit recognition, the decimal number grammar and the
//! error taxonomy), the enumeration of periodic image offsets, and the
//! fixed-width assembly of trajectory export records.  The floating-point
//! integrator itself lives outside the verified library.

pub mod text;
pub mod units;
pub mod number;
pub mod recipe;
pub mod offsets;
pub mod gro;
pub mod trajectory;
