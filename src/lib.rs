//! Double-double and quad-double numbers, modelled over the bit patterns of
//! their binary64 components.
//!
//! A wide number is an unevaluated sum of binary64 components, each held here
//! as the `u64` of its bits. The library decides and states everything that
//! can be read from those bits: classification, negation and absolute value,
//! IEEE equality and lexicographic order, the byte images, the special-value
//! policy of the operators, the exactly known angles of `atan2`, and the
//! decimal rendering of extracted digits. The error-free transformations
//! themselves run on the host's binary64 arithmetic, outside this crate.
pub mod binary64;
pub mod bytes;
pub mod digits;
pub mod double;
pub mod format;
pub mod quad;
pub mod special;
pub mod trig;
