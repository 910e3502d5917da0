//! A deterministic, integer-only Elo rating engine.
//!
//! Every real-valued intermediate is carried as an integer scaled by `2^10`,
//! so rating updates are bit-identical across machines, compilers and
//! optimization levels: no floating-point arithmetic appears anywhere.
//!
//! The [`fixed`] module emulates the transcendental functions the logistic
//! Elo model needs (`e^x` and `10^x`) with bounded integer iteration; the
//! [`rating`] module builds the expected-score calculator and the rating
//! update on top of it.

pub mod fixed;
pub mod rating;

pub use crate::rating::elo;
pub use crate::rating::expected_score;
pub use crate::rating::EloConfig;
pub use crate::rating::EloRating;
pub use crate::rating::Outcomes;
