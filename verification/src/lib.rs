//! Core of an interactive question wizard: an ordered set of single- or
//! multi-select questions is walked screen by screen, per-question selections
//! are captured and frozen into committed answers, a review screen gathers
//! everything before one final submit, and a one-shot channel hands the
//! outcome (the answer list, or a cancellation) to the host.
//!
//! The library also carries the time-based interpolation primitives that
//! drive the host's visual feedback; they work in fixed-point thousandths so
//! that their behaviour is fully specified. Rendering, argument handling and
//! serialisation stay outside the library.

pub mod answer;
pub mod channel;
pub mod interp;
pub mod question;
pub mod selection;
pub mod text;
pub mod wizard;
