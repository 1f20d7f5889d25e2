//! Engine for a continuous-state, Lenia-style cellular automaton.
//!
//! A grid of cells, each holding a scalar "aliveness" in [0, 1], evolves under
//! a smooth kernel-averaged growth rule.  This crate owns the state
//! representation, the step scheduling, the brush editor, the parameter store
//! and the colour-table bookkeeping; the floating-point inner kernel (the
//! Gaussian growth curve and the noise draw), windowing and rendering are left
//! to the surrounding binary.  Cell scalars cross the boundary as IEEE-754
//! double bit patterns, so the engine can state and enforce the range
//! invariant without doing floating-point arithmetic itself.

pub mod cell;
pub mod game;
pub mod params;
pub mod rng;
