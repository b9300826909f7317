//! A two-dimensional lattice of binary spins with a stochastic,
//! temperature-controlled single-site update rule.
//!
//! The lattice stores `Up`/`Down` cells; a boundary-aware query returns a
//! distinct `OOB` sentinel outside the grid. Each update draws one site
//! uniformly at random, aggregates its Moore neighborhood into a net
//! influence, maps that through a logistic curve (computed in Q32
//! fixed-point arithmetic) and samples the site's new spin.

use vstd::prelude::*;

mod lattice;
mod prob;
mod rng;

pub use lattice::MagnetizedMaterial;
pub use lattice::Spin;
pub use prob::HALF_Q32;
pub use prob::MICRO;
pub use prob::ONE_Q32;
pub use prob::p_up_q32;
