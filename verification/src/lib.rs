//! Scalar Kalman filtering over fixed-point numbers.
//!
//! A one-dimensional object moves with a randomly perturbed velocity and is
//! seen through noise; a recursive Gaussian filter recovers its position from
//! the observations alone. Every quantity is an integer count of
//! `1 / SCALE` units, so that each result is an exact function of its
//! inputs and the contracts can say which.
//!
//! - `fixed`: the arithmetic that the rest is built on.
//! - `config`, `error`: the parameters of a run and the ways it can fail.
//! - `belief`: Gaussian beliefs, fusion and prediction, and their laws.
//! - `noise`: the random source.
//! - `truth`, `measurement`, `estimator`: the three stages of a run.
//! - `pipeline`, `trajectory`: a whole run and what it returns.

pub mod belief;
pub mod config;
pub mod error;
pub mod estimator;
pub mod fixed;
pub mod measurement;
pub mod noise;
pub mod pipeline;
pub mod trajectory;
pub mod truth;
