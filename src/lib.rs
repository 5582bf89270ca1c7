//! Integration engine for continuous-time dynamical systems.
//!
//! The library holds the parts of the engine that decide and orchestrate:
//! which stepping scheme serves which approach, when parameters are rejected,
//! how a fixed-step run strings steps into a trajectory, how a Newton solve
//! stops, and how the Lyapunov estimator walks its renormalization intervals.
//! The arithmetic on states is supplied by the caller as closures, so every
//! loop here is generic over the time and state types.
pub mod error;
pub mod fixed;
pub mod lyapunov;
pub mod newton;
pub mod params;
pub mod scheme;
pub mod trajectory;
