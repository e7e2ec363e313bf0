//! Bookkeeping core of a double-pendulum simulator: bounded histories, the
//! sub-stepping loop of the integrator, and the batch of independent
//! pendulum instances with its run state.

pub mod batch;
pub mod chaos;
pub mod energy;
pub mod integrator;
pub mod model;
pub mod trace;
