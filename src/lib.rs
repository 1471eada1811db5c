//! Exact rational weights, strong-stability-preserving Runge-Kutta time
//! advance over any state with blend arithmetic, and the stage schedule that
//! drives an asynchronous, fallible advance.

pub mod rational;
pub mod runge_kutta;
pub mod stages;
