//! What holds of the simulator as a whole.

pub mod agreement;
pub mod at_rest;
pub mod balance;
pub mod currents;
pub mod elimination;
pub mod exact;
pub mod history;
pub mod iteration;
pub mod operating_point;
pub mod outcomes;
pub mod readout;
pub mod relays;
pub mod reproducible;
pub mod services;
pub mod simulator;
pub mod stamps;
pub mod steps;
