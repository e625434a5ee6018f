//! Pure decision logic of the network-facing actors.

pub mod socket;
