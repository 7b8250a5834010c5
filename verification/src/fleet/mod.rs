//! One run of a short-lived fleet: bid, wait for fulfilment, wait for the
//! machines to become reachable, set them up, use them, tear them down.

pub mod bids;
pub mod instances;
pub mod laws;
pub mod model;
pub mod pace;
pub mod plan;
pub mod readiness;
pub mod run;
