//! Verified core of the OpenUsage multi-machine sync: the relay's room store,
//! the wire types that agents push and dashboards pull, the agent's
//! configuration and diagnostic decisions, and the small text rules they share.

pub mod keyed;
pub mod text;
pub mod wire;
pub mod clock;
pub mod relay;
pub mod token;
pub mod endpoints;
pub mod paths;
pub mod agent;
pub mod doctor;
