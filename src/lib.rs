//! Typed extraction of values from parsed XML responses of a legacy forum
//! endpoint, and the mapping of a vote operation onto that endpoint.

pub mod decimal;
pub mod extract;
pub mod pairs;
pub mod vote;
pub mod xml;
