//! The web side: which page answers a request.

pub mod client;
pub mod compose;
