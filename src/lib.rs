//! A URL-shortening service's core: short identifier allocation with a bounded
//! collision-retry protocol, an API key guard, and the redirect decision.

pub mod ident;
pub mod error;
pub mod models;
pub mod protocol;
pub mod timed;
pub mod auth;
pub mod redirect;
pub mod target;
pub mod store;
