//! Sample records of the early demo endpoints.

pub mod user;
