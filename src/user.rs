//! Request and response bodies of the user endpoints.

pub mod response;
pub mod schema;
