//! Request and response bodies of the comment endpoints.

pub mod response;
pub mod schema;
