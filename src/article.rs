//! Request bodies of the article endpoints.

pub mod schema;
