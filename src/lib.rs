//! Authentication core of a content backend: password credentials, signed
//! identity tokens, and the session rules that decide who is authenticated.
//! Request and response bodies of the endpoints are plain types here.

pub mod article;
pub mod auth;
pub mod claims;
pub mod comment;
pub mod decimal;
pub mod entropy;
pub mod models;
pub mod note;
pub mod password;
pub mod service;
pub mod session;
pub mod token;
pub mod user;
