//! Response bodies of the user endpoints.

use vstd::prelude::*;

verus! {

/// A status and a message.
#[derive(Clone, Debug)]
pub struct GenericResponse {
    pub status: String,
    pub message: String,
}

/// A code, a token and a message.
#[derive(Clone, Debug)]
pub struct TokenMessageResponse {
    pub code: u8,
    pub token: String,
    pub message: String,
}

/// A code, a status and a message.
#[derive(Clone, Debug)]
pub struct MessageResponse {
    pub code: u8,
    pub status: String,
    pub message: String,
}

} // verus!
