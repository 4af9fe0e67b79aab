//! Response bodies of the comment endpoints.

use vstd::prelude::*;

verus! {

/// A code, a status and a message.
#[derive(Clone, Debug)]
pub struct MessageResponse {
    pub code: u8,
    pub status: String,
    pub message: String,
}

} // verus!
