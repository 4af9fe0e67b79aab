//! Input of the demo user-creation endpoint.

use vstd::prelude::*;

verus! {

/// Body of a demo user creation.
#[derive(Clone, Debug)]
pub struct CreateUser {
    pub username: String,
}

} // verus!
