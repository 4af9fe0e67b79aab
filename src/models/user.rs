//! Sample person and user records.

use vstd::prelude::*;

verus! {

/// A person with login details.
#[derive(Clone, Debug)]
pub struct Person {
    pub name: String,
    pub age: u32,
    pub email: String,
    pub username: String,
    pub password: String,
}

/// A created user: numeric id and username.
#[derive(Clone, Debug)]
pub struct User {
    pub id: u64,
    pub username: String,
}

} // verus!
