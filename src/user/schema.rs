//! Request bodies and query options of the user endpoints.

use vstd::prelude::*;

verus! {

/// Paging and filters of the user list.
#[derive(Clone, Debug, Default)]
pub struct FilterOptions {
    pub page: Option<usize>,
    pub limit: Option<usize>,
    pub id: Option<String>,
    pub nickname: Option<String>,
    pub username: Option<String>,
    pub is_delete: Option<bool>,
}

impl FilterOptions {
    /// The page asked for; the first page when none is given.
    pub fn page_or_default(&self) -> (r: usize)
        ensures
            r == match self.page {
                Some(p) => p,
                None => 1,
            },
    {
        match self.page {
            Some(p) => p,
            None => 1,
        }
    }

    /// The page size asked for; ten when none is given.
    pub fn limit_or_default(&self) -> (r: usize)
        ensures
            r == match self.limit {
                Some(l) => l,
                None => 10,
            },
    {
        match self.limit {
            Some(l) => l,
            None => 10,
        }
    }
}

/// Body of a sign-up request.
#[derive(Clone, Debug)]
pub struct CreateUserSchema {
    pub username: String,
    pub nickname: String,
    pub password: String,
    pub avatar: String,
    pub email: String,
}

/// Body of a profile update; absent fields stay as they are.
#[derive(Clone, Debug)]
pub struct UpdateUserSchema {
    pub email: Option<String>,
    pub nickname: Option<String>,
}

/// Body of a password change.
#[derive(Clone, Debug)]
pub struct UpdateUserPasswordSchema {
    pub old_password: String,
    pub new_password: String,
}

/// Body of a login request.
#[derive(Clone, Debug)]
pub struct VaildUserSchema {
    pub username: String,
    pub password: String,
}

} // verus!
