//! Query options of the note endpoints.

use vstd::prelude::*;

verus! {

/// Page and keyword of a note search.
#[derive(Clone, Debug)]
pub struct SubjectArgsOpt {
    pub page: Option<i32>,
    pub keyword: Option<String>,
}

} // verus!
