//! Request bodies and query options of the comment endpoints.

use vstd::prelude::*;

verus! {

/// Paging of the comment list.
#[derive(Clone, Debug, Default)]
pub struct FilterOptions {
    pub page: Option<usize>,
    pub limit: Option<usize>,
}

/// An id taken from the path.
#[derive(Clone, Debug)]
pub struct ParamOptions {
    pub id: String,
}

/// Body of a new comment.
#[derive(Clone, Debug)]
pub struct CreateCommentSchema {
    pub article_id: String,
    pub author: String,
    pub content: String,
}

/// Body asking for the comments of one article.
#[derive(Clone, Debug)]
pub struct GetCommentsByArticleNumSchema {
    pub article_id: String,
}

/// Body of a comment update; absent fields stay as they are.
#[derive(Clone, Debug)]
pub struct UpdateCommentSchema {
    pub article_id: Option<String>,
    pub content: Option<String>,
    pub author: Option<String>,
    pub good_count: Option<i32>,
}

} // verus!
