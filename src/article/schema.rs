//! Request bodies and query options of the article endpoints.

use vstd::prelude::*;

verus! {

/// Paging and filters of the article list.
#[derive(Clone, Debug, Default)]
pub struct FilterOptions {
    pub page: Option<usize>,
    pub limit: Option<usize>,
    pub id: Option<String>,
    pub title: Option<String>,
    pub author: Option<String>,
    pub category: Option<String>,
    pub is_delete: Option<bool>,
}

/// Paging of a comment list.
#[derive(Clone, Debug)]
pub struct FliterCommentsOptions {
    pub page: Option<usize>,
    pub limit: Option<usize>,
}

/// An id taken from the path.
#[derive(Clone, Debug)]
pub struct ParamOptions {
    pub id: String,
}

/// Body of a new article.
#[derive(Clone, Debug)]
pub struct CreateArticleSchema {
    pub title: String,
    pub author: String,
    pub content: String,
    pub category: String,
    pub cover_img: Option<String>,
}

/// Body of an article update.
#[derive(Clone, Debug)]
pub struct UpdateArticleSchema {
    pub title: String,
    pub author: String,
    pub content: String,
    pub category: String,
    pub support_count: i32,
    pub support_users: Vec<String>,
    pub views_count: i32,
}

/// Body naming a user who supports an article.
#[derive(Clone, Debug)]
pub struct UpdateArticleSupportUserSchema {
    pub support_user: String,
}

/// Body of a crawl request; it carries nothing.
#[derive(Clone, Debug)]
pub struct CrawelSchema {}

} // verus!
