//! Engagement facts: claps, bookmarks, comments, highlights and reading
//! lists.  The presence of a clap or bookmark row, not its magnitude,
//! is what the article counters aggregate.

use vstd::prelude::*;

verus! {

/// One reader's clap on one article.  At most one row exists for each
/// (user, article) pair; the magnitude is recorded but not aggregated.
pub struct Clap {
    pub id: u64,
    pub user_id: u64,
    pub article_id: u64,
    pub clap_count: i32,
    pub created_at: i64,
    pub updated_at: i64,
}

#[derive(Clone, Copy, PartialEq, Eq, Structural, Debug)]
pub struct ClapRequest {
    pub clap_count: i32,
}

/// One reader's bookmark of one article; unique per (user, article).
pub struct Bookmark {
    pub id: u64,
    pub user_id: u64,
    pub article_id: u64,
    pub created_at: i64,
}

/// A comment, optionally one level below a parent comment.
pub struct Comment {
    pub id: u64,
    pub article_id: u64,
    pub user_id: u64,
    pub parent_id: Option<u64>,
    pub content: String,
    pub content_html: String,
    pub claps_count: u64,
    pub replies_count: u64,
    pub is_author_reply: bool,
    pub created_at: i64,
    pub updated_at: i64,
}

pub struct CreateCommentRequest {
    pub content: String,
    pub parent_id: Option<u64>,
}

pub struct UpdateCommentRequest {
    pub content: String,
}

#[derive(Clone, Copy, PartialEq, Eq, Structural, Debug)]
pub struct CommentInteractions {
    pub has_clapped: bool,
    pub clap_count: i32,
}

pub struct CommentAuthor {
    pub id: u64,
    pub username: String,
    pub display_name: Option<String>,
    pub avatar_url: Option<String>,
    pub is_verified: bool,
}

/// A comment joined with its author and, for top-level comments, its
/// replies.
pub struct CommentResponse {
    pub id: u64,
    pub content: String,
    pub content_html: String,
    pub author: CommentAuthor,
    pub parent_id: Option<u64>,
    pub claps_count: u64,
    pub replies_count: u64,
    pub is_author_reply: bool,
    pub created_at: i64,
    pub updated_at: i64,
    pub user_interactions: Option<CommentInteractions>,
    pub replies: Option<Vec<CommentResponse>>,
}

pub struct CreateHighlightRequest {
    pub selected_text: String,
    pub note: Option<String>,
    pub start_position: i32,
    pub end_position: i32,
}

pub struct CreateReadingListRequest {
    pub name: String,
    pub description: Option<String>,
    pub is_public: Option<bool>,
}

} // verus!
