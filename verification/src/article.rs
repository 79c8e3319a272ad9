//! The article record and the request and response shapes around it.
//! Instants are kept as signed epoch timestamps; identifiers are the
//! store's own numeric ids.

use vstd::prelude::*;

verus! {

#[derive(Clone, Copy, PartialEq, Eq, Structural, Debug)]
pub enum ArticleStatus {
    Draft,
    Published,
    Unlisted,
    Archived,
}

/// A stored article row.
pub struct Article {
    pub id: u64,
    pub title: String,
    pub subtitle: Option<String>,
    pub content: String,
    pub content_html: String,
    pub excerpt: Option<String>,
    pub featured_image_url: Option<String>,
    pub author_id: u64,
    pub publication_id: Option<u64>,
    pub status: ArticleStatus,
    pub is_member_only: bool,
    pub is_featured: bool,
    pub paywall_position: Option<i32>,
    pub slug: String,
    pub tags: Vec<String>,
    pub categories: Vec<String>,
    pub reading_time_minutes: u64,
    pub claps_count: u64,
    pub comments_count: u64,
    pub bookmarks_count: u64,
    pub views_count: u64,
    pub reads_count: u64,
    pub published_at: Option<i64>,
    pub created_at: i64,
    pub updated_at: i64,
    pub last_auto_save: Option<i64>,
    pub auto_save_version: u64,
}

pub struct CreateArticleRequest {
    pub title: String,
    pub subtitle: Option<String>,
    pub content: String,
    pub excerpt: Option<String>,
    pub featured_image_url: Option<String>,
    pub publication_id: Option<u64>,
    pub tags: Option<Vec<String>>,
    pub categories: Option<Vec<String>>,
    pub is_member_only: Option<bool>,
    pub paywall_position: Option<i32>,
    pub status: Option<ArticleStatus>,
}

pub struct UpdateArticleRequest {
    pub title: Option<String>,
    pub subtitle: Option<String>,
    pub content: Option<String>,
    pub excerpt: Option<String>,
    pub featured_image_url: Option<String>,
    pub publication_id: Option<u64>,
    pub tags: Option<Vec<String>>,
    pub categories: Option<Vec<String>>,
    pub is_member_only: Option<bool>,
    pub paywall_position: Option<i32>,
    pub status: Option<ArticleStatus>,
}

pub struct AutoSaveDraftRequest {
    pub article_id: Option<u64>,
    pub title: Option<String>,
    pub subtitle: Option<String>,
    pub content: String,
    pub excerpt: Option<String>,
    pub featured_image_url: Option<String>,
    pub tags: Option<Vec<String>>,
    pub categories: Option<Vec<String>>,
    pub is_member_only: Option<bool>,
    pub paywall_position: Option<i32>,
}

/// The viewing reader's relation to one article.
#[derive(Clone, Copy, PartialEq, Eq, Structural, Debug)]
pub struct UserInteractions {
    pub has_clapped: bool,
    pub clap_count: i32,
    pub has_bookmarked: bool,
    pub is_following_author: bool,
}

/// Public profile fields of an article's author, joined into responses.
pub struct ArticleAuthor {
    pub id: u64,
    pub username: String,
    pub display_name: Option<String>,
    pub avatar_url: Option<String>,
    pub bio: Option<String>,
    pub followers_count: u64,
    pub is_verified: bool,
}

pub struct ArticlePublication {
    pub id: u64,
    pub name: String,
    pub description: Option<String>,
    pub logo_url: Option<String>,
    pub followers_count: u64,
}

/// The externally visible representation of an article.
pub struct ArticleResponse {
    pub id: u64,
    pub title: String,
    pub subtitle: Option<String>,
    pub content: String,
    pub content_html: String,
    pub excerpt: Option<String>,
    pub featured_image_url: Option<String>,
    pub author: ArticleAuthor,
    pub publication: Option<ArticlePublication>,
    pub status: ArticleStatus,
    pub is_member_only: bool,
    pub paywall_position: Option<i32>,
    pub slug: String,
    pub tags: Vec<String>,
    pub reading_time_minutes: u64,
    pub claps_count: u64,
    pub comments_count: u64,
    pub bookmarks_count: u64,
    pub views_count: u64,
    pub published_at: Option<i64>,
    pub created_at: i64,
    pub updated_at: i64,
    pub user_interactions: Option<UserInteractions>,
    pub share_url: String,
    pub share_title: String,
    pub share_description: String,
}

pub struct ArticleListResponse {
    pub articles: Vec<ArticleResponse>,
    pub total: u64,
    pub limit: i64,
    pub offset: i64,
}

#[derive(Clone, Copy, PartialEq, Eq, Structural, Debug)]
pub enum ArticleSortBy {
    Recent,
    Popular,
    Trending,
    Claps,
    Views,
}

pub struct ArticleQueryParams {
    pub page: Option<i64>,
    pub limit: Option<i64>,
    pub tag: Option<String>,
    pub category: Option<String>,
    pub author: Option<String>,
    pub publication: Option<String>,
    pub status: Option<ArticleStatus>,
    pub sort: Option<ArticleSortBy>,
    pub search: Option<String>,
}

impl Default for ArticleQueryParams {
    fn default() -> (r: Self)
        ensures
            r.page == Some(1i64),
            r.limit == Some(20i64),
            r.tag is None,
            r.category is None,
            r.author is None,
            r.publication is None,
            r.status is None,
            r.sort == Some(ArticleSortBy::Recent),
            r.search is None,
    {
        ArticleQueryParams {
            page: Some(1),
            limit: Some(20),
            tag: None,
            category: None,
            author: None,
            publication: None,
            status: None,
            sort: Some(ArticleSortBy::Recent),
            search: None,
        }
    }
}

} // verus!
