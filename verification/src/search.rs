//! Search request and result shapes.  Relevance scores are integers:
//! every tier weight is a whole number, so no precision is lost.

use vstd::prelude::*;

verus! {

#[derive(Clone, Copy, PartialEq, Eq, Structural, Debug)]
pub enum SearchSortBy {
    Relevance,
    Recent,
    Popular,
    Claps,
}

#[derive(Clone, Copy, PartialEq, Eq, Structural, Debug)]
pub enum SearchFilter {
    Articles,
    Users,
    Publications,
    Tags,
}

pub struct SearchQuery {
    pub q: String,
    pub page: Option<i64>,
    pub limit: Option<i64>,
    pub sort: Option<SearchSortBy>,
    pub filter: Option<SearchFilter>,
}

pub struct SearchAuthorResult {
    pub id: u64,
    pub username: String,
    pub display_name: Option<String>,
    pub avatar_url: Option<String>,
}

pub struct SearchArticleResult {
    pub id: u64,
    pub title: String,
    pub subtitle: Option<String>,
    pub excerpt: String,
    pub slug: Option<String>,
    pub author: SearchAuthorResult,
    pub tags: Vec<String>,
    pub claps_count: u64,
    pub reading_time_minutes: u64,
    pub published_at: Option<i64>,
    pub relevance_score: u64,
}

pub struct SearchUserResult {
    pub id: u64,
    pub username: String,
    pub display_name: Option<String>,
    pub bio: Option<String>,
    pub avatar_url: Option<String>,
    pub followers_count: u64,
    pub articles_count: u64,
    pub is_verified: bool,
    pub relevance_score: u64,
}

pub struct SearchTagResult {
    pub name: String,
    pub articles_count: u64,
    pub followers_count: u64,
    pub relevance_score: u64,
}

pub struct SearchFilters {
    pub available_tags: Vec<String>,
    pub date_ranges: Vec<String>,
    pub reading_time_ranges: Vec<String>,
}

} // verus!
