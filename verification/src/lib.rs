//! Core engine of a content-publishing backend: the article lifecycle,
//! engagement counters kept consistent with their detail rows, slug
//! allocation, and the three ranked read paths (follow feed, trending,
//! keyword relevance), all over an in-memory model of the relational
//! state.

use vstd::prelude::*;

pub mod accounts;
pub mod article;
pub mod assemble;
pub mod comments;
pub mod config;
pub mod counting;
pub mod engagement;
pub mod laws;
pub mod ledger;
pub mod lifecycle;
pub mod listings;
pub mod matching;
pub mod numbers;
pub mod publication;
pub mod ranking;
pub mod relevance;
pub mod sanitize;
pub mod search;
pub mod slug;
pub mod store;
pub mod strutil;
pub mod text;
pub mod user;

verus! {

} // verus!
