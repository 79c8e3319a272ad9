//! Engagement and ranking behaviour: clap toggles, bookmarks, comments,
//! the follow feed, trending and relevance search.

use fastblog::article::{ArticleQueryParams, ArticleStatus, CreateArticleRequest};
use fastblog::engagement::{ClapRequest, CreateCommentRequest};
use fastblog::listings::trending_score;
use fastblog::search::{SearchQuery, SearchSortBy};
use fastblog::store::{Store, StoreError};
use fastblog::user::CreateUserRequest;

const BASE: &str = "http://localhost:3003";

fn new_user(s: &mut Store, email: &str, username: &str) -> u64 {
    s.register_user(
        CreateUserRequest {
            email: String::from(email),
            username: String::from(username),
            password: String::from("long-enough-password"),
            display_name: Some(String::from(username)),
        },
        String::from("SECRET-REDACTED"),
        100,
    )
    .unwrap()
}

fn published(s: &mut Store, author: u64, title: &str, content: &str, now: i64) -> u64 {
    s.create_article(
        author,
        CreateArticleRequest {
            title: String::from(title),
            subtitle: None,
            content: String::from(content),
            excerpt: None,
            featured_image_url: None,
            publication_id: None,
            tags: None,
            categories: None,
            is_member_only: None,
            paywall_position: None,
            status: Some(ArticleStatus::Published),
        },
        now,
    )
    .unwrap()
}

fn article_idx(s: &Store, id: u64) -> usize {
    s.articles.iter().position(|a| a.id == id).expect("article not stored")
}

#[test]
fn clap_toggle_pairs_back_to_zero() {
    let mut s = Store::new();
    let author = new_user(&mut s, "a@example.com", "author");
    let reader = new_user(&mut s, "r@example.com", "reader");
    let aid = published(&mut s, author, "Clappable", "text", 1000);
    let before = s.articles[article_idx(&s, aid)].claps_count;
    assert_eq!(before, 0);
    let (t1, p1, c1) = s.clap_article(aid, reader, ClapRequest { clap_count: 1 }, 2000).unwrap();
    assert_eq!((t1, p1, c1), (1, 1, true));
    assert_eq!(s.get_user_clap_count(aid, reader), 1);
    assert_eq!(s.articles[article_idx(&s, aid)].claps_count, 1);
    let (t2, p2, c2) = s.clap_article(aid, reader, ClapRequest { clap_count: 1 }, 2001).unwrap();
    assert_eq!((t2, p2, c2), (0, 0, false));
    assert_eq!(s.get_user_clap_count(aid, reader), 0);
    assert_eq!(s.articles[article_idx(&s, aid)].claps_count, before);
}

#[test]
fn claps_count_distinct_users_not_magnitudes() {
    let mut s = Store::new();
    let author = new_user(&mut s, "a@example.com", "author");
    let r1 = new_user(&mut s, "r1@example.com", "reader1");
    let r2 = new_user(&mut s, "r2@example.com", "reader2");
    let aid = published(&mut s, author, "Popular", "text", 1000);
    s.clap_article(aid, r1, ClapRequest { clap_count: 1 }, 2000).unwrap();
    let (total, _, _) = s.clap_article(aid, r2, ClapRequest { clap_count: 1 }, 2001).unwrap();
    assert_eq!(total, 2);
    assert!(matches!(s.clap_article(9999, r1, ClapRequest { clap_count: 1 }, 2002), Err(StoreError::NotFound)));
}

#[test]
fn bookmark_is_idempotent_and_floor_is_zero() {
    let mut s = Store::new();
    let author = new_user(&mut s, "a@example.com", "author");
    let reader = new_user(&mut s, "r@example.com", "reader");
    let aid = published(&mut s, author, "Keep", "text", 1000);
    assert_eq!(s.bookmark_article(aid, reader, 2000).unwrap(), false);
    assert_eq!(s.articles[article_idx(&s, aid)].bookmarks_count, 1);
    assert_eq!(s.bookmark_article(aid, reader, 2001).unwrap(), true);
    assert_eq!(s.articles[article_idx(&s, aid)].bookmarks_count, 1);
    assert_eq!(s.unbookmark_article(aid, reader), true);
    assert_eq!(s.articles[article_idx(&s, aid)].bookmarks_count, 0);
    assert_eq!(s.unbookmark_article(aid, reader), false);
    assert_eq!(s.articles[article_idx(&s, aid)].bookmarks_count, 0);
}

#[test]
fn bookmarking_a_draft_is_refused() {
    let mut s = Store::new();
    let author = new_user(&mut s, "a@example.com", "author");
    let reader = new_user(&mut s, "r@example.com", "reader");
    let draft = s
        .create_article(
            author,
            CreateArticleRequest {
                title: String::from("Unpublished"),
                subtitle: None,
                content: String::from("text"),
                excerpt: None,
                featured_image_url: None,
                publication_id: None,
                tags: None,
                categories: None,
                is_member_only: None,
                paywall_position: None,
                status: None,
            },
            1000,
        )
        .unwrap();
    assert!(matches!(s.bookmark_article(draft, reader, 2000), Err(StoreError::NotFound)));
}

#[test]
fn comments_move_both_counters_atomically() {
    let mut s = Store::new();
    let author = new_user(&mut s, "a@example.com", "author");
    let reader = new_user(&mut s, "r@example.com", "reader");
    let aid = published(&mut s, author, "Discussed", "text", 1000);
    let top = s
        .create_comment(
            aid,
            author,
            CreateCommentRequest { content: String::from("first!"), parent_id: None },
            2000,
        )
        .unwrap();
    assert!(!top.is_author_reply);
    assert_eq!(s.articles[article_idx(&s, aid)].comments_count, 1);
    let reply = s
        .create_comment(
            aid,
            reader,
            CreateCommentRequest { content: String::from("welcome"), parent_id: Some(top.id) },
            2001,
        )
        .unwrap();
    assert!(reply.is_author_reply);
    assert_eq!(s.articles[article_idx(&s, aid)].comments_count, 2);
    let parent_row = s.comments.iter().find(|c| c.id == top.id).unwrap();
    assert_eq!(parent_row.replies_count, 1);
    let missing_parent = s.create_comment(
        aid,
        reader,
        CreateCommentRequest { content: String::from("dangling"), parent_id: Some(9999) },
        2002,
    );
    assert!(matches!(missing_parent, Err(StoreError::NotFound)));
}

#[test]
fn comment_threads_come_back_oldest_first() {
    let mut s = Store::new();
    let author = new_user(&mut s, "a@example.com", "author");
    let aid = published(&mut s, author, "Thread", "text", 1000);
    let c1 = s
        .create_comment(aid, author, CreateCommentRequest { content: String::from("one"), parent_id: None }, 3000)
        .unwrap();
    let c2 = s
        .create_comment(aid, author, CreateCommentRequest { content: String::from("two"), parent_id: None }, 2000)
        .unwrap();
    s.create_comment(aid, author, CreateCommentRequest { content: String::from("sub"), parent_id: Some(c1.id) }, 4000)
        .unwrap();
    let threads = s.get_comments(aid, None).unwrap();
    assert_eq!(threads.len(), 2);
    assert_eq!(threads[0].id, c2.id);
    assert_eq!(threads[1].id, c1.id);
    assert!(threads[0].replies.is_none());
    let replies = threads[1].replies.as_ref().unwrap();
    assert_eq!(replies.len(), 1);
    assert_eq!(replies[0].content, "sub");
}

#[test]
fn follow_edges_drive_counts_and_feed() {
    let mut s = Store::new();
    let author = new_user(&mut s, "a@example.com", "author");
    let fan = new_user(&mut s, "f@example.com", "fan");
    let lurker = new_user(&mut s, "l@example.com", "lurker");
    assert_eq!(s.follow_user(fan, author, 2000).unwrap(), true);
    assert_eq!(s.follow_user(fan, author, 2001).unwrap(), false);
    assert!(s.is_following(fan, author));
    let author_row = s.users.iter().find(|u| u.user_id == author).unwrap();
    assert_eq!(author_row.followers_count, 1);
    let old = published(&mut s, author, "Older", "text", 1000);
    let newer = published(&mut s, author, "Newer", "text", 2000);
    published(&mut s, lurker, "Unfollowed", "text", 3000);
    let feed = s.get_user_feed(fan, None, None, BASE);
    assert_eq!(feed.total, 2);
    assert_eq!(feed.articles.len(), 2);
    assert_eq!(feed.articles[0].id, newer);
    assert_eq!(feed.articles[1].id, old);
    assert_eq!(feed.articles[0].user_interactions.as_ref().unwrap().is_following_author, true);
    assert_eq!(s.unfollow_user(fan, author), true);
    assert_eq!(s.unfollow_user(fan, author), false);
    let feed_after = s.get_user_feed(fan, None, None, BASE);
    assert_eq!(feed_after.total, 0);
}

#[test]
fn trending_score_matches_the_formula() {
    let now: i64 = 1_000_000;
    let two_hours_ago = now - 7200;
    // 10*3 + 5*2 + 20*1 + 100*0.1 + 10 = 80, reported in tenths
    assert_eq!(trending_score(10, 5, 20, 100, two_hours_ago, now), 800);
    let two_days_ago = now - 172_800;
    assert_eq!(trending_score(10, 5, 20, 100, two_days_ago, now), 700);
}

#[test]
fn trending_ranks_by_score_inside_the_window() {
    let mut s = Store::new();
    let author = new_user(&mut s, "a@example.com", "author");
    let now: i64 = 1_000_000;
    let hot = published(&mut s, author, "Hot", "text", now - 3600);
    let mild = published(&mut s, author, "Mild", "text", now - 3600);
    let stale = published(&mut s, author, "Stale", "text", now - 200 * 3600);
    for _ in 0..5 {
        s.record_read(hot);
    }
    s.record_read(mild);
    let r = s.get_trending_articles(None, None, None, None, now, BASE);
    assert_eq!(r.total, 2);
    assert_eq!(r.articles[0].id, hot);
    assert_eq!(r.articles[1].id, mild);
    assert!(r.articles.iter().all(|a| a.id != stale));
    let wide = s.get_trending_articles(None, None, None, Some(300), now, BASE);
    assert_eq!(wide.total, 3);
}

#[test]
fn listing_filters_and_pagination_clamp() {
    let mut s = Store::new();
    let author = new_user(&mut s, "a@example.com", "author");
    for k in 0..3 {
        let aid = s
            .create_article(
                author,
                CreateArticleRequest {
                    title: format!("Piece {}", k),
                    subtitle: None,
                    content: String::from("text"),
                    excerpt: None,
                    featured_image_url: None,
                    publication_id: None,
                    tags: Some(vec![String::from("verus")]),
                    categories: Some(vec![String::from("tools")]),
                    is_member_only: None,
                    paywall_position: None,
                    status: Some(ArticleStatus::Published),
                },
                1000 + k,
            )
            .unwrap();
        let _ = aid;
    }
    let mut params = ArticleQueryParams::default();
    params.limit = Some(2);
    let page1 = s.get_articles(&params, None, BASE);
    assert_eq!(page1.total, 3);
    assert_eq!(page1.articles.len(), 2);
    assert_eq!(page1.limit, 2);
    params.page = Some(2);
    let page2 = s.get_articles(&params, None, BASE);
    assert_eq!(page2.articles.len(), 1);
    let mut by_tag = ArticleQueryParams::default();
    by_tag.tag = Some(String::from("verus"));
    assert_eq!(s.get_articles(&by_tag, None, BASE).total, 3);
    let mut by_missing_tag = ArticleQueryParams::default();
    by_missing_tag.tag = Some(String::from("absent"));
    assert_eq!(s.get_articles(&by_missing_tag, None, BASE).total, 0);
    let mut by_author = ArticleQueryParams::default();
    by_author.author = Some(format!("{}", author));
    assert_eq!(s.get_articles(&by_author, None, BASE).total, 3);
    let mut by_bad_author = ArticleQueryParams::default();
    by_bad_author.author = Some(String::from("not-a-number"));
    assert_eq!(s.get_articles(&by_bad_author, None, BASE).total, 0);
}

#[test]
fn search_prefers_title_hits_over_content_hits() {
    let mut s = Store::new();
    let author = new_user(&mut s, "a@example.com", "author");
    let titled = published(&mut s, author, "Rust in practice", "nothing else here", 1000);
    let contentful = published(
        &mut s,
        author,
        "Cooking notes",
        "rust rust rust everywhere in the pantry",
        1001,
    );
    let q = SearchQuery {
        q: String::from("rust"),
        page: None,
        limit: None,
        sort: None,
        filter: None,
    };
    let hits = s.search_articles(&q);
    assert_eq!(hits.len(), 2);
    assert_eq!(hits[0].id, titled);
    assert_eq!(hits[1].id, contentful);
    assert!(hits[0].relevance_score > hits[1].relevance_score);
    assert_eq!(hits[0].relevance_score, 28);
    assert_eq!(hits[1].relevance_score, 14);
    assert!(hits[1].excerpt.contains("rust"));
}

#[test]
fn search_can_order_by_claps() {
    let mut s = Store::new();
    let author = new_user(&mut s, "a@example.com", "author");
    let reader = new_user(&mut s, "r@example.com", "reader");
    let plain = published(&mut s, author, "Verus guide one", "text", 1000);
    let clapped = published(&mut s, author, "Verus guide two", "text", 1001);
    s.clap_article(clapped, reader, ClapRequest { clap_count: 1 }, 2000).unwrap();
    let q = SearchQuery {
        q: String::from("verus"),
        page: None,
        limit: None,
        sort: Some(SearchSortBy::Claps),
        filter: None,
    };
    let hits = s.search_articles(&q);
    assert_eq!(hits.len(), 2);
    assert_eq!(hits[0].id, clapped);
    assert_eq!(hits[1].id, plain);
}

#[test]
fn assembled_response_carries_share_fields_and_flags() {
    let mut s = Store::new();
    let author = new_user(&mut s, "a@example.com", "author");
    let reader = new_user(&mut s, "r@example.com", "reader");
    let aid = published(&mut s, author, "Shared", "body text", 1000);
    s.clap_article(aid, reader, ClapRequest { clap_count: 1 }, 2000).unwrap();
    s.bookmark_article(aid, reader, 2001).unwrap();
    s.follow_user(reader, author, 2002).unwrap();
    let resp = s.get_article_by_id(aid, Some(reader), BASE).unwrap();
    let slug = &s.articles[article_idx(&s, aid)].slug;
    assert_eq!(resp.share_url, format!("{}/article/{}", BASE, slug));
    assert_eq!(resp.share_title, "Shared");
    assert_eq!(resp.author.username, "author");
    let ui = resp.user_interactions.unwrap();
    assert!(ui.has_clapped && ui.has_bookmarked && ui.is_following_author);
    assert_eq!(ui.clap_count, 1);
    let anon = s.get_article_by_id(aid, None, BASE).unwrap();
    assert!(anon.user_interactions.is_none());
    let by_slug = s.get_article_by_slug(&slug.clone(), None, BASE).unwrap();
    assert_eq!(by_slug.id, aid);
}

#[test]
fn user_search_ranks_username_hits_first() {
    let mut s = Store::new();
    let named = new_user(&mut s, "v@example.com", "verusfan");
    let other = new_user(&mut s, "o@example.com", "plainname");
    s.update_profile(other, None, Some(String::from("writing about verus daily")), 500);
    let q = SearchQuery {
        q: String::from("verus"),
        page: None,
        limit: None,
        sort: None,
        filter: None,
    };
    let hits = s.search_users(&q);
    assert_eq!(hits.len(), 2);
    assert_eq!(hits[0].id, named);
    assert_eq!(hits[1].id, other);
    assert!(hits[0].relevance_score > hits[1].relevance_score);
}

#[test]
fn profile_joins_counts_and_rebases_uploaded_avatars() {
    let mut s = Store::new();
    let author = new_user(&mut s, "a@example.com", "author");
    published(&mut s, author, "One", "text", 1000);
    published(&mut s, author, "Two", "text", 1001);
    s.update_avatar(author, String::from("uploads/pic.png"), 1500);
    let resp = s.get_user_profile(&String::from("author"), "http://localhost:3001").unwrap();
    assert_eq!(resp.articles_count, 2);
    assert_eq!(resp.email, "");
    assert_eq!(resp.avatar_url.unwrap(), "http://localhost:3001/uploads/pic.png");
    s.update_avatar(author, String::from("https://cdn.example.com/pic.png"), 1600);
    let resp2 = s.get_user_profile(&String::from("author"), "http://localhost:3001").unwrap();
    assert_eq!(resp2.avatar_url.unwrap(), "https://cdn.example.com/pic.png");
    assert!(s.get_user_profile(&String::from("missing"), "x").is_none());
}

#[test]
fn drafts_listing_shows_only_own_drafts_newest_first() {
    let mut s = Store::new();
    let author = new_user(&mut s, "a@example.com", "author");
    let other = new_user(&mut s, "o@example.com", "other");
    let d1 = published(&mut s, author, "Pub", "text", 900);
    let _ = d1;
    let a = s
        .create_article(
            author,
            CreateArticleRequest {
                title: String::from("First draft"),
                subtitle: None,
                content: String::from("text"),
                excerpt: None,
                featured_image_url: None,
                publication_id: None,
                tags: None,
                categories: None,
                is_member_only: None,
                paywall_position: None,
                status: None,
            },
            1000,
        )
        .unwrap();
    let b = s
        .create_article(
            author,
            CreateArticleRequest {
                title: String::from("Second draft"),
                subtitle: None,
                content: String::from("text"),
                excerpt: None,
                featured_image_url: None,
                publication_id: None,
                tags: None,
                categories: None,
                is_member_only: None,
                paywall_position: None,
                status: None,
            },
            2000,
        )
        .unwrap();
    let _ = other;
    let drafts = s.get_drafts(author, BASE);
    assert_eq!(drafts.total, 2);
    assert_eq!(drafts.articles[0].id, b);
    assert_eq!(drafts.articles[1].id, a);
}

#[test]
fn my_bookmarks_list_newest_bookmark_first() {
    let mut s = Store::new();
    let author = new_user(&mut s, "a@example.com", "author");
    let reader = new_user(&mut s, "r@example.com", "reader");
    let first = published(&mut s, author, "First", "text", 1000);
    let second = published(&mut s, author, "Second", "text", 1001);
    let third = published(&mut s, author, "Third", "text", 1002);
    s.bookmark_article(first, reader, 5000).unwrap();
    s.bookmark_article(second, reader, 6000).unwrap();
    let list = s.get_my_bookmarks(reader, BASE);
    assert_eq!(list.len(), 2);
    assert_eq!(list[0].id, second);
    assert_eq!(list[1].id, first);
    assert!(list.iter().all(|r| r.id != third));
    assert!(list[0].user_interactions.as_ref().unwrap().has_bookmarked);
}

#[test]
fn recommendations_rank_followed_authors_out() {
    let mut s = Store::new();
    let me = new_user(&mut s, "me@example.com", "me");
    let star = new_user(&mut s, "s@example.com", "star");
    let rookie = new_user(&mut s, "k@example.com", "rookie");
    let silent = new_user(&mut s, "q@example.com", "silent");
    published(&mut s, star, "Alpha", "text", 1000);
    published(&mut s, star, "Beta", "text", 1001);
    published(&mut s, rookie, "Gamma", "text", 1002);
    let fan = new_user(&mut s, "fa@example.com", "fan");
    s.follow_user(fan, star, 2000).unwrap();
    let recs = s.get_user_recommendations(me, None, "http://localhost:3001");
    assert_eq!(recs.len(), 2);
    assert_eq!(recs[0].id, star);
    assert_eq!(recs[1].id, rookie);
    assert!(recs.iter().all(|u| u.id != silent && u.id != me));
    s.follow_user(me, star, 3000).unwrap();
    let recs2 = s.get_user_recommendations(me, None, "http://localhost:3001");
    assert_eq!(recs2.len(), 1);
    assert_eq!(recs2[0].id, rookie);
    let capped = s.get_user_recommendations(me, Some(0), "http://localhost:3001");
    assert!(capped.is_empty());
}
