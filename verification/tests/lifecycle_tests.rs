//! Article lifecycle behaviour: slugs, creation, validation, auto-save,
//! publication, update and deletion.

use fastblog::article::{ArticleQueryParams, ArticleStatus, AutoSaveDraftRequest,
    CreateArticleRequest, UpdateArticleRequest};
use fastblog::slug::generate_slug;
use fastblog::store::{Store, StoreError, ValidationError};
use fastblog::user::CreateUserRequest;

const BASE: &str = "http://localhost:3003";

fn user_request(email: &str, username: &str) -> CreateUserRequest {
    CreateUserRequest {
        email: String::from(email),
        username: String::from(username),
        password: String::from("long-enough-password"),
        display_name: Some(String::from(username)),
    }
}

fn article_request(title: &str, content: &str, status: Option<ArticleStatus>) -> CreateArticleRequest {
    CreateArticleRequest {
        title: String::from(title),
        subtitle: None,
        content: String::from(content),
        excerpt: None,
        featured_image_url: None,
        publication_id: None,
        tags: None,
        categories: None,
        is_member_only: None,
        paywall_position: None,
        status,
    }
}

fn store_with_author() -> (Store, u64) {
    let mut s = Store::new();
    let uid = s
        .register_user(user_request("ada@example.com", "ada"), String::from("SECRET-REDACTED"), 100)
        .unwrap();
    (s, uid)
}

#[test]
fn slug_derivation_is_url_safe() {
    assert_eq!(generate_slug("Hello World"), "hello-world");
    assert_eq!(generate_slug("  Hello,  World!!  "), "hello-world");
    assert_eq!(generate_slug("Rust & Verus: 2 Tools"), "rust-verus-2-tools");
    assert_eq!(generate_slug("???"), "");
    assert_eq!(generate_slug("--a--b--"), "a-b");
}

#[test]
fn identical_titles_get_suffixed_slugs() {
    let (mut s, uid) = store_with_author();
    let a1 = s.create_article(uid, article_request("My Story", "text", None), 1000).unwrap();
    let a2 = s.create_article(uid, article_request("My Story", "text", None), 1001).unwrap();
    let a3 = s.create_article(uid, article_request("My Story", "text", None), 1002).unwrap();
    let slug1 = &s.articles[find_article(&s, a1)].slug;
    let slug2 = &s.articles[find_article(&s, a2)].slug;
    let slug3 = &s.articles[find_article(&s, a3)].slug;
    assert_eq!(slug1, "my-story");
    assert_eq!(slug2, "my-story-1");
    assert_eq!(slug3, "my-story-2");
    for slug in [slug1, slug2, slug3] {
        assert!(!slug.is_empty());
        assert!(slug.chars().all(|c| c.is_ascii_lowercase() || c.is_ascii_digit() || c == '-'));
        assert!(!slug.starts_with('-') && !slug.ends_with('-'));
        assert!(!slug.contains("--"));
    }
}

#[test]
fn untitled_content_falls_back_to_draft_slug() {
    let (mut s, uid) = store_with_author();
    let a1 = s.create_article(uid, article_request("!!!", "text", None), 1000).unwrap();
    assert_eq!(s.articles[find_article(&s, a1)].slug, "draft");
    let a2 = s.create_article(uid, article_request("???", "more", None), 1001).unwrap();
    assert_eq!(s.articles[find_article(&s, a2)].slug, "draft-1");
}

#[test]
fn create_validates_field_bounds() {
    let (mut s, uid) = store_with_author();
    let mut bad = article_request("", "", None);
    bad.excerpt = Some("x".repeat(501));
    bad.tags = Some((0..11).map(|i| format!("t{}", i)).collect());
    bad.categories = Some((0..6).map(|i| format!("c{}", i)).collect());
    bad.subtitle = Some("s".repeat(301));
    match s.create_article(uid, bad, 1000) {
        Err(StoreError::ValidationFailed(v)) => {
            assert_eq!(
                v,
                vec![
                    ValidationError::TitleLength,
                    ValidationError::SubtitleLength,
                    ValidationError::ContentEmpty,
                    ValidationError::ExcerptLength,
                    ValidationError::TooManyTags,
                    ValidationError::TooManyCategories,
                ]
            );
        },
        other => panic!("expected validation failure, got {:?}", other.is_ok()),
    }
    assert_eq!(s.articles.len(), 0);
}

#[test]
fn create_sanitizes_content() {
    let (mut s, uid) = store_with_author();
    let aid = s
        .create_article(
            uid,
            article_request("Safe", "<script>alert('x')</script><p>hi there</p>", None),
            1000,
        )
        .unwrap();
    let html = &s.articles[find_article(&s, aid)].content_html;
    assert!(!html.contains("script"));
    assert!(html.contains("hi there"));
}

#[test]
fn reading_time_floors_at_one_minute() {
    let (mut s, uid) = store_with_author();
    let short = s.create_article(uid, article_request("Short", "just a few words", None), 1000).unwrap();
    assert_eq!(s.articles[find_article(&s, short)].reading_time_minutes, 1);
    let long_text = "word ".repeat(450);
    let long = s.create_article(uid, article_request("Long", &long_text, None), 1001).unwrap();
    assert_eq!(s.articles[find_article(&s, long)].reading_time_minutes, 2);
}

#[test]
fn derived_excerpt_truncates_at_last_space() {
    let (mut s, uid) = store_with_author();
    let content = "alpha ".repeat(50);
    let aid = s.create_article(uid, article_request("Cut", &content, None), 1000).unwrap();
    let excerpt = s.articles[find_article(&s, aid)].excerpt.clone().unwrap();
    assert!(excerpt.ends_with("..."));
    assert!(excerpt.chars().count() <= 203);
    assert!(excerpt.starts_with("alpha alpha"));
}

#[test]
fn auto_save_version_counts_saves() {
    let (mut s, uid) = store_with_author();
    let aid = s.create_article(uid, article_request("Draft", "v0", None), 1000).unwrap();
    assert_eq!(s.articles[find_article(&s, aid)].auto_save_version, 1);
    for n in 0..3u64 {
        let save = AutoSaveDraftRequest {
            article_id: Some(aid),
            title: None,
            subtitle: None,
            content: format!("v{}", n + 1),
            excerpt: None,
            featured_image_url: None,
            tags: None,
            categories: None,
            is_member_only: None,
            paywall_position: None,
        };
        let got = s.auto_save_draft(uid, save, 2000 + n as i64);
        assert_eq!(got, aid);
    }
    let row = &s.articles[find_article(&s, aid)];
    assert_eq!(row.auto_save_version, 4);
    assert_eq!(row.content, "v3");
    assert_eq!(row.content_html, "v3");
}

#[test]
fn auto_save_without_id_mints_draft() {
    let (mut s, uid) = store_with_author();
    let save = AutoSaveDraftRequest {
        article_id: None,
        title: Some(String::from("WIP")),
        subtitle: None,
        content: String::from("working"),
        excerpt: None,
        featured_image_url: None,
        tags: None,
        categories: None,
        is_member_only: None,
        paywall_position: None,
    };
    let aid = s.auto_save_draft(uid, save, 1500);
    let row = &s.articles[find_article(&s, aid)];
    assert_eq!(row.slug, "draft");
    assert!(matches!(row.status, ArticleStatus::Draft));
    assert_eq!(row.auto_save_version, 1);
}

#[test]
fn auto_save_ignores_published_articles() {
    let (mut s, uid) = store_with_author();
    let aid = s
        .create_article(uid, article_request("Done", "text", Some(ArticleStatus::Published)), 1000)
        .unwrap();
    let save = AutoSaveDraftRequest {
        article_id: Some(aid),
        title: Some(String::from("sneaky")),
        subtitle: None,
        content: String::from("changed"),
        excerpt: None,
        featured_image_url: None,
        tags: None,
        categories: None,
        is_member_only: None,
        paywall_position: None,
    };
    let got = s.auto_save_draft(uid, save, 2000);
    assert_eq!(got, aid);
    let row = &s.articles[find_article(&s, aid)];
    assert_eq!(row.content, "text");
    assert_eq!(row.auto_save_version, 1);
}

#[test]
fn publish_succeeds_once_and_only_once() {
    let (mut s, uid) = store_with_author();
    let aid = s.create_article(uid, article_request("Piece", "text", None), 1000).unwrap();
    assert!(s.publish_article(aid, uid, 2000).is_ok());
    let first = s.articles[find_article(&s, aid)].published_at;
    assert_eq!(first, Some(2000));
    assert!(matches!(s.articles[find_article(&s, aid)].status, ArticleStatus::Published));
    let again = s.publish_article(aid, uid, 3000);
    assert!(matches!(again, Err(StoreError::NotFound)));
    assert_eq!(s.articles[find_article(&s, aid)].published_at, Some(2000));
}

#[test]
fn mutations_by_strangers_fail() {
    let (mut s, uid) = store_with_author();
    let other = s
        .register_user(user_request("eve@example.com", "eve"), String::from("SECRET-REDACTED"), 101)
        .unwrap();
    let aid = s.create_article(uid, article_request("Mine", "text", None), 1000).unwrap();
    assert!(matches!(s.publish_article(aid, other, 2000), Err(StoreError::NotFound)));
    assert!(matches!(s.delete_article(aid, other), Err(StoreError::NotFound)));
    let upd = UpdateArticleRequest {
        title: Some(String::from("Taken")),
        subtitle: None,
        content: None,
        excerpt: None,
        featured_image_url: None,
        publication_id: None,
        tags: None,
        categories: None,
        is_member_only: None,
        paywall_position: None,
        status: None,
    };
    assert!(matches!(s.update_article(aid, other, upd, 2000), Err(StoreError::Unauthorized)));
    assert_eq!(s.articles[find_article(&s, aid)].title, "Mine");
    assert!(matches!(s.articles[find_article(&s, aid)].status, ArticleStatus::Draft));
}

#[test]
fn update_resanitizes_and_retimes_content() {
    let (mut s, uid) = store_with_author();
    let aid = s.create_article(uid, article_request("Edit me", "old words", None), 1000).unwrap();
    let long_text = format!("<script>bad()</script>{}", "fresh ".repeat(450));
    let upd = UpdateArticleRequest {
        title: Some(String::from("Edited")),
        subtitle: None,
        content: Some(long_text),
        excerpt: None,
        featured_image_url: None,
        publication_id: None,
        tags: None,
        categories: None,
        is_member_only: None,
        paywall_position: None,
        status: None,
    };
    assert!(s.update_article(aid, uid, upd, 5000).is_ok());
    let row = &s.articles[find_article(&s, aid)];
    assert_eq!(row.title, "Edited");
    assert!(!row.content_html.contains("script"));
    assert_eq!(row.reading_time_minutes, 2);
    assert_eq!(row.updated_at, 5000);
}

#[test]
fn delete_removes_the_row() {
    let (mut s, uid) = store_with_author();
    let aid = s.create_article(uid, article_request("Gone", "text", None), 1000).unwrap();
    assert!(s.delete_article(aid, uid).is_ok());
    assert_eq!(s.articles.len(), 0);
    assert!(matches!(s.delete_article(aid, uid), Err(StoreError::NotFound)));
}

#[test]
fn record_view_and_read_increment() {
    let (mut s, uid) = store_with_author();
    let aid = s.create_article(uid, article_request("Counted", "text", None), 1000).unwrap();
    s.record_view(aid);
    s.record_view(aid);
    s.record_read(aid);
    let row = &s.articles[find_article(&s, aid)];
    assert_eq!(row.views_count, 2);
    assert_eq!(row.reads_count, 1);
}

#[test]
fn toggle_featured_flips_for_the_owner_only() {
    let (mut s, uid) = store_with_author();
    let other = s
        .register_user(user_request("o@example.com", "other"), String::from("SECRET-REDACTED"), 102)
        .unwrap();
    let aid = s.create_article(uid, article_request("Flagged", "text", None), 1000).unwrap();
    assert_eq!(s.toggle_featured(aid, uid, 2000).unwrap(), true);
    assert_eq!(s.toggle_featured(aid, uid, 2001).unwrap(), false);
    assert!(matches!(s.toggle_featured(aid, other, 2002), Err(StoreError::NotFound)));
    assert!(!s.articles[find_article(&s, aid)].is_featured);
    assert!(matches!(s.toggle_featured(9999, uid, 2003), Err(StoreError::NotFound)));
}

#[test]
fn drafts_are_visible_only_to_their_author() {
    let (mut s, uid) = store_with_author();
    let aid = s.create_article(uid, article_request("Hidden", "text", None), 1000).unwrap();
    assert!(s.get_article_by_id(aid, None, BASE).is_err());
    assert!(s.get_article_by_id(aid, Some(uid), BASE).is_ok());
    s.publish_article(aid, uid, 2000).unwrap();
    assert!(s.get_article_by_id(aid, None, BASE).is_ok());
}

#[test]
fn query_params_default_matches_service_defaults() {
    let p = ArticleQueryParams::default();
    assert_eq!(p.page, Some(1));
    assert_eq!(p.limit, Some(20));
    assert!(p.tag.is_none() && p.category.is_none() && p.author.is_none());
}

#[test]
fn duplicate_registration_conflicts() {
    let mut s = Store::new();
    s.register_user(user_request("ada@example.com", "ada"), String::from("SECRET-REDACTED"), 100).unwrap();
    let dup_mail = s.register_user(user_request("ada@example.com", "other"), String::from("SECRET-REDACTED"), 101);
    assert!(matches!(dup_mail, Err(StoreError::Conflict)));
    let dup_name = s.register_user(user_request("new@example.com", "ada"), String::from("SECRET-REDACTED"), 102);
    assert!(matches!(dup_name, Err(StoreError::Conflict)));
}

fn find_article(s: &Store, id: u64) -> usize {
    s.articles.iter().position(|a| a.id == id).expect("article not stored")
}

#[test]
fn auto_save_merges_absent_optional_fields() {
    let (mut s, uid) = store_with_author();
    let mut req = article_request("Kept", "first words", None);
    req.subtitle = Some(String::from("a subtitle"));
    req.excerpt = Some(String::from("an excerpt"));
    req.featured_image_url = Some(String::from("https://cdn.example.com/a.png"));
    req.paywall_position = Some(3);
    let aid = s.create_article(uid, req, 1000).unwrap();
    let save = AutoSaveDraftRequest {
        article_id: Some(aid),
        title: None,
        subtitle: None,
        content: String::from("second words"),
        excerpt: None,
        featured_image_url: None,
        tags: None,
        categories: None,
        is_member_only: None,
        paywall_position: None,
    };
    assert_eq!(s.auto_save_draft(uid, save, 2000), aid);
    let row = &s.articles[find_article(&s, aid)];
    assert_eq!(row.subtitle.as_deref(), Some("a subtitle"));
    assert_eq!(row.excerpt.as_deref(), Some("an excerpt"));
    assert_eq!(row.featured_image_url.as_deref(), Some("https://cdn.example.com/a.png"));
    assert_eq!(row.paywall_position, Some(3));
    assert_eq!(row.content, "second words");
    let overwrite = AutoSaveDraftRequest {
        article_id: Some(aid),
        title: None,
        subtitle: Some(String::from("new subtitle")),
        content: String::from("third words"),
        excerpt: None,
        featured_image_url: None,
        tags: None,
        categories: None,
        is_member_only: None,
        paywall_position: None,
    };
    assert_eq!(s.auto_save_draft(uid, overwrite, 3000), aid);
    let row = &s.articles[find_article(&s, aid)];
    assert_eq!(row.subtitle.as_deref(), Some("new subtitle"));
    assert_eq!(row.excerpt.as_deref(), Some("an excerpt"));
}

#[test]
fn listings_echo_the_requested_offset() {
    let (mut s, uid) = store_with_author();
    let _ = uid;
    let mut params = ArticleQueryParams::default();
    params.page = Some(2);
    params.limit = Some(20);
    let empty = s.get_articles(&params, None, BASE);
    assert_eq!(empty.total, 0);
    assert_eq!(empty.articles.len(), 0);
    assert_eq!(empty.offset, 20);
    assert_eq!(empty.limit, 20);
    params.page = Some(3);
    params.limit = Some(7);
    let again = s.get_articles(&params, None, BASE);
    assert_eq!(again.offset, 14);
}

#[test]
fn allocate_slug_never_yields_an_empty_slug() {
    let (mut s, uid) = store_with_author();
    assert_eq!(s.allocate_slug("My Story", None), "my-story");
    assert_eq!(s.allocate_slug("!!!", None), "draft");
    let a1 = s.create_article(uid, article_request("My Story", "text", None), 1000).unwrap();
    let _ = a1;
    assert_eq!(s.allocate_slug("My Story", None), "my-story-1");
    assert_eq!(s.allocate_slug("My Story", Some(a1)), "my-story");
}
