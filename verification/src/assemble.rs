//! The response assembler: joins an article or comment with its author's
//! public profile and the viewing reader's personalized flags, and
//! derives the share fields.

use vstd::prelude::*;
use vstd::string::{StringExecFns, StrSliceExecFns};
use crate::article::{Article, ArticleAuthor, ArticleResponse, UserInteractions};
use crate::counting::count_matching;
use crate::engagement::Comment;
use crate::ledger::clone_opt_string;
use crate::store::{Store, StoreError, lemma_only_index, find_user_spec, lemma_find_user_spec_at};
use crate::text::{strip_tags_of, trimmed, strip_tags, trim_spaces};
use crate::user::User;

verus! {

/// A top-level comment thread root on one article.
pub open spec fn top_comment_on(article_id: u64) -> spec_fn(Comment) -> bool {
    |c: Comment| c.article_id == article_id && c.parent_id is None
}

pub open spec fn top_comments_for(comments: Seq<Comment>, article_id: u64) -> nat {
    count_matching(comments, top_comment_on(article_id))
}

/// Builds a fresh vector of equal strings.
pub fn clone_strings(v: &Vec<String>) -> (r: Vec<String>)
    ensures
        r@ == v@,
{
    let mut r: Vec<String> = Vec::new();
    let mut i: usize = 0;
    while i < v.len()
        invariant
            0 <= i <= v@.len(),
            r@.len() == i,
            forall|m: int| 0 <= m < i ==> #[trigger] r@[m] == v@[m],
        decreases v@.len() - i,
    {
        r.push(v[i].clone());
        i = i + 1;
    }
    proof {
        assert(r@ =~= v@);
    }
    r
}

/// The share description: the excerpt, else the subtitle, else a
/// tag-stripped prefix of the content with dots appended.
pub open spec fn share_desc_of(a: Article) -> Seq<char> {
    match a.excerpt {
        Some(e) => e@,
        None => match a.subtitle {
            Some(s) => s@,
            None => {
                let text = trimmed(strip_tags_of(a.content_html@));
                if text.len() > 160 {
                    text.take(157) + seq!['.', '.', '.']
                } else {
                    text
                }
            },
        },
    }
}

pub open spec fn author_fields_match(u: User, a: ArticleAuthor) -> bool {
    &&& a.id == u.user_id
    &&& a.username == u.username
    &&& a.display_name == u.display_name
    &&& a.avatar_url == u.avatar_url
    &&& a.bio == u.bio
    &&& a.followers_count == u.followers_count
    &&& a.is_verified == u.is_verified
}

/// What the personalization block must hold: nothing for an anonymous
/// viewer, the three point flags for a known one.
pub open spec fn interactions_match(
    s: Store,
    article_id: u64,
    author_id: u64,
    viewer: Option<u64>,
    ui: Option<UserInteractions>,
) -> bool {
    match viewer {
        None => ui is None,
        Some(v) => {
            &&& ui matches Some(x)
            &&& ui->0.has_clapped == s.user_clapped(v, article_id)
            &&& ui->0.clap_count == (if s.user_clapped(v, article_id) {
                1i32
            } else {
                0i32
            })
            &&& ui->0.has_bookmarked == s.user_bookmarked(v, article_id)
            &&& ui->0.is_following_author == s.follows_user(v, author_id)
        },
    }
}

/// The externally visible representation, pinned field by field.
pub open spec fn response_matches(
    s: Store,
    a: Article,
    viewer: Option<u64>,
    base: Seq<char>,
    resp: ArticleResponse,
) -> bool {
    &&& resp.id == a.id
    &&& resp.title == a.title
    &&& resp.subtitle == a.subtitle
    &&& resp.content == a.content
    &&& resp.content_html == a.content_html
    &&& resp.excerpt == a.excerpt
    &&& resp.featured_image_url == a.featured_image_url
    &&& {
        let u = find_user_spec(s.users@, a.author_id);
        u is Some && author_fields_match(u.unwrap(), resp.author)
    }
    &&& resp.publication is None
    &&& resp.status == a.status
    &&& resp.is_member_only == a.is_member_only
    &&& resp.paywall_position == a.paywall_position
    &&& resp.slug == a.slug
    &&& resp.tags@ == a.tags@
    &&& resp.reading_time_minutes == a.reading_time_minutes
    &&& resp.claps_count == a.claps_count
    &&& resp.comments_count == a.comments_count
    &&& resp.bookmarks_count == a.bookmarks_count
    &&& resp.views_count == a.views_count
    &&& resp.published_at == a.published_at
    &&& resp.created_at == a.created_at
    &&& resp.updated_at == a.updated_at
    &&& interactions_match(s, a.id, a.author_id, viewer, resp.user_interactions)
    &&& resp.share_url@ == base + "/article/"@ + a.slug@
    &&& resp.share_title == a.title
    &&& resp.share_description@ == share_desc_of(a)
}

impl Store {
    /// Joins an article with its author's profile and the viewer's
    /// flags.  `frontend_base` roots the canonical share link.
    pub fn get_article_response(
        &self,
        article: &Article,
        user_id: Option<u64>,
        frontend_base: &str,
    ) -> (r: Result<ArticleResponse, StoreError>)
        requires
            self.wf(),
        ensures
            r is Ok <==> self.has_user(article.author_id),
            match r {
                Ok(resp) => response_matches(*self, *article, user_id, frontend_base@, resp),
                Err(e) => e is NotFound,
            },
    {
        let uidx = match self.find_user(article.author_id) {
            None => {
                return Err(StoreError::NotFound);
            },
            Some(u) => u,
        };
        let user_interactions = match user_id {
            None => None,
            Some(v) => {
                let clap_count = self.get_user_clap_count(article.id, v);
                let has_clapped = clap_count > 0;
                let has_bookmarked = self.user_bookmarked_exec(v, article.id);
                let is_following_author = self.is_following(v, article.author_id);
                Some(
                    UserInteractions {
                        has_clapped,
                        clap_count,
                        has_bookmarked,
                        is_following_author,
                    },
                )
            },
        };
        let mut share_url = frontend_base.to_owned();
        share_url.append("/article/");
        share_url.append(article.slug.as_str());
        let share_description = match &article.excerpt {
            Some(e) => e.clone(),
            None => match &article.subtitle {
                Some(s) => s.clone(),
                None => {
                    let stripped = strip_tags(article.content_html.as_str());
                    let text = trim_spaces(stripped.as_str());
                    if text.as_str().unicode_len() > 160 {
                        let mut d = text.as_str().substring_char(0, 157).to_owned();
                        proof {
                            reveal_strlit("...");
                        }
                        d.append("...");
                        proof {
                            assert(d@ =~= trimmed(strip_tags_of(article.content_html@)).take(157)
                                + seq!['.', '.', '.']);
                        }
                        d
                    } else {
                        text
                    }
                },
            },
        };
        proof {
            lemma_find_user_spec_at(self.users@, uidx as int);
        }
        let author = &self.users[uidx];
        Ok(
            ArticleResponse {
                id: article.id,
                title: article.title.clone(),
                subtitle: clone_opt_string(&article.subtitle),
                content: article.content.clone(),
                content_html: article.content_html.clone(),
                excerpt: clone_opt_string(&article.excerpt),
                featured_image_url: clone_opt_string(&article.featured_image_url),
                author: ArticleAuthor {
                    id: article.author_id,
                    username: author.username.clone(),
                    display_name: clone_opt_string(&author.display_name),
                    avatar_url: clone_opt_string(&author.avatar_url),
                    bio: clone_opt_string(&author.bio),
                    followers_count: author.followers_count,
                    is_verified: author.is_verified,
                },
                publication: None,
                status: article.status,
                is_member_only: article.is_member_only,
                paywall_position: article.paywall_position,
                slug: article.slug.clone(),
                tags: clone_strings(&article.tags),
                reading_time_minutes: article.reading_time_minutes,
                claps_count: article.claps_count,
                comments_count: article.comments_count,
                bookmarks_count: article.bookmarks_count,
                views_count: article.views_count,
                published_at: article.published_at,
                created_at: article.created_at,
                updated_at: article.updated_at,
                user_interactions,
                share_url,
                share_title: article.title.clone(),
                share_description,
            },
        )
    }

    pub(crate) fn user_bookmarked_exec(&self, user_id: u64, article_id: u64) -> (r: bool)
        ensures
            r == self.user_bookmarked(user_id, article_id),
    {
        let n = self.bookmarks.len();
        let mut j: usize = 0;
        while j < n
            invariant
                n == self.bookmarks@.len(),
                0 <= j <= n,
                forall|m: int|
                    0 <= m < j ==> !((#[trigger] self.bookmarks@[m]).user_id == user_id
                        && self.bookmarks@[m].article_id == article_id),
            decreases n - j,
        {
            if self.bookmarks[j].user_id == user_id && self.bookmarks[j].article_id == article_id {
                return true;
            }
            j = j + 1;
        }
        false
    }

    /// Whether the article is visible to the viewer: published, or the
    /// viewer's own.
    pub open spec fn article_visible(a: Article, viewer: Option<u64>) -> bool {
        a.status is Published || viewer == Some(a.author_id)
    }

    /// Fetches one article by id, a draft only for its author, and
    /// assembles the response.
    pub fn get_article_by_id(
        &self,
        article_id: u64,
        user_id: Option<u64>,
        frontend_base: &str,
    ) -> (r: Result<ArticleResponse, StoreError>)
        requires
            self.wf(),
        ensures
            match r {
                Ok(resp) => exists|i: int|
                    0 <= i < self.articles@.len() && (#[trigger] self.articles@[i]).id
                        == article_id && Store::article_visible(self.articles@[i], user_id)
                        && response_matches(
                        *self,
                        self.articles@[i],
                        user_id,
                        frontend_base@,
                        resp,
                    ),
                Err(e) => e is NotFound && (forall|i: int|
                    0 <= i < self.articles@.len() && (#[trigger] self.articles@[i]).id
                        == article_id ==> !Store::article_visible(self.articles@[i], user_id)
                        || !self.has_user(self.articles@[i].author_id)),
            },
    {
        let idx = match self.find_article(article_id) {
            None => {
                return Err(StoreError::NotFound);
            },
            Some(i) => i,
        };
        let a = &self.articles[idx];
        let visible = matches!(a.status, crate::article::ArticleStatus::Published) || (match user_id
            {
            Some(v) => a.author_id == v,
            None => false,
        });
        if !visible {
            proof {
                lemma_only_index(*self, idx as int, article_id);
            }
            return Err(StoreError::NotFound);
        }
        let out = self.get_article_response(a, user_id, frontend_base);
        proof {
            lemma_only_index(*self, idx as int, article_id);
        }
        out
    }

    pub(crate) fn find_article_by_slug(&self, slug: &String) -> (r: Option<usize>)
        ensures
            match r {
                Some(i) => i < self.articles@.len() && self.articles@[i as int].slug@ == slug@,
                None => forall|m: int|
                    0 <= m < self.articles@.len() ==> (#[trigger] self.articles@[m]).slug@
                        != slug@,
            },
    {
        let n = self.articles.len();
        let mut i: usize = 0;
        while i < n
            invariant
                n == self.articles@.len(),
                0 <= i <= n,
                forall|m: int| 0 <= m < i ==> (#[trigger] self.articles@[m]).slug@ != slug@,
            decreases n - i,
        {
            if self.articles[i].slug == *slug {
                return Some(i);
            }
            i = i + 1;
        }
        None
    }

    /// Fetches one article by slug, under the same visibility rule.
    pub fn get_article_by_slug(
        &self,
        slug: &String,
        user_id: Option<u64>,
        frontend_base: &str,
    ) -> (r: Result<ArticleResponse, StoreError>)
        requires
            self.wf(),
        ensures
            match r {
                Ok(resp) => exists|i: int|
                    0 <= i < self.articles@.len() && (#[trigger] self.articles@[i]).slug@ == slug@
                        && Store::article_visible(self.articles@[i], user_id) && response_matches(
                        *self,
                        self.articles@[i],
                        user_id,
                        frontend_base@,
                        resp,
                    ),
                Err(e) => e is NotFound && (forall|i: int|
                    0 <= i < self.articles@.len() && (#[trigger] self.articles@[i]).slug@ == slug@
                        ==> !Store::article_visible(self.articles@[i], user_id) || !self.has_user(
                        self.articles@[i].author_id,
                    )),
            },
    {
        let idx = match self.find_article_by_slug(slug) {
            None => {
                return Err(StoreError::NotFound);
            },
            Some(i) => i,
        };
        let a = &self.articles[idx];
        let visible = matches!(a.status, crate::article::ArticleStatus::Published) || (match user_id
            {
            Some(v) => a.author_id == v,
            None => false,
        });
        if !visible {
            proof {
                lemma_only_slug_index(*self, idx as int, slug@);
            }
            return Err(StoreError::NotFound);
        }
        let out = self.get_article_response(a, user_id, frontend_base);
        proof {
            lemma_only_slug_index(*self, idx as int, slug@);
        }
        out
    }
}

/// In a well-formed store, only the article at the found index carries
/// the slug that was searched for.
pub proof fn lemma_only_slug_index(s: Store, i: int, slug: Seq<char>)
    requires
        s.articles_distinct(),
        0 <= i < s.articles@.len(),
        s.articles@[i].slug@ == slug,
    ensures
        forall|j: int|
            0 <= j < s.articles@.len() && (#[trigger] s.articles@[j]).slug@ == slug ==> j == i,
{
}

} // verus!
