//! The relational state the core works over, modeled in memory: users,
//! articles, and the engagement fact tables, together with the invariant
//! that ties every denormalized counter to its detail rows.

use vstd::prelude::*;
use crate::article::{Article, ArticleStatus};
use crate::counting::count_matching;
use crate::engagement::{Bookmark, Clap, Comment};
use crate::slug::slug_ok;
use crate::user::{Credential, User, UserFollow};

verus! {

/// Why a request was refused.  Mutations on another author's article
/// report `NotFound` where distinguishing absence from foreign ownership
/// would leak that the article exists.
#[derive(Debug)]
pub enum StoreError {
    NotFound,
    Unauthorized,
    ValidationFailed(Vec<ValidationError>),
    Conflict,
}

/// A field bound the request broke.
#[derive(Clone, Copy, PartialEq, Eq, Structural, Debug)]
pub enum ValidationError {
    TitleLength,
    SubtitleLength,
    ContentEmpty,
    ExcerptLength,
    TooManyTags,
    TooManyCategories,
}

pub struct Store {
    pub next_id: u64,
    pub users: Vec<User>,
    pub credentials: Vec<Credential>,
    pub articles: Vec<Article>,
    pub claps: Vec<Clap>,
    pub bookmarks: Vec<Bookmark>,
    pub comments: Vec<Comment>,
    pub follows: Vec<UserFollow>,
}

// Predicates the counter invariants count over.
pub open spec fn clap_on(article_id: u64) -> spec_fn(Clap) -> bool {
    |c: Clap| c.article_id == article_id
}

pub open spec fn bookmark_on(article_id: u64) -> spec_fn(Bookmark) -> bool {
    |b: Bookmark| b.article_id == article_id
}

pub open spec fn comment_on(article_id: u64) -> spec_fn(Comment) -> bool {
    |c: Comment| c.article_id == article_id
}

pub open spec fn reply_to(comment_id: u64) -> spec_fn(Comment) -> bool {
    |c: Comment| c.parent_id == Some(comment_id)
}

pub open spec fn follow_of(user_id: u64) -> spec_fn(UserFollow) -> bool {
    |f: UserFollow| f.following_id == user_id
}

pub open spec fn follow_by(user_id: u64) -> spec_fn(UserFollow) -> bool {
    |f: UserFollow| f.follower_id == user_id
}

/// Published articles belonging to one author.
pub open spec fn published_by(author_id: u64) -> spec_fn(Article) -> bool {
    |a: Article| a.status is Published && a.author_id == author_id
}

pub open spec fn count_published_by(articles: Seq<Article>, author_id: u64) -> nat {
    count_matching(articles, published_by(author_id))
}

/// Number of clap rows an article holds: the number of distinct users
/// currently clapping, since rows are unique per (user, article).
pub open spec fn claps_for(claps: Seq<Clap>, article_id: u64) -> nat {
    count_matching(claps, clap_on(article_id))
}

pub open spec fn bookmarks_for(bookmarks: Seq<Bookmark>, article_id: u64) -> nat {
    count_matching(bookmarks, bookmark_on(article_id))
}

pub open spec fn comments_for(comments: Seq<Comment>, article_id: u64) -> nat {
    count_matching(comments, comment_on(article_id))
}

pub open spec fn replies_for(comments: Seq<Comment>, comment_id: u64) -> nat {
    count_matching(comments, reply_to(comment_id))
}

pub open spec fn followers_for(follows: Seq<UserFollow>, user_id: u64) -> nat {
    count_matching(follows, follow_of(user_id))
}

pub open spec fn following_for(follows: Seq<UserFollow>, user_id: u64) -> nat {
    count_matching(follows, follow_by(user_id))
}

impl Store {
    /// Whether some user holds a clap on the article.
    pub open spec fn user_clapped(self, user_id: u64, article_id: u64) -> bool {
        exists|i: int|
            0 <= i < self.claps@.len() && #[trigger] self.claps@[i].user_id == user_id
                && self.claps@[i].article_id == article_id
    }

    pub open spec fn user_bookmarked(self, user_id: u64, article_id: u64) -> bool {
        exists|i: int|
            0 <= i < self.bookmarks@.len() && #[trigger] self.bookmarks@[i].user_id == user_id
                && self.bookmarks@[i].article_id == article_id
    }

    pub open spec fn follows_user(self, follower_id: u64, following_id: u64) -> bool {
        exists|i: int|
            0 <= i < self.follows@.len() && #[trigger] self.follows@[i].follower_id == follower_id
                && self.follows@[i].following_id == following_id
    }

    pub open spec fn has_article(self, article_id: u64) -> bool {
        exists|i: int|
            0 <= i < self.articles@.len() && #[trigger] self.articles@[i].id == article_id
    }

    pub open spec fn has_user(self, user_id: u64) -> bool {
        exists|i: int|
            0 <= i < self.users@.len() && #[trigger] self.users@[i].user_id == user_id
    }

    pub open spec fn slug_taken(self, s: Seq<char>, exclude_id: Option<u64>) -> bool {
        exists|i: int|
            0 <= i < self.articles@.len() && #[trigger] self.articles@[i].slug@ == s && Some(
                self.articles@[i].id,
            ) != exclude_id
    }

    /// Every identifier in every table was handed out before `next_id`.
    pub open spec fn ids_bounded(self) -> bool {
        &&& forall|i: int|
            0 <= i < self.articles@.len() ==> (#[trigger] self.articles@[i]).id < self.next_id
        &&& forall|i: int|
            0 <= i < self.users@.len() ==> (#[trigger] self.users@[i]).user_id < self.next_id
        &&& forall|i: int|
            0 <= i < self.claps@.len() ==> (#[trigger] self.claps@[i]).id < self.next_id
                && self.claps@[i].article_id < self.next_id
        &&& forall|i: int|
            0 <= i < self.bookmarks@.len() ==> (#[trigger] self.bookmarks@[i]).id < self.next_id
                && self.bookmarks@[i].article_id < self.next_id
        &&& forall|i: int|
            0 <= i < self.comments@.len() ==> (#[trigger] self.comments@[i]).id < self.next_id
                && self.comments@[i].article_id < self.next_id && (match self.comments@[i].parent_id {
                Some(p) => p < self.next_id,
                None => true,
            })
        &&& forall|i: int|
            0 <= i < self.follows@.len() ==> (#[trigger] self.follows@[i]).follower_id
                < self.next_id && self.follows@[i].following_id < self.next_id
        &&& forall|i: int|
            0 <= i < self.credentials@.len() ==> (#[trigger] self.credentials@[i]).user_id
                < self.next_id
    }

    /// Article ids and slugs are unique.
    pub open spec fn articles_distinct(self) -> bool {
        forall|i: int, j: int|
            #![trigger self.articles@[i], self.articles@[j]]
            0 <= i < j < self.articles@.len() ==> self.articles@[i].id != self.articles@[j].id
                && self.articles@[i].slug@ != self.articles@[j].slug@
    }

    /// User ids, usernames and mail addresses are unique.
    pub open spec fn users_distinct(self) -> bool {
        forall|i: int, j: int|
            #![trigger self.users@[i], self.users@[j]]
            0 <= i < j < self.users@.len() ==> self.users@[i].user_id != self.users@[j].user_id
                && self.users@[i].username@ != self.users@[j].username@ && self.users@[i].email@
                != self.users@[j].email@
    }

    /// At most one clap and one bookmark per (user, article), one follow
    /// edge per ordered pair, one credential per user; comment ids unique.
    pub open spec fn facts_distinct(self) -> bool {
        &&& forall|i: int, j: int|
            #![trigger self.claps@[i], self.claps@[j]]
            0 <= i < j < self.claps@.len() ==> !(self.claps@[i].user_id == self.claps@[j].user_id
                && self.claps@[i].article_id == self.claps@[j].article_id)
        &&& forall|i: int, j: int|
            #![trigger self.bookmarks@[i], self.bookmarks@[j]]
            0 <= i < j < self.bookmarks@.len() ==> !(self.bookmarks@[i].user_id
                == self.bookmarks@[j].user_id && self.bookmarks@[i].article_id
                == self.bookmarks@[j].article_id)
        &&& forall|i: int, j: int|
            #![trigger self.comments@[i], self.comments@[j]]
            0 <= i < j < self.comments@.len() ==> self.comments@[i].id != self.comments@[j].id
        &&& forall|i: int, j: int|
            #![trigger self.follows@[i], self.follows@[j]]
            0 <= i < j < self.follows@.len() ==> !(self.follows@[i].follower_id
                == self.follows@[j].follower_id && self.follows@[i].following_id
                == self.follows@[j].following_id)
        &&& forall|i: int, j: int|
            #![trigger self.credentials@[i], self.credentials@[j]]
            0 <= i < j < self.credentials@.len() ==> self.credentials@[i].user_id
                != self.credentials@[j].user_id
    }

    /// Every stored aggregate equals the count of its detail rows.
    pub open spec fn counters_consistent(self) -> bool {
        &&& forall|i: int|
            0 <= i < self.articles@.len() ==> {
                let a = #[trigger] self.articles@[i];
                a.claps_count as nat == claps_for(self.claps@, a.id) && a.bookmarks_count as nat
                    == bookmarks_for(self.bookmarks@, a.id) && a.comments_count as nat
                    == comments_for(self.comments@, a.id)
            }
        &&& forall|i: int|
            0 <= i < self.comments@.len() ==> (#[trigger] self.comments@[i]).replies_count as nat
                == replies_for(self.comments@, self.comments@[i].id)
        &&& forall|i: int|
            0 <= i < self.users@.len() ==> {
                let u = #[trigger] self.users@[i];
                u.followers_count as nat == followers_for(self.follows@, u.user_id)
                    && u.following_count as nat == following_for(self.follows@, u.user_id)
            }
    }

    /// Field invariants of the article rows themselves.
    pub open spec fn articles_sound(self) -> bool {
        forall|i: int|
            0 <= i < self.articles@.len() ==> {
                let a = #[trigger] self.articles@[i];
                a.auto_save_version >= 1 && a.reading_time_minutes >= 1 && (
                a.published_at is Some <==> a.status is Published) && slug_ok(a.slug@)
            }
    }

    pub open spec fn wf(self) -> bool {
        &&& self.ids_bounded()
        &&& self.articles_distinct()
        &&& self.users_distinct()
        &&& self.facts_distinct()
        &&& self.counters_consistent()
        &&& self.articles_sound()
    }

    /// The tables other than `articles`, unchanged between two states.
    pub open spec fn same_but_articles(pre: Store, post: Store) -> bool {
        &&& post.next_id == pre.next_id
        &&& post.users@ == pre.users@
        &&& post.credentials@ == pre.credentials@
        &&& post.claps@ == pre.claps@
        &&& post.bookmarks@ == pre.bookmarks@
        &&& post.comments@ == pre.comments@
        &&& post.follows@ == pre.follows@
    }

    pub fn new() -> (s: Store)
        ensures
            s.wf(),
            s.articles@.len() == 0,
            s.users@.len() == 0,
            s.claps@.len() == 0,
            s.bookmarks@.len() == 0,
            s.comments@.len() == 0,
            s.follows@.len() == 0,
            s.credentials@.len() == 0,
    {
        Store {
            next_id: 0,
            users: Vec::new(),
            credentials: Vec::new(),
            articles: Vec::new(),
            claps: Vec::new(),
            bookmarks: Vec::new(),
            comments: Vec::new(),
            follows: Vec::new(),
        }
    }

    /// Index of the article with the given id.
    pub fn find_article(&self, article_id: u64) -> (r: Option<usize>)
        ensures
            match r {
                Some(i) => i < self.articles@.len() && self.articles@[i as int].id == article_id,
                None => !self.has_article(article_id),
            },
    {
        let n = self.articles.len();
        let mut i: usize = 0;
        while i < n
            invariant
                n == self.articles@.len(),
                0 <= i <= n,
                forall|m: int| 0 <= m < i ==> (#[trigger] self.articles@[m]).id != article_id,
            decreases n - i,
        {
            if self.articles[i].id == article_id {
                return Some(i);
            }
            i = i + 1;
        }
        None
    }

    pub fn find_user(&self, user_id: u64) -> (r: Option<usize>)
        ensures
            match r {
                Some(i) => i < self.users@.len() && self.users@[i as int].user_id == user_id,
                None => !self.has_user(user_id),
            },
    {
        let n = self.users.len();
        let mut i: usize = 0;
        while i < n
            invariant
                n == self.users@.len(),
                0 <= i <= n,
                forall|m: int| 0 <= m < i ==> (#[trigger] self.users@[m]).user_id != user_id,
            decreases n - i,
        {
            if self.users[i].user_id == user_id {
                return Some(i);
            }
            i = i + 1;
        }
        None
    }

    /// Records one more view; a missing article leaves the store as it
    /// was, as an update that matches no row does.
    pub fn record_view(&mut self, article_id: u64)
        requires
            old(self).wf(),
            forall|i: int|
                0 <= i < old(self).articles@.len() && (#[trigger] old(self).articles@[i]).id
                    == article_id ==> old(self).articles@[i].views_count < u64::MAX,
        ensures
            final(self).wf(),
            Store::same_but_articles(*old(self), *final(self)),
            !old(self).has_article(article_id) ==> final(self).articles@ == old(self).articles@,
            old(self).has_article(article_id) ==> exists|i: int|
                0 <= i < old(self).articles@.len() && (#[trigger] old(self).articles@[i]).id
                    == article_id && final(self).articles@ == old(self).articles@.update(
                    i,
                    Article {
                        views_count: (old(self).articles@[i].views_count + 1) as u64,
                        ..old(self).articles@[i]
                    },
                ),
    {
        let idx = self.find_article(article_id);
        if let Some(i) = idx {
            let mut a = self.articles.remove(i);
            a.views_count = a.views_count + 1;
            self.articles.insert(i, a);
            proof {
                assert(self.articles@ =~= old(self).articles@.update(
                    i as int,
                    Article {
                        views_count: (old(self).articles@[i as int].views_count + 1) as u64,
                        ..old(self).articles@[i as int]
                    },
                ));
                lemma_wf_counters_kept(*old(self), *self, i as int);
            }
        }
    }

    /// Records one more completed read, the same way.
    pub fn record_read(&mut self, article_id: u64)
        requires
            old(self).wf(),
            forall|i: int|
                0 <= i < old(self).articles@.len() && (#[trigger] old(self).articles@[i]).id
                    == article_id ==> old(self).articles@[i].reads_count < u64::MAX,
        ensures
            final(self).wf(),
            Store::same_but_articles(*old(self), *final(self)),
            !old(self).has_article(article_id) ==> final(self).articles@ == old(self).articles@,
            old(self).has_article(article_id) ==> exists|i: int|
                0 <= i < old(self).articles@.len() && (#[trigger] old(self).articles@[i]).id
                    == article_id && final(self).articles@ == old(self).articles@.update(
                    i,
                    Article {
                        reads_count: (old(self).articles@[i].reads_count + 1) as u64,
                        ..old(self).articles@[i]
                    },
                ),
    {
        let idx = self.find_article(article_id);
        if let Some(i) = idx {
            let mut a = self.articles.remove(i);
            a.reads_count = a.reads_count + 1;
            self.articles.insert(i, a);
            proof {
                assert(self.articles@ =~= old(self).articles@.update(
                    i as int,
                    Article {
                        reads_count: (old(self).articles@[i as int].reads_count + 1) as u64,
                        ..old(self).articles@[i as int]
                    },
                ));
                lemma_wf_counters_kept(*old(self), *self, i as int);
            }
        }
    }

    /// Flips the editorial flag, gated by ownership like every other
    /// mutation of an article; absence and foreign ownership are
    /// reported alike.
    pub fn toggle_featured(&mut self, article_id: u64, author_id: u64, now: i64) -> (r: Result<
        bool,
        StoreError,
    >)
        requires
            old(self).wf(),
        ensures
            final(self).wf(),
            Store::same_but_articles(*old(self), *final(self)),
            r is Ok <==> old(self).owns_article(article_id, author_id),
            match r {
                Ok(v) => exists|i: int|
                    0 <= i < old(self).articles@.len() && (#[trigger] old(self).articles@[i]).id
                        == article_id && old(self).articles@[i].author_id == author_id && v == !old(
                        self,
                    ).articles@[i].is_featured && final(self).articles@ == old(
                        self,
                    ).articles@.update(
                        i,
                        Article {
                            is_featured: !old(self).articles@[i].is_featured,
                            updated_at: now,
                            ..old(self).articles@[i]
                        },
                    ),
                Err(e) => e is NotFound && final(self).articles@ == old(self).articles@,
            },
    {
        let idx = self.find_article(article_id);
        match idx {
            None => Err(StoreError::NotFound),
            Some(i) => {
                if self.articles[i].author_id != author_id {
                    proof {
                        lemma_only_index(*old(self), i as int, article_id);
                    }
                    return Err(StoreError::NotFound);
                }
                let mut a = self.articles.remove(i);
                let newv = !a.is_featured;
                a.is_featured = newv;
                a.updated_at = now;
                self.articles.insert(i, a);
                proof {
                    assert(self.articles@ =~= old(self).articles@.update(
                        i as int,
                        Article {
                            is_featured: !old(self).articles@[i as int].is_featured,
                            updated_at: now,
                            ..old(self).articles@[i as int]
                        },
                    ));
                    lemma_wf_counters_kept(*old(self), *self, i as int);
                }
                Ok(newv)
            },
        }
    }

    /// Whether a publish of `article_id` by `author_id` can succeed: the
    /// article exists, the caller owns it, and it is still a draft.
    pub open spec fn can_publish(self, article_id: u64, author_id: u64) -> bool {
        exists|i: int|
            0 <= i < self.articles@.len() && #[trigger] self.articles@[i].id == article_id
                && self.articles@[i].author_id == author_id && self.articles@[i].status is Draft
    }

    /// The one-way transition out of `Draft`.  A missing article, a
    /// foreign author and an already published article are deliberately
    /// collapsed into one `NotFound`.
    pub fn publish_article(&mut self, article_id: u64, author_id: u64, now: i64) -> (r: Result<
        (),
        StoreError,
    >)
        requires
            old(self).wf(),
        ensures
            final(self).wf(),
            Store::same_but_articles(*old(self), *final(self)),
            r is Ok <==> old(self).can_publish(article_id, author_id),
            match r {
                Ok(_) => exists|i: int|
                    0 <= i < old(self).articles@.len() && (#[trigger] old(self).articles@[i]).id
                        == article_id && old(self).articles@[i].author_id == author_id && old(self).articles@[i].status is Draft && final(self).articles@ == old(self).articles@.update(
                        i,
                        Article {
                            status: ArticleStatus::Published,
                            published_at: Some(now),
                            updated_at: now,
                            ..old(self).articles@[i]
                        },
                    ),
                Err(e) => e is NotFound && final(self).articles@ == old(self).articles@,
            },
    {
        let idx = self.find_article(article_id);
        match idx {
            None => Err(StoreError::NotFound),
            Some(i) => {
                let owned = self.articles[i].author_id == author_id;
                let is_draft = matches!(self.articles[i].status, ArticleStatus::Draft);
                if !owned || !is_draft {
                    proof {
                        lemma_only_index(*old(self), i as int, article_id);
                    }
                    return Err(StoreError::NotFound);
                }
                let mut a = self.articles.remove(i);
                a.status = ArticleStatus::Published;
                a.published_at = Some(now);
                a.updated_at = now;
                self.articles.insert(i, a);
                proof {
                    assert(self.articles@ =~= old(self).articles@.update(
                        i as int,
                        Article {
                            status: ArticleStatus::Published,
                            published_at: Some(now),
                            updated_at: now,
                            ..old(self).articles@[i as int]
                        },
                    ));
                    lemma_wf_counters_kept(*old(self), *self, i as int);
                }
                Ok(())
            },
        }
    }

    /// Whether `author_id` owns the stored article `article_id`, which
    /// gates update and delete.
    pub open spec fn owns_article(self, article_id: u64, author_id: u64) -> bool {
        exists|i: int|
            0 <= i < self.articles@.len() && #[trigger] self.articles@[i].id == article_id
                && self.articles@[i].author_id == author_id
    }

    /// Hard delete, gated by ownership; absence and foreign ownership are
    /// reported alike.
    pub fn delete_article(&mut self, article_id: u64, author_id: u64) -> (r: Result<
        (),
        StoreError,
    >)
        requires
            old(self).wf(),
        ensures
            final(self).wf(),
            Store::same_but_articles(*old(self), *final(self)),
            r is Ok <==> old(self).owns_article(article_id, author_id),
            match r {
                Ok(_) => exists|i: int|
                    0 <= i < old(self).articles@.len() && (#[trigger] old(self).articles@[i]).id
                        == article_id && old(self).articles@[i].author_id == author_id && final(self).articles@ == old(self).articles@.remove(i),
                Err(e) => e is NotFound && final(self).articles@ == old(self).articles@,
            },
    {
        let idx = self.find_article(article_id);
        match idx {
            None => Err(StoreError::NotFound),
            Some(i) => {
                if self.articles[i].author_id != author_id {
                    proof {
                        lemma_only_index(*old(self), i as int, article_id);
                    }
                    return Err(StoreError::NotFound);
                }
                self.articles.remove(i);
                proof {
                    lemma_wf_article_removed(*old(self), *self, i as int);
                }
                Ok(())
            },
        }
    }
}

/// In a well-formed store, only the article at the found index carries
/// the id that was searched for.
pub proof fn lemma_only_index(s: Store, i: int, article_id: u64)
    requires
        s.articles_distinct(),
        0 <= i < s.articles@.len(),
        s.articles@[i].id == article_id,
    ensures
        forall|j: int|
            0 <= j < s.articles@.len() && (#[trigger] s.articles@[j]).id == article_id ==> j == i,
{
}

/// Replacing one article with a twin that keeps its id, slug, counters
/// and soundness fields preserves the whole invariant, provided no other
/// table moved.
pub proof fn lemma_wf_counters_kept(pre: Store, post: Store, i: int)
    requires
        pre.wf(),
        0 <= i < pre.articles@.len(),
        Store::same_but_articles(pre, post),
        post.articles@.len() == pre.articles@.len(),
        forall|j: int|
            0 <= j < pre.articles@.len() && j != i ==> #[trigger] post.articles@[j]
                == pre.articles@[j],
        post.articles@[i].id == pre.articles@[i].id,
        post.articles@[i].author_id == pre.articles@[i].author_id,
        post.articles@[i].slug@ == pre.articles@[i].slug@,
        post.articles@[i].claps_count == pre.articles@[i].claps_count,
        post.articles@[i].bookmarks_count == pre.articles@[i].bookmarks_count,
        post.articles@[i].comments_count == pre.articles@[i].comments_count,
        post.articles@[i].auto_save_version >= 1,
        post.articles@[i].reading_time_minutes >= 1,
        post.articles@[i].published_at is Some <==> post.articles@[i].status is Published,
        slug_ok(post.articles@[i].slug@),
    ensures
        post.wf(),
{
}

/// Removing one article preserves the invariant: no counter of any other
/// row depends on it.
pub proof fn lemma_wf_article_removed(pre: Store, post: Store, i: int)
    requires
        pre.wf(),
        0 <= i < pre.articles@.len(),
        Store::same_but_articles(pre, post),
        post.articles@ == pre.articles@.remove(i),
    ensures
        post.wf(),
{
    assert forall|j: int, k: int|
        #![trigger post.articles@[j], post.articles@[k]]
        0 <= j < k < post.articles@.len() implies post.articles@[j].id != post.articles@[k].id
        && post.articles@[j].slug@ != post.articles@[k].slug@ by {
        let j0 = if j < i {
            j
        } else {
            j + 1
        };
        let k0 = if k < i {
            k
        } else {
            k + 1
        };
        assert(post.articles@[j] == pre.articles@[j0]);
        assert(post.articles@[k] == pre.articles@[k0]);
    }
    assert forall|j: int| 0 <= j < post.articles@.len() implies {
        let a = #[trigger] post.articles@[j];
        a.claps_count as nat == claps_for(post.claps@, a.id) && a.bookmarks_count as nat
            == bookmarks_for(post.bookmarks@, a.id) && a.comments_count as nat == comments_for(
            post.comments@,
            a.id,
        ) && a.auto_save_version >= 1 && a.reading_time_minutes >= 1 && (
        a.published_at is Some <==> a.status is Published) && slug_ok(a.slug@) && a.id
            < post.next_id
    } by {
        let j0 = if j < i {
            j
        } else {
            j + 1
        };
        assert(post.articles@[j] == pre.articles@[j0]);
    }
}


/// First stored user with the given id, if any.
pub open spec fn find_user_spec(users: Seq<User>, user_id: u64) -> Option<User>
    decreases users.len(),
{
    if users.len() == 0 {
        None
    } else if users[0].user_id == user_id {
        Some(users[0])
    } else {
        find_user_spec(users.drop_first(), user_id)
    }
}

/// First stored comment with the given id, if any.
pub open spec fn find_comment_spec(comments: Seq<Comment>, comment_id: u64) -> Option<Comment>
    decreases comments.len(),
{
    if comments.len() == 0 {
        None
    } else if comments[0].id == comment_id {
        Some(comments[0])
    } else {
        find_comment_spec(comments.drop_first(), comment_id)
    }
}

/// First stored article with the given id, if any.
pub open spec fn find_article_spec(articles: Seq<Article>, article_id: u64) -> Option<Article>
    decreases articles.len(),
{
    if articles.len() == 0 {
        None
    } else if articles[0].id == article_id {
        Some(articles[0])
    } else {
        find_article_spec(articles.drop_first(), article_id)
    }
}

/// A row found at some index is what the lookup returns.
pub proof fn lemma_find_user_spec_at(users: Seq<User>, i: int)
    requires
        0 <= i < users.len(),
        forall|a: int, b: int|
            #![trigger users[a], users[b]]
            0 <= a < b < users.len() ==> users[a].user_id != users[b].user_id,
    ensures
        find_user_spec(users, users[i].user_id) == Some(users[i]),
    decreases users.len(),
{
    if i > 0 {
        assert(users[0].user_id != users[i].user_id);
        assert(forall|a: int, b: int|
            #![trigger users.drop_first()[a], users.drop_first()[b]]
            0 <= a < b < users.drop_first().len() ==> users.drop_first()[a].user_id
                != users.drop_first()[b].user_id) by {
            assert(forall|a: int|
                0 <= a < users.drop_first().len() ==> #[trigger] users.drop_first()[a] == users[a
                    + 1]);
        }
        lemma_find_user_spec_at(users.drop_first(), i - 1);
    }
}

/// An absent id makes the lookup return nothing.
pub proof fn lemma_find_user_spec_none(users: Seq<User>, user_id: u64)
    requires
        forall|a: int| 0 <= a < users.len() ==> (#[trigger] users[a]).user_id != user_id,
    ensures
        find_user_spec(users, user_id) is None,
    decreases users.len(),
{
    if users.len() > 0 {
        assert(forall|a: int|
            0 <= a < users.drop_first().len() ==> #[trigger] users.drop_first()[a] == users[a + 1]);
        lemma_find_user_spec_none(users.drop_first(), user_id);
    }
}

pub proof fn lemma_find_comment_spec_at(comments: Seq<Comment>, i: int)
    requires
        0 <= i < comments.len(),
        forall|a: int, b: int|
            #![trigger comments[a], comments[b]]
            0 <= a < b < comments.len() ==> comments[a].id != comments[b].id,
    ensures
        find_comment_spec(comments, comments[i].id) == Some(comments[i]),
    decreases comments.len(),
{
    if i > 0 {
        assert(comments[0].id != comments[i].id);
        assert(forall|a: int, b: int|
            #![trigger comments.drop_first()[a], comments.drop_first()[b]]
            0 <= a < b < comments.drop_first().len() ==> comments.drop_first()[a].id
                != comments.drop_first()[b].id) by {
            assert(forall|a: int|
                0 <= a < comments.drop_first().len() ==> #[trigger] comments.drop_first()[a]
                    == comments[a + 1]);
        }
        lemma_find_comment_spec_at(comments.drop_first(), i - 1);
    }
}

pub proof fn lemma_find_article_spec_at(articles: Seq<Article>, i: int)
    requires
        0 <= i < articles.len(),
        forall|a: int, b: int|
            #![trigger articles[a], articles[b]]
            0 <= a < b < articles.len() ==> articles[a].id != articles[b].id,
    ensures
        find_article_spec(articles, articles[i].id) == Some(articles[i]),
    decreases articles.len(),
{
    if i > 0 {
        assert(articles[0].id != articles[i].id);
        assert(forall|a: int, b: int|
            #![trigger articles.drop_first()[a], articles.drop_first()[b]]
            0 <= a < b < articles.drop_first().len() ==> articles.drop_first()[a].id
                != articles.drop_first()[b].id) by {
            assert(forall|a: int|
                0 <= a < articles.drop_first().len() ==> #[trigger] articles.drop_first()[a]
                    == articles[a + 1]);
        }
        lemma_find_article_spec_at(articles.drop_first(), i - 1);
    }
}


} // verus!
