//! The engagement ledger: clap toggles, bookmarks and comments, each
//! keeping the denormalized counters equal to their detail rows.

use vstd::prelude::*;
use crate::article::Article;
use crate::counting::{count_matching, lemma_count_push, lemma_count_remove, lemma_count_zero,
    lemma_count_take_succ, lemma_count_take_all, lemma_count_le_len};
use crate::engagement::{Bookmark, Clap, Comment};
use crate::store::{Store, StoreError, clap_on, bookmark_on, comment_on, reply_to, claps_for,
    bookmarks_for, comments_for, replies_for, lemma_only_index};

verus! {

impl Store {
    /// Index of the caller's clap row on an article, if any.
    fn find_clap(&self, user_id: u64, article_id: u64) -> (r: Option<usize>)
        ensures
            match r {
                Some(j) => j < self.claps@.len() && self.claps@[j as int].user_id == user_id
                    && self.claps@[j as int].article_id == article_id,
                None => !self.user_clapped(user_id, article_id),
            },
    {
        let n = self.claps.len();
        let mut j: usize = 0;
        while j < n
            invariant
                n == self.claps@.len(),
                0 <= j <= n,
                forall|m: int|
                    0 <= m < j ==> !((#[trigger] self.claps@[m]).user_id == user_id
                        && self.claps@[m].article_id == article_id),
            decreases n - j,
        {
            if self.claps[j].user_id == user_id && self.claps[j].article_id == article_id {
                return Some(j);
            }
            j = j + 1;
        }
        None
    }

    pub(crate) fn find_bookmark(&self, user_id: u64, article_id: u64) -> (r: Option<usize>)
        ensures
            match r {
                Some(j) => j < self.bookmarks@.len() && self.bookmarks@[j as int].user_id
                    == user_id && self.bookmarks@[j as int].article_id == article_id,
                None => !self.user_bookmarked(user_id, article_id),
            },
    {
        let n = self.bookmarks.len();
        let mut j: usize = 0;
        while j < n
            invariant
                n == self.bookmarks@.len(),
                0 <= j <= n,
                forall|m: int|
                    0 <= m < j ==> !((#[trigger] self.bookmarks@[m]).user_id == user_id
                        && self.bookmarks@[m].article_id == article_id),
            decreases n - j,
        {
            if self.bookmarks[j].user_id == user_id && self.bookmarks[j].article_id == article_id {
                return Some(j);
            }
            j = j + 1;
        }
        None
    }

    /// Counts the clap rows an article currently holds.
    fn count_claps(&self, article_id: u64) -> (r: u64)
        ensures
            r as nat == claps_for(self.claps@, article_id),
    {
        let n = self.claps.len();
        let mut count: usize = 0;
        let mut j: usize = 0;
        while j < n
            invariant
                n == self.claps@.len(),
                0 <= j <= n,
                count <= j,
                count as nat == count_matching(self.claps@.take(j as int), clap_on(article_id)),
            decreases n - j,
        {
            proof {
                lemma_count_take_succ(self.claps@, clap_on(article_id), j as int);
            }
            if self.claps[j].article_id == article_id {
                count = count + 1;
            }
            j = j + 1;
        }
        proof {
            lemma_count_take_all(self.claps@, clap_on(article_id));
        }
        count as u64
    }

    /// The caller's clap state on an article: one when a clap row exists,
    /// zero otherwise.
    pub fn get_user_clap_count(&self, article_id: u64, user_id: u64) -> (r: i32)
        ensures
            r == 1i32 <==> self.user_clapped(user_id, article_id),
            r == 0i32 <==> !self.user_clapped(user_id, article_id),
    {
        match self.find_clap(user_id, article_id) {
            Some(_) => 1,
            None => 0,
        }
    }

    /// How one clap toggle relates the store before to the store after.
    /// `total` is the recomputed clap count, `clapped` the caller's state
    /// after the call.
    pub open spec fn clap_toggle_rel(
        pre: Store,
        post: Store,
        article_id: u64,
        user_id: u64,
        now: i64,
        total: u64,
        personal: i32,
        clapped: bool,
    ) -> bool {
        &&& pre.has_article(article_id)
        &&& post.users@ == pre.users@
        &&& post.credentials@ == pre.credentials@
        &&& post.bookmarks@ == pre.bookmarks@
        &&& post.comments@ == pre.comments@
        &&& post.follows@ == pre.follows@
        &&& clapped == !pre.user_clapped(user_id, article_id)
        &&& post.user_clapped(user_id, article_id) == clapped
        &&& personal == if clapped {
            1i32
        } else {
            0i32
        }
        &&& total as nat == claps_for(post.claps@, article_id)
        &&& (clapped ==> post.next_id == pre.next_id + 1 && post.claps@ == pre.claps@.push(
            Clap {
                id: pre.next_id,
                user_id,
                article_id,
                clap_count: 1,
                created_at: now,
                updated_at: now,
            },
        ))
        &&& (!clapped ==> post.next_id == pre.next_id && exists|j: int|
            0 <= j < pre.claps@.len() && (#[trigger] pre.claps@[j]).user_id == user_id
                && pre.claps@[j].article_id == article_id && post.claps@ == pre.claps@.remove(j))
        &&& exists|i: int|
            0 <= i < pre.articles@.len() && (#[trigger] pre.articles@[i]).id == article_id
                && post.articles@ == pre.articles@.update(
                i,
                Article { claps_count: total, ..pre.articles@[i] },
            )
    }

    /// The clap toggle: a second call by the same user undoes the first.
    /// The article's `claps_count` is recomputed from the rows, not
    /// incremented, and the magnitude in the request is accepted but not
    /// aggregated: presence of the row is the unit of aggregation.
    pub fn clap_article(
        &mut self,
        article_id: u64,
        user_id: u64,
        _request: crate::engagement::ClapRequest,
        now: i64,
    ) -> (r: Result<(u64, i32, bool), StoreError>)
        requires
            old(self).wf(),
            old(self).next_id < u64::MAX,
        ensures
            final(self).wf(),
            match r {
                Ok((total, personal, clapped)) => Store::clap_toggle_rel(
                    *old(self),
                    *final(self),
                    article_id,
                    user_id,
                    now,
                    total,
                    personal,
                    clapped,
                ),
                Err(e) => e is NotFound && !old(self).has_article(article_id) && *final(self)
                    == *old(self),
            },
    {
        let idx = match self.find_article(article_id) {
            None => {
                return Err(StoreError::NotFound);
            },
            Some(i) => i,
        };
        let found = self.find_clap(user_id, article_id);
        let clapped: bool;
        match found {
            Some(j) => {
                self.claps.remove(j);
                clapped = false;
                proof {
                    assert forall|a: int, b: int|
                        #![trigger self.claps@[a], self.claps@[b]]
                        0 <= a < b < self.claps@.len() implies !(self.claps@[a].user_id
                        == self.claps@[b].user_id && self.claps@[a].article_id
                        == self.claps@[b].article_id) by {
                        let a0 = if a < j {
                            a
                        } else {
                            a + 1
                        };
                        let b0 = if b < j {
                            b
                        } else {
                            b + 1
                        };
                        assert(self.claps@[a] == old(self).claps@[a0]);
                        assert(self.claps@[b] == old(self).claps@[b0]);
                    }
                    assert forall|m: int|
                        0 <= m < self.claps@.len() implies !((#[trigger] self.claps@[m]).user_id
                        == user_id && self.claps@[m].article_id == article_id) by {
                        let m0 = if m < j {
                            m
                        } else {
                            m + 1
                        };
                        assert(self.claps@[m] == old(self).claps@[m0]);
                        if m0 != j && old(self).claps@[m0].user_id == user_id && old(
                            self,
                        ).claps@[m0].article_id == article_id {
                            assert(false);
                        }
                    }
                }
            },
            None => {
                let row = Clap {
                    id: self.next_id,
                    user_id,
                    article_id,
                    clap_count: 1,
                    created_at: now,
                    updated_at: now,
                };
                self.claps.push(row);
                self.next_id = self.next_id + 1;
                clapped = true;
                proof {
                    assert(self.claps@[self.claps@.len() - 1].user_id == user_id);
                }
            },
        }
        let total = self.count_claps(article_id);
        let mut a = self.articles.remove(idx);
        a.claps_count = total;
        self.articles.insert(idx, a);
        proof {
            let pre = *old(self);
            let post = *self;
            assert(post.articles@ =~= pre.articles@.update(
                idx as int,
                Article { claps_count: total, ..pre.articles@[idx as int] },
            ));
            lemma_wf_after_clap_change(pre, post, idx as int, article_id, user_id, total, clapped, now);
            if clapped {
                assert(post.claps@[post.claps@.len() - 1].user_id == user_id);
            }
        }
        Ok((total, if clapped { 1 } else { 0 }, clapped))
    }

    /// Whether a bookmark of `article_id` can be placed: the article
    /// exists and is published.
    pub open spec fn can_bookmark(self, article_id: u64) -> bool {
        exists|i: int|
            0 <= i < self.articles@.len() && #[trigger] self.articles@[i].id == article_id
                && self.articles@[i].status is Published
    }

    /// Idempotent bookmark: placing one that already exists reports
    /// `true` without touching anything.
    pub fn bookmark_article(&mut self, article_id: u64, user_id: u64, now: i64) -> (r: Result<
        bool,
        StoreError,
    >)
        requires
            old(self).wf(),
            old(self).next_id < u64::MAX,
            forall|i: int|
                0 <= i < old(self).articles@.len() && (#[trigger] old(self).articles@[i]).id
                    == article_id ==> old(self).articles@[i].bookmarks_count < u64::MAX,
        ensures
            final(self).wf(),
            r is Ok <==> old(self).can_bookmark(article_id),
            match r {
                Ok(already) => {
                    &&& already == old(self).user_bookmarked(user_id, article_id)
                    &&& final(self).user_bookmarked(user_id, article_id)
                    &&& (already ==> *final(self) == *old(self))
                    &&& (!already ==> {
                        &&& final(self).next_id == old(self).next_id + 1
                        &&& final(self).bookmarks@ == old(self).bookmarks@.push(
                            Bookmark { id: old(self).next_id, user_id, article_id, created_at: now },
                        )
                        &&& final(self).users@ == old(self).users@
                        &&& final(self).credentials@ == old(self).credentials@
                        &&& final(self).claps@ == old(self).claps@
                        &&& final(self).comments@ == old(self).comments@
                        &&& final(self).follows@ == old(self).follows@
                        &&& exists|i: int|
                            0 <= i < old(self).articles@.len() && (#[trigger] old(
                                self,
                            ).articles@[i]).id == article_id && final(self).articles@ == old(
                                self,
                            ).articles@.update(
                                i,
                                Article {
                                    bookmarks_count: (old(self).articles@[i].bookmarks_count
                                        + 1) as u64,
                                    ..old(self).articles@[i]
                                },
                            )
                    })
                },
                Err(e) => e is NotFound && *final(self) == *old(self),
            },
    {
        let idx = match self.find_article(article_id) {
            None => {
                proof {
                    assert(!old(self).can_bookmark(article_id));
                }
                return Err(StoreError::NotFound);
            },
            Some(i) => i,
        };
        if !matches!(self.articles[idx].status, crate::article::ArticleStatus::Published) {
            proof {
                lemma_only_index(*old(self), idx as int, article_id);
            }
            return Err(StoreError::NotFound);
        }
        if self.find_bookmark(user_id, article_id).is_some() {
            return Ok(true);
        }
        let row = Bookmark { id: self.next_id, user_id, article_id, created_at: now };
        self.bookmarks.push(row);
        self.next_id = self.next_id + 1;
        let mut a = self.articles.remove(idx);
        proof {
            lemma_count_le_len(old(self).bookmarks@, bookmark_on(article_id));
        }
        a.bookmarks_count = a.bookmarks_count + 1;
        self.articles.insert(idx, a);
        proof {
            let pre = *old(self);
            let post = *self;
            assert(post.articles@ =~= pre.articles@.update(
                idx as int,
                Article {
                    bookmarks_count: (pre.articles@[idx as int].bookmarks_count + 1) as u64,
                    ..pre.articles@[idx as int]
                },
            ));
            lemma_wf_after_bookmark_insert(pre, post, idx as int, article_id, user_id, now);
            assert(post.bookmarks@[post.bookmarks@.len() - 1].user_id == user_id);
        }
        Ok(false)
    }

    /// Removes a bookmark; only an actually removed row decrements the
    /// counter, so redundant calls change nothing.
    pub fn unbookmark_article(&mut self, article_id: u64, user_id: u64) -> (r: bool)
        requires
            old(self).wf(),
        ensures
            final(self).wf(),
            r == old(self).user_bookmarked(user_id, article_id),
            !r ==> *final(self) == *old(self),
            r ==> {
                &&& final(self).next_id == old(self).next_id
                &&& final(self).users@ == old(self).users@
                &&& final(self).credentials@ == old(self).credentials@
                &&& final(self).claps@ == old(self).claps@
                &&& final(self).comments@ == old(self).comments@
                &&& final(self).follows@ == old(self).follows@
                &&& exists|j: int|
                    0 <= j < old(self).bookmarks@.len() && (#[trigger] old(
                        self,
                    ).bookmarks@[j]).user_id == user_id && old(self).bookmarks@[j].article_id
                        == article_id && final(self).bookmarks@ == old(self).bookmarks@.remove(j)
                &&& !final(self).user_bookmarked(user_id, article_id)
                &&& (old(self).has_article(article_id) ==> exists|i: int|
                    0 <= i < old(self).articles@.len() && (#[trigger] old(self).articles@[i]).id
                        == article_id && final(self).articles@ == old(self).articles@.update(
                        i,
                        Article {
                            bookmarks_count: (old(self).articles@[i].bookmarks_count - 1) as u64,
                            ..old(self).articles@[i]
                        },
                    ))
                &&& (!old(self).has_article(article_id) ==> final(self).articles@ == old(
                    self,
                ).articles@)
            },
    {
        let found = match self.find_bookmark(user_id, article_id) {
            None => {
                return false;
            },
            Some(j) => j,
        };
        self.bookmarks.remove(found);
        proof {
            let pre = *old(self);
            assert forall|a: int, b: int|
                #![trigger self.bookmarks@[a], self.bookmarks@[b]]
                0 <= a < b < self.bookmarks@.len() implies !(self.bookmarks@[a].user_id
                == self.bookmarks@[b].user_id && self.bookmarks@[a].article_id
                == self.bookmarks@[b].article_id) by {
                let a0 = if a < found {
                    a
                } else {
                    a + 1
                };
                let b0 = if b < found {
                    b
                } else {
                    b + 1
                };
                assert(self.bookmarks@[a] == pre.bookmarks@[a0]);
                assert(self.bookmarks@[b] == pre.bookmarks@[b0]);
            }
            assert forall|m: int|
                0 <= m < self.bookmarks@.len() implies !((#[trigger] self.bookmarks@[m]).user_id
                == user_id && self.bookmarks@[m].article_id == article_id) by {
                let m0 = if m < found {
                    m
                } else {
                    m + 1
                };
                assert(self.bookmarks@[m] == pre.bookmarks@[m0]);
                if m0 != found && pre.bookmarks@[m0].user_id == user_id
                    && pre.bookmarks@[m0].article_id == article_id {
                    assert(false);
                }
            }
        }
        let idx = self.find_article(article_id);
        match idx {
            None => {
                proof {
                    lemma_wf_after_bookmark_remove(*old(self), *self, found as int, article_id);
                }
                true
            },
            Some(i) => {
                let mut a = self.articles.remove(i);
                proof {
                    lemma_count_remove(
                        old(self).bookmarks@,
                        bookmark_on(article_id),
                        found as int,
                    );
                }
                a.bookmarks_count = a.bookmarks_count - 1;
                self.articles.insert(i, a);
                proof {
                    let pre = *old(self);
                    let post = *self;
                    assert(post.articles@ =~= pre.articles@.update(
                        i as int,
                        Article {
                            bookmarks_count: (pre.articles@[i as int].bookmarks_count - 1) as u64,
                            ..pre.articles@[i as int]
                        },
                    ));
                    lemma_wf_after_bookmark_remove(pre, post, found as int, article_id);
                }
                true
            },
        }
    }
}

/// The invariant survives a clap toggle: rows for other articles are
/// untouched, and the one counter that changed was recomputed.
proof fn lemma_wf_after_clap_change(
    pre: Store,
    post: Store,
    i: int,
    article_id: u64,
    user_id: u64,
    total: u64,
    clapped: bool,
    now: i64,
)
    requires
        pre.wf(),
        0 <= i < pre.articles@.len(),
        pre.articles@[i].id == article_id,
        post.users@ == pre.users@,
        post.credentials@ == pre.credentials@,
        post.bookmarks@ == pre.bookmarks@,
        post.comments@ == pre.comments@,
        post.follows@ == pre.follows@,
        clapped ==> pre.next_id < u64::MAX && post.next_id == pre.next_id + 1 && post.claps@
            == pre.claps@.push(
            Clap {
                id: pre.next_id,
                user_id,
                article_id,
                clap_count: 1,
                created_at: now,
                updated_at: now,
            },
        ) && !pre.user_clapped(user_id, article_id),
        !clapped ==> post.next_id == pre.next_id && exists|j: int|
            0 <= j < pre.claps@.len() && (#[trigger] pre.claps@[j]).user_id == user_id
                && pre.claps@[j].article_id == article_id && post.claps@ == pre.claps@.remove(j),
        total as nat == claps_for(post.claps@, article_id),
        post.articles@ == pre.articles@.update(
            i,
            Article { claps_count: total, ..pre.articles@[i] },
        ),
    ensures
        post.wf(),
{
    if clapped {
        let row = Clap {
            id: pre.next_id,
            user_id,
            article_id,
            clap_count: 1,
            created_at: now,
            updated_at: now,
        };
        assert forall|k: int| 0 <= k < post.articles@.len() implies {
            let a = #[trigger] post.articles@[k];
            a.claps_count as nat == claps_for(post.claps@, a.id)
        } by {
            lemma_count_push(pre.claps@, clap_on(post.articles@[k].id), row);
            if k != i {
                assert(post.articles@[k] == pre.articles@[k]);
                assert(post.articles@[k].id != article_id) by {
                    if pre.articles@[k].id == article_id {
                        assert(false);
                    }
                }
            }
        }
        assert forall|a: int, b: int|
            #![trigger post.claps@[a], post.claps@[b]]
            0 <= a < b < post.claps@.len() implies !(post.claps@[a].user_id
            == post.claps@[b].user_id && post.claps@[a].article_id == post.claps@[b].article_id)
            by {
            if b == post.claps@.len() - 1 {
                assert(post.claps@[a] == pre.claps@[a]);
                if pre.claps@[a].user_id == user_id && pre.claps@[a].article_id == article_id {
                    assert(pre.user_clapped(user_id, article_id));
                }
            } else {
                assert(post.claps@[a] == pre.claps@[a]);
                assert(post.claps@[b] == pre.claps@[b]);
            }
        }
    } else {
        let j = choose|j: int|
            0 <= j < pre.claps@.len() && (#[trigger] pre.claps@[j]).user_id == user_id
                && pre.claps@[j].article_id == article_id && post.claps@ == pre.claps@.remove(j);
        assert forall|k: int| 0 <= k < post.articles@.len() implies {
            let a = #[trigger] post.articles@[k];
            a.claps_count as nat == claps_for(post.claps@, a.id)
        } by {
            lemma_count_remove(pre.claps@, clap_on(post.articles@[k].id), j);
            if k != i {
                assert(post.articles@[k] == pre.articles@[k]);
                if pre.articles@[k].id == article_id {
                    assert(false);
                }
            }
        }
        assert forall|a: int, b: int|
            #![trigger post.claps@[a], post.claps@[b]]
            0 <= a < b < post.claps@.len() implies !(post.claps@[a].user_id
            == post.claps@[b].user_id && post.claps@[a].article_id == post.claps@[b].article_id)
            by {
            let a0 = if a < j {
                a
            } else {
                a + 1
            };
            let b0 = if b < j {
                b
            } else {
                b + 1
            };
            assert(post.claps@[a] == pre.claps@[a0]);
            assert(post.claps@[b] == pre.claps@[b0]);
        }
        assert forall|m: int|
            0 <= m < post.claps@.len() implies (#[trigger] post.claps@[m]).id < post.next_id
            && post.claps@[m].article_id < post.next_id by {
            let m0 = if m < j {
                m
            } else {
                m + 1
            };
            assert(post.claps@[m] == pre.claps@[m0]);
        }
    }
}

/// The invariant survives a fresh bookmark: the new row's pair was
/// absent, and exactly one counter rose by one.
proof fn lemma_wf_after_bookmark_insert(
    pre: Store,
    post: Store,
    i: int,
    article_id: u64,
    user_id: u64,
    now: i64,
)
    requires
        pre.wf(),
        pre.next_id < u64::MAX,
        0 <= i < pre.articles@.len(),
        pre.articles@[i].id == article_id,
        pre.articles@[i].bookmarks_count < u64::MAX,
        !pre.user_bookmarked(user_id, article_id),
        post.users@ == pre.users@,
        post.credentials@ == pre.credentials@,
        post.claps@ == pre.claps@,
        post.comments@ == pre.comments@,
        post.follows@ == pre.follows@,
        post.next_id == pre.next_id + 1,
        post.bookmarks@ == pre.bookmarks@.push(
            Bookmark { id: pre.next_id, user_id, article_id, created_at: now },
        ),
        post.articles@ == pre.articles@.update(
            i,
            Article {
                bookmarks_count: (pre.articles@[i].bookmarks_count + 1) as u64,
                ..pre.articles@[i]
            },
        ),
    ensures
        post.wf(),
{
    let row = Bookmark { id: pre.next_id, user_id, article_id, created_at: now };
    assert forall|k: int| 0 <= k < post.articles@.len() implies {
        let a = #[trigger] post.articles@[k];
        a.bookmarks_count as nat == bookmarks_for(post.bookmarks@, a.id)
    } by {
        lemma_count_push(pre.bookmarks@, bookmark_on(post.articles@[k].id), row);
        if k != i {
            assert(post.articles@[k] == pre.articles@[k]);
            if pre.articles@[k].id == article_id {
                assert(false);
            }
        }
    }
    assert forall|a: int, b: int|
        #![trigger post.bookmarks@[a], post.bookmarks@[b]]
        0 <= a < b < post.bookmarks@.len() implies !(post.bookmarks@[a].user_id
        == post.bookmarks@[b].user_id && post.bookmarks@[a].article_id
        == post.bookmarks@[b].article_id) by {
        if b == post.bookmarks@.len() - 1 {
            assert(post.bookmarks@[a] == pre.bookmarks@[a]);
            if pre.bookmarks@[a].user_id == user_id && pre.bookmarks@[a].article_id == article_id {
                assert(pre.user_bookmarked(user_id, article_id));
            }
        } else {
            assert(post.bookmarks@[a] == pre.bookmarks@[a]);
            assert(post.bookmarks@[b] == pre.bookmarks@[b]);
        }
    }
}

/// The invariant survives removing one bookmark row, with the counter
/// updated where the article still exists.
proof fn lemma_wf_after_bookmark_remove(pre: Store, post: Store, j: int, article_id: u64)
    requires
        pre.wf(),
        0 <= j < pre.bookmarks@.len(),
        pre.bookmarks@[j].article_id == article_id,
        post.users@ == pre.users@,
        post.credentials@ == pre.credentials@,
        post.claps@ == pre.claps@,
        post.comments@ == pre.comments@,
        post.follows@ == pre.follows@,
        post.next_id == pre.next_id,
        post.bookmarks@ == pre.bookmarks@.remove(j),
        pre.has_article(article_id) ==> exists|i: int|
            0 <= i < pre.articles@.len() && (#[trigger] pre.articles@[i]).id == article_id
                && post.articles@ == pre.articles@.update(
                i,
                Article {
                    bookmarks_count: (pre.articles@[i].bookmarks_count - 1) as u64,
                    ..pre.articles@[i]
                },
            ),
        !pre.has_article(article_id) ==> post.articles@ == pre.articles@,
    ensures
        post.wf(),
{
    assert forall|m: int|
        0 <= m < post.bookmarks@.len() implies (#[trigger] post.bookmarks@[m]).id < post.next_id
        && post.bookmarks@[m].article_id < post.next_id by {
        let m0 = if m < j {
            m
        } else {
            m + 1
        };
        assert(post.bookmarks@[m] == pre.bookmarks@[m0]);
    }
    assert forall|a: int, b: int|
        #![trigger post.bookmarks@[a], post.bookmarks@[b]]
        0 <= a < b < post.bookmarks@.len() implies !(post.bookmarks@[a].user_id
        == post.bookmarks@[b].user_id && post.bookmarks@[a].article_id
        == post.bookmarks@[b].article_id) by {
        let a0 = if a < j {
            a
        } else {
            a + 1
        };
        let b0 = if b < j {
            b
        } else {
            b + 1
        };
        assert(post.bookmarks@[a] == pre.bookmarks@[a0]);
        assert(post.bookmarks@[b] == pre.bookmarks@[b0]);
    }
    if pre.has_article(article_id) {
        let i = choose|i: int|
            0 <= i < pre.articles@.len() && (#[trigger] pre.articles@[i]).id == article_id
                && post.articles@ == pre.articles@.update(
                i,
                Article {
                    bookmarks_count: (pre.articles@[i].bookmarks_count - 1) as u64,
                    ..pre.articles@[i]
                },
            );
        assert forall|k: int| 0 <= k < post.articles@.len() implies {
            let a = #[trigger] post.articles@[k];
            a.bookmarks_count as nat == bookmarks_for(post.bookmarks@, a.id)
        } by {
            lemma_count_remove(pre.bookmarks@, bookmark_on(post.articles@[k].id), j);
            if k != i {
                assert(post.articles@[k] == pre.articles@[k]);
                if pre.articles@[k].id == article_id {
                    assert(false);
                }
            }
        }
    } else {
        assert forall|k: int| 0 <= k < post.articles@.len() implies {
            let a = #[trigger] post.articles@[k];
            a.bookmarks_count as nat == bookmarks_for(post.bookmarks@, a.id)
        } by {
            lemma_count_remove(pre.bookmarks@, bookmark_on(post.articles@[k].id), j);
            if pre.articles@[k].id == article_id {
                assert(pre.has_article(article_id));
            }
        }
    }
}


impl Store {
    /// Index of a comment by id.
    fn find_comment(&self, comment_id: u64) -> (r: Option<usize>)
        ensures
            match r {
                Some(j) => j < self.comments@.len() && self.comments@[j as int].id == comment_id,
                None => !self.has_comment(comment_id),
            },
    {
        let n = self.comments.len();
        let mut j: usize = 0;
        while j < n
            invariant
                n == self.comments@.len(),
                0 <= j <= n,
                forall|m: int| 0 <= m < j ==> (#[trigger] self.comments@[m]).id != comment_id,
            decreases n - j,
        {
            if self.comments[j].id == comment_id {
                return Some(j);
            }
            j = j + 1;
        }
        None
    }

    pub open spec fn has_comment(self, comment_id: u64) -> bool {
        exists|j: int|
            0 <= j < self.comments@.len() && (#[trigger] self.comments@[j]).id == comment_id
    }

    /// Whether a comment can be created: the article and the commenting
    /// user exist, and so does the parent when one is named.
    pub open spec fn can_comment(self, article_id: u64, user_id: u64, parent_id: Option<u64>) -> bool {
        &&& self.has_article(article_id)
        &&& self.has_user(user_id)
        &&& match parent_id {
            None => true,
            Some(p) => self.has_comment(p),
        }
    }

    /// Whether the named parent comment was written by the article's
    /// author, which marks the new comment as an author reply.
    pub open spec fn is_author_reply_spec(self, article_id: u64, parent_id: Option<u64>) -> bool {
        match parent_id {
            None => false,
            Some(p) => exists|j: int, i: int|
                #![trigger self.comments@[j], self.articles@[i]]
                0 <= j < self.comments@.len() && 0 <= i < self.articles@.len()
                    && self.comments@[j].id == p && self.articles@[i].id == article_id
                    && self.comments@[j].user_id == self.articles@[i].author_id,
        }
    }

    /// Creates a comment as one unit of work: the row is inserted, the
    /// parent's reply counter and the article's comment counter move
    /// with it.  A named parent must itself be stored: a reply and its
    /// parent's counter belong to the same unit, so a dangling parent
    /// reference is refused as `NotFound` rather than recorded.
    pub fn create_comment(
        &mut self,
        article_id: u64,
        user_id: u64,
        request: crate::engagement::CreateCommentRequest,
        now: i64,
    ) -> (r: Result<crate::engagement::CommentResponse, StoreError>)
        requires
            old(self).wf(),
            old(self).next_id < u64::MAX,
            forall|i: int|
                0 <= i < old(self).articles@.len() && (#[trigger] old(self).articles@[i]).id
                    == article_id ==> old(self).articles@[i].comments_count < u64::MAX,
            forall|j: int|
                0 <= j < old(self).comments@.len() && Some(
                    (#[trigger] old(self).comments@[j]).id,
                ) == request.parent_id ==> old(self).comments@[j].replies_count < u64::MAX,
        ensures
            final(self).wf(),
            r is Ok <==> old(self).can_comment(article_id, user_id, request.parent_id),
            match r {
                Ok(resp) => exists|row: crate::engagement::Comment|
                    {
                        &&& (#[trigger] row.id) == old(self).next_id
                        &&& row.article_id == article_id
                        &&& row.user_id == user_id
                        &&& row.parent_id == request.parent_id
                        &&& row.content@ == request.content@
                        &&& row.content_html@ == crate::sanitize::clean_of(request.content@)
                        &&& row.claps_count == 0
                        &&& row.replies_count == 0
                        &&& row.is_author_reply == old(self).is_author_reply_spec(
                            article_id,
                            request.parent_id,
                        )
                        &&& row.created_at == now
                        &&& row.updated_at == now
                        &&& final(self).next_id == old(self).next_id + 1
                        &&& final(self).users@ == old(self).users@
                        &&& final(self).credentials@ == old(self).credentials@
                        &&& final(self).claps@ == old(self).claps@
                        &&& final(self).bookmarks@ == old(self).bookmarks@
                        &&& final(self).follows@ == old(self).follows@
                        &&& (match request.parent_id {
                            None => final(self).comments@ == old(self).comments@.push(row),
                            Some(p) => exists|pj: int|
                                0 <= pj < old(self).comments@.len() && (#[trigger] old(
                                    self,
                                ).comments@[pj]).id == p && final(self).comments@ == old(
                                    self,
                                ).comments@.update(
                                    pj,
                                    crate::engagement::Comment {
                                        replies_count: (old(self).comments@[pj].replies_count
                                            + 1) as u64,
                                        updated_at: old(self).comments@[pj].updated_at,
                                        ..old(self).comments@[pj]
                                    },
                                ).push(row),
                        })
                        &&& exists|i: int|
                            0 <= i < old(self).articles@.len() && (#[trigger] old(
                                self,
                            ).articles@[i]).id == article_id && final(self).articles@ == old(
                                self,
                            ).articles@.update(
                                i,
                                Article {
                                    comments_count: (old(self).articles@[i].comments_count
                                        + 1) as u64,
                                    ..old(self).articles@[i]
                                },
                            )
                        &&& resp.id == row.id
                        &&& resp.content@ == request.content@
                        &&& resp.content_html@ == crate::sanitize::clean_of(request.content@)
                        &&& resp.parent_id == request.parent_id
                        &&& resp.claps_count == 0
                        &&& resp.replies_count == 0
                        &&& resp.is_author_reply == row.is_author_reply
                        &&& resp.created_at == now
                        &&& resp.updated_at == now
                        &&& resp.user_interactions is None
                        &&& resp.replies is None
                        &&& resp.author.id == user_id
                        &&& exists|u: int|
                            0 <= u < old(self).users@.len() && (#[trigger] old(
                                self,
                            ).users@[u]).user_id == user_id && resp.author.username@ == old(
                                self,
                            ).users@[u].username@ && resp.author.is_verified == old(
                                self,
                            ).users@[u].is_verified
                    },
                Err(e) => e is NotFound && *final(self) == *old(self),
            },
    {
        let aidx = match self.find_article(article_id) {
            None => {
                return Err(StoreError::NotFound);
            },
            Some(i) => i,
        };
        let uidx = match self.find_user(user_id) {
            None => {
                return Err(StoreError::NotFound);
            },
            Some(u) => u,
        };
        let mut is_author_reply = false;
        let mut parent_idx: Option<usize> = None;
        match request.parent_id {
            None => {},
            Some(p) => {
                match self.find_comment(p) {
                    None => {
                        return Err(StoreError::NotFound);
                    },
                    Some(pj) => {
                        is_author_reply = self.comments[pj].user_id
                            == self.articles[aidx].author_id;
                        parent_idx = Some(pj);
                        proof {
                            assert(old(self).is_author_reply_spec(article_id, request.parent_id)
                                == is_author_reply) by {
                                crate::store::lemma_only_index(*old(self), aidx as int, article_id);
                                lemma_only_comment_index(*old(self), pj as int, p);
                            }
                        }
                    },
                }
            },
        }
        let content_html = crate::sanitize::sanitize_html(request.content.as_str());
        let row_id = self.next_id;
        let row = crate::engagement::Comment {
            id: row_id,
            article_id,
            user_id,
            parent_id: request.parent_id,
            content: request.content.clone(),
            content_html: content_html.clone(),
            claps_count: 0,
            replies_count: 0,
            is_author_reply,
            created_at: now,
            updated_at: now,
        };
        let ghost grow = row;
        if let Some(pj) = parent_idx {
            let mut pc = self.comments.remove(pj);
            proof {
                lemma_count_le_len(old(self).comments@, reply_to(pc.id));
            }
            pc.replies_count = pc.replies_count + 1;
            self.comments.insert(pj, pc);
            proof {
                assert(self.comments@ =~= old(self).comments@.update(
                    pj as int,
                    crate::engagement::Comment {
                        replies_count: (old(self).comments@[pj as int].replies_count + 1) as u64,
                        updated_at: old(self).comments@[pj as int].updated_at,
                        ..old(self).comments@[pj as int]
                    },
                ));
            }
        }
        self.comments.push(row);
        self.next_id = self.next_id + 1;
        let mut a = self.articles.remove(aidx);
        a.comments_count = a.comments_count + 1;
        self.articles.insert(aidx, a);
        let author = &self.users[uidx];
        let resp = crate::engagement::CommentResponse {
            id: row_id,
            content: request.content,
            content_html,
            author: crate::engagement::CommentAuthor {
                id: user_id,
                username: author.username.clone(),
                display_name: clone_opt_string(&author.display_name),
                avatar_url: clone_opt_string(&author.avatar_url),
                is_verified: author.is_verified,
            },
            parent_id: request.parent_id,
            claps_count: 0,
            replies_count: 0,
            is_author_reply,
            created_at: now,
            updated_at: now,
            user_interactions: None,
            replies: None,
        };
        proof {
            let pre = *old(self);
            let post = *self;
            assert(post.articles@ =~= pre.articles@.update(
                aidx as int,
                Article {
                    comments_count: (pre.articles@[aidx as int].comments_count + 1) as u64,
                    ..pre.articles@[aidx as int]
                },
            ));
            let pjo: Option<int> = match parent_idx {
                Some(pj) => Some(pj as int),
                None => None,
            };
            lemma_wf_after_comment_insert(pre, post, aidx as int, pjo, grow);
            assert(grow.id == pre.next_id);
            assert(grow.content@ == request.content@);
            assert(grow.content_html@ == crate::sanitize::clean_of(request.content@));
            assert(pre.users@[uidx as int].user_id == user_id);
            assert(resp.author.username@ == pre.users@[uidx as int].username@);
            assert(resp.id == grow.id);
        }
        Ok(resp)
    }
}

/// Builds a fresh option holding an equal string.
pub fn clone_opt_string(s: &Option<String>) -> (r: Option<String>)
    ensures
        r == *s,
{
    match s {
        Some(v) => Some(v.clone()),
        None => None,
    }
}

/// In a well-formed store, only the comment at the found index carries
/// the id that was searched for.
pub proof fn lemma_only_comment_index(s: Store, j: int, comment_id: u64)
    requires
        s.facts_distinct(),
        0 <= j < s.comments@.len(),
        s.comments@[j].id == comment_id,
    ensures
        forall|m: int|
            0 <= m < s.comments@.len() && (#[trigger] s.comments@[m]).id == comment_id ==> m == j,
{
}

/// The invariant survives one comment insert with its two counter bumps.
proof fn lemma_wf_after_comment_insert(
    pre: Store,
    post: Store,
    i: int,
    pj: Option<int>,
    row: Comment,
)
    requires
        pre.wf(),
        pre.next_id < u64::MAX,
        0 <= i < pre.articles@.len(),
        pre.articles@[i].id == row.article_id,
        pre.articles@[i].comments_count < u64::MAX,
        row.id == pre.next_id,
        row.replies_count == 0,
        match row.parent_id {
            None => pj is None,
            Some(p) => {
                &&& pj matches Some(x)
                &&& 0 <= pj->0 < pre.comments@.len()
                &&& pre.comments@[pj->0].id == p
                &&& pre.comments@[pj->0].replies_count < u64::MAX
            },
        },
        post.users@ == pre.users@,
        post.credentials@ == pre.credentials@,
        post.claps@ == pre.claps@,
        post.bookmarks@ == pre.bookmarks@,
        post.follows@ == pre.follows@,
        post.next_id == pre.next_id + 1,
        match pj {
            None => post.comments@ == pre.comments@.push(row),
            Some(x) => post.comments@ == pre.comments@.update(
                x,
                Comment {
                    replies_count: (pre.comments@[x].replies_count + 1) as u64,
                    updated_at: pre.comments@[x].updated_at,
                    ..pre.comments@[x]
                },
            ).push(row),
        },
        post.articles@ == pre.articles@.update(
            i,
            Article {
                comments_count: (pre.articles@[i].comments_count + 1) as u64,
                ..pre.articles@[i]
            },
        ),
    ensures
        post.wf(),
{
    let mid = match pj {
        None => pre.comments@,
        Some(x) => pre.comments@.update(
            x,
            Comment {
                replies_count: (pre.comments@[x].replies_count + 1) as u64,
                updated_at: pre.comments@[x].updated_at,
                ..pre.comments@[x]
            },
        ),
    };
    assert(post.comments@ == mid.push(row));
    // the middle stage keeps ids, article references and parents
    assert(mid.len() == pre.comments@.len());
    assert(forall|m: int|
        0 <= m < mid.len() ==> (#[trigger] mid[m]).id == pre.comments@[m].id && mid[m].article_id
            == pre.comments@[m].article_id && mid[m].parent_id == pre.comments@[m].parent_id
            && mid[m].user_id == pre.comments@[m].user_id);
    // ids stay bounded
    assert forall|m: int|
        0 <= m < post.comments@.len() implies (#[trigger] post.comments@[m]).id < post.next_id
        && post.comments@[m].article_id < post.next_id && (match post.comments@[m].parent_id {
        Some(p) => p < post.next_id,
        None => true,
    }) by {
        if m < mid.len() {
            assert(post.comments@[m] == mid[m]);
        } else {
            assert(post.comments@[m] == row);
            match row.parent_id {
                Some(p) => {
                    assert(p == pre.comments@[pj->0].id);
                },
                None => {},
            }
        }
    }
    // comment ids stay distinct
    assert forall|a: int, b: int|
        #![trigger post.comments@[a], post.comments@[b]]
        0 <= a < b < post.comments@.len() implies post.comments@[a].id != post.comments@[b].id by {
        if b == post.comments@.len() - 1 {
            assert(post.comments@[a] == mid[a]);
            assert(mid[a].id == pre.comments@[a].id);
        } else {
            assert(post.comments@[a] == mid[a]);
            assert(post.comments@[b] == mid[b]);
        }
    }
    // article comment counters
    assert forall|k: int| 0 <= k < post.articles@.len() implies {
        let a = #[trigger] post.articles@[k];
        a.comments_count as nat == comments_for(post.comments@, a.id)
    } by {
        let a = post.articles@[k];
        assert(count_matching(mid, comment_on(a.id)) == count_matching(
            pre.comments@,
            comment_on(a.id),
        )) by {
            match pj {
                None => {},
                Some(x) => {
                    crate::counting::lemma_count_update(
                        pre.comments@,
                        comment_on(a.id),
                        x,
                        mid[x],
                    );
                },
            }
        }
        lemma_count_push(mid, comment_on(a.id), row);
        if k != i {
            assert(post.articles@[k] == pre.articles@[k]);
            if pre.articles@[k].id == row.article_id {
                assert(false);
            }
        }
    }
    // other article counters are untouched
    assert forall|k: int| 0 <= k < post.articles@.len() implies {
        let a = #[trigger] post.articles@[k];
        a.claps_count as nat == claps_for(post.claps@, a.id) && a.bookmarks_count as nat
            == bookmarks_for(post.bookmarks@, a.id)
    } by {
        if k != i {
            assert(post.articles@[k] == pre.articles@[k]);
        }
    }
    // reply counters
    assert forall|m: int| 0 <= m < post.comments@.len() implies (#[trigger] post.comments@[m]).replies_count as nat
        == replies_for(post.comments@, post.comments@[m].id) by {
        let c = post.comments@[m];
        assert(count_matching(mid, reply_to(c.id)) == count_matching(
            pre.comments@,
            reply_to(c.id),
        )) by {
            match pj {
                None => {},
                Some(x) => {
                    crate::counting::lemma_count_update(pre.comments@, reply_to(c.id), x, mid[x]);
                },
            }
        }
        lemma_count_push(mid, reply_to(c.id), row);
        if m == post.comments@.len() - 1 {
            // the new row: nothing can name its id as parent yet
            assert(c == row);
            crate::counting::lemma_count_zero(post.comments@, reply_to(row.id));
            assert forall|q: int| 0 <= q < post.comments@.len() implies !(reply_to(row.id)(
                #[trigger] post.comments@[q],
            )) by {
                if q < mid.len() {
                    assert(post.comments@[q] == mid[q]);
                    match pre.comments@[q].parent_id {
                        Some(p) => {
                            assert(p < pre.next_id);
                        },
                        None => {},
                    }
                } else {
                    assert(post.comments@[q] == row);
                    match row.parent_id {
                        Some(p) => {
                            assert(p == pre.comments@[pj->0].id);
                            assert(p < pre.next_id);
                        },
                        None => {},
                    }
                }
            }
            assert(replies_for(post.comments@, row.id) == 0);
        } else {
            assert(c == mid[m]);
            match pj {
                None => {
                    assert(c == pre.comments@[m]);
                    match row.parent_id {
                        Some(p) => {
                            assert(!(reply_to(c.id)(row)));
                        },
                        None => {
                            assert(!(reply_to(c.id)(row)));
                        },
                    }
                },
                Some(x) => {
                    if m == x {
                        assert(c.replies_count == pre.comments@[x].replies_count + 1);
                        assert(reply_to(c.id)(row)) by {
                            assert(row.parent_id == Some(pre.comments@[x].id));
                        }
                    } else {
                        assert(c == pre.comments@[m]);
                        assert(!(reply_to(c.id)(row))) by {
                            assert(row.parent_id == Some(pre.comments@[x].id));
                            if c.id == pre.comments@[x].id {
                                assert(false);
                            }
                        }
                    }
                },
            }
        }
    }
}


} // verus!
