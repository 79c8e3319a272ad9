//! Reading comment threads: top-level comments of an article in the
//! order they were written, each with its author and its replies one
//! level deep.

use vstd::prelude::*;
use crate::counting::{count_matching, lemma_count_take_succ, lemma_count_take_all};
use crate::engagement::{Comment, CommentAuthor, CommentInteractions, CommentResponse};
use crate::ledger::clone_opt_string;
use crate::ranking::{Ranked, sort_ranked, lemma_multiset_elements, sorted_desc, rank_geq};
use crate::store::{Store, StoreError, replies_for, reply_to, find_comment_spec, find_user_spec,
    lemma_find_comment_spec_at, lemma_find_user_spec_at};
use crate::assemble::{top_comment_on, top_comments_for};

verus! {

/// The fields a comment response copies from the stored row and its
/// author.
pub open spec fn comment_fields_match(s: Store, c: Comment, resp: CommentResponse) -> bool {
    &&& resp.id == c.id
    &&& resp.content == c.content
    &&& resp.content_html == c.content_html
    &&& resp.parent_id == c.parent_id
    &&& resp.claps_count == c.claps_count
    &&& resp.replies_count == c.replies_count
    &&& resp.is_author_reply == c.is_author_reply
    &&& resp.created_at == c.created_at
    &&& resp.updated_at == c.updated_at
    &&& {
        let u = find_user_spec(s.users@, c.user_id);
        &&& u is Some
        &&& resp.author.id == c.user_id
        &&& resp.author.username == u.unwrap().username
        &&& resp.author.display_name == u.unwrap().display_name
        &&& resp.author.avatar_url == u.unwrap().avatar_url
        &&& resp.author.is_verified == u.unwrap().is_verified
    }
}

/// A successful user lookup names a stored user.
pub proof fn lemma_find_user_spec_some(users: Seq<crate::user::User>, user_id: u64)
    requires
        find_user_spec(users, user_id) is Some,
    ensures
        exists|a: int| 0 <= a < users.len() && (#[trigger] users[a]).user_id == user_id,
    decreases users.len(),
{
    if users.len() > 0 && users[0].user_id != user_id {
        lemma_find_user_spec_some(users.drop_first(), user_id);
        let a = choose|a: int|
            0 <= a < users.drop_first().len() && (#[trigger] users.drop_first()[a]).user_id
                == user_id;
        assert(users[a + 1].user_id == user_id);
    }
}

/// Every reply to `parent_id` has a stored author.
pub open spec fn reply_authors_present(s: Store, parent_id: u64) -> bool {
    forall|j: int|
        0 <= j < s.comments@.len() && (#[trigger] s.comments@[j]).parent_id == Some(parent_id)
            ==> s.has_user(s.comments@[j].user_id)
}

/// What a reply listing must look like: one response per reply row,
/// oldest first, each with its author joined and the flags a reply
/// carries.
pub open spec fn reply_vec_matches(
    s: Store,
    parent_id: u64,
    rv: Seq<CommentResponse>,
    viewer: Option<u64>,
) -> bool {
    &&& rv.len() == replies_for(s.comments@, parent_id)
    &&& forall|p: int|
        #![trigger rv[p]]
        0 <= p < rv.len() ==> {
            let c = find_comment_spec(s.comments@, rv[p].id);
            &&& c is Some
            &&& c.unwrap().parent_id == Some(parent_id)
            &&& comment_fields_match(s, c.unwrap(), rv[p])
        }
    &&& forall|p: int, q: int|
        0 <= p < q < rv.len() ==> #[trigger] rv[p].created_at <= #[trigger] rv[q].created_at
    &&& forall|p: int, q: int|
        0 <= p < q < rv.len() ==> #[trigger] rv[p].id != #[trigger] rv[q].id
    &&& forall|p: int|
        0 <= p < rv.len() ==> (#[trigger] rv[p]).replies is None && (match viewer {
            None => rv[p].user_interactions is None,
            Some(_) => rv[p].user_interactions == Some(
                CommentInteractions { has_clapped: false, clap_count: 0 },
            ),
        })
}

impl Store {
    /// The replies below one comment, oldest first.
    pub fn get_comment_replies(&self, parent_id: u64, user_id: Option<u64>) -> (r: Result<
        Vec<CommentResponse>,
        StoreError,
    >)
        requires
            self.wf(),
        ensures
            r is Ok <==> reply_authors_present(*self, parent_id),
            match r {
                Ok(v) => reply_vec_matches(*self, parent_id, v@, user_id),
                Err(e) => e is NotFound,
            },
    {
        let n = self.comments.len();
        let mut cands: Vec<Ranked> = Vec::new();
        let mut j: usize = 0;
        while j < n
            invariant
                n == self.comments@.len(),
                0 <= j <= n,
                cands@.len() == count_matching(self.comments@.take(j as int), reply_to(parent_id)),
                forall|a: int|
                    0 <= a < cands@.len() ==> {
                        let c = #[trigger] cands@[a];
                        &&& c.idx < n
                        &&& self.comments@[c.idx as int].parent_id == Some(parent_id)
                        &&& c.k1 == -(self.comments@[c.idx as int].created_at as i128)
                        &&& c.k2 == 0
                    },
                forall|a: int| 0 <= a < cands@.len() ==> (#[trigger] cands@[a]).idx < j,
                forall|a: int, b: int|
                    0 <= a < b < cands@.len() ==> (#[trigger] cands@[a]).idx < (
                    #[trigger] cands@[b]).idx,
                forall|q: int|
                    0 <= q < j && (#[trigger] self.comments@[q]).parent_id == Some(parent_id)
                        ==> exists|a: int| 0 <= a < cands@.len() && (#[trigger] cands@[a]).idx == q,
            decreases n - j,
        {
            proof {
                lemma_count_take_succ(self.comments@, reply_to(parent_id), j as int);
            }
            let is_reply = match self.comments[j].parent_id {
                Some(p) => p == parent_id,
                None => false,
            };
            if is_reply {
                let k1 = -(self.comments[j].created_at as i128);
                let ghost before = cands@;
                cands.push(Ranked { k1, k2: 0, idx: j });
                proof {
                    assert(cands@[cands@.len() - 1].idx == j);
                    assert forall|q: int|
                        0 <= q < j + 1 && (#[trigger] self.comments@[q]).parent_id == Some(
                            parent_id,
                        ) implies exists|a: int|
                        0 <= a < cands@.len() && (#[trigger] cands@[a]).idx == q by {
                        if q < j {
                            let a0 = choose|a0: int|
                                0 <= a0 < before.len() && (#[trigger] before[a0]).idx == q;
                            assert(cands@[a0].idx == q);
                        } else {
                            assert(cands@[cands@.len() - 1].idx == q);
                        }
                    }
                }
            }
            j = j + 1;
        }
        proof {
            lemma_count_take_all(self.comments@, reply_to(parent_id));
            assert(cands@.no_duplicates()) by {
                assert forall|a: int, b: int|
                    0 <= a < cands@.len() && 0 <= b < cands@.len() && a != b implies cands@[a]
                    != cands@[b] by {
                    if a < b {
                        assert(cands@[a].idx < cands@[b].idx);
                    } else {
                        assert(cands@[b].idx < cands@[a].idx);
                    }
                }
            }
        }
        let ghost gcands = cands@;
        let sorted = sort_ranked(cands);
        proof {
            lemma_multiset_elements(sorted@, gcands);
            lemma_multiset_elements(gcands, sorted@);
            gcands.lemma_multiset_has_no_duplicates();
            sorted@.lemma_multiset_has_no_duplicates_conv();
        }
        let mut out: Vec<CommentResponse> = Vec::new();
        let mut p: usize = 0;
        while p < sorted.len()
            invariant
                self.wf(),
                sorted@.len() == replies_for(self.comments@, parent_id),
                sorted@.no_duplicates(),
                sorted_desc(sorted@),
                forall|a: int|
                    0 <= a < sorted@.len() ==> gcands.contains(#[trigger] sorted@[a]),
                forall|a: int|
                    0 <= a < gcands.len() ==> {
                        let c = #[trigger] gcands[a];
                        &&& c.idx < self.comments@.len()
                        &&& self.comments@[c.idx as int].parent_id == Some(parent_id)
                        &&& c.k1 == -(self.comments@[c.idx as int].created_at as i128)
                        &&& c.k2 == 0
                    },
                0 <= p <= sorted@.len(),
                out@.len() == p,
                forall|a: int|
                    #![trigger out@[a]]
                    0 <= a < p ==> {
                        let c = find_comment_spec(self.comments@, out@[a].id);
                        &&& c is Some
                        &&& c.unwrap().parent_id == Some(parent_id)
                        &&& comment_fields_match(*self, c.unwrap(), out@[a])
                    },
                forall|a: int|
                    0 <= a < p ==> (#[trigger] out@[a]).id == self.comments@[sorted@[a].idx as int].id
                        && out@[a].created_at == self.comments@[sorted@[a].idx as int].created_at,
                forall|a: int|
                    0 <= a < p ==> (#[trigger] out@[a]).replies is None && (match user_id {
                        None => out@[a].user_interactions is None,
                        Some(_) => out@[a].user_interactions == Some(
                            CommentInteractions { has_clapped: false, clap_count: 0 },
                        ),
                    }),
            decreases sorted@.len() - p,
        {
            proof {
                assert(gcands.contains(sorted@[p as int]));
                let ca = choose|a: int|
                    0 <= a < gcands.len() && #[trigger] gcands[a] == sorted@[p as int];
                assert(sorted@[p as int].idx < self.comments@.len());
                assert(self.comments@[sorted@[p as int].idx as int].parent_id == Some(parent_id));
            }
            let c = &self.comments[sorted[p].idx];
            let uidx = match self.find_user(c.user_id) {
                None => {
                    proof {
                        assert(!reply_authors_present(*self, parent_id));
                    }
                    return Err(StoreError::NotFound);
                },
                Some(u) => u,
            };
            proof {
                lemma_find_comment_spec_at(self.comments@, sorted@[p as int].idx as int);
                lemma_find_user_spec_at(self.users@, uidx as int);
            }
            let author = &self.users[uidx];
            let user_interactions = match user_id {
                None => None,
                Some(_) => Some(CommentInteractions { has_clapped: false, clap_count: 0 }),
            };
            out.push(
                CommentResponse {
                    id: c.id,
                    content: c.content.clone(),
                    content_html: c.content_html.clone(),
                    author: CommentAuthor {
                        id: c.user_id,
                        username: author.username.clone(),
                        display_name: clone_opt_string(&author.display_name),
                        avatar_url: clone_opt_string(&author.avatar_url),
                        is_verified: author.is_verified,
                    },
                    parent_id: c.parent_id,
                    claps_count: c.claps_count,
                    replies_count: c.replies_count,
                    is_author_reply: c.is_author_reply,
                    created_at: c.created_at,
                    updated_at: c.updated_at,
                    user_interactions,
                    replies: None,
                },
            );
            p = p + 1;
        }
        proof {
            assert forall|a: int, b: int|
                0 <= a < b < out@.len() implies #[trigger] out@[a].created_at
                <= #[trigger] out@[b].created_at by {
                assert(rank_geq(sorted@[a], sorted@[b]));
                assert(gcands.contains(sorted@[a]));
                assert(gcands.contains(sorted@[b]));
                let wa = choose|w: int| 0 <= w < gcands.len() && #[trigger] gcands[w] == sorted@[a];
                let wb = choose|w: int| 0 <= w < gcands.len() && #[trigger] gcands[w] == sorted@[b];
                assert(sorted@[a].k1 == -(self.comments@[sorted@[a].idx as int].created_at as i128));
                assert(sorted@[b].k1 == -(self.comments@[sorted@[b].idx as int].created_at as i128));
            }
            assert forall|a: int, b: int|
                0 <= a < b < out@.len() implies #[trigger] out@[a].id != #[trigger] out@[b].id by {
                assert(sorted@[a] != sorted@[b]);
                assert(gcands.contains(sorted@[a]));
                assert(gcands.contains(sorted@[b]));
                let wa = choose|w: int| 0 <= w < gcands.len() && #[trigger] gcands[w] == sorted@[a];
                let wb = choose|w: int| 0 <= w < gcands.len() && #[trigger] gcands[w] == sorted@[b];
                let ia = sorted@[a].idx as int;
                let ib = sorted@[b].idx as int;
                if ia != ib {
                    if ia < ib {
                        assert(self.comments@[ia].id != self.comments@[ib].id);
                    } else {
                        assert(self.comments@[ib].id != self.comments@[ia].id);
                    }
                } else {
                    assert(sorted@[a].k1 == sorted@[b].k1);
                    assert(sorted@[a].k2 == sorted@[b].k2);
                }
            }
            assert forall|jx: int|
                0 <= jx < self.comments@.len() && (#[trigger] self.comments@[jx]).parent_id
                    == Some(parent_id) implies self.has_user(self.comments@[jx].user_id) by {
                let a = choose|a: int| 0 <= a < gcands.len() && (#[trigger] gcands[a]).idx == jx;
                assert(sorted@.contains(gcands[a]));
                let pp = choose|pp: int|
                    0 <= pp < sorted@.len() && #[trigger] sorted@[pp] == gcands[a];
                assert(out@[pp].id == self.comments@[jx].id);
                lemma_find_comment_spec_at(self.comments@, jx);
                assert(comment_fields_match(*self, self.comments@[jx], out@[pp]));
                lemma_find_user_spec_some(self.users@, self.comments@[jx].user_id);
            }
        }
        Ok(out)
    }
}


/// Every top-level comment of the article has a stored author, and so
/// does every reply below it.
pub open spec fn thread_authors_present(s: Store, article_id: u64) -> bool {
    forall|j: int|
        0 <= j < s.comments@.len() && (#[trigger] s.comments@[j]).article_id == article_id
            && s.comments@[j].parent_id is None ==> s.has_user(s.comments@[j].user_id)
            && reply_authors_present(s, s.comments@[j].id)
}

/// What the thread listing must look like: one response per top-level
/// comment, oldest first, each carrying its author, the viewer's flag,
/// and its replies one level deep.
pub open spec fn thread_vec_matches(
    s: Store,
    article_id: u64,
    tv: Seq<CommentResponse>,
    viewer: Option<u64>,
) -> bool {
    &&& tv.len() == top_comments_for(s.comments@, article_id)
    &&& forall|p: int|
        #![trigger tv[p]]
        0 <= p < tv.len() ==> {
            let c = find_comment_spec(s.comments@, tv[p].id);
            &&& c is Some
            &&& c.unwrap().article_id == article_id
            &&& c.unwrap().parent_id is None
            &&& comment_fields_match(s, c.unwrap(), tv[p])
            &&& (match viewer {
                None => tv[p].user_interactions is None,
                Some(v) => tv[p].user_interactions == Some(
                    CommentInteractions {
                        has_clapped: s.user_clapped(v, article_id),
                        clap_count: 0,
                    },
                ),
            })
            &&& (replies_for(s.comments@, tv[p].id) == 0 ==> tv[p].replies is None)
            &&& (replies_for(s.comments@, tv[p].id) > 0 ==> tv[p].replies is Some
                && reply_vec_matches(s, tv[p].id, tv[p].replies.unwrap()@, viewer))
        }
    &&& forall|p: int, q: int|
        0 <= p < q < tv.len() ==> #[trigger] tv[p].created_at <= #[trigger] tv[q].created_at
    &&& forall|p: int, q: int|
        0 <= p < q < tv.len() ==> #[trigger] tv[p].id != #[trigger] tv[q].id
}

impl Store {
    /// The top-level comments of an article, oldest first, with their
    /// replies one level deep.
    pub fn get_comments(&self, article_id: u64, user_id: Option<u64>) -> (r: Result<
        Vec<CommentResponse>,
        StoreError,
    >)
        requires
            self.wf(),
        ensures
            r is Ok <==> thread_authors_present(*self, article_id),
            match r {
                Ok(v) => thread_vec_matches(*self, article_id, v@, user_id),
                Err(e) => e is NotFound,
            },
    {
        let n = self.comments.len();
        let mut cands: Vec<Ranked> = Vec::new();
        let mut j: usize = 0;
        while j < n
            invariant
                n == self.comments@.len(),
                0 <= j <= n,
                cands@.len() == count_matching(
                    self.comments@.take(j as int),
                    top_comment_on(article_id),
                ),
                forall|a: int|
                    0 <= a < cands@.len() ==> {
                        let c = #[trigger] cands@[a];
                        &&& c.idx < n
                        &&& self.comments@[c.idx as int].article_id == article_id
                        &&& self.comments@[c.idx as int].parent_id is None
                        &&& c.k1 == -(self.comments@[c.idx as int].created_at as i128)
                        &&& c.k2 == 0
                    },
                forall|a: int| 0 <= a < cands@.len() ==> (#[trigger] cands@[a]).idx < j,
                forall|a: int, b: int|
                    0 <= a < b < cands@.len() ==> (#[trigger] cands@[a]).idx < (
                    #[trigger] cands@[b]).idx,
                forall|q: int|
                    0 <= q < j && (#[trigger] self.comments@[q]).article_id == article_id
                        && self.comments@[q].parent_id is None ==> exists|a: int|
                        0 <= a < cands@.len() && (#[trigger] cands@[a]).idx == q,
            decreases n - j,
        {
            proof {
                lemma_count_take_succ(self.comments@, top_comment_on(article_id), j as int);
            }
            let is_top = self.comments[j].article_id == article_id && matches!(
                self.comments[j].parent_id,
                None,
            );
            if is_top {
                let k1 = -(self.comments[j].created_at as i128);
                let ghost before = cands@;
                cands.push(Ranked { k1, k2: 0, idx: j });
                proof {
                    assert(cands@[cands@.len() - 1].idx == j);
                    assert forall|q: int|
                        0 <= q < j + 1 && (#[trigger] self.comments@[q]).article_id == article_id
                            && self.comments@[q].parent_id is None implies exists|a: int|
                        0 <= a < cands@.len() && (#[trigger] cands@[a]).idx == q by {
                        if q < j {
                            let a0 = choose|a0: int|
                                0 <= a0 < before.len() && (#[trigger] before[a0]).idx == q;
                            assert(cands@[a0].idx == q);
                        } else {
                            assert(cands@[cands@.len() - 1].idx == q);
                        }
                    }
                }
            }
            j = j + 1;
        }
        proof {
            lemma_count_take_all(self.comments@, top_comment_on(article_id));
            assert(cands@.no_duplicates()) by {
                assert forall|a: int, b: int|
                    0 <= a < cands@.len() && 0 <= b < cands@.len() && a != b implies cands@[a]
                    != cands@[b] by {
                    if a < b {
                        assert(cands@[a].idx < cands@[b].idx);
                    } else {
                        assert(cands@[b].idx < cands@[a].idx);
                    }
                }
            }
        }
        let ghost gcands = cands@;
        let sorted = sort_ranked(cands);
        proof {
            lemma_multiset_elements(sorted@, gcands);
            lemma_multiset_elements(gcands, sorted@);
            gcands.lemma_multiset_has_no_duplicates();
            sorted@.lemma_multiset_has_no_duplicates_conv();
        }
        let mut out: Vec<CommentResponse> = Vec::new();
        let mut p: usize = 0;
        while p < sorted.len()
            invariant
                self.wf(),
                sorted@.len() == top_comments_for(self.comments@, article_id),
                sorted@.no_duplicates(),
                sorted_desc(sorted@),
                forall|a: int|
                    0 <= a < sorted@.len() ==> gcands.contains(#[trigger] sorted@[a]),
                forall|a: int|
                    0 <= a < gcands.len() ==> {
                        let c = #[trigger] gcands[a];
                        &&& c.idx < self.comments@.len()
                        &&& self.comments@[c.idx as int].article_id == article_id
                        &&& self.comments@[c.idx as int].parent_id is None
                        &&& c.k1 == -(self.comments@[c.idx as int].created_at as i128)
                        &&& c.k2 == 0
                    },
                0 <= p <= sorted@.len(),
                out@.len() == p,
                forall|a: int|
                    #![trigger out@[a]]
                    0 <= a < p ==> {
                        let c = find_comment_spec(self.comments@, out@[a].id);
                        &&& c is Some
                        &&& c.unwrap().article_id == article_id
                        &&& c.unwrap().parent_id is None
                        &&& comment_fields_match(*self, c.unwrap(), out@[a])
                        &&& (match user_id {
                            None => out@[a].user_interactions is None,
                            Some(v) => out@[a].user_interactions == Some(
                                CommentInteractions {
                                    has_clapped: self.user_clapped(v, article_id),
                                    clap_count: 0,
                                },
                            ),
                        })
                        &&& (replies_for(self.comments@, out@[a].id) == 0 ==> out@[a].replies is None)
                        &&& (replies_for(self.comments@, out@[a].id) > 0 ==> out@[a].replies is Some
                            && reply_vec_matches(
                            *self,
                            out@[a].id,
                            out@[a].replies.unwrap()@,
                            user_id,
                        ))
                    },
                forall|a: int|
                    0 <= a < p ==> (#[trigger] out@[a]).id
                        == self.comments@[sorted@[a].idx as int].id && out@[a].created_at
                        == self.comments@[sorted@[a].idx as int].created_at,
                forall|a: int|
                    0 <= a < p ==> reply_authors_present(
                        *self,
                        self.comments@[(#[trigger] sorted@[a]).idx as int].id,
                    ) && self.has_user(self.comments@[sorted@[a].idx as int].user_id),
            decreases sorted@.len() - p,
        {
            proof {
                assert(gcands.contains(sorted@[p as int]));
                let ca = choose|a: int|
                    0 <= a < gcands.len() && #[trigger] gcands[a] == sorted@[p as int];
                assert(sorted@[p as int].idx < self.comments@.len());
            }
            let c = &self.comments[sorted[p].idx];
            let uidx = match self.find_user(c.user_id) {
                None => {
                    proof {
                        assert(!thread_authors_present(*self, article_id));
                    }
                    return Err(StoreError::NotFound);
                },
                Some(u) => u,
            };
            let replies = match self.get_comment_replies(c.id, user_id) {
                Err(_) => {
                    proof {
                        assert(!thread_authors_present(*self, article_id));
                    }
                    return Err(StoreError::NotFound);
                },
                Ok(v) => v,
            };
            proof {
                lemma_find_comment_spec_at(self.comments@, sorted@[p as int].idx as int);
                lemma_find_user_spec_at(self.users@, uidx as int);
            }
            let user_interactions = match user_id {
                None => None,
                Some(v) => {
                    let clap_count = self.get_user_clap_count(article_id, v);
                    Some(CommentInteractions { has_clapped: clap_count == 1, clap_count: 0 })
                },
            };
            let author = &self.users[uidx];
            let replies_field = if replies.len() == 0 {
                None
            } else {
                Some(replies)
            };
            out.push(
                CommentResponse {
                    id: c.id,
                    content: c.content.clone(),
                    content_html: c.content_html.clone(),
                    author: CommentAuthor {
                        id: c.user_id,
                        username: author.username.clone(),
                        display_name: clone_opt_string(&author.display_name),
                        avatar_url: clone_opt_string(&author.avatar_url),
                        is_verified: author.is_verified,
                    },
                    parent_id: c.parent_id,
                    claps_count: c.claps_count,
                    replies_count: c.replies_count,
                    is_author_reply: c.is_author_reply,
                    created_at: c.created_at,
                    updated_at: c.updated_at,
                    user_interactions,
                    replies: replies_field,
                },
            );
            p = p + 1;
        }
        proof {
            assert forall|a: int, b: int|
                0 <= a < b < out@.len() implies #[trigger] out@[a].created_at
                <= #[trigger] out@[b].created_at by {
                assert(rank_geq(sorted@[a], sorted@[b]));
                assert(gcands.contains(sorted@[a]));
                assert(gcands.contains(sorted@[b]));
                let wa = choose|w: int| 0 <= w < gcands.len() && #[trigger] gcands[w] == sorted@[a];
                let wb = choose|w: int| 0 <= w < gcands.len() && #[trigger] gcands[w] == sorted@[b];
                assert(sorted@[a].k1 == -(self.comments@[sorted@[a].idx as int].created_at as i128));
                assert(sorted@[b].k1 == -(self.comments@[sorted@[b].idx as int].created_at as i128));
            }
            assert forall|a: int, b: int|
                0 <= a < b < out@.len() implies #[trigger] out@[a].id != #[trigger] out@[b].id by {
                assert(sorted@[a] != sorted@[b]);
                assert(gcands.contains(sorted@[a]));
                assert(gcands.contains(sorted@[b]));
                let wa = choose|w: int| 0 <= w < gcands.len() && #[trigger] gcands[w] == sorted@[a];
                let wb = choose|w: int| 0 <= w < gcands.len() && #[trigger] gcands[w] == sorted@[b];
                let ia = sorted@[a].idx as int;
                let ib = sorted@[b].idx as int;
                if ia != ib {
                    if ia < ib {
                        assert(self.comments@[ia].id != self.comments@[ib].id);
                    } else {
                        assert(self.comments@[ib].id != self.comments@[ia].id);
                    }
                } else {
                    assert(sorted@[a].k1 == sorted@[b].k1);
                    assert(sorted@[a].k2 == sorted@[b].k2);
                }
            }
            assert forall|jx: int|
                0 <= jx < self.comments@.len() && (#[trigger] self.comments@[jx]).article_id
                    == article_id && self.comments@[jx].parent_id is None implies self.has_user(
                self.comments@[jx].user_id,
            ) && reply_authors_present(*self, self.comments@[jx].id) by {
                let a = choose|a: int| 0 <= a < gcands.len() && (#[trigger] gcands[a]).idx == jx;
                assert(sorted@.contains(gcands[a]));
                let pp = choose|pp: int|
                    0 <= pp < sorted@.len() && #[trigger] sorted@[pp] == gcands[a];
                assert(sorted@[pp].idx == jx);
                assert(reply_authors_present(*self, self.comments@[jx].id));
                assert(self.has_user(self.comments@[jx].user_id));
            }
        }
        Ok(out)
    }
}

} // verus!
