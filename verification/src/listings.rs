//! The ranked listings over the article corpus: the follow feed, the
//! time-windowed trending ranking, the filtered published listing and an
//! author's drafts.  Each re-scans the store, scores, sorts and pages.

use vstd::prelude::*;
use vstd::pervasive::unreached;
use crate::article::{Article, ArticleListResponse, ArticleQueryParams, ArticleResponse};
use crate::engagement::Bookmark;
use crate::assemble::response_matches;
use crate::counting::{count_matching, lemma_count_take_succ, lemma_count_take_all};
use crate::numbers::parse_u64;
use crate::ranking::{Ranked, sort_ranked, sorted_desc, lemma_multiset_elements};
use crate::store::{Store, find_article_spec, lemma_find_article_spec_at};

verus! {

/// The page size after clamping: twenty when absent, never above one
/// hundred, never negative.
pub open spec fn clamp_limit(limit: Option<i64>) -> int {
    let x = match limit {
        Some(v) => v as int,
        None => 20,
    };
    if x > 100 {
        100
    } else if x < 0 {
        0
    } else {
        x
    }
}

/// The page number after clamping: one when absent or below one.
pub open spec fn clamp_page(page: Option<i64>) -> int {
    let x = match page {
        Some(v) => v as int,
        None => 1,
    };
    if x < 1 {
        1
    } else {
        x
    }
}

/// The offset a caller asked for, as the response echoes it back.
pub open spec fn raw_skip(page: Option<i64>, limit: Option<i64>) -> int {
    (clamp_page(page) - 1) * clamp_limit(limit)
}

/// The skip actually used to cut the window: never past the last row.
pub open spec fn window_skip(total: int, page: Option<i64>, limit: Option<i64>) -> int {
    if raw_skip(page, limit) > total {
        total
    } else {
        raw_skip(page, limit)
    }
}

/// Saturation into the widest value an `i64` field can report.
pub open spec fn to_i64_sat(x: int) -> int {
    if x > i64::MAX {
        i64::MAX as int
    } else {
        x
    }
}

pub open spec fn window_count(total: int, page: Option<i64>, limit: Option<i64>) -> int {
    let rest = total - window_skip(total, page, limit);
    if clamp_limit(limit) < rest {
        clamp_limit(limit)
    } else {
        rest
    }
}

/// Clamps the page and limit, cuts the window out of `total` rows, and
/// carries the requested offset for the response to echo.
pub(crate) fn page_window(total: usize, page: Option<i64>, limit: Option<i64>) -> (r: (
    usize,
    usize,
    i64,
    i64,
))
    ensures
        r.0 as int == window_skip(total as int, page, limit),
        r.1 as int == window_count(total as int, page, limit),
        r.2 as int == clamp_limit(limit),
        r.3 as int == to_i64_sat(raw_skip(page, limit)),
{
    let l: i64 = match limit {
        Some(v) => v,
        None => 20,
    };
    let l: i64 = if l > 100 {
        100
    } else if l < 0 {
        0
    } else {
        l
    };
    let p: i64 = match page {
        Some(v) => v,
        None => 1,
    };
    let p: i64 = if p < 1 {
        1
    } else {
        p
    };
    let pm1: u128 = (p - 1) as u128;
    proof {
        assert(pm1 * (l as u128) <= 0xffff_ffff_ffff_ffffffff_u128) by (nonlinear_arith)
            requires
                pm1 <= 0x7fff_ffff_ffff_ffff_u128,
                l as u128 <= 100,
        ;
    }
    let raw: u128 = pm1 * (l as u128);
    let skip: usize = if raw > total as u128 {
        total
    } else {
        raw as usize
    };
    let rest = total - skip;
    let cnt: usize = if (l as usize) < rest {
        l as usize
    } else {
        rest
    };
    let offset_r: i64 = if raw > (i64::MAX as u128) {
        i64::MAX
    } else {
        raw as i64
    };
    (skip, cnt, l, offset_r)
}

/// What every listing promises: the total counts the matching rows; the
/// items are the requested window of some ranking that sorts every
/// matching article by the given keys, highest first; and each item is
/// the assembled response of the matching article its id names.
pub open spec fn listing_matches(
    s: Store,
    pred: spec_fn(Article) -> bool,
    key1: spec_fn(Article) -> int,
    key2: spec_fn(Article) -> int,
    viewer: Option<u64>,
    base: Seq<char>,
    page: Option<i64>,
    limit: Option<i64>,
    resp: ArticleListResponse,
) -> bool {
    let total = count_matching(s.articles@, pred) as int;
    let skip = window_skip(total, page, limit);
    let cnt = window_count(total, page, limit);
    &&& resp.total as int == total
    &&& resp.limit as int == clamp_limit(limit)
    &&& resp.offset as int == to_i64_sat(raw_skip(page, limit))
    &&& resp.articles@.len() == cnt
    &&& forall|p: int|
        #![trigger resp.articles@[p]]
        0 <= p < resp.articles@.len() ==> {
            let a = find_article_spec(s.articles@, resp.articles@[p].id);
            &&& a is Some
            &&& pred(a.unwrap())
            &&& response_matches(s, a.unwrap(), viewer, base, resp.articles@[p])
        }
    &&& exists|ord: Seq<Ranked>|
        {
            &&& (#[trigger] ord.len()) == total
            &&& ord.no_duplicates()
            &&& sorted_desc(ord)
            &&& forall|a: int|
                0 <= a < ord.len() ==> {
                    let c = #[trigger] ord[a];
                    &&& c.idx < s.articles@.len()
                    &&& pred(s.articles@[c.idx as int])
                    &&& c.k1 == key1(s.articles@[c.idx as int])
                    &&& c.k2 == key2(s.articles@[c.idx as int])
                }
            &&& forall|q: int|
                0 <= q < s.articles@.len() && pred(#[trigger] s.articles@[q]) ==> exists|a: int|
                    0 <= a < ord.len() && (#[trigger] ord[a]).idx == q
            &&& forall|p: int|
                0 <= p < cnt ==> (#[trigger] resp.articles@[p]).id == s.articles@[ord[skip
                    + p].idx as int].id
        }
}

impl Store {
    /// Sorts collected candidates, cuts the requested window and
    /// assembles one response per row.  Candidate invariants are handed
    /// in ghost form by the caller.
    #[verifier::rlimit(60)]
    pub(crate) fn assemble_listing(
        &self,
        cands: Vec<Ranked>,
        viewer: Option<u64>,
        frontend_base: &str,
        page: Option<i64>,
        limit: Option<i64>,
        Ghost(pred): Ghost<spec_fn(Article) -> bool>,
        Ghost(key1): Ghost<spec_fn(Article) -> int>,
        Ghost(key2): Ghost<spec_fn(Article) -> int>,
    ) -> (r: ArticleListResponse)
        requires
            self.wf(),
            cands@.len() == count_matching(self.articles@, pred),
            forall|a: int|
                0 <= a < cands@.len() ==> {
                    let c = #[trigger] cands@[a];
                    &&& c.idx < self.articles@.len()
                    &&& pred(self.articles@[c.idx as int])
                    &&& c.k1 == key1(self.articles@[c.idx as int])
                    &&& c.k2 == key2(self.articles@[c.idx as int])
                },
            forall|a: int, b: int|
                0 <= a < b < cands@.len() ==> (#[trigger] cands@[a]).idx < (
                #[trigger] cands@[b]).idx,
            forall|q: int|
                0 <= q < self.articles@.len() && pred(#[trigger] self.articles@[q]) ==> exists|
                    a: int,
                |
                    0 <= a < cands@.len() && (#[trigger] cands@[a]).idx == q,
            forall|a: int|
                0 <= a < cands@.len() ==> self.has_user(
                    self.articles@[(#[trigger] cands@[a]).idx as int].author_id,
                ),
        ensures
            listing_matches(
                *self,
                pred,
                key1,
                key2,
                viewer,
                frontend_base@,
                page,
                limit,
                r,
            ),
    {
        proof {
            assert(cands@.no_duplicates()) by {
                assert forall|a: int, b: int|
                    0 <= a < cands@.len() && 0 <= b < cands@.len() && a != b implies cands@[a]
                    != cands@[b] by {
                    if a < b {
                        assert(cands@[a].idx < cands@[b].idx);
                    } else {
                        assert(cands@[b].idx < cands@[a].idx);
                    }
                }
            }
        }
        let ghost gcands = cands@;
        let total = cands.len();
        let sorted = sort_ranked(cands);
        proof {
            lemma_multiset_elements(sorted@, gcands);
            lemma_multiset_elements(gcands, sorted@);
            gcands.lemma_multiset_has_no_duplicates();
            sorted@.lemma_multiset_has_no_duplicates_conv();
        }
        let (skip, cnt, limit_c, offset_r) = page_window(total, page, limit);
        let mut out: Vec<ArticleResponse> = Vec::new();
        let mut p: usize = 0;
        while p < cnt
            invariant
                self.wf(),
                sorted@.len() == total,
                total == count_matching(self.articles@, pred),
                skip + cnt <= total,
                0 <= p <= cnt,
                out@.len() == p,
                sorted@.no_duplicates(),
                sorted_desc(sorted@),
                forall|a: int| 0 <= a < sorted@.len() ==> gcands.contains(#[trigger] sorted@[a]),
                forall|a: int|
                    0 <= a < gcands.len() ==> {
                        let c = #[trigger] gcands[a];
                        &&& c.idx < self.articles@.len()
                        &&& pred(self.articles@[c.idx as int])
                        &&& c.k1 == key1(self.articles@[c.idx as int])
                        &&& c.k2 == key2(self.articles@[c.idx as int])
                    },
                forall|a: int|
                    0 <= a < gcands.len() ==> self.has_user(
                        self.articles@[(#[trigger] gcands[a]).idx as int].author_id,
                    ),
                forall|q: int|
                    #![trigger out@[q]]
                    0 <= q < p ==> {
                        let a = find_article_spec(self.articles@, out@[q].id);
                        &&& a is Some
                        &&& pred(a.unwrap())
                        &&& response_matches(*self, a.unwrap(), viewer, frontend_base@, out@[q])
                    },
                forall|q: int|
                    0 <= q < p ==> (#[trigger] out@[q]).id == self.articles@[sorted@[skip
                        + q].idx as int].id,
            decreases cnt - p,
        {
            proof {
                assert(gcands.contains(sorted@[skip + p as int]));
                let ca = choose|a: int|
                    0 <= a < gcands.len() && #[trigger] gcands[a] == sorted@[skip + p as int];
                assert(sorted@[skip + p as int].idx < self.articles@.len());
            }
            let a = &self.articles[sorted[skip + p].idx];
            let resp = match self.get_article_response(a, viewer, frontend_base) {
                Ok(x) => x,
                Err(_) => unreached(),
            };
            proof {
                lemma_find_article_spec_at(self.articles@, sorted@[skip + p as int].idx as int);
            }
            out.push(resp);
            p = p + 1;
        }
        let r = ArticleListResponse {
            articles: out,
            total: total as u64,
            limit: limit_c,
            offset: offset_r,
        };
        proof {
            assert(r.articles@.len() == window_count(total as int, page, limit));
            assert(exists|ord: Seq<Ranked>|
                {
                    &&& (#[trigger] ord.len()) == count_matching(self.articles@, pred) as int
                    &&& ord.no_duplicates()
                    &&& sorted_desc(ord)
                    &&& forall|a: int|
                        0 <= a < ord.len() ==> {
                            let c = #[trigger] ord[a];
                            &&& c.idx < self.articles@.len()
                            &&& pred(self.articles@[c.idx as int])
                            &&& c.k1 == key1(self.articles@[c.idx as int])
                            &&& c.k2 == key2(self.articles@[c.idx as int])
                        }
                    &&& forall|q: int|
                        0 <= q < self.articles@.len() && pred(#[trigger] self.articles@[q])
                            ==> exists|a: int|
                            0 <= a < ord.len() && (#[trigger] ord[a]).idx == q
                    &&& forall|p2: int|
                        0 <= p2 < window_count(count_matching(self.articles@, pred) as int, page, limit)
                            ==> (#[trigger] r.articles@[p2]).id == self.articles@[ord[window_skip(
                            count_matching(self.articles@, pred) as int,
                            page,
                            limit,
                        ) + p2].idx as int].id
                }) by {
                let ord = sorted@;
                assert(ord.len() == count_matching(self.articles@, pred) as int);
                assert forall|a: int| 0 <= a < ord.len() implies {
                    let c = #[trigger] ord[a];
                    &&& c.idx < self.articles@.len()
                    &&& pred(self.articles@[c.idx as int])
                    &&& c.k1 == key1(self.articles@[c.idx as int])
                    &&& c.k2 == key2(self.articles@[c.idx as int])
                } by {
                    assert(gcands.contains(ord[a]));
                    let w = choose|w: int| 0 <= w < gcands.len() && #[trigger] gcands[w] == ord[a];
                }
                assert forall|q: int|
                    0 <= q < self.articles@.len() && pred(#[trigger] self.articles@[q]) implies exists|
                    a: int,
                |
                    0 <= a < ord.len() && (#[trigger] ord[a]).idx == q by {
                    let a0 = choose|a0: int|
                        0 <= a0 < gcands.len() && (#[trigger] gcands[a0]).idx == q;
                    assert(ord.contains(gcands[a0]));
                    let a1 = choose|a1: int| 0 <= a1 < ord.len() && #[trigger] ord[a1] == gcands[a0];
                    assert(ord[a1].idx == q);
                }
            }
        }
        r
    }
}


/// The trending score, in tenths: claps weigh thirty, comments twenty,
/// reads ten, views one, and a publication within the last day adds one
/// hundred.  Divide by ten for the advertised weights.
pub open spec fn trending_score_of(
    claps_count: u64,
    comments_count: u64,
    reads_count: u64,
    views_count: u64,
    published_at: i64,
    now: i64,
) -> int {
    30 * claps_count + 20 * comments_count + 10 * reads_count + views_count + (
    if now - published_at < 86400 {
        100int
    } else {
        0int
    })
}

pub fn trending_score(
    claps_count: u64,
    comments_count: u64,
    reads_count: u64,
    views_count: u64,
    published_at: i64,
    now: i64,
) -> (r: u128)
    ensures
        r as int == trending_score_of(
            claps_count,
            comments_count,
            reads_count,
            views_count,
            published_at,
            now,
        ),
{
    let base: u128 = 30 * (claps_count as u128) + 20 * (comments_count as u128) + 10 * (
    reads_count as u128) + (views_count as u128);
    let fresh: bool = (now as i128) - (published_at as i128) < 86400;
    if fresh {
        base + 100
    } else {
        base
    }
}

/// Membership of a string among a row's tags or categories.
pub open spec fn has_label(labels: Seq<String>, wanted: Seq<char>) -> bool {
    exists|i: int| 0 <= i < labels.len() && (#[trigger] labels[i])@ == wanted
}

fn vec_contains_string(v: &Vec<String>, s: &String) -> (r: bool)
    ensures
        r == has_label(v@, s@),
{
    let mut i: usize = 0;
    while i < v.len()
        invariant
            0 <= i <= v@.len(),
            forall|m: int| 0 <= m < i ==> (#[trigger] v@[m])@ != s@,
        decreases v@.len() - i,
    {
        if v[i] == *s {
            return true;
        }
        i = i + 1;
    }
    false
}

impl Store {
    /// What the follow feed lists: published articles by authors the
    /// viewer follows, with a stored author row to join against.
    pub open spec fn feed_pred(self, viewer: u64) -> spec_fn(Article) -> bool {
        |a: Article|
            {
                &&& a.status is Published
                &&& a.published_at is Some
                &&& self.follows_user(viewer, a.author_id)
                &&& self.has_user(a.author_id)
            }
    }

    /// The follow feed: newest publication first.
    pub fn get_user_feed(
        &self,
        user_id: u64,
        page: Option<i64>,
        limit: Option<i64>,
        frontend_base: &str,
    ) -> (r: ArticleListResponse)
        requires
            self.wf(),
        ensures
            listing_matches(
                *self,
                self.feed_pred(user_id),
                |a: Article| a.published_at.unwrap() as int,
                |a: Article| 0int,
                Some(user_id),
                frontend_base@,
                page,
                limit,
                r,
            ),
    {
        let ghost pred = self.feed_pred(user_id);
        let n = self.articles.len();
        let mut cands: Vec<Ranked> = Vec::new();
        let mut j: usize = 0;
        while j < n
            invariant
                self.wf(),
                n == self.articles@.len(),
                0 <= j <= n,
                pred == self.feed_pred(user_id),
                cands@.len() == count_matching(self.articles@.take(j as int), pred),
                forall|a: int|
                    0 <= a < cands@.len() ==> {
                        let c = #[trigger] cands@[a];
                        &&& c.idx < n
                        &&& pred(self.articles@[c.idx as int])
                        &&& c.k1 == self.articles@[c.idx as int].published_at.unwrap() as int
                        &&& c.k2 == 0
                    },
                forall|a: int| 0 <= a < cands@.len() ==> (#[trigger] cands@[a]).idx < j,
                forall|a: int, b: int|
                    0 <= a < b < cands@.len() ==> (#[trigger] cands@[a]).idx < (
                    #[trigger] cands@[b]).idx,
                forall|q: int|
                    0 <= q < j && pred(#[trigger] self.articles@[q]) ==> exists|a: int|
                        0 <= a < cands@.len() && (#[trigger] cands@[a]).idx == q,
                forall|a: int|
                    0 <= a < cands@.len() ==> self.has_user(
                        self.articles@[(#[trigger] cands@[a]).idx as int].author_id,
                    ),
            decreases n - j,
        {
            proof {
                lemma_count_take_succ(self.articles@, pred, j as int);
            }
            let a = &self.articles[j];
            let hit = matches!(a.status, crate::article::ArticleStatus::Published) && matches!(
                a.published_at,
                Some(_),
            ) && self.is_following(user_id, a.author_id) && self.find_user(a.author_id).is_some();
            if hit {
                let k1 = match a.published_at {
                    Some(t) => t as i128,
                    None => 0,
                };
                let ghost before = cands@;
                cands.push(Ranked { k1, k2: 0, idx: j });
                proof {
                    assert(cands@[cands@.len() - 1].idx == j);
                    assert forall|q: int|
                        0 <= q < j + 1 && pred(#[trigger] self.articles@[q]) implies exists|a: int|
                        0 <= a < cands@.len() && (#[trigger] cands@[a]).idx == q by {
                        if q < j {
                            let a0 = choose|a0: int|
                                0 <= a0 < before.len() && (#[trigger] before[a0]).idx == q;
                            assert(cands@[a0].idx == q);
                        } else {
                            assert(cands@[cands@.len() - 1].idx == q);
                        }
                    }
                }
            }
            j = j + 1;
        }
        proof {
            lemma_count_take_all(self.articles@, pred);
        }
        self.assemble_listing(
            cands,
            Some(user_id),
            frontend_base,
            page,
            limit,
            Ghost(pred),
            Ghost(|a: Article| a.published_at.unwrap() as int),
            Ghost(|a: Article| 0int),
        )
    }

    /// What the trending window lists: articles published within the
    /// trailing window, with a stored author row.
    pub open spec fn trending_pred(self, now: i64, window_hours: i64) -> spec_fn(Article) -> bool {
        |a: Article|
            {
                &&& a.status is Published
                &&& a.published_at is Some
                &&& a.published_at.unwrap() as int > now - window_hours * 3600
                &&& self.has_user(a.author_id)
            }
    }

    /// The trending listing: highest engagement score first, ties broken
    /// by newest publication.
    pub fn get_trending_articles(
        &self,
        user_id: Option<u64>,
        page: Option<i64>,
        limit: Option<i64>,
        time_window_hours: Option<i32>,
        now: i64,
        frontend_base: &str,
    ) -> (r: ArticleListResponse)
        requires
            self.wf(),
        ensures
            ({
                let w = (match time_window_hours {
                    Some(h) => h as int,
                    None => 168,
                });
                listing_matches(
                    *self,
                    self.trending_pred(now, w as i64),
                    |a: Article| trending_score_of(
                        a.claps_count,
                        a.comments_count,
                        a.reads_count,
                        a.views_count,
                        a.published_at.unwrap(),
                        now,
                    ),
                    |a: Article| a.published_at.unwrap() as int,
                    user_id,
                    frontend_base@,
                    page,
                    limit,
                    r,
                )
            }),
    {
        let w: i64 = match time_window_hours {
            Some(h) => h as i64,
            None => 168,
        };
        let ghost pred = self.trending_pred(now, w);
        let n = self.articles.len();
        let mut cands: Vec<Ranked> = Vec::new();
        let mut j: usize = 0;
        while j < n
            invariant
                self.wf(),
                n == self.articles@.len(),
                0 <= j <= n,
                pred == self.trending_pred(now, w),
                cands@.len() == count_matching(self.articles@.take(j as int), pred),
                forall|a: int|
                    0 <= a < cands@.len() ==> {
                        let c = #[trigger] cands@[a];
                        &&& c.idx < n
                        &&& pred(self.articles@[c.idx as int])
                        &&& c.k1 == trending_score_of(
                            self.articles@[c.idx as int].claps_count,
                            self.articles@[c.idx as int].comments_count,
                            self.articles@[c.idx as int].reads_count,
                            self.articles@[c.idx as int].views_count,
                            self.articles@[c.idx as int].published_at.unwrap(),
                            now,
                        )
                        &&& c.k2 == self.articles@[c.idx as int].published_at.unwrap() as int
                    },
                forall|a: int| 0 <= a < cands@.len() ==> (#[trigger] cands@[a]).idx < j,
                forall|a: int, b: int|
                    0 <= a < b < cands@.len() ==> (#[trigger] cands@[a]).idx < (
                    #[trigger] cands@[b]).idx,
                forall|q: int|
                    0 <= q < j && pred(#[trigger] self.articles@[q]) ==> exists|a: int|
                        0 <= a < cands@.len() && (#[trigger] cands@[a]).idx == q,
                forall|a: int|
                    0 <= a < cands@.len() ==> self.has_user(
                        self.articles@[(#[trigger] cands@[a]).idx as int].author_id,
                    ),
            decreases n - j,
        {
            proof {
                lemma_count_take_succ(self.articles@, pred, j as int);
            }
            let a = &self.articles[j];
            let in_window = match a.published_at {
                Some(t) => (t as i128) > (now as i128) - (w as i128) * 3600,
                None => false,
            };
            let hit = matches!(a.status, crate::article::ArticleStatus::Published) && in_window
                && self.find_user(a.author_id).is_some();
            if hit {
                let pub_at = match a.published_at {
                    Some(t) => t,
                    None => 0,
                };
                let score = trending_score(
                    a.claps_count,
                    a.comments_count,
                    a.reads_count,
                    a.views_count,
                    pub_at,
                    now,
                );
                let ghost before = cands@;
                cands.push(Ranked { k1: score as i128, k2: pub_at as i128, idx: j });
                proof {
                    assert(cands@[cands@.len() - 1].idx == j);
                    assert forall|q: int|
                        0 <= q < j + 1 && pred(#[trigger] self.articles@[q]) implies exists|a: int|
                        0 <= a < cands@.len() && (#[trigger] cands@[a]).idx == q by {
                        if q < j {
                            let a0 = choose|a0: int|
                                0 <= a0 < before.len() && (#[trigger] before[a0]).idx == q;
                            assert(cands@[a0].idx == q);
                        } else {
                            assert(cands@[cands@.len() - 1].idx == q);
                        }
                    }
                }
            }
            j = j + 1;
        }
        proof {
            lemma_count_take_all(self.articles@, pred);
        }
        self.assemble_listing(
            cands,
            user_id,
            frontend_base,
            page,
            limit,
            Ghost(pred),
            Ghost(
                |a: Article| trending_score_of(
                    a.claps_count,
                    a.comments_count,
                    a.reads_count,
                    a.views_count,
                    a.published_at.unwrap(),
                    now,
                ),
            ),
            Ghost(|a: Article| a.published_at.unwrap() as int),
        )
    }

    /// What the general listing shows for given query parameters:
    /// published articles, narrowed by author id, category or tag, each
    /// with a stored author row.  An author filter that is not a numeric
    /// id matches nothing.
    pub open spec fn articles_pred(self, params: ArticleQueryParams) -> spec_fn(Article) -> bool {
        match params.author {
            Some(author_s) => {
                if author_s@.len() > 0 && crate::numbers::all_digits(author_s@)
                    && crate::numbers::dec_value(author_s@) <= u64::MAX {
                    |a: Article|
                        {
                            &&& a.status is Published
                            &&& a.author_id as nat == crate::numbers::dec_value(
                                (match params.author {
                                    Some(s) => s,
                                    None => author_s,
                                })@,
                            )
                            &&& self.has_user(a.author_id)
                        }
                } else {
                    |a: Article| false
                }
            },
            None => match params.category {
                Some(cat) => |a: Article|
                    {
                        &&& a.status is Published
                        &&& has_label(
                            a.categories@,
                            (match params.category {
                                Some(c) => c,
                                None => cat,
                            })@,
                        )
                        &&& self.has_user(a.author_id)
                    },
                None => match params.tag {
                    Some(tg) => |a: Article|
                        {
                            &&& a.status is Published
                            &&& has_label(
                                a.tags@,
                                (match params.tag {
                                    Some(t) => t,
                                    None => tg,
                                })@,
                            )
                            &&& self.has_user(a.author_id)
                        },
                    None => |a: Article| a.status is Published && self.has_user(a.author_id),
                },
            },
        }
    }

    /// The published listing with its optional filters, newest creation
    /// first.
    pub fn get_articles(
        &self,
        params: &ArticleQueryParams,
        user_id: Option<u64>,
        frontend_base: &str,
    ) -> (r: ArticleListResponse)
        requires
            self.wf(),
        ensures
            listing_matches(
                *self,
                self.articles_pred(*params),
                |a: Article| a.created_at as int,
                |a: Article| 0int,
                user_id,
                frontend_base@,
                params.page,
                params.limit,
                r,
            ),
    {
        let ghost pred = self.articles_pred(*params);
        let author_filter: Option<Option<u64>> = match &params.author {
            Some(s) => Some(parse_u64(s.as_str())),
            None => None,
        };
        let n = self.articles.len();
        let mut cands: Vec<Ranked> = Vec::new();
        let mut j: usize = 0;
        while j < n
            invariant
                self.wf(),
                n == self.articles@.len(),
                0 <= j <= n,
                pred == self.articles_pred(*params),
                (match params.author {
                    Some(s) => author_filter matches Some(x) && (match x {
                        Some(v) => s@.len() > 0 && crate::numbers::all_digits(s@) && v as nat
                            == crate::numbers::dec_value(s@),
                        None => s@.len() == 0 || !crate::numbers::all_digits(s@)
                            || crate::numbers::dec_value(s@) > u64::MAX,
                    }),
                    None => author_filter is None,
                }),
                cands@.len() == count_matching(self.articles@.take(j as int), pred),
                forall|a: int|
                    0 <= a < cands@.len() ==> {
                        let c = #[trigger] cands@[a];
                        &&& c.idx < n
                        &&& pred(self.articles@[c.idx as int])
                        &&& c.k1 == self.articles@[c.idx as int].created_at as int
                        &&& c.k2 == 0
                    },
                forall|a: int| 0 <= a < cands@.len() ==> (#[trigger] cands@[a]).idx < j,
                forall|a: int, b: int|
                    0 <= a < b < cands@.len() ==> (#[trigger] cands@[a]).idx < (
                    #[trigger] cands@[b]).idx,
                forall|q: int|
                    0 <= q < j && pred(#[trigger] self.articles@[q]) ==> exists|a: int|
                        0 <= a < cands@.len() && (#[trigger] cands@[a]).idx == q,
                forall|a: int|
                    0 <= a < cands@.len() ==> self.has_user(
                        self.articles@[(#[trigger] cands@[a]).idx as int].author_id,
                    ),
            decreases n - j,
        {
            proof {
                lemma_count_take_succ(self.articles@, pred, j as int);
            }
            let a = &self.articles[j];
            let base_hit = matches!(a.status, crate::article::ArticleStatus::Published)
                && self.find_user(a.author_id).is_some();
            let hit = base_hit && (match &author_filter {
                Some(Some(aid)) => a.author_id == *aid,
                Some(None) => false,
                None => match &params.category {
                    Some(c) => vec_contains_string(&a.categories, c),
                    None => match &params.tag {
                        Some(tg) => vec_contains_string(&a.tags, tg),
                        None => true,
                    },
                },
            });
            if hit {
                let ghost before = cands@;
                cands.push(Ranked { k1: a.created_at as i128, k2: 0, idx: j });
                proof {
                    assert(cands@[cands@.len() - 1].idx == j);
                    assert forall|q: int|
                        0 <= q < j + 1 && pred(#[trigger] self.articles@[q]) implies exists|a2: int|
                        0 <= a2 < cands@.len() && (#[trigger] cands@[a2]).idx == q by {
                        if q < j {
                            let a0 = choose|a0: int|
                                0 <= a0 < before.len() && (#[trigger] before[a0]).idx == q;
                            assert(cands@[a0].idx == q);
                        } else {
                            assert(cands@[cands@.len() - 1].idx == q);
                        }
                    }
                }
            }
            j = j + 1;
        }
        proof {
            lemma_count_take_all(self.articles@, pred);
        }
        self.assemble_listing(
            cands,
            user_id,
            frontend_base,
            params.page,
            params.limit,
            Ghost(pred),
            Ghost(|a: Article| a.created_at as int),
            Ghost(|a: Article| 0int),
        )
    }

    /// What the drafts listing shows: the caller's own drafts.
    pub open spec fn drafts_pred(self, author_id: u64) -> spec_fn(Article) -> bool {
        |a: Article|
            {
                &&& a.status is Draft
                &&& a.author_id == author_id
                &&& self.has_user(a.author_id)
            }
    }

    /// The caller's drafts, most recently touched first, fifty at most.
    pub fn get_drafts(&self, author_id: u64, frontend_base: &str) -> (r: ArticleListResponse)
        requires
            self.wf(),
        ensures
            listing_matches(
                *self,
                self.drafts_pred(author_id),
                |a: Article| a.updated_at as int,
                |a: Article| a.created_at as int,
                Some(author_id),
                frontend_base@,
                None,
                Some(50i64),
                r,
            ),
    {
        let ghost pred = self.drafts_pred(author_id);
        let n = self.articles.len();
        let mut cands: Vec<Ranked> = Vec::new();
        let mut j: usize = 0;
        while j < n
            invariant
                self.wf(),
                n == self.articles@.len(),
                0 <= j <= n,
                pred == self.drafts_pred(author_id),
                cands@.len() == count_matching(self.articles@.take(j as int), pred),
                forall|a: int|
                    0 <= a < cands@.len() ==> {
                        let c = #[trigger] cands@[a];
                        &&& c.idx < n
                        &&& pred(self.articles@[c.idx as int])
                        &&& c.k1 == self.articles@[c.idx as int].updated_at as int
                        &&& c.k2 == self.articles@[c.idx as int].created_at as int
                    },
                forall|a: int| 0 <= a < cands@.len() ==> (#[trigger] cands@[a]).idx < j,
                forall|a: int, b: int|
                    0 <= a < b < cands@.len() ==> (#[trigger] cands@[a]).idx < (
                    #[trigger] cands@[b]).idx,
                forall|q: int|
                    0 <= q < j && pred(#[trigger] self.articles@[q]) ==> exists|a: int|
                        0 <= a < cands@.len() && (#[trigger] cands@[a]).idx == q,
                forall|a: int|
                    0 <= a < cands@.len() ==> self.has_user(
                        self.articles@[(#[trigger] cands@[a]).idx as int].author_id,
                    ),
            decreases n - j,
        {
            proof {
                lemma_count_take_succ(self.articles@, pred, j as int);
            }
            let a = &self.articles[j];
            let hit = matches!(a.status, crate::article::ArticleStatus::Draft) && a.author_id
                == author_id && self.find_user(a.author_id).is_some();
            if hit {
                let ghost before = cands@;
                cands.push(
                    Ranked { k1: a.updated_at as i128, k2: a.created_at as i128, idx: j },
                );
                proof {
                    assert(cands@[cands@.len() - 1].idx == j);
                    assert forall|q: int|
                        0 <= q < j + 1 && pred(#[trigger] self.articles@[q]) implies exists|a2: int|
                        0 <= a2 < cands@.len() && (#[trigger] cands@[a2]).idx == q by {
                        if q < j {
                            let a0 = choose|a0: int|
                                0 <= a0 < before.len() && (#[trigger] before[a0]).idx == q;
                            assert(cands@[a0].idx == q);
                        } else {
                            assert(cands@[cands@.len() - 1].idx == q);
                        }
                    }
                }
            }
            j = j + 1;
        }
        proof {
            lemma_count_take_all(self.articles@, pred);
        }
        self.assemble_listing(
            cands,
            Some(author_id),
            frontend_base,
            None,
            Some(50),
            Ghost(pred),
            Ghost(|a: Article| a.updated_at as int),
            Ghost(|a: Article| a.created_at as int),
        )
    }
}


/// First bookmark row of a (user, article) pair, if any; the pair is
/// unique in a well-formed store.
pub open spec fn find_bookmark_spec(
    bookmarks: Seq<Bookmark>,
    user_id: u64,
    article_id: u64,
) -> Option<Bookmark>
    decreases bookmarks.len(),
{
    if bookmarks.len() == 0 {
        None
    } else if bookmarks[0].user_id == user_id && bookmarks[0].article_id == article_id {
        Some(bookmarks[0])
    } else {
        find_bookmark_spec(bookmarks.drop_first(), user_id, article_id)
    }
}

proof fn lemma_find_bookmark_spec_at(bookmarks: Seq<Bookmark>, j: int)
    requires
        0 <= j < bookmarks.len(),
        forall|a: int, b: int|
            #![trigger bookmarks[a], bookmarks[b]]
            0 <= a < b < bookmarks.len() ==> !(bookmarks[a].user_id == bookmarks[b].user_id
                && bookmarks[a].article_id == bookmarks[b].article_id),
    ensures
        find_bookmark_spec(bookmarks, bookmarks[j].user_id, bookmarks[j].article_id) == Some(
            bookmarks[j],
        ),
    decreases j,
{
    if j > 0 {
        assert(!(bookmarks[0].user_id == bookmarks[j].user_id && bookmarks[0].article_id
            == bookmarks[j].article_id));
        assert(forall|a: int, b: int|
            #![trigger bookmarks.drop_first()[a], bookmarks.drop_first()[b]]
            0 <= a < b < bookmarks.drop_first().len() ==> !(bookmarks.drop_first()[a].user_id
                == bookmarks.drop_first()[b].user_id && bookmarks.drop_first()[a].article_id
                == bookmarks.drop_first()[b].article_id)) by {
            assert(forall|a: int|
                0 <= a < bookmarks.drop_first().len() ==> #[trigger] bookmarks.drop_first()[a]
                    == bookmarks[a + 1]);
        }
        lemma_find_bookmark_spec_at(bookmarks.drop_first(), j - 1);
    }
}

impl Store {
    /// What the reading list shows: published articles the caller has
    /// bookmarked, with a stored author row.
    pub open spec fn my_bookmarks_pred(self, viewer: u64) -> spec_fn(Article) -> bool {
        |a: Article|
            {
                &&& a.status is Published
                &&& self.user_bookmarked(viewer, a.id)
                &&& self.has_user(a.author_id)
            }
    }

    /// Every article the caller has bookmarked, most recently bookmarked
    /// first, without pagination.
    pub fn get_my_bookmarks(&self, user_id: u64, frontend_base: &str) -> (r: Vec<ArticleResponse>)
        requires
            self.wf(),
        ensures
            ({
                let pred = self.my_bookmarks_pred(user_id);
                &&& r@.len() == count_matching(self.articles@, pred)
                &&& forall|p: int|
                    #![trigger r@[p]]
                    0 <= p < r@.len() ==> {
                        let a = find_article_spec(self.articles@, r@[p].id);
                        &&& a is Some
                        &&& pred(a.unwrap())
                        &&& response_matches(
                            *self,
                            a.unwrap(),
                            Some(user_id),
                            frontend_base@,
                            r@[p],
                        )
                    }
                &&& exists|ord: Seq<Ranked>|
                    {
                        &&& (#[trigger] ord.len()) == count_matching(self.articles@, pred) as int
                        &&& ord.no_duplicates()
                        &&& sorted_desc(ord)
                        &&& forall|a: int|
                            0 <= a < ord.len() ==> {
                                let c = #[trigger] ord[a];
                                &&& c.idx < self.articles@.len()
                                &&& pred(self.articles@[c.idx as int])
                                &&& c.k1 == find_bookmark_spec(
                                    self.bookmarks@,
                                    user_id,
                                    self.articles@[c.idx as int].id,
                                ).unwrap().created_at as int
                                &&& c.k2 == 0
                            }
                        &&& forall|q: int|
                            0 <= q < self.articles@.len() && pred(#[trigger] self.articles@[q])
                                ==> exists|a: int|
                                0 <= a < ord.len() && (#[trigger] ord[a]).idx == q
                        &&& forall|p: int|
                            0 <= p < r@.len() ==> (#[trigger] r@[p]).id == self.articles@[ord[
                                p].idx as int].id
                    }
            }),
    {
        let ghost pred = self.my_bookmarks_pred(user_id);
        let n = self.articles.len();
        let mut cands: Vec<Ranked> = Vec::new();
        let mut j: usize = 0;
        while j < n
            invariant
                self.wf(),
                n == self.articles@.len(),
                0 <= j <= n,
                pred == self.my_bookmarks_pred(user_id),
                cands@.len() == count_matching(self.articles@.take(j as int), pred),
                forall|a: int|
                    0 <= a < cands@.len() ==> {
                        let c = #[trigger] cands@[a];
                        &&& c.idx < n
                        &&& pred(self.articles@[c.idx as int])
                        &&& c.k1 == find_bookmark_spec(
                            self.bookmarks@,
                            user_id,
                            self.articles@[c.idx as int].id,
                        ).unwrap().created_at as int
                        &&& c.k2 == 0
                    },
                forall|a: int| 0 <= a < cands@.len() ==> (#[trigger] cands@[a]).idx < j,
                forall|a: int, b: int|
                    0 <= a < b < cands@.len() ==> (#[trigger] cands@[a]).idx < (
                    #[trigger] cands@[b]).idx,
                forall|q: int|
                    0 <= q < j && pred(#[trigger] self.articles@[q]) ==> exists|a: int|
                        0 <= a < cands@.len() && (#[trigger] cands@[a]).idx == q,
                forall|a: int|
                    0 <= a < cands@.len() ==> self.has_user(
                        self.articles@[(#[trigger] cands@[a]).idx as int].author_id,
                    ),
            decreases n - j,
        {
            proof {
                lemma_count_take_succ(self.articles@, pred, j as int);
            }
            let a = &self.articles[j];
            let published = matches!(a.status, crate::article::ArticleStatus::Published);
            let has_author = self.find_user(a.author_id).is_some();
            if published && has_author {
                match self.find_bookmark(user_id, a.id) {
                    Some(bj) => {
                        proof {
                            lemma_find_bookmark_spec_at(self.bookmarks@, bj as int);
                        }
                        let k1 = self.bookmarks[bj].created_at as i128;
                        let ghost before = cands@;
                        cands.push(Ranked { k1, k2: 0, idx: j });
                        proof {
                            assert(cands@[cands@.len() - 1].idx == j);
                            assert forall|q: int|
                                0 <= q < j + 1 && pred(
                                    #[trigger] self.articles@[q],
                                ) implies exists|a2: int|
                                0 <= a2 < cands@.len() && (#[trigger] cands@[a2]).idx == q by {
                                if q < j {
                                    let a0 = choose|a0: int|
                                        0 <= a0 < before.len() && (#[trigger] before[a0]).idx == q;
                                    assert(cands@[a0].idx == q);
                                } else {
                                    assert(cands@[cands@.len() - 1].idx == q);
                                }
                            }
                        }
                    },
                    None => {},
                }
            }
            j = j + 1;
        }
        proof {
            lemma_count_take_all(self.articles@, pred);
            assert(cands@.no_duplicates()) by {
                assert forall|a: int, b: int|
                    0 <= a < cands@.len() && 0 <= b < cands@.len() && a != b implies cands@[a]
                    != cands@[b] by {
                    if a < b {
                        assert(cands@[a].idx < cands@[b].idx);
                    } else {
                        assert(cands@[b].idx < cands@[a].idx);
                    }
                }
            }
        }
        let ghost gcands = cands@;
        let total = cands.len();
        let sorted = sort_ranked(cands);
        proof {
            lemma_multiset_elements(sorted@, gcands);
            lemma_multiset_elements(gcands, sorted@);
            gcands.lemma_multiset_has_no_duplicates();
            sorted@.lemma_multiset_has_no_duplicates_conv();
        }
        let mut out: Vec<ArticleResponse> = Vec::new();
        let mut p: usize = 0;
        while p < sorted.len()
            invariant
                self.wf(),
                sorted@.len() == total,
                total == count_matching(self.articles@, pred),
                0 <= p <= total,
                out@.len() == p,
                pred == self.my_bookmarks_pred(user_id),
                sorted@.no_duplicates(),
                sorted_desc(sorted@),
                forall|a: int| 0 <= a < sorted@.len() ==> gcands.contains(#[trigger] sorted@[a]),
                forall|a: int|
                    0 <= a < gcands.len() ==> {
                        let c = #[trigger] gcands[a];
                        &&& c.idx < self.articles@.len()
                        &&& pred(self.articles@[c.idx as int])
                        &&& c.k1 == find_bookmark_spec(
                            self.bookmarks@,
                            user_id,
                            self.articles@[c.idx as int].id,
                        ).unwrap().created_at as int
                        &&& c.k2 == 0
                    },
                forall|a: int|
                    0 <= a < gcands.len() ==> self.has_user(
                        self.articles@[(#[trigger] gcands[a]).idx as int].author_id,
                    ),
                forall|q: int|
                    #![trigger out@[q]]
                    0 <= q < p ==> {
                        let a = find_article_spec(self.articles@, out@[q].id);
                        &&& a is Some
                        &&& pred(a.unwrap())
                        &&& response_matches(
                            *self,
                            a.unwrap(),
                            Some(user_id),
                            frontend_base@,
                            out@[q],
                        )
                    },
                forall|q: int|
                    0 <= q < p ==> (#[trigger] out@[q]).id == self.articles@[sorted@[
                        q].idx as int].id,
            decreases total - p,
        {
            proof {
                assert(gcands.contains(sorted@[p as int]));
                let ca = choose|a: int|
                    0 <= a < gcands.len() && #[trigger] gcands[a] == sorted@[p as int];
                assert(sorted@[p as int].idx < self.articles@.len());
            }
            let a = &self.articles[sorted[p].idx];
            let resp = match self.get_article_response(a, Some(user_id), frontend_base) {
                Ok(x) => x,
                Err(_) => unreached(),
            };
            proof {
                lemma_find_article_spec_at(self.articles@, sorted@[p as int].idx as int);
            }
            out.push(resp);
            p = p + 1;
        }
        proof {
            assert(exists|ord: Seq<Ranked>|
                {
                    &&& (#[trigger] ord.len()) == count_matching(self.articles@, pred) as int
                    &&& ord.no_duplicates()
                    &&& sorted_desc(ord)
                    &&& forall|a: int|
                        0 <= a < ord.len() ==> {
                            let c = #[trigger] ord[a];
                            &&& c.idx < self.articles@.len()
                            &&& pred(self.articles@[c.idx as int])
                            &&& c.k1 == find_bookmark_spec(
                                self.bookmarks@,
                                user_id,
                                self.articles@[c.idx as int].id,
                            ).unwrap().created_at as int
                            &&& c.k2 == 0
                        }
                    &&& forall|q: int|
                        0 <= q < self.articles@.len() && pred(#[trigger] self.articles@[q])
                            ==> exists|a: int|
                            0 <= a < ord.len() && (#[trigger] ord[a]).idx == q
                    &&& forall|p2: int|
                        0 <= p2 < out@.len() ==> (#[trigger] out@[p2]).id == self.articles@[ord[
                            p2].idx as int].id
                }) by {
                let ord = sorted@;
                assert(ord.len() == count_matching(self.articles@, pred) as int);
                assert forall|a: int| 0 <= a < ord.len() implies {
                    let c = #[trigger] ord[a];
                    &&& c.idx < self.articles@.len()
                    &&& pred(self.articles@[c.idx as int])
                    &&& c.k1 == find_bookmark_spec(
                        self.bookmarks@,
                        user_id,
                        self.articles@[c.idx as int].id,
                    ).unwrap().created_at as int
                    &&& c.k2 == 0
                } by {
                    assert(gcands.contains(ord[a]));
                    let w = choose|w: int| 0 <= w < gcands.len() && #[trigger] gcands[w] == ord[a];
                }
                assert forall|q: int|
                    0 <= q < self.articles@.len() && pred(
                        #[trigger] self.articles@[q],
                    ) implies exists|a: int| 0 <= a < ord.len() && (#[trigger] ord[a]).idx == q by {
                    let a0 = choose|a0: int|
                        0 <= a0 < gcands.len() && (#[trigger] gcands[a0]).idx == q;
                    assert(ord.contains(gcands[a0]));
                    let a1 = choose|a1: int| 0 <= a1 < ord.len() && #[trigger] ord[a1] == gcands[a0];
                    assert(ord[a1].idx == q);
                }
            }
        }
        out
    }
}

} // verus!
