//! Keyword relevance search over the article corpus: tiered hit
//! weights, a highlighted excerpt per hit, and a caller-chosen order.

use vstd::prelude::*;
use vstd::string::{StringExecFns, StrSliceExecFns};
use crate::article::Article;
use crate::counting::{count_matching, lemma_count_take_succ, lemma_count_take_all};
use crate::matching::{ci_match_at, contains_ci, prefix_ci, word_hit, embeds_from, words_of,
    contains_ci_exec, prefix_ci_exec, word_hit_exec, embeds_exec, find_ci, split_words};
use crate::ranking::{Ranked, sort_ranked, sorted_desc, lemma_multiset_elements};
use crate::search::{SearchArticleResult, SearchAuthorResult, SearchQuery, SearchSortBy,
    SearchTagResult, SearchUserResult};
use crate::store::{Store, find_article_spec, find_user_spec, lemma_find_article_spec_at,
    lemma_find_user_spec_at};
use crate::user::User;
use crate::ledger::clone_opt_string;
use crate::listings::{window_skip, window_count};

verus! {

/// One field's tier score: full weight for a substring hit, the middle
/// weight for a word-delimited hit, the small weight for a prefix hit.
pub open spec fn tier_score(f: Seq<char>, q: Seq<char>, wc: int, ww: int, wp: int) -> int {
    (if contains_ci(f, q) {
        wc
    } else {
        0int
    }) + (if word_hit(f, q) {
        ww
    } else {
        0int
    }) + (if prefix_ci(f, q) {
        wp
    } else {
        0int
    })
}

pub open spec fn tier_any(f: Seq<char>, q: Seq<char>) -> bool {
    contains_ci(f, q) || word_hit(f, q) || prefix_ci(f, q)
}

/// The tiered relevance score of one article against a query: title
/// hits weigh fifteen, twelve and ten for substring, word and prefix
/// form; subtitle eight, six and five; content six, four and two; the
/// author's name fields five, five and three; and in-order multi-word
/// hits add three on the title and two on the content.
pub open spec fn article_relevance(q: Seq<char>, a: Article, u: User) -> int {
    let words = words_of(q);
    tier_score(a.title@, q, 15, 12, 10) + (match a.subtitle {
        Some(s) => tier_score(s@, q, 8, 6, 5),
        None => 0int,
    }) + tier_score(a.content@, q, 6, 4, 2) + (if contains_ci(u.username@, q) {
        5int
    } else {
        0int
    }) + (match u.display_name {
        Some(d) => if contains_ci(d@, q) {
            5int
        } else {
            0int
        },
        None => 0int,
    }) + (match u.bio {
        Some(b) => if contains_ci(b@, q) {
            3int
        } else {
            0int
        },
        None => 0int,
    }) + (if embeds_from(a.title@, words, 0) {
        3int
    } else {
        0int
    }) + (if embeds_from(a.content@, words, 0) {
        2int
    } else {
        0int
    })
}

/// Whether the article answers the query at all: some pattern hits the
/// title, subtitle, content or one of the author's name fields.
pub open spec fn article_search_hit(q: Seq<char>, a: Article, u: User) -> bool {
    ||| tier_any(a.title@, q)
    ||| (match a.subtitle {
        Some(s) => tier_any(s@, q),
        None => false,
    })
    ||| tier_any(a.content@, q)
    ||| contains_ci(u.username@, q)
    ||| (match u.display_name {
        Some(d) => contains_ci(d@, q),
        None => false,
    })
    ||| (match u.bio {
        Some(b) => contains_ci(b@, q),
        None => false,
    })
    ||| embeds_from(a.content@, words_of(q), 0)
}

fn tier_score_exec(f: &str, q: &str, wc: u64, ww: u64, wp: u64) -> (r: (u64, bool))
    requires
        wc <= 100,
        ww <= 100,
        wp <= 100,
    ensures
        r.0 as int == tier_score(f@, q@, wc as int, ww as int, wp as int),
        r.1 == tier_any(f@, q@),
{
    let mut score: u64 = 0;
    let c = contains_ci_exec(f, q);
    let w = word_hit_exec(f, q);
    let p = prefix_ci_exec(f, q);
    if c {
        score = score + wc;
    }
    if w {
        score = score + ww;
    }
    if p {
        score = score + wp;
    }
    (score, c || w || p)
}

/// Computes the relevance score and whether the article hits at all.
fn score_article(q: &str, words: &Vec<String>, a: &Article, u: &User) -> (r: (u64, bool))
    requires
        words@.map_values(|w: String| w@) == words_of(q@),
    ensures
        r.0 as int == article_relevance(q@, *a, *u),
        r.1 == article_search_hit(q@, *a, *u),
{
    let (t_s, t_h) = tier_score_exec(a.title.as_str(), q, 15, 12, 10);
    let (s_s, s_h) = match &a.subtitle {
        Some(s) => tier_score_exec(s.as_str(), q, 8, 6, 5),
        None => (0, false),
    };
    let (c_s, c_h) = tier_score_exec(a.content.as_str(), q, 6, 4, 2);
    let u_c = contains_ci_exec(u.username.as_str(), q);
    let d_c = match &u.display_name {
        Some(d) => contains_ci_exec(d.as_str(), q),
        None => false,
    };
    let b_c = match &u.bio {
        Some(b) => contains_ci_exec(b.as_str(), q),
        None => false,
    };
    let m_t = embeds_exec(a.title.as_str(), words, 0);
    let m_c = embeds_exec(a.content.as_str(), words, 0);
    let mut score: u64 = t_s + s_s + c_s;
    if u_c {
        score = score + 5;
    }
    if d_c {
        score = score + 5;
    }
    if b_c {
        score = score + 3;
    }
    if m_t {
        score = score + 3;
    }
    if m_c {
        score = score + 2;
    }
    let hit = t_h || s_h || c_h || u_c || d_c || b_c || m_c;
    (score, hit)
}

/// First case-insensitive match position, read from the front; negative
/// one when the needle never occurs.
pub open spec fn first_ci(hay: Seq<char>, needle: Seq<char>, i: int) -> int
    decreases hay.len() + 1 - i,
    when 0 <= i
{
    if i + needle.len() > hay.len() {
        -1
    } else if ci_match_at(hay, needle, i) {
        i
    } else {
        first_ci(hay, needle, i + 1)
    }
}

proof fn lemma_first_ci_of(hay: Seq<char>, needle: Seq<char>, k: int, i: int)
    requires
        0 <= k <= i,
        ci_match_at(hay, needle, i),
        forall|m: int| k <= m < i ==> !ci_match_at(hay, needle, m),
    ensures
        first_ci(hay, needle, k) == i,
    decreases i - k,
{
    if k < i {
        lemma_first_ci_of(hay, needle, k + 1, i);
    }
}

proof fn lemma_first_ci_none(hay: Seq<char>, needle: Seq<char>, k: int)
    requires
        0 <= k,
        forall|m: int| k <= m ==> !ci_match_at(hay, needle, m),
    ensures
        first_ci(hay, needle, k) == -1,
    decreases hay.len() + 1 - k,
{
    if k + needle.len() <= hay.len() {
        lemma_first_ci_none(hay, needle, k + 1);
    }
}

/// The highlighted excerpt around the first hit: fifty characters of
/// left context and one hundred past the hit, ellipsis-bounded; without
/// a hit, the first one hundred and fifty characters.
pub open spec fn excerpt_around(content: Seq<char>, q: Seq<char>) -> Seq<char> {
    let dots = seq!['.', '.', '.'];
    let pos = first_ci(content, q, 0);
    if pos >= 0 {
        let start = if pos >= 50 {
            pos - 50
        } else {
            0
        };
        let end = if pos + q.len() + 100 < content.len() {
            pos + q.len() + 100
        } else {
            content.len() as int
        };
        (if start > 0 {
            dots
        } else {
            Seq::empty()
        }) + content.subrange(start, end) + (if end < content.len() {
            dots
        } else {
            Seq::empty()
        })
    } else {
        let end = if content.len() < 150 {
            content.len() as int
        } else {
            150
        };
        content.subrange(0, end) + (if end < content.len() {
            dots
        } else {
            Seq::empty()
        })
    }
}

/// Builds the excerpt highlighting the first occurrence of the query.
pub fn create_excerpt(content: &str, search_term: &str) -> (r: String)
    ensures
        r@ == excerpt_around(content@, search_term@),
{
    let n = content.unicode_len();
    let m = search_term.unicode_len();
    proof {
        reveal_strlit("...");
    }
    match find_ci(content, search_term, 0) {
        Some(pos) => {
            proof {
                lemma_first_ci_of(content@, search_term@, 0, pos as int);
            }
            let start = if pos >= 50 {
                pos - 50
            } else {
                0
            };
            let end = if (pos as u128) + (m as u128) + 100 < (n as u128) {
                pos + m + 100
            } else {
                n
            };
            let mut out = String::new();
            if start > 0 {
                out.append("...");
            }
            out.append(content.substring_char(start, end));
            if end < n {
                out.append("...");
            }
            proof {
                assert(out@ =~= excerpt_around(content@, search_term@));
            }
            out
        },
        None => {
            proof {
                assert forall|mm: int| 0 <= mm implies !ci_match_at(content@, search_term@, mm)
                    by {}
                lemma_first_ci_none(content@, search_term@, 0);
            }
            let end = if n < 150 {
                n
            } else {
                150
            };
            let mut out = String::new();
            out.append(content.substring_char(0, end));
            if end < n {
                out.append("...");
            }
            proof {
                assert(out@ =~= excerpt_around(content@, search_term@));
            }
            out
        },
    }
}

/// What one search item promises: it names a published, hitting article
/// whose author is the joined user; the excerpt highlights the query;
/// the score is the tiered relevance.
pub open spec fn search_item_matches(
    s: Store,
    q: Seq<char>,
    item: SearchArticleResult,
) -> bool {
    let a = find_article_spec(s.articles@, item.id);
    let u = find_user_spec(s.users@, a.unwrap().author_id);
    &&& a is Some
    &&& a.unwrap().status is Published
    &&& u is Some
    &&& article_search_hit(q, a.unwrap(), u.unwrap())
    &&& item.title == a.unwrap().title
    &&& item.subtitle == a.unwrap().subtitle
    &&& item.excerpt@ == excerpt_around(a.unwrap().content@, q)
    &&& item.slug matches Some(sl) && sl == a.unwrap().slug
    &&& item.author.id == a.unwrap().author_id
    &&& item.author.username == u.unwrap().username
    &&& item.author.display_name == u.unwrap().display_name
    &&& item.author.avatar_url == u.unwrap().avatar_url
    &&& item.claps_count == a.unwrap().claps_count
    &&& item.reading_time_minutes == a.unwrap().reading_time_minutes
    &&& item.published_at == a.unwrap().published_at
    &&& item.relevance_score as int == article_relevance(q, a.unwrap(), u.unwrap())
}

impl Store {
    /// Which articles the search considers: published, with a stored
    /// author, and hitting the query in some tier.
    pub open spec fn search_pred(self, q: Seq<char>) -> spec_fn(Article) -> bool {
        |a: Article|
            {
                &&& a.status is Published
                &&& find_user_spec(self.users@, a.author_id) is Some
                &&& article_search_hit(q, a, find_user_spec(self.users@, a.author_id).unwrap())
            }
    }

    /// The sort key the caller chose: relevance by default, else
    /// recency, views or claps.
    pub open spec fn search_key(self, q: Seq<char>, sort: Option<SearchSortBy>) -> spec_fn(
        Article,
    ) -> int {
        match sort {
            Some(SearchSortBy::Recent) => |a: Article|
                match a.published_at {
                    Some(t) => t as int,
                    None => i64::MIN - 1,
                },
            Some(SearchSortBy::Popular) => |a: Article| a.views_count as int,
            Some(SearchSortBy::Claps) => |a: Article| a.claps_count as int,
            _ => |a: Article|
                article_relevance(
                    q,
                    a,
                    find_user_spec(self.users@, a.author_id).unwrap(),
                ),
        }
    }

    /// Keyword search over articles: every published, hitting article is
    /// ranked under the chosen order and the requested window returned.
    #[verifier::rlimit(100)]
    pub fn search_articles(&self, query: &SearchQuery) -> (r: Vec<SearchArticleResult>)
        requires
            self.wf(),
        ensures
            ({
                let pred = self.search_pred(query.q@);
                let key = self.search_key(query.q@, query.sort);
                let total = count_matching(self.articles@, pred) as int;
                let skip = window_skip(total, query.page, query.limit);
                let cnt = window_count(total, query.page, query.limit);
                &&& r@.len() == cnt
                &&& forall|p: int|
                    #![trigger r@[p]]
                    0 <= p < r@.len() ==> search_item_matches(*self, query.q@, r@[p])
                &&& exists|ord: Seq<Ranked>|
                    {
                        &&& (#[trigger] ord.len()) == total
                        &&& ord.no_duplicates()
                        &&& sorted_desc(ord)
                        &&& forall|a: int|
                            0 <= a < ord.len() ==> {
                                let c = #[trigger] ord[a];
                                &&& c.idx < self.articles@.len()
                                &&& pred(self.articles@[c.idx as int])
                                &&& c.k1 == key(self.articles@[c.idx as int])
                                &&& c.k2 == 0
                            }
                        &&& forall|q2: int|
                            0 <= q2 < self.articles@.len() && pred(#[trigger] self.articles@[q2])
                                ==> exists|a: int|
                                0 <= a < ord.len() && (#[trigger] ord[a]).idx == q2
                        &&& forall|p: int|
                            0 <= p < cnt ==> (#[trigger] r@[p]).id == self.articles@[ord[skip
                                + p].idx as int].id
                    }
            }),
    {
        let ghost pred = self.search_pred(query.q@);
        let ghost key = self.search_key(query.q@, query.sort);
        let words = split_words(query.q.as_str());
        let n = self.articles.len();
        let mut cands: Vec<Ranked> = Vec::new();
        let mut j: usize = 0;
        while j < n
            invariant
                self.wf(),
                n == self.articles@.len(),
                0 <= j <= n,
                pred == self.search_pred(query.q@),
                key == self.search_key(query.q@, query.sort),
                words@.map_values(|w: String| w@) == words_of(query.q@),
                cands@.len() == count_matching(self.articles@.take(j as int), pred),
                forall|a: int|
                    0 <= a < cands@.len() ==> {
                        let c = #[trigger] cands@[a];
                        &&& c.idx < n
                        &&& pred(self.articles@[c.idx as int])
                        &&& c.k1 == key(self.articles@[c.idx as int])
                        &&& c.k2 == 0
                    },
                forall|a: int| 0 <= a < cands@.len() ==> (#[trigger] cands@[a]).idx < j,
                forall|a: int, b: int|
                    0 <= a < b < cands@.len() ==> (#[trigger] cands@[a]).idx < (
                    #[trigger] cands@[b]).idx,
                forall|q2: int|
                    0 <= q2 < j && pred(#[trigger] self.articles@[q2]) ==> exists|a: int|
                        0 <= a < cands@.len() && (#[trigger] cands@[a]).idx == q2,
            decreases n - j,
        {
            proof {
                lemma_count_take_succ(self.articles@, pred, j as int);
            }
            let a = &self.articles[j];
            let published = matches!(a.status, crate::article::ArticleStatus::Published);
            let author = self.find_user(a.author_id);
            let hit = if published {
                match author {
                    Some(uidx) => {
                        proof {
                            lemma_find_user_spec_at(self.users@, uidx as int);
                        }
                        let u = &self.users[uidx];
                        let (score, is_hit) = score_article(query.q.as_str(), &words, a, u);
                        if is_hit {
                            let k1: i128 = match query.sort {
                                Some(SearchSortBy::Recent) => match a.published_at {
                                    Some(t) => t as i128,
                                    None => (i64::MIN as i128) - 1,
                                },
                                Some(SearchSortBy::Popular) => a.views_count as i128,
                                Some(SearchSortBy::Claps) => a.claps_count as i128,
                                _ => score as i128,
                            };
                            let ghost before = cands@;
                            cands.push(Ranked { k1, k2: 0, idx: j });
                            proof {
                                assert(cands@[cands@.len() - 1].idx == j);
                                assert forall|q2: int|
                                    0 <= q2 < j + 1 && pred(
                                        #[trigger] self.articles@[q2],
                                    ) implies exists|a2: int|
                                    0 <= a2 < cands@.len() && (#[trigger] cands@[a2]).idx == q2 by {
                                    if q2 < j {
                                        let a0 = choose|a0: int|
                                            0 <= a0 < before.len() && (#[trigger] before[a0]).idx
                                                == q2;
                                        assert(cands@[a0].idx == q2);
                                    } else {
                                        assert(cands@[cands@.len() - 1].idx == q2);
                                    }
                                }
                            }
                            true
                        } else {
                            false
                        }
                    },
                    None => {
                        proof {
                            crate::store::lemma_find_user_spec_none(
                                self.users@,
                                a.author_id,
                            );
                        }
                        false
                    },
                }
            } else {
                false
            };
            let _ = hit;
            j = j + 1;
        }
        proof {
            lemma_count_take_all(self.articles@, pred);
            assert(cands@.no_duplicates()) by {
                assert forall|a: int, b: int|
                    0 <= a < cands@.len() && 0 <= b < cands@.len() && a != b implies cands@[a]
                    != cands@[b] by {
                    if a < b {
                        assert(cands@[a].idx < cands@[b].idx);
                    } else {
                        assert(cands@[b].idx < cands@[a].idx);
                    }
                }
            }
        }
        let ghost gcands = cands@;
        let total = cands.len();
        let sorted = sort_ranked(cands);
        proof {
            lemma_multiset_elements(sorted@, gcands);
            lemma_multiset_elements(gcands, sorted@);
            gcands.lemma_multiset_has_no_duplicates();
            sorted@.lemma_multiset_has_no_duplicates_conv();
        }
        let (skip, cnt, _limit_c, _offset_r) = crate::listings::page_window(
            total,
            query.page,
            query.limit,
        );
        let mut out: Vec<SearchArticleResult> = Vec::new();
        let mut p: usize = 0;
        while p < cnt
            invariant
                self.wf(),
                sorted@.len() == total,
                total == count_matching(self.articles@, pred),
                skip + cnt <= total,
                0 <= p <= cnt,
                out@.len() == p,
                pred == self.search_pred(query.q@),
                key == self.search_key(query.q@, query.sort),
                words@.map_values(|w: String| w@) == words_of(query.q@),
                sorted@.no_duplicates(),
                sorted_desc(sorted@),
                forall|a: int| 0 <= a < sorted@.len() ==> gcands.contains(#[trigger] sorted@[a]),
                forall|a: int|
                    0 <= a < gcands.len() ==> {
                        let c = #[trigger] gcands[a];
                        &&& c.idx < self.articles@.len()
                        &&& pred(self.articles@[c.idx as int])
                        &&& c.k1 == key(self.articles@[c.idx as int])
                        &&& c.k2 == 0
                    },
                forall|q2: int|
                    #![trigger out@[q2]]
                    0 <= q2 < p ==> search_item_matches(*self, query.q@, out@[q2]),
                forall|q2: int|
                    0 <= q2 < p ==> (#[trigger] out@[q2]).id == self.articles@[sorted@[skip
                        + q2].idx as int].id,
            decreases cnt - p,
        {
            proof {
                assert(gcands.contains(sorted@[skip + p as int]));
                let ca = choose|a: int|
                    0 <= a < gcands.len() && #[trigger] gcands[a] == sorted@[skip + p as int];
                assert(sorted@[skip + p as int].idx < self.articles@.len());
            }
            let a = &self.articles[sorted[skip + p].idx];
            let uidx = match self.find_user(a.author_id) {
                Some(u) => u,
                None => {
                    proof {
                        crate::store::lemma_find_user_spec_none(self.users@, a.author_id);
                    }
                    vstd::pervasive::unreached()
                },
            };
            proof {
                lemma_find_article_spec_at(self.articles@, sorted@[skip + p as int].idx as int);
                lemma_find_user_spec_at(self.users@, uidx as int);
            }
            let u = &self.users[uidx];
            let (score, _is_hit) = score_article(query.q.as_str(), &words, a, u);
            let excerpt = create_excerpt(a.content.as_str(), query.q.as_str());
            out.push(
                SearchArticleResult {
                    id: a.id,
                    title: a.title.clone(),
                    subtitle: clone_opt_string(&a.subtitle),
                    excerpt,
                    slug: Some(a.slug.clone()),
                    author: SearchAuthorResult {
                        id: a.author_id,
                        username: u.username.clone(),
                        display_name: clone_opt_string(&u.display_name),
                        avatar_url: clone_opt_string(&u.avatar_url),
                    },
                    tags: Vec::new(),
                    claps_count: a.claps_count,
                    reading_time_minutes: a.reading_time_minutes,
                    published_at: a.published_at,
                    relevance_score: score,
                },
            );
            p = p + 1;
        }
        proof {
            assert(exists|ord: Seq<Ranked>|
                {
                    &&& (#[trigger] ord.len()) == count_matching(self.articles@, pred) as int
                    &&& ord.no_duplicates()
                    &&& sorted_desc(ord)
                    &&& forall|a: int|
                        0 <= a < ord.len() ==> {
                            let c = #[trigger] ord[a];
                            &&& c.idx < self.articles@.len()
                            &&& pred(self.articles@[c.idx as int])
                            &&& c.k1 == key(self.articles@[c.idx as int])
                            &&& c.k2 == 0
                        }
                    &&& forall|q2: int|
                        0 <= q2 < self.articles@.len() && pred(#[trigger] self.articles@[q2])
                            ==> exists|a: int|
                            0 <= a < ord.len() && (#[trigger] ord[a]).idx == q2
                    &&& forall|p2: int|
                        0 <= p2 < window_count(
                            count_matching(self.articles@, pred) as int,
                            query.page,
                            query.limit,
                        ) ==> (#[trigger] out@[p2]).id == self.articles@[ord[window_skip(
                            count_matching(self.articles@, pred) as int,
                            query.page,
                            query.limit,
                        ) + p2].idx as int].id
                }) by {
                let ord = sorted@;
                assert(ord.len() == count_matching(self.articles@, pred) as int);
                assert forall|a: int| 0 <= a < ord.len() implies {
                    let c = #[trigger] ord[a];
                    &&& c.idx < self.articles@.len()
                    &&& pred(self.articles@[c.idx as int])
                    &&& c.k1 == key(self.articles@[c.idx as int])
                    &&& c.k2 == 0
                } by {
                    assert(gcands.contains(ord[a]));
                    let w = choose|w: int| 0 <= w < gcands.len() && #[trigger] gcands[w] == ord[a];
                }
                assert forall|q2: int|
                    0 <= q2 < self.articles@.len() && pred(
                        #[trigger] self.articles@[q2],
                    ) implies exists|a: int| 0 <= a < ord.len() && (#[trigger] ord[a]).idx == q2 by {
                    let a0 = choose|a0: int|
                        0 <= a0 < gcands.len() && (#[trigger] gcands[a0]).idx == q2;
                    assert(ord.contains(gcands[a0]));
                    let a1 = choose|a1: int| 0 <= a1 < ord.len() && #[trigger] ord[a1] == gcands[a0];
                    assert(ord[a1].idx == q2);
                }
            }
        }
        out
    }
}


/// The tiered relevance of a user profile: username hits weigh fifteen,
/// twelve and ten; display name twelve, ten and eight; bio eight, six
/// and four; in-order multi-word hits add three, three and two.
pub open spec fn user_relevance(q: Seq<char>, u: User) -> int {
    let words = words_of(q);
    tier_score(u.username@, q, 15, 12, 10) + (match u.display_name {
        Some(d) => tier_score(d@, q, 12, 10, 8),
        None => 0int,
    }) + (match u.bio {
        Some(b) => tier_score(b@, q, 8, 6, 4),
        None => 0int,
    }) + (if embeds_from(u.username@, words, 0) {
        3int
    } else {
        0int
    }) + (match u.display_name {
        Some(d) => if embeds_from(d@, words, 0) {
            3int
        } else {
            0int
        },
        None => 0int,
    }) + (match u.bio {
        Some(b) => if embeds_from(b@, words, 0) {
            2int
        } else {
            0int
        },
        None => 0int,
    })
}

/// Whether a user profile answers the query in any pattern.
pub open spec fn user_search_hit(q: Seq<char>, u: User) -> bool {
    let words = words_of(q);
    ||| tier_any(u.username@, q)
    ||| (match u.display_name {
        Some(d) => tier_any(d@, q) || embeds_from(d@, words, 0),
        None => false,
    })
    ||| (match u.bio {
        Some(b) => tier_any(b@, q) || embeds_from(b@, words, 0),
        None => false,
    })
    ||| embeds_from(u.username@, words, 0)
}

#[verifier::rlimit(100)]
fn score_user(q: &str, words: &Vec<String>, u: &User) -> (r: (u64, bool))
    requires
        words@.map_values(|w: String| w@) == words_of(q@),
    ensures
        r.0 as int == user_relevance(q@, *u),
        r.1 == user_search_hit(q@, *u),
{
    let (n_s, n_h) = tier_score_exec(u.username.as_str(), q, 15, 12, 10);
    let (d_s, d_h) = match &u.display_name {
        Some(d) => tier_score_exec(d.as_str(), q, 12, 10, 8),
        None => (0, false),
    };
    let (b_s, b_h) = match &u.bio {
        Some(b) => tier_score_exec(b.as_str(), q, 8, 6, 4),
        None => (0, false),
    };
    let m_n = embeds_exec(u.username.as_str(), words, 0);
    let m_d = match &u.display_name {
        Some(d) => embeds_exec(d.as_str(), words, 0),
        None => false,
    };
    let m_b = match &u.bio {
        Some(b) => embeds_exec(b.as_str(), words, 0),
        None => false,
    };
    let mut score: u64 = n_s + d_s + b_s;
    if m_n {
        score = score + 3;
    }
    if m_d {
        score = score + 3;
    }
    if m_b {
        score = score + 2;
    }
    (score, n_h || d_h || b_h || m_n || m_d || m_b)
}

/// What one user search item promises.
pub open spec fn user_item_matches(s: Store, q: Seq<char>, item: SearchUserResult) -> bool {
    let u = find_user_spec(s.users@, item.id);
    &&& u is Some
    &&& user_search_hit(q, u.unwrap())
    &&& item.username == u.unwrap().username
    &&& item.display_name == u.unwrap().display_name
    &&& item.bio == u.unwrap().bio
    &&& item.avatar_url == u.unwrap().avatar_url
    &&& item.followers_count == u.unwrap().followers_count
    &&& item.articles_count as nat == crate::store::count_published_by(
        s.articles@,
        u.unwrap().user_id,
    )
    &&& item.is_verified == u.unwrap().is_verified
    &&& item.relevance_score as int == user_relevance(q, u.unwrap())
}

impl Store {
    /// Which users the search considers: those hitting the query.
    pub open spec fn user_search_pred(self, q: Seq<char>) -> spec_fn(User) -> bool {
        |u: User| user_search_hit(q, u)
    }

    /// The user sort key: relevance by default, recency or followers on
    /// request.
    pub open spec fn user_search_key(self, q: Seq<char>, sort: Option<SearchSortBy>) -> spec_fn(
        User,
    ) -> int {
        match sort {
            Some(SearchSortBy::Recent) => |u: User| u.created_at as int,
            Some(SearchSortBy::Popular) => |u: User| u.followers_count as int,
            _ => |u: User| user_relevance(q, u),
        }
    }

    /// Keyword search over user profiles: every hitting user is ranked
    /// under the chosen order and the requested window returned.
    #[verifier::rlimit(100)]
    pub fn search_users(&self, query: &SearchQuery) -> (r: Vec<SearchUserResult>)
        requires
            self.wf(),
        ensures
            ({
                let pred = self.user_search_pred(query.q@);
                let key = self.user_search_key(query.q@, query.sort);
                let total = count_matching(self.users@, pred) as int;
                let skip = window_skip(total, query.page, query.limit);
                let cnt = window_count(total, query.page, query.limit);
                &&& r@.len() == cnt
                &&& forall|p: int|
                    #![trigger r@[p]]
                    0 <= p < r@.len() ==> user_item_matches(*self, query.q@, r@[p])
                &&& exists|ord: Seq<Ranked>|
                    {
                        &&& (#[trigger] ord.len()) == total
                        &&& ord.no_duplicates()
                        &&& sorted_desc(ord)
                        &&& forall|a: int|
                            0 <= a < ord.len() ==> {
                                let c = #[trigger] ord[a];
                                &&& c.idx < self.users@.len()
                                &&& pred(self.users@[c.idx as int])
                                &&& c.k1 == key(self.users@[c.idx as int])
                                &&& c.k2 == 0
                            }
                        &&& forall|q2: int|
                            0 <= q2 < self.users@.len() && pred(#[trigger] self.users@[q2])
                                ==> exists|a: int|
                                0 <= a < ord.len() && (#[trigger] ord[a]).idx == q2
                        &&& forall|p: int|
                            0 <= p < cnt ==> (#[trigger] r@[p]).id == self.users@[ord[skip
                                + p].idx as int].user_id
                    }
            }),
    {
        let ghost pred = self.user_search_pred(query.q@);
        let ghost key = self.user_search_key(query.q@, query.sort);
        let words = split_words(query.q.as_str());
        let n = self.users.len();
        let mut cands: Vec<Ranked> = Vec::new();
        let mut j: usize = 0;
        while j < n
            invariant
                self.wf(),
                n == self.users@.len(),
                0 <= j <= n,
                pred == self.user_search_pred(query.q@),
                key == self.user_search_key(query.q@, query.sort),
                words@.map_values(|w: String| w@) == words_of(query.q@),
                cands@.len() == count_matching(self.users@.take(j as int), pred),
                forall|a: int|
                    0 <= a < cands@.len() ==> {
                        let c = #[trigger] cands@[a];
                        &&& c.idx < n
                        &&& pred(self.users@[c.idx as int])
                        &&& c.k1 == key(self.users@[c.idx as int])
                        &&& c.k2 == 0
                    },
                forall|a: int| 0 <= a < cands@.len() ==> (#[trigger] cands@[a]).idx < j,
                forall|a: int, b: int|
                    0 <= a < b < cands@.len() ==> (#[trigger] cands@[a]).idx < (
                    #[trigger] cands@[b]).idx,
                forall|q2: int|
                    0 <= q2 < j && pred(#[trigger] self.users@[q2]) ==> exists|a: int|
                        0 <= a < cands@.len() && (#[trigger] cands@[a]).idx == q2,
            decreases n - j,
        {
            proof {
                lemma_count_take_succ(self.users@, pred, j as int);
            }
            let u = &self.users[j];
            let (score, is_hit) = score_user(query.q.as_str(), &words, u);
            if is_hit {
                let k1: i128 = match query.sort {
                    Some(SearchSortBy::Recent) => u.created_at as i128,
                    Some(SearchSortBy::Popular) => u.followers_count as i128,
                    _ => score as i128,
                };
                let ghost before = cands@;
                cands.push(Ranked { k1, k2: 0, idx: j });
                proof {
                    assert(cands@[cands@.len() - 1].idx == j);
                    assert forall|q2: int|
                        0 <= q2 < j + 1 && pred(#[trigger] self.users@[q2]) implies exists|a2: int|
                        0 <= a2 < cands@.len() && (#[trigger] cands@[a2]).idx == q2 by {
                        if q2 < j {
                            let a0 = choose|a0: int|
                                0 <= a0 < before.len() && (#[trigger] before[a0]).idx == q2;
                            assert(cands@[a0].idx == q2);
                        } else {
                            assert(cands@[cands@.len() - 1].idx == q2);
                        }
                    }
                }
            }
            j = j + 1;
        }
        proof {
            lemma_count_take_all(self.users@, pred);
            assert(cands@.no_duplicates()) by {
                assert forall|a: int, b: int|
                    0 <= a < cands@.len() && 0 <= b < cands@.len() && a != b implies cands@[a]
                    != cands@[b] by {
                    if a < b {
                        assert(cands@[a].idx < cands@[b].idx);
                    } else {
                        assert(cands@[b].idx < cands@[a].idx);
                    }
                }
            }
        }
        let ghost gcands = cands@;
        let total = cands.len();
        let sorted = sort_ranked(cands);
        proof {
            lemma_multiset_elements(sorted@, gcands);
            lemma_multiset_elements(gcands, sorted@);
            gcands.lemma_multiset_has_no_duplicates();
            sorted@.lemma_multiset_has_no_duplicates_conv();
        }
        let (skip, cnt, _limit_c, _offset_r) = crate::listings::page_window(total, query.page, query.limit);
        let mut out: Vec<SearchUserResult> = Vec::new();
        let mut p: usize = 0;
        while p < cnt
            invariant
                self.wf(),
                sorted@.len() == total,
                total == count_matching(self.users@, pred),
                skip + cnt <= total,
                0 <= p <= cnt,
                out@.len() == p,
                pred == self.user_search_pred(query.q@),
                key == self.user_search_key(query.q@, query.sort),
                words@.map_values(|w: String| w@) == words_of(query.q@),
                sorted@.no_duplicates(),
                sorted_desc(sorted@),
                forall|a: int| 0 <= a < sorted@.len() ==> gcands.contains(#[trigger] sorted@[a]),
                forall|a: int|
                    0 <= a < gcands.len() ==> {
                        let c = #[trigger] gcands[a];
                        &&& c.idx < self.users@.len()
                        &&& pred(self.users@[c.idx as int])
                        &&& c.k1 == key(self.users@[c.idx as int])
                        &&& c.k2 == 0
                    },
                forall|q2: int|
                    #![trigger out@[q2]]
                    0 <= q2 < p ==> user_item_matches(*self, query.q@, out@[q2]),
                forall|q2: int|
                    0 <= q2 < p ==> (#[trigger] out@[q2]).id == self.users@[sorted@[skip
                        + q2].idx as int].user_id,
            decreases cnt - p,
        {
            proof {
                assert(gcands.contains(sorted@[skip + p as int]));
                let ca = choose|a: int|
                    0 <= a < gcands.len() && #[trigger] gcands[a] == sorted@[skip + p as int];
                assert(sorted@[skip + p as int].idx < self.users@.len());
            }
            let u = &self.users[sorted[skip + p].idx];
            proof {
                lemma_find_user_spec_at(self.users@, sorted@[skip + p as int].idx as int);
            }
            let (score, _is_hit) = score_user(query.q.as_str(), &words, u);
            let articles_count = self.count_published_by_pub(u.user_id);
            out.push(
                SearchUserResult {
                    id: u.user_id,
                    username: u.username.clone(),
                    display_name: clone_opt_string(&u.display_name),
                    bio: clone_opt_string(&u.bio),
                    avatar_url: clone_opt_string(&u.avatar_url),
                    followers_count: u.followers_count,
                    articles_count,
                    is_verified: u.is_verified,
                    relevance_score: score,
                },
            );
            p = p + 1;
        }
        proof {
            assert(exists|ord: Seq<Ranked>|
                {
                    &&& (#[trigger] ord.len()) == count_matching(self.users@, pred) as int
                    &&& ord.no_duplicates()
                    &&& sorted_desc(ord)
                    &&& forall|a: int|
                        0 <= a < ord.len() ==> {
                            let c = #[trigger] ord[a];
                            &&& c.idx < self.users@.len()
                            &&& pred(self.users@[c.idx as int])
                            &&& c.k1 == key(self.users@[c.idx as int])
                            &&& c.k2 == 0
                        }
                    &&& forall|q2: int|
                        0 <= q2 < self.users@.len() && pred(#[trigger] self.users@[q2]) ==> exists|
                            a: int,
                        |
                            0 <= a < ord.len() && (#[trigger] ord[a]).idx == q2
                    &&& forall|p2: int|
                        0 <= p2 < window_count(
                            count_matching(self.users@, pred) as int,
                            query.page,
                            query.limit,
                        ) ==> (#[trigger] out@[p2]).id == self.users@[ord[window_skip(
                            count_matching(self.users@, pred) as int,
                            query.page,
                            query.limit,
                        ) + p2].idx as int].user_id
                }) by {
                let ord = sorted@;
                assert(ord.len() == count_matching(self.users@, pred) as int);
                assert forall|a: int| 0 <= a < ord.len() implies {
                    let c = #[trigger] ord[a];
                    &&& c.idx < self.users@.len()
                    &&& pred(self.users@[c.idx as int])
                    &&& c.k1 == key(self.users@[c.idx as int])
                    &&& c.k2 == 0
                } by {
                    assert(gcands.contains(ord[a]));
                    let w = choose|w: int| 0 <= w < gcands.len() && #[trigger] gcands[w] == ord[a];
                }
                assert forall|q2: int|
                    0 <= q2 < self.users@.len() && pred(#[trigger] self.users@[q2]) implies exists|
                    a: int,
                |
                    0 <= a < ord.len() && (#[trigger] ord[a]).idx == q2 by {
                    let a0 = choose|a0: int|
                        0 <= a0 < gcands.len() && (#[trigger] gcands[a0]).idx == q2;
                    assert(ord.contains(gcands[a0]));
                    let a1 = choose|a1: int| 0 <= a1 < ord.len() && #[trigger] ord[a1] == gcands[a0];
                    assert(ord[a1].idx == q2);
                }
            }
        }
        out
    }
}


impl Store {
    /// Tag search: the corpus keeps no separate tag table yet, so no
    /// tag result can be produced.
    pub fn search_tags(&self, _query: &SearchQuery) -> (r: Vec<SearchTagResult>)
        ensures
            r@.len() == 0,
    {
        Vec::new()
    }
}

} // verus!
