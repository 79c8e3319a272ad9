//! The article lifecycle: slug allocation, creation, auto-save and
//! partial update.  Publication and deletion live with the store's
//! simpler transitions.

use vstd::prelude::*;
use vstd::seq_lib::group_seq_properties;
use vstd::set_lib::lemma_len_subset;
use crate::article::{Article, ArticleStatus, AutoSaveDraftRequest, CreateArticleRequest,
    UpdateArticleRequest};
use crate::counting::lemma_count_zero;
use crate::sanitize::{clean_of, sanitize_html};
use crate::slug::{candidate, generate_slug, lemma_candidate_inj, lemma_candidate_ok, make_candidate,
    slug_of, slug_ok, lemma_slug_of_ok};
use crate::store::{Store, StoreError, ValidationError, clap_on, bookmark_on, comment_on,
    claps_for, bookmarks_for, comments_for};
use crate::text::{calculate_reading_time, excerpt_of, generate_excerpt, reading_time_of,
    strip_tags_of, trimmed};

verus! {

/// The bounds a creation request must meet, in the order they are
/// reported: title one to two hundred characters, subtitle at most three
/// hundred, content non-empty, excerpt at most five hundred, at most ten
/// tags and five categories.
pub open spec fn create_violations(req: CreateArticleRequest) -> Seq<ValidationError> {
    (if req.title@.len() < 1 || req.title@.len() > 200 {
        seq![ValidationError::TitleLength]
    } else {
        Seq::empty()
    }) + (match req.subtitle {
        Some(s) => if s@.len() > 300 {
            seq![ValidationError::SubtitleLength]
        } else {
            Seq::empty()
        },
        None => Seq::empty(),
    }) + (if req.content@.len() < 1 {
        seq![ValidationError::ContentEmpty]
    } else {
        Seq::empty()
    }) + (match req.excerpt {
        Some(e) => if e@.len() > 500 {
            seq![ValidationError::ExcerptLength]
        } else {
            Seq::empty()
        },
        None => Seq::empty(),
    }) + (match req.tags {
        Some(t) => if t@.len() > 10 {
            seq![ValidationError::TooManyTags]
        } else {
            Seq::empty()
        },
        None => Seq::empty(),
    }) + (match req.categories {
        Some(c) => if c@.len() > 5 {
            seq![ValidationError::TooManyCategories]
        } else {
            Seq::empty()
        },
        None => Seq::empty(),
    })
}

/// Checks the creation bounds and reports every broken one.
fn validate_create(req: &CreateArticleRequest) -> (r: Vec<ValidationError>)
    ensures
        r@ == create_violations(*req),
{
    let mut v: Vec<ValidationError> = Vec::new();
    let tl = req.title.as_str().unicode_len();
    if tl < 1 || tl > 200 {
        v.push(ValidationError::TitleLength);
    }
    let ghost v1 = v@;
    match &req.subtitle {
        Some(s) => {
            if s.as_str().unicode_len() > 300 {
                v.push(ValidationError::SubtitleLength);
            }
        },
        None => {},
    }
    let ghost v2 = v@;
    if req.content.as_str().unicode_len() < 1 {
        v.push(ValidationError::ContentEmpty);
    }
    let ghost v3 = v@;
    match &req.excerpt {
        Some(e) => {
            if e.as_str().unicode_len() > 500 {
                v.push(ValidationError::ExcerptLength);
            }
        },
        None => {},
    }
    let ghost v4 = v@;
    match &req.tags {
        Some(t) => {
            if t.len() > 10 {
                v.push(ValidationError::TooManyTags);
            }
        },
        None => {},
    }
    let ghost v5 = v@;
    match &req.categories {
        Some(c) => {
            if c.len() > 5 {
                v.push(ValidationError::TooManyCategories);
            }
        },
        None => {},
    }
    proof {
        assert(v@ =~= create_violations(*req));
    }
    v
}

/// The slug base a title yields: its derived slug, or the caller's
/// fallback when nothing of the title survives.
pub open spec fn slug_base_of(title: Seq<char>, fallback: Seq<char>) -> Seq<char> {
    if slug_of(title).len() == 0 {
        fallback
    } else {
        slug_of(title)
    }
}

/// The literal fallback base used for untitled drafts is a well-formed
/// slug.
pub proof fn lemma_draft_slug_ok()
    ensures
        slug_ok("draft"@),
{
    reveal_strlit("draft");
    assert("draft"@.len() == 5);
    assert forall|i: int| 0 <= i < "draft"@.len() implies crate::strutil::is_slug_char(
        #[trigger] "draft"@[i],
    ) by {
        if i == 0 {
            assert("draft"@[0] == 'd');
        } else if i == 1 {
            assert("draft"@[1] == 'r');
        } else if i == 2 {
            assert("draft"@[2] == 'a');
        } else if i == 3 {
            assert("draft"@[3] == 'f');
        } else {
            assert("draft"@[4] == 't');
        }
    }
    assert("draft"@[0] == 'd');
    assert("draft"@[4] == 't');
    assert forall|i: int| 0 < i < "draft"@.len() implies !(#[trigger] "draft"@[i] == '-'
        && "draft"@[i - 1] == '-') by {
        if i == 1 {
            assert("draft"@[1] == 'r');
        } else if i == 2 {
            assert("draft"@[2] == 'a');
        } else if i == 3 {
            assert("draft"@[3] == 'f');
        } else {
            assert("draft"@[4] == 't');
        }
    }
}

impl Store {
    /// Whether a candidate slug is already worn by some article other
    /// than the excluded one.
    fn slug_taken_exec(&self, s: &String, exclude_id: Option<u64>) -> (r: bool)
        ensures
            r == self.slug_taken(s@, exclude_id),
    {
        let n = self.articles.len();
        let mut i: usize = 0;
        while i < n
            invariant
                n == self.articles@.len(),
                0 <= i <= n,
                forall|m: int|
                    0 <= m < i ==> !((#[trigger] self.articles@[m]).slug@ == s@ && Some(
                        self.articles@[m].id,
                    ) != exclude_id),
            decreases n - i,
        {
            if self.articles[i].slug == *s {
                let excluded = match exclude_id {
                    Some(x) => self.articles[i].id == x,
                    None => false,
                };
                if !excluded {
                    return true;
                }
            }
            i = i + 1;
        }
        false
    }

    /// Resolves slug collisions: tries `base`, then `base-1`, `base-2`,
    /// and so on, until a free slug is found.  Termination is a pigeonhole
    /// argument: the candidates are pairwise distinct, so at most as many
    /// as there are articles can be taken.
    pub fn ensure_unique_slug(&self, base: &str, exclude_id: Option<u64>) -> (r: String)
        requires
            self.wf(),
            slug_ok(base@),
        ensures
            slug_ok(r@),
            !self.slug_taken(r@, exclude_id),
            exists|k: int|
                0 <= k && r@ == #[trigger] candidate(base@, k as nat) && (forall|q: int|
                    0 <= q < k ==> self.slug_taken(
                        #[trigger] candidate(base@, q as nat),
                        exclude_id,
                    )),
    {
        let n: usize = self.articles.len();
        let mut k: u64 = 0;
        let mut cand = base.to_owned();
        loop
            invariant
                self.wf(),
                slug_ok(base@),
                n == self.articles@.len(),
                cand@ == candidate(base@, k as nat),
                k <= n,
                forall|q: int| 0 <= q < k ==> self.slug_taken(#[trigger] candidate(base@, q as nat), exclude_id),
            decreases n - k,
        {
            if !self.slug_taken_exec(&cand, exclude_id) {
                proof {
                    lemma_candidate_ok(base@, k as nat);
                    let kk = k as int;
                    assert(0 <= kk && cand@ == candidate(base@, kk as nat));
                    assert(forall|q: int|
                        0 <= q < kk ==> self.slug_taken(
                            #[trigger] candidate(base@, q as nat),
                            exclude_id,
                        ));
                }
                return cand;
            }
            proof {
                lemma_slug_pigeonhole(*self, base@, exclude_id, k as int + 1);
            }
            k = k + 1;
            cand = make_candidate(base, k);
        }
    }
}

impl Store {
    /// Allocates the slug for a title: the derived base, or the draft
    /// fallback when nothing of the title survives, disambiguated with
    /// the first free collision suffix.  The result is never empty and
    /// always matches the slug grammar.
    pub fn allocate_slug(&self, title: &str, exclude_id: Option<u64>) -> (r: String)
        requires
            self.wf(),
        ensures
            slug_ok(r@),
            !self.slug_taken(r@, exclude_id),
            exists|k: int|
                0 <= k && r@ == #[trigger] candidate(slug_base_of(title@, "draft"@), k as nat) && (
                forall|q: int|
                    0 <= q < k ==> self.slug_taken(
                        #[trigger] candidate(slug_base_of(title@, "draft"@), q as nat),
                        exclude_id,
                    )),
    {
        let base_raw = generate_slug(title);
        let base = if base_raw.as_str().unicode_len() == 0 {
            proof {
                lemma_draft_slug_ok();
            }
            String::from_str("draft")
        } else {
            proof {
                lemma_slug_of_ok(title@);
            }
            base_raw
        };
        proof {
            assert(base@ == slug_base_of(title@, "draft"@));
        }
        self.ensure_unique_slug(base.as_str(), exclude_id)
    }
}

/// When the first `k` candidates are all taken, the store holds at least
/// `k` articles: the candidates are pairwise distinct and each is the
/// slug of a distinct article.
pub proof fn lemma_slug_pigeonhole(s: Store, base: Seq<char>, exclude_id: Option<u64>, k: int)
    requires
        0 <= k,
        forall|q: int| 0 <= q < k ==> s.slug_taken(#[trigger] candidate(base, q as nat), exclude_id),
    ensures
        k <= s.articles@.len(),
{
    broadcast use group_seq_properties;

    let cands: Seq<Seq<char>> = Seq::new(k as nat, |q: int| candidate(base, q as nat));
    assert forall|a: int, b: int| 0 <= a < b < cands.len() implies cands[a] != cands[b] by {
        if candidate(base, a as nat) == candidate(base, b as nat) {
            lemma_candidate_inj(base, a as nat, b as nat);
        }
    }
    assert(cands.no_duplicates()) by {
        assert forall|a: int, b: int|
            0 <= a < cands.len() && 0 <= b < cands.len() && a != b implies cands[a] != cands[b] by {
            if a < b {
                assert(cands[a] != cands[b]);
            } else {
                assert(cands[b] != cands[a]);
            }
        }
    }
    let slugs: Seq<Seq<char>> = s.articles@.map_values(|a: Article| a.slug@);
    assert forall|q: int| 0 <= q < cands.len() implies slugs.contains(#[trigger] cands[q]) by {
        assert(s.slug_taken(candidate(base, q as nat), exclude_id));
        let w = choose|i: int|
            0 <= i < s.articles@.len() && (#[trigger] s.articles@[i].slug@) == candidate(
                base,
                q as nat,
            ) && Some(s.articles@[i].id) != exclude_id;
        assert(slugs[w] == cands[q]);
    }
    cands.unique_seq_to_set();
    assert(cands.to_set().subset_of(slugs.to_set())) by {
        assert forall|x: Seq<char>| cands.to_set().contains(x) implies slugs.to_set().contains(x)
            by {
            assert(cands.contains(x));
            assert(slugs.contains(x));
        }
    }
    slugs.lemma_cardinality_of_set();
    lemma_len_subset(cands.to_set(), slugs.to_set());
}

/// The invariant survives appending a fresh article whose counters are
/// all zero and whose slug is free.
pub proof fn lemma_wf_after_article_push(pre: Store, post: Store, a: Article)
    requires
        pre.wf(),
        pre.next_id < u64::MAX,
        a.id == pre.next_id,
        a.claps_count == 0,
        a.bookmarks_count == 0,
        a.comments_count == 0,
        a.auto_save_version >= 1,
        a.reading_time_minutes >= 1,
        a.published_at is Some <==> a.status is Published,
        slug_ok(a.slug@),
        !pre.slug_taken(a.slug@, None),
        post.next_id == pre.next_id + 1,
        post.users@ == pre.users@,
        post.credentials@ == pre.credentials@,
        post.claps@ == pre.claps@,
        post.bookmarks@ == pre.bookmarks@,
        post.comments@ == pre.comments@,
        post.follows@ == pre.follows@,
        post.articles@ == pre.articles@.push(a),
    ensures
        post.wf(),
{
    assert forall|i: int, j: int|
        #![trigger post.articles@[i], post.articles@[j]]
        0 <= i < j < post.articles@.len() implies post.articles@[i].id != post.articles@[j].id
        && post.articles@[i].slug@ != post.articles@[j].slug@ by {
        if j == post.articles@.len() - 1 {
            assert(post.articles@[i] == pre.articles@[i]);
            if pre.articles@[i].slug@ == a.slug@ {
                assert(pre.slug_taken(a.slug@, None));
            }
        } else {
            assert(post.articles@[i] == pre.articles@[i]);
            assert(post.articles@[j] == pre.articles@[j]);
        }
    }
    assert forall|i: int| 0 <= i < post.articles@.len() implies {
        let x = #[trigger] post.articles@[i];
        x.claps_count as nat == claps_for(post.claps@, x.id) && x.bookmarks_count as nat
            == bookmarks_for(post.bookmarks@, x.id) && x.comments_count as nat == comments_for(
            post.comments@,
            x.id,
        )
    } by {
        if i < post.articles@.len() - 1 {
            assert(post.articles@[i] == pre.articles@[i]);
        } else {
            assert(post.articles@[i] == a);
            lemma_count_zero(post.claps@, clap_on(a.id));
            lemma_count_zero(post.bookmarks@, bookmark_on(a.id));
            lemma_count_zero(post.comments@, comment_on(a.id));
            assert forall|q: int| 0 <= q < post.claps@.len() implies !(clap_on(a.id)(
                #[trigger] post.claps@[q],
            )) by {
                assert(post.claps@[q].article_id < pre.next_id);
            }
            assert forall|q: int| 0 <= q < post.bookmarks@.len() implies !(bookmark_on(a.id)(
                #[trigger] post.bookmarks@[q],
            )) by {
                assert(post.bookmarks@[q].article_id < pre.next_id);
            }
            assert forall|q: int| 0 <= q < post.comments@.len() implies !(comment_on(a.id)(
                #[trigger] post.comments@[q],
            )) by {
                assert(post.comments@[q].article_id < pre.next_id);
            }
        }
    }
    assert forall|i: int| 0 <= i < post.articles@.len() implies {
        let x = #[trigger] post.articles@[i];
        x.auto_save_version >= 1 && x.reading_time_minutes >= 1 && (
        x.published_at is Some <==> x.status is Published) && slug_ok(x.slug@) && x.id
            < post.next_id
    } by {
        if i < post.articles@.len() - 1 {
            assert(post.articles@[i] == pre.articles@[i]);
        }
    }
}

impl Store {
    /// Creates an article: bounds checked, content sanitized, reading
    /// time and excerpt derived, a unique slug allocated, counters at
    /// zero and the auto-save version at one.  Returns the new id.
    #[verifier::rlimit(80)]
    pub fn create_article(&mut self, author_id: u64, request: CreateArticleRequest, now: i64) -> (r:
        Result<u64, StoreError>)
        requires
            old(self).wf(),
            old(self).next_id < u64::MAX,
        ensures
            final(self).wf(),
            r is Ok <==> create_violations(request).len() == 0,
            match r {
                Ok(id) => {
                    &&& id == old(self).next_id
                    &&& final(self).next_id == old(self).next_id + 1
                    &&& final(self).users@ == old(self).users@
                    &&& final(self).credentials@ == old(self).credentials@
                    &&& final(self).claps@ == old(self).claps@
                    &&& final(self).bookmarks@ == old(self).bookmarks@
                    &&& final(self).comments@ == old(self).comments@
                    &&& final(self).follows@ == old(self).follows@
                    &&& exists|a: Article|
                        {
                            &&& (#[trigger] a.id) == old(self).next_id
                            &&& final(self).articles@ == old(self).articles@.push(a)
                            &&& a.title == request.title
                            &&& a.subtitle == request.subtitle
                            &&& a.content == request.content
                            &&& a.content_html@ == clean_of(request.content@)
                            &&& (match request.excerpt {
                                Some(e) => a.excerpt == Some(e),
                                None => a.excerpt matches Some(x) && x@ == excerpt_of(
                                    trimmed(strip_tags_of(clean_of(request.content@))),
                                    200,
                                ),
                            })
                            &&& a.featured_image_url == request.featured_image_url
                            &&& a.author_id == author_id
                            &&& a.publication_id == request.publication_id
                            &&& a.status == (match request.status {
                                Some(s) => s,
                                None => ArticleStatus::Draft,
                            })
                            &&& a.is_member_only == (match request.is_member_only {
                                Some(b) => b,
                                None => false,
                            })
                            &&& a.is_featured == false
                            &&& a.paywall_position == request.paywall_position
                            &&& slug_ok(a.slug@)
                            &&& !old(self).slug_taken(a.slug@, None)
                            &&& exists|k: int|
                                0 <= k && a.slug@ == #[trigger] candidate(
                                    slug_base_of(request.title@, "draft"@),
                                    k as nat,
                                ) && (forall|q: int|
                                    0 <= q < k ==> old(self).slug_taken(
                                        #[trigger] candidate(
                                            slug_base_of(request.title@, "draft"@),
                                            q as nat,
                                        ),
                                        None,
                                    ))
                            &&& a.tags@ == (match request.tags {
                                Some(t) => t@,
                                None => Seq::<String>::empty(),
                            })
                            &&& a.categories@ == (match request.categories {
                                Some(c) => c@,
                                None => Seq::<String>::empty(),
                            })
                            &&& a.reading_time_minutes as nat == reading_time_of(
                                clean_of(request.content@),
                            )
                            &&& a.claps_count == 0
                            &&& a.comments_count == 0
                            &&& a.bookmarks_count == 0
                            &&& a.views_count == 0
                            &&& a.reads_count == 0
                            &&& a.published_at == (if a.status is Published {
                                Some(now)
                            } else {
                                None::<i64>
                            })
                            &&& a.created_at == now
                            &&& a.updated_at == now
                            &&& a.last_auto_save == Some(now)
                            &&& a.auto_save_version == 1
                        }
                },
                Err(e) => {
                    &&& *final(self) == *old(self)
                    &&& e matches StoreError::ValidationFailed(v) && v@ == create_violations(
                        request,
                    ) && v@.len() > 0
                },
            },
    {
        let violations = validate_create(&request);
        if violations.len() > 0 {
            return Err(StoreError::ValidationFailed(violations));
        }
        let content_html = sanitize_html(request.content.as_str());
        let reading_time = calculate_reading_time(content_html.as_str());
        let excerpt = match request.excerpt {
            Some(e) => Some(e),
            None => Some(generate_excerpt(content_html.as_str(), 200)),
        };
        let unique_slug = self.allocate_slug(request.title.as_str(), None);
        let status = match request.status {
            Some(s) => s,
            None => ArticleStatus::Draft,
        };
        let published_at = if matches!(status, ArticleStatus::Published) {
            Some(now)
        } else {
            None
        };
        let id = self.next_id;
        let article = Article {
            id,
            title: request.title,
            subtitle: request.subtitle,
            content: request.content,
            content_html,
            excerpt,
            featured_image_url: request.featured_image_url,
            author_id,
            publication_id: request.publication_id,
            status,
            is_member_only: match request.is_member_only {
                Some(b) => b,
                None => false,
            },
            is_featured: false,
            paywall_position: request.paywall_position,
            slug: unique_slug,
            tags: match request.tags {
                Some(t) => t,
                None => Vec::new(),
            },
            categories: match request.categories {
                Some(c) => c,
                None => Vec::new(),
            },
            reading_time_minutes: reading_time,
            claps_count: 0,
            comments_count: 0,
            bookmarks_count: 0,
            views_count: 0,
            reads_count: 0,
            published_at,
            created_at: now,
            updated_at: now,
            last_auto_save: Some(now),
            auto_save_version: 1,
        };
        let ghost ga = article;
        self.articles.push(article);
        self.next_id = self.next_id + 1;
        proof {
            lemma_wf_after_article_push(*old(self), *self, ga);
            assert(ga.id == old(self).next_id);
        }
        Ok(id)
    }
}


impl Store {
    /// Whether an auto-save can land on an existing row: the article
    /// exists, the caller owns it, and it is still a draft.
    pub open spec fn can_auto_save(self, article_id: u64, author_id: u64) -> bool {
        exists|i: int|
            0 <= i < self.articles@.len() && #[trigger] self.articles@[i].id == article_id
                && self.articles@[i].author_id == author_id && self.articles@[i].status is Draft
    }

    /// Auto-saves a draft.  With an id, only the owning author's draft is
    /// touched: content always overwrites, the optional fields merge, and
    /// the auto-save version rises by exactly one; a non-draft or foreign
    /// row is left alone.  Without an id, a fresh draft is minted under a
    /// disambiguated `draft` slug.  Returns the draft's id either way.
    #[verifier::rlimit(80)]
    pub fn auto_save_draft(&mut self, author_id: u64, request: AutoSaveDraftRequest, now: i64) -> (r:
        u64)
        requires
            old(self).wf(),
            old(self).next_id < u64::MAX,
            forall|i: int|
                0 <= i < old(self).articles@.len() && (#[trigger] old(self).articles@[i]).id
                    == (match request.article_id {
                    Some(aid) => aid,
                    None => old(self).next_id,
                }) ==> old(self).articles@[i].auto_save_version < u64::MAX,
        ensures
            final(self).wf(),
            match request.article_id {
                Some(aid) => {
                    &&& r == aid
                    &&& final(self).next_id == old(self).next_id
                    &&& final(self).users@ == old(self).users@
                    &&& final(self).credentials@ == old(self).credentials@
                    &&& final(self).claps@ == old(self).claps@
                    &&& final(self).bookmarks@ == old(self).bookmarks@
                    &&& final(self).comments@ == old(self).comments@
                    &&& final(self).follows@ == old(self).follows@
                    &&& (!old(self).can_auto_save(aid, author_id) ==> final(self).articles@ == old(
                        self,
                    ).articles@)
                    &&& (old(self).can_auto_save(aid, author_id) ==> exists|i: int|
                        {
                            &&& 0 <= i < old(self).articles@.len()
                            &&& (#[trigger] old(self).articles@[i]).id == aid
                            &&& old(self).articles@[i].author_id == author_id
                            &&& old(self).articles@[i].status is Draft
                            &&& exists|x: Article|
                                {
                                    &&& final(self).articles@ == old(self).articles@.update(i, x)
                                    &&& (#[trigger] x.id) == aid
                                    &&& x.title == (match request.title {
                                        Some(t) => t,
                                        None => old(self).articles@[i].title,
                                    })
                                    &&& x.subtitle == (match request.subtitle {
                                        Some(v) => Some(v),
                                        None => old(self).articles@[i].subtitle,
                                    })
                                    &&& x.content == request.content
                                    &&& x.content_html == request.content
                                    &&& x.excerpt == (match request.excerpt {
                                        Some(v) => Some(v),
                                        None => old(self).articles@[i].excerpt,
                                    })
                                    &&& x.featured_image_url == (match request.featured_image_url {
                                        Some(v) => Some(v),
                                        None => old(self).articles@[i].featured_image_url,
                                    })
                                    &&& x.tags@ == (match request.tags {
                                        Some(tg) => tg@,
                                        None => old(self).articles@[i].tags@,
                                    })
                                    &&& x.categories@ == (match request.categories {
                                        Some(c) => c@,
                                        None => old(self).articles@[i].categories@,
                                    })
                                    &&& x.is_member_only == (match request.is_member_only {
                                        Some(b) => b,
                                        None => old(self).articles@[i].is_member_only,
                                    })
                                    &&& x.paywall_position == (match request.paywall_position {
                                        Some(v) => Some(v),
                                        None => old(self).articles@[i].paywall_position,
                                    })
                                    &&& x.updated_at == now
                                    &&& x.last_auto_save == Some(now)
                                    &&& x.auto_save_version == old(
                                        self,
                                    ).articles@[i].auto_save_version + 1
                                    &&& x.author_id == author_id
                                    &&& x.status == old(self).articles@[i].status
                                    &&& x.published_at == old(self).articles@[i].published_at
                                    &&& x.slug == old(self).articles@[i].slug
                                    &&& x.claps_count == old(self).articles@[i].claps_count
                                    &&& x.comments_count == old(self).articles@[i].comments_count
                                    &&& x.bookmarks_count == old(self).articles@[i].bookmarks_count
                                    &&& x.views_count == old(self).articles@[i].views_count
                                    &&& x.reads_count == old(self).articles@[i].reads_count
                                    &&& x.reading_time_minutes == old(
                                        self,
                                    ).articles@[i].reading_time_minutes
                                    &&& x.created_at == old(self).articles@[i].created_at
                                    &&& x.is_featured == old(self).articles@[i].is_featured
                                    &&& x.publication_id == old(self).articles@[i].publication_id
                                }
                        })
                },
                None => {
                    &&& r == old(self).next_id
                    &&& final(self).next_id == old(self).next_id + 1
                    &&& final(self).users@ == old(self).users@
                    &&& final(self).credentials@ == old(self).credentials@
                    &&& final(self).claps@ == old(self).claps@
                    &&& final(self).bookmarks@ == old(self).bookmarks@
                    &&& final(self).comments@ == old(self).comments@
                    &&& final(self).follows@ == old(self).follows@
                    &&& exists|a: Article|
                        {
                            &&& (#[trigger] a.id) == old(self).next_id
                            &&& final(self).articles@ == old(self).articles@.push(a)
                            &&& a.title@ == (match request.title {
                                Some(t) => t@,
                                None => Seq::<char>::empty(),
                            })
                            &&& a.subtitle == request.subtitle
                            &&& a.content == request.content
                            &&& a.content_html == request.content
                            &&& a.excerpt == request.excerpt
                            &&& a.featured_image_url == request.featured_image_url
                            &&& a.author_id == author_id
                            &&& a.status is Draft
                            &&& a.published_at is None
                            &&& a.is_featured == false
                            &&& a.tags@ == (match request.tags {
                                Some(tg) => tg@,
                                None => Seq::<String>::empty(),
                            })
                            &&& a.categories@ == (match request.categories {
                                Some(c) => c@,
                                None => Seq::<String>::empty(),
                            })
                            &&& a.is_member_only == (match request.is_member_only {
                                Some(b) => b,
                                None => false,
                            })
                            &&& a.paywall_position == request.paywall_position
                            &&& slug_ok(a.slug@)
                            &&& !old(self).slug_taken(a.slug@, None)
                            &&& exists|k: int|
                                0 <= k && a.slug@ == #[trigger] candidate("draft"@, k as nat) && (
                                forall|q: int|
                                    0 <= q < k ==> old(self).slug_taken(
                                        #[trigger] candidate("draft"@, q as nat),
                                        None,
                                    ))
                            &&& a.reading_time_minutes as nat == reading_time_of(request.content@)
                            &&& a.claps_count == 0
                            &&& a.comments_count == 0
                            &&& a.bookmarks_count == 0
                            &&& a.views_count == 0
                            &&& a.reads_count == 0
                            &&& a.created_at == now
                            &&& a.updated_at == now
                            &&& a.last_auto_save == Some(now)
                            &&& a.auto_save_version == 1
                        }
                },
            },
    {
        match request.article_id {
            Some(aid) => {
                let idx = match self.find_article(aid) {
                    None => {
                        return aid;
                    },
                    Some(i) => i,
                };
                let owned = self.articles[idx].author_id == author_id;
                let is_draft = matches!(self.articles[idx].status, ArticleStatus::Draft);
                if !owned || !is_draft {
                    proof {
                        crate::store::lemma_only_index(*old(self), idx as int, aid);
                    }
                    return aid;
                }
                let mut a = self.articles.remove(idx);
                match request.title {
                    Some(t) => {
                        a.title = t;
                    },
                    None => {},
                }
                match request.subtitle {
                    Some(v) => {
                        a.subtitle = Some(v);
                    },
                    None => {},
                }
                a.content_html = request.content.clone();
                a.content = request.content;
                match request.excerpt {
                    Some(v) => {
                        a.excerpt = Some(v);
                    },
                    None => {},
                }
                match request.featured_image_url {
                    Some(v) => {
                        a.featured_image_url = Some(v);
                    },
                    None => {},
                }
                match request.tags {
                    Some(tg) => {
                        a.tags = tg;
                    },
                    None => {},
                }
                match request.categories {
                    Some(c) => {
                        a.categories = c;
                    },
                    None => {},
                }
                match request.is_member_only {
                    Some(b) => {
                        a.is_member_only = b;
                    },
                    None => {},
                }
                match request.paywall_position {
                    Some(v) => {
                        a.paywall_position = Some(v);
                    },
                    None => {},
                }
                a.updated_at = now;
                a.last_auto_save = Some(now);
                a.auto_save_version = a.auto_save_version + 1;
                let ghost gx = a;
                self.articles.insert(idx, a);
                proof {
                    assert(self.articles@ =~= old(self).articles@.update(idx as int, gx));
                    crate::store::lemma_wf_counters_kept(*old(self), *self, idx as int);
                }
                aid
            },
            None => {
                proof {
                    lemma_draft_slug_ok();
                    reveal_strlit("draft");
                }
                let slug = self.ensure_unique_slug("draft", None);
                let reading_time = calculate_reading_time(request.content.as_str());
                let id = self.next_id;
                let article = Article {
                    id,
                    title: match request.title {
                        Some(t) => t,
                        None => String::new(),
                    },
                    subtitle: request.subtitle,
                    content: request.content.clone(),
                    content_html: request.content,
                    excerpt: request.excerpt,
                    featured_image_url: request.featured_image_url,
                    author_id,
                    publication_id: None,
                    status: ArticleStatus::Draft,
                    is_member_only: match request.is_member_only {
                        Some(b) => b,
                        None => false,
                    },
                    is_featured: false,
                    paywall_position: request.paywall_position,
                    slug,
                    tags: match request.tags {
                        Some(tg) => tg,
                        None => Vec::new(),
                    },
                    categories: match request.categories {
                        Some(c) => c,
                        None => Vec::new(),
                    },
                    reading_time_minutes: reading_time,
                    claps_count: 0,
                    comments_count: 0,
                    bookmarks_count: 0,
                    views_count: 0,
                    reads_count: 0,
                    published_at: None,
                    created_at: now,
                    updated_at: now,
                    last_auto_save: Some(now),
                    auto_save_version: 1,
                };
                let ghost ga = article;
                self.articles.push(article);
                self.next_id = self.next_id + 1;
                proof {
                    lemma_wf_after_article_push(*old(self), *self, ga);
                    assert(ga.id == old(self).next_id);
                }
                id
            },
        }
    }

    /// Partial update: ownership is checked first and reported apart from
    /// absence; a new title replaces the old one, new content is
    /// re-sanitized and re-timed.  Other fields are left as they are.
    pub fn update_article(
        &mut self,
        article_id: u64,
        author_id: u64,
        request: UpdateArticleRequest,
        now: i64,
    ) -> (r: Result<(), StoreError>)
        requires
            old(self).wf(),
        ensures
            final(self).wf(),
            Store::same_but_articles(*old(self), *final(self)),
            r is Ok <==> old(self).owns_article(article_id, author_id),
            match r {
                Ok(_) => exists|i: int|
                    {
                        &&& 0 <= i < old(self).articles@.len()
                        &&& (#[trigger] old(self).articles@[i]).id == article_id
                        &&& old(self).articles@[i].author_id == author_id
                        &&& exists|x: Article|
                            {
                                &&& final(self).articles@ == old(self).articles@.update(i, x)
                                &&& (#[trigger] x.id) == article_id
                                &&& x.title == (match request.title {
                                    Some(t) => t,
                                    None => old(self).articles@[i].title,
                                })
                                &&& x.content == (match request.content {
                                    Some(c) => c,
                                    None => old(self).articles@[i].content,
                                })
                                &&& x.content_html@ == (match request.content {
                                    Some(c) => clean_of(c@),
                                    None => old(self).articles@[i].content_html@,
                                })
                                &&& x.reading_time_minutes as nat == (match request.content {
                                    Some(c) => reading_time_of(clean_of(c@)),
                                    None => old(self).articles@[i].reading_time_minutes as nat,
                                })
                                &&& x.updated_at == (if request.title is Some
                                    || request.content is Some {
                                    now
                                } else {
                                    old(self).articles@[i].updated_at
                                })
                                &&& x.subtitle == old(self).articles@[i].subtitle
                                &&& x.excerpt == old(self).articles@[i].excerpt
                                &&& x.author_id == author_id
                                &&& x.status == old(self).articles@[i].status
                                &&& x.published_at == old(self).articles@[i].published_at
                                &&& x.slug == old(self).articles@[i].slug
                                &&& x.claps_count == old(self).articles@[i].claps_count
                                &&& x.comments_count == old(self).articles@[i].comments_count
                                &&& x.bookmarks_count == old(self).articles@[i].bookmarks_count
                                &&& x.views_count == old(self).articles@[i].views_count
                                &&& x.reads_count == old(self).articles@[i].reads_count
                                &&& x.auto_save_version == old(self).articles@[i].auto_save_version
                                &&& x.created_at == old(self).articles@[i].created_at
                                &&& x.is_featured == old(self).articles@[i].is_featured
                                &&& x.is_member_only == old(self).articles@[i].is_member_only
                                &&& x.paywall_position == old(self).articles@[i].paywall_position
                                &&& x.publication_id == old(self).articles@[i].publication_id
                                &&& x.featured_image_url == old(
                                    self,
                                ).articles@[i].featured_image_url
                                &&& x.tags == old(self).articles@[i].tags
                                &&& x.categories == old(self).articles@[i].categories
                                &&& x.last_auto_save == old(self).articles@[i].last_auto_save
                            }
                    },
                Err(e) => {
                    &&& final(self).articles@ == old(self).articles@
                    &&& (e is NotFound <==> !old(self).has_article(article_id))
                    &&& (e is Unauthorized <==> old(self).has_article(article_id) && !old(
                        self,
                    ).owns_article(article_id, author_id))
                },
            },
    {
        let idx = match self.find_article(article_id) {
            None => {
                return Err(StoreError::NotFound);
            },
            Some(i) => i,
        };
        if self.articles[idx].author_id != author_id {
            proof {
                crate::store::lemma_only_index(*old(self), idx as int, article_id);
            }
            return Err(StoreError::Unauthorized);
        }
        let mut a = self.articles.remove(idx);
        let mut touched = false;
        match request.title {
            Some(t) => {
                a.title = t;
                touched = true;
            },
            None => {},
        }
        match request.content {
            Some(c) => {
                let html = sanitize_html(c.as_str());
                let minutes = calculate_reading_time(html.as_str());
                a.content = c;
                a.content_html = html;
                a.reading_time_minutes = minutes;
                touched = true;
            },
            None => {},
        }
        if touched {
            a.updated_at = now;
        }
        let ghost gx = a;
        self.articles.insert(idx, a);
        proof {
            assert(self.articles@ =~= old(self).articles@.update(idx as int, gx));
            crate::store::lemma_wf_counters_kept(*old(self), *self, idx as int);
        }
        Ok(())
    }
}


} // verus!
