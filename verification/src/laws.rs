//! The library's standing guarantees, stated and proved against the
//! contracts: slug well-formedness, the clap toggle's involution, the
//! counter invariant, auto-save versioning, the one-way publish
//! transition, relevance dominance of title hits, and ownership gating.

use vstd::prelude::*;
use crate::article::{Article, ArticleStatus};
use crate::counting::{lemma_count_push, lemma_count_remove};
use crate::engagement::Clap;
use crate::lifecycle::slug_base_of;
use crate::matching::{contains_ci, embeds_from, words_of};
use crate::relevance::{article_relevance, tier_any};
use crate::slug::{candidate, slug_ok, lemma_candidate_ok, lemma_slug_of_ok};
use crate::store::{Store, claps_for, clap_on, bookmarks_for, find_article_spec,
    lemma_find_article_spec_at};
use crate::user::User;

verus! {

/// Every slug the allocator can mint for a title is non-empty and
/// matches the slug grammar: the base is the title's derived slug or
/// the draft fallback, and any collision suffix preserves the shape.
pub proof fn lemma_minted_slug_ok(title: Seq<char>, k: nat)
    ensures
        slug_ok(candidate(slug_base_of(title, "draft"@), k)),
{
    lemma_slug_of_ok(title);
    crate::lifecycle::lemma_draft_slug_ok();
    lemma_candidate_ok(slug_base_of(title, "draft"@), k);
}

/// Toggling a clap twice in succession returns the article's clap count
/// and the caller's personal state to what they were before the first
/// call; one call moves the count by exactly one.
pub proof fn lemma_clap_toggle_undoes(
    s0: Store,
    s1: Store,
    s2: Store,
    article_id: u64,
    user_id: u64,
    now1: i64,
    now2: i64,
    t1: u64,
    pers1: i32,
    c1: bool,
    t2: u64,
    pers2: i32,
    c2: bool,
)
    requires
        Store::clap_toggle_rel(s0, s1, article_id, user_id, now1, t1, pers1, c1),
        Store::clap_toggle_rel(s1, s2, article_id, user_id, now2, t2, pers2, c2),
    ensures
        c2 == !c1,
        s2.user_clapped(user_id, article_id) == s0.user_clapped(user_id, article_id),
        claps_for(s2.claps@, article_id) == claps_for(s0.claps@, article_id),
        t1 as int == claps_for(s0.claps@, article_id) + (if c1 {
            1int
        } else {
            -1int
        }),
{
    if c1 {
        let row = Clap {
            id: s0.next_id,
            user_id,
            article_id,
            clap_count: 1,
            created_at: now1,
            updated_at: now1,
        };
        lemma_count_push(s0.claps@, clap_on(article_id), row);
        let j = choose|j: int|
            0 <= j < s1.claps@.len() && (#[trigger] s1.claps@[j]).user_id == user_id
                && s1.claps@[j].article_id == article_id && s2.claps@ == s1.claps@.remove(j);
        lemma_count_remove(s1.claps@, clap_on(article_id), j);
    } else {
        let j = choose|j: int|
            0 <= j < s0.claps@.len() && (#[trigger] s0.claps@[j]).user_id == user_id
                && s0.claps@[j].article_id == article_id && s1.claps@ == s0.claps@.remove(j);
        lemma_count_remove(s0.claps@, clap_on(article_id), j);
        let row = Clap {
            id: s1.next_id,
            user_id,
            article_id,
            clap_count: 1,
            created_at: now2,
            updated_at: now2,
        };
        lemma_count_push(s1.claps@, clap_on(article_id), row);
    }
}

/// In every well-formed store, each bookmark counter equals the number
/// of its bookmark rows, so it can never fall below zero, however many
/// redundant unbookmark calls were made: every operation requires and
/// re-establishes well-formedness.
pub proof fn lemma_bookmark_counter_consistent(s: Store)
    requires
        s.wf(),
    ensures
        forall|i: int|
            0 <= i < s.articles@.len() ==> (#[trigger] s.articles@[i]).bookmarks_count as nat
                == bookmarks_for(s.bookmarks@, s.articles@[i].id) && s.articles@[i].bookmarks_count
                >= 0,
{
}

/// One accepted auto-save on an existing draft: the row keeps its id,
/// its version rises by exactly one, and no other row moves.
pub open spec fn auto_save_bumped(pre: Store, post: Store, article_id: u64) -> bool {
    exists|i: int|
        {
            &&& 0 <= i < pre.articles@.len()
            &&& (#[trigger] pre.articles@[i]).id == article_id
            &&& post.articles@.len() == pre.articles@.len()
            &&& post.articles@[i].id == article_id
            &&& post.articles@[i].auto_save_version == pre.articles@[i].auto_save_version + 1
            &&& forall|j: int|
                0 <= j < pre.articles@.len() && j != i ==> #[trigger] post.articles@[j]
                    == pre.articles@[j]
        }
}

/// The auto-save version after a run of accepted auto-saves on one
/// draft is the starting version plus the number of saves.  A draft is
/// created with version one, so after N saves it reads 1 + N.
pub proof fn lemma_auto_save_version_chain(states: Seq<Store>, article_id: u64)
    requires
        states.len() >= 1,
        forall|k: int| 0 <= k < states.len() ==> (#[trigger] states[k]).wf(),
        forall|k: int|
            0 <= k < states.len() - 1 ==> auto_save_bumped(
                #[trigger] states[k],
                states[k + 1],
                article_id,
            ),
        find_article_spec(states[0].articles@, article_id) is Some,
    ensures
        find_article_spec(states.last().articles@, article_id) is Some,
        find_article_spec(states.last().articles@, article_id).unwrap().auto_save_version as int
            == find_article_spec(states[0].articles@, article_id).unwrap().auto_save_version + (
        states.len() - 1),
    decreases states.len(),
{
    if states.len() > 1 {
        let pre = states[0];
        let post = states[1];
        assert(auto_save_bumped(pre, post, article_id));
        let i = choose|i: int|
            {
                &&& 0 <= i < pre.articles@.len()
                &&& (#[trigger] pre.articles@[i]).id == article_id
                &&& post.articles@.len() == pre.articles@.len()
                &&& post.articles@[i].id == article_id
                &&& post.articles@[i].auto_save_version == pre.articles@[i].auto_save_version + 1
                &&& forall|j: int|
                    0 <= j < pre.articles@.len() && j != i ==> #[trigger] post.articles@[j]
                        == pre.articles@[j]
            };
        lemma_find_article_spec_at(pre.articles@, i);
        lemma_find_article_spec_at(post.articles@, i);
        let rest = states.drop_first();
        assert(forall|k: int|
            0 <= k < rest.len() ==> #[trigger] rest[k] == states[k + 1]);
        assert forall|k: int| 0 <= k < rest.len() - 1 implies auto_save_bumped(
            #[trigger] rest[k],
            rest[k + 1],
            article_id,
        ) by {
            assert(auto_save_bumped(states[k + 1], states[k + 2], article_id));
        }
        assert(rest[0] == post);
        lemma_auto_save_version_chain(rest, article_id);
        assert(rest.last() == states.last());
    }
}

/// One successful publish, as the contract pins it.
pub open spec fn publish_applied(
    pre: Store,
    post: Store,
    article_id: u64,
    author_id: u64,
    now: i64,
) -> bool {
    exists|i: int|
        0 <= i < pre.articles@.len() && (#[trigger] pre.articles@[i]).id == article_id
            && pre.articles@[i].author_id == author_id && pre.articles@[i].status is Draft
            && post.articles@ == pre.articles@.update(
            i,
            Article {
                status: ArticleStatus::Published,
                published_at: Some(now),
                updated_at: now,
                ..pre.articles@[i]
            },
        )
}

/// Publication is one-way: once a publish has succeeded, no caller can
/// publish the article again, and the contract of a failed publish
/// leaves the store, `published_at` included, untouched.
pub proof fn lemma_publish_is_one_way(
    pre: Store,
    post: Store,
    article_id: u64,
    author_id: u64,
    now: i64,
)
    requires
        pre.wf(),
        publish_applied(pre, post, article_id, author_id, now),
    ensures
        forall|u: u64| !post.can_publish(article_id, u),
{
    let i = choose|i: int|
        0 <= i < pre.articles@.len() && (#[trigger] pre.articles@[i]).id == article_id
            && pre.articles@[i].author_id == author_id && pre.articles@[i].status is Draft
            && post.articles@ == pre.articles@.update(
            i,
            Article {
                status: ArticleStatus::Published,
                published_at: Some(now),
                updated_at: now,
                ..pre.articles@[i]
            },
        );
    assert forall|u: u64| !post.can_publish(article_id, u) by {
        if post.can_publish(article_id, u) {
            let j = choose|j: int|
                0 <= j < post.articles@.len() && #[trigger] post.articles@[j].id == article_id
                    && post.articles@[j].author_id == u && post.articles@[j].status is Draft;
            if j != i {
                assert(post.articles@[j] == pre.articles@[j]);
                if i < j {
                    assert(pre.articles@[i].id != pre.articles@[j].id);
                } else {
                    assert(pre.articles@[j].id != pre.articles@[i].id);
                }
            }
        }
    }
}

/// A title substring hit outranks any article whose hits are confined
/// to the content tiers: the full title weight alone exceeds everything
/// the content tiers and the in-order content bonus can add up to.
pub proof fn lemma_title_hit_outranks(q: Seq<char>, a1: Article, u1: User, a2: Article, u2: User)
    requires
        contains_ci(a1.title@, q),
        !tier_any(a2.title@, q),
        match a2.subtitle {
            Some(s) => !tier_any(s@, q),
            None => true,
        },
        !contains_ci(u2.username@, q),
        match u2.display_name {
            Some(d) => !contains_ci(d@, q),
            None => true,
        },
        match u2.bio {
            Some(b) => !contains_ci(b@, q),
            None => true,
        },
        !embeds_from(a2.title@, words_of(q), 0),
    ensures
        article_relevance(q, a1, u1) >= 15,
        article_relevance(q, a2, u2) <= 14,
        article_relevance(q, a1, u1) > article_relevance(q, a2, u2),
{
}

/// Ownership gates every mutating transition: for an article whose
/// author is not the caller, neither publish, nor delete, nor update
/// can succeed, whatever the article's state.
pub proof fn lemma_ownership_enforced(s: Store, article_id: u64, caller: u64)
    requires
        forall|i: int|
            0 <= i < s.articles@.len() && (#[trigger] s.articles@[i]).id == article_id
                ==> s.articles@[i].author_id != caller,
    ensures
        !s.can_publish(article_id, caller),
        !s.owns_article(article_id, caller),
        !s.can_auto_save(article_id, caller),
{
}

} // verus!
