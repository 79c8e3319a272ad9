//! User rows, credentials and the follow graph.  Counter writes follow
//! the ledger's discipline: an edge mutation moves the two follow
//! counters only when a row was really inserted or removed.

use vstd::prelude::*;
use vstd::string::{StringExecFns, StrSliceExecFns};
use crate::counting::{count_matching, lemma_count_push, lemma_count_remove, lemma_count_zero,
    lemma_count_take_succ, lemma_count_take_all, lemma_count_le_len};
use crate::ranking::{Ranked, sort_ranked, sorted_desc, lemma_multiset_elements};
use crate::store::{Store, StoreError, follow_of, follow_by, followers_for, following_for,
    count_published_by, published_by};
use crate::strutil::append_one;
use crate::user::{Credential, CreateUserRequest, User, UserFollow, UserType, UserResponse};

verus! {

impl Store {
    /// Whether some stored user carries the given mail address or name.
    pub open spec fn user_name_or_email_taken(self, email: Seq<char>, username: Seq<char>) -> bool {
        exists|i: int|
            0 <= i < self.users@.len() && ((#[trigger] self.users@[i]).email@ == email
                || self.users@[i].username@ == username)
    }

    fn user_name_or_email_taken_exec(&self, email: &String, username: &String) -> (r: bool)
        ensures
            r == self.user_name_or_email_taken(email@, username@),
    {
        let n = self.users.len();
        let mut i: usize = 0;
        while i < n
            invariant
                n == self.users@.len(),
                0 <= i <= n,
                forall|m: int|
                    0 <= m < i ==> !((#[trigger] self.users@[m]).email@ == email@
                        || self.users@[m].username@ == username@),
            decreases n - i,
        {
            if self.users[i].email == *email || self.users[i].username == *username {
                return true;
            }
            i = i + 1;
        }
        false
    }

    /// Registers a user.  The caller supplies the already-hashed
    /// password; hashing itself is the identity collaborator's work.
    /// A taken mail address or username is refused.
    pub fn register_user(&mut self, request: CreateUserRequest, password_hash: String, now: i64) -> (r:
        Result<u64, StoreError>)
        requires
            old(self).wf(),
            old(self).next_id < u64::MAX,
        ensures
            final(self).wf(),
            r is Ok <==> !old(self).user_name_or_email_taken(request.email@, request.username@),
            match r {
                Ok(id) => {
                    &&& id == old(self).next_id
                    &&& final(self).next_id == old(self).next_id + 1
                    &&& final(self).articles@ == old(self).articles@
                    &&& final(self).claps@ == old(self).claps@
                    &&& final(self).bookmarks@ == old(self).bookmarks@
                    &&& final(self).comments@ == old(self).comments@
                    &&& final(self).follows@ == old(self).follows@
                    &&& exists|u: User|
                        {
                            &&& (#[trigger] u.user_id) == id
                            &&& final(self).users@ == old(self).users@.push(u)
                            &&& u.email == request.email
                            &&& u.username == request.username
                            &&& u.display_name == request.display_name
                            &&& u.bio is None
                            &&& u.avatar_url is None
                            &&& u.user_type is Free
                            &&& u.is_verified == false
                            &&& u.followers_count == 0
                            &&& u.following_count == 0
                            &&& u.created_at == now
                            &&& u.updated_at == now
                        }
                    &&& exists|c: Credential|
                        (#[trigger] c.user_id) == id && c.password_hash == password_hash && final(self).credentials@ == old(self).credentials@.push(c)
                },
                Err(e) => e is Conflict && *final(self) == *old(self),
            },
    {
        if self.user_name_or_email_taken_exec(&request.email, &request.username) {
            return Err(StoreError::Conflict);
        }
        let id = self.next_id;
        let user = User {
            user_id: id,
            email: request.email,
            username: request.username,
            display_name: request.display_name,
            bio: None,
            avatar_url: None,
            user_type: UserType::Free,
            is_verified: false,
            followers_count: 0,
            following_count: 0,
            created_at: now,
            updated_at: now,
        };
        let cred = Credential { user_id: id, password_hash };
        let ghost gu = user;
        let ghost gc = cred;
        self.users.push(user);
        self.credentials.push(cred);
        self.next_id = self.next_id + 1;
        proof {
            let pre = *old(self);
            let post = *self;
            assert forall|a: int, b: int|
                #![trigger post.users@[a], post.users@[b]]
                0 <= a < b < post.users@.len() implies post.users@[a].user_id
                != post.users@[b].user_id && post.users@[a].username@ != post.users@[b].username@
                && post.users@[a].email@ != post.users@[b].email@ by {
                if b == post.users@.len() - 1 {
                    assert(post.users@[a] == pre.users@[a]);
                    if pre.users@[a].email@ == gu.email@ || pre.users@[a].username@
                        == gu.username@ {
                        assert(pre.user_name_or_email_taken(gu.email@, gu.username@));
                    }
                } else {
                    assert(post.users@[a] == pre.users@[a]);
                    assert(post.users@[b] == pre.users@[b]);
                }
            }
            assert forall|k: int| 0 <= k < post.users@.len() implies {
                let u = #[trigger] post.users@[k];
                u.followers_count as nat == followers_for(post.follows@, u.user_id)
                    && u.following_count as nat == following_for(post.follows@, u.user_id)
            } by {
                if k < post.users@.len() - 1 {
                    assert(post.users@[k] == pre.users@[k]);
                } else {
                    assert(post.users@[k] == gu);
                    lemma_count_zero(post.follows@, follow_of(gu.user_id));
                    lemma_count_zero(post.follows@, follow_by(gu.user_id));
                    assert forall|q: int| 0 <= q < post.follows@.len() implies !(follow_of(
                        gu.user_id,
                    )(#[trigger] post.follows@[q])) && !(follow_by(gu.user_id)(
                        post.follows@[q],
                    )) by {
                        assert(post.follows@[q].follower_id < pre.next_id);
                        assert(post.follows@[q].following_id < pre.next_id);
                    }
                }
            }
            assert forall|a: int, b: int|
                #![trigger post.credentials@[a], post.credentials@[b]]
                0 <= a < b < post.credentials@.len() implies post.credentials@[a].user_id
                != post.credentials@[b].user_id by {
                if b == post.credentials@.len() - 1 {
                    assert(post.credentials@[a] == pre.credentials@[a]);
                } else {
                    assert(post.credentials@[a] == pre.credentials@[a]);
                    assert(post.credentials@[b] == pre.credentials@[b]);
                }
            }
            assert(gu.user_id == id);
            assert(gc.user_id == id);
            assert(post.users@ == pre.users@.push(gu));
            assert(post.credentials@ == pre.credentials@.push(gc));
        }
        Ok(id)
    }

    /// The user a login identifier names: by mail address when it holds
    /// an `@`, by username otherwise.
    pub open spec fn login_target(self, identifier: Seq<char>) -> spec_fn(User) -> bool {
        if exists|i: int| 0 <= i < identifier.len() && identifier[i] == '@' {
            |u: User| u.email@ == identifier
        } else {
            |u: User| u.username@ == identifier
        }
    }

    /// Looks a user up for login, as the identity collaborator does
    /// before verifying the password.
    pub fn find_user_for_login(&self, identifier: &String) -> (r: Option<usize>)
        ensures
            match r {
                Some(i) => i < self.users@.len() && self.login_target(identifier@)(
                    self.users@[i as int],
                ),
                None => forall|m: int|
                    0 <= m < self.users@.len() ==> !(self.login_target(identifier@)(
                        #[trigger] self.users@[m],
                    )),
            },
    {
        let is_email = contains_at(identifier.as_str());
        let n = self.users.len();
        let mut i: usize = 0;
        while i < n
            invariant
                n == self.users@.len(),
                is_email == exists|q: int|
                    0 <= q < identifier@.len() && identifier@[q] == '@',
                0 <= i <= n,
                forall|m: int|
                    0 <= m < i ==> !(self.login_target(identifier@)(#[trigger] self.users@[m])),
            decreases n - i,
        {
            let hit = if is_email {
                self.users[i].email == *identifier
            } else {
                self.users[i].username == *identifier
            };
            if hit {
                return Some(i);
            }
            i = i + 1;
        }
        None
    }

    /// The stored password hash of a user, for the identity collaborator
    /// to verify against.
    pub fn get_password_hash(&self, user_id: u64) -> (r: Option<String>)
        ensures
            match r {
                Some(h) => exists|i: int|
                    0 <= i < self.credentials@.len() && (#[trigger] self.credentials@[i]).user_id
                        == user_id && h@ == self.credentials@[i].password_hash@,
                None => forall|i: int|
                    0 <= i < self.credentials@.len() ==> (#[trigger] self.credentials@[i]).user_id
                        != user_id,
            },
    {
        let n = self.credentials.len();
        let mut i: usize = 0;
        while i < n
            invariant
                n == self.credentials@.len(),
                0 <= i <= n,
                forall|m: int|
                    0 <= m < i ==> (#[trigger] self.credentials@[m]).user_id != user_id,
            decreases n - i,
        {
            if self.credentials[i].user_id == user_id {
                return Some(self.credentials[i].password_hash.clone());
            }
            i = i + 1;
        }
        None
    }

    /// Whether `follower_id` currently follows `following_id`.
    pub fn is_following(&self, follower_id: u64, following_id: u64) -> (r: bool)
        ensures
            r == self.follows_user(follower_id, following_id),
    {
        match self.find_follow(follower_id, following_id) {
            Some(_) => true,
            None => false,
        }
    }

    fn find_follow(&self, follower_id: u64, following_id: u64) -> (r: Option<usize>)
        ensures
            match r {
                Some(j) => j < self.follows@.len() && self.follows@[j as int].follower_id
                    == follower_id && self.follows@[j as int].following_id == following_id,
                None => !self.follows_user(follower_id, following_id),
            },
    {
        let n = self.follows.len();
        let mut j: usize = 0;
        while j < n
            invariant
                n == self.follows@.len(),
                0 <= j <= n,
                forall|m: int|
                    0 <= m < j ==> !((#[trigger] self.follows@[m]).follower_id == follower_id
                        && self.follows@[m].following_id == following_id),
            decreases n - j,
        {
            if self.follows[j].follower_id == follower_id && self.follows[j].following_id
                == following_id {
                return Some(j);
            }
            j = j + 1;
        }
        None
    }

    /// Adds a follow edge.  Both users must exist; an existing edge is a
    /// no-op, and only a real insert moves the two counters.
    pub fn follow_user(&mut self, follower_id: u64, following_id: u64, now: i64) -> (r: Result<
        bool,
        StoreError,
    >)
        requires
            old(self).wf(),
            old(self).follows@.len() < u64::MAX - 1,
        ensures
            final(self).wf(),
            r is Ok <==> old(self).has_user(follower_id) && old(self).has_user(following_id),
            match r {
                Ok(inserted) => {
                    &&& inserted == !old(self).follows_user(follower_id, following_id)
                    &&& final(self).follows_user(follower_id, following_id)
                    &&& (!inserted ==> *final(self) == *old(self))
                    &&& (inserted ==> {
                        &&& final(self).follows@ == old(self).follows@.push(
                            UserFollow { follower_id, following_id, created_at: now },
                        )
                        &&& final(self).next_id == old(self).next_id
                        &&& final(self).articles@ == old(self).articles@
                        &&& final(self).claps@ == old(self).claps@
                        &&& final(self).bookmarks@ == old(self).bookmarks@
                        &&& final(self).comments@ == old(self).comments@
                        &&& final(self).credentials@ == old(self).credentials@
                        &&& final(self).users@.len() == old(self).users@.len()
                        &&& forall|m: int|
                            0 <= m < old(self).users@.len() ==> {
                                let pre_u = old(self).users@[m];
                                let post_u = #[trigger] final(self).users@[m];
                                &&& post_u.user_id == pre_u.user_id
                                &&& post_u.username == pre_u.username
                                &&& post_u.followers_count == pre_u.followers_count + (
                                if pre_u.user_id == following_id {
                                    1int
                                } else {
                                    0int
                                })
                                &&& post_u.following_count == pre_u.following_count + (
                                if pre_u.user_id == follower_id {
                                    1int
                                } else {
                                    0int
                                })
                            }
                    })
                },
                Err(e) => e is NotFound && *final(self) == *old(self),
            },
    {
        let fidx = match self.find_user(follower_id) {
            None => {
                return Err(StoreError::NotFound);
            },
            Some(i) => i,
        };
        let gidx = match self.find_user(following_id) {
            None => {
                return Err(StoreError::NotFound);
            },
            Some(i) => i,
        };
        if self.find_follow(follower_id, following_id).is_some() {
            return Ok(false);
        }
        let edge = UserFollow { follower_id, following_id, created_at: now };
        self.follows.push(edge);
        proof {
            lemma_count_le_len(old(self).follows@, follow_by(follower_id));
            lemma_count_le_len(old(self).follows@, follow_of(following_id));
        }
        let mut fu = self.users.remove(fidx);
        fu.following_count = fu.following_count + 1;
        if follower_id == following_id {
            fu.followers_count = fu.followers_count + 1;
            self.users.insert(fidx, fu);
        } else {
            self.users.insert(fidx, fu);
            let mut gu = self.users.remove(gidx);
            gu.followers_count = gu.followers_count + 1;
            self.users.insert(gidx, gu);
        }
        proof {
            let pre = *old(self);
            let post = *self;
            assert(post.follows@ == pre.follows@.push(edge));
            assert forall|m: int| 0 <= m < post.users@.len() implies {
                let pre_u = pre.users@[m];
                let post_u = #[trigger] post.users@[m];
                &&& post_u.user_id == pre_u.user_id
                &&& post_u.username == pre_u.username
                &&& post_u.email == pre_u.email
                &&& post_u.followers_count == pre_u.followers_count + (
                if pre_u.user_id == following_id {
                    1int
                } else {
                    0int
                })
                &&& post_u.following_count == pre_u.following_count + (
                if pre_u.user_id == follower_id {
                    1int
                } else {
                    0int
                })
            } by {
                if m != fidx && m != gidx {
                    assert(post.users@[m] == pre.users@[m]);
                    if pre.users@[m].user_id == follower_id {
                        assert(false);
                    }
                    if pre.users@[m].user_id == following_id {
                        assert(false);
                    }
                }
            }
            lemma_wf_after_follow_insert(pre, post, follower_id, following_id, now);
        }
        Ok(true)
    }

    /// Removes a follow edge; the counters fall only when a row was
    /// really removed.
    pub fn unfollow_user(&mut self, follower_id: u64, following_id: u64) -> (r: bool)
        requires
            old(self).wf(),
        ensures
            final(self).wf(),
            r == old(self).follows_user(follower_id, following_id),
            !r ==> *final(self) == *old(self),
            r ==> {
                &&& !final(self).follows_user(follower_id, following_id)
                &&& exists|j: int|
                    0 <= j < old(self).follows@.len() && (#[trigger] old(self).follows@[j]).follower_id == follower_id && old(self).follows@[j].following_id
                        == following_id && final(self).follows@ == old(self).follows@.remove(j)
                &&& final(self).next_id == old(self).next_id
                &&& final(self).articles@ == old(self).articles@
                &&& final(self).claps@ == old(self).claps@
                &&& final(self).bookmarks@ == old(self).bookmarks@
                &&& final(self).comments@ == old(self).comments@
                &&& final(self).credentials@ == old(self).credentials@
                &&& final(self).users@.len() == old(self).users@.len()
                &&& forall|m: int|
                    0 <= m < old(self).users@.len() ==> {
                        let pre_u = old(self).users@[m];
                        let post_u = #[trigger] final(self).users@[m];
                        &&& post_u.user_id == pre_u.user_id
                        &&& post_u.username == pre_u.username
                        &&& post_u.followers_count == pre_u.followers_count - (
                        if pre_u.user_id == following_id {
                            1int
                        } else {
                            0int
                        })
                        &&& post_u.following_count == pre_u.following_count - (
                        if pre_u.user_id == follower_id {
                            1int
                        } else {
                            0int
                        })
                    }
            },
    {
        let found = match self.find_follow(follower_id, following_id) {
            None => {
                return false;
            },
            Some(j) => j,
        };
        self.follows.remove(found);
        proof {
            let pre = *old(self);
            lemma_count_remove(pre.follows@, follow_by(follower_id), found as int);
            lemma_count_remove(pre.follows@, follow_of(following_id), found as int);
            assert forall|a: int, b: int|
                #![trigger self.follows@[a], self.follows@[b]]
                0 <= a < b < self.follows@.len() implies !(self.follows@[a].follower_id
                == self.follows@[b].follower_id && self.follows@[a].following_id
                == self.follows@[b].following_id) by {
                let a0 = if a < found {
                    a
                } else {
                    a + 1
                };
                let b0 = if b < found {
                    b
                } else {
                    b + 1
                };
                assert(self.follows@[a] == pre.follows@[a0]);
                assert(self.follows@[b] == pre.follows@[b0]);
            }
            assert forall|m: int|
                0 <= m < self.follows@.len() implies !((#[trigger] self.follows@[m]).follower_id
                == follower_id && self.follows@[m].following_id == following_id) by {
                let m0 = if m < found {
                    m
                } else {
                    m + 1
                };
                assert(self.follows@[m] == pre.follows@[m0]);
                if m0 != found && pre.follows@[m0].follower_id == follower_id
                    && pre.follows@[m0].following_id == following_id {
                    assert(false);
                }
            }
        }
        let fidx = self.find_user(follower_id);
        if let Some(fi) = fidx {
            let mut fu = self.users.remove(fi);
            proof {
                let pre = *old(self);
                assert(pre.users@[fi as int].following_count as nat == following_for(
                    pre.follows@,
                    follower_id,
                ));
            }
            fu.following_count = fu.following_count - 1;
            if follower_id == following_id {
                fu.followers_count = fu.followers_count - 1;
            }
            self.users.insert(fi, fu);
        }
        if follower_id != following_id {
            let gidx = self.find_user(following_id);
            if let Some(gi) = gidx {
                let mut gu = self.users.remove(gi);
                gu.followers_count = gu.followers_count - 1;
                self.users.insert(gi, gu);
            }
        }
        proof {
            let pre = *old(self);
            let post = *self;
            assert forall|m: int| 0 <= m < post.users@.len() implies {
                let pre_u = pre.users@[m];
                let post_u = #[trigger] post.users@[m];
                &&& post_u.user_id == pre_u.user_id
                &&& post_u.username == pre_u.username
                &&& post_u.email == pre_u.email
                &&& post_u.followers_count == pre_u.followers_count - (
                if pre_u.user_id == following_id {
                    1int
                } else {
                    0int
                })
                &&& post_u.following_count == pre_u.following_count - (
                if pre_u.user_id == follower_id {
                    1int
                } else {
                    0int
                })
            } by {
                if pre.users@[m].user_id == follower_id || pre.users@[m].user_id == following_id {
                }
            }
            lemma_wf_after_follow_remove(pre, post, found as int, follower_id, following_id);
        }
        true
    }
}

fn contains_at(s: &str) -> (r: bool)
    ensures
        r == exists|i: int| 0 <= i < s@.len() && s@[i] == '@',
{
    let n = s.unicode_len();
    let mut i: usize = 0;
    while i < n
        invariant
            n == s@.len(),
            0 <= i <= n,
            forall|m: int| 0 <= m < i ==> s@[m] != '@',
        decreases n - i,
    {
        if s.get_char(i) == '@' {
            return true;
        }
        i = i + 1;
    }
    false
}

/// The invariant survives inserting a fresh follow edge with its two
/// counter bumps.
proof fn lemma_wf_after_follow_insert(
    pre: Store,
    post: Store,
    follower_id: u64,
    following_id: u64,
    now: i64,
)
    requires
        pre.wf(),
        pre.has_user(follower_id),
        pre.has_user(following_id),
        !pre.follows_user(follower_id, following_id),
        post.next_id == pre.next_id,
        post.articles@ == pre.articles@,
        post.claps@ == pre.claps@,
        post.bookmarks@ == pre.bookmarks@,
        post.comments@ == pre.comments@,
        post.credentials@ == pre.credentials@,
        post.follows@ == pre.follows@.push(
            UserFollow { follower_id, following_id, created_at: now },
        ),
        post.users@.len() == pre.users@.len(),
        forall|m: int|
            0 <= m < pre.users@.len() ==> {
                let pre_u = pre.users@[m];
                let post_u = #[trigger] post.users@[m];
                &&& post_u.user_id == pre_u.user_id
                &&& post_u.username == pre_u.username
                &&& post_u.email == pre_u.email
                &&& post_u.display_name == pre_u.display_name
                &&& post_u.followers_count == pre_u.followers_count + (
                if pre_u.user_id == following_id {
                    1int
                } else {
                    0int
                })
                &&& post_u.following_count == pre_u.following_count + (
                if pre_u.user_id == follower_id {
                    1int
                } else {
                    0int
                })
            },
    ensures
        post.wf(),
{
    let edge = UserFollow { follower_id, following_id, created_at: now };
    assert forall|k: int| 0 <= k < post.users@.len() implies {
        let u = #[trigger] post.users@[k];
        u.followers_count as nat == followers_for(post.follows@, u.user_id)
            && u.following_count as nat == following_for(post.follows@, u.user_id)
    } by {
        lemma_count_push(pre.follows@, follow_of(post.users@[k].user_id), edge);
        lemma_count_push(pre.follows@, follow_by(post.users@[k].user_id), edge);
        assert(pre.users@[k].followers_count as nat == followers_for(
            pre.follows@,
            pre.users@[k].user_id,
        ));
    }
    assert forall|a: int, b: int|
        #![trigger post.follows@[a], post.follows@[b]]
        0 <= a < b < post.follows@.len() implies !(post.follows@[a].follower_id
        == post.follows@[b].follower_id && post.follows@[a].following_id
        == post.follows@[b].following_id) by {
        if b == post.follows@.len() - 1 {
            assert(post.follows@[a] == pre.follows@[a]);
            if pre.follows@[a].follower_id == follower_id && pre.follows@[a].following_id
                == following_id {
                assert(pre.follows_user(follower_id, following_id));
            }
        } else {
            assert(post.follows@[a] == pre.follows@[a]);
            assert(post.follows@[b] == pre.follows@[b]);
        }
    }
    assert forall|m: int|
        0 <= m < post.follows@.len() implies (#[trigger] post.follows@[m]).follower_id
        < post.next_id && post.follows@[m].following_id < post.next_id by {
        if m < post.follows@.len() - 1 {
            assert(post.follows@[m] == pre.follows@[m]);
        } else {
            assert(post.follows@[m] == edge);
            let wf_i = choose|i: int|
                0 <= i < pre.users@.len() && (#[trigger] pre.users@[i]).user_id == follower_id;
            let wf_j = choose|i: int|
                0 <= i < pre.users@.len() && (#[trigger] pre.users@[i]).user_id == following_id;
            assert(pre.users@[wf_i].user_id < pre.next_id);
            assert(pre.users@[wf_j].user_id < pre.next_id);
        }
    }
    assert forall|a: int, b: int|
        #![trigger post.users@[a], post.users@[b]]
        0 <= a < b < post.users@.len() implies post.users@[a].user_id != post.users@[b].user_id
        && post.users@[a].username@ != post.users@[b].username@ && post.users@[a].email@
        != post.users@[b].email@ by {
        assert(pre.users@[a].user_id != pre.users@[b].user_id);
    }
    assert forall|m: int|
        0 <= m < post.users@.len() implies (#[trigger] post.users@[m]).user_id < post.next_id by {
        assert(post.users@[m].user_id == pre.users@[m].user_id);
    }
}

/// The invariant survives removing one follow edge with its two counter
/// decrements.
proof fn lemma_wf_after_follow_remove(
    pre: Store,
    post: Store,
    j: int,
    follower_id: u64,
    following_id: u64,
)
    requires
        pre.wf(),
        0 <= j < pre.follows@.len(),
        pre.follows@[j].follower_id == follower_id,
        pre.follows@[j].following_id == following_id,
        post.next_id == pre.next_id,
        post.articles@ == pre.articles@,
        post.claps@ == pre.claps@,
        post.bookmarks@ == pre.bookmarks@,
        post.comments@ == pre.comments@,
        post.credentials@ == pre.credentials@,
        post.follows@ == pre.follows@.remove(j),
        post.users@.len() == pre.users@.len(),
        forall|m: int|
            0 <= m < pre.users@.len() ==> {
                let pre_u = pre.users@[m];
                let post_u = #[trigger] post.users@[m];
                &&& post_u.user_id == pre_u.user_id
                &&& post_u.username == pre_u.username
                &&& post_u.email == pre_u.email
                &&& post_u.followers_count == pre_u.followers_count - (
                if pre_u.user_id == following_id {
                    1int
                } else {
                    0int
                })
                &&& post_u.following_count == pre_u.following_count - (
                if pre_u.user_id == follower_id {
                    1int
                } else {
                    0int
                })
            },
    ensures
        post.wf(),
{
    assert forall|k: int| 0 <= k < post.users@.len() implies {
        let u = #[trigger] post.users@[k];
        u.followers_count as nat == followers_for(post.follows@, u.user_id)
            && u.following_count as nat == following_for(post.follows@, u.user_id)
    } by {
        lemma_count_remove(pre.follows@, follow_of(post.users@[k].user_id), j);
        lemma_count_remove(pre.follows@, follow_by(post.users@[k].user_id), j);
        assert(pre.users@[k].followers_count as nat == followers_for(
            pre.follows@,
            pre.users@[k].user_id,
        ));
    }
    assert forall|a: int, b: int|
        #![trigger post.follows@[a], post.follows@[b]]
        0 <= a < b < post.follows@.len() implies !(post.follows@[a].follower_id
        == post.follows@[b].follower_id && post.follows@[a].following_id
        == post.follows@[b].following_id) by {
        let a0 = if a < j {
            a
        } else {
            a + 1
        };
        let b0 = if b < j {
            b
        } else {
            b + 1
        };
        assert(post.follows@[a] == pre.follows@[a0]);
        assert(post.follows@[b] == pre.follows@[b0]);
    }
    assert forall|m: int|
        0 <= m < post.follows@.len() implies (#[trigger] post.follows@[m]).follower_id
        < post.next_id && post.follows@[m].following_id < post.next_id by {
        let m0 = if m < j {
            m
        } else {
            m + 1
        };
        assert(post.follows@[m] == pre.follows@[m0]);
    }
    assert forall|a: int, b: int|
        #![trigger post.users@[a], post.users@[b]]
        0 <= a < b < post.users@.len() implies post.users@[a].user_id != post.users@[b].user_id
        && post.users@[a].username@ != post.users@[b].username@ && post.users@[a].email@
        != post.users@[b].email@ by {
        assert(pre.users@[a].user_id != pre.users@[b].user_id);
    }
    assert forall|m: int|
        0 <= m < post.users@.len() implies (#[trigger] post.users@[m]).user_id < post.next_id by {
        assert(post.users@[m].user_id == pre.users@[m].user_id);
    }
}


/// First stored user carrying the given username, if any.
pub open spec fn find_user_by_name_spec(users: Seq<User>, username: Seq<char>) -> Option<User>
    decreases users.len(),
{
    if users.len() == 0 {
        None
    } else if users[0].username@ == username {
        Some(users[0])
    } else {
        find_user_by_name_spec(users.drop_first(), username)
    }
}

/// Whether a stored avatar path is served from the local uploads
/// directory and needs the asset base prepended.
pub open spec fn is_uploads_path(url: Seq<char>) -> bool {
    url.len() >= 8 && url.subrange(0, 8) == "uploads/"@
}

impl Store {
    pub(crate) fn find_user_by_name(&self, username: &String) -> (r: Option<usize>)
        ensures
            match r {
                Some(i) => i < self.users@.len() && self.users@[i as int].username@ == username@
                    && (forall|m: int|
                    0 <= m < i ==> (#[trigger] self.users@[m]).username@ != username@),
                None => forall|m: int|
                    0 <= m < self.users@.len() ==> (#[trigger] self.users@[m]).username@
                        != username@,
            },
    {
        let n = self.users.len();
        let mut i: usize = 0;
        while i < n
            invariant
                n == self.users@.len(),
                0 <= i <= n,
                forall|m: int| 0 <= m < i ==> (#[trigger] self.users@[m]).username@ != username@,
            decreases n - i,
        {
            if self.users[i].username == *username {
                return Some(i);
            }
            i = i + 1;
        }
        None
    }

    pub(crate) fn count_published_by_pub(&self, author_id: u64) -> (r: u64)
        ensures
            r as nat == count_published_by(self.articles@, author_id),
    {
        let n = self.articles.len();
        let mut count: usize = 0;
        let mut j: usize = 0;
        while j < n
            invariant
                n == self.articles@.len(),
                0 <= j <= n,
                count <= j,
                count as nat == crate::counting::count_matching(
                    self.articles@.take(j as int),
                    published_by(author_id),
                ),
            decreases n - j,
        {
            proof {
                lemma_count_take_succ(self.articles@, published_by(author_id), j as int);
            }
            let a = &self.articles[j];
            if a.author_id == author_id && matches!(
                a.status,
                crate::article::ArticleStatus::Published,
            ) {
                count = count + 1;
            }
            j = j + 1;
        }
        proof {
            lemma_count_take_all(self.articles@, published_by(author_id));
        }
        count as u64
    }

    /// The public profile of a user: counts of published articles, the
    /// membership flag, and an avatar path rooted under `asset_base`
    /// when it is a local upload.  The mail address is not exposed.
    pub fn get_user_profile(&self, username: &String, asset_base: &str) -> (r: Option<
        UserResponse,
    >)
        ensures
            r is Some <==> find_user_by_name_spec(self.users@, username@) is Some,
            match r {
                Some(resp) => {
                    let u = find_user_by_name_spec(self.users@, username@).unwrap();
                    &&& resp.id == u.user_id
                    &&& resp.email@.len() == 0
                    &&& resp.username == u.username
                    &&& resp.display_name == u.display_name
                    &&& resp.bio == u.bio
                    &&& (match u.avatar_url {
                        None => resp.avatar_url is None,
                        Some(url) => resp.avatar_url matches Some(v) && v@ == (
                        if is_uploads_path(url@) {
                            asset_base@ + seq!['/'] + url@
                        } else {
                            url@
                        }),
                    })
                    &&& resp.user_type == u.user_type
                    &&& resp.is_verified == u.is_verified
                    &&& resp.is_member == (u.user_type is Member || u.user_type is Writer)
                    &&& resp.followers_count == u.followers_count
                    &&& resp.following_count == u.following_count
                    &&& resp.articles_count as nat == count_published_by(
                        self.articles@,
                        u.user_id,
                    )
                    &&& resp.total_claps_received == 0
                    &&& resp.created_at == u.created_at
                },
                None => true,
            },
    {
        let idx = match self.find_user_by_name(username) {
            None => {
                proof {
                    lemma_find_user_by_name_none(self.users@, username@);
                }
                return None;
            },
            Some(i) => i,
        };
        proof {
            lemma_find_user_by_name_at(self.users@, idx as int, username@);
        }
        let u = &self.users[idx];
        let articles_count = self.count_published_by_pub(u.user_id);
        let is_member = matches!(u.user_type, UserType::Member) || matches!(
            u.user_type,
            UserType::Writer,
        );
        let avatar_url = match &u.avatar_url {
            None => None,
            Some(url) => {
                if starts_with_uploads(url) {
                    let mut v = asset_base.to_owned();
                    proof {
                        reveal_strlit("/");
                    }
                    append_one(&mut v, "/");
                    v.append(url.as_str());
                    proof {
                        assert(v@ =~= asset_base@ + seq!['/'] + url@);
                    }
                    Some(v)
                } else {
                    Some(url.clone())
                }
            },
        };
        Some(
            UserResponse {
                id: u.user_id,
                email: String::new(),
                username: u.username.clone(),
                display_name: clone_opt(&u.display_name),
                bio: clone_opt(&u.bio),
                avatar_url,
                user_type: u.user_type,
                is_verified: u.is_verified,
                is_member,
                followers_count: u.followers_count,
                following_count: u.following_count,
                articles_count,
                total_claps_received: 0,
                created_at: u.created_at,
            },
        )
    }

    /// Merges new profile fields into the user's row; absent fields keep
    /// their stored value.  A missing user changes nothing, as an update
    /// that matches no row does.
    pub fn update_profile(
        &mut self,
        user_id: u64,
        display_name: Option<String>,
        bio: Option<String>,
        now: i64,
    )
        requires
            old(self).wf(),
        ensures
            final(self).wf(),
            final(self).next_id == old(self).next_id,
            final(self).articles@ == old(self).articles@,
            final(self).claps@ == old(self).claps@,
            final(self).bookmarks@ == old(self).bookmarks@,
            final(self).comments@ == old(self).comments@,
            final(self).follows@ == old(self).follows@,
            final(self).credentials@ == old(self).credentials@,
            !old(self).has_user(user_id) ==> final(self).users@ == old(self).users@,
            old(self).has_user(user_id) ==> exists|i: int|
                0 <= i < old(self).users@.len() && (#[trigger] old(self).users@[i]).user_id
                    == user_id && final(self).users@ == old(self).users@.update(
                    i,
                    User {
                        display_name: match display_name {
                            Some(d) => Some(d),
                            None => old(self).users@[i].display_name,
                        },
                        bio: match bio {
                            Some(b) => Some(b),
                            None => old(self).users@[i].bio,
                        },
                        updated_at: now,
                        ..old(self).users@[i]
                    },
                ),
    {
        let idx = match self.find_user(user_id) {
            None => {
                return ;
            },
            Some(i) => i,
        };
        let mut u = self.users.remove(idx);
        match display_name {
            Some(d) => {
                u.display_name = Some(d);
            },
            None => {},
        }
        match bio {
            Some(b) => {
                u.bio = Some(b);
            },
            None => {},
        }
        u.updated_at = now;
        let ghost gu = u;
        self.users.insert(idx, u);
        proof {
            assert(self.users@ =~= old(self).users@.update(idx as int, gu));
            lemma_wf_user_updated(*old(self), *self, idx as int);
        }
    }

    /// Stores a new avatar path; an empty path clears the avatar.
    pub fn update_avatar(&mut self, user_id: u64, avatar_url: String, now: i64)
        requires
            old(self).wf(),
        ensures
            final(self).wf(),
            final(self).next_id == old(self).next_id,
            final(self).articles@ == old(self).articles@,
            final(self).claps@ == old(self).claps@,
            final(self).bookmarks@ == old(self).bookmarks@,
            final(self).comments@ == old(self).comments@,
            final(self).follows@ == old(self).follows@,
            final(self).credentials@ == old(self).credentials@,
            !old(self).has_user(user_id) ==> final(self).users@ == old(self).users@,
            old(self).has_user(user_id) ==> exists|i: int|
                0 <= i < old(self).users@.len() && (#[trigger] old(self).users@[i]).user_id
                    == user_id && final(self).users@ == old(self).users@.update(
                    i,
                    User {
                        avatar_url: (if avatar_url@.len() == 0 {
                            None
                        } else {
                            Some(avatar_url)
                        }),
                        updated_at: now,
                        ..old(self).users@[i]
                    },
                ),
    {
        let idx = match self.find_user(user_id) {
            None => {
                return ;
            },
            Some(i) => i,
        };
        let mut u = self.users.remove(idx);
        if avatar_url.as_str().unicode_len() == 0 {
            u.avatar_url = None;
        } else {
            u.avatar_url = Some(avatar_url);
        }
        u.updated_at = now;
        let ghost gu = u;
        self.users.insert(idx, u);
        proof {
            assert(self.users@ =~= old(self).users@.update(idx as int, gu));
            lemma_wf_user_updated(*old(self), *self, idx as int);
        }
    }
}

fn starts_with_uploads(url: &String) -> (r: bool)
    ensures
        r == is_uploads_path(url@),
{
    proof {
        reveal_strlit("uploads/");
    }
    if url.as_str().unicode_len() < 8 {
        return false;
    }
    let head = url.as_str().substring_char(0, 8).to_owned();
    let probe = String::from_str("uploads/");
    let r = head == probe;
    proof {
        if head@ == "uploads/"@ {
            assert(url@.subrange(0, 8) == "uploads/"@);
        }
    }
    r
}

fn clone_opt(s: &Option<String>) -> (r: Option<String>)
    ensures
        r == *s,
{
    match s {
        Some(v) => Some(v.clone()),
        None => None,
    }
}

proof fn lemma_find_user_by_name_at(users: Seq<User>, i: int, username: Seq<char>)
    requires
        0 <= i < users.len(),
        users[i].username@ == username,
        forall|m: int| 0 <= m < i ==> (#[trigger] users[m]).username@ != username,
    ensures
        find_user_by_name_spec(users, username) == Some(users[i]),
    decreases i,
{
    if i > 0 {
        assert(forall|m: int|
            0 <= m < users.drop_first().len() ==> #[trigger] users.drop_first()[m] == users[m + 1]);
        lemma_find_user_by_name_at(users.drop_first(), i - 1, username);
    }
}

proof fn lemma_find_user_by_name_none(users: Seq<User>, username: Seq<char>)
    requires
        forall|m: int| 0 <= m < users.len() ==> (#[trigger] users[m]).username@ != username,
    ensures
        find_user_by_name_spec(users, username) is None,
    decreases users.len(),
{
    if users.len() > 0 {
        assert(forall|m: int|
            0 <= m < users.drop_first().len() ==> #[trigger] users.drop_first()[m] == users[m + 1]);
        lemma_find_user_by_name_none(users.drop_first(), username);
    }
}

/// Replacing one user row with a twin that keeps its id, username, mail
/// address and both counters preserves the invariant when no other
/// table moved.
proof fn lemma_wf_user_updated(pre: Store, post: Store, i: int)
    requires
        pre.wf(),
        0 <= i < pre.users@.len(),
        post.next_id == pre.next_id,
        post.articles@ == pre.articles@,
        post.claps@ == pre.claps@,
        post.bookmarks@ == pre.bookmarks@,
        post.comments@ == pre.comments@,
        post.follows@ == pre.follows@,
        post.credentials@ == pre.credentials@,
        post.users@.len() == pre.users@.len(),
        forall|j: int|
            0 <= j < pre.users@.len() && j != i ==> #[trigger] post.users@[j] == pre.users@[j],
        post.users@[i].user_id == pre.users@[i].user_id,
        post.users@[i].username == pre.users@[i].username,
        post.users@[i].email == pre.users@[i].email,
        post.users@[i].followers_count == pre.users@[i].followers_count,
        post.users@[i].following_count == pre.users@[i].following_count,
    ensures
        post.wf(),
{
    assert forall|a: int, b: int|
        #![trigger post.users@[a], post.users@[b]]
        0 <= a < b < post.users@.len() implies post.users@[a].user_id != post.users@[b].user_id
        && post.users@[a].username@ != post.users@[b].username@ && post.users@[a].email@
        != post.users@[b].email@ by {
        assert(pre.users@[a].user_id != pre.users@[b].user_id);
    }
    assert forall|k: int| 0 <= k < post.users@.len() implies {
        let u = #[trigger] post.users@[k];
        u.followers_count as nat == followers_for(post.follows@, u.user_id)
            && u.following_count as nat == following_for(post.follows@, u.user_id)
    } by {
        assert(pre.users@[k].followers_count as nat == followers_for(
            pre.follows@,
            pre.users@[k].user_id,
        ));
    }
    assert forall|m: int|
        0 <= m < post.users@.len() implies (#[trigger] post.users@[m]).user_id < post.next_id by {
        assert(post.users@[m].user_id == pre.users@[m].user_id);
    }
}



impl Store {
    /// Who is suggested to a user: somebody else, not yet followed, with
    /// at least one published article.
    pub open spec fn recommend_pred(self, viewer: u64) -> spec_fn(User) -> bool {
        |u: User|
            {
                &&& u.user_id != viewer
                &&& !self.follows_user(viewer, u.user_id)
                &&& count_published_by(self.articles@, u.user_id) > 0
            }
    }

    /// Suggests users to follow: most followed first, ties broken by the
    /// larger published corpus.  At most fifty, ten when no limit is
    /// given.
    pub fn get_user_recommendations(&self, user_id: u64, limit: Option<i64>, asset_base: &str) -> (r:
        Vec<UserResponse>)
        requires
            self.wf(),
        ensures
            ({
                let pred = self.recommend_pred(user_id);
                let total = count_matching(self.users@, pred) as int;
                let want = rec_limit(limit);
                &&& r@.len() == (if want < total {
                    want
                } else {
                    total
                })
                &&& forall|p: int|
                    #![trigger r@[p]]
                    0 <= p < r@.len() ==> {
                        let u = crate::store::find_user_spec(self.users@, r@[p].id);
                        &&& u is Some
                        &&& pred(u.unwrap())
                        &&& r@[p].username == u.unwrap().username
                        &&& r@[p].followers_count == u.unwrap().followers_count
                        &&& r@[p].articles_count as nat == count_published_by(
                            self.articles@,
                            u.unwrap().user_id,
                        )
                        &&& r@[p].email@.len() == 0
                        &&& r@[p].total_claps_received == 0
                    }
                &&& exists|ord: Seq<Ranked>|
                    {
                        &&& (#[trigger] ord.len()) == total
                        &&& ord.no_duplicates()
                        &&& sorted_desc(ord)
                        &&& forall|a: int|
                            0 <= a < ord.len() ==> {
                                let c = #[trigger] ord[a];
                                &&& c.idx < self.users@.len()
                                &&& pred(self.users@[c.idx as int])
                                &&& c.k1 == self.users@[c.idx as int].followers_count as int
                                &&& c.k2 == count_published_by(
                                    self.articles@,
                                    self.users@[c.idx as int].user_id,
                                ) as int
                            }
                        &&& forall|q: int|
                            0 <= q < self.users@.len() && pred(#[trigger] self.users@[q])
                                ==> exists|a: int|
                                0 <= a < ord.len() && (#[trigger] ord[a]).idx == q
                        &&& forall|p: int|
                            0 <= p < r@.len() ==> (#[trigger] r@[p]).id == self.users@[ord[
                                p].idx as int].user_id
                    }
            }),
    {
        let ghost pred = self.recommend_pred(user_id);
        let n = self.users.len();
        let mut cands: Vec<Ranked> = Vec::new();
        let mut j: usize = 0;
        while j < n
            invariant
                self.wf(),
                n == self.users@.len(),
                0 <= j <= n,
                pred == self.recommend_pred(user_id),
                cands@.len() == count_matching(self.users@.take(j as int), pred),
                forall|a: int|
                    0 <= a < cands@.len() ==> {
                        let c = #[trigger] cands@[a];
                        &&& c.idx < n
                        &&& pred(self.users@[c.idx as int])
                        &&& c.k1 == self.users@[c.idx as int].followers_count as int
                        &&& c.k2 == count_published_by(
                            self.articles@,
                            self.users@[c.idx as int].user_id,
                        ) as int
                    },
                forall|a: int| 0 <= a < cands@.len() ==> (#[trigger] cands@[a]).idx < j,
                forall|a: int, b: int|
                    0 <= a < b < cands@.len() ==> (#[trigger] cands@[a]).idx < (
                    #[trigger] cands@[b]).idx,
                forall|q: int|
                    0 <= q < j && pred(#[trigger] self.users@[q]) ==> exists|a: int|
                        0 <= a < cands@.len() && (#[trigger] cands@[a]).idx == q,
            decreases n - j,
        {
            proof {
                lemma_count_take_succ(self.users@, pred, j as int);
            }
            let u = &self.users[j];
            let published = self.count_published_by_pub(u.user_id);
            let hit = u.user_id != user_id && !self.is_following(user_id, u.user_id) && published
                > 0;
            if hit {
                let ghost before = cands@;
                cands.push(
                    Ranked { k1: u.followers_count as i128, k2: published as i128, idx: j },
                );
                proof {
                    assert(cands@[cands@.len() - 1].idx == j);
                    assert forall|q: int|
                        0 <= q < j + 1 && pred(#[trigger] self.users@[q]) implies exists|a2: int|
                        0 <= a2 < cands@.len() && (#[trigger] cands@[a2]).idx == q by {
                        if q < j {
                            let a0 = choose|a0: int|
                                0 <= a0 < before.len() && (#[trigger] before[a0]).idx == q;
                            assert(cands@[a0].idx == q);
                        } else {
                            assert(cands@[cands@.len() - 1].idx == q);
                        }
                    }
                }
            }
            j = j + 1;
        }
        proof {
            lemma_count_take_all(self.users@, pred);
            assert(cands@.no_duplicates()) by {
                assert forall|a: int, b: int|
                    0 <= a < cands@.len() && 0 <= b < cands@.len() && a != b implies cands@[a]
                    != cands@[b] by {
                    if a < b {
                        assert(cands@[a].idx < cands@[b].idx);
                    } else {
                        assert(cands@[b].idx < cands@[a].idx);
                    }
                }
            }
        }
        let ghost gcands = cands@;
        let total = cands.len();
        let sorted = sort_ranked(cands);
        proof {
            lemma_multiset_elements(sorted@, gcands);
            lemma_multiset_elements(gcands, sorted@);
            gcands.lemma_multiset_has_no_duplicates();
            sorted@.lemma_multiset_has_no_duplicates_conv();
        }
        let want_i: i64 = match limit {
            Some(v) => v,
            None => 10,
        };
        let want_i: i64 = if want_i > 50 {
            50
        } else if want_i < 0 {
            0
        } else {
            want_i
        };
        let cnt: usize = if (want_i as usize) < total {
            want_i as usize
        } else {
            total
        };
        let mut out: Vec<UserResponse> = Vec::new();
        let mut p: usize = 0;
        while p < cnt
            invariant
                self.wf(),
                sorted@.len() == total,
                total == count_matching(self.users@, pred),
                cnt <= total,
                0 <= p <= cnt,
                out@.len() == p,
                pred == self.recommend_pred(user_id),
                sorted@.no_duplicates(),
                sorted_desc(sorted@),
                forall|a: int| 0 <= a < sorted@.len() ==> gcands.contains(#[trigger] sorted@[a]),
                forall|a: int|
                    0 <= a < gcands.len() ==> {
                        let c = #[trigger] gcands[a];
                        &&& c.idx < self.users@.len()
                        &&& pred(self.users@[c.idx as int])
                        &&& c.k1 == self.users@[c.idx as int].followers_count as int
                        &&& c.k2 == count_published_by(
                            self.articles@,
                            self.users@[c.idx as int].user_id,
                        ) as int
                    },
                forall|q: int|
                    #![trigger out@[q]]
                    0 <= q < p ==> {
                        let u = crate::store::find_user_spec(self.users@, out@[q].id);
                        &&& u is Some
                        &&& pred(u.unwrap())
                        &&& out@[q].username == u.unwrap().username
                        &&& out@[q].followers_count == u.unwrap().followers_count
                        &&& out@[q].articles_count as nat == count_published_by(
                            self.articles@,
                            u.unwrap().user_id,
                        )
                        &&& out@[q].email@.len() == 0
                        &&& out@[q].total_claps_received == 0
                    },
                forall|q: int|
                    0 <= q < p ==> (#[trigger] out@[q]).id == self.users@[sorted@[
                        q].idx as int].user_id,
            decreases cnt - p,
        {
            proof {
                assert(gcands.contains(sorted@[p as int]));
                let ca = choose|a: int|
                    0 <= a < gcands.len() && #[trigger] gcands[a] == sorted@[p as int];
                assert(sorted@[p as int].idx < self.users@.len());
                crate::store::lemma_find_user_spec_at(self.users@, sorted@[p as int].idx as int);
            }
            let u = &self.users[sorted[p].idx];
            let articles_count = self.count_published_by_pub(u.user_id);
            let is_member = matches!(u.user_type, UserType::Member) || matches!(
                u.user_type,
                UserType::Writer,
            );
            let avatar_url = match &u.avatar_url {
                None => None,
                Some(url) => {
                    if starts_with_uploads(url) {
                        let mut v = asset_base.to_owned();
                        proof {
                            reveal_strlit("/");
                        }
                        append_one(&mut v, "/");
                        v.append(url.as_str());
                        Some(v)
                    } else {
                        Some(url.clone())
                    }
                },
            };
            out.push(
                UserResponse {
                    id: u.user_id,
                    email: String::new(),
                    username: u.username.clone(),
                    display_name: clone_opt(&u.display_name),
                    bio: clone_opt(&u.bio),
                    avatar_url,
                    user_type: u.user_type,
                    is_verified: u.is_verified,
                    is_member,
                    followers_count: u.followers_count,
                    following_count: u.following_count,
                    articles_count,
                    total_claps_received: 0,
                    created_at: u.created_at,
                },
            );
            p = p + 1;
        }
        proof {
            assert(exists|ord: Seq<Ranked>|
                {
                    &&& (#[trigger] ord.len()) == count_matching(self.users@, pred) as int
                    &&& ord.no_duplicates()
                    &&& sorted_desc(ord)
                    &&& forall|a: int|
                        0 <= a < ord.len() ==> {
                            let c = #[trigger] ord[a];
                            &&& c.idx < self.users@.len()
                            &&& pred(self.users@[c.idx as int])
                            &&& c.k1 == self.users@[c.idx as int].followers_count as int
                            &&& c.k2 == count_published_by(
                                self.articles@,
                                self.users@[c.idx as int].user_id,
                            ) as int
                        }
                    &&& forall|q: int|
                        0 <= q < self.users@.len() && pred(#[trigger] self.users@[q]) ==> exists|
                            a: int,
                        |
                            0 <= a < ord.len() && (#[trigger] ord[a]).idx == q
                    &&& forall|p2: int|
                        0 <= p2 < out@.len() ==> (#[trigger] out@[p2]).id == self.users@[ord[
                            p2].idx as int].user_id
                }) by {
                let ord = sorted@;
                assert(ord.len() == count_matching(self.users@, pred) as int);
                assert forall|a: int| 0 <= a < ord.len() implies {
                    let c = #[trigger] ord[a];
                    &&& c.idx < self.users@.len()
                    &&& pred(self.users@[c.idx as int])
                    &&& c.k1 == self.users@[c.idx as int].followers_count as int
                    &&& c.k2 == count_published_by(
                        self.articles@,
                        self.users@[c.idx as int].user_id,
                    ) as int
                } by {
                    assert(gcands.contains(ord[a]));
                    let w = choose|w: int| 0 <= w < gcands.len() && #[trigger] gcands[w] == ord[a];
                }
                assert forall|q: int|
                    0 <= q < self.users@.len() && pred(#[trigger] self.users@[q]) implies exists|
                    a: int,
                |
                    0 <= a < ord.len() && (#[trigger] ord[a]).idx == q by {
                    let a0 = choose|a0: int|
                        0 <= a0 < gcands.len() && (#[trigger] gcands[a0]).idx == q;
                    assert(ord.contains(gcands[a0]));
                    let a1 = choose|a1: int| 0 <= a1 < ord.len() && #[trigger] ord[a1] == gcands[a0];
                    assert(ord[a1].idx == q);
                }
            }
        }
        out
    }
}

/// The recommendation limit after clamping: ten when absent, never more
/// than fifty, never negative.
pub open spec fn rec_limit(limit: Option<i64>) -> int {
    let x = match limit {
        Some(v) => v as int,
        None => 10,
    };
    if x > 50 {
        50
    } else if x < 0 {
        0
    } else {
        x
    }
}

} // verus!
