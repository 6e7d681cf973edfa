//! The entity store and its repository operations.
//!
//! [`DBClient`] owns the three tables and the id counter.  Every operation
//! states over [`StoreView`] exactly which rows it reads or writes, and
//! each mutation preserves the invariants of [`wf`].  Time enters only as
//! an argument: the collaborating layer reads one consistent clock and
//! hands the instant in, so timestamps never drift between caller and
//! store, and link rows are appended in creation-time order.

use vstd::prelude::*;
use vstd::pervasive::VecAdditionalExecFns;
use crate::error::RepoError;
use crate::model::File;
use crate::model::SharedLink;
use crate::model::StoreView;
use crate::model::User;
use crate::model::file_by_id;
use crate::model::link_live_for;
use crate::model::live_link;
use crate::model::user_by_email;
use crate::model::user_by_id;
use crate::model::user_by_name;
use crate::model::user_idx_by_id;
use crate::model::lemma_file_by_id_props;
use crate::model::lemma_live_link_props;
use crate::model::lemma_user_by_email_props;
use crate::model::lemma_user_by_name_props;
use crate::model::lemma_user_idx_by_id_props;
use crate::model::wf;
use crate::like::like_match;
use crate::like::like_matches;
use crate::strutil::chars_vec;
use crate::strutil::str_eq;

verus! {

/// The store: users, files and shared links, plus the counter every id is
/// drawn from.  Fresh ids are exactly the values at or above `next_id`.
pub struct DBClient {
    users: Vec<User>,
    files: Vec<File>,
    links: Vec<SharedLink>,
    next_id: u64,
}

impl View for DBClient {
    type V = StoreView;

    closed spec fn view(&self) -> StoreView {
        StoreView { users: self.users@, files: self.files@, links: self.links@, next_id: self.next_id }
    }
}

/// Whether some user other than `id` already reads `name` as username.
pub open spec fn username_taken_by_other(users: Seq<User>, name: Seq<char>, id: u64) -> bool {
    exists|i: int|
        0 <= i < users.len() && (#[trigger] users[i]).username@ == name && users[i].id != id
}

/// Whether `u` is returned by an email search of `requester` with pattern `q`.
pub open spec fn search_hit(u: User, requester: u64, q: Seq<char>) -> bool {
    like_match(q, u.email@) && u.public_key is Some && u.id != requester
}

/// The users matching an email search, in table order.
pub open spec fn search_matches(users: Seq<User>, requester: u64, q: Seq<char>) -> Seq<User>
    decreases users.len(),
{
    if users.len() == 0 {
        Seq::empty()
    } else {
        search_matches(users.drop_last(), requester, q) + if search_hit(
            users.last(),
            requester,
            q,
        ) {
            seq![users.last()]
        } else {
            Seq::empty()
        }
    }
}

impl DBClient {
    /// An empty store.
    pub fn new() -> (r: Self)
        ensures
            r@.users == Seq::<User>::empty(),
            r@.files == Seq::<File>::empty(),
            r@.links == Seq::<SharedLink>::empty(),
            r@.next_id == 0,
            wf(r@),
    {
        DBClient { users: Vec::new(), files: Vec::new(), links: Vec::new(), next_id: 0 }
    }

    /// The id the next insert will take; every stored id lies below it.
    pub fn id_counter(&self) -> (r: u64)
        ensures
            r == self@.next_id,
    {
        self.next_id
    }

    fn find_user_by_id_from(users: &Vec<User>, id: u64, i: usize) -> (r: Option<User>)
        requires
            i <= users.len(),
        ensures
            r == user_by_id(users@.skip(i as int), id),
        decreases users.len() - i,
    {
        proof {
            if i < users.len() {
                assert(users@.skip(i as int)[0] == users@[i as int]);
                assert(users@.skip(i as int).skip(1) =~= users@.skip(i as int + 1));
            }
        }
        if i == users.len() {
            None
        } else if users[i].id == id {
            Some(users[i].clone())
        } else {
            Self::find_user_by_id_from(users, id, i + 1)
        }
    }

    fn find_user_by_name_from(users: &Vec<User>, name: &str, i: usize) -> (r: Option<User>)
        requires
            i <= users.len(),
        ensures
            r == user_by_name(users@.skip(i as int), name@),
        decreases users.len() - i,
    {
        proof {
            if i < users.len() {
                assert(users@.skip(i as int)[0] == users@[i as int]);
                assert(users@.skip(i as int).skip(1) =~= users@.skip(i as int + 1));
            }
        }
        if i == users.len() {
            None
        } else if str_eq(users[i].username.as_str(), name) {
            Some(users[i].clone())
        } else {
            Self::find_user_by_name_from(users, name, i + 1)
        }
    }

    fn find_user_by_email_from(users: &Vec<User>, email: &str, i: usize) -> (r: Option<User>)
        requires
            i <= users.len(),
        ensures
            r == user_by_email(users@.skip(i as int), email@),
        decreases users.len() - i,
    {
        proof {
            if i < users.len() {
                assert(users@.skip(i as int)[0] == users@[i as int]);
                assert(users@.skip(i as int).skip(1) =~= users@.skip(i as int + 1));
            }
        }
        if i == users.len() {
            None
        } else if str_eq(users[i].email.as_str(), email) {
            Some(users[i].clone())
        } else {
            Self::find_user_by_email_from(users, email, i + 1)
        }
    }

    /// Looks a user up by the first supplied key, in the priority order
    /// id, then username, then email; later keys are silently ignored.
    /// With no key at all the lookup finds nothing.
    pub fn get_user(
        &self,
        user_id: Option<u64>,
        username: Option<&str>,
        email: Option<&str>,
    ) -> (r: Option<User>)
        ensures
            r == (match user_id {
                Some(id) => user_by_id(self@.users, id),
                None => match username {
                    Some(n) => user_by_name(self@.users, n@),
                    None => match email {
                        Some(e) => user_by_email(self@.users, e@),
                        None => None::<User>,
                    },
                },
            }),
    {
        proof {
            assert(self.users@.skip(0) =~= self.users@);
        }
        if let Some(id) = user_id {
            Self::find_user_by_id_from(&self.users, id, 0)
        } else if let Some(n) = username {
            Self::find_user_by_name_from(&self.users, n, 0)
        } else if let Some(e) = email {
            Self::find_user_by_email_from(&self.users, e, 0)
        } else {
            None
        }
    }

    /// Inserts a new user with fresh id and no public key.  Fails with
    /// `UniqueConstraintViolation`, leaving the store unchanged, exactly
    /// when the username or the email is already taken.
    pub fn save_user(&mut self, username: String, email: String, password: String, now: i64) -> (r:
        Result<User, RepoError>)
        requires
            wf(old(self)@),
            old(self)@.next_id < u64::MAX,
        ensures
            wf(final(self)@),
            match r {
                Ok(u) => {
                    &&& user_by_name(old(self)@.users, username@) is None
                    &&& user_by_email(old(self)@.users, email@) is None
                    &&& (u == User {
                        id: old(self)@.next_id,
                        username: username,
                        email: email,
                        password: password,
                        public_key: None,
                        created_at: now,
                        updated_at: now,
                    })
                    &&& final(self)@.users == old(self)@.users.push(u)
                    &&& final(self)@.files == old(self)@.files
                    &&& final(self)@.links == old(self)@.links
                    &&& final(self)@.next_id == old(self)@.next_id + 1
                },
                Err(e) => {
                    &&& e == RepoError::UniqueConstraintViolation
                    &&& (user_by_name(old(self)@.users, username@) is Some || user_by_email(
                        old(self)@.users,
                        email@,
                    ) is Some)
                    &&& final(self)@ == old(self)@
                },
            },
    {
        proof {
            assert(self.users@.skip(0) =~= self.users@);
        }
        let name_hit = Self::find_user_by_name_from(&self.users, username.as_str(), 0);
        let email_hit = Self::find_user_by_email_from(&self.users, email.as_str(), 0);
        if name_hit.is_some() || email_hit.is_some() {
            return Err(RepoError::UniqueConstraintViolation);
        }
        let id = self.next_id;
        let user = User {
            id,
            username,
            email,
            password,
            public_key: None,
            created_at: now,
            updated_at: now,
        };
        let ret = user.clone();
        self.users.push(user);
        self.next_id = id + 1;
        proof {
            lemma_user_by_name_props(old(self)@.users, ret.username@);
            lemma_user_by_email_props(old(self)@.users, ret.email@);
            assert forall|i: int, j: int| 0 <= i < j < self@.users.len() implies {
                &&& (#[trigger] self@.users[i]).id != (#[trigger] self@.users[j]).id
                &&& self@.users[i].username@ != self@.users[j].username@
                &&& self@.users[i].email@ != self@.users[j].email@
            } by {
                if j == self@.users.len() - 1 {
                    assert(self@.users[i] == old(self)@.users[i]);
                }
            }
            assert forall|i: int| 0 <= i < self@.users.len() implies (#[trigger] self@.users[i]).id
                < self@.next_id by {
                if i < old(self)@.users.len() {
                    assert(self@.users[i] == old(self)@.users[i]);
                }
            }
            assert forall|i: int| 0 <= i < self@.files.len() implies {
                &&& (#[trigger] self@.files[i]).id < self@.next_id
                &&& crate::model::has_user_id(self@.users, self@.files[i].user_id)
            } by {
                let k = choose|k: int|
                    0 <= k < old(self)@.users.len() && old(self)@.users[k].id
                        == old(self)@.files[i].user_id;
                assert(self@.users[k] == old(self)@.users[k]);
            }
            assert forall|i: int| 0 <= i < self@.links.len() implies {
                &&& (#[trigger] self@.links[i]).id < self@.next_id
                &&& crate::model::has_file_id(self@.files, self@.links[i].file_id)
                &&& crate::model::has_user_id(self@.users, self@.links[i].recipient_user_id)
            } by {
                let k = choose|k: int|
                    0 <= k < old(self)@.users.len() && old(self)@.users[k].id
                        == old(self)@.links[i].recipient_user_id;
                assert(self@.users[k] == old(self)@.users[k]);
            }
        }
        Ok(ret)
    }

    /// Index of the user with id `user_id`, scanning in table order.
    fn user_index(&self, user_id: u64) -> (r: Option<usize>)
        ensures
            match r {
                Some(k) => k == user_idx_by_id(self@.users, user_id),
                None => user_idx_by_id(self@.users, user_id) == -1,
            },
    {
        let mut i: usize = 0;
        while i < self.users.len()
            invariant
                i <= self.users@.len(),
                forall|j: int| 0 <= j < i ==> (#[trigger] self.users@[j]).id != user_id,
            decreases self.users@.len() - i,
        {
            if self.users[i].id == user_id {
                proof {
                    lemma_user_idx_by_id_props(self@.users, user_id);
                }
                return Some(i);
            }
            i = i + 1;
        }
        proof {
            lemma_user_idx_by_id_props(self@.users, user_id);
        }
        None
    }

    /// After an in-place update of one user row, the store invariants
    /// still hold provided ids are untouched and the new username clashes
    /// with nobody else's.
    proof fn lemma_user_update_wf(pre: StoreView, post: StoreView, k: int)
        requires
            wf(pre),
            0 <= k < pre.users.len(),
            post.users == pre.users.update(k, post.users[k]),
            post.files == pre.files,
            post.links == pre.links,
            post.next_id == pre.next_id,
            post.users[k].id == pre.users[k].id,
            post.users[k].email@ == pre.users[k].email@,
            forall|j: int|
                0 <= j < pre.users.len() && j != k ==> (#[trigger] pre.users[j]).username@
                    != post.users[k].username@,
        ensures
            wf(post),
    {
        assert forall|i: int, j: int| 0 <= i < j < post.users.len() implies {
            &&& (#[trigger] post.users[i]).id != (#[trigger] post.users[j]).id
            &&& post.users[i].username@ != post.users[j].username@
            &&& post.users[i].email@ != post.users[j].email@
        } by {
            if i != k {
                assert(post.users[i] == pre.users[i]);
            }
            if j != k {
                assert(post.users[j] == pre.users[j]);
            }
        }
        assert forall|i: int| 0 <= i < post.users.len() implies (#[trigger] post.users[i]).id
            < post.next_id by {
            if i != k {
                assert(post.users[i] == pre.users[i]);
            }
        }
        assert forall|i: int| 0 <= i < post.files.len() implies {
            &&& (#[trigger] post.files[i]).id < post.next_id
            &&& crate::model::has_user_id(post.users, post.files[i].user_id)
        } by {
            let w = choose|w: int|
                0 <= w < pre.users.len() && pre.users[w].id == pre.files[i].user_id;
            if w == k {
                assert(post.users[k].id == pre.users[k].id);
            } else {
                assert(post.users[w] == pre.users[w]);
            }
        }
        assert forall|i: int| 0 <= i < post.links.len() implies {
            &&& (#[trigger] post.links[i]).id < post.next_id
            &&& crate::model::has_file_id(post.files, post.links[i].file_id)
            &&& crate::model::has_user_id(post.users, post.links[i].recipient_user_id)
        } by {
            let w = choose|w: int|
                0 <= w < pre.users.len() && pre.users[w].id == pre.links[i].recipient_user_id;
            if w == k {
                assert(post.users[k].id == pre.users[k].id);
            } else {
                assert(post.users[w] == pre.users[w]);
            }
        }
    }

    /// Renames a user and bumps `updated_at`.  Fails with `NotFound` when
    /// the id is absent, and with `UniqueConstraintViolation` when another
    /// user already carries the name; either failure leaves the store
    /// unchanged.
    pub fn update_user_name(&mut self, user_id: u64, new_name: String, now: i64) -> (r: Result<
        User,
        RepoError,
    >)
        requires
            wf(old(self)@),
        ensures
            wf(final(self)@),
            match r {
                Ok(u) => {
                    let k = user_idx_by_id(old(self)@.users, user_id);
                    &&& k >= 0
                    &&& !username_taken_by_other(old(self)@.users, new_name@, user_id)
                    &&& (u == User {
                        username: new_name,
                        updated_at: now,
                        ..old(self)@.users[k]
                    })
                    &&& final(self)@.users == old(self)@.users.update(k, u)
                    &&& final(self)@.files == old(self)@.files
                    &&& final(self)@.links == old(self)@.links
                    &&& final(self)@.next_id == old(self)@.next_id
                },
                Err(e) => {
                    &&& final(self)@ == old(self)@
                    &&& (e == RepoError::NotFound <==> user_idx_by_id(old(self)@.users, user_id)
                        == -1)
                    &&& (e == RepoError::UniqueConstraintViolation <==> user_idx_by_id(
                        old(self)@.users,
                        user_id,
                    ) >= 0 && username_taken_by_other(old(self)@.users, new_name@, user_id))
                    &&& (e == RepoError::NotFound || e == RepoError::UniqueConstraintViolation)
                },
            },
    {
        let k = match self.user_index(user_id) {
            Some(k) => k,
            None => {
                return Err(RepoError::NotFound);
            },
        };
        proof {
            lemma_user_idx_by_id_props(self@.users, user_id);
        }
        let mut j: usize = 0;
        while j < self.users.len()
            invariant
                wf(self@),
                j <= self.users@.len(),
                k < self.users@.len(),
                self.users@[k as int].id == user_id,
                forall|i: int|
                    0 <= i < j ==> !((#[trigger] self.users@[i]).username@ == new_name@
                        && self.users@[i].id != user_id),
            decreases self.users@.len() - j,
        {
            if j != k && str_eq(self.users[j].username.as_str(), new_name.as_str()) {
                proof {
                    lemma_user_idx_by_id_props(self@.users, user_id);
                    assert(self.users@[j as int].id != user_id);
                    assert(username_taken_by_other(self@.users, new_name@, user_id));
                }
                return Err(RepoError::UniqueConstraintViolation);
            }
            j = j + 1;
        }
        let mut u = self.users[k].clone();
        u.username = new_name;
        u.updated_at = now;
        let ret = u.clone();
        self.users.set(k, u);
        proof {
            Self::lemma_user_update_wf(old(self)@, self@, k as int);
        }
        Ok(ret)
    }

    /// Replaces a user's password hash and bumps `updated_at`.  Fails with
    /// `NotFound`, leaving the store unchanged, exactly when the id is
    /// absent.
    pub fn update_user_password(&mut self, user_id: u64, new_password: String, now: i64) -> (r:
        Result<User, RepoError>)
        requires
            wf(old(self)@),
        ensures
            wf(final(self)@),
            match r {
                Ok(u) => {
                    let k = user_idx_by_id(old(self)@.users, user_id);
                    &&& k >= 0
                    &&& (u == User {
                        password: new_password,
                        updated_at: now,
                        ..old(self)@.users[k]
                    })
                    &&& final(self)@.users == old(self)@.users.update(k, u)
                    &&& final(self)@.files == old(self)@.files
                    &&& final(self)@.links == old(self)@.links
                    &&& final(self)@.next_id == old(self)@.next_id
                },
                Err(e) => {
                    &&& final(self)@ == old(self)@
                    &&& e == RepoError::NotFound
                    &&& user_idx_by_id(old(self)@.users, user_id) == -1
                },
            },
    {
        let k = match self.user_index(user_id) {
            Some(k) => k,
            None => {
                return Err(RepoError::NotFound);
            },
        };
        proof {
            lemma_user_idx_by_id_props(self@.users, user_id);
        }
        let mut u = self.users[k].clone();
        u.password = new_password;
        u.updated_at = now;
        let ret = u.clone();
        self.users.set(k, u);
        proof {
            Self::lemma_user_update_wf(old(self)@, self@, k as int);
        }
        Ok(ret)
    }

    /// Attaches or replaces a user's public key and bumps `updated_at`.
    /// Fails with `NotFound`, leaving the store unchanged, exactly when
    /// the id is absent.
    pub fn save_user_key(&mut self, user_id: u64, public_key: String, now: i64) -> (r: Result<
        (),
        RepoError,
    >)
        requires
            wf(old(self)@),
        ensures
            wf(final(self)@),
            match r {
                Ok(()) => {
                    let k = user_idx_by_id(old(self)@.users, user_id);
                    &&& k >= 0
                    &&& final(self)@.users == old(self)@.users.update(
                        k,
                        (User {
                            public_key: Some(public_key),
                            updated_at: now,
                            ..old(self)@.users[k]
                        }),
                    )
                    &&& final(self)@.files == old(self)@.files
                    &&& final(self)@.links == old(self)@.links
                    &&& final(self)@.next_id == old(self)@.next_id
                },
                Err(e) => {
                    &&& final(self)@ == old(self)@
                    &&& e == RepoError::NotFound
                    &&& user_idx_by_id(old(self)@.users, user_id) == -1
                },
            },
    {
        let k = match self.user_index(user_id) {
            Some(k) => k,
            None => {
                return Err(RepoError::NotFound);
            },
        };
        proof {
            lemma_user_idx_by_id_props(self@.users, user_id);
        }
        let mut u = self.users[k].clone();
        u.public_key = Some(public_key);
        u.updated_at = now;
        self.users.set(k, u);
        proof {
            Self::lemma_user_update_wf(old(self)@, self@, k as int);
        }
        Ok(())
    }

    /// Returns, in table order, every user whose email matches the `LIKE`
    /// pattern `query`, excluding the requesting user and anyone without a
    /// registered public key.  Wildcard placement is the caller's business.
    pub fn search_by_email(&self, user_id: u64, query: String) -> (r: Vec<User>)
        ensures
            r@ == search_matches(self@.users, user_id, query@),
            forall|i: int|
                0 <= i < r@.len() ==> (#[trigger] r@[i]).id != user_id && r@[i].public_key is Some,
    {
        let pattern = chars_vec(query.as_str());
        let mut r: Vec<User> = Vec::new();
        let mut i: usize = 0;
        while i < self.users.len()
            invariant
                i <= self.users@.len(),
                pattern@ == query@,
                r@ == search_matches(self.users@.take(i as int), user_id, query@),
                forall|j: int|
                    0 <= j < r@.len() ==> (#[trigger] r@[j]).id != user_id
                        && r@[j].public_key is Some,
            decreases self.users@.len() - i,
        {
            proof {
                assert(self.users@.take(i as int + 1).drop_last() =~= self.users@.take(i as int));
                assert(self.users@.take(i as int + 1).last() == self.users@[i as int]);
            }
            let u = &self.users[i];
            if u.id != user_id && u.public_key.is_some() {
                let email_chars = chars_vec(u.email.as_str());
                if like_matches(&pattern, &email_chars) {
                    r.push(u.clone());
                }
            }
            i = i + 1;
        }
        proof {
            assert(self.users@.take(self.users@.len() as int) =~= self.users@);
        }
        r
    }

    /// How many shared-link rows the store holds.
    pub fn links_len(&self) -> (r: usize)
        ensures
            r == self@.links.len(),
    {
        self.links.len()
    }

    /// The link row at table index `i`.
    pub(crate) fn link_at(&self, i: usize) -> (r: &SharedLink)
        requires
            i < self@.links.len(),
        ensures
            *r == self@.links[i as int],
    {
        &self.links[i]
    }

    /// A clone of the first user with id `id`.
    pub(crate) fn user_lookup(&self, id: u64) -> (r: Option<User>)
        ensures
            r == user_by_id(self@.users, id),
    {
        proof {
            assert(self.users@.skip(0) =~= self.users@);
        }
        Self::find_user_by_id_from(&self.users, id, 0)
    }

    /// The creation instant of the newest shared link, or the smallest
    /// representable instant when there is none.  The clock handed to
    /// [`DBClient::save_encrypted_file`] must not lie before this.
    pub fn last_link_created_at(&self) -> (r: i64)
        requires
            wf(self@),
        ensures
            forall|i: int| 0 <= i < self@.links.len() ==> (#[trigger] self@.links[i]).created_at <= r,
            self@.links.len() > 0 ==> r == self@.links.last().created_at,
            self@.links.len() == 0 ==> r == i64::MIN,
    {
        if self.links.len() == 0 {
            i64::MIN
        } else {
            self.links[self.links.len() - 1].created_at
        }
    }

    /// Atomically inserts one file row and the single shared link that
    /// wraps it: after the call either both rows are present or, on
    /// failure, neither.  Fails with `NotFound` exactly when the sender or
    /// the recipient is not a stored user, mirroring the schema's foreign
    /// keys.  Returns the fresh file id and shared-link id.
    pub fn save_encrypted_file(
        &mut self,
        user_id: u64,
        file_name: String,
        file_size: i64,
        recipient_user_id: u64,
        password: String,
        expiration_date: i64,
        encrypted_aes_key: Vec<u8>,
        encrypted_file: Vec<u8>,
        iv: Vec<u8>,
        now: i64,
    ) -> (r: Result<(u64, u64), RepoError>)
        requires
            wf(old(self)@),
            old(self)@.next_id < u64::MAX - 1,
            forall|i: int|
                0 <= i < old(self)@.links.len() ==> (#[trigger] old(self)@.links[i]).created_at
                    <= now,
        ensures
            wf(final(self)@),
            match r {
                Ok((file_id, shared_id)) => {
                    &&& crate::model::has_user_id(old(self)@.users, user_id)
                    &&& crate::model::has_user_id(old(self)@.users, recipient_user_id)
                    &&& file_id == old(self)@.next_id
                    &&& shared_id == old(self)@.next_id + 1
                    &&& final(self)@.files == old(self)@.files.push(
                        (File {
                            id: file_id,
                            user_id: user_id,
                            file_name: file_name,
                            file_size: file_size,
                            encrypted_aes_key: encrypted_aes_key,
                            encrypted_file: encrypted_file,
                            iv: iv,
                            created_at: now,
                        }),
                    )
                    &&& final(self)@.links == old(self)@.links.push(
                        (SharedLink {
                            id: shared_id,
                            file_id: file_id,
                            recipient_user_id: recipient_user_id,
                            password: password,
                            expiration_date: expiration_date,
                            created_at: now,
                        }),
                    )
                    &&& final(self)@.users == old(self)@.users
                    &&& final(self)@.next_id == old(self)@.next_id + 2
                },
                Err(e) => {
                    &&& e == RepoError::NotFound
                    &&& !(crate::model::has_user_id(old(self)@.users, user_id)
                        && crate::model::has_user_id(old(self)@.users, recipient_user_id))
                    &&& final(self)@ == old(self)@
                },
            },
    {
        let sender_there = self.user_index(user_id);
        let recipient_there = self.user_index(recipient_user_id);
        proof {
            lemma_user_idx_by_id_props(self@.users, user_id);
            lemma_user_idx_by_id_props(self@.users, recipient_user_id);
        }
        if sender_there.is_none() || recipient_there.is_none() {
            return Err(RepoError::NotFound);
        }
        let file_id = self.next_id;
        let shared_id = self.next_id + 1;
        let file = File {
            id: file_id,
            user_id,
            file_name,
            file_size,
            encrypted_aes_key,
            encrypted_file,
            iv,
            created_at: now,
        };
        let link = SharedLink {
            id: shared_id,
            file_id,
            recipient_user_id,
            password,
            expiration_date,
            created_at: now,
        };
        self.files.push(file);
        self.links.push(link);
        self.next_id = shared_id + 1;
        proof {
            let pre = old(self)@;
            let post = self@;
            assert forall|i: int| 0 <= i < post.files.len() implies {
                &&& (#[trigger] post.files[i]).id < post.next_id
                &&& crate::model::has_user_id(post.users, post.files[i].user_id)
            } by {
                if i < pre.files.len() {
                    assert(post.files[i] == pre.files[i]);
                }
            }
            assert forall|i: int, j: int| 0 <= i < j < post.files.len() implies (#[trigger] post
                .files[i]).id != (#[trigger] post.files[j]).id by {
                if i < pre.files.len() {
                    assert(post.files[i] == pre.files[i]);
                }
                if j < pre.files.len() {
                    assert(post.files[j] == pre.files[j]);
                }
            }
            assert forall|i: int, j: int| 0 <= i < j < post.links.len() implies {
                &&& (#[trigger] post.links[i]).id != (#[trigger] post.links[j]).id
                &&& post.links[i].file_id != post.links[j].file_id
                &&& post.links[i].created_at <= post.links[j].created_at
            } by {
                if i < pre.links.len() {
                    assert(post.links[i] == pre.links[i]);
                    let w = choose|w: int|
                        0 <= w < pre.files.len() && (#[trigger] pre.files[w]).id
                            == pre.links[i].file_id;
                    assert(pre.files[w].id < pre.next_id);
                }
                if j < pre.links.len() {
                    assert(post.links[j] == pre.links[j]);
                    let w = choose|w: int|
                        0 <= w < pre.files.len() && (#[trigger] pre.files[w]).id
                            == pre.links[j].file_id;
                    assert(pre.files[w].id < pre.next_id);
                }
            }
            assert forall|i: int| 0 <= i < post.links.len() implies {
                &&& (#[trigger] post.links[i]).id < post.next_id
                &&& crate::model::has_file_id(post.files, post.links[i].file_id)
                &&& crate::model::has_user_id(post.users, post.links[i].recipient_user_id)
            } by {
                if i < pre.links.len() {
                    assert(post.links[i] == pre.links[i]);
                    let w = choose|w: int|
                        0 <= w < pre.files.len() && (#[trigger] pre.files[w]).id
                            == pre.links[i].file_id;
                    assert(post.files[w] == pre.files[w]);
                } else {
                    assert(post.files[post.files.len() - 1].id == post.links[i].file_id);
                }
            }
            assert forall|i: int| 0 <= i < post.files.len() implies crate::model::has_link_to(
                post.links,
                (#[trigger] post.files[i]).id,
            ) by {
                if i < pre.files.len() {
                    assert(post.files[i] == pre.files[i]);
                    let w = choose|w: int|
                        0 <= w < pre.links.len() && (#[trigger] pre.links[w]).file_id
                            == pre.files[i].id;
                    assert(post.links[w] == pre.links[w]);
                } else {
                    assert(post.links[post.links.len() - 1].file_id == post.files[i].id);
                }
            }
        }
        Ok((file_id, shared_id))
    }

    fn find_live_link_from(
        links: &Vec<SharedLink>,
        shared_id: u64,
        user_id: u64,
        now: i64,
        i: usize,
    ) -> (r: Option<SharedLink>)
        requires
            i <= links.len(),
        ensures
            r == live_link(links@.skip(i as int), shared_id, user_id, now),
        decreases links.len() - i,
    {
        proof {
            if i < links.len() {
                assert(links@.skip(i as int)[0] == links@[i as int]);
                assert(links@.skip(i as int).skip(1) =~= links@.skip(i as int + 1));
            }
        }
        if i == links.len() {
            None
        } else {
            let l = &links[i];
            if l.id == shared_id && l.recipient_user_id == user_id && l.expiration_date > now {
                Some(l.clone())
            } else {
                Self::find_live_link_from(links, shared_id, user_id, now, i + 1)
            }
        }
    }

    /// Resolves a shared link for a retrieval attempt at instant `now`.
    /// The three failure causes — no such link, a different recipient, an
    /// expired link — are deliberately indistinguishable: all come back as
    /// `None`.
    pub fn get_shared(&self, shared_id: u64, user_id: u64, now: i64) -> (r: Option<SharedLink>)
        ensures
            r == live_link(self@.links, shared_id, user_id, now),
            r is Some <==> exists|i: int|
                0 <= i < self@.links.len() && link_live_for(
                    #[trigger] self@.links[i],
                    shared_id,
                    user_id,
                    now,
                ),
    {
        proof {
            assert(self.links@.skip(0) =~= self.links@);
            lemma_live_link_props(self@.links, shared_id, user_id, now);
        }
        Self::find_live_link_from(&self.links, shared_id, user_id, now, 0)
    }

    fn find_file_from(files: &Vec<File>, file_id: u64, i: usize) -> (r: Option<&File>)
        requires
            i <= files.len(),
        ensures
            match r {
                Some(f) => file_by_id(files@.skip(i as int), file_id) == Some(*f),
                None => file_by_id(files@.skip(i as int), file_id) is None,
            },
        decreases files.len() - i,
    {
        proof {
            if i < files.len() {
                assert(files@.skip(i as int)[0] == files@[i as int]);
                assert(files@.skip(i as int).skip(1) =~= files@.skip(i as int + 1));
            }
        }
        if i == files.len() {
            None
        } else if files[i].id == file_id {
            Some(&files[i])
        } else {
            Self::find_file_from(files, file_id, i + 1)
        }
    }

    /// Looks a file row up by id.  Deliberately unauthenticated: access
    /// control is layered on by the caller through the access gate.
    pub fn get_file(&self, file_id: u64) -> (r: Option<&File>)
        ensures
            match r {
                Some(f) => file_by_id(self@.files, file_id) == Some(*f),
                None => file_by_id(self@.files, file_id) is None,
            },
            r is Some <==> crate::model::has_file_id(self@.files, file_id),
    {
        proof {
            assert(self.files@.skip(0) =~= self.files@);
            lemma_file_by_id_props(self@.files, file_id);
        }
        Self::find_file_from(&self.files, file_id, 0)
    }

    /// Whether file `f` survives a reap at instant `now`.
    fn file_survives(links: &Vec<SharedLink>, f: &File, now: i64) -> (r: bool)
        ensures
            r == crate::model::file_kept(*f, links@, now),
    {
        let mut i: usize = 0;
        while i < links.len()
            invariant
                i <= links@.len(),
                forall|j: int|
                    0 <= j < i ==> ((#[trigger] links@[j]).file_id == f.id ==> links@[
                        j
                    ].expiration_date >= now),
            decreases links@.len() - i,
        {
            if links[i].file_id == f.id && links[i].expiration_date < now {
                return false;
            }
            i = i + 1;
        }
        true
    }

    /// The expiration reaper: purges every expired shared link together
    /// with the file it referenced.  Link rows go first, so no observable
    /// state has a surviving link pointing at a purged file; within one
    /// call the two deletions are atomic.  Safe to run repeatedly: with
    /// nothing expired it is a no-op reporting zero removals.  Returns how
    /// many links and how many files were removed.
    pub fn delete_expired_files(&mut self, now: i64) -> (r: (usize, usize))
        requires
            wf(old(self)@),
        ensures
            wf(final(self)@),
            final(self)@.links == crate::model::keep_links(old(self)@.links, now),
            final(self)@.files == crate::model::keep_files(
                old(self)@.files,
                old(self)@.links,
                now,
            ),
            final(self)@.users == old(self)@.users,
            final(self)@.next_id == old(self)@.next_id,
            r.0 == old(self)@.links.len() - final(self)@.links.len(),
            r.1 == old(self)@.files.len() - final(self)@.files.len(),
    {
        let ghost pre = self@;
        let mut kept_links: Vec<SharedLink> = Vec::new();
        let mut i: usize = 0;
        while i < self.links.len()
            invariant
                i <= self.links@.len(),
                kept_links@ == crate::model::keep_links(self.links@.take(i as int), now),
                kept_links@.len() <= i,
            decreases self.links@.len() - i,
        {
            proof {
                assert(self.links@.take(i as int + 1).drop_last() =~= self.links@.take(i as int));
                assert(self.links@.take(i as int + 1).last() == self.links@[i as int]);
            }
            if self.links[i].expiration_date >= now {
                kept_links.push(self.links[i].clone());
            }
            i = i + 1;
        }
        proof {
            assert(self.links@.take(self.links@.len() as int) =~= self.links@);
        }
        let removed_links = self.links.len() - kept_links.len();
        let prev_file_count = self.files.len();
        let mut i: usize = 0;
        let ghost mut j: int = 0;
        while i < self.files.len()
            invariant
                0 <= j <= pre.files.len(),
                self.links@ == pre.links,
                self.users@ == pre.users,
                self@.next_id == pre.next_id,
                i == crate::model::keep_files(pre.files.take(j), pre.links, now).len(),
                self.files@ == crate::model::keep_files(pre.files.take(j), pre.links, now)
                    + pre.files.skip(j),
            decreases pre.files.len() - j,
        {
            proof {
                assert(pre.files.len() - j == self.files@.len() - i);
                assert(self.files@[i as int] == pre.files.skip(j)[0]);
                assert(pre.files.skip(j)[0] == pre.files[j]);
                assert(pre.files.take(j + 1).drop_last() =~= pre.files.take(j));
                assert(pre.files.take(j + 1).last() == pre.files[j]);
            }
            let keep = Self::file_survives(&self.links, &self.files[i], now);
            if keep {
                i = i + 1;
                proof {
                    j = j + 1;
                    assert(self.files@ =~= crate::model::keep_files(
                        pre.files.take(j),
                        pre.links,
                        now,
                    ) + pre.files.skip(j));
                }
            } else {
                self.files.remove(i);
                proof {
                    j = j + 1;
                    assert(self.files@ =~= crate::model::keep_files(
                        pre.files.take(j),
                        pre.links,
                        now,
                    ) + pre.files.skip(j));
                }
            }
        }
        proof {
            assert(j == pre.files.len());
            assert(pre.files.take(j) =~= pre.files);
            assert(self.files@ =~= crate::model::keep_files(pre.files, pre.links, now));
        }
        proof {
            crate::model::lemma_keep_files_wf(pre.files, pre.links, now);
            assert(prev_file_count == pre.files.len());
        }
        let removed_files = prev_file_count - self.files.len();
        self.links = kept_links;
        proof {
            crate::model::lemma_keep_links_wf(pre.links, now);
            crate::model::lemma_keep_files_wf(pre.files, pre.links, now);
            let post = self@;
            assert(post.links == crate::model::keep_links(pre.links, now));
            assert(post.files == crate::model::keep_files(pre.files, pre.links, now));
            assert(post.users == pre.users && post.next_id == pre.next_id);
            assert forall|i: int| 0 <= i < post.links.len() implies {
                &&& (#[trigger] post.links[i]).id < post.next_id
                &&& crate::model::has_file_id(post.files, post.links[i].file_id)
                &&& crate::model::has_user_id(post.users, post.links[i].recipient_user_id)
            } by {
                let w = choose|w: int| 0 <= w < pre.links.len() && pre.links[w] == post.links[i];
                let fw = choose|fw: int|
                    0 <= fw < pre.files.len() && (#[trigger] pre.files[fw]).id
                        == pre.links[w].file_id;
                assert(crate::model::file_kept(pre.files[fw], pre.links, now)) by {
                    assert forall|q: int|
                        0 <= q < pre.links.len() && (#[trigger] pre.links[q]).file_id
                            == pre.files[fw].id implies pre.links[q].expiration_date >= now by {
                        if q != w {
                            assert(pre.links[q].file_id != pre.links[w].file_id);
                        }
                    }
                }
                assert(post.files.contains(pre.files[fw]));
            }
            assert forall|i: int| 0 <= i < post.files.len() implies {
                &&& (#[trigger] post.files[i]).id < post.next_id
                &&& crate::model::has_user_id(post.users, post.files[i].user_id)
                &&& crate::model::has_link_to(post.links, post.files[i].id)
            } by {
                let w = choose|w: int| 0 <= w < pre.files.len() && pre.files[w] == post.files[i];
                let lw = choose|lw: int|
                    0 <= lw < pre.links.len() && (#[trigger] pre.links[lw]).file_id
                        == pre.files[w].id;
                assert(pre.links[lw].expiration_date >= now);
                assert(post.links.contains(pre.links[lw]));
            }
        }
        (removed_links, removed_files)
    }

    /// The access gate: resolves the link, checks the supplied link
    /// password, and hands out the file with its decryption metadata.  A
    /// missing, mismatched or expired link and a wrong password all
    /// surface as the same `NotFound`.  The store invariants rule the
    /// dangling-link case out, so `InvariantViolation` is never returned.
    pub fn retrieve_shared_file(&self, shared_id: u64, user_id: u64, password: &str, now: i64) -> (r:
        Result<&File, RepoError>)
        requires
            wf(self@),
        ensures
            match live_link(self@.links, shared_id, user_id, now) {
                Some(l) => {
                    if password@ == l.password@ {
                        match r {
                            Ok(f) => file_by_id(self@.files, l.file_id) == Some(*f),
                            Err(_) => false,
                        }
                    } else {
                        r == Err::<&File, RepoError>(RepoError::NotFound)
                    }
                },
                None => r == Err::<&File, RepoError>(RepoError::NotFound),
            },
    {
        let link = match self.get_shared(shared_id, user_id, now) {
            Some(l) => l,
            None => {
                return Err(RepoError::NotFound);
            },
        };
        if !str_eq(password, link.password.as_str()) {
            return Err(RepoError::NotFound);
        }
        proof {
            lemma_live_link_props(self@.links, shared_id, user_id, now);
        }
        match self.get_file(link.file_id) {
            Some(f) => Ok(f),
            None => {
                proof {
                    let i = choose|i: int|
                        0 <= i < self@.links.len() && self@.links[i] == link;
                    assert(crate::model::has_file_id(self@.files, self@.links[i].file_id));
                    assert(false);
                }
                Err(RepoError::InvariantViolation)
            },
        }
    }
}

} // verus!
