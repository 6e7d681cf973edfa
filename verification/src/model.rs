//! The entity schema and its relational invariants.
//!
//! Three tables back the system: `users`, `files` and `shared_links`.
//! Identifiers and timestamps are plain integers; encrypted payloads are
//! opaque byte buffers.  [`wf`] states the invariants the store maintains:
//! unique keys, referential integrity between files and links, the
//! one-file-one-link ownership rule, and link rows ordered by creation time.

use vstd::prelude::*;

verus! {

/// A user row.  The password is an opaque credential hash; `public_key` is
/// absent until the user registers one.
#[derive(Debug)]
pub struct User {
    pub id: u64,
    pub username: String,
    pub email: String,
    pub password: String,
    pub public_key: Option<String>,
    pub created_at: i64,
    pub updated_at: i64,
}

impl Clone for User {
    fn clone(&self) -> (r: Self)
        ensures
            r == *self,
    {
        let public_key = match &self.public_key {
            Some(k) => Some(k.clone()),
            None => None,
        };
        User {
            id: self.id,
            username: self.username.clone(),
            email: self.email.clone(),
            password: self.password.clone(),
            public_key,
            created_at: self.created_at,
            updated_at: self.updated_at,
        }
    }
}

/// A file row: an encrypted payload with its key blob and initialization
/// vector, owned by the sending user.  The core never decrypts any of it.
#[derive(Debug)]
pub struct File {
    pub id: u64,
    pub user_id: u64,
    pub file_name: String,
    pub file_size: i64,
    pub encrypted_aes_key: Vec<u8>,
    pub encrypted_file: Vec<u8>,
    pub iv: Vec<u8>,
    pub created_at: i64,
}

/// A shared-link row: the join entity and the unit of expiration.  Its id is
/// the "shared id" handed to the recipient out of band.
#[derive(Debug)]
pub struct SharedLink {
    pub id: u64,
    pub file_id: u64,
    pub recipient_user_id: u64,
    pub password: String,
    pub expiration_date: i64,
    pub created_at: i64,
}

impl Clone for SharedLink {
    fn clone(&self) -> (r: Self)
        ensures
            r == *self,
    {
        SharedLink {
            id: self.id,
            file_id: self.file_id,
            recipient_user_id: self.recipient_user_id,
            password: self.password.clone(),
            expiration_date: self.expiration_date,
            created_at: self.created_at,
        }
    }
}

/// One row of the "sent" listing: a file the user owns, joined with its
/// link and the recipient's email.
#[derive(Debug)]
pub struct SendFileDetails {
    pub file_id: u64,
    pub file_name: String,
    pub recipient_email: String,
    pub expiration_date: i64,
    pub created_at: i64,
}

impl Clone for SendFileDetails {
    fn clone(&self) -> (r: Self)
        ensures
            r == *self,
    {
        SendFileDetails {
            file_id: self.file_id,
            file_name: self.file_name.clone(),
            recipient_email: self.recipient_email.clone(),
            expiration_date: self.expiration_date,
            created_at: self.created_at,
        }
    }
}

/// One row of the "received" listing: a link addressed to the user, joined
/// with its file and the sender's email.  `file_id` carries the shared-link
/// id, which is what the recipient needs in order to retrieve.
#[derive(Debug)]
pub struct ReceiveFileDetails {
    pub file_id: u64,
    pub file_name: String,
    pub sender_email: String,
    pub expiration_date: i64,
    pub created_at: i64,
}

impl Clone for ReceiveFileDetails {
    fn clone(&self) -> (r: Self)
        ensures
            r == *self,
    {
        ReceiveFileDetails {
            file_id: self.file_id,
            file_name: self.file_name.clone(),
            sender_email: self.sender_email.clone(),
            expiration_date: self.expiration_date,
            created_at: self.created_at,
        }
    }
}

/// Mathematical abstraction of the store: the three tables as sequences in
/// insertion order, and the id counter that every identifier was drawn from.
pub ghost struct StoreView {
    pub users: Seq<User>,
    pub files: Seq<File>,
    pub links: Seq<SharedLink>,
    pub next_id: u64,
}

/// Some user in `users` carries id `id`.
pub open spec fn has_user_id(users: Seq<User>, id: u64) -> bool {
    exists|k: int| 0 <= k < users.len() && users[k].id == id
}

/// Some file in `files` carries id `id`.
pub open spec fn has_file_id(files: Seq<File>, id: u64) -> bool {
    exists|k: int| 0 <= k < files.len() && files[k].id == id
}

/// Some link in `links` references file `fid`.
pub open spec fn has_link_to(links: Seq<SharedLink>, fid: u64) -> bool {
    exists|k: int| 0 <= k < links.len() && links[k].file_id == fid
}

/// The user table is well formed: ids, usernames and emails are each
/// globally unique, and every id was drawn from the counter.
pub open spec fn users_wf(v: StoreView) -> bool {
    &&& forall|i: int, j: int|
        0 <= i < j < v.users.len() ==> {
            &&& (#[trigger] v.users[i]).id != (#[trigger] v.users[j]).id
            &&& v.users[i].username@ != v.users[j].username@
            &&& v.users[i].email@ != v.users[j].email@
        }
    &&& forall|i: int| 0 <= i < v.users.len() ==> (#[trigger] v.users[i]).id < v.next_id
}

/// The file table is well formed: unique ids, ids drawn from the counter,
/// and every file's owner is a stored user.
pub open spec fn files_wf(v: StoreView) -> bool {
    &&& forall|i: int, j: int|
        0 <= i < j < v.files.len() ==> (#[trigger] v.files[i]).id != (#[trigger] v.files[j]).id
    &&& forall|i: int|
        0 <= i < v.files.len() ==> {
            &&& (#[trigger] v.files[i]).id < v.next_id
            &&& has_user_id(v.users, v.files[i].user_id)
        }
}

/// The link table is well formed: unique ids, at most one link per file,
/// every link's file and recipient exist, and rows sit in creation-time
/// order (the store is fed by one consistent clock).
pub open spec fn links_wf(v: StoreView) -> bool {
    &&& forall|i: int, j: int|
        0 <= i < j < v.links.len() ==> {
            &&& (#[trigger] v.links[i]).id != (#[trigger] v.links[j]).id
            &&& v.links[i].file_id != v.links[j].file_id
            &&& v.links[i].created_at <= v.links[j].created_at
        }
    &&& forall|i: int|
        0 <= i < v.links.len() ==> {
            &&& (#[trigger] v.links[i]).id < v.next_id
            &&& has_file_id(v.files, v.links[i].file_id)
            &&& has_user_id(v.users, v.links[i].recipient_user_id)
        }
}

/// No file outlives its link: every stored file is referenced by some
/// shared link.  Together with the uniqueness in [`links_wf`] this is the
/// one-file-one-link ownership rule.
pub open spec fn files_linked(v: StoreView) -> bool {
    forall|i: int| 0 <= i < v.files.len() ==> has_link_to(v.links, (#[trigger] v.files[i]).id)
}

/// Well-formedness of the whole store.
pub open spec fn wf(v: StoreView) -> bool {
    &&& users_wf(v)
    &&& files_wf(v)
    &&& links_wf(v)
    &&& files_linked(v)
}

/// The first user with id `id`.
pub open spec fn user_by_id(users: Seq<User>, id: u64) -> Option<User>
    decreases users.len(),
{
    if users.len() == 0 {
        None
    } else if users[0].id == id {
        Some(users[0])
    } else {
        user_by_id(users.skip(1), id)
    }
}

/// The first user whose username reads `name`.
pub open spec fn user_by_name(users: Seq<User>, name: Seq<char>) -> Option<User>
    decreases users.len(),
{
    if users.len() == 0 {
        None
    } else if users[0].username@ == name {
        Some(users[0])
    } else {
        user_by_name(users.skip(1), name)
    }
}

/// The first user whose email reads `email`.
pub open spec fn user_by_email(users: Seq<User>, email: Seq<char>) -> Option<User>
    decreases users.len(),
{
    if users.len() == 0 {
        None
    } else if users[0].email@ == email {
        Some(users[0])
    } else {
        user_by_email(users.skip(1), email)
    }
}

/// Index of the first user with id `id`, or `-1`.
pub open spec fn user_idx_by_id(users: Seq<User>, id: u64) -> int
    decreases users.len(),
{
    if users.len() == 0 {
        -1
    } else if users[0].id == id {
        0
    } else {
        let r = user_idx_by_id(users.skip(1), id);
        if r < 0 {
            -1
        } else {
            r + 1
        }
    }
}

/// The first file with id `id`.
pub open spec fn file_by_id(files: Seq<File>, id: u64) -> Option<File>
    decreases files.len(),
{
    if files.len() == 0 {
        None
    } else if files[0].id == id {
        Some(files[0])
    } else {
        file_by_id(files.skip(1), id)
    }
}

/// Whether link `l` answers a retrieval attempt: right id, right recipient,
/// not yet expired at instant `now`.
pub open spec fn link_live_for(l: SharedLink, shared_id: u64, user_id: u64, now: i64) -> bool {
    l.id == shared_id && l.recipient_user_id == user_id && l.expiration_date > now
}

/// The first link that answers a retrieval attempt.
pub open spec fn live_link(
    links: Seq<SharedLink>,
    shared_id: u64,
    user_id: u64,
    now: i64,
) -> Option<SharedLink>
    decreases links.len(),
{
    if links.len() == 0 {
        None
    } else if link_live_for(links[0], shared_id, user_id, now) {
        Some(links[0])
    } else {
        live_link(links.skip(1), shared_id, user_id, now)
    }
}

/// What `user_by_id` finding or missing a user says about the table.
pub proof fn lemma_user_by_id_props(users: Seq<User>, id: u64)
    ensures
        match user_by_id(users, id) {
            Some(u) => u.id == id && exists|i: int| 0 <= i < users.len() && users[i] == u,
            None => forall|i: int| 0 <= i < users.len() ==> (#[trigger] users[i]).id != id,
        },
    decreases users.len(),
{
    if users.len() > 0 && users[0].id != id {
        lemma_user_by_id_props(users.skip(1), id);
        assert(forall|i: int| 0 < i < users.len() ==> users.skip(1)[i - 1] == users[i]);
        match user_by_id(users.skip(1), id) {
            Some(u) => {
                let i = choose|i: int| 0 <= i < users.skip(1).len() && users.skip(1)[i] == u;
                assert(users[i + 1] == u);
            },
            None => {},
        }
    }
}

/// What `user_by_name` finding or missing a user says about the table.
pub proof fn lemma_user_by_name_props(users: Seq<User>, name: Seq<char>)
    ensures
        match user_by_name(users, name) {
            Some(u) => u.username@ == name && exists|i: int|
                0 <= i < users.len() && users[i] == u,
            None => forall|i: int| 0 <= i < users.len() ==> (#[trigger] users[i]).username@ != name,
        },
    decreases users.len(),
{
    if users.len() > 0 && users[0].username@ != name {
        lemma_user_by_name_props(users.skip(1), name);
        assert(forall|i: int| 0 < i < users.len() ==> users.skip(1)[i - 1] == users[i]);
        match user_by_name(users.skip(1), name) {
            Some(u) => {
                let i = choose|i: int| 0 <= i < users.skip(1).len() && users.skip(1)[i] == u;
                assert(users[i + 1] == u);
            },
            None => {},
        }
    }
}

/// What `user_by_email` finding or missing a user says about the table.
pub proof fn lemma_user_by_email_props(users: Seq<User>, email: Seq<char>)
    ensures
        match user_by_email(users, email) {
            Some(u) => u.email@ == email && exists|i: int| 0 <= i < users.len() && users[i] == u,
            None => forall|i: int| 0 <= i < users.len() ==> (#[trigger] users[i]).email@ != email,
        },
    decreases users.len(),
{
    if users.len() > 0 && users[0].email@ != email {
        lemma_user_by_email_props(users.skip(1), email);
        assert(forall|i: int| 0 < i < users.len() ==> users.skip(1)[i - 1] == users[i]);
        match user_by_email(users.skip(1), email) {
            Some(u) => {
                let i = choose|i: int| 0 <= i < users.skip(1).len() && users.skip(1)[i] == u;
                assert(users[i + 1] == u);
            },
            None => {},
        }
    }
}

/// What `file_by_id` finding or missing a file says about the table.
pub proof fn lemma_file_by_id_props(files: Seq<File>, id: u64)
    ensures
        match file_by_id(files, id) {
            Some(f) => f.id == id && exists|i: int| 0 <= i < files.len() && files[i] == f,
            None => forall|i: int| 0 <= i < files.len() ==> (#[trigger] files[i]).id != id,
        },
    decreases files.len(),
{
    if files.len() > 0 && files[0].id != id {
        lemma_file_by_id_props(files.skip(1), id);
        assert(forall|i: int| 0 < i < files.len() ==> files.skip(1)[i - 1] == files[i]);
        match file_by_id(files.skip(1), id) {
            Some(f) => {
                let i = choose|i: int| 0 <= i < files.skip(1).len() && files.skip(1)[i] == f;
                assert(files[i + 1] == f);
            },
            None => {},
        }
    }
}

/// What `live_link` finding or missing a link says about the table.
pub proof fn lemma_live_link_props(links: Seq<SharedLink>, shared_id: u64, user_id: u64, now: i64)
    ensures
        match live_link(links, shared_id, user_id, now) {
            Some(l) => link_live_for(l, shared_id, user_id, now) && exists|i: int|
                0 <= i < links.len() && links[i] == l,
            None => forall|i: int|
                0 <= i < links.len() ==> !link_live_for(#[trigger] links[i], shared_id, user_id, now),
        },
    decreases links.len(),
{
    if links.len() > 0 && !link_live_for(links[0], shared_id, user_id, now) {
        lemma_live_link_props(links.skip(1), shared_id, user_id, now);
        assert(forall|i: int| 0 < i < links.len() ==> links.skip(1)[i - 1] == links[i]);
        match live_link(links.skip(1), shared_id, user_id, now) {
            Some(l) => {
                let i = choose|i: int| 0 <= i < links.skip(1).len() && links.skip(1)[i] == l;
                assert(links[i + 1] == l);
            },
            None => {},
        }
    }
}

/// The link rows that survive a reap at instant `now`: exactly those not
/// yet expired, in table order.
pub open spec fn keep_links(links: Seq<SharedLink>, now: i64) -> Seq<SharedLink>
    decreases links.len(),
{
    if links.len() == 0 {
        Seq::empty()
    } else {
        keep_links(links.drop_last(), now) + if links.last().expiration_date >= now {
            seq![links.last()]
        } else {
            Seq::empty()
        }
    }
}

/// Whether file `f` survives a reap at instant `now`: no expired link
/// references it.
pub open spec fn file_kept(f: File, links: Seq<SharedLink>, now: i64) -> bool {
    forall|i: int|
        0 <= i < links.len() ==> ((#[trigger] links[i]).file_id == f.id ==> links[i].expiration_date
            >= now)
}

/// The file rows that survive a reap at instant `now`, in table order.
pub open spec fn keep_files(files: Seq<File>, links: Seq<SharedLink>, now: i64) -> Seq<File>
    decreases files.len(),
{
    if files.len() == 0 {
        Seq::empty()
    } else {
        keep_files(files.drop_last(), links, now) + if file_kept(files.last(), links, now) {
            seq![files.last()]
        } else {
            Seq::empty()
        }
    }
}

/// What reaping does to the link table: surviving rows are exactly the
/// unexpired rows, values are carried over unchanged, and pairwise
/// distinctness and creation-time order are preserved.
pub proof fn lemma_keep_links_wf(links: Seq<SharedLink>, now: i64)
    requires
        forall|i: int, j: int|
            0 <= i < j < links.len() ==> {
                &&& (#[trigger] links[i]).id != (#[trigger] links[j]).id
                &&& links[i].file_id != links[j].file_id
                &&& links[i].created_at <= links[j].created_at
            },
    ensures
        keep_links(links, now).len() <= links.len(),
        forall|p: int|
            0 <= p < keep_links(links, now).len() ==> links.contains(
                #[trigger] keep_links(links, now)[p],
            ) && keep_links(links, now)[p].expiration_date >= now,
        forall|i: int|
            0 <= i < links.len() && (#[trigger] links[i]).expiration_date >= now ==> keep_links(
                links,
                now,
            ).contains(links[i]),
        forall|i: int, j: int|
            0 <= i < j < keep_links(links, now).len() ==> {
                &&& (#[trigger] keep_links(links, now)[i]).id != (#[trigger] keep_links(
                    links,
                    now,
                )[j]).id
                &&& keep_links(links, now)[i].file_id != keep_links(links, now)[j].file_id
                &&& keep_links(links, now)[i].created_at <= keep_links(links, now)[j].created_at
            },
    decreases links.len(),
{
    if links.len() > 0 {
        let pre = links.drop_last();
        assert(forall|i: int| 0 <= i < pre.len() ==> pre[i] == links[i]);
        lemma_keep_links_wf(pre, now);
        let kp = keep_links(pre, now);
        let k = keep_links(links, now);
        assert forall|p: int| 0 <= p < k.len() implies links.contains(#[trigger] k[p])
            && k[p].expiration_date >= now by {
            if p < kp.len() {
                assert(k[p] == kp[p]);
                let w = choose|w: int| 0 <= w < pre.len() && pre[w] == kp[p];
                assert(links[w] == kp[p]);
            } else {
                assert(k[p] == links.last());
                assert(links[links.len() - 1] == links.last());
            }
        }
        assert forall|i: int|
            0 <= i < links.len() && (#[trigger] links[i]).expiration_date >= now implies k.contains(
            links[i],
        ) by {
            if i < pre.len() {
                assert(kp.contains(pre[i]));
                let w = choose|w: int| 0 <= w < kp.len() && kp[w] == pre[i];
                assert(k[w] == links[i]);
            } else {
                assert(k[k.len() - 1] == links.last());
            }
        }
        assert forall|i: int, j: int| 0 <= i < j < k.len() implies {
            &&& (#[trigger] k[i]).id != (#[trigger] k[j]).id
            &&& k[i].file_id != k[j].file_id
            &&& k[i].created_at <= k[j].created_at
        } by {
            if j < kp.len() {
                assert(k[i] == kp[i] && k[j] == kp[j]);
            } else if links.last().expiration_date >= now && j == k.len() - 1 && kp.len() == j {
                assert(k[i] == kp[i]);
                let w = choose|w: int| 0 <= w < pre.len() && pre[w] == kp[i];
                assert(links[w] == k[i]);
                assert(links[w].id != links.last().id);
            }
        }
    }
}

/// What reaping does to the file table: surviving rows are exactly those
/// no expired link references, values carried over unchanged, pairwise
/// distinct ids preserved.
pub proof fn lemma_keep_files_wf(files: Seq<File>, links: Seq<SharedLink>, now: i64)
    requires
        forall|i: int, j: int|
            0 <= i < j < files.len() ==> (#[trigger] files[i]).id != (#[trigger] files[j]).id,
    ensures
        keep_files(files, links, now).len() <= files.len(),
        forall|p: int|
            0 <= p < keep_files(files, links, now).len() ==> files.contains(
                #[trigger] keep_files(files, links, now)[p],
            ) && file_kept(keep_files(files, links, now)[p], links, now),
        forall|i: int|
            0 <= i < files.len() && file_kept(#[trigger] files[i], links, now) ==> keep_files(
                files,
                links,
                now,
            ).contains(files[i]),
        forall|i: int, j: int|
            0 <= i < j < keep_files(files, links, now).len() ==> (#[trigger] keep_files(
                files,
                links,
                now,
            )[i]).id != (#[trigger] keep_files(files, links, now)[j]).id,
    decreases files.len(),
{
    if files.len() > 0 {
        let pre = files.drop_last();
        assert(forall|i: int| 0 <= i < pre.len() ==> pre[i] == files[i]);
        lemma_keep_files_wf(pre, links, now);
        let kp = keep_files(pre, links, now);
        let k = keep_files(files, links, now);
        assert forall|p: int| 0 <= p < k.len() implies files.contains(#[trigger] k[p]) && file_kept(
            k[p],
            links,
            now,
        ) by {
            if p < kp.len() {
                assert(k[p] == kp[p]);
                let w = choose|w: int| 0 <= w < pre.len() && pre[w] == kp[p];
                assert(files[w] == kp[p]);
            } else {
                assert(k[p] == files.last());
                assert(files[files.len() - 1] == files.last());
            }
        }
        assert forall|i: int|
            0 <= i < files.len() && file_kept(#[trigger] files[i], links, now) implies k.contains(
            files[i],
        ) by {
            if i < pre.len() {
                assert(kp.contains(pre[i]));
                let w = choose|w: int| 0 <= w < kp.len() && kp[w] == pre[i];
                assert(k[w] == files[i]);
            } else {
                assert(k[k.len() - 1] == files.last());
            }
        }
        assert forall|i: int, j: int| 0 <= i < j < k.len() implies (#[trigger] k[i]).id
            != (#[trigger] k[j]).id by {
            if j < kp.len() {
                assert(k[i] == kp[i] && k[j] == kp[j]);
            } else if file_kept(files.last(), links, now) && j == k.len() - 1 && kp.len() == j {
                assert(k[i] == kp[i]);
                let w = choose|w: int| 0 <= w < pre.len() && pre[w] == kp[i];
                assert(files[w] == k[i]);
                assert(files[w].id != files.last().id);
            }
        }
    }
}

/// A link table with nothing expired reaps to itself.
pub proof fn lemma_keep_links_identity(links: Seq<SharedLink>, now: i64)
    requires
        forall|i: int| 0 <= i < links.len() ==> (#[trigger] links[i]).expiration_date >= now,
    ensures
        keep_links(links, now) == links,
    decreases links.len(),
{
    if links.len() > 0 {
        let pre = links.drop_last();
        assert(forall|i: int| 0 <= i < pre.len() ==> pre[i] == links[i]);
        lemma_keep_links_identity(pre, now);
        assert(keep_links(links, now) =~= links);
    }
}

/// A file table in which every row is kept reaps to itself.
pub proof fn lemma_keep_files_identity(files: Seq<File>, links: Seq<SharedLink>, now: i64)
    requires
        forall|i: int| 0 <= i < files.len() ==> file_kept(#[trigger] files[i], links, now),
    ensures
        keep_files(files, links, now) == files,
    decreases files.len(),
{
    if files.len() > 0 {
        let pre = files.drop_last();
        assert(forall|i: int| 0 <= i < pre.len() ==> pre[i] == files[i]);
        lemma_keep_files_identity(pre, links, now);
        assert(keep_files(files, links, now) =~= files);
    }
}

/// Where `user_idx_by_id` points: at the first user with the id, or
/// nowhere when the id is absent.
pub proof fn lemma_user_idx_by_id_props(users: Seq<User>, id: u64)
    ensures
        ({
            let k = user_idx_by_id(users, id);
            if k == -1 {
                forall|i: int| 0 <= i < users.len() ==> (#[trigger] users[i]).id != id
            } else {
                &&& 0 <= k < users.len()
                &&& users[k].id == id
                &&& forall|i: int| 0 <= i < k ==> (#[trigger] users[i]).id != id
            }
        }),
    decreases users.len(),
{
    if users.len() > 0 && users[0].id != id {
        lemma_user_idx_by_id_props(users.skip(1), id);
        assert(forall|i: int| 0 < i < users.len() ==> users.skip(1)[i - 1] == users[i]);
    }
}

} // verus!
