//! Paginated listings: the files a user has sent and the links addressed
//! to a user, each joined across the three tables and ordered by link
//! creation time, most recent first.
//!
//! Pagination is offset-based: page `p` with page size `limit` covers the
//! matching rows at positions `(p-1)*limit .. p*limit` of the full
//! ordered listing, and every call also reports the total match count.
//! The received listing deliberately does not filter out expired-but-not-
//! yet-reaped links: they stay visible until the reaper removes them.

use vstd::prelude::*;
use crate::model::ReceiveFileDetails;
use crate::model::SendFileDetails;
use crate::model::StoreView;
use crate::model::file_by_id;
use crate::model::user_by_id;
use crate::model::lemma_file_by_id_props;
use crate::model::lemma_user_by_id_props;
use crate::model::wf;
use crate::store::DBClient;

verus! {

/// The link indices in `[i, n)` satisfying `sel`, listed from the most
/// recently inserted down — the reverse of table order.
pub open spec fn match_idxs_down(n: int, sel: spec_fn(int) -> bool, i: int) -> Seq<int>
    decreases n - i,
{
    if i < 0 || i >= n {
        Seq::empty()
    } else {
        match_idxs_down(n, sel, i + 1) + if sel(i) {
            seq![i]
        } else {
            Seq::empty()
        }
    }
}

/// Shape of `match_idxs_down`: entries lie in `[i, n)`, satisfy `sel`,
/// strictly decrease, and every matching index appears.
pub proof fn lemma_match_idxs_down(n: int, sel: spec_fn(int) -> bool, i: int)
    ensures
        match_idxs_down(n, sel, i).len() <= if n - i >= 0 {
            n - i
        } else {
            0
        },
        forall|p: int|
            0 <= p < match_idxs_down(n, sel, i).len() ==> i <= #[trigger] match_idxs_down(
                n,
                sel,
                i,
            )[p] < n && sel(match_idxs_down(n, sel, i)[p]),
        forall|p: int, q: int|
            0 <= p < q < match_idxs_down(n, sel, i).len() ==> match_idxs_down(n, sel, i)[p]
                > match_idxs_down(n, sel, i)[q],
        forall|k: int| 0 <= i <= k < n && sel(k) ==> match_idxs_down(n, sel, i).contains(k),
    decreases n - i,
{
    if 0 <= i < n {
        lemma_match_idxs_down(n, sel, i + 1);
        let tail = match_idxs_down(n, sel, i + 1);
        let s = match_idxs_down(n, sel, i);
        assert forall|k: int| 0 <= i <= k < n && sel(k) implies s.contains(k) by {
            if k > i {
                assert(tail.contains(k));
                let w = choose|w: int| 0 <= w < tail.len() && tail[w] == k;
                assert(s[w] == k);
            } else {
                assert(s[s.len() - 1] == i);
            }
        }
    }
}

/// The slice of `s` that page arithmetic selects: positions
/// `offset .. offset + limit`, clipped to the length of `s`.
pub open spec fn page_window(s: Seq<int>, offset: int, limit: int) -> Seq<int> {
    let lo = if offset < s.len() {
        offset
    } else {
        s.len() as int
    };
    let hi = if offset + limit < s.len() {
        offset + limit
    } else {
        s.len() as int
    };
    s.subrange(lo, hi)
}

/// Whether the link at index `j` belongs to the sent listing of `user`:
/// its file row exists and `user` owns it.  This is also exactly what the
/// total count of the sent listing counts.
pub open spec fn sent_match(v: StoreView, user: u64, j: int) -> bool {
    &&& file_by_id(v.files, v.links[j].file_id) is Some
    &&& (file_by_id(v.files, v.links[j].file_id)->0).user_id == user
}

/// The sent-listing row for the link at index `j`: the file's id and
/// name, the recipient's email, and the link's expiration and creation
/// instants.
pub open spec fn sent_row(v: StoreView, j: int) -> SendFileDetails {
    let l = v.links[j];
    let f = file_by_id(v.files, l.file_id)->0;
    let u = user_by_id(v.users, l.recipient_user_id)->0;
    SendFileDetails {
        file_id: f.id,
        file_name: f.file_name,
        recipient_email: u.email,
        expiration_date: l.expiration_date,
        created_at: l.created_at,
    }
}

/// The sent-listing selector of `user`, over link indices.
pub open spec fn sent_sel(v: StoreView, user: u64) -> spec_fn(int) -> bool {
    |j: int| sent_match(v, user, j)
}

/// The matching link indices of the sent listing, newest link first.
pub open spec fn sent_idxs(v: StoreView, user: u64) -> Seq<int> {
    match_idxs_down(v.links.len() as int, sent_sel(v, user), 0)
}

/// The full sent listing of `user`, newest link first.
pub open spec fn sent_listing(v: StoreView, user: u64) -> Seq<SendFileDetails> {
    sent_idxs(v, user).map_values(|j: int| sent_row(v, j))
}

/// One page of the sent listing.
pub open spec fn sent_page(v: StoreView, user: u64, page: int, limit: int) -> Seq<
    SendFileDetails,
> {
    page_window(sent_idxs(v, user), (page - 1) * limit, limit).map_values(|j: int| sent_row(v, j))
}

/// Whether the link at index `j` belongs to the received listing of
/// `user`: it is addressed to `user` and its file row exists.  Expiration
/// is deliberately not consulted.
pub open spec fn recv_match(v: StoreView, user: u64, j: int) -> bool {
    &&& v.links[j].recipient_user_id == user
    &&& file_by_id(v.files, v.links[j].file_id) is Some
}

/// The received-listing row for the link at index `j`: the shared-link id
/// (that is what a recipient retrieves by), the file's name, the sender's
/// email, and the link's expiration and creation instants.
pub open spec fn recv_row(v: StoreView, j: int) -> ReceiveFileDetails {
    let l = v.links[j];
    let f = file_by_id(v.files, l.file_id)->0;
    let u = user_by_id(v.users, f.user_id)->0;
    ReceiveFileDetails {
        file_id: l.id,
        file_name: f.file_name,
        sender_email: u.email,
        expiration_date: l.expiration_date,
        created_at: l.created_at,
    }
}

/// The received-listing selector of `user`, over link indices.
pub open spec fn recv_sel(v: StoreView, user: u64) -> spec_fn(int) -> bool {
    |j: int| recv_match(v, user, j)
}

/// The matching link indices of the received listing, newest link first.
pub open spec fn recv_idxs(v: StoreView, user: u64) -> Seq<int> {
    match_idxs_down(v.links.len() as int, recv_sel(v, user), 0)
}

/// The full received listing of `user`, newest link first.
pub open spec fn recv_listing(v: StoreView, user: u64) -> Seq<ReceiveFileDetails> {
    recv_idxs(v, user).map_values(|j: int| recv_row(v, j))
}

/// One page of the received listing.
pub open spec fn recv_page(v: StoreView, user: u64, page: int, limit: int) -> Seq<
    ReceiveFileDetails,
> {
    page_window(recv_idxs(v, user), (page - 1) * limit, limit).map_values(|j: int| recv_row(v, j))
}

impl DBClient {
    /// Pages through every file `user_id` has sent, joined with its link
    /// and the recipient's email, newest link first.  `page` is
    /// 1-indexed; the page size is the caller-enforced `limit`.  Also
    /// returns the total number of matching rows, for page-count
    /// computation — the same on every page of one data set.
    pub fn get_send_files(&self, user_id: u64, page: u32, limit: usize) -> (r: (
        Vec<SendFileDetails>,
        usize,
    ))
        requires
            wf(self@),
            page >= 1,
            1 <= limit <= 50,
        ensures
            r.0@ == sent_page(self@, user_id, page as int, limit as int),
            r.1 == sent_idxs(self@, user_id).len(),
    {
        let pm1: u64 = (page - 1) as u64;
        let lim64: u64 = limit as u64;
        proof {
            assert(pm1 * lim64 <= 0xffff_ffffu64 * 50u64) by (nonlinear_arith)
                requires
                    pm1 <= 0xffff_ffffu64,
                    lim64 <= 50,
            ;
        }
        let offset: u64 = pm1 * lim64;
        proof {
            assert(offset as int == (page as int - 1) * (limit as int));
        }
        let ghost v = self@;
        let ghost sel = sent_sel(v, user_id);
        let ghost n = v.links.len() as int;
        let mut rows: Vec<SendFileDetails> = Vec::new();
        let mut matched: usize = 0;
        let mut i: usize = self.links_len();
        while i > 0
            invariant
                wf(v),
                v == self@,
                sel == sent_sel(v, user_id),
                n == v.links.len(),
                n <= usize::MAX,
                i <= n,
                offset <= 0xffff_ffffu64 * 50u64,
                lim64 == limit as u64,
                1 <= limit <= 50,
                matched == match_idxs_down(n, sel, i as int).len(),
                matched <= n - i,
                rows@.len() == page_window(
                    match_idxs_down(n, sel, i as int),
                    offset as int,
                    limit as int,
                ).len(),
                forall|k: int|
                    0 <= k < rows@.len() ==> rows@[k] == sent_row(
                        v,
                        page_window(
                            match_idxs_down(n, sel, i as int),
                            offset as int,
                            limit as int,
                        )[k],
                    ),
            decreases i,
        {
            i = i - 1;
            let ghost tail = match_idxs_down(n, sel, i as int + 1);
            let ghost cur = match_idxs_down(n, sel, i as int);
            let link_file_id = self.link_at(i).file_id;
            proof {
                assert(crate::model::has_file_id(v.files, link_file_id));
                lemma_file_by_id_props(v.files, link_file_id);
            }
            let fopt = self.get_file(link_file_id);
            let f = fopt.unwrap();
            let is_hit = f.user_id == user_id;
            proof {
                assert(sel(i as int) == sent_match(v, user_id, i as int));
                assert(sent_match(v, user_id, i as int) == is_hit);
                if is_hit {
                    assert(cur =~= tail + seq![i as int]);
                } else {
                    assert(cur =~= tail);
                }
            }
            if is_hit {
                if matched as u64 >= offset && (matched as u64) < offset + lim64 {
                    let recipient_id = self.link_at(i).recipient_user_id;
                    proof {
                        assert(crate::model::has_user_id(v.users, recipient_id));
                        lemma_user_by_id_props(v.users, recipient_id);
                    }
                    let uopt = self.user_lookup(recipient_id);
                    let u = uopt.unwrap();
                    let l = self.link_at(i);
                    let row = SendFileDetails {
                        file_id: f.id,
                        file_name: f.file_name.clone(),
                        recipient_email: u.email.clone(),
                        expiration_date: l.expiration_date,
                        created_at: l.created_at,
                    };
                    proof {
                        assert(row == sent_row(v, i as int));
                    }
                    rows.push(row);
                }
                matched = matched + 1;
            }
            proof {
                let tw = page_window(tail, offset as int, limit as int);
                let cw = page_window(cur, offset as int, limit as int);
                if sel(i as int) && offset as int <= tail.len() < offset as int + limit as int {
                    assert(cw =~= tw.push(i as int));
                } else {
                    assert(cw =~= tw);
                }
                assert forall|k: int| 0 <= k < rows@.len() implies rows@[k] == sent_row(
                    v,
                    cw[k],
                ) by {
                    if k < tw.len() {
                        assert(cw[k] == tw[k]);
                    }
                }
            }
        }
        proof {
            let full = page_window(sent_idxs(v, user_id), offset as int, limit as int);
            let out = sent_page(v, user_id, page as int, limit as int);
            assert(out.len() == full.len());
            assert forall|k: int| 0 <= k < rows@.len() implies rows@[k] == out[k] by {
                assert(out[k] == sent_row(v, full[k]));
            }
            assert(rows@ =~= out);
        }
        (rows, matched)
    }

    /// Pages through every link addressed to `user_id`, joined with its
    /// file and the sender's email, newest link first; expired links stay
    /// listed until reaped.  Same pagination and total-count contract as
    /// the sent listing.
    pub fn get_receive_files(&self, user_id: u64, page: u32, limit: usize) -> (r: (
        Vec<ReceiveFileDetails>,
        usize,
    ))
        requires
            wf(self@),
            page >= 1,
            1 <= limit <= 50,
        ensures
            r.0@ == recv_page(self@, user_id, page as int, limit as int),
            r.1 == recv_idxs(self@, user_id).len(),
    {
        let pm1: u64 = (page - 1) as u64;
        let lim64: u64 = limit as u64;
        proof {
            assert(pm1 * lim64 <= 0xffff_ffffu64 * 50u64) by (nonlinear_arith)
                requires
                    pm1 <= 0xffff_ffffu64,
                    lim64 <= 50,
            ;
        }
        let offset: u64 = pm1 * lim64;
        proof {
            assert(offset as int == (page as int - 1) * (limit as int));
        }
        let ghost v = self@;
        let ghost sel = recv_sel(v, user_id);
        let ghost n = v.links.len() as int;
        let mut rows: Vec<ReceiveFileDetails> = Vec::new();
        let mut matched: usize = 0;
        let mut i: usize = self.links_len();
        while i > 0
            invariant
                wf(v),
                v == self@,
                sel == recv_sel(v, user_id),
                n == v.links.len(),
                n <= usize::MAX,
                i <= n,
                offset <= 0xffff_ffffu64 * 50u64,
                lim64 == limit as u64,
                1 <= limit <= 50,
                matched == match_idxs_down(n, sel, i as int).len(),
                matched <= n - i,
                rows@.len() == page_window(
                    match_idxs_down(n, sel, i as int),
                    offset as int,
                    limit as int,
                ).len(),
                forall|k: int|
                    0 <= k < rows@.len() ==> rows@[k] == recv_row(
                        v,
                        page_window(
                            match_idxs_down(n, sel, i as int),
                            offset as int,
                            limit as int,
                        )[k],
                    ),
            decreases i,
        {
            i = i - 1;
            let ghost tail = match_idxs_down(n, sel, i as int + 1);
            let ghost cur = match_idxs_down(n, sel, i as int);
            let link_file_id = self.link_at(i).file_id;
            proof {
                assert(crate::model::has_file_id(v.files, link_file_id));
                lemma_file_by_id_props(v.files, link_file_id);
            }
            let is_hit = self.link_at(i).recipient_user_id == user_id;
            proof {
                assert(sel(i as int) == recv_match(v, user_id, i as int));
                assert(recv_match(v, user_id, i as int) == is_hit);
                if is_hit {
                    assert(cur =~= tail + seq![i as int]);
                } else {
                    assert(cur =~= tail);
                }
            }
            if is_hit {
                if matched as u64 >= offset && (matched as u64) < offset + lim64 {
                    let fopt = self.get_file(link_file_id);
                    let f = fopt.unwrap();
                    proof {
                        assert(crate::model::has_user_id(v.users, f.user_id));
                        lemma_user_by_id_props(v.users, f.user_id);
                    }
                    let uopt = self.user_lookup(f.user_id);
                    let u = uopt.unwrap();
                    let l = self.link_at(i);
                    let row = ReceiveFileDetails {
                        file_id: l.id,
                        file_name: f.file_name.clone(),
                        sender_email: u.email.clone(),
                        expiration_date: l.expiration_date,
                        created_at: l.created_at,
                    };
                    proof {
                        assert(row == recv_row(v, i as int));
                    }
                    rows.push(row);
                }
                matched = matched + 1;
            }
            proof {
                let tw = page_window(tail, offset as int, limit as int);
                let cw = page_window(cur, offset as int, limit as int);
                if sel(i as int) && offset as int <= tail.len() < offset as int + limit as int {
                    assert(cw =~= tw.push(i as int));
                } else {
                    assert(cw =~= tw);
                }
                assert forall|k: int| 0 <= k < rows@.len() implies rows@[k] == recv_row(
                    v,
                    cw[k],
                ) by {
                    if k < tw.len() {
                        assert(cw[k] == tw[k]);
                    }
                }
            }
        }
        proof {
            let full = page_window(recv_idxs(v, user_id), offset as int, limit as int);
            let out = recv_page(v, user_id, page as int, limit as int);
            assert(out.len() == full.len());
            assert forall|k: int| 0 <= k < rows@.len() implies rows@[k] == out[k] by {
                assert(out[k] == recv_row(v, full[k]));
            }
            assert(rows@ =~= out);
        }
        (rows, matched)
    }
}

} // verus!
