//! The system-wide guarantees, stated and proved over the store model.
//!
//! Each law here relates several operations; guarantees that concern one
//! operation alone (duplicate registration fails and changes nothing;
//! a shared-link lookup pins down exactly when it answers; an email
//! search never returns the requester or a keyless user) are stated
//! directly in that operation's contract in [`crate::store`].

use vstd::prelude::*;
use crate::listing::lemma_match_idxs_down;
use crate::listing::sent_idxs;
use crate::listing::sent_listing;
use crate::listing::sent_page;
use crate::listing::sent_row;
use crate::listing::sent_sel;
use crate::listing::recv_idxs;
use crate::listing::recv_listing;
use crate::listing::recv_page;
use crate::listing::recv_row;
use crate::listing::recv_sel;
use crate::model::File;
use crate::model::SharedLink;
use crate::model::StoreView;
use crate::model::file_by_id;
use crate::model::file_kept;
use crate::model::keep_files;
use crate::model::keep_links;
use crate::model::lemma_file_by_id_props;
use crate::model::lemma_keep_files_identity;
use crate::model::lemma_keep_files_wf;
use crate::model::lemma_keep_links_identity;
use crate::model::lemma_keep_links_wf;
use crate::model::lemma_live_link_props;
use crate::model::link_live_for;
use crate::model::live_link;
use crate::model::wf;

verus! {

/// After a successful upload — one fresh file row `f` and one fresh link
/// row `l` wrapping it, as `save_encrypted_file` appends them — the file
/// is immediately retrievable by its id, and the link answers the right
/// recipient at any instant before its expiration.  (The failing half of
/// the upload guarantee — nothing is inserted — is the `Err` clause of
/// `save_encrypted_file` itself.)
pub proof fn lemma_upload_then_retrievable(
    v: StoreView,
    f: File,
    l: SharedLink,
    post: StoreView,
    t: i64,
)
    requires
        wf(v),
        f.id == v.next_id,
        l.id == v.next_id + 1,
        l.file_id == f.id,
        post.users == v.users,
        post.files == v.files.push(f),
        post.links == v.links.push(l),
        t < l.expiration_date,
    ensures
        file_by_id(post.files, f.id) == Some(f),
        live_link(post.links, l.id, l.recipient_user_id, t) == Some(l),
{
    lemma_file_by_id_props(post.files, f.id);
    match file_by_id(post.files, f.id) {
        None => {
            assert(post.files[post.files.len() - 1] == f);
            assert(false);
        },
        Some(x) => {
            let i = choose|i: int| 0 <= i < post.files.len() && post.files[i] == x;
            if i < v.files.len() {
                assert(post.files[i] == v.files[i]);
                assert(v.files[i].id < v.next_id);
                assert(false);
            } else {
                assert(x == f);
            }
        },
    }
    lemma_live_link_props(post.links, l.id, l.recipient_user_id, t);
    match live_link(post.links, l.id, l.recipient_user_id, t) {
        None => {
            assert(post.links[post.links.len() - 1] == l);
            assert(link_live_for(l, l.id, l.recipient_user_id, t));
            assert(false);
        },
        Some(x) => {
            let i = choose|i: int| 0 <= i < post.links.len() && post.links[i] == x;
            if i < v.links.len() {
                assert(post.links[i] == v.links[i]);
                assert(v.links[i].id < v.next_id);
                assert(false);
            } else {
                assert(x == l);
            }
        },
    }
}

/// The three ways a retrieval can be refused — no link with the id, a
/// link addressed to someone else, an expired link — are one outcome:
/// whenever no stored link passes all three checks, the lookup finds
/// nothing, and nothing about the cause leaks.
pub proof fn lemma_get_shared_hides_cause(v: StoreView, shared_id: u64, user_id: u64, t: i64)
    requires
        forall|i: int|
            0 <= i < v.links.len() ==> ((#[trigger] v.links[i]).id != shared_id || v.links[
                i
            ].recipient_user_id != user_id || v.links[i].expiration_date <= t),
    ensures
        live_link(v.links, shared_id, user_id, t) is None,
{
    lemma_live_link_props(v.links, shared_id, user_id, t);
    match live_link(v.links, shared_id, user_id, t) {
        Some(l) => {
            let i = choose|i: int| 0 <= i < v.links.len() && v.links[i] == l;
            assert(false);
        },
        None => {},
    }
}

/// Every page of the sent listing is the corresponding consecutive slice
/// of the one full listing: positions `(page-1)*limit .. page*limit`,
/// clipped to its length.  The reported total is the full listing's
/// length on every page, and consecutive pages cover consecutive rows.
pub proof fn lemma_sent_page_is_slice(v: StoreView, user: u64, page: int, limit: int)
    requires
        page >= 1,
        limit >= 1,
    ensures
        ({
            let full = sent_listing(v, user);
            let lo = if (page - 1) * limit < full.len() {
                (page - 1) * limit
            } else {
                full.len() as int
            };
            let hi = if page * limit < full.len() {
                page * limit
            } else {
                full.len() as int
            };
            sent_page(v, user, page, limit) == full.subrange(lo, hi)
        }),
{
    let idxs = sent_idxs(v, user);
    let full = sent_listing(v, user);
    assert((page - 1) * limit + limit == page * limit) by (nonlinear_arith);
    assert((page - 1) * limit >= 0) by (nonlinear_arith)
        requires
            page >= 1,
            limit >= 1,
    ;
    let lo = if (page - 1) * limit < full.len() {
        (page - 1) * limit
    } else {
        full.len() as int
    };
    let hi = if page * limit < full.len() {
        page * limit
    } else {
        full.len() as int
    };
    assert(full.len() == idxs.len());
    assert forall|k: int| 0 <= k < sent_page(v, user, page, limit).len() implies sent_page(
        v,
        user,
        page,
        limit,
    )[k] == full.subrange(lo, hi)[k] by {
        let w = crate::listing::page_window(idxs, (page - 1) * limit, limit);
        assert(sent_page(v, user, page, limit)[k] == sent_row(v, w[k]));
        assert(full[lo + k] == sent_row(v, idxs[lo + k]));
    }
    assert(sent_page(v, user, page, limit) =~= full.subrange(lo, hi));
}

/// No two rows of one user's sent listing describe the same file: the
/// file id is unique across the listing, so a row that appeared on one
/// page can never reappear on another.
pub proof fn lemma_sent_listing_distinct(v: StoreView, user: u64)
    requires
        wf(v),
    ensures
        forall|p: int, q: int|
            0 <= p < q < sent_listing(v, user).len() ==> (#[trigger] sent_listing(v, user)[p])
                .file_id != (#[trigger] sent_listing(v, user)[q]).file_id,
{
    let idxs = sent_idxs(v, user);
    let full = sent_listing(v, user);
    lemma_match_idxs_down(v.links.len() as int, sent_sel(v, user), 0);
    assert forall|p: int, q: int| 0 <= p < q < full.len() implies (#[trigger] full[p]).file_id
        != (#[trigger] full[q]).file_id by {
        let jp = idxs[p];
        let jq = idxs[q];
        assert(jp > jq);
        assert(sent_sel(v, user)(jp) && sent_sel(v, user)(jq));
        assert(full[p] == sent_row(v, jp));
        assert(full[q] == sent_row(v, jq));
        lemma_file_by_id_props(v.files, v.links[jp].file_id);
        lemma_file_by_id_props(v.files, v.links[jq].file_id);
        assert(v.links[jq].file_id != v.links[jp].file_id);
    }
}

/// Distinct pages of one user's sent listing share no row: under a static
/// data set, what page `p` showed never reappears on a later page `q`.
pub proof fn lemma_sent_pages_disjoint(v: StoreView, user: u64, limit: int, p: int, q: int)
    requires
        wf(v),
        limit >= 1,
        1 <= p < q,
    ensures
        forall|x: crate::model::SendFileDetails|
            sent_page(v, user, p, limit).contains(x) ==> !sent_page(v, user, q, limit).contains(
                x,
            ),
{
    let full = sent_listing(v, user);
    lemma_sent_page_is_slice(v, user, p, limit);
    lemma_sent_page_is_slice(v, user, q, limit);
    lemma_sent_listing_distinct(v, user);
    assert(p * limit <= (q - 1) * limit) by (nonlinear_arith)
        requires
            limit >= 1,
            p <= q - 1,
    ;
    let lop = if (p - 1) * limit < full.len() {
        (p - 1) * limit
    } else {
        full.len() as int
    };
    let hip = if p * limit < full.len() {
        p * limit
    } else {
        full.len() as int
    };
    let loq = if (q - 1) * limit < full.len() {
        (q - 1) * limit
    } else {
        full.len() as int
    };
    let hiq = if q * limit < full.len() {
        q * limit
    } else {
        full.len() as int
    };
    assert(p * limit <= (q - 1) * limit) by (nonlinear_arith)
        requires
            limit >= 1,
            p <= q - 1,
    ;
    assert(0 <= (p - 1) * limit <= p * limit && 0 <= (q - 1) * limit <= q * limit)
        by (nonlinear_arith)
        requires
            limit >= 1,
            1 <= p,
            1 <= q,
    ;
    assert forall|x: crate::model::SendFileDetails|
        sent_page(v, user, p, limit).contains(x) implies !sent_page(v, user, q, limit).contains(
        x,
    ) by {
        let a = choose|a: int|
            0 <= a < sent_page(v, user, p, limit).len() && sent_page(v, user, p, limit)[a] == x;
        assert(full[lop + a] == x);
        assert(lop + a < hip);
        if sent_page(v, user, q, limit).contains(x) {
            let b = choose|b: int|
                0 <= b < sent_page(v, user, q, limit).len() && sent_page(v, user, q, limit)[b]
                    == x;
            assert(full[loq + b] == x);
            assert(loq + b < hiq <= full.len());
            assert(loq == (q - 1) * limit);
            assert(lop + a < loq + b);
            assert(full[lop + a].file_id != full[loq + b].file_id);
            assert(false);
        }
    }
}

/// The sent listing is ordered by link creation time, most recent first.
pub proof fn lemma_sent_listing_ordered(v: StoreView, user: u64)
    requires
        wf(v),
    ensures
        forall|p: int, q: int|
            0 <= p < q < sent_listing(v, user).len() ==> (#[trigger] sent_listing(v, user)[p])
                .created_at >= (#[trigger] sent_listing(v, user)[q]).created_at,
{
    let idxs = sent_idxs(v, user);
    let full = sent_listing(v, user);
    lemma_match_idxs_down(v.links.len() as int, sent_sel(v, user), 0);
    assert forall|p: int, q: int| 0 <= p < q < full.len() implies (#[trigger] full[p]).created_at
        >= (#[trigger] full[q]).created_at by {
        let jp = idxs[p];
        let jq = idxs[q];
        assert(jp > jq);
        assert(full[p] == sent_row(v, jp));
        assert(full[q] == sent_row(v, jq));
        assert(v.links[jq].created_at <= v.links[jp].created_at);
    }
}

/// Every page of the received listing is the corresponding consecutive
/// slice of the one full listing, exactly as for the sent listing.
pub proof fn lemma_recv_page_is_slice(v: StoreView, user: u64, page: int, limit: int)
    requires
        page >= 1,
        limit >= 1,
    ensures
        ({
            let full = recv_listing(v, user);
            let lo = if (page - 1) * limit < full.len() {
                (page - 1) * limit
            } else {
                full.len() as int
            };
            let hi = if page * limit < full.len() {
                page * limit
            } else {
                full.len() as int
            };
            recv_page(v, user, page, limit) == full.subrange(lo, hi)
        }),
{
    let idxs = recv_idxs(v, user);
    let full = recv_listing(v, user);
    assert((page - 1) * limit + limit == page * limit) by (nonlinear_arith);
    assert((page - 1) * limit >= 0) by (nonlinear_arith)
        requires
            page >= 1,
            limit >= 1,
    ;
    let lo = if (page - 1) * limit < full.len() {
        (page - 1) * limit
    } else {
        full.len() as int
    };
    let hi = if page * limit < full.len() {
        page * limit
    } else {
        full.len() as int
    };
    assert(full.len() == idxs.len());
    assert forall|k: int| 0 <= k < recv_page(v, user, page, limit).len() implies recv_page(
        v,
        user,
        page,
        limit,
    )[k] == full.subrange(lo, hi)[k] by {
        let w = crate::listing::page_window(idxs, (page - 1) * limit, limit);
        assert(recv_page(v, user, page, limit)[k] == recv_row(v, w[k]));
        assert(full[lo + k] == recv_row(v, idxs[lo + k]));
    }
    assert(recv_page(v, user, page, limit) =~= full.subrange(lo, hi));
}

/// No two rows of one user's received listing describe the same shared
/// link: the listed id is unique across the listing.
pub proof fn lemma_recv_listing_distinct(v: StoreView, user: u64)
    requires
        wf(v),
    ensures
        forall|p: int, q: int|
            0 <= p < q < recv_listing(v, user).len() ==> (#[trigger] recv_listing(v, user)[p])
                .file_id != (#[trigger] recv_listing(v, user)[q]).file_id,
{
    let idxs = recv_idxs(v, user);
    let full = recv_listing(v, user);
    lemma_match_idxs_down(v.links.len() as int, recv_sel(v, user), 0);
    assert forall|p: int, q: int| 0 <= p < q < full.len() implies (#[trigger] full[p]).file_id
        != (#[trigger] full[q]).file_id by {
        let jp = idxs[p];
        let jq = idxs[q];
        assert(jp > jq);
        assert(full[p] == recv_row(v, jp));
        assert(full[q] == recv_row(v, jq));
        assert(v.links[jq].id != v.links[jp].id);
    }
}

/// The received listing is ordered by link creation time, most recent
/// first, expired rows included.
pub proof fn lemma_recv_listing_ordered(v: StoreView, user: u64)
    requires
        wf(v),
    ensures
        forall|p: int, q: int|
            0 <= p < q < recv_listing(v, user).len() ==> (#[trigger] recv_listing(v, user)[p])
                .created_at >= (#[trigger] recv_listing(v, user)[q]).created_at,
{
    let idxs = recv_idxs(v, user);
    let full = recv_listing(v, user);
    lemma_match_idxs_down(v.links.len() as int, recv_sel(v, user), 0);
    assert forall|p: int, q: int| 0 <= p < q < full.len() implies (#[trigger] full[p]).created_at
        >= (#[trigger] full[q]).created_at by {
        let jp = idxs[p];
        let jq = idxs[q];
        assert(jp > jq);
        assert(full[p] == recv_row(v, jp));
        assert(full[q] == recv_row(v, jq));
        assert(v.links[jq].created_at <= v.links[jp].created_at);
    }
}

/// Reaping is idempotent: a second pass at the same instant, with no new
/// expirations in between, removes nothing — neither links nor files.
pub proof fn lemma_reaper_idempotent(v: StoreView, now: i64)
    requires
        wf(v),
    ensures
        keep_links(keep_links(v.links, now), now) == keep_links(v.links, now),
        keep_files(keep_files(v.files, v.links, now), keep_links(v.links, now), now)
            == keep_files(v.files, v.links, now),
{
    let kl = keep_links(v.links, now);
    let kf = keep_files(v.files, v.links, now);
    lemma_keep_links_wf(v.links, now);
    lemma_keep_links_identity(kl, now);
    lemma_keep_files_wf(v.files, v.links, now);
    assert forall|i: int| 0 <= i < kf.len() implies file_kept(#[trigger] kf[i], kl, now) by {}
    lemma_keep_files_identity(kf, kl, now);
}

/// One reaper pass fully purges an expired link together with its file:
/// afterwards neither row is in the store.  Within the pass the two
/// deletions are a single atomic step, links first, so no state with one
/// row but not the other is ever observable.
pub proof fn lemma_reaper_purges(v: StoreView, now: i64, li: int)
    requires
        wf(v),
        0 <= li < v.links.len(),
        v.links[li].expiration_date < now,
    ensures
        !keep_links(v.links, now).contains(v.links[li]),
        forall|fi: int|
            0 <= fi < v.files.len() && (#[trigger] v.files[fi]).id == v.links[li].file_id
                ==> !keep_files(v.files, v.links, now).contains(v.files[fi]),
{
    lemma_keep_links_wf(v.links, now);
    if keep_links(v.links, now).contains(v.links[li]) {
        let w = choose|w: int|
            0 <= w < keep_links(v.links, now).len() && keep_links(v.links, now)[w] == v.links[li];
        assert(false);
    }
    lemma_keep_files_wf(v.files, v.links, now);
    assert forall|fi: int|
        0 <= fi < v.files.len() && (#[trigger] v.files[fi]).id == v.links[li].file_id
            implies !keep_files(v.files, v.links, now).contains(v.files[fi]) by {
        if keep_files(v.files, v.links, now).contains(v.files[fi]) {
            let w = choose|w: int|
                0 <= w < keep_files(v.files, v.links, now).len() && keep_files(
                    v.files,
                    v.links,
                    now,
                )[w] == v.files[fi];
            assert(file_kept(v.files[fi], v.links, now));
            assert(false);
        }
    }
}

} // verus!
