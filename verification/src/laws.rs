//! The store's cross-operation guarantees, stated and proved over the
//! mathematical model: what two saves of one record leave behind, what two
//! copies of one hash leave in the replica, what a clear leaves on every
//! page, and what the suppression signal blocks.

use vstd::prelude::*;

use crate::app::clamped_page;
use crate::capture::capture_allowed;
use crate::model::{ClipModel, PayloadModel, wf_clips, has_hash, count_hash, clip_of,
    payloads_of, save_step, copy_step, window_of, lemma_wf_count_hash};
use crate::restore::EchoFlag;

verus! {

/// Appending one record changes the count of a hash by exactly its match.
proof fn lemma_count_hash_snoc(m: Seq<ClipModel>, h: Seq<char>)
    requires
        m.len() > 0,
    ensures
        count_hash(m, h) == count_hash(m.drop_last(), h) + if m.last().hash == h {
            1nat
        } else {
            0nat
        },
{
    reveal(Seq::filter);
}

/// In a store extended by one record with hash `h` that was absent before,
/// `h` names the new record.
proof fn lemma_appended_lookup(m0: Seq<ClipModel>, m1: Seq<ClipModel>, h: Seq<char>)
    requires
        !has_hash(m0, h),
        m1.len() == m0.len() + 1,
        m1.take(m0.len() as int) == m0,
        m1.last().hash == h,
    ensures
        has_hash(m1, h),
        clip_of(m1, h) == m1.last(),
{
    assert(m1[m1.len() - 1].hash == h);
    assert(has_hash(m1, h));
    let j = choose|j: int| 0 <= j < m1.len() && m1[j].hash == h;
    if j < m0.len() {
        assert(m0[j] == m1[j]);
        assert(has_hash(m0, h));
    }
    assert(m1[j] == m1.last());
}

/// Dedup idempotence: saving the same record twice leaves exactly one
/// record with its hash — the second save is a no-op — and, when the hash
/// was new, that record carries exactly the saved payload rows.
pub proof fn dedup_saves_once(
    m0: Seq<ClipModel>,
    m1: Seq<ClipModel>,
    m2: Seq<ClipModel>,
    owner: Seq<char>,
    fg_title: Seq<char>,
    exe_path: Seq<char>,
    hash: Seq<char>,
    payloads: Seq<PayloadModel>,
)
    requires
        wf_clips(m0),
        save_step(m0, m1, owner, fg_title, exe_path, hash, payloads),
        save_step(m1, m2, owner, fg_title, exe_path, hash, payloads),
    ensures
        m2 == m1,
        count_hash(m1, hash) == 1,
        !has_hash(m0, hash) ==> payloads_of(m1, hash) == payloads,
{
    if has_hash(m0, hash) {
        lemma_wf_count_hash(m0, hash);
    } else {
        assert(m1.drop_last() =~= m0);
        lemma_count_hash_snoc(m1, hash);
        lemma_wf_count_hash(m0, hash);
        lemma_appended_lookup(m0, m1, hash);
    }
}

/// Replica idempotence: copying one hash into the replica twice leaves
/// exactly one replica record with that hash — the second copy is a no-op.
/// The replica's contents mention the source store nowhere after the copy,
/// so no later operation on the source (deleting the record included)
/// changes them.
pub proof fn replica_copied_once(
    r0: Seq<ClipModel>,
    r1: Seq<ClipModel>,
    r2: Seq<ClipModel>,
    src: Seq<ClipModel>,
    hash: Seq<char>,
)
    requires
        wf_clips(r0),
        copy_step(r0, r1, src, hash),
        copy_step(r1, r2, src, hash),
    ensures
        r2 == r1,
        count_hash(r1, hash) == 1,
        has_hash(r1, hash),
{
    if has_hash(r0, hash) {
        lemma_wf_count_hash(r0, hash);
    } else {
        let ps = choose|ps: Seq<PayloadModel>|
            {
                &&& #[trigger] crate::model::appended(
                    r0,
                    r1,
                    clip_of(src, hash).owner,
                    clip_of(src, hash).fg_title,
                    clip_of(src, hash).exe_path,
                    hash,
                    ps,
                )
                &&& ps.to_multiset() == clip_of(src, hash).payloads.to_multiset()
                &&& crate::model::sorted_by_format(ps)
            };
        assert(r1.drop_last() =~= r0);
        lemma_count_hash_snoc(r1, hash);
        lemma_wf_count_hash(r0, hash);
        lemma_appended_lookup(r0, r1, hash);
    }
}

/// Cascade of a full clear: the empty store has no records to count and
/// every pagination window over it, whatever the cursor, is empty.
pub proof fn cleared_store_shows_nothing(limit: int, offset: int)
    ensures
        Seq::<ClipModel>::empty().len() == 0,
        window_of(Seq::<ClipModel>::empty(), limit, offset) == Seq::<ClipModel>::empty(),
{
    assert(window_of(Seq::<ClipModel>::empty(), limit, offset) =~= Seq::<ClipModel>::empty());
}

/// Echo suppression: while the suppression signal a restore raised is up,
/// no clipboard event — whatever the port reports — is allowed to become a
/// capture.
pub proof fn suppression_blocks_capture(flag: EchoFlag, n_formats: nat)
    requires
        flag.raised,
    ensures
        !capture_allowed(flag.raised, n_formats),
{
}

/// Pagination clamping: the clamped cursor is never negative, never grows,
/// and never points past the last nonempty page.
pub proof fn clamped_page_bounds(current: int, total: int, per_page: int)
    requires
        current >= 0,
        total >= 0,
        per_page > 0,
    ensures
        0 <= clamped_page(current, total, per_page) <= current,
        clamped_page(current, total, per_page) <= (if (total + per_page - 1) / per_page > 0 {
            (total + per_page - 1) / per_page - 1
        } else {
            0int
        }),
{
    assert((total + per_page - 1) / per_page >= 0) by (nonlinear_arith)
        requires per_page > 0, total >= 0
    ;
}

} // verus!
