//! Mathematical model of a clip store.
//!
//! A store is modelled as the sequence of its persisted clip records in
//! insertion order (oldest first). Each record carries its payload rows, so
//! deleting a record deletes its payloads with it, exactly as the cascading
//! schema does.

use vstd::prelude::*;

verus! {

/// One payload row: a clipboard format identifier, the resolved format name,
/// and the raw bytes captured for that format.
pub ghost struct PayloadModel {
    pub format_id: u32,
    pub format_name: Seq<char>,
    pub data: Seq<u8>,
}

/// One persisted clip record. `id` is the row identifier the store assigned;
/// `timestamp` is the wall-clock string the store filled in at insert time.
/// `payloads` are the record's payload rows in insertion order.
pub ghost struct ClipModel {
    pub id: int,
    pub owner: Seq<char>,
    pub fg_title: Seq<char>,
    pub exe_path: Seq<char>,
    pub hash: Seq<char>,
    pub timestamp: Seq<char>,
    pub payloads: Seq<PayloadModel>,
}

/// A store is well formed when no two records share a content hash, no two
/// records share a row identifier, and every persisted record has at least
/// one payload row.
pub open spec fn wf_clips(m: Seq<ClipModel>) -> bool {
    &&& forall|i: int, j: int|
        0 <= i < j < m.len() ==> m[i].hash != m[j].hash && m[i].id != m[j].id
    &&& forall|i: int| 0 <= i < m.len() ==> (#[trigger] m[i]).payloads.len() > 0
}

/// Whether some record in `m` has content hash `h`.
pub open spec fn has_hash(m: Seq<ClipModel>, h: Seq<char>) -> bool {
    exists|i: int| 0 <= i < m.len() && m[i].hash == h
}

/// The number of records in `m` with content hash `h`.
pub open spec fn count_hash(m: Seq<ClipModel>, h: Seq<char>) -> nat {
    m.filter(|c: ClipModel| c.hash == h).len()
}

/// The record in `m` with content hash `h` (meaningful when `has_hash`).
pub open spec fn clip_of(m: Seq<ClipModel>, h: Seq<char>) -> ClipModel {
    let i = choose|i: int| 0 <= i < m.len() && m[i].hash == h;
    m[i]
}

/// The payload rows of the record with hash `h`, or the empty sequence when
/// no record has that hash.
pub open spec fn payloads_of(m: Seq<ClipModel>, h: Seq<char>) -> Seq<PayloadModel> {
    if has_hash(m, h) {
        clip_of(m, h).payloads
    } else {
        Seq::empty()
    }
}

/// `new` extends `old` by exactly one record with the given fields and
/// payload rows. The row identifier and timestamp are whatever the store
/// assigned.
pub open spec fn appended(
    old_m: Seq<ClipModel>,
    new_m: Seq<ClipModel>,
    owner: Seq<char>,
    fg_title: Seq<char>,
    exe_path: Seq<char>,
    hash: Seq<char>,
    payloads: Seq<PayloadModel>,
) -> bool {
    &&& new_m.len() == old_m.len() + 1
    &&& new_m.take(old_m.len() as int) == old_m
    &&& new_m.last().owner == owner
    &&& new_m.last().fg_title == fg_title
    &&& new_m.last().exe_path == exe_path
    &&& new_m.last().hash == hash
    &&& new_m.last().payloads == payloads
}

/// The idempotent save step: a record whose hash is already present leaves
/// the store unchanged; otherwise exactly one new record is appended.
pub open spec fn save_step(
    old_m: Seq<ClipModel>,
    new_m: Seq<ClipModel>,
    owner: Seq<char>,
    fg_title: Seq<char>,
    exe_path: Seq<char>,
    hash: Seq<char>,
    payloads: Seq<PayloadModel>,
) -> bool {
    if has_hash(old_m, hash) {
        new_m == old_m
    } else {
        appended(old_m, new_m, owner, fg_title, exe_path, hash, payloads)
    }
}

/// The window of records a pagination query reports: newest first, skipping
/// `offset` records and returning at most `limit` of them.
pub open spec fn window_of(m: Seq<ClipModel>, limit: int, offset: int) -> Seq<ClipModel> {
    let r = m.reverse();
    let lo = if offset <= r.len() { offset } else { r.len() as int };
    let hi = if offset + limit <= r.len() { offset + limit } else { r.len() as int };
    if 0 <= lo <= hi { r.subrange(lo, hi) } else { Seq::empty() }
}

/// The store after deleting every record whose hash is `h`.
pub open spec fn without_hash(m: Seq<ClipModel>, h: Seq<char>) -> Seq<ClipModel> {
    m.filter(|c: ClipModel| c.hash != h)
}

/// Payload rows ordered by ascending format identifier.
pub open spec fn sorted_by_format(s: Seq<PayloadModel>) -> bool {
    forall|i: int, j: int| 0 <= i <= j < s.len() ==> s[i].format_id <= s[j].format_id
}

/// The idempotent replica-copy step: a hash already present locally leaves
/// the replica unchanged; otherwise the source record's context columns and
/// payload rows (reordered by format identifier) are appended as one new,
/// independently identified record.
pub open spec fn copy_step(
    old_m: Seq<ClipModel>,
    new_m: Seq<ClipModel>,
    src_m: Seq<ClipModel>,
    hash: Seq<char>,
) -> bool {
    if has_hash(old_m, hash) {
        new_m == old_m
    } else {
        &&& has_hash(src_m, hash)
        &&& exists|ps: Seq<PayloadModel>|
            {
                &&& #[trigger] appended(
                    old_m,
                    new_m,
                    clip_of(src_m, hash).owner,
                    clip_of(src_m, hash).fg_title,
                    clip_of(src_m, hash).exe_path,
                    hash,
                    ps,
                )
                &&& ps.to_multiset() == clip_of(src_m, hash).payloads.to_multiset()
                &&& sorted_by_format(ps)
            }
    }
}

/// Every record a pagination window reports is the store's unique record
/// for its hash.
pub proof fn lemma_window_element(m: Seq<ClipModel>, limit: int, offset: int, i: int)
    requires
        wf_clips(m),
        0 <= i < window_of(m, limit, offset).len(),
    ensures
        has_hash(m, window_of(m, limit, offset)[i].hash),
        clip_of(m, window_of(m, limit, offset)[i].hash) == window_of(m, limit, offset)[i],
        payloads_of(m, window_of(m, limit, offset)[i].hash) == window_of(m, limit, offset)[i].payloads,
{
    let w = window_of(m, limit, offset);
    let r = m.reverse();
    let lo = if offset <= r.len() { offset } else { r.len() as int };
    let k = m.len() - 1 - (lo + i);
    assert(w[i] == m[k]);
    assert(has_hash(m, w[i].hash));
    let j = choose|j: int| 0 <= j < m.len() && m[j].hash == w[i].hash;
    assert(m[j] == m[k]) by {
        if j != k {
            assert(wf_clips(m));
        }
    }
}

/// In a well-formed store a present hash names exactly one record.
pub proof fn lemma_wf_count_hash(m: Seq<ClipModel>, h: Seq<char>)
    requires
        wf_clips(m),
    ensures
        count_hash(m, h) == if has_hash(m, h) { 1nat } else { 0nat },
    decreases m.len(),
{
    reveal(Seq::filter);
    let pred = |c: ClipModel| c.hash == h;
    if m.len() == 0 {
        assert(!has_hash(m, h));
    } else {
        let prefix = m.drop_last();
        assert(wf_clips(prefix)) by {
            assert(forall|i: int, j: int|
                0 <= i < j < prefix.len() ==> prefix[i] == m[i] && prefix[j] == m[j]);
        }
        lemma_wf_count_hash(prefix, h);
        if m.last().hash == h {
            // the last record matches; well-formedness rules out a second match
            assert(!has_hash(prefix, h)) by {
                if has_hash(prefix, h) {
                    let i = choose|i: int| 0 <= i < prefix.len() && prefix[i].hash == h;
                    assert(m[i].hash == h && m[m.len() - 1].hash == h);
                }
            }
            assert(has_hash(m, h)) by {
                assert(m[m.len() - 1].hash == h);
            }
        } else {
            assert(has_hash(m, h) == has_hash(prefix, h)) by {
                if has_hash(m, h) {
                    let i = choose|i: int| 0 <= i < m.len() && m[i].hash == h;
                    assert(0 <= i < prefix.len() && prefix[i].hash == h);
                }
                if has_hash(prefix, h) {
                    let i = choose|i: int| 0 <= i < prefix.len() && prefix[i].hash == h;
                    assert(m[i].hash == h);
                }
            }
        }
    }
}

/// Appending a record with a fresh hash and a fresh id preserves
/// well-formedness.
pub proof fn lemma_wf_append(old_m: Seq<ClipModel>, new_m: Seq<ClipModel>)
    requires
        wf_clips(old_m),
        new_m.len() == old_m.len() + 1,
        new_m.take(old_m.len() as int) == old_m,
        !has_hash(old_m, new_m.last().hash),
        new_m.last().payloads.len() > 0,
        forall|i: int| 0 <= i < old_m.len() ==> old_m[i].id != new_m.last().id,
    ensures
        wf_clips(new_m),
        has_hash(new_m, new_m.last().hash),
{
    assert(forall|k: int| 0 <= k < old_m.len() ==> new_m[k] == old_m[k]);
    assert(new_m[new_m.len() - 1] == new_m.last());
    assert forall|i: int, j: int| 0 <= i < j < new_m.len() implies
        new_m[i].hash != new_m[j].hash && new_m[i].id != new_m[j].id
    by {
        assert(forall|k: int| 0 <= k < old_m.len() ==> new_m[k] == old_m[k]);
        if j < old_m.len() {
        } else {
            assert(new_m[j] == new_m.last());
            assert(new_m[i] == old_m[i]);
            if new_m[i].hash == new_m.last().hash {
                assert(has_hash(old_m, new_m.last().hash));
            }
        }
    }
    assert(new_m[new_m.len() - 1].hash == new_m.last().hash);
}

/// Removing the records of one hash preserves well-formedness; afterwards
/// that hash is absent, every other record survives, and their payload sets
/// are untouched.
pub proof fn lemma_wf_without_hash(m: Seq<ClipModel>, h: Seq<char>)
    requires
        wf_clips(m),
    ensures
        wf_clips(without_hash(m, h)),
        !has_hash(without_hash(m, h), h),
        forall|g: Seq<char>| g != h ==> has_hash(without_hash(m, h), g) == has_hash(m, g),
        forall|g: Seq<char>| g != h ==> payloads_of(without_hash(m, h), g) == payloads_of(m, g),
    decreases m.len(),
{
    reveal(Seq::filter);
    let pred = |c: ClipModel| c.hash != h;
    let out = m.filter(pred);
    broadcast use vstd::seq_lib::group_filter_ensures;

    if m.len() == 0 {
    } else {
        let prefix = m.drop_last();
        assert(wf_clips(prefix)) by {
            assert(forall|i: int, j: int|
                0 <= i < j < prefix.len() ==> prefix[i] == m[i] && prefix[j] == m[j]);
        }
        lemma_wf_without_hash(prefix, h);
        let pout = prefix.filter(pred);
        if pred(m.last()) {
            assert(out == pout.push(m.last()));
            assert(wf_clips(out)) by {
                assert(forall|i: int| 0 <= i < pout.len() ==> out[i] == pout[i]);
                assert(out.last() == m.last());
                assert forall|i: int, j: int| 0 <= i < j < out.len() implies
                    out[i].hash != out[j].hash && out[i].id != out[j].id
                by {
                    if j == out.len() - 1 {
                        lemma_filter_element_index(prefix, pred, i);
                        let k = choose|k: int|
                            0 <= k < prefix.len() && prefix[k] == pout[i];
                        assert(m[k] == prefix[k]);
                        assert(m[k].hash != m[m.len() - 1].hash);
                        assert(m[k].id != m[m.len() - 1].id);
                    }
                }
            }
        } else {
            assert(out == pout);
        }
        // hash membership and payload lookup carry over record by record
        assert forall|g: Seq<char>| g != h implies
            has_hash(out, g) == has_hash(m, g) && payloads_of(out, g) == payloads_of(m, g)
        by {
            lemma_without_hash_lookup(m, h, g);
        }
    }
}

/// Every element of a filtered sequence occurs in the original.
proof fn lemma_filter_element_index(
    m: Seq<ClipModel>,
    pred: spec_fn(ClipModel) -> bool,
    i: int,
)
    requires
        0 <= i < m.filter(pred).len(),
    ensures
        exists|k: int| 0 <= k < m.len() && m[k] == m.filter(pred)[i],
    decreases m.len(),
{
    reveal(Seq::filter);
    if m.len() == 0 {
    } else {
        let prefix = m.drop_last();
        let pout = prefix.filter(pred);
        if pred(m.last()) && i == m.filter(pred).len() - 1 {
            assert(m[m.len() - 1] == m.filter(pred)[i]);
        } else {
            lemma_filter_element_index(prefix, pred, i);
            let k = choose|k: int| 0 <= k < prefix.len() && prefix[k] == pout[i];
            assert(m[k] == prefix[k]);
        }
    }
}

/// For any other hash `g`, dropping the records of hash `h` changes neither
/// whether `g` is present nor which record it names.
proof fn lemma_without_hash_lookup(m: Seq<ClipModel>, h: Seq<char>, g: Seq<char>)
    requires
        wf_clips(m),
        g != h,
    ensures
        has_hash(without_hash(m, h), g) == has_hash(m, g),
        payloads_of(without_hash(m, h), g) == payloads_of(m, g),
{
    broadcast use vstd::seq_lib::group_filter_ensures;

    let pred = |c: ClipModel| c.hash != h;
    let out = m.filter(pred);
    if has_hash(m, g) {
        let i = choose|i: int| 0 <= i < m.len() && m[i].hash == g;
        assert(pred(m[i]));
        assert(out.contains(m[i])) by {
            Seq::lemma_filter_contains(m, pred, i);
        }
        let j = choose|j: int| 0 <= j < out.len() && out[j] == m[i];
        assert(out[j].hash == g);
        assert(has_hash(out, g));
        // both lookups name a record with hash g; uniqueness makes them equal
        let a = choose|a: int| 0 <= a < m.len() && m[a].hash == g;
        assert(m[a].hash == g && m[i].hash == g);
        assert(m[a] == m[i]) by {
            if a != i {
                assert(wf_clips(m));
            }
        }
        let b = choose|b: int| 0 <= b < out.len() && out[b].hash == g;
        lemma_filter_element_index(m, pred, b);
        let k = choose|k: int| 0 <= k < m.len() && m[k] == out[b];
        assert(m[k].hash == g);
        assert(m[k] == m[i]) by {
            if k != i {
                assert(wf_clips(m));
            }
        }
        assert(clip_of(out, g) == clip_of(m, g));
    } else {
        if has_hash(out, g) {
            let b = choose|b: int| 0 <= b < out.len() && out[b].hash == g;
            lemma_filter_element_index(m, pred, b);
            let k = choose|k: int| 0 <= k < m.len() && m[k] == out[b];
            assert(m[k].hash == g);
        }
    }
}

} // verus!
