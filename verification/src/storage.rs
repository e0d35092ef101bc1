//! The history store: encrypted, content-addressed, paginated persistence
//! of clip records.

use vstd::prelude::*;

use crate::model::{ClipModel, PayloadModel, wf_clips, has_hash, save_step, without_hash,
    payloads_of, window_of, sorted_by_format, lemma_wf_count_hash, lemma_wf_append,
    lemma_wf_without_hash, lemma_window_element};
use crate::models::{ClipboardPayload, ClipSummary, StoreError, payload_views};
use crate::preview::{clip_preview, first_text_data, make_clip_preview};
use crate::sql;
use vstd::multiset::Multiset;

verus! {

/// One pagination row matches its record: stored columns equal, preview and
/// placeholder flag derived from the record's payload rows.
pub open spec fn summary_matches(s: ClipSummary, c: ClipModel) -> bool {
    &&& s.timestamp@ == c.timestamp
    &&& s.owner@ == c.owner
    &&& s.fg_title@ == c.fg_title
    &&& s.hash@ == c.hash
    &&& s.preview@ == clip_preview(c.payloads)
    &&& s.is_image == (first_text_data(c.payloads) is None)
}

/// Reorder payload rows by ascending format identifier (ties keep no
/// promised order): the result is sorted and holds exactly the same rows.
fn sort_payloads(v: Vec<ClipboardPayload>) -> (r: Vec<ClipboardPayload>)
    ensures
        sorted_by_format(payload_views(r@)),
        payload_views(r@).to_multiset() == payload_views(v@).to_multiset(),
{
    broadcast use vstd::seq_lib::group_to_multiset_ensures;
    broadcast use vstd::multiset::group_multiset_axioms;

    let ghost full = payload_views(v@);
    let mut src = v;
    let mut out: Vec<ClipboardPayload> = Vec::new();
    proof {
        assert(payload_views(out@).to_multiset().add(payload_views(src@).to_multiset())
            =~= full.to_multiset());
    }
    while src.len() > 0
        invariant
            full == payload_views(v@),
            payload_views(out@).to_multiset().add(payload_views(src@).to_multiset())
                == full.to_multiset(),
            sorted_by_format(payload_views(out@)),
            forall|a: int, b: int|
                0 <= a < out@.len() && 0 <= b < src@.len() ==> (#[trigger] out@[a]).format_id <= (
                #[trigger] src@[b]).format_id,
        decreases src@.len(),
    {
        // pick the first position holding a minimal format identifier
        let mut m: usize = 0;
        let mut j: usize = 1;
        while j < src.len()
            invariant
                m < src@.len(),
                j <= src@.len(),
                forall|k: int| 0 <= k < j ==> src@[m as int].format_id <= (#[trigger] src@[k]).format_id,
            decreases src@.len() - j,
        {
            if src[j].format_id < src[m].format_id {
                m = j;
            }
            j = j + 1;
        }
        let ghost src_old = src@;
        let ghost out_old = out@;
        let x = src.remove(m);
        out.push(x);
        proof {
            broadcast use vstd::multiset::group_multiset_axioms;

            let vs_old = payload_views(src_old);
            let vs_new = payload_views(src@);
            let vo_old = payload_views(out_old);
            let vo_new = payload_views(out@);
            assert(x@ == vs_old[m as int]);
            assert(vs_new =~= vs_old.remove(m as int));
            assert(vo_new =~= vo_old.push(x@));
            assert(vs_old.contains(vs_old[m as int]));
            vstd::seq_lib::to_multiset_remove(vs_old, m as int);
            vstd::seq_lib::to_multiset_build(vo_old, x@);
            vstd::seq_lib::to_multiset_contains(vs_old, x@);
            assert(vs_old.to_multiset().count(x@) > 0);
            assert(vo_new.to_multiset().add(vs_new.to_multiset()) =~= full.to_multiset());
            assert(sorted_by_format(vo_new)) by {
                assert(forall|a: int| 0 <= a < vo_old.len() ==> vo_new[a] == vo_old[a]);
                assert(vo_new.last().format_id == src_old[m as int].format_id);
            }
        }
    }
    proof {
        assert(payload_views(src@).to_multiset() =~= Multiset::<PayloadModel>::empty());
        assert(payload_views(out@).to_multiset() =~= full.to_multiset());
    }
    out
}

/// Apply the fixed encryption configuration to a fresh connection: the key,
/// the key-derivation iteration count, the page size, memory hardening, and
/// the HMAC and KDF algorithms, plus cascading deletes. Both stores open
/// with this same fixed configuration; nothing is negotiated.
pub(crate) fn apply_cipher_pragmas(conn: &rusqlite::Connection, password: &str) -> (r: Result<
    (),
    StoreError,
>)
    requires
        !sql::in_tx(*conn),
{
    if sql::pragma_str(conn, "key", password).is_err() {
        return Err(StoreError::Storage);
    }
    if sql::pragma_u32(conn, "kdf_iter", 256000).is_err() {
        return Err(StoreError::Storage);
    }
    if sql::pragma_u32(conn, "cipher_page_size", 4096).is_err() {
        return Err(StoreError::Storage);
    }
    if sql::pragma_bool(conn, "cipher_memory_security", true).is_err() {
        return Err(StoreError::Storage);
    }
    if sql::pragma_str(conn, "cipher_hmac_algorithm", "HMAC_SHA512").is_err() {
        return Err(StoreError::Storage);
    }
    if sql::pragma_str(conn, "cipher_kdf_algorithm", "PBKDF2_HMAC_SHA512").is_err() {
        return Err(StoreError::Storage);
    }
    if sql::pragma_bool(conn, "foreign_keys", true).is_err() {
        return Err(StoreError::Storage);
    }
    Ok(())
}

/// A handle on one history store file. Writes through one handle keep the
/// store well formed: every content hash names at most one record.
pub struct Database {
    conn: rusqlite::Connection,
}

impl Database {
    /// The records the store durably holds, oldest first.
    pub closed spec fn committed(self) -> Seq<ClipModel> {
        sql::committed_clips(self.conn)
    }

    /// A usable handle: no transaction pending, well-formed contents.
    pub closed spec fn inv(self) -> bool {
        !sql::in_tx(self.conn) && wf_clips(sql::committed_clips(self.conn))
    }

    /// A usable handle holds well-formed contents.
    pub proof fn wf_of_inv(self)
        requires
            self.inv(),
        ensures
            wf_clips(self.committed()),
    {
    }

    /// Open (creating if absent) the store at `path`, apply the fixed
    /// encryption configuration, make sure the schema exists, and check the
    /// contents: a store whose rows were not written through this library —
    /// one with a duplicated content hash, a duplicated row id, or a record
    /// without a payload row — is rejected rather than trusted.
    pub fn new(path: &str, password: &str) -> (r: Result<Database, StoreError>)
        ensures
            r matches Ok(d) ==> d.inv(),
    {
        let conn = match sql::open_db(path) {
            Ok(c) => c,
            Err(_) => return Err(StoreError::Storage),
        };
        if let Err(e) = apply_cipher_pragmas(&conn, password) {
            return Err(e);
        }
        let db = Database { conn };
        if sql::create_schema(&db.conn).is_err() {
            return Err(StoreError::Storage);
        }
        match sql::wf_violation_rows(&db.conn) {
            Ok(0) => Ok(db),
            Ok(_) => Err(StoreError::Storage),
            Err(_) => Err(StoreError::Storage),
        }
    }

    /// Persist one capture, idempotently, inside one transaction: when the
    /// content hash is already present the store is left unchanged and the
    /// call still succeeds; otherwise the record and every one of its
    /// payload rows become visible together. On failure nothing at all
    /// becomes visible.
    pub fn save_snapshot(
        &mut self,
        owner_name: &str,
        fg_title: &str,
        exe_path: &str,
        hash: &str,
        payloads: Vec<ClipboardPayload>,
    ) -> (r: Result<(), StoreError>)
        requires
            old(self).inv(),
            payloads@.len() > 0,
        ensures
            final(self).inv(),
            r is Ok ==> save_step(
                old(self).committed(),
                final(self).committed(),
                owner_name@,
                fg_title@,
                exe_path@,
                hash@,
                payload_views(payloads@),
            ),
            r is Err ==> final(self).committed() == old(self).committed(),
    {
        let ghost m0 = self.committed();
        if sql::begin_tx(&mut self.conn).is_err() {
            return Err(StoreError::Storage);
        }
        let existing = match sql::count_hash_rows(&mut self.conn, hash) {
            Ok(n) => n,
            Err(_) => {
                sql::rollback_tx(&mut self.conn);
                return Err(StoreError::Storage);
            },
        };
        proof {
            lemma_wf_count_hash(m0, hash@);
        }
        if existing > 0 {
            // already present: a no-op, not an error and not an update
            sql::rollback_tx(&mut self.conn);
            return Ok(());
        }
        let clip_id = match sql::insert_clip_row(&mut self.conn, owner_name, fg_title, exe_path, hash) {
            Ok(id) => id,
            Err(_) => {
                sql::rollback_tx(&mut self.conn);
                return Err(StoreError::Storage);
            },
        };
        let mut i: usize = 0;
        while i < payloads.len()
            invariant
                m0 == old(self).committed(),
                wf_clips(m0),
                sql::in_tx(self.conn),
                sql::committed_clips(self.conn) == m0,
                sql::cur_clips(self.conn).len() == m0.len() + 1,
                sql::cur_clips(self.conn).take(m0.len() as int) == m0,
                sql::cur_clips(self.conn).last().owner == owner_name@,
                sql::cur_clips(self.conn).last().fg_title == fg_title@,
                sql::cur_clips(self.conn).last().exe_path == exe_path@,
                sql::cur_clips(self.conn).last().hash == hash@,
                sql::cur_clips(self.conn).last().id == clip_id as int,
                sql::cur_clips(self.conn).last().payloads == payload_views(payloads@).take(i as int),
                forall|k: int| 0 <= k < m0.len() ==> m0[k].id != clip_id as int,
                i <= payloads.len(),
            decreases payloads.len() - i,
        {
            let p = &payloads[i];
            let ghost before = sql::cur_clips(self.conn);
            if sql::insert_payload_row(
                &mut self.conn,
                clip_id,
                p.format_id,
                p.format_name.as_str(),
                p.data.as_slice(),
            ).is_err() {
                sql::rollback_tx(&mut self.conn);
                return Err(StoreError::Storage);
            }
            proof {
                let after = sql::cur_clips(self.conn);
                assert(after.take(m0.len() as int) =~= m0);
                assert(payload_views(payloads@).take(i + 1) =~= payload_views(payloads@).take(
                    i as int,
                ).push(payloads@[i as int]@));
            }
            i = i + 1;
        }
        proof {
            assert(payload_views(payloads@).take(payloads@.len() as int) =~= payload_views(
                payloads@,
            ));
        }
        let ghost staged = sql::cur_clips(self.conn);
        if sql::commit_tx(&mut self.conn).is_err() {
            sql::rollback_tx(&mut self.conn);
            return Err(StoreError::Storage);
        }
        proof {
            assert(!has_hash(m0, hash@));
            lemma_wf_append(m0, staged);
        }
        Ok(())
    }

    /// The number of records the store holds.
    pub fn get_total_count(&self) -> (r: Result<i32, StoreError>)
        requires
            self.inv(),
        ensures
            r matches Ok(n) ==> n as int == self.committed().len(),
    {
        match sql::count_all_rows(&self.conn) {
            Ok(n) => Ok(n),
            Err(_) => Err(StoreError::Storage),
        }
    }

    /// The stored context columns of the record with this hash, or `None`
    /// when no record has it (a lookup miss is an empty result, not an
    /// error).
    pub fn get_clip_meta(&self, hash: &str) -> (r: Result<
        Option<(String, String, String)>,
        StoreError,
    >)
        requires
            self.inv(),
        ensures
            r matches Ok(m) ==> {
                &&& m is Some <==> has_hash(self.committed(), hash@)
                &&& m matches Some(t) ==> {
                    &&& t.0@ == crate::model::clip_of(self.committed(), hash@).owner
                    &&& t.1@ == crate::model::clip_of(self.committed(), hash@).fg_title
                    &&& t.2@ == crate::model::clip_of(self.committed(), hash@).exe_path
                }
            },
    {
        match sql::meta_row(&self.conn, hash) {
            Ok(m) => Ok(m),
            Err(_) => Err(StoreError::Storage),
        }
    }

    /// The full payload set of the record with this hash, ordered by
    /// ascending format identifier, or the empty set when the hash is
    /// unknown (a lookup miss is an empty result, not an error).
    pub fn get_clip_payloads(&self, hash: &str) -> (r: Result<Vec<ClipboardPayload>, StoreError>)
        requires
            self.inv(),
        ensures
            r matches Ok(v) ==> {
                &&& sorted_by_format(payload_views(v@))
                &&& payload_views(v@).to_multiset() == payloads_of(
                    self.committed(),
                    hash@,
                ).to_multiset()
                &&& v@.len() == payloads_of(self.committed(), hash@).len()
            },
    {
        broadcast use vstd::seq_lib::group_to_multiset_ensures;

        let rows = match sql::payload_rows(&self.conn, hash) {
            Ok(v) => v,
            Err(_) => return Err(StoreError::Storage),
        };
        let ghost stored = payloads_of(self.committed(), hash@);
        let sorted = sort_payloads(rows);
        proof {
            assert(payload_views(sorted@).len() == payload_views(sorted@).to_multiset().len());
            assert(stored.len() == stored.to_multiset().len());
        }
        Ok(sorted)
    }

    /// One page of history, newest records first: `limit` rows starting
    /// `offset` records in, each with its preview derived from its first
    /// plain-text payload (or the fixed placeholder when it has none).
    pub fn get_latest_clips(&self, limit: i32, offset: i32) -> (r: Result<
        Vec<ClipSummary>,
        StoreError,
    >)
        requires
            self.inv(),
            limit >= 0,
            offset >= 0,
        ensures
            r matches Ok(v) ==> {
                let w = window_of(self.committed(), limit as int, offset as int);
                &&& v@.len() == w.len()
                &&& forall|i: int| 0 <= i < w.len() ==> summary_matches(#[trigger] v@[i], w[i])
            },
    {
        let ghost w = window_of(self.committed(), limit as int, offset as int);
        let mut rows = match sql::window_rows(&self.conn, limit as i64, offset as i64) {
            Ok(v) => v,
            Err(_) => return Err(StoreError::Storage),
        };
        let ghost all = rows@;
        let mut clips: Vec<ClipSummary> = Vec::new();
        while rows.len() > 0
            invariant
                self.inv(),
                w == window_of(self.committed(), limit as int, offset as int),
                w.len() == all.len(),
                clips@.len() + rows@.len() == all.len(),
                rows@ == all.skip(clips@.len() as int),
                forall|i: int|
                    0 <= i < all.len() ==> {
                        &&& (#[trigger] all[i]).timestamp@ == w[i].timestamp
                        &&& all[i].owner@ == w[i].owner
                        &&& all[i].fg_title@ == w[i].fg_title
                        &&& all[i].hash@ == w[i].hash
                    },
                forall|i: int| 0 <= i < clips@.len() ==> summary_matches(#[trigger] clips@[i], w[i]),
            decreases rows@.len(),
        {
            let ghost k = clips@.len() as int;
            let row = rows.remove(0);
            proof {
                assert(row == all[k]);
                assert(rows@ =~= all.skip(k + 1));
                lemma_window_element(self.committed(), limit as int, offset as int, k);
            }
            let payloads = match sql::payload_rows(&self.conn, row.hash.as_str()) {
                Ok(v) => v,
                Err(_) => return Err(StoreError::Storage),
            };
            let (preview, is_image) = make_clip_preview(&payloads);
            clips.push(
                ClipSummary {
                    timestamp: row.timestamp,
                    owner: row.owner,
                    fg_title: row.fg_title,
                    preview,
                    hash: row.hash,
                    is_image,
                },
            );
        }
        Ok(clips)
    }

    /// Delete the record with this hash and, with it, all of its payload
    /// rows. Deleting an absent hash is a silent no-op.
    pub fn delete_by_hash(&mut self, hash: &str) -> (r: Result<(), StoreError>)
        requires
            old(self).inv(),
        ensures
            final(self).inv(),
            r is Ok ==> final(self).committed() == without_hash(old(self).committed(), hash@),
            r is Ok ==> !has_hash(final(self).committed(), hash@) && payloads_of(
                final(self).committed(),
                hash@,
            ) == Seq::<crate::model::PayloadModel>::empty(),
            r is Err ==> final(self).committed() == old(self).committed(),
    {
        let ghost m0 = self.committed();
        match sql::delete_hash_rows(&mut self.conn, hash) {
            Ok(()) => {
                proof {
                    lemma_wf_without_hash(m0, hash@);
                }
                Ok(())
            },
            Err(_) => Err(StoreError::Storage),
        }
    }

    /// Delete every record and every payload row. Readers see either the
    /// full store or the empty store, never a partial clear.
    pub fn clear_all(&mut self) -> (r: Result<(), StoreError>)
        requires
            old(self).inv(),
        ensures
            final(self).inv(),
            r is Ok ==> final(self).committed() == Seq::<ClipModel>::empty(),
            r is Err ==> final(self).committed() == old(self).committed(),
    {
        match sql::delete_all_rows(&mut self.conn) {
            Ok(()) => Ok(()),
            Err(_) => Err(StoreError::Storage),
        }
    }
}

} // verus!
