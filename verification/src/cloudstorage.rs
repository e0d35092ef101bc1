//! The replica store: a second encrypted store, schema-identical to the
//! history store, with its own independent identity space. Records are
//! copied into it on demand, idempotently; a replica record is never kept
//! consistent with later deletion of its source.

use vstd::prelude::*;

use crate::model::{ClipModel, wf_clips, has_hash, clip_of, appended, copy_step,
    lemma_wf_count_hash, lemma_wf_append};
use crate::models::{ClipboardPayload, StoreError, payload_views};
use crate::sql;
use crate::storage::{Database, apply_cipher_pragmas};

verus! {

/// A handle on one replica store file.
pub struct CloudDatabase {
    conn: rusqlite::Connection,
}

impl CloudDatabase {
    /// The records the replica durably holds, oldest first.
    pub closed spec fn committed(self) -> Seq<ClipModel> {
        sql::committed_clips(self.conn)
    }

    /// A usable handle: no transaction pending, well-formed contents.
    pub closed spec fn inv(self) -> bool {
        !sql::in_tx(self.conn) && wf_clips(sql::committed_clips(self.conn))
    }

    /// A usable handle holds well-formed contents.
    pub proof fn wf_of_inv(self)
        requires
            self.inv(),
        ensures
            wf_clips(self.committed()),
    {
    }

    /// Open (creating if absent) the replica store at `path`, apply the
    /// fixed encryption configuration, make sure the schema exists, and
    /// check the contents: a malformed replica file is rejected rather than
    /// trusted, exactly as the history store's open does.
    pub fn new(path: &str, password: &str) -> (r: Result<CloudDatabase, StoreError>)
        ensures
            r matches Ok(d) ==> d.inv(),
    {
        let conn = match sql::open_db(path) {
            Ok(c) => c,
            Err(_) => return Err(StoreError::Storage),
        };
        if let Err(e) = apply_cipher_pragmas(&conn, password) {
            return Err(e);
        }
        let db = CloudDatabase { conn };
        if sql::create_schema(&db.conn).is_err() {
            return Err(StoreError::Storage);
        }
        match sql::wf_violation_rows(&db.conn) {
            Ok(0) => Ok(db),
            Ok(_) => Err(StoreError::Storage),
            Err(_) => Err(StoreError::Storage),
        }
    }

    /// Copy one record out of the history store, idempotently: a hash the
    /// replica already holds is a no-op; otherwise the source's context
    /// columns and full payload set are inserted as one new record inside
    /// one transaction. On failure nothing becomes visible; a hash the
    /// source does not hold is reported as missing, and changes nothing.
    pub fn copy_clip_from(&mut self, hash: &str, source: &Database) -> (r: Result<
        (),
        StoreError,
    >)
        requires
            old(self).inv(),
            source.inv(),
        ensures
            final(self).inv(),
            r is Ok ==> copy_step(
                old(self).committed(),
                final(self).committed(),
                source.committed(),
                hash@,
            ),
            r is Err ==> final(self).committed() == old(self).committed(),
            r == Err::<(), StoreError>(StoreError::NotFound) ==> !has_hash(
                source.committed(),
                hash@,
            ),
    {
        let ghost m0 = self.committed();
        let existing = match sql::count_hash_rows(&mut self.conn, hash) {
            Ok(n) => n,
            Err(_) => return Err(StoreError::Storage),
        };
        proof {
            lemma_wf_count_hash(m0, hash@);
        }
        if existing > 0 {
            return Ok(());
        }
        let meta = match source.get_clip_meta(hash) {
            Ok(m) => m,
            Err(_) => return Err(StoreError::Storage),
        };
        let (owner, fg_title, exe_path) = match meta {
            Some(t) => t,
            None => return Err(StoreError::NotFound),
        };
        let payloads = match source.get_clip_payloads(hash) {
            Ok(p) => p,
            Err(_) => return Err(StoreError::Storage),
        };
        proof {
            source.wf_of_inv();
            crate::model::lemma_wf_count_hash(source.committed(), hash@);
        }
        if sql::begin_tx(&mut self.conn).is_err() {
            return Err(StoreError::Storage);
        }
        let clip_id = match sql::insert_clip_row(
            &mut self.conn,
            owner.as_str(),
            fg_title.as_str(),
            exe_path.as_str(),
            hash,
        ) {
            Ok(id) => id,
            Err(_) => {
                sql::rollback_tx(&mut self.conn);
                return Err(StoreError::Storage);
            },
        };
        let mut i: usize = 0;
        while i < payloads.len()
            invariant
                m0 == old(self).committed(),
                wf_clips(m0),
                sql::in_tx(self.conn),
                sql::committed_clips(self.conn) == m0,
                sql::cur_clips(self.conn).len() == m0.len() + 1,
                sql::cur_clips(self.conn).take(m0.len() as int) == m0,
                sql::cur_clips(self.conn).last().owner == owner@,
                sql::cur_clips(self.conn).last().fg_title == fg_title@,
                sql::cur_clips(self.conn).last().exe_path == exe_path@,
                sql::cur_clips(self.conn).last().hash == hash@,
                sql::cur_clips(self.conn).last().id == clip_id as int,
                sql::cur_clips(self.conn).last().payloads == payload_views(payloads@).take(
                    i as int,
                ),
                forall|k: int| 0 <= k < m0.len() ==> m0[k].id != clip_id as int,
                i <= payloads.len(),
            decreases payloads.len() - i,
        {
            let p = &payloads[i];
            if sql::insert_payload_row(
                &mut self.conn,
                clip_id,
                p.format_id,
                p.format_name.as_str(),
                p.data.as_slice(),
            ).is_err() {
                sql::rollback_tx(&mut self.conn);
                return Err(StoreError::Storage);
            }
            proof {
                assert(sql::cur_clips(self.conn).take(m0.len() as int) =~= m0);
                assert(payload_views(payloads@).take(i + 1) =~= payload_views(payloads@).take(
                    i as int,
                ).push(payloads@[i as int]@));
            }
            i = i + 1;
        }
        proof {
            assert(payload_views(payloads@).take(payloads@.len() as int) =~= payload_views(
                payloads@,
            ));
        }
        let ghost staged = sql::cur_clips(self.conn);
        if sql::commit_tx(&mut self.conn).is_err() {
            sql::rollback_tx(&mut self.conn);
            return Err(StoreError::Storage);
        }
        proof {
            assert(!has_hash(m0, hash@));
            lemma_wf_append(m0, staged);
            let src = source.committed();
            assert(appended(
                m0,
                self.committed(),
                clip_of(src, hash@).owner,
                clip_of(src, hash@).fg_title,
                clip_of(src, hash@).exe_path,
                hash@,
                payload_views(payloads@),
            ));
        }
        Ok(())
    }

    /// Every content hash the replica currently holds, in insertion order —
    /// the derived synchronization state, recomputed on demand.
    pub fn get_synced_hashes(&self) -> (r: Result<Vec<String>, StoreError>)
        requires
            self.inv(),
        ensures
            r matches Ok(v) ==> {
                &&& v@.len() == self.committed().len()
                &&& forall|i: int|
                    0 <= i < v@.len() ==> (#[trigger] v@[i])@ == self.committed()[i].hash
            },
    {
        match sql::all_hash_rows(&self.conn) {
            Ok(v) => Ok(v),
            Err(_) => Err(StoreError::Storage),
        }
    }
}

} // verus!
