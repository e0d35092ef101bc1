//! The history browser's state: a page cursor over the store, refreshed
//! against the live record count, and the entry point for restoring one
//! record back to the clipboard.

use vstd::prelude::*;

use crate::model::{ClipModel, wf_clips, window_of, sorted_by_format};
use crate::models::{ClipSummary, StoreError, payload_views};
use crate::restore::{EchoFlag, RestoreSession};
use crate::storage::{Database, summary_matches};

verus! {

/// The page index a history browser should show after the record count
/// changes: the current index, clamped into the valid page range for
/// `total` records at `per_page` records per page.
pub open spec fn clamped_page(current: int, total: int, per_page: int) -> int {
    let pages = (total + per_page - 1) / per_page;
    let last = if pages > 0 { pages - 1 } else { 0 };
    if current <= last { current } else { last }
}

/// Clamp a page cursor after the total record count changed, so that a
/// store that shrank below the current page moves the cursor back to the
/// last valid page instead of showing an empty page.
pub fn clamp_page(current: i32, total: i32, per_page: i32) -> (r: i32)
    requires
        0 <= current,
        0 <= total,
        0 < per_page,
    ensures
        r == clamped_page(current as int, total as int, per_page as int),
        0 <= r <= current,
{
    let last = if total > 0 { (total - 1) / per_page } else { 0 };
    proof {
        assert(total > 0 ==> (total - 1) / (per_page as int) == (total + per_page - 1) / (
        per_page as int) - 1) by (nonlinear_arith)
            requires 0 < per_page, total <= i32::MAX
        ;
        assert(total > 0 ==> (total + per_page - 1) / (per_page as int) > 0) by (nonlinear_arith)
            requires 0 < per_page
        ;
        assert(total == 0 ==> (total + per_page - 1) / (per_page as int) == 0) by (nonlinear_arith)
            requires 0 < per_page
        ;
        assert(total > 0 ==> (total - 1) / (per_page as int) <= total - 1) by (nonlinear_arith)
            requires 0 < per_page
        ;
    }
    if current <= last { current } else { last }
}

/// A clamped cursor never points past the data: its first record index
/// stays within the store.
pub proof fn lemma_offset_fits(current: int, total: int, per_page: int)
    requires
        current >= 0,
        total >= 0,
        per_page > 0,
    ensures
        0 <= clamped_page(current, total, per_page) * per_page <= total,
{
    let pages = (total + per_page - 1) / per_page;
    let last = if pages > 0 { pages - 1 } else { 0 };
    let pg = clamped_page(current, total, per_page);
    assert(0 <= pg <= last);
    assert(last * per_page <= total && pg * per_page <= last * per_page && pg * per_page >= 0)
        by (nonlinear_arith)
        requires
            per_page > 0,
            total >= 0,
            0 <= pg <= last,
            last == (if (total + per_page - 1) / per_page > 0 {
                (total + per_page - 1) / per_page - 1
            } else {
                0int
            }),
    ;
}

/// The browser's state: the rows of the page on screen, the store's file
/// path, the page cursor, and the record count the cursor was last clamped
/// against.
pub struct App {
    pub history: Vec<ClipSummary>,
    pub db_path: String,
    pub current_page: i32,
    pub items_per_page: i32,
    pub total_count: i32,
}

impl App {
    /// A usable browser state: a nonnegative cursor over nonempty pages.
    pub open spec fn wf(self) -> bool {
        &&& 0 <= self.current_page
        &&& 0 < self.items_per_page
        &&& 0 <= self.total_count
    }

    /// A fresh browser over the store at `db_path`, twenty records per
    /// page, starting on the first page, already refreshed once.
    pub fn new(db_path: String) -> (a: App)
        ensures
            a.wf(),
            a.db_path == db_path,
            a.items_per_page == 20,
            a.current_page == 0,
    {
        let mut app = App {
            history: Vec::new(),
            db_path,
            current_page: 0,
            items_per_page: 20,
            total_count: 0,
        };
        app.refresh_history();
        app
    }

    /// Re-read the record count and the current page from the store. The
    /// cursor is clamped into the valid page range for the new count, so a
    /// store that shrank moves the cursor back rather than showing an empty
    /// page; when the store cannot be opened or counted nothing changes.
    pub fn refresh_history(&mut self)
        requires
            old(self).wf(),
        ensures
            final(self).wf(),
            final(self).db_path == old(self).db_path,
            final(self).items_per_page == old(self).items_per_page,
            ({
                &&& final(self).current_page == old(self).current_page
                &&& final(self).total_count == old(self).total_count
                &&& final(self).history == old(self).history
            } || {
                &&& final(self).total_count >= 0
                &&& final(self).current_page == clamped_page(
                    old(self).current_page as int,
                    final(self).total_count as int,
                    old(self).items_per_page as int,
                )
                &&& (final(self).history == old(self).history || exists|m: Seq<ClipModel>|
                    {
                        &&& #[trigger] wf_clips(m)
                        &&& final(self).total_count as int == m.len()
                        &&& final(self).history@.len() == window_of(
                            m,
                            old(self).items_per_page as int,
                            final(self).current_page as int * old(self).items_per_page as int,
                        ).len()
                        &&& forall|i: int|
                            0 <= i < final(self).history@.len() ==> summary_matches(
                                #[trigger] final(self).history@[i],
                                window_of(
                                    m,
                                    old(self).items_per_page as int,
                                    final(self).current_page as int * old(
                                        self,
                                    ).items_per_page as int,
                                )[i],
                            )
                    })
            }),
    {
        let db = match Database::new(self.db_path.as_str(), "pwd") {
            Ok(d) => d,
            Err(_) => return ,
        };
        let total = match db.get_total_count() {
            Ok(t) => t,
            Err(_) => return ,
        };
        self.total_count = total;
        self.current_page = clamp_page(self.current_page, total, self.items_per_page);
        proof {
            lemma_offset_fits(
                old(self).current_page as int,
                total as int,
                self.items_per_page as int,
            );
        }
        let offset = self.current_page * self.items_per_page;
        match db.get_latest_clips(self.items_per_page, offset) {
            Ok(latest) => {
                self.history = latest;
                proof {
                    db.wf_of_inv();
                }
            },
            Err(_) => {},
        }
    }

    /// Begin restoring one record: fetch its full payload set from the
    /// store and, when it is nonempty, raise the echo-suppression signal
    /// and hand back the write sequence for the clipboard port to run. A
    /// record with no payloads (or an unknown hash) is a no-op that leaves
    /// the signal untouched.
    pub fn restore_clip(&self, hash: &str, flag: &mut EchoFlag) -> (r: Result<
        Option<RestoreSession>,
        StoreError,
    >)
        ensures
            r matches Ok(s) ==> {
                &&& s matches Some(sess) ==> {
                    &&& final(flag).raised
                    &&& sess.pos == 0
                    &&& sess.skipped == 0
                    &&& sess.payloads@.len() > 0
                    &&& sorted_by_format(payload_views(sess.payloads@))
                }
                &&& s is None ==> *final(flag) == *old(flag)
            },
            r is Err ==> *final(flag) == *old(flag),
    {
        let db = match Database::new(self.db_path.as_str(), "pwd") {
            Ok(d) => d,
            Err(_) => return Err(StoreError::Storage),
        };
        let payloads = match db.get_clip_payloads(hash) {
            Ok(p) => p,
            Err(_) => return Err(StoreError::Storage),
        };
        Ok(RestoreSession::begin(payloads, flag))
    }
}

} // verus!
