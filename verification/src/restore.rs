//! The restore engine: replays a stored record's payload set back onto the
//! clipboard port, one payload at a time, tolerating per-payload failure,
//! and brackets the whole write sequence with the echo-suppression signal so
//! that the capture normalizer does not reinterpret the write-back as a new
//! clip.

use vstd::prelude::*;

use crate::models::ClipboardPayload;

verus! {

/// The process-wide echo-suppression signal: raised for exactly the
/// duration of a restore. While it is raised the capture normalizer drops
/// every clipboard event.
pub struct EchoFlag {
    pub raised: bool,
}

impl EchoFlag {
    /// A fresh signal, lowered.
    pub fn new() -> (r: EchoFlag)
        ensures
            !r.raised,
    {
        EchoFlag { raised: false }
    }
}

/// One restore in progress: the payload set to write back, how far the
/// write sequence has come, and how many payloads had to be skipped. The
/// session is created with the suppression signal raised and consumed by
/// `finish`, which lowers it — on every exit path, aborted or complete.
pub struct RestoreSession {
    pub payloads: Vec<ClipboardPayload>,
    pub pos: usize,
    pub skipped: usize,
}

impl RestoreSession {
    /// Start a restore: raise the suppression signal and hand back the
    /// session. A record with no payloads is a no-op: no session, and the
    /// signal untouched.
    pub fn begin(payloads: Vec<ClipboardPayload>, flag: &mut EchoFlag) -> (r: Option<
        RestoreSession,
    >)
        ensures
            payloads@.len() == 0 ==> r is None && *final(flag) == *old(flag),
            payloads@.len() > 0 ==> {
                &&& r matches Some(s)
                &&& s.payloads == payloads
                &&& s.pos == 0
                &&& s.skipped == 0
                &&& final(flag).raised
            },
    {
        if payloads.len() == 0 {
            return None;
        }
        flag.raised = true;
        Some(RestoreSession { payloads, pos: 0, skipped: 0 })
    }

    /// The payload to write next, or `None` when the sequence is done.
    pub fn current(&self) -> (r: Option<&ClipboardPayload>)
        ensures
            r is Some <==> self.pos < self.payloads@.len(),
            r matches Some(p) ==> *p == self.payloads@[self.pos as int],
    {
        if self.pos < self.payloads.len() {
            Some(&self.payloads[self.pos])
        } else {
            None
        }
    }

    /// Record the outcome of one payload's write and move on to the next
    /// payload either way: a failed format is skipped, never aborts the
    /// remaining formats.
    pub fn advance(&mut self, wrote_ok: bool)
        requires
            old(self).pos < old(self).payloads@.len(),
            old(self).skipped <= old(self).pos,
        ensures
            final(self).payloads == old(self).payloads,
            final(self).pos == old(self).pos + 1,
            final(self).skipped == old(self).skipped + if wrote_ok {
                0int
            } else {
                1int
            },
            final(self).skipped <= final(self).pos,
    {
        let n = self.payloads.len();
        if self.pos < n {
            self.pos = self.pos + 1;
        }
        if !wrote_ok {
            self.skipped = self.skipped + 1;
        }
    }

    /// End the restore — after the last payload or on an aborted session
    /// alike — lowering the suppression signal, and report how many
    /// payloads were skipped.
    pub fn finish(self, flag: &mut EchoFlag) -> (r: usize)
        ensures
            !final(flag).raised,
            r == self.skipped,
    {
        flag.raised = false;
        self.skipped
    }
}

} // verus!
