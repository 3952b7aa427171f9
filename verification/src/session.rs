//! The session controller's state: at most one tracked mirroring
//! subprocess, and the fixed outcome texts of starting and stopping it.
//!
//! The controller never touches a process itself.  It tracks an opaque
//! handle token; the caller kills the process a handed-out token names.
//! Starting a session first takes the tracked handle out (its process is
//! terminated best-effort), then records the replacement only once the new
//! process is running, so a failed launch leaves the slot empty.

use vstd::prelude::*;

use crate::text::with_detail;

verus! {

/// The tracked handle slot: at most one live mirroring subprocess.
pub struct Session {
    handle: Option<u64>,
}

impl View for Session {
    type V = Option<u64>;

    closed spec fn view(&self) -> Option<u64> {
        self.handle
    }
}

/// What one start does to the slot: the new handle becomes the tracked
/// one, and whatever was tracked before is handed out for termination.
pub open spec fn start_step(before: Option<u64>, new_handle: u64) -> (Option<u64>, Option<u64>) {
    (Some(new_handle), before)
}

/// What one stop does to the slot: it is cleared, and whatever was tracked
/// is handed out for termination.
pub open spec fn stop_step(before: Option<u64>) -> (Option<u64>, Option<u64>) {
    (None, before)
}

impl Session {
    /// A fresh controller tracks nothing.
    pub fn new() -> (r: Session)
        ensures
            r@ is None,
    {
        Session { handle: None }
    }

    /// Takes the tracked handle out, leaving the slot empty.  Both start
    /// (which terminates the previous process best-effort) and stop (which
    /// surfaces a failed kill) begin with this.
    pub fn take_current(&mut self) -> (prev: Option<u64>)
        ensures
            final(self)@ is None,
            prev == old(self)@,
            (final(self)@, prev) == stop_step(old(self)@),
    {
        let prev = self.handle;
        self.handle = None;
        prev
    }

    /// Records the freshly spawned process as the one tracked session.
    /// Together with `take_current` this performs one `start_step`: the
    /// taken handle is the one to terminate, the recorded one stays.
    pub fn track(&mut self, new_handle: u64)
        ensures
            final(self)@ == Some(new_handle),
            (final(self)@, old(self)@) == start_step(old(self)@, new_handle),
    {
        self.handle = Some(new_handle);
    }

    /// The tracked handle, if any.
    pub fn current(&self) -> (r: Option<u64>)
        ensures
            r == self@,
    {
        self.handle
    }
}

/// Starting twice in succession leaves exactly one tracked handle — the
/// second — and the handle the first start tracked is exactly the one the
/// second start hands out for termination.
pub proof fn lemma_second_start_supersedes(before: Option<u64>, h1: u64, h2: u64)
    ensures
        start_step(start_step(before, h1).0, h2) == (Some(h2), Some(h1)),
{
}

/// The confirmation text of a successful start.
pub fn start_success_message() -> (r: String)
    ensures
        r@ == "scrcpy başlatıldı"@,
{
    String::from_str("scrcpy başlatıldı")
}

/// The failure text when the mirroring tool cannot be launched.
pub fn start_error_message(detail: &str) -> (r: String)
    ensures
        r@ == "scrcpy başlatılamadı: "@ + detail@,
{
    with_detail("scrcpy başlatılamadı: ", detail)
}

/// Decides what a stop returns.  With no tracked session it reports
/// "nothing running" without error; with one, it reports success, unless
/// killing the process itself failed, in which case that failure is
/// surfaced as the error.
pub fn stop_outcome(had_session: bool, kill_error: Option<&str>) -> (r: Result<String, String>)
    requires
        kill_error is Some ==> had_session,
    ensures
        r is Err <==> kill_error is Some,
        !had_session ==> (r matches Ok(m) && m@ == "Çalışan scrcpy bulunamadı"@),
        had_session && kill_error is None ==> (r matches Ok(m) && m@ == "scrcpy durduruldu"@),
        kill_error matches Some(e) ==> (r matches Err(m) && m@ == "Durdurma hatası: "@ + e@),
{
    if !had_session {
        Ok(String::from_str("Çalışan scrcpy bulunamadı"))
    } else {
        match kill_error {
            None => Ok(String::from_str("scrcpy durduruldu")),
            Some(e) => Err(with_detail("Durdurma hatası: ", e)),
        }
    }
}

} // verus!
