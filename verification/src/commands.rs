//! The operation surface over the session registry: start, stop, stop-all,
//! status, listing and statistics.
//!
//! Each operation here makes every structural decision — which identifier a
//! launch is registered under, which record a stop hands back for the one
//! termination signal, what a status or listing call reports.  The embedding
//! application supplies the OS-side inputs: the native identifier of a
//! process it just spawned, and the identifiers it observed to have exited
//! when it polled the tracked processes.

use vstd::prelude::*;
use vstd::string::StrSliceExecFns;
use vstd::string::StringExecFns;

use crate::registry::{
    contains_id, index_of_id, remove_exited, remove_id, upsert, wf, EntryModel, ProcessInfo,
    ProcessInfoModel, ScrcpyState, SessionEntry,
};
use crate::strutil::{dec_str, u64_to_string};

verus! {

/// The reported state of one session.
#[derive(Clone, Copy, Debug, PartialEq, Eq)]
pub enum SessionStatus {
    Running,
    Stopped,
    Error,
}

/// One row of a session listing.
#[derive(Clone, Debug)]
pub struct MirrorSession {
    pub session_id: String,
    pub device_id: String,
    pub status: SessionStatus,
    pub started_at: String,
}

/// Mathematical image of a [`MirrorSession`].
pub ghost struct MirrorSessionModel {
    pub session_id: Seq<char>,
    pub device_id: Seq<char>,
    pub status: SessionStatus,
    pub started_at: Seq<char>,
}

impl View for MirrorSession {
    type V = MirrorSessionModel;

    open spec fn view(&self) -> MirrorSessionModel {
        MirrorSessionModel {
            session_id: self.session_id@,
            device_id: self.device_id@,
            status: self.status,
            started_at: self.started_at@,
        }
    }
}

impl DeepView for MirrorSession {
    type V = MirrorSessionModel;

    open spec fn deep_view(&self) -> MirrorSessionModel {
        self@
    }
}

/// Registry statistics.  `total_started` mirrors the current active count:
/// the registry keeps no separate monotonic counter of everything ever
/// started — a known simplification, reported as such rather than invented.
#[derive(Clone, Copy, Debug, PartialEq, Eq)]
pub struct ProcessStats {
    pub active_sessions: usize,
    pub total_started: usize,
}

/// What can go wrong around the registry.
#[derive(Clone, Debug, PartialEq, Eq)]
pub enum SessionError {
    /// The mirroring binary could not be launched; carries the OS reason.
    LaunchFailure(String),
    /// The shared guard around the registry was poisoned by an earlier
    /// panic; no registry operation can be trusted afterwards.
    LockFailure,
    /// A stop request named an identifier that is not tracked.
    SessionNotFound(String),
    /// The OS refused a termination signal; carries the OS reason.
    TerminationFailure(String),
}

/// The human-readable reason for `e`.
pub open spec fn message_of(e: SessionError) -> Seq<char> {
    match e {
        SessionError::LaunchFailure(r) => "Failed to start scrcpy: "@ + r@,
        SessionError::LockFailure => "Failed to lock processes"@,
        SessionError::SessionNotFound(id) => "Session not found: "@ + id@,
        SessionError::TerminationFailure(r) => "Failed to kill process: "@ + r@,
    }
}

impl SessionError {
    /// Renders the error as its human-readable reason.
    pub fn message(&self) -> (r: String)
        ensures
            r@ == message_of(*self),
    {
        match self {
            SessionError::LaunchFailure(reason) => {
                let mut s = String::from_str("Failed to start scrcpy: ");
                s.append(reason.as_str());
                s
            },
            SessionError::LockFailure => String::from_str("Failed to lock processes"),
            SessionError::SessionNotFound(id) => {
                let mut s = String::from_str("Session not found: ");
                s.append(id.as_str());
                s
            },
            SessionError::TerminationFailure(reason) => {
                let mut s = String::from_str("Failed to kill process: ");
                s.append(reason.as_str());
                s
            },
        }
    }
}

/// The session identifier a launch is registered under: the target device
/// identifier and the process's native identifier, joined under a fixed
/// prefix.  Unique per launch as long as the platform does not reuse a live
/// native identifier; stable for the lifetime of the session.
pub open spec fn session_id_of(device_id: Seq<char>, pid: u64) -> Seq<char> {
    "session_"@ + device_id + "_"@ + dec_str(pid as nat)
}

/// Derives the session identifier for a launch.
pub fn derive_session_id(device_id: &str, pid: u64) -> (r: String)
    ensures
        r@ == session_id_of(device_id@, pid),
{
    let mut s = String::from_str("session_");
    s.append(device_id);
    s.append("_");
    let digits = u64_to_string(pid);
    s.append(digits.as_str());
    proof {
        assert(s@ =~= session_id_of(device_id@, pid));
    }
    s
}

/// The listing row a tracked record projects to.
pub open spec fn session_view_of(e: EntryModel) -> MirrorSessionModel {
    MirrorSessionModel {
        session_id: e.session_id,
        device_id: e.info.device_id,
        status: SessionStatus::Running,
        started_at: dec_str(e.info.started_at as nat),
    }
}

/// Registers a freshly launched process: prunes the records the caller
/// observed to have exited, derives the session identifier from the target
/// device and the new process's native identifier, and inserts the record.
/// Returns the identifier the session is tracked under.
pub fn start_mirroring(
    state: &mut ScrcpyState,
    device_id: String,
    pid: u64,
    started_at: u64,
    exited: &Vec<String>,
) -> (r: String)
    requires
        wf(old(state)@),
    ensures
        r@ == session_id_of(device_id@, pid),
        final(state)@ == upsert(
            remove_exited(old(state)@, exited.deep_view()),
            EntryModel {
                session_id: session_id_of(device_id@, pid),
                info: ProcessInfoModel { pid, device_id: device_id@, started_at },
            },
        ),
        wf(final(state)@),
{
    state.cleanup_finished(exited);
    let session_id = derive_session_id(device_id.as_str(), pid);
    let returned = session_id.clone();
    state.add_process(session_id, ProcessInfo { pid, device_id, started_at });
    returned
}

/// Stops tracking `session_id` and hands back the record for the single
/// termination signal the caller now owes.  An identifier that was never
/// inserted, or was already removed, yields `SessionNotFound` and leaves
/// the registry unchanged.
pub fn stop_mirroring(state: &mut ScrcpyState, session_id: &str) -> (r: Result<
    ProcessInfo,
    SessionError,
>)
    requires
        wf(old(state)@),
    ensures
        final(state)@ == remove_id(old(state)@, session_id@),
        wf(final(state)@),
        contains_id(old(state)@, session_id@) ==> (r matches Ok(info) && info@ == old(
            state,
        )@[index_of_id(old(state)@, session_id@)].info),
        !contains_id(old(state)@, session_id@) ==> (r matches Err(e) && e matches
            SessionError::SessionNotFound(id) && id@ == session_id@ && final(state)@ == old(
            state,
        )@),
{
    match state.remove_process(session_id) {
        Some(info) => Ok(info),
        None => Err(SessionError::SessionNotFound(session_id.to_owned())),
    }
}

/// Drains every session: reports how many were tracked, and hands back each
/// drained record exactly once so the caller can signal each process once.
pub fn stop_all_mirroring(state: &mut ScrcpyState) -> (r: (usize, Vec<SessionEntry>))
    ensures
        r.0 == old(state)@.len(),
        r.1.deep_view() == old(state)@,
        final(state)@ == Seq::<EntryModel>::empty(),
        wf(final(state)@),
{
    let count = state.active_count();
    let drained = state.stop_all();
    (count, drained)
}

/// Prunes the records the caller observed to have exited, then reports
/// whether `session_id` is still tracked.  A session that exited on its own
/// and one that was never tracked both report `Stopped`.
pub fn get_mirroring_status(
    state: &mut ScrcpyState,
    session_id: &str,
    exited: &Vec<String>,
) -> (r: SessionStatus)
    requires
        wf(old(state)@),
    ensures
        final(state)@ == remove_exited(old(state)@, exited.deep_view()),
        wf(final(state)@),
        r == (if contains_id(final(state)@, session_id@) {
            SessionStatus::Running
        } else {
            SessionStatus::Stopped
        }),
{
    state.cleanup_finished(exited);
    if state.is_running(session_id) {
        SessionStatus::Running
    } else {
        SessionStatus::Stopped
    }
}

/// Prunes the records the caller observed to have exited, then lists every
/// remaining session: identifier, target device, `Running`, and the launch
/// time rendered in decimal.
pub fn get_active_sessions(state: &mut ScrcpyState, exited: &Vec<String>) -> (r: Vec<
    MirrorSession,
>)
    requires
        wf(old(state)@),
    ensures
        final(state)@ == remove_exited(old(state)@, exited.deep_view()),
        wf(final(state)@),
        r.deep_view() == final(state)@.map_values(|e: EntryModel| session_view_of(e)),
{
    state.cleanup_finished(exited);
    let ids = state.get_active_sessions();
    let ghost s = state@;
    let n = ids.len();
    proof {
        assert(ids.deep_view().len() == s.len());
    }
    let mut out: Vec<MirrorSession> = Vec::new();
    let mut i: usize = 0;
    while i < n
        invariant
            wf(s),
            state@ == s,
            ids.deep_view() == crate::registry::ids_of(s),
            n == ids@.len(),
            n == s.len(),
            i <= n,
            out.deep_view().len() == i,
            forall|j: int| 0 <= j < i ==> out.deep_view()[j] == session_view_of(s[j]),
        decreases n - i,
    {
        proof {
            assert(ids.deep_view()[i as int] == s[i as int].session_id);
        }
        match state.get_process_info(ids[i].as_str()) {
            Some(found) => {
                proof {
                    assert(contains_id(s, s[i as int].session_id));
                    crate::registry::lemma_index_of_id(s, s[i as int].session_id);
                    assert(index_of_id(s, s[i as int].session_id) == i as int);
                }
                let (device_id, started_at) = found;
                let started_str = u64_to_string(started_at);
                let ghost prev = out.deep_view();
                out.push(
                    MirrorSession {
                        session_id: ids[i].clone(),
                        device_id,
                        status: SessionStatus::Running,
                        started_at: started_str,
                    },
                );
                proof {
                    assert(out.deep_view() =~= prev.push(session_view_of(s[i as int])));
                }
            },
            None => {
                proof {
                    assert(contains_id(s, s[i as int].session_id));
                    assert(false);
                }
            },
        }
        i = i + 1;
    }
    proof {
        assert(out.deep_view() =~= s.map_values(|e: EntryModel| session_view_of(e)));
    }
    out
}

/// Prunes the records the caller observed to have exited, then reports the
/// counts.  `total_started` repeats the active count, as documented on
/// [`ProcessStats`].
pub fn get_process_stats(state: &mut ScrcpyState, exited: &Vec<String>) -> (r: ProcessStats)
    requires
        wf(old(state)@),
    ensures
        final(state)@ == remove_exited(old(state)@, exited.deep_view()),
        wf(final(state)@),
        r.active_sessions == final(state)@.len(),
        r.total_started == final(state)@.len(),
{
    state.cleanup_finished(exited);
    let count = state.active_count();
    ProcessStats { active_sessions: count, total_started: count }
}

} // verus!
