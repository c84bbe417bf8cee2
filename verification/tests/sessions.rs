use mirror_sessions::commands::{
    derive_session_id, get_active_sessions, get_mirroring_status, get_process_stats,
    start_mirroring, stop_all_mirroring, stop_mirroring, SessionError, SessionStatus,
};
use mirror_sessions::registry::{ProcessInfo, ScrcpyState};

fn no_exits() -> Vec<String> {
    Vec::new()
}

#[test]
fn session_id_embeds_device_and_pid() {
    assert_eq!(derive_session_id("emulator-5554", 4321), "session_emulator-5554_4321");
    assert_eq!(derive_session_id("A", 0), "session_A_0");
}

#[test]
fn session_id_edge_values() {
    assert_eq!(derive_session_id("", u64::MAX), "session__18446744073709551615");
    let mut state = ScrcpyState::new();
    let sid = start_mirroring(&mut state, String::new(), u64::MAX, 0, &no_exits());
    assert_eq!(sid, "session__18446744073709551615");
    assert!(state.is_running(&sid));
}

#[test]
fn pruning_untracked_identifiers_changes_nothing() {
    let mut state = ScrcpyState::new();
    start_mirroring(&mut state, "A".to_string(), 1, 0, &no_exits());
    let unrelated = vec!["session_Z_99".to_string()];
    state.cleanup_finished(&unrelated);
    assert_eq!(state.active_count(), 1);
    state.cleanup_finished(&no_exits());
    assert_eq!(state.active_count(), 1);
}

#[test]
fn start_then_list_two_sessions() {
    // Two targets, two sessions, both listed as running.
    let mut state = ScrcpyState::new();
    let sid_a = start_mirroring(&mut state, "A".to_string(), 101, 1000, &no_exits());
    let sid_b = start_mirroring(&mut state, "B".to_string(), 102, 2000, &no_exits());
    assert_eq!(sid_a, "session_A_101");
    assert_eq!(sid_b, "session_B_102");

    let sessions = get_active_sessions(&mut state, &no_exits());
    assert_eq!(sessions.len(), 2);
    assert_eq!(sessions[0].session_id, sid_a);
    assert_eq!(sessions[0].device_id, "A");
    assert_eq!(sessions[0].status, SessionStatus::Running);
    assert_eq!(sessions[0].started_at, "1000");
    assert_eq!(sessions[1].session_id, sid_b);
    assert_eq!(sessions[1].device_id, "B");
    assert_eq!(sessions[1].status, SessionStatus::Running);
    assert_eq!(sessions[1].started_at, "2000");

    // Stop the session for "A": only "B" remains.
    let stopped = stop_mirroring(&mut state, &sid_a).unwrap();
    assert_eq!(stopped.pid, 101);
    assert_eq!(stopped.device_id, "A");
    let sessions = get_active_sessions(&mut state, &no_exits());
    assert_eq!(sessions.len(), 1);
    assert_eq!(sessions[0].device_id, "B");

    // Stopping everything reports the pre-drain count, then nothing is left.
    let (count, drained) = stop_all_mirroring(&mut state);
    assert_eq!(count, 1);
    assert_eq!(drained.len(), 1);
    assert_eq!(drained[0].info.pid, 102);
    let stats = get_process_stats(&mut state, &no_exits());
    assert_eq!(stats.active_sessions, 0);
}

#[test]
fn same_target_twice_yields_two_sessions() {
    let mut state = ScrcpyState::new();
    let first = start_mirroring(&mut state, "A".to_string(), 11, 1, &no_exits());
    let second = start_mirroring(&mut state, "A".to_string(), 12, 2, &no_exits());
    assert_ne!(first, second);
    let sessions = get_active_sessions(&mut state, &no_exits());
    assert_eq!(sessions.len(), 2);
    assert_eq!(sessions[0].session_id, first);
    assert_eq!(sessions[1].session_id, second);
    assert_eq!(sessions[0].device_id, "A");
    assert_eq!(sessions[1].device_id, "A");
}

#[test]
fn stop_unknown_session_reports_not_found() {
    let mut state = ScrcpyState::new();
    let err = stop_mirroring(&mut state, "session_A_1").unwrap_err();
    assert_eq!(err, SessionError::SessionNotFound("session_A_1".to_string()));
    assert_eq!(err.message(), "Session not found: session_A_1");
}

#[test]
fn stop_twice_reports_not_found_the_second_time() {
    let mut state = ScrcpyState::new();
    let sid = start_mirroring(&mut state, "A".to_string(), 7, 0, &no_exits());
    assert!(stop_mirroring(&mut state, &sid).is_ok());
    let err = stop_mirroring(&mut state, &sid).unwrap_err();
    assert!(matches!(err, SessionError::SessionNotFound(_)));
}

#[test]
fn stop_all_hands_out_each_record_once() {
    let mut state = ScrcpyState::new();
    start_mirroring(&mut state, "A".to_string(), 1, 0, &no_exits());
    start_mirroring(&mut state, "B".to_string(), 2, 0, &no_exits());
    start_mirroring(&mut state, "C".to_string(), 3, 0, &no_exits());
    let (count, drained) = stop_all_mirroring(&mut state);
    assert_eq!(count, 3);
    let mut pids: Vec<u64> = drained.iter().map(|e| e.info.pid).collect();
    pids.sort();
    assert_eq!(pids, vec![1, 2, 3]);
    assert_eq!(get_process_stats(&mut state, &no_exits()).active_sessions, 0);
}

#[test]
fn external_exit_is_reflected_without_stop() {
    // A tracked process exits on its own; the caller's poll observes it, and
    // the next status-reporting operation no longer lists the session.
    let mut state = ScrcpyState::new();
    let sid = start_mirroring(&mut state, "A".to_string(), 5, 0, &no_exits());
    let survivor = start_mirroring(&mut state, "B".to_string(), 6, 0, &no_exits());
    let exited = vec![sid.clone()];

    let status = get_mirroring_status(&mut state, &sid, &exited);
    assert_eq!(status, SessionStatus::Stopped);
    let sessions = get_active_sessions(&mut state, &no_exits());
    assert_eq!(sessions.len(), 1);
    assert_eq!(sessions[0].session_id, survivor);
}

#[test]
fn status_of_running_session_is_running() {
    let mut state = ScrcpyState::new();
    let sid = start_mirroring(&mut state, "A".to_string(), 9, 0, &no_exits());
    assert_eq!(get_mirroring_status(&mut state, &sid, &no_exits()), SessionStatus::Running);
    assert_eq!(
        get_mirroring_status(&mut state, "session_B_1", &no_exits()),
        SessionStatus::Stopped
    );
}

#[test]
fn cleanup_is_idempotent_on_the_same_observations() {
    let mut state = ScrcpyState::new();
    start_mirroring(&mut state, "A".to_string(), 1, 0, &no_exits());
    let doomed = start_mirroring(&mut state, "B".to_string(), 2, 0, &no_exits());
    let exited = vec![doomed];

    state.cleanup_finished(&exited);
    let after_once: Vec<String> = state.get_active_sessions();
    state.cleanup_finished(&exited);
    let after_twice: Vec<String> = state.get_active_sessions();
    assert_eq!(after_once, after_twice);
    assert_eq!(after_once, vec!["session_A_1".to_string()]);
}

#[test]
fn reinserting_the_same_identifier_does_not_duplicate() {
    let mut state = ScrcpyState::new();
    state.add_process(
        "session_A_1".to_string(),
        ProcessInfo { pid: 1, device_id: "A".to_string(), started_at: 0 },
    );
    state.add_process(
        "session_A_1".to_string(),
        ProcessInfo { pid: 1, device_id: "A".to_string(), started_at: 5 },
    );
    assert_eq!(state.active_count(), 1);
    let info = state.get_process_info("session_A_1").unwrap();
    assert_eq!(info.1, 5);
}

#[test]
fn registry_primitives_track_and_release() {
    let mut state = ScrcpyState::new();
    assert!(!state.is_running("session_A_1"));
    state.add_process(
        "session_A_1".to_string(),
        ProcessInfo { pid: 1, device_id: "A".to_string(), started_at: 3 },
    );
    assert!(state.is_running("session_A_1"));
    assert_eq!(state.get_active_sessions(), vec!["session_A_1".to_string()]);
    let info = state.get_process_info("session_A_1").unwrap();
    assert_eq!(info.0, "A");
    assert_eq!(info.1, 3);
    assert!(state.get_process_info("session_B_2").is_none());

    let removed = state.remove_process("session_A_1").unwrap();
    assert_eq!(removed.pid, 1);
    assert!(state.remove_process("session_A_1").is_none());
    assert_eq!(state.active_count(), 0);
}

#[test]
fn error_messages_spell_out_each_failure() {
    assert_eq!(
        SessionError::LaunchFailure("no such file".to_string()).message(),
        "Failed to start scrcpy: no such file"
    );
    assert_eq!(SessionError::LockFailure.message(), "Failed to lock processes");
    assert_eq!(
        SessionError::TerminationFailure("denied".to_string()).message(),
        "Failed to kill process: denied"
    );
}

#[test]
fn stats_total_started_mirrors_active_count() {
    let mut state = ScrcpyState::new();
    start_mirroring(&mut state, "A".to_string(), 1, 0, &no_exits());
    start_mirroring(&mut state, "B".to_string(), 2, 0, &no_exits());
    let stats = get_process_stats(&mut state, &no_exits());
    assert_eq!(stats.active_sessions, 2);
    assert_eq!(stats.total_started, 2);
}
