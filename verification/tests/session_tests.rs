use memo_stt::session::{
    session_step, finish_utterance, AudioSource, RecordingState, SessionAction, TriggerCommand,
};
use memo_stt::trigger::{
    key_step, trigger_wait_step, KeyChordTracker, KeyTransition, TriggerEvent,
};

#[test]
fn idle_activate_starts_recording() {
    let (next, action) = session_step(RecordingState::Idle, TriggerCommand::Activate, AudioSource::Mic);
    assert_eq!(next, RecordingState::Recording { source: AudioSource::Mic, locked: false });
    assert_eq!(action, SessionAction::StartCapture { source: AudioSource::Mic, announce_lock: false });
}

#[test]
fn idle_toggle_lock_starts_locked_recording() {
    let (next, action) = session_step(RecordingState::Idle, TriggerCommand::ToggleLock, AudioSource::Ble);
    assert_eq!(next, RecordingState::Recording { source: AudioSource::Ble, locked: true });
    assert_eq!(action, SessionAction::StartCapture { source: AudioSource::Ble, announce_lock: true });
}

#[test]
fn idle_deactivate_is_ignored() {
    let (next, action) = session_step(RecordingState::Idle, TriggerCommand::Deactivate, AudioSource::Mic);
    assert_eq!(next, RecordingState::Idle);
    assert_eq!(action, SessionAction::Ignore);
}

#[test]
fn unlocked_deactivate_stops_and_transcribes() {
    let state = RecordingState::Recording { source: AudioSource::Mic, locked: false };
    let (next, action) = session_step(state, TriggerCommand::Deactivate, AudioSource::Mic);
    assert_eq!(next, RecordingState::Idle);
    assert_eq!(action, SessionAction::StopAndTranscribe { announce_unlock: false });
}

#[test]
fn locked_deactivate_is_ignored() {
    let state = RecordingState::Recording { source: AudioSource::Mic, locked: true };
    let (next, action) = session_step(state, TriggerCommand::Deactivate, AudioSource::Mic);
    assert_eq!(next, state);
    assert_eq!(action, SessionAction::Ignore);
}

#[test]
fn recording_activate_is_idempotent() {
    let state = RecordingState::Recording { source: AudioSource::Ble, locked: false };
    let (next, action) = session_step(state, TriggerCommand::Activate, AudioSource::Mic);
    assert_eq!(next, state);
    assert_eq!(action, SessionAction::Ignore);
}

#[test]
fn toggle_while_recording_locks() {
    let state = RecordingState::Recording { source: AudioSource::Mic, locked: false };
    let (next, action) = session_step(state, TriggerCommand::ToggleLock, AudioSource::Mic);
    assert_eq!(next, RecordingState::Recording { source: AudioSource::Mic, locked: true });
    assert_eq!(action, SessionAction::AnnounceLocked);
}

#[test]
fn toggle_while_locked_unlocks_and_transcribes() {
    let state = RecordingState::Recording { source: AudioSource::Mic, locked: true };
    let (next, action) = session_step(state, TriggerCommand::ToggleLock, AudioSource::Mic);
    assert_eq!(next, RecordingState::Idle);
    assert_eq!(action, SessionAction::StopAndTranscribe { announce_unlock: true });
}

// Lock-then-unlock session: lock notice, ignored release, one job on unlock.
#[test]
fn lock_session_spawns_exactly_one_job() {
    let src = AudioSource::Mic;
    let mut state = RecordingState::Idle;
    let mut jobs = 0;
    for ev in [
        TriggerCommand::ToggleLock,
        TriggerCommand::Deactivate,
        TriggerCommand::Activate,
        TriggerCommand::ToggleLock,
    ] {
        let (next, action) = session_step(state, ev, src);
        state = next;
        if matches!(action, SessionAction::StopAndTranscribe { .. }) {
            jobs += 1;
        }
    }
    assert_eq!(state, RecordingState::Idle);
    assert_eq!(jobs, 1);
}

// Simultaneous triggers from both sources: the second activate is ignored,
// so any interleaving opens a single session.
#[test]
fn double_activate_opens_one_session() {
    let src = AudioSource::Mic;
    let mut state = RecordingState::Idle;
    let mut starts = 0;
    for ev in [TriggerCommand::Activate, TriggerCommand::Activate, TriggerCommand::Deactivate] {
        let (next, action) = session_step(state, ev, src);
        state = next;
        if matches!(action, SessionAction::StartCapture { .. }) {
            starts += 1;
        }
    }
    assert_eq!(starts, 1);
    assert_eq!(state, RecordingState::Idle);
}

#[test]
fn empty_utterance_spawns_no_job() {
    assert!(finish_utterance(Vec::new()).is_none());
}

#[test]
fn nonempty_utterance_is_handed_over_whole() {
    let samples = vec![1i16, -2, 3];
    let taken = finish_utterance(samples.clone()).unwrap();
    assert_eq!(taken, samples);
}

#[test]
fn chord_emits_one_toggle_until_release() {
    let t0 = KeyChordTracker::new();
    let (t1, e1) = key_step(t0, KeyTransition::ControlPress, false);
    assert_eq!(e1, None);
    let (t2, e2) = key_step(t1, KeyTransition::TriggerPress, false);
    assert_eq!(e2, Some(TriggerCommand::ToggleLock));
    assert!(t2.chord_latched);
    // Held chord: a repeated trigger press emits nothing more.
    let (t3, e3) = key_step(t2, KeyTransition::TriggerPress, false);
    assert_eq!(e3, None);
    // Release clears the latch; the next chord fires again.
    let (t4, e4) = key_step(t3, KeyTransition::TriggerRelease, true);
    assert_eq!(e4, None);
    assert!(!t4.chord_latched);
    let (_, e5) = key_step(t4, KeyTransition::TriggerPress, true);
    assert_eq!(e5, Some(TriggerCommand::ToggleLock));
}

#[test]
fn plain_press_and_release_drive_a_session() {
    let t0 = KeyChordTracker::new();
    let (t1, e1) = key_step(t0, KeyTransition::TriggerPress, false);
    assert_eq!(e1, Some(TriggerCommand::Activate));
    let (_, e2) = key_step(t1, KeyTransition::TriggerRelease, false);
    assert_eq!(e2, Some(TriggerCommand::Deactivate));
}

#[test]
fn release_while_locked_emits_nothing() {
    let t0 = KeyChordTracker::new();
    let (t1, _) = key_step(t0, KeyTransition::TriggerPress, false);
    let (_, e) = key_step(t1, KeyTransition::TriggerRelease, true);
    assert_eq!(e, None);
}

#[test]
fn wait_step_matches_awaited_event() {
    assert_eq!(trigger_wait_step(TriggerEvent::Activated, true), (true, true));
    assert_eq!(trigger_wait_step(TriggerEvent::Deactivated, true), (false, false));
    assert_eq!(trigger_wait_step(TriggerEvent::Deactivated, false), (false, true));
    assert_eq!(trigger_wait_step(TriggerEvent::Activated, false), (true, false));
}
