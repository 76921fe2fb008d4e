//! Recording session state machine.
//!
//! A session is driven by trigger commands merged from the keyboard hook and
//! the BLE control channel. The machine keeps press-and-hold semantics
//! (activate on press, stop on release) and a latched lock mode in which a
//! release does not end the session; only a further lock toggle does.

use vstd::prelude::*;

verus! {

/// Which device feeds the audio ring while recording.
#[derive(Clone, Copy, PartialEq, Eq, Structural, Debug)]
pub enum AudioSource {
    Mic,
    Ble,
}

/// A trigger command, merged from both trigger sources.
#[derive(Clone, Copy, PartialEq, Eq, Structural, Debug)]
pub enum TriggerCommand {
    Activate,
    Deactivate,
    ToggleLock,
}

/// The recording state observed between events.
#[derive(Clone, Copy, PartialEq, Eq, Structural, Debug)]
pub enum RecordingState {
    Idle,
    Recording { source: AudioSource, locked: bool },
}

/// What the driver must do after a transition.
#[derive(Clone, Copy, PartialEq, Eq, Structural, Debug)]
pub enum SessionAction {
    /// Nothing to do.
    Ignore,
    /// Clear the audio ring and open a capture stream for `source`;
    /// `announce_lock` asks for a "locked" notice (lock toggled from idle).
    StartCapture { source: AudioSource, announce_lock: bool },
    /// Drop the capture stream, take the buffered samples and spawn a
    /// transcription job; `announce_unlock` asks for an "unlocked" notice.
    StopAndTranscribe { announce_unlock: bool },
    /// Recording goes on; announce that the session is now locked.
    AnnounceLocked,
}

/// The transition table of the session state machine.
pub open spec fn spec_session_step(
    state: RecordingState,
    ev: TriggerCommand,
    source: AudioSource,
) -> (RecordingState, SessionAction) {
    match (state, ev) {
        (RecordingState::Idle, TriggerCommand::Activate) => (
            RecordingState::Recording { source, locked: false },
            SessionAction::StartCapture { source, announce_lock: false },
        ),
        (RecordingState::Idle, TriggerCommand::ToggleLock) => (
            RecordingState::Recording { source, locked: true },
            SessionAction::StartCapture { source, announce_lock: true },
        ),
        (RecordingState::Idle, TriggerCommand::Deactivate) => (
            RecordingState::Idle,
            SessionAction::Ignore,
        ),
        (RecordingState::Recording { source: s, locked }, TriggerCommand::Activate) => (
            RecordingState::Recording { source: s, locked },
            SessionAction::Ignore,
        ),
        (RecordingState::Recording { source: s, locked: false }, TriggerCommand::Deactivate) => (
            RecordingState::Idle,
            SessionAction::StopAndTranscribe { announce_unlock: false },
        ),
        (RecordingState::Recording { source: s, locked: true }, TriggerCommand::Deactivate) => (
            RecordingState::Recording { source: s, locked: true },
            SessionAction::Ignore,
        ),
        (RecordingState::Recording { source: s, locked: false }, TriggerCommand::ToggleLock) => (
            RecordingState::Recording { source: s, locked: true },
            SessionAction::AnnounceLocked,
        ),
        (RecordingState::Recording { source: s, locked: true }, TriggerCommand::ToggleLock) => (
            RecordingState::Idle,
            SessionAction::StopAndTranscribe { announce_unlock: true },
        ),
    }
}

/// Advance the session state machine by one trigger command.
///
/// `source` is the configured audio source, consulted only when a new
/// recording starts.
pub fn session_step(
    state: RecordingState,
    ev: TriggerCommand,
    source: AudioSource,
) -> (r: (RecordingState, SessionAction))
    ensures
        r == spec_session_step(state, ev, source),
{
    match (state, ev) {
        (RecordingState::Idle, TriggerCommand::Activate) => (
            RecordingState::Recording { source, locked: false },
            SessionAction::StartCapture { source, announce_lock: false },
        ),
        (RecordingState::Idle, TriggerCommand::ToggleLock) => (
            RecordingState::Recording { source, locked: true },
            SessionAction::StartCapture { source, announce_lock: true },
        ),
        (RecordingState::Idle, TriggerCommand::Deactivate) => (
            RecordingState::Idle,
            SessionAction::Ignore,
        ),
        (RecordingState::Recording { source: s, locked }, TriggerCommand::Activate) => (
            RecordingState::Recording { source: s, locked },
            SessionAction::Ignore,
        ),
        (RecordingState::Recording { source: s, locked: false }, TriggerCommand::Deactivate) => (
            RecordingState::Idle,
            SessionAction::StopAndTranscribe { announce_unlock: false },
        ),
        (RecordingState::Recording { source: s, locked: true }, TriggerCommand::Deactivate) => (
            RecordingState::Recording { source: s, locked: true },
            SessionAction::Ignore,
        ),
        (RecordingState::Recording { source: s, locked: false }, TriggerCommand::ToggleLock) => (
            RecordingState::Recording { source: s, locked: true },
            SessionAction::AnnounceLocked,
        ),
        (RecordingState::Recording { source: s, locked: true }, TriggerCommand::ToggleLock) => (
            RecordingState::Idle,
            SessionAction::StopAndTranscribe { announce_unlock: true },
        ),
    }
}

/// Hand over an utterance for transcription: a job is spawned exactly when
/// the utterance holds at least one sample; an empty utterance is discarded
/// without invoking the recognizer.
pub fn finish_utterance(samples: Vec<i16>) -> (r: Option<Vec<i16>>)
    ensures
        r is Some <==> samples@.len() > 0,
        r is Some ==> r->Some_0@ == samples@,
{
    if samples.len() > 0 {
        Some(samples)
    } else {
        None
    }
}

/// True of actions that open a capture stream.
pub open spec fn is_start(a: SessionAction) -> bool {
    a is StartCapture
}

/// True of actions that close a session and spawn a transcription job.
pub open spec fn is_stop(a: SessionAction) -> bool {
    a is StopAndTranscribe
}

/// The state after running the machine from `state` over `evs`.
pub open spec fn spec_run(
    state: RecordingState,
    evs: Seq<TriggerCommand>,
    source: AudioSource,
) -> RecordingState
    decreases evs.len(),
{
    if evs.len() == 0 {
        state
    } else {
        spec_run(spec_session_step(state, evs[0], source).0, evs.skip(1), source)
    }
}

/// How many capture streams the machine opens over `evs`.
pub open spec fn count_starts(
    state: RecordingState,
    evs: Seq<TriggerCommand>,
    source: AudioSource,
) -> nat
    decreases evs.len(),
{
    if evs.len() == 0 {
        0
    } else {
        let (next, a) = spec_session_step(state, evs[0], source);
        (if is_start(a) { 1nat } else { 0nat }) + count_starts(next, evs.skip(1), source)
    }
}

/// How many transcription jobs the machine spawns over `evs`.
pub open spec fn count_stops(
    state: RecordingState,
    evs: Seq<TriggerCommand>,
    source: AudioSource,
) -> nat
    decreases evs.len(),
{
    if evs.len() == 0 {
        0
    } else {
        let (next, a) = spec_session_step(state, evs[0], source);
        (if is_stop(a) { 1nat } else { 0nat }) + count_stops(next, evs.skip(1), source)
    }
}

/// Single-session law: under any interleaving of trigger commands from both
/// sources, the machine is in exactly one state, and the number of
/// transcription jobs spawned equals the number of opened sessions minus the
/// one still recording, so at most one session is ever open and every job
/// stems from one completed (start, stop) pair.
pub proof fn lemma_single_session(
    state: RecordingState,
    evs: Seq<TriggerCommand>,
    source: AudioSource,
)
    ensures
        count_starts(state, evs, source) + (if state is Recording { 1nat } else { 0nat })
            == count_stops(state, evs, source)
                + (if spec_run(state, evs, source) is Recording { 1nat } else { 0nat }),
    decreases evs.len(),
{
    if evs.len() == 0 {
    } else {
        let (next, a) = spec_session_step(state, evs[0], source);
        lemma_single_session(next, evs.skip(1), source);
    }
}

/// Lock law, first half: while locked, a bare deactivate neither leaves the
/// recording state nor spawns a job.
pub proof fn lemma_locked_ignores_deactivate(state: RecordingState, source: AudioSource)
    requires
        state matches RecordingState::Recording { locked, .. } && locked,
    ensures
        spec_session_step(state, TriggerCommand::Deactivate, source) == (
            state,
            SessionAction::Ignore,
        ),
{
}

/// Lock law over whole traces: while locked, any run of activates and
/// deactivates — from either source — leaves the session recording, locked,
/// and spawns no job; only a lock toggle can end it.
pub proof fn lemma_lock_holds_until_toggle(
    state: RecordingState,
    evs: Seq<TriggerCommand>,
    source: AudioSource,
)
    requires
        state matches RecordingState::Recording { locked, .. } && locked,
        forall|i: int| 0 <= i < evs.len() ==> evs[i] != TriggerCommand::ToggleLock,
    ensures
        spec_run(state, evs, source) == state,
        count_stops(state, evs, source) == 0,
    decreases evs.len(),
{
    if evs.len() > 0 {
        assert(evs[0] != TriggerCommand::ToggleLock);
        let (next, a) = spec_session_step(state, evs[0], source);
        assert(next == state && a == SessionAction::Ignore);
        assert forall|i: int| 0 <= i < evs.skip(1).len() implies evs.skip(1)[i]
            != TriggerCommand::ToggleLock by {
            assert(evs.skip(1)[i] == evs[i + 1]);
        }
        lemma_lock_holds_until_toggle(state, evs.skip(1), source);
    }
}

/// Lock law, second half: from a locked recording, only a lock toggle closes
/// the session, and it is the sole event that does so.
pub proof fn lemma_only_toggle_unlocks(
    state: RecordingState,
    ev: TriggerCommand,
    source: AudioSource,
)
    requires
        state matches RecordingState::Recording { locked, .. } && locked,
    ensures
        is_stop(spec_session_step(state, ev, source).1) <==> ev is ToggleLock,
        ev is ToggleLock ==> spec_session_step(state, ev, source).0 is Idle
            && spec_session_step(state, ev, source).1
                == (SessionAction::StopAndTranscribe { announce_unlock: true }),
{
}

} // verus!
