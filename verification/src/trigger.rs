//! Trigger sources.
//!
//! A trigger activates or deactivates recording. The keyboard hook and the
//! BLE control channel are the two sources; this module holds the event
//! vocabulary, the trigger abstraction, and the keyboard chord tracker that
//! turns raw key transitions into merged trigger commands, with the
//! trigger+Control chord latched so one chord yields exactly one lock toggle.

use vstd::prelude::*;
use crate::Result;
use crate::session::TriggerCommand;

verus! {

/// Trigger event types.
#[derive(Clone, Copy, PartialEq, Eq, Structural, Debug)]
pub enum TriggerEvent {
    /// Trigger activated (start recording).
    Activated,
    /// Trigger deactivated (stop recording).
    Deactivated,
}

/// A mechanism that can activate or deactivate recording: a hotkey, a
/// hardware button, a wake word. Implementations live with their device
/// handling, outside the library.
pub trait Trigger: Send + Sync {
    /// Whether the trigger is currently active.
    fn is_active(&self) -> bool;

    /// Block until the trigger is activated.
    fn wait_for_activation(&self) -> Result<()>;

    /// Block until the trigger is deactivated.
    fn wait_for_deactivation(&self) -> Result<()>;
}

/// Trigger mechanism selection.
#[derive(Clone, Copy, PartialEq, Eq, Structural, Debug)]
pub enum TriggerType {
    /// Keyboard key.
    Hotkey,
    /// Hardware button.
    Button,
    /// Voice activation.
    WakeWord,
}

/// One step of a wait loop over trigger events: the new activation state,
/// and whether the awaited event arrived.
pub fn trigger_wait_step(ev: TriggerEvent, await_active: bool) -> (r: (bool, bool))
    ensures
        r.0 == (ev is Activated),
        r.1 == (await_active == (ev is Activated)),
{
    let now_active = match ev {
        TriggerEvent::Activated => true,
        TriggerEvent::Deactivated => false,
    };
    (now_active, await_active == now_active)
}

/// A raw keyboard transition seen by the global hook, already classified
/// against the configured trigger key.
#[derive(Clone, Copy, PartialEq, Eq, Structural, Debug)]
pub enum KeyTransition {
    TriggerPress,
    TriggerRelease,
    ControlPress,
    ControlRelease,
    Other,
}

/// Key state the hook tracks to detect the trigger+Control chord.
#[derive(Clone, Copy, PartialEq, Eq, Structural, Debug)]
pub struct KeyChordTracker {
    pub trigger_down: bool,
    pub control_down: bool,
    /// Set once a chord has fired, cleared on any release, so a held chord
    /// emits a single lock toggle.
    pub chord_latched: bool,
}

impl KeyChordTracker {
    /// The tracker before any key is seen.
    pub fn new() -> (r: KeyChordTracker)
        ensures
            r == (KeyChordTracker { trigger_down: false, control_down: false, chord_latched: false }),
    {
        KeyChordTracker { trigger_down: false, control_down: false, chord_latched: false }
    }
}

/// The keyboard hook's transition function.
pub open spec fn spec_key_step(
    t: KeyChordTracker,
    ev: KeyTransition,
    locked: bool,
) -> (KeyChordTracker, Option<TriggerCommand>) {
    match ev {
        KeyTransition::TriggerPress => {
            let t2 = KeyChordTracker { trigger_down: true, ..t };
            if t.control_down {
                if !t.chord_latched {
                    (KeyChordTracker { chord_latched: true, ..t2 }, Some(TriggerCommand::ToggleLock))
                } else {
                    (t2, None)
                }
            } else {
                (t2, Some(TriggerCommand::Activate))
            }
        },
        KeyTransition::TriggerRelease => {
            let t2 = KeyChordTracker { trigger_down: false, chord_latched: false, ..t };
            if !locked {
                (t2, Some(TriggerCommand::Deactivate))
            } else {
                (t2, None)
            }
        },
        KeyTransition::ControlPress => {
            let t2 = KeyChordTracker { control_down: true, ..t };
            if t.trigger_down && !t.chord_latched {
                (KeyChordTracker { chord_latched: true, ..t2 }, Some(TriggerCommand::ToggleLock))
            } else {
                (t2, None)
            }
        },
        KeyTransition::ControlRelease => {
            (KeyChordTracker { control_down: false, chord_latched: false, ..t }, None)
        },
        KeyTransition::Other => (t, None),
    }
}

/// Advance the keyboard chord tracker by one raw key transition.
///
/// `locked` is the session lock flag: a trigger release while locked emits
/// nothing, so the session outlives the press.
pub fn key_step(t: KeyChordTracker, ev: KeyTransition, locked: bool) -> (r: (
    KeyChordTracker,
    Option<TriggerCommand>,
))
    ensures
        r == spec_key_step(t, ev, locked),
{
    match ev {
        KeyTransition::TriggerPress => {
            if t.control_down {
                if !t.chord_latched {
                    (
                        KeyChordTracker { trigger_down: true, chord_latched: true, ..t },
                        Some(TriggerCommand::ToggleLock),
                    )
                } else {
                    (KeyChordTracker { trigger_down: true, ..t }, None)
                }
            } else {
                (KeyChordTracker { trigger_down: true, ..t }, Some(TriggerCommand::Activate))
            }
        },
        KeyTransition::TriggerRelease => {
            let t2 = KeyChordTracker { trigger_down: false, chord_latched: false, ..t };
            if !locked {
                (t2, Some(TriggerCommand::Deactivate))
            } else {
                (t2, None)
            }
        },
        KeyTransition::ControlPress => {
            if t.trigger_down && !t.chord_latched {
                (
                    KeyChordTracker { control_down: true, chord_latched: true, ..t },
                    Some(TriggerCommand::ToggleLock),
                )
            } else {
                (KeyChordTracker { control_down: true, ..t }, None)
            }
        },
        KeyTransition::ControlRelease => {
            (KeyChordTracker { control_down: false, chord_latched: false, ..t }, None)
        },
        KeyTransition::Other => (t, None),
    }
}

/// Chord debounce law: a step that emits a lock toggle latches the chord;
/// while the chord is latched no further lock toggle is emitted; and only a
/// release clears the latch. One held chord therefore yields one toggle.
pub proof fn lemma_chord_debounce(t: KeyChordTracker, ev: KeyTransition, locked: bool)
    ensures
        spec_key_step(t, ev, locked).1 == Some(TriggerCommand::ToggleLock)
            ==> spec_key_step(t, ev, locked).0.chord_latched,
        t.chord_latched ==> spec_key_step(t, ev, locked).1 != Some(TriggerCommand::ToggleLock),
        t.chord_latched && !(ev is TriggerRelease) && !(ev is ControlRelease)
            ==> spec_key_step(t, ev, locked).0.chord_latched,
{
}

} // verus!
