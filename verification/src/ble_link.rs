//! BLE transport logic: device matching, subscription policy, notification
//! demultiplexing, control-byte mapping and the reconnect backoff.
//!
//! The radio itself — scanning, connecting, subscribing, reading — is driven
//! from the binary; the library holds every decision those loops take, over
//! plain values: characteristic identities as 128-bit UUID values, payloads
//! as byte vectors.

use vstd::prelude::*;
use vstd::arithmetic::power2::{pow2, lemma2_to64};
use crate::Error;
use crate::session::TriggerCommand;
use crate::textutil::lower;
use crate::textutil::starts_with_lower;

verus! {

/// How long a scan may look for the device before giving up.
pub const SCAN_TIMEOUT_SECS: u64 = 30;

/// How long a connect attempt may take.
pub const CONNECT_TIMEOUT_SECS: u64 = 10;

/// Seconds between connection health probes.
pub const HEALTH_PROBE_INTERVAL_SECS: u64 = 3;

/// Timeout of one health probe.
pub const HEALTH_PROBE_TIMEOUT_SECS: u64 = 1;

/// Control notification value for "recording started" sent by the device.
pub const RESP_SPEECH_START: u8 = 0x01;

/// Control notification value for "recording ended" sent by the device.
pub const RESP_SPEECH_END: u8 = 0x02;

/// What one GATT notification means.
#[derive(Debug)]
pub enum NotificationResult {
    /// A frame bundle from the audio data characteristic.
    Audio(Vec<u8>),
    /// A speech start/end control byte.
    Control(u8),
    /// Unknown characteristic, empty payload or unrecognized control byte.
    Ignored,
}

/// The characteristics a connection subscribed to, by UUID value.
#[derive(Clone, Copy, PartialEq, Eq, Structural, Debug)]
pub struct NotificationDemux {
    pub audio_char: Option<u128>,
    pub control_char: Option<u128>,
}

impl NotificationDemux {
    /// Classify one notification by its characteristic and payload, as the
    /// event stream does: audio payloads pass through whole; on the control
    /// characteristic only the two speech bytes are events; all else is
    /// dropped.
    pub fn process_notification(&self, uuid: u128, value: Vec<u8>) -> (r: NotificationResult)
        ensures
            (self.audio_char matches Some(a) && a == uuid) ==> (r matches NotificationResult::Audio(
                v,
            ) && v@ == value@),
            !(self.audio_char matches Some(a) && a == uuid) ==> {
                if self.control_char matches Some(c) && c == uuid && value@.len() > 0 && (
                value@[0] == RESP_SPEECH_START || value@[0] == RESP_SPEECH_END) {
                    r matches NotificationResult::Control(b) && b == value@[0]
                } else {
                    r is Ignored
                }
            },
    {
        if let Some(a) = self.audio_char {
            if a == uuid {
                return NotificationResult::Audio(value);
            }
        }
        if let Some(c) = self.control_char {
            if c == uuid {
                if value.len() > 0 {
                    let code = value[0];
                    if code == RESP_SPEECH_START || code == RESP_SPEECH_END {
                        return NotificationResult::Control(code);
                    }
                }
            }
        }
        NotificationResult::Ignored
    }
}

/// Map a control byte to a trigger command: speech start activates, speech
/// end deactivates, anything else is ignored.
pub fn map_control_byte(code: u8) -> (r: Option<TriggerCommand>)
    ensures
        code == RESP_SPEECH_START ==> r == Some(TriggerCommand::Activate),
        code == RESP_SPEECH_END ==> r == Some(TriggerCommand::Deactivate),
        code != RESP_SPEECH_START && code != RESP_SPEECH_END ==> r is None,
{
    if code == RESP_SPEECH_START {
        Some(TriggerCommand::Activate)
    } else if code == RESP_SPEECH_END {
        Some(TriggerCommand::Deactivate)
    } else {
        None
    }
}

/// Whether a discovered peripheral is the wanted device: either it
/// advertises the audio service, or its local name starts with `memo_`,
/// case-insensitively. A preferred name is diagnostic only and does not
/// change the rule.
pub fn matches_device(advertises_service: bool, local_name: Option<&str>) -> (r: bool)
    ensures
        r == (advertises_service || (local_name matches Some(n) && n@.len() >= "memo_"@.len()
            && lower(n@).take("memo_"@.len() as int) == "memo_"@)),
{
    if advertises_service {
        return true;
    }
    match local_name {
        Some(n) => starts_with_lower(n, "memo_"),
        None => false,
    }
}

/// Whether an environment-supplied preferred device name may be used: only
/// names carrying the `memo_` prefix, case-insensitively, qualify.
pub fn preferred_name_usable(name: &str) -> (r: bool)
    ensures
        r == (name@.len() >= "memo_"@.len() && lower(name@).take("memo_"@.len() as int)
            == "memo_"@),
{
    starts_with_lower(name, "memo_")
}

/// Connection mode: full audio over BLE, or control-channel trigger only
/// while audio comes from the system microphone.
#[derive(Clone, Copy, PartialEq, Eq, Structural, Debug)]
pub enum BleMode {
    Full,
    TriggerOnly,
}

/// What to subscribe to after service discovery.
#[derive(Clone, Copy, PartialEq, Eq, Structural, Debug)]
pub struct SubscriptionPlan {
    pub subscribe_audio: bool,
    pub subscribe_control: bool,
    /// In full mode a missing control characteristic is tolerated with a
    /// warning: button events are then unavailable.
    pub warn_missing_control: bool,
}

/// Decide the subscriptions for a fresh connection. In full mode a missing
/// audio characteristic is fatal and a missing control characteristic only a
/// warning; in trigger-only mode the control characteristic is required and
/// audio is never subscribed.
pub fn plan_subscriptions(mode: BleMode, has_audio: bool, has_control: bool) -> (r: Result<
    SubscriptionPlan,
    Error,
>)
    ensures
        mode is Full && !has_audio ==> r is Err,
        mode is Full && has_audio ==> (r matches Ok(p) && p == (SubscriptionPlan {
            subscribe_audio: true,
            subscribe_control: has_control,
            warn_missing_control: !has_control,
        })),
        mode is TriggerOnly && !has_control ==> r is Err,
        mode is TriggerOnly && has_control ==> (r matches Ok(p) && p == (SubscriptionPlan {
            subscribe_audio: false,
            subscribe_control: true,
            warn_missing_control: false,
        })),
{
    match mode {
        BleMode::Full => {
            if !has_audio {
                Err(Error(String::from_str("Audio Data characteristic not found")))
            } else {
                Ok(
                    SubscriptionPlan {
                        subscribe_audio: true,
                        subscribe_control: has_control,
                        warn_missing_control: !has_control,
                    },
                )
            }
        },
        BleMode::TriggerOnly => {
            if !has_control {
                Err(
                    Error(
                        String::from_str(
                            "Control TX characteristic not found - button press detection unavailable",
                        ),
                    ),
                )
            } else {
                Ok(
                    SubscriptionPlan {
                        subscribe_audio: false,
                        subscribe_control: true,
                        warn_missing_control: false,
                    },
                )
            }
        },
    }
}

/// The transport's connection state.
#[derive(Clone, Copy, PartialEq, Eq, Structural, Debug)]
pub enum BleConnectionState {
    Disconnected,
    Scanning,
    Connected { has_audio: bool, has_control: bool },
    Reconnecting { attempt: u32 },
}

/// The reconnect delay in seconds before a retry, as a function of how many
/// retries already failed.
pub open spec fn spec_backoff(attempt: nat) -> nat {
    let capped: nat = if attempt < 4 {
        attempt
    } else {
        4
    };
    let doubled = 2 * pow2(capped);
    if doubled > 30 {
        30
    } else {
        doubled
    }
}

/// Delay before reconnect attempt number `attempt`: the doubling series
/// 2, 4, 8, 16 seconds, capped at 30.
pub fn backoff_delay_secs(attempt: u32) -> (r: u64)
    ensures
        r == spec_backoff(attempt as nat),
{
    proof {
        lemma2_to64();
    }
    if attempt == 0 {
        2
    } else if attempt == 1 {
        4
    } else if attempt == 2 {
        8
    } else if attempt == 3 {
        16
    } else {
        30
    }
}

/// Backoff law: the delays for the first reconnect attempts are exactly
/// 2, 4, 8, 16 seconds, then the 32-second doubling is capped to 30 and
/// stays there.
pub proof fn lemma_backoff_series()
    ensures
        spec_backoff(0) == 2,
        spec_backoff(1) == 4,
        spec_backoff(2) == 8,
        spec_backoff(3) == 16,
        spec_backoff(4) == 30,
        spec_backoff(5) == 30,
        spec_backoff(6) == 30,
        forall|a: nat| a >= 4 ==> spec_backoff(a) == 30,
{
    lemma2_to64();
}

/// A lost connection starts reconnecting with the attempt counter cleared.
pub fn ble_on_disconnect(state: BleConnectionState) -> (r: BleConnectionState)
    ensures
        state matches BleConnectionState::Reconnecting { attempt } ==> r
            == (BleConnectionState::Reconnecting { attempt }),
        !(state is Reconnecting) ==> r == (BleConnectionState::Reconnecting { attempt: 0 }),
{
    match state {
        BleConnectionState::Reconnecting { attempt } => BleConnectionState::Reconnecting { attempt },
        _ => BleConnectionState::Reconnecting { attempt: 0 },
    }
}

/// One failed reconnect try: wait this attempt's delay from the backoff
/// series — 2 seconds for the first — then retry with the counter advanced
/// (saturating).
pub fn ble_retry_failed(attempt: u32) -> (r: (u64, BleConnectionState))
    ensures
        r.0 == spec_backoff(attempt as nat),
        r.1 == (BleConnectionState::Reconnecting {
            attempt: if attempt == u32::MAX {
                attempt
            } else {
                (attempt + 1) as u32
            },
        }),
{
    let next = if attempt == u32::MAX {
        attempt
    } else {
        attempt + 1
    };
    (backoff_delay_secs(attempt), BleConnectionState::Reconnecting { attempt: next })
}

/// A successful (re)connect: the state records the discovered
/// characteristics, and the attempt counter is reset — the next disconnect
/// starts the backoff series from the beginning.
pub fn ble_on_connected(has_audio: bool, has_control: bool) -> (r: BleConnectionState)
    ensures
        r == (BleConnectionState::Connected { has_audio, has_control }),
{
    BleConnectionState::Connected { has_audio, has_control }
}

} // verus!
