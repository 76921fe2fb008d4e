//! Hotkey name parser.
//!
//! The trigger key can be overridden on the command line by name. Names are
//! matched case-insensitively over a fixed alphabet; anything else is
//! rejected, and the caller falls back to the default key.

use vstd::prelude::*;
use crate::textutil::{lower, lemma_lower_idempotent, eq_lower};

verus! {

/// The keys a trigger can be bound to.
#[derive(Clone, Copy, PartialEq, Eq, Structural, Debug)]
pub enum HotkeyKey {
    Function,
    F1,
    F2,
    F3,
    F4,
    F5,
    F6,
    F7,
    F8,
    F9,
    F10,
    F11,
    F12,
    Space,
    ControlLeft,
    ControlRight,
    Alt,
    MetaLeft,
    MetaRight,
    ShiftLeft,
    ShiftRight,
}

/// The parse over an already-lowercased name.
pub open spec fn spec_parse_hotkey(s: Seq<char>) -> Option<HotkeyKey> {
    if s == "function"@ || s == "fn"@ {
        Some(HotkeyKey::Function)
    } else if s == "f1"@ {
        Some(HotkeyKey::F1)
    } else if s == "f2"@ {
        Some(HotkeyKey::F2)
    } else if s == "f3"@ {
        Some(HotkeyKey::F3)
    } else if s == "f4"@ {
        Some(HotkeyKey::F4)
    } else if s == "f5"@ {
        Some(HotkeyKey::F5)
    } else if s == "f6"@ {
        Some(HotkeyKey::F6)
    } else if s == "f7"@ {
        Some(HotkeyKey::F7)
    } else if s == "f8"@ {
        Some(HotkeyKey::F8)
    } else if s == "f9"@ {
        Some(HotkeyKey::F9)
    } else if s == "f10"@ {
        Some(HotkeyKey::F10)
    } else if s == "f11"@ {
        Some(HotkeyKey::F11)
    } else if s == "f12"@ {
        Some(HotkeyKey::F12)
    } else if s == "space"@ {
        Some(HotkeyKey::Space)
    } else if s == "controlleft"@ || s == "ctrl"@ {
        Some(HotkeyKey::ControlLeft)
    } else if s == "controlright"@ {
        Some(HotkeyKey::ControlRight)
    } else if s == "altleft"@ || s == "altright"@ || s == "alt"@ {
        Some(HotkeyKey::Alt)
    } else if s == "metaleft"@ || s == "cmd"@ || s == "command"@ {
        Some(HotkeyKey::MetaLeft)
    } else if s == "metaright"@ {
        Some(HotkeyKey::MetaRight)
    } else if s == "shiftleft"@ || s == "shift"@ {
        Some(HotkeyKey::ShiftLeft)
    } else if s == "shiftright"@ {
        Some(HotkeyKey::ShiftRight)
    } else {
        None
    }
}

/// Parse a hotkey name, case-insensitively; `None` exactly on names outside
/// the documented alphabet.
pub fn parse_hotkey(key_str: &str) -> (r: Option<HotkeyKey>)
    ensures
        r == spec_parse_hotkey(lower(key_str@)),
{
    if eq_lower(key_str, "function") || eq_lower(key_str, "fn") {
        Some(HotkeyKey::Function)
    } else if eq_lower(key_str, "f1") {
        Some(HotkeyKey::F1)
    } else if eq_lower(key_str, "f2") {
        Some(HotkeyKey::F2)
    } else if eq_lower(key_str, "f3") {
        Some(HotkeyKey::F3)
    } else if eq_lower(key_str, "f4") {
        Some(HotkeyKey::F4)
    } else if eq_lower(key_str, "f5") {
        Some(HotkeyKey::F5)
    } else if eq_lower(key_str, "f6") {
        Some(HotkeyKey::F6)
    } else if eq_lower(key_str, "f7") {
        Some(HotkeyKey::F7)
    } else if eq_lower(key_str, "f8") {
        Some(HotkeyKey::F8)
    } else if eq_lower(key_str, "f9") {
        Some(HotkeyKey::F9)
    } else if eq_lower(key_str, "f10") {
        Some(HotkeyKey::F10)
    } else if eq_lower(key_str, "f11") {
        Some(HotkeyKey::F11)
    } else if eq_lower(key_str, "f12") {
        Some(HotkeyKey::F12)
    } else if eq_lower(key_str, "space") {
        Some(HotkeyKey::Space)
    } else if eq_lower(key_str, "controlleft") || eq_lower(key_str, "ctrl") {
        Some(HotkeyKey::ControlLeft)
    } else if eq_lower(key_str, "controlright") {
        Some(HotkeyKey::ControlRight)
    } else if eq_lower(key_str, "altleft") || eq_lower(key_str, "altright") || eq_lower(
        key_str,
        "alt",
    ) {
        Some(HotkeyKey::Alt)
    } else if eq_lower(key_str, "metaleft") || eq_lower(key_str, "cmd") || eq_lower(
        key_str,
        "command",
    ) {
        Some(HotkeyKey::MetaLeft)
    } else if eq_lower(key_str, "metaright") {
        Some(HotkeyKey::MetaRight)
    } else if eq_lower(key_str, "shiftleft") || eq_lower(key_str, "shift") {
        Some(HotkeyKey::ShiftLeft)
    } else if eq_lower(key_str, "shiftright") {
        Some(HotkeyKey::ShiftRight)
    } else {
        None
    }
}

/// The parse is case-insensitive: a name and its lowercase form parse alike.
pub proof fn lemma_parse_hotkey_case_insensitive(s: Seq<char>)
    ensures
        spec_parse_hotkey(lower(s)) == spec_parse_hotkey(lower(lower(s))),
{
    lemma_lower_idempotent(s);
}

/// The parse is total over the documented alphabet and rejects all else: it
/// returns a key exactly when the lowercased name is one of the listed ones.
pub proof fn lemma_parse_hotkey_alphabet(s: Seq<char>)
    ensures
        spec_parse_hotkey(s) is Some <==> (s == "function"@ || s == "fn"@ || s == "f1"@
            || s == "f2"@ || s == "f3"@ || s == "f4"@ || s == "f5"@ || s == "f6"@ || s == "f7"@
            || s == "f8"@ || s == "f9"@ || s == "f10"@ || s == "f11"@ || s == "f12"@
            || s == "space"@ || s == "controlleft"@ || s == "ctrl"@ || s == "controlright"@
            || s == "altleft"@ || s == "altright"@ || s == "alt"@ || s == "metaleft"@
            || s == "cmd"@ || s == "command"@ || s == "metaright"@ || s == "shiftleft"@
            || s == "shift"@ || s == "shiftright"@),
{
}

} // verus!
