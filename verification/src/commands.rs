//! The stdin command channel.
//!
//! The daemon is driven by a line-oriented protocol on stdin: `ENTER:`
//! toggles the press-Enter-after-paste flag, `INPUT_SOURCE:` switches the
//! audio source, `VOCAB:` replaces the live vocabulary from a JSON payload.
//! Unknown lines, out-of-set payloads and malformed JSON are ignored; the
//! session never stops over a protocol mistake.

use vstd::prelude::*;
use crate::prompt::Vocabulary;
use crate::session::AudioSource;
use crate::textutil::{str_eq, starts_with_str};

verus! {

/// A parsed command line.
pub enum Command {
    /// Toggle press-Enter-after-paste.
    SetEnter(bool),
    /// Switch the audio source.
    SetSource(AudioSource),
    /// Replace the vocabulary from this JSON payload.
    UpdateVocabulary(String),
    /// Unknown command or out-of-set payload.
    Ignored,
}

/// Spec-level mirror of a parsed command line.
pub enum SpecCommand {
    SetEnter(bool),
    SetSource(AudioSource),
    UpdateVocabulary(Seq<char>),
    Ignored,
}

/// Prefix test over sequences.
pub open spec fn has_prefix(l: Seq<char>, p: Seq<char>) -> bool {
    l.len() >= p.len() && l.take(p.len() as int) == p
}

/// The command grammar: a recognized prefix selects the command, and the
/// rest of the line is its payload.
pub open spec fn spec_parse_command(l: Seq<char>) -> SpecCommand {
    if has_prefix(l, "ENTER:"@) {
        let payload = l.skip("ENTER:"@.len() as int);
        if payload == "1"@ || payload == "true"@ {
            SpecCommand::SetEnter(true)
        } else if payload == "0"@ || payload == "false"@ {
            SpecCommand::SetEnter(false)
        } else {
            SpecCommand::Ignored
        }
    } else if has_prefix(l, "INPUT_SOURCE:"@) {
        let payload = l.skip("INPUT_SOURCE:"@.len() as int);
        if payload == "system"@ {
            SpecCommand::SetSource(AudioSource::Mic)
        } else if payload == "ble"@ {
            SpecCommand::SetSource(AudioSource::Ble)
        } else {
            SpecCommand::Ignored
        }
    } else if has_prefix(l, "VOCAB:"@) {
        SpecCommand::UpdateVocabulary(l.skip("VOCAB:"@.len() as int))
    } else {
        SpecCommand::Ignored
    }
}

/// Parse one stdin line against the command grammar.
pub fn parse_command(line: &str) -> (r: Command)
    ensures
        ({
            let s = spec_parse_command(line@);
            match r {
                Command::SetEnter(b) => s == SpecCommand::SetEnter(b),
                Command::SetSource(src) => s == SpecCommand::SetSource(src),
                Command::UpdateVocabulary(p) => s == SpecCommand::UpdateVocabulary(p@),
                Command::Ignored => s is Ignored,
            }
        }),
{
    let n = line.unicode_len();
    if starts_with_str(line, "ENTER:") {
        let plen = "ENTER:".unicode_len();
        let payload = line.substring_char(plen, n);
        proof {
            assert(payload@ =~= line@.skip("ENTER:"@.len() as int));
        }
        if str_eq(payload, "1") || str_eq(payload, "true") {
            Command::SetEnter(true)
        } else if str_eq(payload, "0") || str_eq(payload, "false") {
            Command::SetEnter(false)
        } else {
            Command::Ignored
        }
    } else if starts_with_str(line, "INPUT_SOURCE:") {
        let plen = "INPUT_SOURCE:".unicode_len();
        let payload = line.substring_char(plen, n);
        proof {
            assert(payload@ =~= line@.skip("INPUT_SOURCE:"@.len() as int));
        }
        if str_eq(payload, "system") {
            Command::SetSource(AudioSource::Mic)
        } else if str_eq(payload, "ble") {
            Command::SetSource(AudioSource::Ble)
        } else {
            Command::Ignored
        }
    } else if starts_with_str(line, "VOCAB:") {
        let plen = "VOCAB:".unicode_len();
        let payload = line.substring_char(plen, n);
        proof {
            assert(payload@ =~= line@.skip("VOCAB:"@.len() as int));
        }
        Command::UpdateVocabulary(String::from_str(payload))
    } else {
        Command::Ignored
    }
}

/// What a `VOCAB:` payload denotes: the `apps` and `commands` string arrays
/// of the JSON object, when the payload is valid JSON of exactly that shape,
/// and nothing otherwise. The JSON grammar is the parser's; naming its
/// verdict lets callers be held to passing every decoded update through.
pub uninterp spec fn spec_vocab_of(payload: Seq<char>) -> Option<(Seq<Seq<char>>, Seq<Seq<char>>)>;

/// Relies on serde_json::from_str, Value::get, Value::as_array and
/// Value::as_str: decodes the payload as a JSON object with `apps` and
/// `commands` fields, each an array of strings; any parse failure or other
/// shape is nothing. The result depends on the payload alone.
#[verifier::external_body]
fn decode_vocab_lists(payload: &str) -> (r: Option<(Vec<String>, Vec<String>)>)
    ensures
        r is Some <==> spec_vocab_of(payload@) is Some,
        r matches Some(v) ==> Some((v.0.deep_view(), v.1.deep_view())) == spec_vocab_of(payload@),
{
    let doc: serde_json::Value = serde_json::from_str(payload).ok()?;
    let mut apps: Vec<String> = Vec::new();
    for item in doc.get("apps")?.as_array()? {
        apps.push(item.as_str()?.to_owned());
    }
    let mut commands: Vec<String> = Vec::new();
    for item in doc.get("commands")?.as_array()? {
        commands.push(item.as_str()?.to_owned());
    }
    Some((apps, commands))
}

/// Decode a `VOCAB:` payload: a JSON object with `apps` and `commands`
/// fields, each an array of strings. The vocabulary is exactly the decoded
/// lists; anything the parser rejects, and any other shape, is nothing and
/// the old vocabulary stays.
pub fn decode_vocab(payload: &str) -> (r: Option<Vocabulary>)
    ensures
        r is Some <==> spec_vocab_of(payload@) is Some,
        r matches Some(v) ==> Some((v.apps.deep_view(), v.commands.deep_view())) == spec_vocab_of(
            payload@,
        ),
{
    match decode_vocab_lists(payload) {
        Some((apps, commands)) => Some(Vocabulary { apps, commands }),
        None => None,
    }
}

/// The live configuration cells, snapshot-read at use.
pub struct Config {
    pub press_enter: bool,
    pub input_source: AudioSource,
    pub vocabulary: Vocabulary,
}

/// Apply one parsed command to the configuration. Returns whether the audio
/// source changed, in which case the driver exits its audio loop and
/// reenters with the new source. A vocabulary update replaces the whole
/// vocabulary atomically; a payload that does not decode leaves it alone.
pub fn apply_command(cfg: &mut Config, cmd: Command) -> (source_changed: bool)
    ensures
        cmd matches Command::SetEnter(b) ==> final (cfg).press_enter == b
            && final (cfg).input_source == old(cfg).input_source && !source_changed,
        cmd matches Command::SetSource(s) ==> final (cfg).input_source == s
            && final (cfg).press_enter == old(cfg).press_enter
            && source_changed == (s != old(cfg).input_source),
        cmd matches Command::UpdateVocabulary(p) ==> (final (cfg).press_enter
            == old(cfg).press_enter && final (cfg).input_source == old(cfg).input_source
            && !source_changed && (match spec_vocab_of(p@) {
            Some(v) => final (cfg).vocabulary.apps.deep_view() == v.0
                && final (cfg).vocabulary.commands.deep_view() == v.1,
            None => final (cfg).vocabulary == old(cfg).vocabulary,
        })),
        cmd is Ignored ==> final (cfg).press_enter == old(cfg).press_enter
            && final (cfg).input_source == old(cfg).input_source && !source_changed,
{
    match cmd {
        Command::SetEnter(b) => {
            cfg.press_enter = b;
            false
        },
        Command::SetSource(s) => {
            let changed = s != cfg.input_source;
            cfg.input_source = s;
            changed
        },
        Command::UpdateVocabulary(payload) => {
            match decode_vocab(payload.as_str()) {
                Some(v) => {
                    cfg.vocabulary = v;
                },
                None => {},
            }
            false
        },
        Command::Ignored => false,
    }
}

} // verus!
