use memo_stt::textproc::strip;
use memo_stt::hotkey::{parse_hotkey, HotkeyKey};
use memo_stt::emit::{
    format_duration_line, format_final_line, json_escape, sum_of_squares, u16_sample_to_i16,
};
use memo_stt::jobs::{has_speech, join_segments};

#[test]
fn short_phrase_loses_its_terminator() {
    assert_eq!(strip("hello."), "hello");
    assert_eq!(strip("ok!"), "ok");
    assert_eq!(strip("really?"), "really");
}

#[test]
fn long_phrase_keeps_its_terminator() {
    assert_eq!(strip("one two three four."), "one two three four.");
    assert_eq!(strip("is this a question at all?"), "is this a question at all?");
}

#[test]
fn mixed_phrases_keep_only_the_long_terminators() {
    assert_eq!(strip("Hi there. How are you doing today?"), "Hi there How are you doing today?");
    assert_eq!(strip("Send it. Thanks."), "Send it Thanks");
}

#[test]
fn trailing_whitespace_is_trimmed() {
    assert_eq!(strip("hello.   "), "hello");
    assert_eq!(strip("one two three four.  \t"), "one two three four.");
    assert_eq!(strip(""), "");
    assert_eq!(strip("   "), "");
}

#[test]
fn degenerate_phrases_lose_their_terminators() {
    assert_eq!(strip("."), "");
    assert_eq!(strip("a.b.c"), "abc");
    assert_eq!(strip("?!"), "");
    // Exactly four words is the keep threshold.
    assert_eq!(strip("a b c d."), "a b c d.");
    assert_eq!(strip("a b c."), "a b c");
}

#[test]
fn strip_is_idempotent_on_samples() {
    for t in [
        "hello.",
        "Hi there. How are you doing today?",
        "a b c. d e f g. done!",
        "...",
        "one two three four. five.",
        "no terminator here",
        "  padded   words everywhere  . ",
    ] {
        let once = strip(t);
        assert_eq!(strip(&once), once);
    }
}

#[test]
fn hotkey_names_parse_case_insensitively() {
    assert_eq!(parse_hotkey("function"), Some(HotkeyKey::Function));
    assert_eq!(parse_hotkey("FN"), Some(HotkeyKey::Function));
    assert_eq!(parse_hotkey("F7"), Some(HotkeyKey::F7));
    assert_eq!(parse_hotkey("Space"), Some(HotkeyKey::Space));
    assert_eq!(parse_hotkey("CTRL"), Some(HotkeyKey::ControlLeft));
    assert_eq!(parse_hotkey("controlright"), Some(HotkeyKey::ControlRight));
    assert_eq!(parse_hotkey("ALT"), Some(HotkeyKey::Alt));
    assert_eq!(parse_hotkey("altleft"), Some(HotkeyKey::Alt));
    assert_eq!(parse_hotkey("cmd"), Some(HotkeyKey::MetaLeft));
    assert_eq!(parse_hotkey("Command"), Some(HotkeyKey::MetaLeft));
    assert_eq!(parse_hotkey("metaright"), Some(HotkeyKey::MetaRight));
    assert_eq!(parse_hotkey("SHIFT"), Some(HotkeyKey::ShiftLeft));
    assert_eq!(parse_hotkey("shiftright"), Some(HotkeyKey::ShiftRight));
}

#[test]
fn hotkey_parser_rejects_unlisted_names() {
    assert_eq!(parse_hotkey("escape"), None);
    assert_eq!(parse_hotkey("f13"), None);
    assert_eq!(parse_hotkey(""), None);
    assert_eq!(parse_hotkey("functio"), None);
}

#[test]
fn json_escape_handles_quotes_and_controls() {
    assert_eq!(json_escape("plain"), "plain");
    assert_eq!(json_escape("say \"hi\""), "say \\\"hi\\\"");
    assert_eq!(json_escape("back\\slash"), "back\\\\slash");
    assert_eq!(json_escape("line\nbreak\ttab"), "line\\nbreak\\ttab");
    assert_eq!(json_escape("\u{1}"), "\\u0001");
}

#[test]
fn final_line_is_self_contained_json() {
    let line = format_final_line("hello.", "hello", "Slack", "general");
    assert_eq!(
        line,
        "FINAL: {\"rawTranscript\":\"hello.\",\"processedText\":\"hello\",\
         \"wasProcessedByLLM\":false,\"appContext\":{\"appName\":\"Slack\",\
         \"windowTitle\":\"general\"}}"
    );
    let parsed: serde_json::Value = serde_json::from_str(&line["FINAL: ".len()..]).unwrap();
    assert_eq!(parsed["rawTranscript"], serde_json::Value::String("hello.".into()));
    assert_eq!(parsed["appContext"]["appName"], serde_json::Value::String("Slack".into()));
}

#[test]
fn duration_line_has_two_decimals() {
    assert_eq!(format_duration_line(32000, 16000), "AUDIO_DURATION:2.00");
    assert_eq!(format_duration_line(24000, 16000), "AUDIO_DURATION:1.50");
    assert_eq!(format_duration_line(0, 16000), "AUDIO_DURATION:0.00");
    assert_eq!(format_duration_line(96000, 48000), "AUDIO_DURATION:2.00");
    assert_eq!(format_duration_line(8080, 16000), "AUDIO_DURATION:0.50");
}

#[test]
fn segments_join_with_single_spaces() {
    let segs = vec!["hello".to_string(), "world".to_string()];
    assert_eq!(join_segments(&segs), "hello world");
    let with_empty_first = vec!["".to_string(), "late".to_string()];
    assert_eq!(join_segments(&with_empty_first), "late");
    assert_eq!(join_segments(&Vec::new()), "");
}

// Empty segments leave no artifacts: the transcript stays trimmed.
#[test]
fn empty_segments_are_skipped() {
    let trailing_empty = vec!["a".to_string(), "".to_string()];
    assert_eq!(join_segments(&trailing_empty), "a");
    let gap = vec!["a".to_string(), "".to_string(), "b".to_string()];
    assert_eq!(join_segments(&gap), "a b");
    let all_empty = vec!["".to_string(), "".to_string()];
    assert_eq!(join_segments(&all_empty), "");
}

#[test]
fn speech_detection_ignores_whitespace() {
    assert!(!has_speech(""));
    assert!(!has_speech(" \t\r\n"));
    assert!(has_speech("  a "));
}

#[test]
fn u16_samples_recenter_around_zero() {
    assert_eq!(u16_sample_to_i16(0), -32768);
    assert_eq!(u16_sample_to_i16(32768), 0);
    assert_eq!(u16_sample_to_i16(65535), 32767);
}

#[test]
fn sum_of_squares_matches_by_hand() {
    assert_eq!(sum_of_squares(&[]), 0);
    assert_eq!(sum_of_squares(&[3, -4]), 25);
    assert_eq!(sum_of_squares(&[-32768]), 1 << 30);
}
