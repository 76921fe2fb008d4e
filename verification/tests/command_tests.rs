use memo_stt::commands::{apply_command, decode_vocab, parse_command, Command, Config};
use memo_stt::prompt::{build_prompt, AppContext, Vocabulary};
use memo_stt::session::AudioSource;

fn ctx(app: &str, title: &str) -> AppContext {
    AppContext { app_name: app.to_string(), window_title: title.to_string() }
}

#[test]
fn enter_command_parses_all_documented_payloads() {
    assert!(matches!(parse_command("ENTER:1"), Command::SetEnter(true)));
    assert!(matches!(parse_command("ENTER:true"), Command::SetEnter(true)));
    assert!(matches!(parse_command("ENTER:0"), Command::SetEnter(false)));
    assert!(matches!(parse_command("ENTER:false"), Command::SetEnter(false)));
    assert!(matches!(parse_command("ENTER:maybe"), Command::Ignored));
}

#[test]
fn input_source_command_parses_the_two_sources() {
    assert!(matches!(parse_command("INPUT_SOURCE:system"), Command::SetSource(AudioSource::Mic)));
    assert!(matches!(parse_command("INPUT_SOURCE:ble"), Command::SetSource(AudioSource::Ble)));
    assert!(matches!(parse_command("INPUT_SOURCE:radio"), Command::Ignored));
}

#[test]
fn vocab_command_carries_its_payload() {
    match parse_command("VOCAB:{\"apps\":[]}") {
        Command::UpdateVocabulary(p) => assert_eq!(p, "{\"apps\":[]}"),
        _ => panic!("expected a vocabulary update"),
    }
}

#[test]
fn unknown_lines_are_ignored() {
    assert!(matches!(parse_command("RESET"), Command::Ignored));
    assert!(matches!(parse_command(""), Command::Ignored));
    assert!(matches!(parse_command("enter:1"), Command::Ignored));
}

#[test]
fn vocab_payload_decodes_through_the_json_parser() {
    let v = decode_vocab("{\"apps\":[\"Slack\"],\"commands\":[\"send\"]}").unwrap();
    assert_eq!(v.apps, vec!["Slack".to_string()]);
    assert_eq!(v.commands, vec!["send".to_string()]);
}

#[test]
fn malformed_vocab_payloads_decode_to_nothing() {
    assert!(decode_vocab("not json").is_none());
    assert!(decode_vocab("{\"apps\":[\"Slack\"]}").is_none());
    assert!(decode_vocab("{\"apps\":\"Slack\",\"commands\":[]}").is_none());
    assert!(decode_vocab("{\"apps\":[1],\"commands\":[]}").is_none());
}

#[test]
fn commands_update_the_configuration_cells() {
    let mut cfg = Config {
        press_enter: false,
        input_source: AudioSource::Mic,
        vocabulary: Vocabulary::new(),
    };
    assert!(!apply_command(&mut cfg, Command::SetEnter(true)));
    assert!(cfg.press_enter);
    // Switching to the same source does not restart the audio loop.
    assert!(!apply_command(&mut cfg, Command::SetSource(AudioSource::Mic)));
    assert!(apply_command(&mut cfg, Command::SetSource(AudioSource::Ble)));
    assert_eq!(cfg.input_source, AudioSource::Ble);
    let cmd = Command::UpdateVocabulary("{\"apps\":[\"Slack\"],\"commands\":[\"send\"]}".into());
    assert!(!apply_command(&mut cfg, cmd));
    assert_eq!(cfg.vocabulary.apps, vec!["Slack".to_string()]);
    // A malformed update leaves the vocabulary alone.
    let bad = Command::UpdateVocabulary("nope".into());
    assert!(!apply_command(&mut cfg, bad));
    assert_eq!(cfg.vocabulary.apps, vec!["Slack".to_string()]);
}

#[test]
fn prompt_carries_app_and_window_context() {
    let p = build_prompt(&ctx("Slack", "general"), &Vocabulary::new()).unwrap();
    assert_eq!(p, "You are transcribing for Slack. The current window is: general.");
    let p = build_prompt(&ctx("Slack", ""), &Vocabulary::new()).unwrap();
    assert_eq!(p, "You are transcribing for Slack.");
}

#[test]
fn unknown_app_yields_no_base_prompt() {
    assert!(build_prompt(&ctx("Unknown", "x"), &Vocabulary::new()).is_none());
    assert!(build_prompt(&ctx("", ""), &Vocabulary::new()).is_none());
}

// Live vocabulary update: the next utterance's prompt carries the new words.
#[test]
fn vocabulary_appears_in_the_prompt() {
    let vocab = decode_vocab("{\"apps\":[\"Slack\"],\"commands\":[\"send\"]}").unwrap();
    let p = build_prompt(&ctx("Unknown", ""), &vocab).unwrap();
    assert_eq!(p, "Voice commands: open Slack. Commands: send.");
    let p = build_prompt(&ctx("Mail", "inbox"), &vocab).unwrap();
    assert_eq!(
        p,
        "You are transcribing for Mail. The current window is: inbox. \
         Voice commands: open Slack. Commands: send."
    );
}

#[test]
fn vocabulary_lists_join_with_commas() {
    let vocab = Vocabulary {
        apps: vec!["a".to_string(), "b".to_string(), "c".to_string()],
        commands: Vec::new(),
    };
    let p = build_prompt(&ctx("", ""), &vocab).unwrap();
    assert_eq!(p, "Voice commands: open a, b, c.");
}
