use memo_stt::ble_link::{
    backoff_delay_secs, ble_on_connected, ble_on_disconnect, ble_retry_failed, map_control_byte,
    matches_device, plan_subscriptions, preferred_name_usable, BleConnectionState, BleMode,
    NotificationDemux, NotificationResult, RESP_SPEECH_END, RESP_SPEECH_START,
};
use memo_stt::context::{get_application_context, normalize_context};
use memo_stt::jobs::{
    plan_inference, plan_post_transcribe, utterance_precheck, PostStep, PreStep, UtteranceVerdict,
};
use memo_stt::prompt::{AppContext, Vocabulary};
use memo_stt::ring::AudioRing;
use memo_stt::session::TriggerCommand;
use memo_stt::Error;

// Backoff series for attempts 0..=6: 2, 4, 8, 16, then capped at 30.
#[test]
fn backoff_doubles_then_caps_at_thirty() {
    let expected = [2u64, 4, 8, 16, 30, 30, 30];
    for (attempt, want) in expected.iter().enumerate() {
        assert_eq!(backoff_delay_secs(attempt as u32), *want);
    }
}

#[test]
fn reconnect_counter_resets_on_success() {
    // The very first retry waits the series' first delay, 2 seconds.
    let (first_delay, state) = ble_retry_failed(0);
    assert_eq!(first_delay, 2);
    assert_eq!(state, BleConnectionState::Reconnecting { attempt: 1 });
    let (delay, state) = ble_retry_failed(2);
    assert_eq!(delay, 8);
    assert_eq!(state, BleConnectionState::Reconnecting { attempt: 3 });
    let connected = ble_on_connected(true, true);
    assert_eq!(connected, BleConnectionState::Connected { has_audio: true, has_control: true });
    // The next disconnect starts the series from the beginning.
    let reconnecting = ble_on_disconnect(connected);
    assert_eq!(reconnecting, BleConnectionState::Reconnecting { attempt: 0 });
    assert_eq!(backoff_delay_secs(0), 2);
}

#[test]
fn device_matching_takes_service_or_name_prefix() {
    assert!(matches_device(true, None));
    assert!(matches_device(false, Some("memo_81f3")));
    assert!(matches_device(false, Some("MEMO_81F3")));
    assert!(!matches_device(false, Some("earbuds")));
    assert!(!matches_device(false, Some("mem")));
    assert!(!matches_device(false, None));
}

#[test]
fn preferred_names_need_the_prefix() {
    assert!(preferred_name_usable("memo_dev"));
    assert!(preferred_name_usable("Memo_Dev"));
    assert!(!preferred_name_usable("dev_memo"));
}

#[test]
fn full_mode_needs_audio_and_tolerates_missing_control() {
    assert!(plan_subscriptions(BleMode::Full, false, true).is_err());
    let p = plan_subscriptions(BleMode::Full, true, true).unwrap();
    assert!(p.subscribe_audio && p.subscribe_control && !p.warn_missing_control);
    let p = plan_subscriptions(BleMode::Full, true, false).unwrap();
    assert!(p.subscribe_audio && !p.subscribe_control && p.warn_missing_control);
}

#[test]
fn trigger_only_mode_needs_control() {
    assert!(plan_subscriptions(BleMode::TriggerOnly, true, false).is_err());
    let p = plan_subscriptions(BleMode::TriggerOnly, false, true).unwrap();
    assert!(!p.subscribe_audio && p.subscribe_control && !p.warn_missing_control);
}

#[test]
fn notifications_demultiplex_by_characteristic() {
    let demux = NotificationDemux { audio_char: Some(0xa001), control_char: Some(0xa003) };
    match demux.process_notification(0xa001, vec![9, 1, 2]) {
        NotificationResult::Audio(v) => assert_eq!(v, vec![9, 1, 2]),
        other => panic!("expected audio, got {:?}", other),
    }
    match demux.process_notification(0xa003, vec![RESP_SPEECH_START]) {
        NotificationResult::Control(b) => assert_eq!(b, RESP_SPEECH_START),
        other => panic!("expected control, got {:?}", other),
    }
    assert!(matches!(
        demux.process_notification(0xa003, vec![0x7f]),
        NotificationResult::Ignored
    ));
    assert!(matches!(demux.process_notification(0xa003, vec![]), NotificationResult::Ignored));
    assert!(matches!(
        demux.process_notification(0xbeef, vec![1]),
        NotificationResult::Ignored
    ));
}

#[test]
fn control_bytes_map_to_trigger_commands() {
    assert_eq!(map_control_byte(RESP_SPEECH_START), Some(TriggerCommand::Activate));
    assert_eq!(map_control_byte(RESP_SPEECH_END), Some(TriggerCommand::Deactivate));
    assert_eq!(map_control_byte(0x03), None);
}

// An utterance under one second of audio is rejected before inference.
#[test]
fn precheck_enforces_the_one_second_floor() {
    assert_eq!(utterance_precheck(0, 16000), UtteranceVerdict::Empty);
    assert_eq!(utterance_precheck(8000, 16000), UtteranceVerdict::TooShort);
    assert_eq!(utterance_precheck(16000, 16000), UtteranceVerdict::Ready);
    assert_eq!(utterance_precheck(95999, 48000), UtteranceVerdict::Ready);
    assert_eq!(utterance_precheck(47999, 48000), UtteranceVerdict::TooShort);
}

// Prompt freshness: the prompt is set before the recognizer runs, even when
// nothing was built.
#[test]
fn inference_plan_sets_prompt_before_transcribing() {
    let ctx = AppContext { app_name: "Unknown".to_string(), window_title: String::new() };
    let samples = vec![0i16; 4];
    let plan = plan_inference(&ctx, &Vocabulary::new(), samples.clone());
    assert_eq!(plan.len(), 2);
    match &plan[0] {
        PreStep::SetPrompt(p) => assert!(p.is_none()),
        _ => panic!("first step must set the prompt"),
    }
    match &plan[1] {
        PreStep::Transcribe(u) => assert_eq!(*u, samples),
        _ => panic!("second step must transcribe"),
    }
}

// The FINAL: line always precedes the injection attempt.
#[test]
fn post_plan_reports_before_injecting() {
    let line = "FINAL: {}".to_string();
    let plan = plan_post_transcribe("hello.", line.clone(), true);
    assert_eq!(plan.len(), 3);
    match &plan[0] {
        PostStep::EmitFinal(l) => assert_eq!(*l, line),
        _ => panic!("first step must emit the report"),
    }
    match &plan[1] {
        PostStep::Inject(text, enter) => {
            assert_eq!(text, "hello");
            assert!(*enter);
        },
        _ => panic!("second step must inject"),
    }
    assert!(matches!(plan[2], PostStep::RecordPerf));
}

#[test]
fn empty_transcript_yields_a_notice_and_no_injection() {
    let plan = plan_post_transcribe("  \t", String::new(), false);
    assert_eq!(plan.len(), 2);
    assert!(matches!(plan[0], PostStep::EmitNoSpeech));
    assert!(matches!(plan[1], PostStep::RecordPerf));
}

// The audio ring hands over whole utterances and nothing across takes.
#[test]
fn ring_takes_everything_since_the_clear() {
    let mut ring = AudioRing::new();
    ring.append(&[1, 2]);
    ring.append(&[3]);
    assert_eq!(ring.len(), 3);
    let utterance = ring.take();
    assert_eq!(utterance, vec![1, 2, 3]);
    assert_eq!(ring.len(), 0);
    // Samples appended after the take belong to the next utterance only.
    ring.append(&[4]);
    assert_eq!(ring.take(), vec![4]);
    ring.append(&[5]);
    ring.clear();
    assert_eq!(ring.len(), 0);
}

#[test]
fn portable_context_probe_degrades_gracefully() {
    let (app, title) = get_application_context();
    assert_eq!(app, "Unknown");
    assert_eq!(title, "");
    let (app, title) = normalize_context(Some("Mail".to_string()), None);
    assert_eq!(app, "Mail");
    assert_eq!(title, "");
    let (app, title) = normalize_context(None, Some("inbox".to_string()));
    assert_eq!(app, "Unknown");
    assert_eq!(title, "inbox");
}

#[test]
fn errors_carry_their_message() {
    let e = Error("Audio too short: 800 samples".to_string());
    assert_eq!(e.message(), "Audio too short: 800 samples");
}

use memo_stt::model::{default_model_name, download_is_complete, is_default_model_name};

#[test]
fn model_name_selection_and_download_check() {
    assert_eq!(default_model_name(), "ggml-small.en-q5_1.bin");
    assert!(is_default_model_name("ggml-small.en-q5_1.bin"));
    assert!(is_default_model_name(""));
    assert!(!is_default_model_name("other.bin"));
    assert!(download_is_complete(0, 123));
    assert!(download_is_complete(10, 10));
    assert!(!download_is_complete(10, 9));
}

use memo_stt::bundle::{build_bundle, parse_bundle, split_audio_payload};
use memo_stt::session::{finish_utterance, session_step, AudioSource, RecordingState, SessionAction};

// A wearable utterance, at the level of plain values: control 0x01, then
// framed audio bundles, then control 0x02. One session opens, the audio
// arrives whole and in order, and exactly one job is spawned.
#[test]
fn ble_utterance_flow_spawns_one_job() {
    let demux = NotificationDemux { audio_char: Some(0xa001), control_char: Some(0xa003) };
    let frames = vec![vec![1u8, 2], vec![3u8]];
    let body = build_bundle(&frames).unwrap();
    let mut packet = vec![7u8];
    packet.extend_from_slice(&body);

    let notifications: Vec<(u128, Vec<u8>)> = vec![
        (0xa003, vec![RESP_SPEECH_START]),
        (0xa001, packet),
        (0xa003, vec![RESP_SPEECH_END]),
    ];

    let mut state = RecordingState::Idle;
    let mut ring = AudioRing::new();
    let mut recording = false;
    let mut jobs: Vec<Vec<i16>> = Vec::new();
    for (uuid, value) in notifications {
        let command = match demux.process_notification(uuid, value) {
            NotificationResult::Audio(payload) => {
                let (index, bundle_body) = split_audio_payload(&payload).unwrap();
                assert_eq!(index, 7);
                assert_eq!(parse_bundle(&bundle_body), frames);
                if recording {
                    // Stand-in for the per-frame codec: the frame bytes as samples.
                    let pcm: Vec<i16> =
                        parse_bundle(&bundle_body).concat().iter().map(|&b| b as i16).collect();
                    ring.append(&pcm);
                }
                None
            },
            NotificationResult::Control(code) => map_control_byte(code),
            NotificationResult::Ignored => None,
        };
        if let Some(ev) = command {
            let (next, action) = session_step(state, ev, AudioSource::Ble);
            state = next;
            match action {
                SessionAction::StartCapture { .. } => {
                    ring.clear();
                    recording = true;
                },
                SessionAction::StopAndTranscribe { .. } => {
                    recording = false;
                    if let Some(utterance) = finish_utterance(ring.take()) {
                        jobs.push(utterance);
                    }
                },
                _ => {},
            }
        }
    }
    assert_eq!(state, RecordingState::Idle);
    assert_eq!(jobs, vec![vec![1i16, 2, 3]]);
}
