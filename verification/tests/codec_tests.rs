use memo_stt::bundle::{
    build_bundle, parse_bundle, split_audio_payload, split_frames, validate_codec_config,
    FRAME_SIZE_SAMPLES,
};
use memo_stt::emit::wav_header;

#[test]
fn codec_config_accepts_the_device_format_only() {
    assert_eq!(validate_codec_config(16000, 20).unwrap(), FRAME_SIZE_SAMPLES);
    assert!(validate_codec_config(48000, 20).is_err());
    assert!(validate_codec_config(16000, 10).is_err());
}

#[test]
fn bundle_round_trip_recovers_the_frames() {
    let frames = vec![vec![1u8, 2, 3], vec![], vec![0xff; 255]];
    let body = build_bundle(&frames).unwrap();
    assert_eq!(body[0], 3);
    assert_eq!(parse_bundle(&body), frames);
}

#[test]
fn bundle_rejects_oversized_frames_and_counts() {
    assert!(build_bundle(&vec![vec![0u8; 256]]).is_err());
    let many: Vec<Vec<u8>> = (0..256).map(|_| vec![1u8]).collect();
    assert!(build_bundle(&many).is_err());
    let just_enough: Vec<Vec<u8>> = (0..255).map(|_| vec![1u8]).collect();
    assert!(build_bundle(&just_enough).is_ok());
}

#[test]
fn truncated_bundle_parses_to_a_prefix() {
    let frames = vec![vec![10u8, 11], vec![20u8, 21, 22], vec![30u8]];
    let body = build_bundle(&frames).unwrap();
    for cut in 0..body.len() {
        let parsed = parse_bundle(&body[..cut]);
        assert!(parsed.len() <= frames.len());
        assert_eq!(parsed[..], frames[..parsed.len()]);
    }
    assert_eq!(parse_bundle(&[]), Vec::<Vec<u8>>::new());
}

#[test]
fn bundle_stops_at_the_frame_count() {
    // Count says one frame; the bytes after it are not parsed as frames.
    let body = [1u8, 2, 7, 8, 99, 99];
    let parsed = parse_bundle(&body);
    assert_eq!(parsed, vec![vec![7u8, 8]]);
}

#[test]
fn zero_frame_bundle_is_empty() {
    assert_eq!(parse_bundle(&[0u8]), Vec::<Vec<u8>>::new());
    let body = build_bundle(&Vec::new()).unwrap();
    assert_eq!(body, vec![0u8]);
    assert_eq!(parse_bundle(&body), Vec::<Vec<u8>>::new());
}

#[test]
fn one_sample_becomes_one_padded_frame() {
    let frames = split_frames(&[7i16]);
    assert_eq!(frames.len(), 1);
    assert_eq!(frames[0][0], 7);
    assert!(frames[0][1..].iter().all(|&s| s == 0));
}

#[test]
fn audio_payload_splits_into_index_and_body() {
    let (index, body) = split_audio_payload(&[9u8, 1, 2, 3]).unwrap();
    assert_eq!(index, 9);
    assert_eq!(body, vec![1u8, 2, 3]);
    assert!(split_audio_payload(&[]).is_none());
}

#[test]
fn split_frames_pads_the_final_frame_with_zeros() {
    let pcm: Vec<i16> = (0..650).map(|i| i as i16).collect();
    let frames = split_frames(&pcm);
    assert_eq!(frames.len(), 3);
    for frame in &frames {
        assert_eq!(frame.len(), 320);
    }
    let flat: Vec<i16> = frames.concat();
    assert_eq!(&flat[..650], &pcm[..]);
    assert!(flat[650..].iter().all(|&s| s == 0));
}

#[test]
fn split_frames_of_exact_multiples_has_no_padding() {
    let pcm = vec![5i16; 640];
    let frames = split_frames(&pcm);
    assert_eq!(frames.len(), 2);
    assert_eq!(frames.concat(), pcm);
    assert!(split_frames(&[]).is_empty());
}

#[test]
fn wav_header_is_the_canonical_44_bytes() {
    // 16000 samples: 32000 data bytes, 32036 after the RIFF tag.
    let h = wav_header(16000);
    assert_eq!(h.len(), 44);
    assert_eq!(&h[0..4], b"RIFF");
    assert_eq!(&h[4..8], &(32036u32).to_le_bytes());
    assert_eq!(&h[8..12], b"WAVE");
    assert_eq!(&h[12..16], b"fmt ");
    assert_eq!(&h[16..20], &(16u32).to_le_bytes());
    assert_eq!(&h[20..22], &(1u16).to_le_bytes());
    assert_eq!(&h[22..24], &(1u16).to_le_bytes());
    assert_eq!(&h[24..28], &(16000u32).to_le_bytes());
    assert_eq!(&h[28..32], &(32000u32).to_le_bytes());
    assert_eq!(&h[32..34], &(2u16).to_le_bytes());
    assert_eq!(&h[34..36], &(16u16).to_le_bytes());
    assert_eq!(&h[36..40], b"data");
    assert_eq!(&h[40..44], &(32000u32).to_le_bytes());
}

use memo_stt::base64::{base64_encode, pcm_le_bytes};

#[test]
fn base64_matches_the_classic_vectors() {
    assert_eq!(base64_encode(b""), "");
    assert_eq!(base64_encode(b"M"), "TQ==");
    assert_eq!(base64_encode(b"Ma"), "TWE=");
    assert_eq!(base64_encode(b"Man"), "TWFu");
    assert_eq!(base64_encode(b"Many"), "TWFueQ==");
    assert_eq!(base64_encode(&[0xff, 0xfe, 0xfd]), "//79");
}

#[test]
fn pcm_serializes_little_endian() {
    assert_eq!(pcm_le_bytes(&[1, -2]), vec![1u8, 0, 254, 255]);
    assert_eq!(pcm_le_bytes(&[-32768]), vec![0u8, 128]);
    assert_eq!(pcm_le_bytes(&[]), Vec::<u8>::new());
}

// A device-style utterance flow over the framing alone: cut PCM into 20 ms
// frames, bundle them, parse the bundle back, and concatenate. With a
// loss-free per-frame codec the pipeline returns the input plus its padding.
#[test]
fn framing_pipeline_round_trips_an_utterance() {
    let pcm: Vec<i16> = (0..3 * 320 + 100).map(|i| ((i * 37) % 200 - 100) as i16).collect();
    let frames_pcm = split_frames(&pcm);
    // Stand-in for the per-frame codec: each 320-sample frame as 255 bytes
    // at most; here a trivial 160-byte digest of the frame's low bytes.
    let frames_bytes: Vec<Vec<u8>> =
        frames_pcm.iter().map(|f| f.iter().take(160).map(|&s| s as u8).collect()).collect();
    let body = build_bundle(&frames_bytes).unwrap();
    let parsed = parse_bundle(&body);
    assert_eq!(parsed, frames_bytes);
    let flat: Vec<i16> = frames_pcm.concat();
    assert_eq!(flat.len(), 4 * 320);
    assert_eq!(&flat[..pcm.len()], &pcm[..]);
}
