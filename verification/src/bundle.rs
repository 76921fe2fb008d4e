//! Opus bundle framing.
//!
//! The wearable sends audio as bundles: one notification payload holds a
//! one-byte bundle index, a one-byte frame count, and that many
//! length-prefixed Opus frames. Each frame covers 20 ms of 16 kHz mono
//! audio, 320 samples. This module holds the wire format itself — building
//! and parsing bundles, and cutting a PCM buffer into zero-padded frames —
//! while the per-frame Opus coding happens outside the library.

use vstd::prelude::*;
use vstd::slice::{slice_subrange, slice_to_vec, slice_index_get};
use vstd::arithmetic::div_mod::lemma_fundamental_div_mod_converse;
use crate::Error;

verus! {

/// Samples per 20 ms frame at 16 kHz.
pub const FRAME_SIZE_SAMPLES: usize = 320;

/// The only sample rate the device codec runs at.
pub const CODEC_SAMPLE_RATE: u32 = 16000;

/// The only frame duration the device codec uses, in milliseconds.
pub const CODEC_FRAME_MS: u32 = 20;

/// Check a codec configuration: the device format is 16 kHz, 20 ms frames,
/// giving 320 samples per frame; anything else is rejected.
pub fn validate_codec_config(sample_rate: u32, frame_duration_ms: u32) -> (r: Result<usize, Error>)
    ensures
        r is Ok <==> (sample_rate == CODEC_SAMPLE_RATE && frame_duration_ms == CODEC_FRAME_MS),
        r matches Ok(v) ==> v == FRAME_SIZE_SAMPLES,
{
    if sample_rate != CODEC_SAMPLE_RATE {
        Err(Error(String::from_str("Opus codec only supports 16kHz")))
    } else if frame_duration_ms != CODEC_FRAME_MS {
        Err(Error(String::from_str("Opus codec only supports 20ms frames")))
    } else {
        Ok((sample_rate * frame_duration_ms / 1000) as usize)
    }
}

/// Split a notification payload into the bundle index and the bundle body.
/// Only an empty payload has neither.
pub fn split_audio_payload(packet: &[u8]) -> (r: Option<(u8, Vec<u8>)>)
    ensures
        r is Some <==> packet@.len() > 0,
        r matches Some(p) ==> p.0 == packet@[0] && p.1@ == packet@.skip(1),
{
    if packet.len() == 0 {
        return None;
    }
    let index = *slice_index_get(packet, 0);
    let body = slice_to_vec(slice_subrange(packet, 1, packet.len()));
    proof {
        assert(packet@.subrange(1, packet@.len() as int) =~= packet@.skip(1));
    }
    Some((index, body))
}

/// The frames encoded in `data`, at most `n` of them, stopping without
/// fault at the first truncated frame.
pub open spec fn spec_parse_frames(data: Seq<u8>, n: nat) -> Seq<Seq<u8>>
    decreases n,
{
    if n == 0 {
        Seq::empty()
    } else if data.len() == 0 {
        Seq::empty()
    } else {
        let size = data[0] as nat;
        if 1 + size > data.len() {
            Seq::empty()
        } else {
            seq![data.subrange(1, 1 + size as int)] + spec_parse_frames(
                data.skip(1 + size as int),
                (n - 1) as nat,
            )
        }
    }
}

/// The frames of a bundle body: a frame count byte, then the frames.
pub open spec fn spec_parse_bundle(body: Seq<u8>) -> Seq<Seq<u8>> {
    if body.len() == 0 {
        Seq::empty()
    } else {
        spec_parse_frames(body.skip(1), body[0] as nat)
    }
}

/// Parse a bundle body into its Opus frames: read the frame count, then
/// length-prefixed frames in order, stopping early — with what was parsed so
/// far — if the body is truncated.
pub fn parse_bundle(body: &[u8]) -> (r: Vec<Vec<u8>>)
    ensures
        r.deep_view() == spec_parse_bundle(body@),
{
    let mut res: Vec<Vec<u8>> = Vec::new();
    if body.len() == 0 {
        proof {
            assert(res.deep_view() =~~= spec_parse_bundle(body@));
        }
        return res;
    }
    let num_frames = *slice_index_get(body, 0) as usize;
    let mut off: usize = 1;
    let mut i: usize = 0;
    proof {
        assert(res.deep_view() =~~= Seq::<Seq<u8>>::empty());
        assert(Seq::<Seq<u8>>::empty() + spec_parse_frames(body@.skip(1), num_frames as nat)
            =~~= spec_parse_frames(body@.skip(1), num_frames as nat));
    }
    while i < num_frames
        invariant
            0 <= i <= num_frames,
            1 <= off <= body@.len(),
            num_frames == body@[0] as nat,
            body@.len() > 0,
            spec_parse_bundle(body@) == res.deep_view() + spec_parse_frames(
                body@.skip(off as int),
                (num_frames - i) as nat,
            ),
        decreases num_frames - i,
    {
        let ghost rem = body@.skip(off as int);
        let ghost want = (num_frames - i) as nat;
        if off >= body.len() {
            proof {
                assert(rem.len() == 0);
                assert(spec_parse_frames(rem, want) =~~= Seq::<Seq<u8>>::empty());
                assert(res.deep_view() + Seq::<Seq<u8>>::empty() =~~= res.deep_view());
            }
            return res;
        }
        let size = *slice_index_get(body, off) as usize;
        proof {
            assert(rem[0] == body@[off as int]);
        }
        if size > body.len() - (off + 1) {
            proof {
                assert(1 + size as nat > rem.len());
                assert(spec_parse_frames(rem, want) =~~= Seq::<Seq<u8>>::empty());
                assert(res.deep_view() + Seq::<Seq<u8>>::empty() =~~= res.deep_view());
            }
            return res;
        }
        let frame = slice_to_vec(slice_subrange(body, off + 1, off + 1 + size));
        proof {
            assert(rem.subrange(1, 1 + size as int) =~= body@.subrange(
                off + 1,
                off + 1 + size as int,
            ));
            assert(rem.skip(1 + size as int) =~= body@.skip(off + 1 + size as int));
            assert(spec_parse_frames(rem, want) == seq![frame@] + spec_parse_frames(
                body@.skip(off + 1 + size as int),
                (want - 1) as nat,
            ));
        }
        let ghost old_res = res.deep_view();
        res.push(frame);
        proof {
            assert(res.deep_view() =~~= old_res.push(frame@));
            assert(old_res + (seq![frame@] + spec_parse_frames(
                body@.skip(off + 1 + size as int),
                (num_frames - i - 1) as nat,
            )) =~~= res.deep_view() + spec_parse_frames(
                body@.skip(off + 1 + size as int),
                (num_frames - i - 1) as nat,
            ));
        }
        off = off + 1 + size;
        i += 1;
    }
    proof {
        assert(spec_parse_frames(body@.skip(off as int), 0) =~~= Seq::<Seq<u8>>::empty());
        assert(res.deep_view() + Seq::<Seq<u8>>::empty() =~~= res.deep_view());
    }
    res
}

/// The wire form of a frame sequence: each frame length-prefixed.
pub open spec fn spec_build_frames(frames: Seq<Seq<u8>>) -> Seq<u8>
    decreases frames.len(),
{
    if frames.len() == 0 {
        Seq::empty()
    } else {
        seq![frames[0].len() as u8] + frames[0] + spec_build_frames(frames.skip(1))
    }
}

/// The wire form of a whole bundle body: frame count, then the frames.
pub open spec fn spec_build_bundle(frames: Seq<Seq<u8>>) -> Seq<u8> {
    seq![frames.len() as u8] + spec_build_frames(frames)
}

/// Whether a frame sequence fits the wire format's one-byte counters.
pub open spec fn frames_encodable(frames: Seq<Seq<u8>>) -> bool {
    frames.len() <= 255 && forall|i: int| 0 <= i < frames.len() ==> (#[trigger] frames[i]).len()
        <= 255
}

/// Build a bundle body from Opus frames. The one-byte counters bound a
/// bundle to 255 frames of 255 bytes each; anything larger is rejected.
pub fn build_bundle(frames: &Vec<Vec<u8>>) -> (r: Result<Vec<u8>, Error>)
    ensures
        r is Ok <==> frames_encodable(frames.deep_view()),
        r matches Ok(v) ==> v@ == spec_build_bundle(frames.deep_view()),
{
    if frames.len() > 255 {
        return Err(Error(String::from_str("too many frames for one bundle")));
    }
    let mut out: Vec<u8> = Vec::new();
    out.push(frames.len() as u8);
    let mut i: usize = 0;
    proof {
        assert(out@ =~= seq![frames.deep_view().len() as u8] + spec_build_frames(
            frames.deep_view().take(0),
        ));
    }
    while i < frames.len()
        invariant
            0 <= i <= frames@.len(),
            frames@.len() <= 255,
            frames.deep_view().len() == frames@.len(),
            forall|j: int| 0 <= j < i ==> (#[trigger] frames.deep_view()[j]).len() <= 255,
            out@ == seq![frames.deep_view().len() as u8] + spec_build_frames(
                frames.deep_view().take(i as int),
            ),
        decreases frames@.len() - i,
    {
        let frame: &Vec<u8> = &frames[i];
        proof {
            assert(frame@ == frames.deep_view()[i as int]);
        }
        if frame.len() > 255 {
            return Err(Error(String::from_str("frame too large for one bundle")));
        }
        out.push(frame.len() as u8);
        let mut k: usize = 0;
        let ghost out_before = out@;
        while k < frame.len()
            invariant
                0 <= k <= frame@.len(),
                out@ == out_before + frame@.take(k as int),
            decreases frame@.len() - k,
        {
            out.push(frame[k]);
            proof {
                assert(out_before + frame@.take(k as int) + seq![frame@[k as int]] =~= out_before
                    + frame@.take(k + 1));
            }
            k += 1;
        }
        proof {
            let fv = frames.deep_view();
            assert(out@ =~= seq![fv.len() as u8] + (spec_build_frames(fv.take(i as int)) + (seq![
                fv[i as int].len() as u8,
            ] + fv[i as int])));
            lemma_build_frames_snoc(fv, i as int);
        }
        i += 1;
    }
    proof {
        assert(frames.deep_view().take(frames@.len() as int) =~= frames.deep_view());
    }
    Ok(out)
}

/// Appending one frame to the wire form appends its length prefix and bytes.
proof fn lemma_build_frames_snoc(frames: Seq<Seq<u8>>, i: int)
    requires
        0 <= i < frames.len(),
    ensures
        spec_build_frames(frames.take(i + 1)) == spec_build_frames(frames.take(i)) + (seq![
            frames[i].len() as u8,
        ] + frames[i]),
    decreases i,
{
    if i == 0 {
        assert(frames.take(1) =~= seq![frames[0]]);
        assert(frames.take(1).skip(1) =~= Seq::<Seq<u8>>::empty());
        assert(frames.take(0) =~= Seq::<Seq<u8>>::empty());
        assert(spec_build_frames(frames.take(1)) =~= spec_build_frames(frames.take(0)) + (seq![
            frames[0].len() as u8,
        ] + frames[0]));
    } else {
        lemma_build_frames_snoc(frames.skip(1), i - 1);
        assert(frames.take(i + 1)[0] == frames[0]);
        assert(frames.take(i + 1).skip(1) =~= frames.skip(1).take(i));
        assert(frames.take(i).skip(1) =~= frames.skip(1).take(i - 1));
        assert(frames.skip(1)[i - 1] == frames[i]);
        assert(spec_build_frames(frames.take(i + 1)) =~= seq![frames[0].len() as u8] + frames[0]
            + spec_build_frames(frames.skip(1).take(i)));
        assert(spec_build_frames(frames.take(i)) =~= seq![frames[0].len() as u8] + frames[0]
            + spec_build_frames(frames.skip(1).take(i - 1)));
        assert(seq![frames[0].len() as u8] + frames[0] + (spec_build_frames(
            frames.skip(1).take(i - 1),
        ) + (seq![frames[i].len() as u8] + frames[i])) =~= spec_build_frames(frames.take(i)) + (
        seq![frames[i].len() as u8] + frames[i]));
    }
}

/// Round-trip of the wire format: a bundle built from encodable frames
/// parses back to exactly those frames.
pub proof fn lemma_bundle_round_trip(frames: Seq<Seq<u8>>)
    requires
        frames_encodable(frames),
    ensures
        spec_parse_bundle(spec_build_bundle(frames)) == frames,
{
    let body = spec_build_bundle(frames);
    assert(body.len() > 0);
    assert(body[0] as nat == frames.len());
    assert(body.skip(1) =~= spec_build_frames(frames));
    lemma_parse_build_frames(frames);
}

/// Parsing inverts building, frame sequence form.
proof fn lemma_parse_build_frames(frames: Seq<Seq<u8>>)
    requires
        forall|i: int| 0 <= i < frames.len() ==> (#[trigger] frames[i]).len() <= 255,
    ensures
        spec_parse_frames(spec_build_frames(frames), frames.len()) == frames,
    decreases frames.len(),
{
    if frames.len() == 0 {
        assert(spec_parse_frames(spec_build_frames(frames), 0) =~= frames);
    } else {
        let data = spec_build_frames(frames);
        let f0 = frames[0];
        assert(data =~= seq![f0.len() as u8] + f0 + spec_build_frames(frames.skip(1)));
        assert(data[0] as nat == f0.len());
        assert(data.len() >= 1 + f0.len());
        assert(data.subrange(1, 1 + f0.len() as int) =~= f0);
        assert(data.skip(1 + f0.len() as int) =~= spec_build_frames(frames.skip(1)));
        lemma_parse_build_frames(frames.skip(1));
        assert(spec_parse_frames(data, frames.len()) =~= seq![f0] + frames.skip(1));
        assert(seq![f0] + frames.skip(1) =~= frames);
    }
}

/// One sequence is a prefix of another.
pub open spec fn is_seq_prefix<T>(a: Seq<T>, b: Seq<T>) -> bool {
    a.len() <= b.len() && a == b.take(a.len() as int)
}

/// Truncation tolerance: cutting the encoded data at any byte offset parses
/// to a prefix of the full parse — never to garbage and never to a fault.
pub proof fn lemma_parse_frames_prefix(data: Seq<u8>, n: nat, m: int)
    requires
        0 <= m <= data.len(),
    ensures
        is_seq_prefix(spec_parse_frames(data.take(m), n), spec_parse_frames(data, n)),
    decreases n,
{
    let cut = data.take(m);
    if n == 0 {
        assert(spec_parse_frames(data, n).take(0) =~~= Seq::<Seq<u8>>::empty());
        assert(spec_parse_frames(cut, n) =~~= Seq::<Seq<u8>>::empty());
    } else if cut.len() == 0 {
        assert(spec_parse_frames(cut, n) =~~= Seq::<Seq<u8>>::empty());
        assert(spec_parse_frames(data, n).take(0) =~~= Seq::<Seq<u8>>::empty());
    } else {
        let size = data[0] as nat;
        assert(cut[0] == data[0]);
        if 1 + size > cut.len() {
            assert(spec_parse_frames(cut, n) =~~= Seq::<Seq<u8>>::empty());
            assert(spec_parse_frames(data, n).take(0) =~~= Seq::<Seq<u8>>::empty());
        } else {
            assert(1 + size <= data.len());
            assert(cut.subrange(1, 1 + size as int) =~= data.subrange(1, 1 + size as int));
            assert(cut.skip(1 + size as int) =~= data.skip(1 + size as int).take(
                m - 1 - size as int,
            ));
            lemma_parse_frames_prefix(data.skip(1 + size as int), (n - 1) as nat, m - 1 - size as int);
            let head = seq![data.subrange(1, 1 + size as int)];
            let rest_cut = spec_parse_frames(cut.skip(1 + size as int), (n - 1) as nat);
            let rest_full = spec_parse_frames(data.skip(1 + size as int), (n - 1) as nat);
            assert(spec_parse_frames(cut, n) == head + rest_cut);
            assert(spec_parse_frames(data, n) == head + rest_full);
            assert(rest_cut == rest_full.take(rest_cut.len() as int));
            assert((head + rest_full).take(1 + rest_cut.len() as int) =~~= head + rest_cut);
        }
    }
}

/// Truncation tolerance at the bundle level.
pub proof fn lemma_parse_bundle_prefix(body: Seq<u8>, m: int)
    requires
        0 <= m <= body.len(),
    ensures
        is_seq_prefix(spec_parse_bundle(body.take(m)), spec_parse_bundle(body)),
{
    let cut = body.take(m);
    if cut.len() == 0 {
        assert(spec_parse_bundle(cut) =~~= Seq::<Seq<u8>>::empty());
        assert(spec_parse_bundle(body).take(0) =~~= Seq::<Seq<u8>>::empty());
    } else {
        assert(cut[0] == body[0]);
        assert(cut.skip(1) =~~= body.skip(1).take(m - 1));
        lemma_parse_frames_prefix(body.skip(1), body[0] as nat, m - 1);
        assert(spec_parse_bundle(cut) == spec_parse_frames(body.skip(1).take(m - 1), body[0] as nat));
    }
}

/// Concatenation of a frame sequence.
pub open spec fn concat_frames<T>(frames: Seq<Seq<T>>) -> Seq<T>
    decreases frames.len(),
{
    if frames.len() == 0 {
        Seq::empty()
    } else {
        frames[0] + concat_frames(frames.skip(1))
    }
}

/// Concatenation grows frame by frame.
pub proof fn lemma_concat_push<T>(frames: Seq<Seq<T>>, f: Seq<T>)
    ensures
        concat_frames(frames.push(f)) == concat_frames(frames) + f,
    decreases frames.len(),
{
    if frames.len() == 0 {
        assert(frames.push(f)[0] == f);
        assert(frames.push(f).skip(1) =~~= Seq::<Seq<T>>::empty());
        assert(concat_frames(frames.push(f).skip(1)) == Seq::<T>::empty());
        assert(concat_frames(frames.push(f)) == f + Seq::<T>::empty());
        assert(concat_frames(frames) == Seq::<T>::empty());
        assert(f + Seq::<T>::empty() =~= Seq::<T>::empty() + f);
    } else {
        assert(frames.push(f).skip(1) =~~= frames.skip(1).push(f));
        lemma_concat_push(frames.skip(1), f);
        assert(frames.push(f)[0] == frames[0]);
        assert(frames[0] + (concat_frames(frames.skip(1)) + f) =~= (frames[0] + concat_frames(
            frames.skip(1),
        )) + f);
    }
}

/// The number of 20 ms frames a buffer of `len` samples fills, final
/// partial frame included.
pub open spec fn spec_frame_count(len: nat) -> nat {
    if len % 320 == 0 {
        len / 320
    } else {
        len / 320 + 1
    }
}

/// Cut a PCM buffer into 320-sample frames, zero-padding the final partial
/// frame: the frames concatenate back to the buffer followed by its padding,
/// so the first `len` samples of what a decoder yields match the input.
pub fn split_frames(pcm: &[i16]) -> (r: Vec<Vec<i16>>)
    ensures
        r.deep_view().len() == spec_frame_count(pcm@.len()),
        forall|i: int| 0 <= i < r.deep_view().len() ==> (#[trigger] r.deep_view()[i]).len() == 320,
        concat_frames(r.deep_view()) == pcm@ + Seq::new(
            (spec_frame_count(pcm@.len()) * 320 - pcm@.len()) as nat,
            |i: int| 0i16,
        ),
{
    let n = pcm.len();
    let mut res: Vec<Vec<i16>> = Vec::new();
    let mut off: usize = 0;
    proof {
        assert(concat_frames(res.deep_view()) =~= pcm@.take(0));
    }
    while n >= 320 && off <= n - 320
        invariant
            n == pcm@.len(),
            0 <= off <= n,
            off == res.deep_view().len() * 320,
            forall|i: int| 0 <= i < res.deep_view().len() ==> (#[trigger] res.deep_view()[i]).len()
                == 320,
            concat_frames(res.deep_view()) == pcm@.take(off as int),
        decreases n - off,
    {
        let frame = slice_to_vec(slice_subrange(pcm, off, off + 320));
        let ghost old_view = res.deep_view();
        res.push(frame);
        proof {
            assert(res.deep_view() =~~= old_view.push(frame@));
            lemma_concat_push(old_view, frame@);
            assert(pcm@.take(off as int) + pcm@.subrange(off as int, off + 320) =~= pcm@.take(
                off + 320,
            ));
        }
        off += 320;
    }
    if off < n {
        let mut frame = slice_to_vec(slice_subrange(pcm, off, n));
        proof {
            assert(frame@ =~= pcm@.skip(off as int));
            assert(frame@.take((pcm@.len() - off) as int) =~= frame@);
        }
        while frame.len() < 320
            invariant
                off < n == pcm@.len(),
                frame@.len() >= pcm@.len() - off,
                frame@.len() <= 320,
                frame@.take((pcm@.len() - off) as int) == pcm@.skip(off as int),
                forall|j: int| pcm@.len() - off <= j < frame@.len() ==> frame@[j] == 0i16,
            decreases 320 - frame@.len(),
        {
            let ghost fold = frame@;
            frame.push(0i16);
            proof {
                assert(frame@ =~= fold.push(0i16));
                assert(frame@.take((pcm@.len() - off) as int) =~= fold.take(
                    (pcm@.len() - off) as int,
                ));
            }
        }
        let ghost old_view = res.deep_view();
        res.push(frame);
        proof {
            assert(res.deep_view() =~~= old_view.push(frame@));
            lemma_concat_push(old_view, frame@);
            let full = res.deep_view().len() - 1;
            let pad = Seq::new((320 - (pcm@.len() - off)) as nat, |i: int| 0i16);
            assert(frame@ =~= pcm@.skip(off as int) + pad);
            assert(concat_frames(res.deep_view()) =~= pcm@ + pad);
            lemma_fundamental_div_mod_converse(
                pcm@.len() as int,
                320,
                full as int,
                (pcm@.len() - off) as int,
            );
            assert(spec_frame_count(pcm@.len()) == full + 1);
        }
    } else {
        proof {
            assert(pcm@.take(off as int) =~= pcm@);
            assert(pcm@ + Seq::new(0nat, |i: int| 0i16) =~= pcm@);
            if n > 0 {
                lemma_fundamental_div_mod_converse(
                    pcm@.len() as int,
                    320,
                    res.deep_view().len() as int,
                    0,
                );
            }
        }
    }
    res
}

} // verus!
