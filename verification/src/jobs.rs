//! Transcription job planning.
//!
//! When a session closes, the orchestrator takes the utterance and spawns a
//! detached job. The job's externally visible behaviour is planned here: the
//! prompt is set — even to nothing — before every inference; an utterance
//! below the recognizer's one-second floor is rejected before the recognizer
//! runs; and for spoken text the `FINAL:` line is emitted before injection
//! is attempted. The worker executes the plan in order.

use vstd::prelude::*;
use crate::prompt::{AppContext, Vocabulary, build_prompt, spec_prompt};
use crate::textproc::{is_space_char, spec_strip, strip};

verus! {

/// What stands between the recognizer and an utterance.
#[derive(Clone, Copy, PartialEq, Eq, Structural, Debug)]
pub enum UtteranceVerdict {
    /// No samples at all: discarded silently, the recognizer never runs.
    Empty,
    /// Shorter than one second at the configured rate: rejected as too
    /// short, the recognizer never runs.
    TooShort,
    /// Long enough to transcribe.
    Ready,
}

/// Gate an utterance before inference: empty utterances are discarded, and
/// the recognizer demands at least one second of audio at its configured
/// rate.
pub fn utterance_precheck(sample_count: usize, sample_rate: u32) -> (r: UtteranceVerdict)
    requires
        sample_rate >= 1,
    ensures
        r is Empty <==> sample_count == 0,
        r is TooShort <==> 0 < sample_count < sample_rate,
        r is Ready <==> sample_count >= sample_rate,
{
    if sample_count == 0 {
        UtteranceVerdict::Empty
    } else if sample_count < sample_rate as usize {
        UtteranceVerdict::TooShort
    } else {
        UtteranceVerdict::Ready
    }
}

/// The actions of a job up to and including inference, in order.
pub enum PreStep {
    /// Hand this prompt to the recognizer, replacing the previous one.
    SetPrompt(Option<String>),
    /// Run the recognizer on the utterance.
    Transcribe(Vec<i16>),
}

/// The inference plan for one utterance: first set the prompt built from
/// the snapshots — `None` still clears the recognizer's sticky prompt —
/// then run the recognizer on the whole utterance.
pub fn plan_inference(ctx: &AppContext, vocab: &Vocabulary, samples: Vec<i16>) -> (r: Vec<PreStep>)
    ensures
        r@.len() == 2,
        r@[0] matches PreStep::SetPrompt(p) && (p is Some <==> spec_prompt(
            ctx.app_name@,
            ctx.window_title@,
            vocab.apps.deep_view(),
            vocab.commands.deep_view(),
        ) is Some) && (p matches Some(s) ==> Some(s@) == spec_prompt(
            ctx.app_name@,
            ctx.window_title@,
            vocab.apps.deep_view(),
            vocab.commands.deep_view(),
        )),
        r@[1] matches PreStep::Transcribe(u) && u@ == samples@,
{
    let prompt = build_prompt(ctx, vocab);
    let mut plan: Vec<PreStep> = Vec::new();
    plan.push(PreStep::SetPrompt(prompt));
    plan.push(PreStep::Transcribe(samples));
    plan
}

/// Prompt freshness law: in every inference plan, each recognizer run is
/// preceded by a prompt update in the same plan, whatever the prompt is.
pub proof fn lemma_prompt_freshness(plan: Seq<PreStep>)
    requires
        plan.len() == 2,
        plan[0] is SetPrompt,
        plan[1] is Transcribe,
    ensures
        forall|i: int|
            0 <= i < plan.len() && plan[i] is Transcribe ==> exists|j: int|
                0 <= j < i && plan[j] is SetPrompt,
{
    assert forall|i: int| 0 <= i < plan.len() && plan[i] is Transcribe implies exists|j: int|
        0 <= j < i && plan[j] is SetPrompt by {
        assert(plan[0] is SetPrompt);
    }
}

/// Whether a transcript holds anything but whitespace.
pub open spec fn spec_has_speech(t: Seq<char>) -> bool {
    exists|i: int| 0 <= i < t.len() && !is_space_char(t[i])
}

/// Whether injection has anything to do: whitespace-only text is a no-op
/// success.
pub fn has_speech(text: &str) -> (r: bool)
    ensures
        r == spec_has_speech(text@),
{
    let n = text.unicode_len();
    let mut i: usize = 0;
    while i < n
        invariant
            0 <= i <= n == text@.len(),
            forall|j: int| 0 <= j < i ==> is_space_char(text@[j]),
        decreases n - i,
    {
        let c = text.get_char(i);
        if !(c == ' ' || c == '\t' || c == '\n' || c == '\r') {
            return true;
        }
        i += 1;
    }
    false
}

/// The actions of a job after inference, in order.
pub enum PostStep {
    /// Announce that no speech was recognized.
    EmitNoSpeech,
    /// Write this whole line on stdout.
    EmitFinal(String),
    /// Paste this text into the focused application, with an optional Enter.
    Inject(String, bool),
    /// Record the utterance's performance sample.
    RecordPerf,
}

/// Plan what follows inference. An empty transcript yields a notice and the
/// telemetry sample; spoken text is post-processed, reported on stdout, and
/// only then injected — the `FINAL:` line always precedes the injection
/// attempt.
pub fn plan_post_transcribe(text: &str, final_line: String, press_enter: bool) -> (r: Vec<
    PostStep,
>)
    ensures
        !spec_has_speech(text@) ==> r@.len() == 2 && r@[0] is EmitNoSpeech && r@[1] is RecordPerf,
        spec_has_speech(text@) ==> r@.len() == 3 && (r@[0] matches PostStep::EmitFinal(l) && l@
            == final_line@) && (r@[1] matches PostStep::Inject(t, e) && t@ == spec_strip(text@)
            && e == press_enter) && r@[2] is RecordPerf,
{
    let mut plan: Vec<PostStep> = Vec::new();
    if !has_speech(text) {
        plan.push(PostStep::EmitNoSpeech);
        plan.push(PostStep::RecordPerf);
    } else {
        let processed = strip(text);
        plan.push(PostStep::EmitFinal(final_line));
        plan.push(PostStep::Inject(processed, press_enter));
        plan.push(PostStep::RecordPerf);
    }
    plan
}

/// Ordering law: in every post-inference plan, the `FINAL:` report comes
/// strictly before any injection.
pub proof fn lemma_final_before_inject(plan: Seq<PostStep>, text: Seq<char>)
    requires
        !spec_has_speech(text) ==> plan.len() == 2 && plan[0] is EmitNoSpeech
            && plan[1] is RecordPerf,
        spec_has_speech(text) ==> plan.len() == 3 && plan[0] is EmitFinal && plan[1] is Inject
            && plan[2] is RecordPerf,
    ensures
        forall|i: int|
            0 <= i < plan.len() && plan[i] is Inject ==> exists|j: int|
                0 <= j < i && plan[j] is EmitFinal,
{
    assert forall|i: int| 0 <= i < plan.len() && plan[i] is Inject implies exists|j: int|
        0 <= j < i && plan[j] is EmitFinal by {
        if spec_has_speech(text) {
            assert(plan[0] is EmitFinal);
        }
    }
}

/// Join recognizer segments with single spaces, as the engine reports its
/// transcript: empty segments are skipped, so trimmed segments join with
/// exactly one space between them and no leading or trailing artifact.
pub open spec fn spec_join_segments(acc: Seq<char>, segs: Seq<Seq<char>>) -> Seq<char>
    decreases segs.len(),
{
    if segs.len() == 0 {
        acc
    } else {
        spec_join_segments(
            if segs[0].len() == 0 {
                acc
            } else if acc.len() > 0 {
                acc + " "@ + segs[0]
            } else {
                segs[0]
            },
            segs.skip(1),
        )
    }
}

/// Transcript shape law: joined from trimmed segments, the transcript is
/// itself trimmed — no leading or trailing whitespace, no empty-segment
/// artifacts — and it is empty exactly when the accumulator and every
/// segment are.
pub proof fn lemma_join_segments_trimmed(acc: Seq<char>, segs: Seq<Seq<char>>)
    requires
        acc.len() == 0 || (!is_space_char(acc.first()) && !is_space_char(acc.last())),
        forall|i: int|
            0 <= i < segs.len() ==> (#[trigger] segs[i]).len() == 0 || (!is_space_char(
                segs[i].first(),
            ) && !is_space_char(segs[i].last())),
    ensures
        ({
            let r = spec_join_segments(acc, segs);
            (r.len() == 0 || (!is_space_char(r.first()) && !is_space_char(r.last()))) && (r.len()
                == 0 <==> (acc.len() == 0 && forall|i: int|
                0 <= i < segs.len() ==> (#[trigger] segs[i]).len() == 0))
        }),
    decreases segs.len(),
{
    if segs.len() == 0 {
    } else {
        let s0 = segs[0];
        let next = if s0.len() == 0 {
            acc
        } else if acc.len() > 0 {
            acc + " "@ + s0
        } else {
            s0
        };
        if s0.len() > 0 && acc.len() > 0 {
            assert(next.first() == acc.first());
            assert(next.last() == s0.last());
            assert(next.len() > 0);
        }
        assert forall|i: int|
            0 <= i < segs.skip(1).len() implies (#[trigger] segs.skip(1)[i]).len() == 0 || (
        !is_space_char(segs.skip(1)[i].first()) && !is_space_char(segs.skip(1)[i].last())) by {
            assert(segs.skip(1)[i] == segs[i + 1]);
        }
        lemma_join_segments_trimmed(next, segs.skip(1));
        let r = spec_join_segments(acc, segs);
        if r.len() == 0 {
            assert(next.len() == 0);
            assert(s0.len() == 0 && acc.len() == 0);
            assert forall|i: int| 0 <= i < segs.len() implies (#[trigger] segs[i]).len() == 0 by {
                if i > 0 {
                    assert(segs[i] == segs.skip(1)[i - 1]);
                }
            }
        }
        if acc.len() == 0 && (forall|i: int|
            0 <= i < segs.len() ==> (#[trigger] segs[i]).len() == 0) {
            assert(next.len() == 0);
            assert forall|i: int|
                0 <= i < segs.skip(1).len() implies (#[trigger] segs.skip(1)[i]).len() == 0 by {
                assert(segs.skip(1)[i] == segs[i + 1]);
            }
        }
    }
}

/// Join already-trimmed recognizer segments into the transcript.
pub fn join_segments(segs: &Vec<String>) -> (r: String)
    ensures
        r@ == spec_join_segments(Seq::<char>::empty(), segs.deep_view()),
{
    let mut out = String::new();
    let mut i: usize = 0;
    proof {
        assert(segs.deep_view().skip(0) =~~= segs.deep_view());
    }
    while i < segs.len()
        invariant
            0 <= i <= segs@.len(),
            segs.deep_view().len() == segs@.len(),
            spec_join_segments(Seq::<char>::empty(), segs.deep_view()) == spec_join_segments(
                out@,
                segs.deep_view().skip(i as int),
            ),
        decreases segs@.len() - i,
    {
        let ghost pre = out@;
        let ghost rest = segs.deep_view().skip(i as int);
        if segs[i].as_str().is_empty() {
            proof {
                assert(segs.deep_view()[i as int].len() == 0);
            }
        } else if out.unicode_len() > 0 {
            out.append(" ");
            out.append(segs[i].as_str());
            proof {
                assert(out@ =~= pre + " "@ + segs.deep_view()[i as int]);
            }
        } else {
            out.append(segs[i].as_str());
            proof {
                assert(out@ =~= segs.deep_view()[i as int]);
            }
        }
        proof {
            assert(rest[0] == segs.deep_view()[i as int]);
            assert(rest.skip(1) =~~= segs.deep_view().skip(i as int + 1));
            assert(spec_join_segments(pre, rest) == spec_join_segments(
                out@,
                segs.deep_view().skip(i as int + 1),
            ));
        }
        i += 1;
    }
    proof {
        assert(segs.deep_view().skip(segs@.len() as int) =~~= Seq::<Seq<char>>::empty());
    }
    out
}

} // verus!
