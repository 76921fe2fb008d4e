//! Contextual prompt builder.
//!
//! Each utterance gets a fresh recognizer prompt built from the foreground
//! application context snapshotted when recording stopped and the live
//! vocabulary: a transcription framing sentence when the application is
//! known, then the vocabulary sentences, space-separated. An empty result is
//! `None` — and the recognizer's prompt is still set, to clear the sticky
//! prompt of the previous utterance.

use vstd::prelude::*;

verus! {

/// Foreground application snapshot: name and front window title.
pub struct AppContext {
    pub app_name: String,
    pub window_title: String,
}

/// Runtime vocabulary, replaced atomically from the command channel.
pub struct Vocabulary {
    pub apps: Vec<String>,
    pub commands: Vec<String>,
}

impl Vocabulary {
    /// An empty vocabulary.
    pub fn new() -> (r: Vocabulary)
        ensures
            r.apps.deep_view() == Seq::<Seq<char>>::empty(),
            r.commands.deep_view() == Seq::<Seq<char>>::empty(),
    {
        let apps: Vec<String> = Vec::new();
        let commands: Vec<String> = Vec::new();
        proof {
            assert(apps.deep_view() =~~= Seq::<Seq<char>>::empty());
            assert(commands.deep_view() =~~= Seq::<Seq<char>>::empty());
        }
        Vocabulary { apps, commands }
    }
}

/// Comma-joined list: `a, b, c`.
pub open spec fn spec_join_comma(items: Seq<Seq<char>>) -> Seq<char>
    decreases items.len(),
{
    if items.len() == 0 {
        Seq::empty()
    } else if items.len() == 1 {
        items[0]
    } else {
        items[0] + ", "@ + spec_join_comma(items.skip(1))
    }
}

/// An application name carries context only when present and known.
pub open spec fn spec_app_usable(app: Seq<char>) -> bool {
    app.len() > 0 && app != "Unknown"@
}

/// The framing sentence built from the application context.
pub open spec fn spec_base_prompt(app: Seq<char>, title: Seq<char>) -> Seq<char> {
    if spec_app_usable(app) {
        if title.len() > 0 {
            "You are transcribing for "@ + app + ". The current window is: "@ + title + "."@
        } else {
            "You are transcribing for "@ + app + "."@
        }
    } else {
        Seq::empty()
    }
}

/// Join two optional sentences with one space.
pub open spec fn spec_space_join(a: Seq<char>, b: Seq<char>) -> Seq<char> {
    if a.len() == 0 {
        b
    } else if b.len() == 0 {
        a
    } else {
        a + " "@ + b
    }
}

/// The whole prompt: framing sentence, vocabulary applications, vocabulary
/// commands — each part only when non-empty — or nothing at all.
pub open spec fn spec_prompt(
    app: Seq<char>,
    title: Seq<char>,
    apps: Seq<Seq<char>>,
    commands: Seq<Seq<char>>,
) -> Option<Seq<char>> {
    let base = spec_base_prompt(app, title);
    let voice = if apps.len() > 0 {
        "Voice commands: open "@ + spec_join_comma(apps) + "."@
    } else {
        Seq::<char>::empty()
    };
    let cmd = if commands.len() > 0 {
        "Commands: "@ + spec_join_comma(commands) + "."@
    } else {
        Seq::<char>::empty()
    };
    let joined = spec_space_join(spec_space_join(base, voice), cmd);
    if joined.len() == 0 {
        None
    } else {
        Some(joined)
    }
}

/// Joining one more item appends a separator and the item.
proof fn lemma_join_comma_snoc(items: Seq<Seq<char>>, i: int)
    requires
        0 <= i < items.len(),
    ensures
        spec_join_comma(items.take(i + 1)) == if i == 0 {
            items[0]
        } else {
            spec_join_comma(items.take(i)) + ", "@ + items[i]
        },
    decreases i,
{
    if i == 0 {
        assert(items.take(1) =~= seq![items[0]]);
        assert(spec_join_comma(items.take(1)) == items[0]);
    } else {
        lemma_join_comma_snoc(items.skip(1), i - 1);
        assert(items.take(i + 1)[0] == items[0]);
        assert(items.take(i + 1).skip(1) =~= items.skip(1).take(i));
        assert(items.take(i).skip(1) =~= items.skip(1).take(i - 1));
        assert(items.skip(1)[i - 1] == items[i]);
        if i == 1 {
            assert(items.skip(1).take(1) =~= seq![items[1]]);
            assert(items.take(1) =~= seq![items[0]]);
            assert(spec_join_comma(items.take(2)) =~= items[0] + ", "@ + items[1]);
            assert(spec_join_comma(items.take(1)) + ", "@ + items[1] =~= items[0] + ", "@
                + items[1]);
        } else {
            assert(spec_join_comma(items.take(i + 1)) =~= items[0] + ", "@ + spec_join_comma(
                items.skip(1).take(i),
            ));
            assert(spec_join_comma(items.take(i)) =~= items[0] + ", "@ + spec_join_comma(
                items.skip(1).take(i - 1),
            ));
            assert(items[0] + ", "@ + (spec_join_comma(items.skip(1).take(i - 1)) + ", "@
                + items[i]) =~= (items[0] + ", "@ + spec_join_comma(items.skip(1).take(i - 1)))
                + ", "@ + items[i]);
        }
    }
}

/// Append the comma-joined items to `out`.
fn append_join(out: &mut String, items: &Vec<String>)
    ensures
        final (out)@ == old(out)@ + spec_join_comma(items.deep_view()),
{
    let ghost base = out@;
    let mut i: usize = 0;
    proof {
        assert(base + spec_join_comma(items.deep_view().take(0)) =~= base);
    }
    while i < items.len()
        invariant
            0 <= i <= items@.len(),
            items.deep_view().len() == items@.len(),
            out@ == base + spec_join_comma(items.deep_view().take(i as int)),
        decreases items@.len() - i,
    {
        if i > 0 {
            out.append(", ");
        }
        out.append(items[i].as_str());
        proof {
            assert(items.deep_view()[i as int] == items@[i as int]@);
            lemma_join_comma_snoc(items.deep_view(), i as int);
            if i > 0 {
                assert(base + spec_join_comma(items.deep_view().take(i as int)) + ", "@
                    + items@[i as int]@ =~= base + (spec_join_comma(
                    items.deep_view().take(i as int),
                ) + ", "@ + items.deep_view()[i as int]));
            } else {
                assert(base + spec_join_comma(items.deep_view().take(0)) + items@[0]@ =~= base
                    + items.deep_view()[0]);
            }
        }
        i += 1;
    }
    proof {
        assert(items.deep_view().take(items@.len() as int) =~= items.deep_view());
    }
}

/// Build the recognizer prompt for one utterance from the context snapshot
/// and the vocabulary snapshot. `None` exactly when there is nothing to say.
pub fn build_prompt(ctx: &AppContext, vocab: &Vocabulary) -> (r: Option<String>)
    ensures
        r is Some <==> spec_prompt(
            ctx.app_name@,
            ctx.window_title@,
            vocab.apps.deep_view(),
            vocab.commands.deep_view(),
        ) is Some,
        r matches Some(s) ==> Some(s@) == spec_prompt(
            ctx.app_name@,
            ctx.window_title@,
            vocab.apps.deep_view(),
            vocab.commands.deep_view(),
        ),
{
    let mut joined = String::new();
    let unknown = String::from_str("Unknown");
    let usable = ctx.app_name.unicode_len() > 0 && !(ctx.app_name == unknown);
    proof {
        assert(usable == spec_app_usable(ctx.app_name@));
    }
    if usable {
        joined.append("You are transcribing for ");
        joined.append(ctx.app_name.as_str());
        if ctx.window_title.unicode_len() > 0 {
            joined.append(". The current window is: ");
            joined.append(ctx.window_title.as_str());
            joined.append(".");
        } else {
            joined.append(".");
        }
        proof {
            assert(joined@ =~= spec_base_prompt(ctx.app_name@, ctx.window_title@));
            reveal_strlit("You are transcribing for ");
            assert(joined@.len() > 0);
        }
    } else {
        proof {
            assert(joined@ =~= spec_base_prompt(ctx.app_name@, ctx.window_title@));
        }
    }
    let ghost base = spec_base_prompt(ctx.app_name@, ctx.window_title@);
    let ghost voice = if vocab.apps.deep_view().len() > 0 {
        "Voice commands: open "@ + spec_join_comma(vocab.apps.deep_view()) + "."@
    } else {
        Seq::<char>::empty()
    };
    if vocab.apps.len() > 0 {
        if joined.unicode_len() > 0 {
            joined.append(" ");
        }
        joined.append("Voice commands: open ");
        append_join(&mut joined, &vocab.apps);
        joined.append(".");
        proof {
            reveal_strlit("Voice commands: open ");
            assert(voice.len() > 0);
            assert(joined@ =~= spec_space_join(base, voice));
        }
    } else {
        proof {
            assert(joined@ =~= spec_space_join(base, voice));
        }
    }
    let ghost with_voice = spec_space_join(base, voice);
    let ghost cmd = if vocab.commands.deep_view().len() > 0 {
        "Commands: "@ + spec_join_comma(vocab.commands.deep_view()) + "."@
    } else {
        Seq::<char>::empty()
    };
    if vocab.commands.len() > 0 {
        if joined.unicode_len() > 0 {
            joined.append(" ");
        }
        joined.append("Commands: ");
        append_join(&mut joined, &vocab.commands);
        joined.append(".");
        proof {
            reveal_strlit("Commands: ");
            assert(cmd.len() > 0);
            assert(joined@ =~= spec_space_join(with_voice, cmd));
        }
    } else {
        proof {
            assert(joined@ =~= spec_space_join(with_voice, cmd));
        }
    }
    if joined.unicode_len() == 0 {
        None
    } else {
        Some(joined)
    }
}

} // verus!
