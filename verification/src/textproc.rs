//! Text post-processing.
//!
//! Dictated snippets shorter than a sentence read as labels, and a trailing
//! period looks wrong on a label. The stage splits the transcript into
//! phrases at sentence terminators, drops the terminator of every phrase
//! with fewer than four words, keeps the rest, and trims trailing
//! whitespace. The pass is idempotent: running it on its own output changes
//! nothing.

use vstd::prelude::*;

verus! {

/// Sentence terminators.
pub open spec fn is_terminator(c: char) -> bool {
    c == '.' || c == '!' || c == '?'
}

/// Whitespace, as the word counter sees it.
pub open spec fn is_space_char(c: char) -> bool {
    c == ' ' || c == '\t' || c == '\n' || c == '\r'
}

/// Index of the first sentence terminator, if any.
pub open spec fn find_term(s: Seq<char>) -> Option<int>
    decreases s.len(),
{
    if s.len() == 0 {
        None
    } else if is_terminator(s[0]) {
        Some(0)
    } else {
        match find_term(s.skip(1)) {
            None => None,
            Some(j) => Some(j + 1),
        }
    }
}

/// What `find_term` returns: the first terminator position.
pub proof fn lemma_find_term_props(s: Seq<char>)
    ensures
        find_term(s) matches Some(i) ==> 0 <= i < s.len() && is_terminator(s[i]) && forall|j: int|
            0 <= j < i ==> !is_terminator(s[j]),
        find_term(s) is None ==> forall|j: int| 0 <= j < s.len() ==> !is_terminator(s[j]),
    decreases s.len(),
{
    if s.len() == 0 {
    } else if is_terminator(s[0]) {
    } else {
        lemma_find_term_props(s.skip(1));
        if let Option::Some(j) = find_term(s.skip(1)) {
            assert forall|k: int| 0 <= k < j + 1 implies !is_terminator(s[k]) by {
                if k > 0 {
                    assert(s[k] == s.skip(1)[k - 1]);
                }
            }
        } else {
            assert forall|k: int| 0 <= k < s.len() implies !is_terminator(s[k]) by {
                if k > 0 {
                    assert(s[k] == s.skip(1)[k - 1]);
                }
            }
        }
    }
}

/// A terminator at `i` with none before it is what `find_term` finds.
pub proof fn lemma_find_term_converse(s: Seq<char>, i: int)
    requires
        0 <= i < s.len(),
        is_terminator(s[i]),
        forall|j: int| 0 <= j < i ==> !is_terminator(s[j]),
    ensures
        find_term(s) == Some(i),
    decreases s.len(),
{
    if i == 0 {
    } else {
        assert(s.skip(1)[i - 1] == s[i]);
        assert forall|j: int| 0 <= j < i - 1 implies !is_terminator(s.skip(1)[j]) by {
            assert(s.skip(1)[j] == s[j + 1]);
        }
        lemma_find_term_converse(s.skip(1), i - 1);
    }
}

/// A sequence with no terminator at all is one where `find_term` finds none.
pub proof fn lemma_find_term_none(s: Seq<char>)
    requires
        forall|j: int| 0 <= j < s.len() ==> !is_terminator(s[j]),
    ensures
        find_term(s) is None,
    decreases s.len(),
{
    if s.len() == 0 {
    } else {
        assert forall|j: int| 0 <= j < s.skip(1).len() implies !is_terminator(s.skip(1)[j]) by {
            assert(s.skip(1)[j] == s[j + 1]);
        }
        lemma_find_term_none(s.skip(1));
    }
}

/// Searching a concatenation whose first part is terminator-free searches
/// the second part, shifted.
pub proof fn lemma_find_term_concat(x: Seq<char>, y: Seq<char>)
    requires
        find_term(x) is None,
    ensures
        find_term(x + y) == match find_term(y) {
            Option::None => Option::<int>::None,
            Option::Some(j) => Option::<int>::Some(j + x.len()),
        },
{
    lemma_find_term_props(x);
    lemma_find_term_props(y);
    match find_term(y) {
        Option::None => {
            assert forall|j: int| 0 <= j < (x + y).len() implies !is_terminator((x + y)[j]) by {
                if j < x.len() {
                    assert((x + y)[j] == x[j]);
                } else {
                    assert((x + y)[j] == y[j - x.len()]);
                }
            }
            lemma_find_term_none(x + y);
        },
        Option::Some(j) => {
            assert((x + y)[j + x.len()] == y[j]);
            assert forall|k: int| 0 <= k < j + x.len() implies !is_terminator((x + y)[k]) by {
                if k < x.len() {
                    assert((x + y)[k] == x[k]);
                } else {
                    assert((x + y)[k] == y[k - x.len()]);
                }
            }
            lemma_find_term_converse(x + y, j + x.len());
        },
    }
}

/// A word starts at `i` when a non-space follows the start or a space.
pub open spec fn word_starts_at(s: Seq<char>, i: int) -> bool {
    0 <= i < s.len() && !is_space_char(s[i]) && (i == 0 || is_space_char(s[i - 1]))
}

/// How many whitespace-separated words `s` holds.
pub open spec fn word_count(s: Seq<char>) -> nat
    decreases s.len(),
{
    if s.len() == 0 {
        0
    } else {
        word_count(s.drop_last()) + (if word_starts_at(s, s.len() - 1) {
            1nat
        } else {
            0nat
        })
    }
}

/// Word count over a concatenation: the sum, less one when a word straddles
/// the boundary.
pub proof fn lemma_word_count_concat(x: Seq<char>, y: Seq<char>)
    ensures
        word_count(x + y) + (if x.len() > 0 && y.len() > 0 && !is_space_char(x.last())
            && !is_space_char(y.first()) {
            1nat
        } else {
            0nat
        }) == word_count(x) + word_count(y),
    decreases y.len(),
{
    if y.len() == 0 {
        assert(x + y =~= x);
    } else {
        let yd = y.drop_last();
        lemma_word_count_concat(x, yd);
        assert((x + y).drop_last() =~= x + yd);
        let n = (x + y).len() - 1;
        if y.len() >= 2 {
            assert((x + y)[n] == y[y.len() - 1]);
            assert((x + y)[n - 1] == y[y.len() - 2]);
            assert(word_starts_at(x + y, n) == word_starts_at(y, y.len() - 1));
            assert(yd.first() == y.first());
        } else {
            assert(y =~= seq![y[0]]);
            assert(yd.len() == 0);
            assert((x + y)[n] == y[0]);
            if x.len() > 0 {
                assert((x + y)[x.len() - 1] == x.last());
            }
        }
    }
}

/// A sequence ending in a non-space holds a word.
pub proof fn lemma_word_count_last_nonspace(x: Seq<char>)
    requires
        x.len() > 0,
        !is_space_char(x.last()),
    ensures
        word_count(x) >= 1,
    decreases x.len(),
{
    if x.len() == 1 {
    } else if is_space_char(x[x.len() - 2]) {
    } else {
        assert(x.drop_last().last() == x[x.len() - 2]);
        lemma_word_count_last_nonspace(x.drop_last());
    }
}

/// A sequence starting with a non-space holds a word.
pub proof fn lemma_word_count_first_nonspace(x: Seq<char>)
    requires
        x.len() > 0,
        !is_space_char(x.first()),
    ensures
        word_count(x) >= 1,
    decreases x.len(),
{
    if x.len() == 1 {
    } else {
        assert(x.drop_last().first() == x.first());
        lemma_word_count_first_nonspace(x.drop_last());
    }
}

/// Prepending text never loses words: a phrase that had four words keeps at
/// least four when earlier, terminator-stripped phrases merge into it.
pub proof fn lemma_word_count_grows(x: Seq<char>, y: Seq<char>)
    ensures
        word_count(x + y) >= word_count(y),
        word_count(x + y) >= word_count(x),
    decreases y.len(),
{
    lemma_word_count_concat(x, y);
    if x.len() > 0 && y.len() > 0 && !is_space_char(x.last()) && !is_space_char(y.first()) {
        lemma_word_count_last_nonspace(x);
        lemma_word_count_first_nonspace(y);
    }
}

/// The post-processing pass over the phrase structure: each phrase keeps its
/// terminator only when it holds at least four words.
pub open spec fn rec_emit(s: Seq<char>) -> Seq<char>
    decreases s.len(),
    via rec_emit_decreases
{
    match find_term(s) {
        Option::None => s,
        Option::Some(i) => {
            let body = s.take(i);
            let rest = s.skip(i + 1);
            if word_count(body) >= 4 {
                body + seq![s[i]] + rec_emit(rest)
            } else {
                body + rec_emit(rest)
            }
        },
    }
}

#[via_fn]
proof fn rec_emit_decreases(s: Seq<char>) {
    lemma_find_term_props(s);
}

/// Remove trailing whitespace.
pub open spec fn trim_end(s: Seq<char>) -> Seq<char>
    decreases s.len(),
{
    if s.len() == 0 {
        s
    } else if is_space_char(s.last()) {
        trim_end(s.drop_last())
    } else {
        s
    }
}

/// The whole pass: phrase-wise terminator stripping, then a final trim.
pub open spec fn spec_strip(s: Seq<char>) -> Seq<char> {
    trim_end(rec_emit(s))
}

/// Unfold the pass over an explicit first phrase.
proof fn lemma_rec_emit_split(b: Seq<char>, t: char, z: Seq<char>)
    requires
        find_term(b) is None,
        is_terminator(t),
    ensures
        rec_emit(b + seq![t] + z) == if word_count(b) >= 4 {
            b + seq![t] + rec_emit(z)
        } else {
            b + rec_emit(z)
        },
{
    let s = b + seq![t] + z;
    assert(s =~= b + (seq![t] + z));
    lemma_find_term_concat(b, seq![t] + z);
    assert((seq![t] + z)[0] == t);
    assert(find_term(seq![t] + z) == Some(0int));
    assert(find_term(s) == Some(b.len() as int));
    assert(s.take(b.len() as int) =~= b);
    assert(s[b.len() as int] == t);
    assert(s.skip(b.len() as int + 1) =~= z);
}

/// The pass never lengthens the text.
proof fn lemma_rec_emit_no_grow(s: Seq<char>)
    ensures
        rec_emit(s).len() <= s.len(),
    decreases s.len(),
{
    lemma_find_term_props(s);
    match find_term(s) {
        Option::None => {},
        Option::Some(i) => {
            lemma_rec_emit_no_grow(s.skip(i + 1));
        },
    }
}

/// Equal prefixes cancel.
proof fn lemma_prefix_cancel(a: Seq<char>, u: Seq<char>, v: Seq<char>)
    requires
        a + u == a + v,
    ensures
        u == v,
{
    assert((a + u).len() == a.len() + u.len());
    assert((a + v).len() == a.len() + v.len());
    assert(u.len() == v.len());
    assert forall|k: int| 0 <= k < u.len() implies u[k] == v[k] by {
        assert(k < v.len());
        assert((a + u)[a.len() + k] == u[k]);
        assert((a + v)[a.len() + k] == v[k]);
    }
    assert(u =~= v);
}

/// Core of idempotence: prefixing terminator-free text to an already
/// processed text leaves the pass with nothing to do.
proof fn lemma_rec_emit_fixed(x: Seq<char>, s: Seq<char>)
    requires
        find_term(x) is None,
    ensures
        rec_emit(x + rec_emit(s)) == x + rec_emit(s),
    decreases s.len(),
{
    lemma_find_term_props(s);
    lemma_find_term_props(x);
    match find_term(s) {
        Option::None => {
            assert forall|j: int| 0 <= j < (x + s).len() implies !is_terminator((x + s)[j]) by {
                if j < x.len() {
                    assert((x + s)[j] == x[j]);
                } else {
                    assert((x + s)[j] == s[j - x.len()]);
                }
            }
            lemma_find_term_none(x + s);
        },
        Option::Some(i) => {
            let b = s.take(i);
            let t = s[i];
            let r = s.skip(i + 1);
            assert forall|j: int| 0 <= j < b.len() implies !is_terminator(b[j]) by {
                assert(b[j] == s[j]);
            }
            lemma_find_term_none(b);
            assert forall|j: int| 0 <= j < (x + b).len() implies !is_terminator((x + b)[j]) by {
                if j < x.len() {
                    assert((x + b)[j] == x[j]);
                } else {
                    assert((x + b)[j] == b[j - x.len()]);
                }
            }
            lemma_find_term_none(x + b);
            if word_count(b) >= 4 {
                assert(rec_emit(s) == b + seq![t] + rec_emit(r));
                assert(x + rec_emit(s) =~= (x + b) + seq![t] + rec_emit(r));
                lemma_word_count_grows(x, b);
                lemma_rec_emit_fixed(Seq::empty(), r);
                assert(Seq::<char>::empty() + rec_emit(r) =~= rec_emit(r));
                assert(rec_emit(rec_emit(r)) == rec_emit(r));
                lemma_rec_emit_split(x + b, t, rec_emit(r));
                assert(rec_emit((x + b) + seq![t] + rec_emit(r)) == (x + b) + seq![t] + rec_emit(
                    rec_emit(r),
                ));
                assert((x + b) + seq![t] + rec_emit(r) =~= x + rec_emit(s));
            } else {
                assert(rec_emit(s) == b + rec_emit(r));
                assert(x + rec_emit(s) =~= (x + b) + rec_emit(r));
                lemma_rec_emit_fixed(x + b, r);
            }
        },
    }
}

/// Trimming distributes over a concatenation whose head ends in non-space.
proof fn lemma_trim_end_concat(x: Seq<char>, y: Seq<char>)
    requires
        x.len() > 0,
        !is_space_char(x.last()),
    ensures
        trim_end(x + y) == x + trim_end(y),
    decreases y.len(),
{
    if y.len() == 0 {
        assert(x + y =~= x);
        assert(trim_end(x) == x);
        assert(x + trim_end(y) =~= x);
    } else {
        let c = y.last();
        assert((x + y).last() == c);
        if is_space_char(c) {
            assert((x + y).drop_last() =~= x + y.drop_last());
            lemma_trim_end_concat(x, y.drop_last());
        }
    }
}

/// Trimming twice is trimming once.
proof fn lemma_trim_end_idempotent(s: Seq<char>)
    ensures
        trim_end(trim_end(s)) == trim_end(s),
    decreases s.len(),
{
    if s.len() == 0 {
    } else if is_space_char(s.last()) {
        lemma_trim_end_idempotent(s.drop_last());
    }
}

/// A terminator-free text stays terminator-free when trimmed.
proof fn lemma_trim_end_term_free(s: Seq<char>)
    requires
        find_term(s) is None,
    ensures
        find_term(trim_end(s)) is None,
    decreases s.len(),
{
    lemma_find_term_props(s);
    if s.len() == 0 {
    } else if is_space_char(s.last()) {
        assert forall|j: int| 0 <= j < s.drop_last().len() implies !is_terminator(
            s.drop_last()[j],
        ) by {
            assert(s.drop_last()[j] == s[j]);
        }
        lemma_find_term_none(s.drop_last());
        lemma_trim_end_term_free(s.drop_last());
    }
}

/// A processed text, trimmed, is still processed.
proof fn lemma_rec_emit_of_trim(s: Seq<char>)
    requires
        rec_emit(s) == s,
    ensures
        rec_emit(trim_end(s)) == trim_end(s),
    decreases s.len(),
{
    lemma_find_term_props(s);
    match find_term(s) {
        Option::None => {
            lemma_trim_end_term_free(s);
            lemma_find_term_props(trim_end(s));
        },
        Option::Some(i) => {
            let b = s.take(i);
            let t = s[i];
            let r = s.skip(i + 1);
            assert(s =~= b + seq![t] + r);
            assert forall|j: int| 0 <= j < b.len() implies !is_terminator(b[j]) by {
                assert(b[j] == s[j]);
            }
            lemma_find_term_none(b);
            if word_count(b) < 4 {
                assert(rec_emit(s) == b + rec_emit(r));
                lemma_rec_emit_no_grow(r);
                assert(rec_emit(s).len() <= b.len() + r.len());
                assert(s.len() == b.len() + 1 + r.len());
                assert(false);
            }
            assert(rec_emit(s) == b + seq![t] + rec_emit(r));
            assert((b + seq![t]) + rec_emit(r) =~= b + seq![t] + rec_emit(r));
            assert((b + seq![t]) + r =~= s);
            lemma_prefix_cancel(b + seq![t], rec_emit(r), r);
            assert((b + seq![t]).last() == t);
            lemma_trim_end_concat(b + seq![t], r);
            assert(trim_end(s) == (b + seq![t]) + trim_end(r));
            assert((b + seq![t]) + trim_end(r) =~= b + seq![t] + trim_end(r));
            lemma_rec_emit_split(b, t, trim_end(r));
            lemma_rec_emit_of_trim(r);
        },
    }
}

/// Idempotence of the post-processing pass: stripping a stripped text
/// changes nothing.
pub proof fn lemma_strip_idempotent(s: Seq<char>)
    ensures
        spec_strip(spec_strip(s)) == spec_strip(s),
{
    let u = rec_emit(s);
    lemma_rec_emit_fixed(Seq::empty(), s);
    assert(Seq::<char>::empty() + rec_emit(s) =~= rec_emit(s));
    assert(rec_emit(u) == u);
    lemma_rec_emit_of_trim(u);
    lemma_trim_end_idempotent(u);
}

/// Executable terminator test.
fn is_terminator_exec(c: char) -> (r: bool)
    ensures
        r == is_terminator(c),
{
    c == '.' || c == '!' || c == '?'
}

/// Executable whitespace test.
fn is_space_exec(c: char) -> (r: bool)
    ensures
        r == is_space_char(c),
{
    c == ' ' || c == '\t' || c == '\n' || c == '\r'
}

/// Count the whitespace-separated words of `s` between `from` and `to`.
fn count_words(s: &str, from: usize, to: usize) -> (r: usize)
    requires
        from <= to <= s@.len(),
    ensures
        r == word_count(s@.subrange(from as int, to as int)),
{
    let mut cnt: usize = 0;
    let mut k = from;
    proof {
        assert(s@.subrange(from as int, from as int) =~= Seq::<char>::empty());
    }
    while k < to
        invariant
            from <= k <= to <= s@.len(),
            cnt <= k - from,
            cnt == word_count(s@.subrange(from as int, k as int)),
        decreases to - k,
    {
        let c = s.get_char(k);
        let starts = !is_space_exec(c) && (k == from || is_space_exec(s.get_char(k - 1)));
        proof {
            let sub1 = s@.subrange(from as int, k as int + 1);
            assert(sub1.drop_last() =~= s@.subrange(from as int, k as int));
            assert(sub1[k - from] == s@[k as int]);
            if k > from {
                assert(sub1[k - from - 1] == s@[k as int - 1]);
            }
            assert(starts == word_starts_at(sub1, sub1.len() - 1));
        }
        if starts {
            cnt += 1;
        }
        k += 1;
    }
    cnt
}

/// The post-processing stage: drop the terminator of every phrase with
/// fewer than four words, keep a kept phrase's text untouched, and trim
/// trailing whitespace.
pub fn strip(text: &str) -> (r: String)
    ensures
        r@ == spec_strip(text@),
{
    let n = text.unicode_len();
    let mut out = String::new();
    let mut j: usize = 0;
    proof {
        assert(text@.skip(0) =~= text@);
        assert(out@ + rec_emit(text@) =~= rec_emit(text@));
    }
    while j < n
        invariant
            0 <= j <= n == text@.len(),
            rec_emit(text@) == out@ + rec_emit(text@.skip(j as int)),
        decreases n - j,
    {
        let ghost rest = text@.skip(j as int);
        let mut k = j;
        while k < n && !is_terminator_exec(text.get_char(k))
            invariant
                j <= k <= n == text@.len(),
                forall|m: int| j <= m < k ==> !is_terminator(text@[m]),
            decreases n - k,
        {
            k += 1;
        }
        if k == n {
            let tail = text.substring_char(j, n);
            out.append(tail);
            proof {
                assert(rest =~= text@.subrange(j as int, n as int));
                assert forall|m: int| 0 <= m < rest.len() implies !is_terminator(rest[m]) by {
                    assert(rest[m] == text@[j + m]);
                }
                lemma_find_term_none(rest);
                assert(rec_emit(rest) == rest);
            }
            j = n;
        } else {
            let words = count_words(text, j, k);
            let body = text.substring_char(j, k);
            out.append(body);
            let keep = words >= 4;
            if keep {
                let term = text.substring_char(k, k + 1);
                out.append(term);
            }
            proof {
                let i = k - j;
                assert(rest[i as int] == text@[k as int]);
                assert forall|m: int| 0 <= m < i implies !is_terminator(rest[m]) by {
                    assert(rest[m] == text@[j + m]);
                }
                lemma_find_term_converse(rest, i as int);
                assert(rest.take(i as int) =~= text@.subrange(j as int, k as int));
                assert(rest.skip(i as int + 1) =~= text@.skip(k as int + 1));
                assert(word_count(rest.take(i as int)) == words);
                if keep {
                    assert(rec_emit(rest) == rest.take(i as int) + seq![rest[i as int]]
                        + rec_emit(text@.skip(k as int + 1)));
                    assert(text@.subrange(k as int, k + 1 as int) =~= seq![text@[k as int]]);
                } else {
                    assert(rec_emit(rest) == rest.take(i as int) + rec_emit(
                        text@.skip(k as int + 1),
                    ));
                }
                assert(rec_emit(text@) == out@ + rec_emit(text@.skip(k as int + 1)));
            }
            j = k + 1;
        }
    }
    proof {
        assert(text@.skip(n as int) =~= Seq::<char>::empty());
        lemma_find_term_none(Seq::<char>::empty());
        assert(rec_emit(Seq::<char>::empty()) == Seq::<char>::empty());
        assert(out@ + Seq::<char>::empty() =~= out@);
        assert(out@ == rec_emit(text@));
    }
    let m0 = out.unicode_len();
    let mut m = m0;
    proof {
        assert(out@.take(m0 as int) =~= out@);
    }
    while m > 0 && is_space_exec(out.as_str().get_char(m - 1))
        invariant
            0 <= m <= out@.len(),
            trim_end(out@) == trim_end(out@.take(m as int)),
        decreases m,
    {
        proof {
            assert(out@.take(m as int).last() == out@[m - 1]);
            assert(out@.take(m as int).drop_last() =~= out@.take(m as int - 1));
        }
        m -= 1;
    }
    proof {
        if m > 0 {
            assert(!is_space_char(out@.take(m as int).last()));
        }
        assert(trim_end(out@.take(m as int)) == out@.take(m as int));
    }
    let res = String::from_str(out.as_str().substring_char(0, m));
    proof {
        assert(out@.subrange(0, m as int) =~= out@.take(m as int));
    }
    res
}

} // verus!
