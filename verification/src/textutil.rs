//! Character and string helpers shared by the parsers.

use vstd::prelude::*;

verus! {

/// ASCII lowercase of one character; anything outside `'A'..='Z'` is kept.
pub open spec fn lower_char(c: char) -> char {
    match c {
        'A' => 'a',
        'B' => 'b',
        'C' => 'c',
        'D' => 'd',
        'E' => 'e',
        'F' => 'f',
        'G' => 'g',
        'H' => 'h',
        'I' => 'i',
        'J' => 'j',
        'K' => 'k',
        'L' => 'l',
        'M' => 'm',
        'N' => 'n',
        'O' => 'o',
        'P' => 'p',
        'Q' => 'q',
        'R' => 'r',
        'S' => 's',
        'T' => 't',
        'U' => 'u',
        'V' => 'v',
        'W' => 'w',
        'X' => 'x',
        'Y' => 'y',
        'Z' => 'z',
        _ => c,
    }
}

/// ASCII lowercase of a character sequence.
pub open spec fn lower(s: Seq<char>) -> Seq<char> {
    s.map_values(|c: char| lower_char(c))
}

/// Lowercasing twice is lowercasing once.
pub proof fn lemma_lower_idempotent(s: Seq<char>)
    ensures
        lower(lower(s)) == lower(s),
{
    assert forall|c: char| #[trigger] lower_char(lower_char(c)) == lower_char(c) by {
    }
    assert(lower(lower(s)) =~= lower(s));
}

/// ASCII lowercase of one character, executable form.
pub fn lower_char_exec(c: char) -> (r: char)
    ensures
        r == lower_char(c),
{
    match c {
        'A' => 'a',
        'B' => 'b',
        'C' => 'c',
        'D' => 'd',
        'E' => 'e',
        'F' => 'f',
        'G' => 'g',
        'H' => 'h',
        'I' => 'i',
        'J' => 'j',
        'K' => 'k',
        'L' => 'l',
        'M' => 'm',
        'N' => 'n',
        'O' => 'o',
        'P' => 'p',
        'Q' => 'q',
        'R' => 'r',
        'S' => 's',
        'T' => 't',
        'U' => 'u',
        'V' => 'v',
        'W' => 'w',
        'X' => 'x',
        'Y' => 'y',
        'Z' => 'z',
        _ => c,
    }
}

/// Whether `s`, lowercased, equals `lit` (whose text is already lowercase).
pub fn eq_lower(s: &str, lit: &str) -> (r: bool)
    ensures
        r == (lower(s@) == lit@),
{
    let n = s.unicode_len();
    let m = lit.unicode_len();
    if n != m {
        proof {
            assert(lower(s@).len() == s@.len());
        }
        return false;
    }
    let mut i: usize = 0;
    while i < n
        invariant
            0 <= i <= n,
            n == s@.len() == lit@.len(),
            forall|j: int| 0 <= j < i ==> lower(s@)[j] == lit@[j],
        decreases n - i,
    {
        let c = lower_char_exec(s.get_char(i));
        if c != lit.get_char(i) {
            proof {
                assert(lower(s@)[i as int] != lit@[i as int]);
            }
            return false;
        }
        i += 1;
    }
    proof {
        assert(lower(s@) =~= lit@);
    }
    true
}

/// Whether `s` equals `lit`, character for character.
pub fn str_eq(s: &str, lit: &str) -> (r: bool)
    ensures
        r == (s@ == lit@),
{
    let n = s.unicode_len();
    let m = lit.unicode_len();
    if n != m {
        return false;
    }
    let mut i: usize = 0;
    while i < n
        invariant
            0 <= i <= n,
            n == s@.len() == lit@.len(),
            forall|j: int| 0 <= j < i ==> s@[j] == lit@[j],
        decreases n - i,
    {
        if s.get_char(i) != lit.get_char(i) {
            return false;
        }
        i += 1;
    }
    proof {
        assert(s@ =~= lit@);
    }
    true
}

/// Whether `s` starts with `lit`, character for character.
pub fn starts_with_str(s: &str, lit: &str) -> (r: bool)
    ensures
        r == (s@.len() >= lit@.len() && s@.take(lit@.len() as int) == lit@),
{
    let n = s.unicode_len();
    let m = lit.unicode_len();
    if n < m {
        return false;
    }
    let mut i: usize = 0;
    while i < m
        invariant
            0 <= i <= m,
            m == lit@.len() <= n == s@.len(),
            forall|j: int| 0 <= j < i ==> s@[j] == lit@[j],
        decreases m - i,
    {
        if s.get_char(i) != lit.get_char(i) {
            proof {
                assert(s@.take(lit@.len() as int)[i as int] != lit@[i as int]);
            }
            return false;
        }
        i += 1;
    }
    proof {
        assert(s@.take(lit@.len() as int) =~= lit@);
    }
    true
}

/// Whether `s`, lowercased, starts with `lit` (whose text is already
/// lowercase).
pub fn starts_with_lower(s: &str, lit: &str) -> (r: bool)
    ensures
        r == (s@.len() >= lit@.len() && lower(s@).take(lit@.len() as int) == lit@),
{
    let n = s.unicode_len();
    let m = lit.unicode_len();
    if n < m {
        return false;
    }
    let mut i: usize = 0;
    while i < m
        invariant
            0 <= i <= m,
            m == lit@.len() <= n == s@.len(),
            forall|j: int| 0 <= j < i ==> lower(s@)[j] == lit@[j],
        decreases m - i,
    {
        let c = lower_char_exec(s.get_char(i));
        if c != lit.get_char(i) {
            proof {
                assert(lower(s@).take(lit@.len() as int)[i as int] != lit@[i as int]);
            }
            return false;
        }
        i += 1;
    }
    proof {
        assert(lower(s@).take(lit@.len() as int) =~= lit@);
    }
    true
}

} // verus!
