//! Character classes and input normalization.
//!
//! Normalization turns arbitrary caller-supplied text into a canonical
//! lookup key: ASCII punctuation is stripped from both ends, ASCII letters
//! are lowercased, and the result must be a non-empty string of lowercase
//! ASCII letters — otherwise the input is not a countable word.

use vstd::prelude::*;
use vstd::string::StrSliceExecFns;

verus! {

/// ASCII punctuation: the four blocks `!`..`/`, `:`..`@`, `[`..`` ` `` and
/// `{`..`~`.  These, and only these, are trimmed from the ends of raw input.
pub open spec fn is_ascii_punct(c: char) -> bool {
    ||| 0x21 <= c as int && c as int <= 0x2f
    ||| 0x3a <= c as int && c as int <= 0x40
    ||| 0x5b <= c as int && c as int <= 0x60
    ||| 0x7b <= c as int && c as int <= 0x7e
}

/// A lowercase ASCII letter `a`..`z`, the only characters a canonical word
/// may consist of.
pub open spec fn is_lower_alpha(c: char) -> bool {
    0x61 <= c as int && c as int <= 0x7a
}

/// An ASCII decimal digit `0`..`9`.
pub open spec fn is_ascii_digit(c: char) -> bool {
    0x30 <= c as int && c as int <= 0x39
}

/// Lowercasing of a single character: ASCII uppercase letters move down
/// into `a`..`z`, everything else passes through unchanged.
pub open spec fn to_lower_char(c: char) -> char {
    if 0x41 <= c as int && c as int <= 0x5a {
        (c as int + 0x20) as char
    } else {
        c
    }
}

/// The characters left after dropping every leading ASCII punctuation mark.
pub open spec fn trim_start_spec(s: Seq<char>) -> Seq<char>
    decreases s.len(),
{
    if s.len() > 0 && is_ascii_punct(s.first()) {
        trim_start_spec(s.drop_first())
    } else {
        s
    }
}

/// The characters left after dropping every trailing ASCII punctuation mark.
pub open spec fn trim_end_spec(s: Seq<char>) -> Seq<char>
    decreases s.len(),
{
    if s.len() > 0 && is_ascii_punct(s.last()) {
        trim_end_spec(s.drop_last())
    } else {
        s
    }
}

/// ASCII punctuation stripped from both ends; interior characters untouched.
pub open spec fn trim_spec(s: Seq<char>) -> Seq<char> {
    trim_end_spec(trim_start_spec(s))
}

/// Every character lowercased as `to_lower_char` does.
pub open spec fn lower_spec(s: Seq<char>) -> Seq<char> {
    s.map_values(|c: char| to_lower_char(c))
}

/// A canonical word: non-empty and made of lowercase ASCII letters only.
pub open spec fn valid_word(w: Seq<char>) -> bool {
    &&& w.len() > 0
    &&& forall|i: int| 0 <= i < w.len() ==> is_lower_alpha(#[trigger] w[i])
}

/// The canonical lookup key for raw input `s`, or `None` when the input is
/// not a countable word: trim punctuation from the ends, lowercase, and
/// demand a non-empty all-letter result.
pub open spec fn normalize_spec(s: Seq<char>) -> Option<Seq<char>> {
    let w = lower_spec(trim_spec(s));
    if valid_word(w) {
        Some(w)
    } else {
        None
    }
}

fn char_is_punct(c: char) -> (r: bool)
    ensures
        r == is_ascii_punct(c),
{
    let v = c as u32;
    (0x21 <= v && v <= 0x2f) || (0x3a <= v && v <= 0x40) || (0x5b <= v && v <= 0x60) || (0x7b <= v
        && v <= 0x7e)
}

fn char_is_lower_alpha(c: char) -> (r: bool)
    ensures
        r == is_lower_alpha(c),
{
    let v = c as u32;
    0x61 <= v && v <= 0x7a
}

fn char_to_lower(c: char) -> (r: char)
    ensures
        r == to_lower_char(c),
{
    let v = c as u32;
    if 0x41 <= v && v <= 0x5a {
        ((v + 0x20) as u8) as char
    } else {
        c
    }
}

/// Trimming the front only ever removes punctuation, so a non-punctuation
/// character survives it.
pub proof fn lemma_trim_start_keeps(s: Seq<char>, i: int)
    requires
        0 <= i < s.len(),
        !is_ascii_punct(s[i]),
    ensures
        exists|j: int|
            0 <= j < trim_start_spec(s).len() && #[trigger] trim_start_spec(s)[j] == s[i],
    decreases s.len(),
{
    if is_ascii_punct(s.first()) {
        assert(i != 0);
        lemma_trim_start_keeps(s.drop_first(), i - 1);
        assert(s.drop_first()[i - 1] == s[i]);
        let j = choose|j: int|
            0 <= j < trim_start_spec(s.drop_first()).len() && #[trigger] trim_start_spec(
                s.drop_first(),
            )[j] == s.drop_first()[i - 1];
        assert(trim_start_spec(s) == trim_start_spec(s.drop_first()));
        assert(trim_start_spec(s)[j] == s[i]);
    } else {
        assert(trim_start_spec(s) == s);
        assert(trim_start_spec(s)[i] == s[i]);
    }
}

/// Trimming the back only ever removes punctuation, so a non-punctuation
/// character survives it.
pub proof fn lemma_trim_end_keeps(s: Seq<char>, i: int)
    requires
        0 <= i < s.len(),
        !is_ascii_punct(s[i]),
    ensures
        exists|j: int| 0 <= j < trim_end_spec(s).len() && #[trigger] trim_end_spec(s)[j] == s[i],
    decreases s.len(),
{
    if is_ascii_punct(s.last()) {
        assert(i < s.len() - 1);
        lemma_trim_end_keeps(s.drop_last(), i);
        assert(s.drop_last()[i] == s[i]);
        let j = choose|j: int|
            0 <= j < trim_end_spec(s.drop_last()).len() && #[trigger] trim_end_spec(
                s.drop_last(),
            )[j] == s.drop_last()[i];
        assert(trim_end_spec(s) == trim_end_spec(s.drop_last()));
        assert(trim_end_spec(s)[j] == s[i]);
    } else {
        assert(trim_end_spec(s) == s);
        assert(trim_end_spec(s)[i] == s[i]);
    }
}

/// A non-punctuation character of `s` survives trimming both ends.
pub proof fn lemma_trim_keeps(s: Seq<char>, i: int)
    requires
        0 <= i < s.len(),
        !is_ascii_punct(s[i]),
    ensures
        exists|j: int| 0 <= j < trim_spec(s).len() && #[trigger] trim_spec(s)[j] == s[i],
{
    lemma_trim_start_keeps(s, i);
    let j1 = choose|j: int|
        0 <= j < trim_start_spec(s).len() && #[trigger] trim_start_spec(s)[j] == s[i];
    lemma_trim_end_keeps(trim_start_spec(s), j1);
    let j2 = choose|j: int|
        0 <= j < trim_end_spec(trim_start_spec(s)).len() && #[trigger] trim_end_spec(
            trim_start_spec(s),
        )[j] == trim_start_spec(s)[j1];
    assert(trim_spec(s)[j2] == s[i]);
}

/// Appending a punctuation character does not change the back trim.
pub proof fn lemma_trim_end_push(s: Seq<char>, p: char)
    requires
        is_ascii_punct(p),
    ensures
        trim_end_spec(s.push(p)) == trim_end_spec(s),
{
    assert(s.push(p).last() == p);
    assert(s.push(p).drop_last() =~= s);
}

/// Appending a punctuation character to a word that is not all punctuation
/// carries it through the front trim; a word that is all punctuation still
/// trims to nothing.
pub proof fn lemma_trim_start_push(s: Seq<char>, p: char)
    requires
        is_ascii_punct(p),
    ensures
        trim_start_spec(s.push(p)) == (if trim_start_spec(s).len() == 0 {
            Seq::<char>::empty()
        } else {
            trim_start_spec(s).push(p)
        }),
    decreases s.len(),
{
    if s.len() == 0 {
        assert(s.push(p).first() == p);
        assert(s.push(p).drop_first() =~= Seq::<char>::empty());
        assert(trim_start_spec(Seq::<char>::empty()) == Seq::<char>::empty());
        assert(trim_start_spec(s.push(p)) == Seq::<char>::empty());
        assert(trim_start_spec(s) == s);
    } else if is_ascii_punct(s.first()) {
        assert(s.push(p).first() == s.first());
        assert(s.push(p).drop_first() =~= s.drop_first().push(p));
        lemma_trim_start_push(s.drop_first(), p);
        assert(trim_start_spec(s.push(p)) == trim_start_spec(s.drop_first().push(p)));
        assert(trim_start_spec(s) == trim_start_spec(s.drop_first()));
    } else {
        assert(s.push(p).first() == s.first());
        assert(trim_start_spec(s.push(p)) == s.push(p));
        assert(trim_start_spec(s) == s);
        assert(s.len() > 0);
    }
}

/// Prepending a punctuation character does not change the front trim.
pub proof fn lemma_trim_start_unshift(s: Seq<char>, p: char)
    requires
        is_ascii_punct(p),
    ensures
        trim_start_spec(seq![p] + s) == trim_start_spec(s),
{
    assert((seq![p] + s).first() == p);
    assert((seq![p] + s).drop_first() =~= s);
}

/// Lowercasing is idempotent on a single character.
pub proof fn lemma_to_lower_idempotent(c: char)
    ensures
        to_lower_char(to_lower_char(c)) == to_lower_char(c),
{
}

/// Lowercasing never makes or unmakes a punctuation character.
pub proof fn lemma_to_lower_punct(c: char)
    ensures
        is_ascii_punct(to_lower_char(c)) == is_ascii_punct(c),
{
}

/// Lowercasing commutes with trimming the front: punctuation is untouched
/// by case folding.
pub proof fn lemma_trim_start_lower(s: Seq<char>)
    ensures
        trim_start_spec(lower_spec(s)) == lower_spec(trim_start_spec(s)),
    decreases s.len(),
{
    if s.len() > 0 {
        assert(lower_spec(s).first() == to_lower_char(s.first()));
        lemma_to_lower_punct(s.first());
        if is_ascii_punct(s.first()) {
            assert(lower_spec(s).drop_first() =~= lower_spec(s.drop_first()));
            lemma_trim_start_lower(s.drop_first());
        }
    }
}

/// Lowercasing commutes with trimming the back.
pub proof fn lemma_trim_end_lower(s: Seq<char>)
    ensures
        trim_end_spec(lower_spec(s)) == lower_spec(trim_end_spec(s)),
    decreases s.len(),
{
    if s.len() > 0 {
        assert(lower_spec(s).last() == to_lower_char(s.last()));
        lemma_to_lower_punct(s.last());
        if is_ascii_punct(s.last()) {
            assert(lower_spec(s).drop_last() =~= lower_spec(s.drop_last()));
            lemma_trim_end_lower(s.drop_last());
        }
    }
}

/// Lowercasing a sequence twice is the same as lowercasing it once.
pub proof fn lemma_lower_idempotent(s: Seq<char>)
    ensures
        lower_spec(lower_spec(s)) == lower_spec(s),
{
    assert(lower_spec(lower_spec(s)) =~= lower_spec(s)) by {
        assert forall|i: int| 0 <= i < s.len() implies lower_spec(lower_spec(s))[i] == lower_spec(
            s,
        )[i] by {
            lemma_to_lower_idempotent(s[i]);
        }
    }
}

/// Normalization is insensitive to the case of its input: lowercasing the
/// raw string first changes nothing.
pub proof fn lemma_normalize_lower(s: Seq<char>)
    ensures
        normalize_spec(lower_spec(s)) == normalize_spec(s),
{
    lemma_trim_start_lower(s);
    lemma_trim_end_lower(trim_start_spec(s));
    assert(trim_spec(lower_spec(s)) == lower_spec(trim_spec(s)));
    lemma_lower_idempotent(trim_spec(s));
}

/// Collects the characters of `s` into a vector.
pub(crate) fn str_chars(s: &str) -> (r: Vec<char>)
    ensures
        r@ == s@,
{
    let n = s.unicode_len();
    let mut out: Vec<char> = Vec::new();
    let mut i: usize = 0;
    while i < n
        invariant
            n == s@.len(),
            0 <= i <= n,
            out@ =~= s@.subrange(0, i as int),
        decreases n - i,
    {
        out.push(s.get_char(i));
        proof {
            assert(out@ =~= s@.subrange(0, i + 1 as int));
        }
        i += 1;
    }
    proof {
        assert(s@.subrange(0, n as int) =~= s@);
    }
    out
}

/// Normalizes raw input into its canonical lookup key, or `None` when the
/// input is not a countable word.
pub(crate) fn normalize(word: &str) -> (r: Option<Vec<char>>)
    ensures
        match r {
            Some(w) => normalize_spec(word@) == Some(w@),
            None => normalize_spec(word@) is None,
        },
{
    let ghost s = word@;
    let chars = str_chars(word);
    let n = chars.len();

    proof {
        assert(s.skip(0) =~= s);
    }
    let mut lo: usize = 0;
    while lo < n && char_is_punct(chars[lo])
        invariant
            chars@ == s,
            n == s.len(),
            0 <= lo <= n,
            trim_start_spec(s) == trim_start_spec(s.skip(lo as int)),
        decreases n - lo,
    {
        proof {
            assert(s.skip(lo as int).first() == s[lo as int]);
            assert(s.skip(lo as int).drop_first() =~= s.skip(lo as int + 1));
        }
        lo += 1;
    }
    proof {
        if lo < n {
            assert(!is_ascii_punct(s.skip(lo as int).first()));
        }
        assert(trim_start_spec(s) =~= s.subrange(lo as int, n as int));
    }

    let mut hi: usize = n;
    while hi > lo && char_is_punct(chars[hi - 1])
        invariant
            chars@ == s,
            n == s.len(),
            0 <= lo <= hi <= n,
            trim_start_spec(s) =~= s.subrange(lo as int, n as int),
            trim_end_spec(trim_start_spec(s)) == trim_end_spec(
                s.subrange(lo as int, hi as int),
            ),
        decreases hi,
    {
        proof {
            assert(s.subrange(lo as int, hi as int).last() == s[hi - 1]);
            assert(s.subrange(lo as int, hi as int).drop_last() =~= s.subrange(
                lo as int,
                hi as int - 1,
            ));
        }
        hi -= 1;
    }
    proof {
        if hi > lo {
            assert(!is_ascii_punct(s.subrange(lo as int, hi as int).last()));
        }
        assert(trim_spec(s) =~= s.subrange(lo as int, hi as int));
    }

    let mut w: Vec<char> = Vec::new();
    let mut i: usize = lo;
    while i < hi
        invariant
            chars@ == s,
            n == s.len(),
            0 <= lo <= i <= hi <= n,
            w@.len() == i - lo,
            forall|j: int| 0 <= j < w@.len() ==> w@[j] == to_lower_char(#[trigger] s[lo + j]),
        decreases hi - i,
    {
        w.push(char_to_lower(chars[i]));
        i += 1;
    }
    proof {
        assert(trim_spec(s) =~= s.subrange(lo as int, hi as int));
        assert(w@ =~= lower_spec(trim_spec(s))) by {
            assert forall|j: int| 0 <= j < w@.len() implies w@[j] == lower_spec(trim_spec(s))[j]
            by {
                assert(trim_spec(s)[j] == s[lo + j]);
            }
        }
    }

    if w.len() == 0 {
        return None;
    }
    let len = w.len();
    let mut k: usize = 0;
    while k < len
        invariant
            len == w@.len(),
            0 <= k <= len,
            w@ == lower_spec(trim_spec(word@)),
            w@.len() > 0,
            forall|j: int| 0 <= j < k ==> is_lower_alpha(#[trigger] w@[j]),
        decreases len - k,
    {
        if !char_is_lower_alpha(w[k]) {
            return None;
        }
        k += 1;
    }
    Some(w)
}

} // verus!
