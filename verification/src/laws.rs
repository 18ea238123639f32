//! The guarantees of the counting engine, stated over `count_spec` — the
//! function of the dictionary and the raw input that `Counter::count`
//! returns.

use vstd::prelude::*;

use crate::counter::{count_spec, dictionary_wf};
use crate::lookup::{lemma_lookup_found, lookup};
use crate::text::{
    is_ascii_digit, is_ascii_punct, is_lower_alpha, lemma_normalize_lower, lemma_trim_end_push,
    lemma_trim_keeps, lemma_trim_start_push, lemma_trim_start_unshift, lower_spec, normalize_spec,
    to_lower_char, trim_spec, trim_start_spec, valid_word,
};

verus! {

/// Totality: for a well-formed dictionary the count of any string at all is
/// defined and non-negative.
pub proof fn lemma_count_total(dict: Seq<(Seq<char>, usize)>, s: Seq<char>)
    requires
        dictionary_wf(dict),
    ensures
        count_spec(dict, s) >= 0,
{
    lemma_count_at_least_one(dict, s);
}

/// Minimum one: a string that normalizes to a word counts as at least one
/// syllable, so `0` unambiguously signals rejected input.
pub proof fn lemma_count_at_least_one(dict: Seq<(Seq<char>, usize)>, s: Seq<char>)
    requires
        dictionary_wf(dict),
    ensures
        normalize_spec(s) is Some ==> count_spec(dict, s) >= 1,
{
    if normalize_spec(s) is Some {
        let w = normalize_spec(s)->0;
        if lookup(dict, w) is Some {
            lemma_lookup_found(dict, w);
        }
    }
}

/// Sentinel correctness: a string with an ASCII digit anywhere in it never
/// normalizes — digits are not trimmed and do not lowercase away — so it
/// counts as `0`.
pub proof fn lemma_digit_rejected(dict: Seq<(Seq<char>, usize)>, s: Seq<char>, i: int)
    requires
        0 <= i < s.len(),
        is_ascii_digit(s[i]),
    ensures
        count_spec(dict, s) == 0,
{
    assert(!is_ascii_punct(s[i]));
    lemma_trim_keeps(s, i);
    let j = choose|j: int| 0 <= j < trim_spec(s).len() && #[trigger] trim_spec(s)[j] == s[i];
    assert(lower_spec(trim_spec(s))[j] == to_lower_char(s[i]));
    assert(!is_lower_alpha(to_lower_char(s[i])));
    assert(!valid_word(lower_spec(trim_spec(s))));
}

/// Punctuation trimming, trailing: appending an ASCII punctuation mark to
/// the raw input never changes the count.
pub proof fn lemma_trailing_punct_ignored(dict: Seq<(Seq<char>, usize)>, s: Seq<char>, p: char)
    requires
        is_ascii_punct(p),
    ensures
        count_spec(dict, s.push(p)) == count_spec(dict, s),
{
    lemma_trim_start_push(s, p);
    if trim_start_spec(s).len() == 0 {
        assert(trim_spec(s.push(p)) == Seq::<char>::empty());
        assert(trim_spec(s) == Seq::<char>::empty());
        assert(lower_spec(Seq::<char>::empty()).len() == 0);
    } else {
        lemma_trim_end_push(trim_start_spec(s), p);
        assert(trim_spec(s.push(p)) == trim_spec(s));
    }
}

/// Punctuation trimming, leading: prepending an ASCII punctuation mark to
/// the raw input never changes the count.
pub proof fn lemma_leading_punct_ignored(dict: Seq<(Seq<char>, usize)>, s: Seq<char>, p: char)
    requires
        is_ascii_punct(p),
    ensures
        count_spec(dict, seq![p] + s) == count_spec(dict, s),
{
    lemma_trim_start_unshift(s, p);
}

/// Punctuation trimming: a whole run of trailing ASCII punctuation is
/// ignored.
pub proof fn lemma_trailing_punct_run_ignored(
    dict: Seq<(Seq<char>, usize)>,
    s: Seq<char>,
    q: Seq<char>,
)
    requires
        forall|i: int| 0 <= i < q.len() ==> is_ascii_punct(#[trigger] q[i]),
    ensures
        count_spec(dict, s + q) == count_spec(dict, s),
    decreases q.len(),
{
    if q.len() == 0 {
        assert(s + q =~= s);
    } else {
        assert(s + q =~= (s + q.drop_last()).push(q.last()));
        lemma_trailing_punct_run_ignored(dict, s, q.drop_last());
        lemma_trailing_punct_ignored(dict, s + q.drop_last(), q.last());
    }
}

/// Punctuation trimming: a whole run of leading ASCII punctuation is
/// ignored.
pub proof fn lemma_leading_punct_run_ignored(
    dict: Seq<(Seq<char>, usize)>,
    q: Seq<char>,
    s: Seq<char>,
)
    requires
        forall|i: int| 0 <= i < q.len() ==> is_ascii_punct(#[trigger] q[i]),
    ensures
        count_spec(dict, q + s) == count_spec(dict, s),
    decreases q.len(),
{
    if q.len() > 0 {
        assert(q + s =~= seq![q.first()] + (q.drop_first() + s));
        lemma_leading_punct_run_ignored(dict, q.drop_first(), s);
        lemma_leading_punct_ignored(dict, q.drop_first() + s, q.first());
    }
}

/// Case insensitivity: lowercasing the raw input first never changes the
/// count.
pub proof fn lemma_case_insensitive(dict: Seq<(Seq<char>, usize)>, s: Seq<char>)
    ensures
        count_spec(dict, lower_spec(s)) == count_spec(dict, s),
{
    lemma_normalize_lower(s);
}

/// Dictionary precedence: when the normalized word is in the dictionary
/// with count `k`, the count is `k`, whatever the heuristic would say.
pub proof fn lemma_dictionary_precedence(
    dict: Seq<(Seq<char>, usize)>,
    s: Seq<char>,
    w: Seq<char>,
    k: usize,
)
    requires
        normalize_spec(s) == Some(w),
        lookup(dict, w) == Some(k),
    ensures
        count_spec(dict, s) == k,
{
}

} // verus!
