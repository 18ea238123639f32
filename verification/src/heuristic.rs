//! The vowel-cluster heuristic.
//!
//! For a word absent from the dictionary the syllable count is estimated by
//! counting vowel clusters (maximal runs of vowels each count once), then
//! subtracting one for a silent trailing `e`, restoring one for a trailing
//! `-le` that follows a consonant, and finally clamping to a minimum of one.

use vstd::prelude::*;

verus! {

/// The vowels of the heuristic; `y` counts as a vowel.
pub open spec fn is_vowel(c: char) -> bool {
    c == 'a' || c == 'e' || c == 'i' || c == 'o' || c == 'u' || c == 'y'
}

/// Position `i` starts a vowel cluster: it holds a vowel that is either at
/// the front of the word or right after a non-vowel.
pub open spec fn cluster_start(w: Seq<char>, i: int) -> bool
    recommends
        0 <= i < w.len(),
{
    is_vowel(w[i]) && (i == 0 || !is_vowel(w[i - 1]))
}

/// How many positions in `w[0..n]` start a vowel cluster.
pub open spec fn cluster_starts_upto(w: Seq<char>, n: int) -> int
    decreases n,
{
    if n <= 0 {
        0
    } else {
        cluster_starts_upto(w, n - 1) + if cluster_start(w, n - 1) {
            1int
        } else {
            0int
        }
    }
}

/// The word ends in `-le` preceded by a consonant, so the trailing `le`
/// forms a syllable of its own (as in `table` or `little`).
pub open spec fn ends_le_after_consonant(w: Seq<char>) -> bool {
    &&& w.len() > 2
    &&& w[w.len() - 1] == 'e'
    &&& w[w.len() - 2] == 'l'
    &&& !is_vowel(w[w.len() - 3])
}

/// The heuristic estimate for a non-empty word: vowel-cluster count, minus
/// one for a trailing `e`, plus one for a consonant-`le` ending, clamped to
/// at least one.
pub open spec fn heuristic_count(w: Seq<char>) -> int
    recommends
        w.len() >= 1,
{
    let clusters = cluster_starts_upto(w, w.len() as int);
    let after_e = if w.len() >= 1 && w[w.len() - 1] == 'e' {
        clusters - 1
    } else {
        clusters
    };
    let restored = if ends_le_after_consonant(w) {
        after_e + 1
    } else {
        after_e
    };
    if restored < 1 {
        1
    } else {
        restored
    }
}

/// Cluster starts are counted one position at a time, so the count over a
/// prefix is at least zero and at most the prefix length.
pub proof fn lemma_cluster_starts_bounds(w: Seq<char>, n: int)
    ensures
        0 <= cluster_starts_upto(w, n),
        n >= 0 ==> cluster_starts_upto(w, n) <= n,
    decreases n,
{
    if n > 0 {
        lemma_cluster_starts_bounds(w, n - 1);
    }
}

/// A vowel anywhere in `w[0..n]` guarantees at least one cluster start:
/// the earliest vowel at or before it has a non-vowel (or nothing) on its
/// left.
pub proof fn lemma_vowel_gives_cluster(w: Seq<char>, i: int, n: int)
    requires
        0 <= i < n,
        i < w.len(),
        is_vowel(w[i]),
    ensures
        cluster_starts_upto(w, n) >= 1,
    decreases n,
{
    lemma_cluster_starts_bounds(w, n - 1);
    if i == n - 1 {
        if cluster_start(w, n - 1) {
        } else {
            lemma_vowel_gives_cluster(w, i - 1, n - 1);
        }
    } else {
        lemma_vowel_gives_cluster(w, i, n - 1);
    }
}

fn char_is_vowel(c: char) -> (r: bool)
    ensures
        r == is_vowel(c),
{
    c == 'a' || c == 'e' || c == 'i' || c == 'o' || c == 'u' || c == 'y'
}

/// Estimates the syllable count of a non-empty word by the vowel-cluster
/// heuristic.  The estimate is at least one and never exceeds the length of
/// the word.
pub(crate) fn get_syllable_count(w: &Vec<char>) -> (r: usize)
    requires
        w@.len() >= 1,
    ensures
        r as int == heuristic_count(w@),
        1 <= r <= w@.len(),
{
    let n = w.len();
    let mut count: usize = 0;
    if char_is_vowel(w[0]) {
        count = 1;
    }
    proof {
        assert(cluster_starts_upto(w@, 0) == 0);
        assert(cluster_start(w@, 0) == is_vowel(w@[0]));
    }
    let mut i: usize = 1;
    while i < n
        invariant
            n == w@.len(),
            1 <= i <= n,
            count as int == cluster_starts_upto(w@, i as int),
            count <= i,
        decreases n - i,
    {
        if char_is_vowel(w[i]) && !char_is_vowel(w[i - 1]) {
            count += 1;
        }
        i += 1;
    }
    assert(count as int == cluster_starts_upto(w@, n as int));

    if w[n - 1] == 'e' {
        proof {
            lemma_vowel_gives_cluster(w@, n as int - 1, n as int);
        }
        count -= 1;
    }
    if n > 2 && w[n - 1] == 'e' && w[n - 2] == 'l' && !char_is_vowel(w[n - 3]) {
        count += 1;
    }
    if count == 0 {
        count = 1;
    }
    count
}

} // verus!
