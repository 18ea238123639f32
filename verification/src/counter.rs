//! The counting engine.
//!
//! `Counter` owns an immutable dictionary of known words and a growable
//! memoization cache.  A query normalizes its input, consults the
//! dictionary, then the cache, and only on a double miss runs the
//! vowel-cluster heuristic, remembering the result.

use vstd::prelude::*;

use crate::heuristic::{get_syllable_count, heuristic_count};
use crate::lookup::{entries_view, find_entry, lemma_lookup_found, lemma_lookup_none, lookup};
use crate::text::{normalize, normalize_spec, valid_word};

verus! {

/// The compiled-in dictionary: curated syllable counts for words the
/// heuristic gets wrong.
pub open spec fn builtin_dictionary() -> Seq<(Seq<char>, usize)> {
    seq![
        ("ohio"@, 3usize),
        ("area"@, 3usize),
        ("idea"@, 3usize),
        ("poem"@, 2usize),
        ("lion"@, 2usize),
        ("every"@, 2usize),
        ("being"@, 2usize),
        ("quiet"@, 2usize),
        ("royal"@, 2usize),
        ("create"@, 2usize),
        ("science"@, 2usize),
        ("business"@, 2usize),
    ]
}

/// A well-formed dictionary: canonical words, positive counts, no word
/// listed twice.
pub open spec fn dictionary_wf(dict: Seq<(Seq<char>, usize)>) -> bool {
    &&& forall|i: int| 0 <= i < dict.len() ==> valid_word((#[trigger] dict[i]).0)
    &&& forall|i: int| 0 <= i < dict.len() ==> (#[trigger] dict[i]).1 >= 1
    &&& forall|i: int, j: int|
        0 <= i < j < dict.len() ==> (#[trigger] dict[i]).0 != (#[trigger] dict[j]).0
}

/// A well-formed cache for a given dictionary: canonical words the
/// dictionary does not know, each carrying exactly the heuristic estimate,
/// no word cached twice.
pub open spec fn cache_wf(dict: Seq<(Seq<char>, usize)>, cache: Seq<(Seq<char>, usize)>) -> bool {
    &&& forall|i: int| 0 <= i < cache.len() ==> valid_word((#[trigger] cache[i]).0)
    &&& forall|i: int|
        0 <= i < cache.len() ==> (#[trigger] cache[i]).1 as int == heuristic_count(cache[i].0)
    &&& forall|i: int| 0 <= i < cache.len() ==> lookup(dict, (#[trigger] cache[i]).0) is None
    &&& forall|i: int, j: int|
        0 <= i < j < cache.len() ==> (#[trigger] cache[i]).0 != (#[trigger] cache[j]).0
}

/// What a query returns, as a function of the dictionary and the raw input
/// alone: `0` for input that does not normalize to a word, the dictionary
/// count on a dictionary hit, and the heuristic estimate otherwise.
pub open spec fn count_spec(dict: Seq<(Seq<char>, usize)>, s: Seq<char>) -> int {
    match normalize_spec(s) {
        Option::None => 0,
        Option::Some(w) => match lookup(dict, w) {
            Option::Some(c) => c as int,
            Option::None => heuristic_count(w),
        },
    }
}

/// The builtin dictionary is well formed: any two of its words differ in
/// length or in their first character.
pub proof fn lemma_builtin_dictionary_wf()
    ensures
        dictionary_wf(builtin_dictionary()),
{
    reveal_strlit("ohio");
    reveal_strlit("area");
    reveal_strlit("idea");
    reveal_strlit("poem");
    reveal_strlit("lion");
    reveal_strlit("every");
    reveal_strlit("being");
    reveal_strlit("quiet");
    reveal_strlit("royal");
    reveal_strlit("create");
    reveal_strlit("science");
    reveal_strlit("business");
    assert(valid_word("ohio"@));
    assert(valid_word("area"@));
    assert(valid_word("idea"@));
    assert(valid_word("poem"@));
    assert(valid_word("lion"@));
    assert(valid_word("every"@));
    assert(valid_word("being"@));
    assert(valid_word("quiet"@));
    assert(valid_word("royal"@));
    assert(valid_word("create"@));
    assert(valid_word("science"@));
    assert(valid_word("business"@));
    let dict = builtin_dictionary();
    assert forall|i: int, j: int| 0 <= i < j < dict.len() implies (#[trigger] dict[i]).0 != (
    #[trigger] dict[j]).0 by {
        if dict[i].0.len() == dict[j].0.len() {
            assert(dict[i].0[0] != dict[j].0[0]);
        }
    }
}

/// The syllable-counting engine: an immutable dictionary tier over a
/// growable memoization cache.
pub struct Counter {
    dictionary: Vec<(Vec<char>, usize)>,
    cache: Vec<(Vec<char>, usize)>,
}

/// Appends one dictionary entry built from a string literal.
fn push_word(table: &mut Vec<(Vec<char>, usize)>, word: &str, count: usize)
    ensures
        entries_view(final(table)@) == entries_view(old(table)@).push((word@, count)),
{
    let chars = crate::text::str_chars(word);
    table.push((chars, count));
    proof {
        assert(entries_view(table@) =~= entries_view(old(table)@).push((word@, count)));
    }
}

impl Counter {
    /// The dictionary tier, as word/count pairs in insertion order.
    pub closed spec fn dict(self) -> Seq<(Seq<char>, usize)> {
        entries_view(self.dictionary@)
    }

    /// The memoization cache, as word/count pairs in insertion order.
    pub closed spec fn cached(self) -> Seq<(Seq<char>, usize)> {
        entries_view(self.cache@)
    }

    /// The engine invariant: both tiers are well formed, and every cached
    /// word is outside the dictionary and carries its heuristic estimate.
    pub open spec fn wf(self) -> bool {
        &&& dictionary_wf(self.dict())
        &&& cache_wf(self.dict(), self.cached())
    }

    /// Builds an engine over the compiled-in dictionary, with an empty
    /// cache.
    pub fn new() -> (r: Counter)
        ensures
            r.wf(),
            r.dict() == builtin_dictionary(),
            r.cached() == Seq::<(Seq<char>, usize)>::empty(),
    {
        let mut dictionary: Vec<(Vec<char>, usize)> = Vec::new();
        proof {
            assert(entries_view(dictionary@) =~= Seq::<(Seq<char>, usize)>::empty());
        }
        push_word(&mut dictionary, "ohio", 3);
        push_word(&mut dictionary, "area", 3);
        push_word(&mut dictionary, "idea", 3);
        push_word(&mut dictionary, "poem", 2);
        push_word(&mut dictionary, "lion", 2);
        push_word(&mut dictionary, "every", 2);
        push_word(&mut dictionary, "being", 2);
        push_word(&mut dictionary, "quiet", 2);
        push_word(&mut dictionary, "royal", 2);
        push_word(&mut dictionary, "create", 2);
        push_word(&mut dictionary, "science", 2);
        push_word(&mut dictionary, "business", 2);
        let cache: Vec<(Vec<char>, usize)> = Vec::new();
        let r = Counter { dictionary, cache };
        proof {
            assert(r.dict() =~= builtin_dictionary());
            assert(r.cached() =~= Seq::<(Seq<char>, usize)>::empty());
            lemma_builtin_dictionary_wf();
        }
        r
    }

    /// Looks a canonical word up in the dictionary, then — only on a
    /// dictionary miss — in the cache.
    fn cached_count(&self, w: &Vec<char>) -> (r: Option<usize>)
        ensures
            r == (if lookup(self.dict(), w@) is Some {
                lookup(self.dict(), w@)
            } else {
                lookup(self.cached(), w@)
            }),
    {
        match find_entry(&self.dictionary, w) {
            Option::Some(c) => Option::Some(c),
            Option::None => find_entry(&self.cache, w),
        }
    }

    /// Counts the syllables of `word`.
    ///
    /// Returns `0` exactly when the input does not normalize to a word;
    /// otherwise the dictionary count on a hit, and the heuristic estimate
    /// on a miss.  The result depends only on the dictionary and the input,
    /// never on the cache, so identical inputs always yield identical
    /// results, across calls and across engines sharing one dictionary.
    pub fn count(&mut self, word: &str) -> (r: usize)
        requires
            old(self).wf(),
        ensures
            final(self).wf(),
            final(self).dict() == old(self).dict(),
            old(self).cached().is_prefix_of(final(self).cached()),
            r as int == count_spec(old(self).dict(), word@),
    {
        let normalized = normalize(word);
        match normalized {
            Option::None => 0,
            Option::Some(w) => {
                match self.cached_count(&w) {
                    Option::Some(c) => {
                        proof {
                            if lookup(self.dict(), w@) is None {
                                lemma_lookup_found(self.cached(), w@);
                                let i = choose|i: int|
                                    0 <= i < self.cached().len() && #[trigger] self.cached()[i]
                                        == (w@, c);
                                assert(self.cached()[i].1 as int == heuristic_count(
                                    self.cached()[i].0,
                                ));
                            }
                        }
                        c
                    },
                    Option::None => {
                        let c = get_syllable_count(&w);
                        proof {
                            lemma_lookup_none(self.cached(), w@);
                        }
                        let ghost prior = self.cached();
                        self.cache.push((w, c));
                        proof {
                            assert(self.cached() =~= prior.push((w@, c)));
                            assert(prior.is_prefix_of(self.cached())) by {
                                assert(self.cached().subrange(0, prior.len() as int) =~= prior);
                            }
                            assert forall|i: int, j: int|
                                0 <= i < j < self.cached().len() implies (
                            #[trigger] self.cached()[i]).0 != (#[trigger] self.cached()[j]).0 by {
                                if j < prior.len() {
                                    assert(prior[i] == self.cached()[i]);
                                    assert(prior[j] == self.cached()[j]);
                                } else {
                                    assert(prior[i] == self.cached()[i]);
                                    assert(prior[i].0 != w@);
                                }
                            }
                        }
                        c
                    },
                }
            },
        }
    }
}

impl Default for Counter {
    /// Equivalent to explicit construction through `new`.
    fn default() -> (r: Counter)
        ensures
            r.wf(),
            r.dict() == builtin_dictionary(),
            r.cached() == Seq::<(Seq<char>, usize)>::empty(),
    {
        Counter::new()
    }
}

} // verus!
