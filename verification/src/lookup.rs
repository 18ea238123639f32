//! Word-to-count tables.
//!
//! Both the dictionary and the memoization cache are association lists of
//! `(word, count)` entries, looked up by first match from the front.

use vstd::prelude::*;

verus! {

/// The mathematical contents of an entry table: each stored word as a
/// character sequence, with its count.
pub open spec fn entries_view(v: Seq<(Vec<char>, usize)>) -> Seq<(Seq<char>, usize)> {
    v.map_values(|e: (Vec<char>, usize)| (e.0@, e.1))
}

/// First-match lookup of `w` in an entry table.
pub open spec fn lookup(entries: Seq<(Seq<char>, usize)>, w: Seq<char>) -> Option<usize>
    decreases entries.len(),
{
    if entries.len() == 0 {
        None
    } else if entries[0].0 == w {
        Some(entries[0].1)
    } else {
        lookup(entries.drop_first(), w)
    }
}

/// A successful lookup returns the value of some entry whose word is `w`.
pub proof fn lemma_lookup_found(entries: Seq<(Seq<char>, usize)>, w: Seq<char>)
    requires
        lookup(entries, w) is Some,
    ensures
        exists|i: int|
            0 <= i < entries.len() && #[trigger] entries[i] == (w, lookup(entries, w)->0),
    decreases entries.len(),
{
    if entries.len() > 0 {
        if entries[0].0 == w {
            assert(entries[0] == (w, lookup(entries, w)->0));
        } else {
            lemma_lookup_found(entries.drop_first(), w);
            let i = choose|i: int|
                0 <= i < entries.drop_first().len() && #[trigger] entries.drop_first()[i] == (
                w,
                lookup(entries.drop_first(), w)->0,
                );
            assert(entries[i + 1] == (w, lookup(entries, w)->0));
        }
    }
}

/// A failed lookup means no entry stores the word `w`.
pub proof fn lemma_lookup_none(entries: Seq<(Seq<char>, usize)>, w: Seq<char>)
    requires
        lookup(entries, w) is None,
    ensures
        forall|i: int| 0 <= i < entries.len() ==> (#[trigger] entries[i]).0 != w,
    decreases entries.len(),
{
    if entries.len() > 0 {
        lemma_lookup_none(entries.drop_first(), w);
        assert forall|i: int| 0 <= i < entries.len() implies (#[trigger] entries[i]).0 != w by {
            if i > 0 {
                assert(entries.drop_first()[i - 1] == entries[i]);
            }
        }
    }
}

/// Dropping a non-matching front entry leaves the lookup result unchanged.
proof fn lemma_lookup_step(entries: Seq<(Seq<char>, usize)>, w: Seq<char>, i: int)
    requires
        0 <= i < entries.len(),
        entries[i].0 != w,
    ensures
        lookup(entries.skip(i), w) == lookup(entries.skip(i + 1), w),
{
    assert(entries.skip(i).len() > 0);
    assert(entries.skip(i)[0] == entries[i]);
    assert(entries.skip(i).drop_first() =~= entries.skip(i + 1));
}

/// Character-by-character equality of two stored words.
fn chars_eq(a: &Vec<char>, b: &Vec<char>) -> (r: bool)
    ensures
        r == (a@ == b@),
{
    if a.len() != b.len() {
        return false;
    }
    let n = a.len();
    let mut i: usize = 0;
    while i < n
        invariant
            n == a@.len() == b@.len(),
            0 <= i <= n,
            forall|j: int| 0 <= j < i ==> a@[j] == b@[j],
        decreases n - i,
    {
        if a[i] != b[i] {
            return false;
        }
        i += 1;
    }
    proof {
        assert(a@ =~= b@);
    }
    true
}

/// Finds the first entry for `w` in the table, returning its count.
pub(crate) fn find_entry(entries: &Vec<(Vec<char>, usize)>, w: &Vec<char>) -> (r: Option<usize>)
    ensures
        r == lookup(entries_view(entries@), w@),
{
    let ghost table = entries_view(entries@);
    let n = entries.len();
    proof {
        assert(table.skip(0) =~= table);
    }
    let mut i: usize = 0;
    while i < n
        invariant
            n == entries@.len(),
            table == entries_view(entries@),
            0 <= i <= n,
            lookup(table, w@) == lookup(table.skip(i as int), w@),
        decreases n - i,
    {
        if chars_eq(&entries[i].0, w) {
            proof {
                assert(table.skip(i as int)[0] == table[i as int]);
                assert(table[i as int].0 == w@);
            }
            return Some(entries[i].1);
        }
        proof {
            lemma_lookup_step(table, w@, i as int);
        }
        i += 1;
    }
    proof {
        assert(table.skip(n as int) =~= Seq::<(Seq<char>, usize)>::empty());
    }
    None
}

} // verus!
