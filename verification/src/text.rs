//! Text as sequences of characters: searching for a substring and taking a
//! string apart into its characters.

use vstd::prelude::*;

verus! {

/// Whether `pat` occurs in `s` as a contiguous run of characters.
pub open spec fn has_substring(s: Seq<char>, pat: Seq<char>) -> bool {
    exists|i: int| is_occurrence(s, pat, i)
}

/// Whether `pat` occurs in `s` starting at position `i`.
pub open spec fn is_occurrence(s: Seq<char>, pat: Seq<char>, i: int) -> bool {
    &&& 0 <= i
    &&& i + pat.len() <= s.len()
    &&& s.subrange(i, i + pat.len()) == pat
}

/// The texts of a sequence of strings.
pub open spec fn texts(strings: Seq<String>) -> Seq<Seq<char>> {
    strings.map_values(|s: String| s@)
}

/// The text of a string that may be absent.
pub open spec fn opt_text(s: Option<&str>) -> Option<Seq<char>> {
    match s {
        Some(s) => Some(s@),
        None => None,
    }
}

/// The parts written one after the other with a single space between each
/// two neighbours; the empty text for no parts.
pub open spec fn join_spaced(parts: Seq<Seq<char>>) -> Seq<char>
    decreases parts.len(),
{
    if parts.len() == 0 {
        Seq::empty()
    } else if parts.len() == 1 {
        parts[0]
    } else {
        join_spaced(parts.drop_last()) + seq![' '] + parts.last()
    }
}

/// Joins the parts with single spaces. A part that itself holds a space is
/// written as it is.
pub fn join_with_spaces(parts: &[String]) -> (joined: String)
    ensures
        joined@ == join_spaced(texts(parts@)),
{
    let mut joined = String::new();
    let mut i: usize = 0;
    while i < parts.len()
        invariant
            i <= parts.len(),
            joined@ == join_spaced(texts(parts@).take(i as int)),
        decreases parts.len() - i,
    {
        let ghost before = texts(parts@).take(i as int);
        let ghost after = texts(parts@).take(i + 1);
        assert(after.drop_last() =~= before);
        assert(after.last() == parts@[i as int]@);
        if i > 0 {
            joined.append(" ");
            proof {
                reveal_strlit(" ");
                assert(" "@ =~= seq![' ']);
            }
        }
        joined.append(parts[i].as_str());
        i += 1;
    }
    assert(texts(parts@).take(parts.len() as int) =~= texts(parts@));
    joined
}

/// Appends copies of `from[start..end]` to `into`.
pub(crate) fn push_copies(into: &mut Vec<String>, from: &[String], start: usize, end: usize)
    requires
        start <= end <= from.len(),
    ensures
        texts(final(into)@) == texts(old(into)@) + texts(from@).subrange(start as int, end as int),
{
    let mut i: usize = start;
    while i < end
        invariant
            start <= i <= end <= from.len(),
            texts(into@) == texts(old(into)@) + texts(from@).subrange(start as int, i as int),
        decreases end - i,
    {
        let ghost before = texts(into@);
        into.push(from[i].clone());
        assert(texts(into@) =~= before.push(from@[i as int]@));
        assert(texts(from@).subrange(start as int, i + 1) =~= texts(from@).subrange(
            start as int,
            i as int,
        ).push(from@[i as int]@));
        i += 1;
    }
}

/// The characters of `s`, in order.
pub fn chars_of(s: &str) -> (v: Vec<char>)
    ensures
        v@ == s@,
{
    let mut v: Vec<char> = Vec::new();
    let mut it = s.chars();
    for c in iter: it
        invariant
            v@ == iter.seq().take(iter.index()),
    {
        v.push(c);
    }
    v
}

/// Whether `word` stands in `text` at position `at`.
fn matches_at(text: &Vec<char>, word: &Vec<char>, at: usize) -> (same: bool)
    requires
        at + word.len() <= text.len(),
    ensures
        same == is_occurrence(text@, word@, at as int),
{
    let mut k: usize = 0;
    while k < word.len()
        invariant
            at + word.len() <= text.len(),
            k <= word.len(),
            forall|j: int| 0 <= j < k ==> text@[at + j] == word@[j],
        decreases word.len() - k,
    {
        if text[at + k] != word[k] {
            assert(text@.subrange(at as int, at + word.len())[k as int] != word@[k as int]);
            return false;
        }
        k += 1;
    }
    assert(text@.subrange(at as int, at + word.len()) =~= word@);
    true
}

/// Whether `word` occurs in `text`, both given as characters.
pub fn contains_chars(text: &Vec<char>, word: &Vec<char>) -> (found: bool)
    ensures
        found == has_substring(text@, word@),
{
    if word.len() > text.len() {
        return false;
    }
    let last: usize = text.len() - word.len();
    let mut i: usize = 0;
    loop
        invariant
            word.len() <= text.len(),
            last == text.len() - word.len(),
            i <= last,
            forall|j: int| 0 <= j < i ==> !is_occurrence(text@, word@, j),
        decreases last - i,
    {
        if matches_at(text, word, i) {
            return true;
        }
        if i == last {
            return false;
        }
        i += 1;
    }
}

} // verus!
