//! Character-level helpers on text: copying, comparing, and finding the
//! first occurrence of one text in another.

use vstd::prelude::*;
use vstd::string::StringSliceAdditionalSpecFns;

verus! {

/// `pattern` stands in `text` at index `at`.
pub open spec fn occurs_at(text: Seq<char>, pattern: Seq<char>, at: int) -> bool {
    &&& 0 <= at
    &&& at + pattern.len() <= text.len()
    &&& text.subrange(at, at + pattern.len()) == pattern
}

/// `pattern` stands nowhere in `text`.
pub open spec fn is_absent(text: Seq<char>, pattern: Seq<char>) -> bool {
    forall|at: int| !occurs_at(text, pattern, at)
}

/// `pattern` stands in `text` at index `at`, and at no smaller index.
pub open spec fn is_first_occurrence(text: Seq<char>, pattern: Seq<char>, at: int) -> bool {
    &&& occurs_at(text, pattern, at)
    &&& forall|k: int| 0 <= k < at ==> !occurs_at(text, pattern, k)
}

/// The smallest index at which `pattern` stands in `text`, if it stands there at all.
pub open spec fn first_occurrence(text: Seq<char>, pattern: Seq<char>) -> Option<int> {
    if exists|at: int| occurs_at(text, pattern, at) {
        Some(choose|at: int| is_first_occurrence(text, pattern, at))
    } else {
        None
    }
}

/// A first occurrence is the first occurrence: `first_occurrence` returns it.
pub proof fn lemma_first_occurrence_is(text: Seq<char>, pattern: Seq<char>, at: int)
    requires
        is_first_occurrence(text, pattern, at),
    ensures
        first_occurrence(text, pattern) == Some(at),
{
    let chosen = choose|k: int| is_first_occurrence(text, pattern, k);
    assert(is_first_occurrence(text, pattern, chosen));
    if chosen < at {
        assert(!occurs_at(text, pattern, chosen));
    }
    if at < chosen {
        assert(!occurs_at(text, pattern, at));
    }
}

/// Where `first_occurrence` returns an index, the pattern stands there and
/// nowhere before; where it returns none, the pattern stands nowhere.
pub proof fn lemma_first_occurrence_found(text: Seq<char>, pattern: Seq<char>)
    ensures
        match first_occurrence(text, pattern) {
            Some(at) => is_first_occurrence(text, pattern, at),
            None => is_absent(text, pattern),
        },
{
    if exists|at: int| occurs_at(text, pattern, at) {
        let some = choose|at: int| occurs_at(text, pattern, at);
        lemma_least_occurrence(text, pattern, some);
    }
}

/// Wherever the pattern occurs, it has a first occurrence, at or before that place.
proof fn lemma_least_occurrence(text: Seq<char>, pattern: Seq<char>, at: int)
    requires
        occurs_at(text, pattern, at),
    ensures
        exists|first: int| 0 <= first <= at && is_first_occurrence(text, pattern, first),
    decreases at,
{
    if exists|k: int| 0 <= k < at && occurs_at(text, pattern, k) {
        let k = choose|k: int| 0 <= k < at && occurs_at(text, pattern, k);
        lemma_least_occurrence(text, pattern, k);
    } else {
        assert(is_first_occurrence(text, pattern, at));
    }
}

/// An occurrence in what follows the first `start` characters is an
/// occurrence in the whole text, `start` places further on.
pub proof fn lemma_occurs_after(text: Seq<char>, pattern: Seq<char>, start: int, at: int)
    requires
        0 <= start <= text.len(),
        0 <= at,
    ensures
        occurs_at(text.skip(start), pattern, at) == occurs_at(text, pattern, start + at),
{
    if at + pattern.len() <= text.len() - start {
        assert(text.skip(start).subrange(at, at + pattern.len()) =~= text.subrange(
            start + at,
            start + at + pattern.len(),
        ));
    }
}

/// Copies the characters of `text` into a vector, in order.
pub fn to_chars(text: &str) -> (r: Vec<char>)
    ensures
        r@ == text@,
{
    let mut out: Vec<char> = Vec::new();
    let chars = text.chars();
    for c in it: chars
        invariant
            out@ == text@.take(it.index() as int),
            it.seq() == text@,
    {
        out.push(c);
    }
    out
}

/// Tells whether two texts hold the same characters.
pub fn same_text(a: &str, b: &str) -> (r: bool)
    ensures
        r == (a@ == b@),
{
    let x = a.as_bytes();
    let y = b.as_bytes();
    if x.len() != y.len() {
        return false;
    }
    let mut i: usize = 0;
    while i < x.len()
        invariant
            i <= x.len(),
            x.len() == y.len(),
            x@ == a.spec_bytes(),
            y@ == b.spec_bytes(),
            forall|k: int| 0 <= k < i ==> x@[k] == y@[k],
        decreases x.len() - i,
    {
        if x[i] != y[i] {
            return false;
        }
        i += 1;
    }
    proof {
        // Equal encodings decode to equal texts.
        assert(x@ =~= y@);
        vstd::utf8::encode_utf8_decode_utf8(a@);
        vstd::utf8::encode_utf8_decode_utf8(b@);
    }
    true
}

/// Tells whether `pattern` stands in `text` at index `at`.
pub fn matches_at(text: &Vec<char>, pattern: &Vec<char>, at: usize) -> (r: bool)
    ensures
        r == occurs_at(text@, pattern@, at as int),
{
    if at > text.len() || pattern.len() > text.len() - at {
        return false;
    }
    let mut i: usize = 0;
    while i < pattern.len()
        invariant
            i <= pattern.len(),
            at + pattern.len() <= text.len(),
            forall|k: int| 0 <= k < i ==> text@[at + k] == pattern@[k],
        decreases pattern.len() - i,
    {
        if text[at + i] != pattern[i] {
            proof {
                let window = text@.subrange(at as int, at + pattern.len());
                assert(window[i as int] == text@[at + i]);
            }
            return false;
        }
        i += 1;
    }
    proof {
        assert(text@.subrange(at as int, at + pattern.len()) =~= pattern@);
    }
    true
}

/// Finds the first occurrence of `pattern` in what follows the first `start`
/// characters of `text`. The index returned counts from the start of `text`.
pub fn find_after(text: &Vec<char>, pattern: &Vec<char>, start: usize) -> (r: Option<usize>)
    ensures
        start > text.len() ==> r is None,
        start <= text.len() ==> match first_occurrence(text@.skip(start as int), pattern@) {
            Some(at) => r == Some((start + at) as usize),
            None => r is None,
        },
{
    if start > text.len() {
        return None;
    }
    let ghost rest = text@.skip(start as int);
    if pattern.len() > text.len() - start {
        proof {
            lemma_first_occurrence_found(rest, pattern@);
        }
        return None;
    }
    let last: usize = text.len() - pattern.len();
    let mut at: usize = start;
    loop
        invariant
            start <= at <= last,
            last == text.len() - pattern.len(),
            rest == text@.skip(start as int),
            forall|k: int| 0 <= k < at - start ==> !occurs_at(rest, pattern@, k),
        decreases last - at,
    {
        proof {
            lemma_occurs_after(text@, pattern@, start as int, at - start);
        }
        if matches_at(text, pattern, at) {
            proof {
                lemma_first_occurrence_is(rest, pattern@, at - start);
            }
            return Some(at);
        }
        if at == last {
            proof {
                lemma_first_occurrence_found(rest, pattern@);
            }
            return None;
        }
        at += 1;
    }
}

} // verus!
