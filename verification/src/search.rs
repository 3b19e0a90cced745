//! Searching a byte string for another, and replacing what was found.

use vstd::prelude::*;

verus! {

/// `needle` stands in `haystack` at offset `i`.
pub open spec fn occurs_at(haystack: Seq<u8>, needle: Seq<u8>, i: int) -> bool {
    &&& 0 <= i
    &&& i + needle.len() <= haystack.len()
    &&& haystack.subrange(i, i + needle.len()) == needle
}

/// `needle` stands somewhere in `haystack` as a run of neighbouring bytes.
pub open spec fn contains(haystack: Seq<u8>, needle: Seq<u8>) -> bool {
    exists|i: int| occurs_at(haystack, needle, i)
}

/// `i` is the leftmost offset at which `needle` stands in `haystack`.
pub open spec fn is_first_occurrence(haystack: Seq<u8>, needle: Seq<u8>, i: int) -> bool {
    &&& occurs_at(haystack, needle, i)
    &&& forall|j: int| 0 <= j < i ==> !occurs_at(haystack, needle, j)
}

/// Whether the bytes of `haystack` from `start` on begin with `needle`.
fn matches_at(haystack: &[u8], needle: &[u8], start: usize) -> (found: bool)
    requires
        start + needle.len() <= haystack.len(),
    ensures
        found == occurs_at(haystack@, needle@, start as int),
{
    let mut k: usize = 0;
    while k < needle.len()
        invariant
            k <= needle.len(),
            start + needle.len() <= haystack.len(),
            forall|j: int| 0 <= j < k ==> haystack@[start + j] == needle@[j],
        decreases needle.len() - k,
    {
        if haystack[start + k] != needle[k] {
            proof {
                let window = haystack@.subrange(start as int, start + needle.len());
                assert(window[k as int] == haystack@[start + k]);
            }
            return false;
        }
        k += 1;
    }
    assert(haystack@.subrange(start as int, start + needle.len()) =~= needle@);
    true
}

/// The offset of the leftmost place where `needle` stands in `haystack`,
/// or `None` where it stands nowhere.
pub fn find_subsequence(haystack: &[u8], needle: &[u8]) -> (found: Option<usize>)
    requires
        needle.len() > 0,
    ensures
        match found {
            Some(i) => is_first_occurrence(haystack@, needle@, i as int),
            None => !contains(haystack@, needle@),
        },
{
    if needle.len() > haystack.len() {
        return None;
    }
    let last: usize = haystack.len() - needle.len();
    let mut i: usize = 0;
    while i <= last
        invariant
            i <= last + 1,
            last == haystack.len() - needle.len(),
            needle.len() > 0,
            forall|j: int| 0 <= j < i ==> !occurs_at(haystack@, needle@, j),
        decreases last + 1 - i,
    {
        if matches_at(haystack, needle, i) {
            return Some(i);
        }
        i += 1;
    }
    None
}

/// `haystack` with every occurrence of `needle` replaced by `replacement`.
///
/// Occurrences are taken from the left and do not overlap: after one has
/// been replaced the search goes on behind it. An empty `needle` occurs
/// nowhere, and `haystack` is returned as it is.
pub open spec fn replace_all(haystack: Seq<u8>, needle: Seq<u8>, replacement: Seq<u8>) -> Seq<u8>
    decreases haystack.len(),
{
    if needle.len() == 0 || haystack.len() == 0 {
        haystack
    } else if occurs_at(haystack, needle, 0) {
        replacement + replace_all(haystack.skip(needle.len() as int), needle, replacement)
    } else {
        seq![haystack[0]] + replace_all(haystack.skip(1), needle, replacement)
    }
}

/// An occurrence in the tail of a byte string is one in the whole string.
pub proof fn lemma_occurs_in_tail(haystack: Seq<u8>, needle: Seq<u8>, from: int, i: int)
    requires
        0 <= from <= haystack.len(),
        occurs_at(haystack.skip(from), needle, i),
    ensures
        occurs_at(haystack, needle, from + i),
{
    assert(haystack.subrange(from + i, from + i + needle.len()) =~= haystack.skip(from).subrange(
        i,
        i + needle.len(),
    ));
}

/// Replacing a needle that does not occur changes nothing.
pub proof fn lemma_replace_all_absent(haystack: Seq<u8>, needle: Seq<u8>, replacement: Seq<u8>)
    requires
        !contains(haystack, needle),
    ensures
        replace_all(haystack, needle, replacement) == haystack,
    decreases haystack.len(),
{
    if needle.len() != 0 && haystack.len() != 0 {
        let tail = haystack.skip(1);
        assert(!contains(tail, needle)) by {
            if contains(tail, needle) {
                let i = choose|i: int| occurs_at(tail, needle, i);
                lemma_occurs_in_tail(haystack, needle, 1, i);
            }
        }
        lemma_replace_all_absent(tail, needle, replacement);
        assert(seq![haystack[0]] + tail =~= haystack);
    }
}

/// A copy of `haystack` in which every occurrence of `needle` is replaced by
/// `replacement`, the occurrences taken from the left without overlap.
pub fn replace_occurrences(haystack: &[u8], needle: &[u8], replacement: &[u8]) -> (out: Vec<u8>)
    requires
        needle.len() > 0,
    ensures
        out@ == replace_all(haystack@, needle@, replacement@),
{
    let mut out: Vec<u8> = Vec::new();
    let mut i: usize = 0;
    proof {
        assert(haystack@.skip(0) =~= haystack@);
        assert(out@ + replace_all(haystack@, needle@, replacement@) =~= replace_all(
            haystack@,
            needle@,
            replacement@,
        ));
    }
    while i < haystack.len()
        invariant
            i <= haystack.len(),
            needle.len() > 0,
            out@ + replace_all(haystack@.skip(i as int), needle@, replacement@) == replace_all(
                haystack@,
                needle@,
                replacement@,
            ),
        decreases haystack.len() - i,
    {
        let ghost rest = haystack@.skip(i as int);
        let ghost before = out@;
        if needle.len() <= haystack.len() - i && matches_at(haystack, needle, i) {
            proof {
                assert(rest.subrange(0, needle.len() as int) =~= haystack@.subrange(
                    i as int,
                    i + needle.len(),
                ));
                assert(occurs_at(rest, needle@, 0));
                assert(rest.skip(needle.len() as int) =~= haystack@.skip(i + needle.len()));
            }
            append_bytes(&mut out, replacement);
            i += needle.len();
            assert(out@ + replace_all(haystack@.skip(i as int), needle@, replacement@) =~= before
                + replace_all(rest, needle@, replacement@));
        } else {
            proof {
                if needle.len() <= haystack.len() - i {
                    assert(rest.subrange(0, needle.len() as int) =~= haystack@.subrange(
                        i as int,
                        i + needle.len(),
                    ));
                }
                assert(!occurs_at(rest, needle@, 0));
                assert(rest.skip(1) =~= haystack@.skip(i + 1));
                assert(rest[0] == haystack@[i as int]);
            }
            out.push(haystack[i]);
            i += 1;
            assert(out@ + replace_all(haystack@.skip(i as int), needle@, replacement@) =~= before
                + replace_all(rest, needle@, replacement@));
        }
    }
    assert(haystack@.skip(i as int) =~= Seq::<u8>::empty());
    assert(out@ + Seq::<u8>::empty() =~= out@);
    out
}

/// Appends the bytes of `tail` to `out`.
fn append_bytes(out: &mut Vec<u8>, tail: &[u8])
    ensures
        final(out)@ == old(out)@ + tail@,
{
    let mut k: usize = 0;
    while k < tail.len()
        invariant
            k <= tail.len(),
            out@ == old(out)@ + tail@.subrange(0, k as int),
        decreases tail.len() - k,
    {
        out.push(tail[k]);
        k += 1;
        assert(out@ =~= old(out)@ + tail@.subrange(0, k as int));
    }
    assert(tail@.subrange(0, k as int) =~= tail@);
}

} // verus!
