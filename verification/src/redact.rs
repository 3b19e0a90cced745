//! Redaction of one byte string: every search term, in the order given,
//! replaced wherever it stands.

use crate::codec::is_utf8;
use crate::search::{
    contains, find_subsequence, lemma_replace_all_absent, occurs_at, replace_all,
    replace_occurrences,
};
use vstd::prelude::*;
use vstd::utf8::{encode_utf8, valid_utf8};

verus! {

/// `value` after each of `terms`, from the first to the last, has been
/// replaced by `replacement` wherever it stands. A later term is looked for in
/// what the earlier ones have left.
pub open spec fn apply_terms(value: Seq<u8>, terms: Seq<Seq<u8>>, replacement: Seq<u8>) -> Seq<u8>
    decreases terms.len(),
{
    if terms.len() == 0 {
        value
    } else {
        apply_terms(replace_all(value, terms[0], replacement), terms.skip(1), replacement)
    }
}

/// Whether, while the terms are applied in their order, one of them is found.
pub open spec fn some_term_found(value: Seq<u8>, terms: Seq<Seq<u8>>, replacement: Seq<u8>) -> bool
    decreases terms.len(),
{
    if terms.len() == 0 {
        false
    } else {
        contains(value, terms[0]) || some_term_found(
            replace_all(value, terms[0], replacement),
            terms.skip(1),
            replacement,
        )
    }
}

/// A value after redaction. A value that is not UTF-8 text is left as it is.
pub open spec fn redacted_value(value: Seq<u8>, terms: Seq<Seq<u8>>, replacement: Seq<u8>) -> Seq<u8> {
    if valid_utf8(value) {
        apply_terms(value, terms, replacement)
    } else {
        value
    }
}

/// Whether redaction finds a term in the value, and so marks its column dirty.
pub open spec fn value_matches(value: Seq<u8>, terms: Seq<Seq<u8>>, replacement: Seq<u8>) -> bool {
    valid_utf8(value) && some_term_found(value, terms, replacement)
}

/// Whether a term stands in the value as it is, and the value is UTF-8 text.
pub open spec fn holds_a_term(value: Seq<u8>, terms: Seq<Seq<u8>>) -> bool {
    valid_utf8(value) && exists|k: int| 0 <= k < terms.len() && contains(value, #[trigger] terms[k])
}

/// The search terms as the byte strings that are looked for.
pub open spec fn term_bytes(terms: Seq<String>) -> Seq<Seq<u8>> {
    Seq::new(terms.len(), |i: int| encode_utf8(terms[i]@))
}

/// No term is the empty string.
pub open spec fn terms_not_empty(terms: Seq<Seq<u8>>) -> bool {
    forall|k: int| 0 <= k < terms.len() ==> (#[trigger] terms[k]).len() > 0
}

/// No search term is the empty string.
pub open spec fn no_empty_term(terms: Seq<String>) -> bool {
    forall|i: int| 0 <= i < terms.len() ==> (#[trigger] terms[i])@.len() > 0
}

/// Search terms of which none is the empty string are looked for as byte
/// strings of which none is empty.
pub proof fn lemma_term_bytes_not_empty(terms: Seq<String>)
    requires
        no_empty_term(terms),
    ensures
        terms_not_empty(term_bytes(terms)),
{
    assert forall|k: int| 0 <= k < term_bytes(terms).len() implies (#[trigger] term_bytes(
        terms,
    )[k]).len() > 0 by {
        assert(terms[k]@.len() > 0);
    }
}

/// Where no term stands in the value, applying the terms finds none and
/// changes nothing.
pub proof fn lemma_apply_terms_absent(value: Seq<u8>, terms: Seq<Seq<u8>>, replacement: Seq<u8>)
    requires
        forall|k: int| 0 <= k < terms.len() ==> !contains(value, #[trigger] terms[k]),
    ensures
        apply_terms(value, terms, replacement) == value,
        !some_term_found(value, terms, replacement),
    decreases terms.len(),
{
    if terms.len() > 0 {
        lemma_replace_all_absent(value, terms[0], replacement);
        let rest = terms.skip(1);
        assert forall|k: int| 0 <= k < rest.len() implies !contains(value, #[trigger] rest[k]) by {
            assert(rest[k] == terms[k + 1]);
        }
        lemma_apply_terms_absent(value, rest, replacement);
    }
}

/// Where applying the terms finds none, the value stays as it is.
pub proof fn lemma_nothing_found_nothing_changed(
    value: Seq<u8>,
    terms: Seq<Seq<u8>>,
    replacement: Seq<u8>,
)
    requires
        !some_term_found(value, terms, replacement),
    ensures
        apply_terms(value, terms, replacement) == value,
    decreases terms.len(),
{
    if terms.len() > 0 {
        lemma_replace_all_absent(value, terms[0], replacement);
        lemma_nothing_found_nothing_changed(value, terms.skip(1), replacement);
    }
}

/// A term that stands in the value is found when the terms are applied.
pub proof fn lemma_standing_term_is_found(
    value: Seq<u8>,
    terms: Seq<Seq<u8>>,
    replacement: Seq<u8>,
    k: int,
)
    requires
        0 <= k < terms.len(),
        contains(value, terms[k]),
    ensures
        some_term_found(value, terms, replacement),
    decreases terms.len(),
{
    if k > 0 && !contains(value, terms[0]) {
        lemma_replace_all_absent(value, terms[0], replacement);
        let rest = terms.skip(1);
        assert(rest[k - 1] == terms[k]);
        lemma_standing_term_is_found(value, rest, replacement, k - 1);
    }
}

/// Redaction finds a term in a value exactly where one stands in it: what
/// earlier replacements put in plays no part in whether the column gets dirty.
pub proof fn lemma_value_matches_iff_holds_a_term(
    value: Seq<u8>,
    terms: Seq<Seq<u8>>,
    replacement: Seq<u8>,
)
    ensures
        value_matches(value, terms, replacement) <==> holds_a_term(value, terms),
{
    if valid_utf8(value) {
        if exists|k: int| 0 <= k < terms.len() && contains(value, #[trigger] terms[k]) {
            let k = choose|k: int| 0 <= k < terms.len() && contains(value, #[trigger] terms[k]);
            lemma_standing_term_is_found(value, terms, replacement, k);
        } else {
            lemma_apply_terms_absent(value, terms, replacement);
        }
    }
}

/// Redacts one value: `Some` of the new value where a term was found in it,
/// `None` where the value is not UTF-8 text or holds no term and so stays.
pub fn redact_value(value: &Vec<u8>, search_values: &Vec<String>, replace: &String) -> (redacted:
    Option<Vec<u8>>)
    requires
        no_empty_term(search_values@),
    ensures
        redacted is Some <==> value_matches(
            value@,
            term_bytes(search_values@),
            encode_utf8(replace@),
        ),
        redacted is Some ==> redacted->Some_0@ == redacted_value(
            value@,
            term_bytes(search_values@),
            encode_utf8(replace@),
        ),
        redacted is None ==> redacted_value(
            value@,
            term_bytes(search_values@),
            encode_utf8(replace@),
        ) == value@,
{
    let ghost terms = term_bytes(search_values@);
    let ghost replacement = encode_utf8(replace@);
    if !is_utf8(value) {
        return None;
    }
    proof {
        lemma_term_bytes_not_empty(search_values@);
    }
    let replacement_bytes: &[u8] = replace.as_str().as_bytes();
    let mut current: Option<Vec<u8>> = None;
    let mut k: usize = 0;
    proof {
        assert(terms.skip(0) =~= terms);
    }
    while k < search_values.len()
        invariant
            k <= search_values.len(),
            terms == term_bytes(search_values@),
            terms_not_empty(terms),
            replacement == encode_utf8(replace@),
            replacement_bytes@ == replacement,
            apply_terms(
                match current {
                    Some(v) => v@,
                    None => value@,
                },
                terms.skip(k as int),
                replacement,
            ) == apply_terms(value@, terms, replacement),
            (current is Some || some_term_found(
                match current {
                    Some(v) => v@,
                    None => value@,
                },
                terms.skip(k as int),
                replacement,
            )) == some_term_found(value@, terms, replacement),
        decreases search_values.len() - k,
    {
        let term: &[u8] = search_values[k].as_str().as_bytes();
        let ghost rest = terms.skip(k as int);
        proof {
            assert(rest[0] == terms[k as int]);
            assert(term@ == terms[k as int]);
            assert(rest.skip(1) =~= terms.skip(k + 1));
        }
        let haystack: &[u8] = match &current {
            Some(v) => v.as_slice(),
            None => value.as_slice(),
        };
        let mut found: bool = false;
        if term.len() <= haystack.len() {
            found = find_subsequence(haystack, term).is_some();
        } else {
            assert(!contains(haystack@, term@)) by {
                assert(forall|i: int| !occurs_at(haystack@, term@, i));
            }
        }
        if found {
            let replaced = replace_occurrences(haystack, term, replacement_bytes);
            current = Some(replaced);
        } else {
            proof {
                lemma_replace_all_absent(haystack@, term@, replacement);
            }
        }
        k += 1;
    }
    proof {
        assert(terms.skip(k as int) =~= Seq::<Seq<u8>>::empty());
        if current is None {
            lemma_nothing_found_nothing_changed(value@, terms, replacement);
        }
    }
    current
}

} // verus!
