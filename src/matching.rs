use vstd::prelude::*;

use crate::text::{chars_of, contains, has_substring, lower_seq, split_chars, split_on, to_lower};

verus! {

/// A public-key text that does not consist of exactly three space-separated fields.
#[derive(Clone, Copy, Debug, PartialEq, Eq, Structural)]
pub struct FormatError {
    pub field_count: usize,
}

/// The space-separated fields of a public-key text: algorithm, key material, comment.
pub open spec fn key_fields(text: Seq<char>) -> Seq<Seq<char>> {
    split_on(text, ' ')
}

/// Some term of `terms` occurs in `word`.
pub open spec fn any_term_in(word: Seq<char>, terms: Seq<String>) -> bool {
    exists|k: int| 0 <= k < terms.len() && contains(word, #[trigger] terms[k]@)
}

/// What the match predicate answers for a public-key text: `None` where the text
/// does not have three fields, else whether its lower-cased key field holds a term.
pub open spec fn key_verdict(text: Seq<char>, terms: Seq<String>) -> Option<bool> {
    let fields = key_fields(text);
    if fields.len() == 3 {
        Some(any_term_in(lower_seq(fields[1]), terms))
    } else {
        None
    }
}

/// Whether any of `terms` occurs in `word`; stops at the first that does.
pub fn word_matches(word: &Vec<char>, terms: &Vec<String>) -> (r: bool)
    ensures
        r == any_term_in(word@, terms@),
{
    let mut k: usize = 0;
    while k < terms.len()
        invariant
            k <= terms.len(),
            forall|j: int| 0 <= j < k ==> !contains(word@, #[trigger] terms@[j]@),
        decreases terms.len() - k,
    {
        let term = chars_of(terms[k].as_str());
        if has_substring(word, &term) {
            return true;
        }
        k = k + 1;
    }
    false
}

/// The match predicate: splits a public-key text on single spaces, demands exactly
/// three fields, lower-cases the second and tests it against the search terms.
pub fn key_matches(content: &str, terms: &Vec<String>) -> (r: Result<bool, FormatError>)
    ensures
        r is Err <==> key_fields(content@).len() != 3,
        r matches Err(e) ==> e.field_count == key_fields(content@).len(),
        r matches Ok(b) ==> key_verdict(content@, terms@) == Some(b),
{
    let text = chars_of(content);
    let fields = split_chars(&text, ' ');
    if fields.len() != 3 {
        return Err(FormatError { field_count: fields.len() });
    }
    assert(fields@[1]@ == key_fields(content@)[1]);
    let word = to_lower(&fields[1]);
    Ok(word_matches(&word, terms))
}

/// Two well-formed public-key texts whose key fields differ only in ASCII case get
/// the same answer.
pub proof fn lemma_verdict_ignores_case(a: Seq<char>, b: Seq<char>, terms: Seq<String>)
    requires
        key_fields(a).len() == 3,
        key_fields(b).len() == 3,
        lower_seq(key_fields(a)[1]) == lower_seq(key_fields(b)[1]),
    ensures
        key_verdict(a, terms) == key_verdict(b, terms),
        key_verdict(a, terms) is Some,
{
}

} // verus!
