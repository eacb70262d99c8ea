use vstd::prelude::*;

use crate::text::{chars_of, lower_seq, split_chars, split_on, string_of, to_lower, views};

verus! {

/// Why a search configuration was refused.
#[derive(Clone, Copy, Debug, PartialEq, Eq, Structural)]
pub enum ConfigError {
    /// The comma-separated search list is empty.
    NoTerms,
    /// A search term is empty or holds a character that is not an ASCII letter or digit.
    InvalidTerm,
    /// The progress-report interval is zero.
    ZeroInterval,
}

pub open spec fn is_ascii_alnum(c: char) -> bool {
    ('0' <= c && c <= '9') || ('a' <= c && c <= 'z') || ('A' <= c && c <= 'Z')
}

/// A search term: one or more ASCII letters and digits.
pub open spec fn valid_term(t: Seq<char>) -> bool {
    t.len() > 0 && forall|i: int| 0 <= i < t.len() ==> is_ascii_alnum(#[trigger] t[i])
}

/// The comma-separated pieces of a search list.
pub open spec fn search_pieces(search: Seq<char>) -> Seq<Seq<char>> {
    split_on(search, ',')
}

/// A search list is accepted when it is not empty and every piece is a valid term.
pub open spec fn search_accepted(search: Seq<char>) -> bool {
    search.len() > 0 && forall|k: int|
        0 <= k < search_pieces(search).len() ==> valid_term(#[trigger] search_pieces(search)[k])
}

fn term_is_valid(t: &Vec<char>) -> (r: bool)
    ensures
        r == valid_term(t@),
{
    if t.len() == 0 {
        return false;
    }
    let mut i: usize = 0;
    while i < t.len()
        invariant
            i <= t.len(),
            forall|j: int| 0 <= j < i ==> is_ascii_alnum(#[trigger] t@[j]),
        decreases t.len() - i,
    {
        let c = t[i];
        if !(('0' <= c && c <= '9') || ('a' <= c && c <= 'z') || ('A' <= c && c <= 'Z')) {
            return false;
        }
        i = i + 1;
    }
    true
}

/// Splits a comma-separated search list into lower-cased terms, refusing an empty
/// list and any term that is empty or not ASCII-alphanumeric.
pub fn parse_search_terms(search: &str) -> (r: Result<Vec<String>, ConfigError>)
    ensures
        r is Ok <==> search_accepted(search@),
        r matches Err(e) ==> (e == ConfigError::NoTerms <==> search@.len() == 0),
        r matches Err(e) ==> e != ConfigError::ZeroInterval,
        r matches Ok(v) ==> v@.len() == search_pieces(search@).len() && forall|k: int|
            0 <= k < v@.len() ==> (#[trigger] v@[k])@ == lower_seq(search_pieces(search@)[k]),
{
    if search.is_empty() {
        return Err(ConfigError::NoTerms);
    }
    let text = chars_of(search);
    let pieces = split_chars(&text, ',');
    assert(views(pieces@) == search_pieces(search@));
    let mut terms: Vec<String> = Vec::new();
    let mut k: usize = 0;
    while k < pieces.len()
        invariant
            k <= pieces.len(),
            views(pieces@) == search_pieces(search@),
            search@.len() > 0,
            terms@.len() == k,
            forall|j: int| 0 <= j < k ==> valid_term(#[trigger] search_pieces(search@)[j]),
            forall|j: int|
                0 <= j < k ==> (#[trigger] terms@[j])@ == lower_seq(search_pieces(search@)[j]),
        decreases pieces.len() - k,
    {
        assert(pieces@[k as int]@ == search_pieces(search@)[k as int]);
        if !term_is_valid(&pieces[k]) {
            return Err(ConfigError::InvalidTerm);
        }
        let lowered = to_lower(&pieces[k]);
        terms.push(string_of(&lowered));
        k = k + 1;
    }
    Ok(terms)
}

/// What one search runs with.
pub struct SearchConfig {
    /// Key type handed to the key generator.
    pub key_type: String,
    /// Comment embedded in every generated key.
    pub comment: String,
    /// Lower-case search terms, in the order given.
    pub terms: Vec<String>,
    /// A progress report is due after every this many failed attempts.
    pub print_every: u64,
    /// Base name of the two output files.
    pub output: String,
}

impl SearchConfig {
    /// Terms present, each lower-case and ASCII-alphanumeric; the interval positive.
    pub open spec fn wf(&self) -> bool {
        &&& self.terms@.len() > 0
        &&& forall|k: int|
            0 <= k < self.terms@.len() ==> valid_term(#[trigger] self.terms@[k]@)
                && lower_seq(self.terms@[k]@) == self.terms@[k]@
        &&& self.print_every > 0
    }

    /// Builds a configuration, validating the search list and then the interval.
    pub fn new(
        key_type: String,
        comment: String,
        search: &str,
        print_every: u64,
        output: String,
    ) -> (r: Result<SearchConfig, ConfigError>)
        ensures
            r matches Err(e) ==> (e == ConfigError::NoTerms <==> search@.len() == 0),
            r matches Err(e) ==> (e == ConfigError::InvalidTerm <==> search@.len() > 0
                && !search_accepted(search@)),
            r matches Err(e) ==> (e == ConfigError::ZeroInterval <==> search_accepted(search@)
                && print_every == 0),
            r is Ok <==> search_accepted(search@) && print_every > 0,
            r matches Ok(c) ==> c.wf() && c.key_type == key_type && c.comment == comment
                && c.print_every == print_every && c.output == output
                && c.terms@.len() == search_pieces(search@).len()
                && forall|k: int| 0 <= k < c.terms@.len()
                    ==> (#[trigger] c.terms@[k])@ == lower_seq(search_pieces(search@)[k]),
    {
        let terms = match parse_search_terms(search) {
            Ok(t) => t,
            Err(e) => {
                return Err(e);
            },
        };
        if print_every == 0 {
            return Err(ConfigError::ZeroInterval);
        }
        proof {
            lemma_lowered_terms(search@, terms@);
        }
        Ok(SearchConfig { key_type, comment, terms, print_every, output })
    }
}

proof fn lemma_lowered_terms(search: Seq<char>, terms: Seq<String>)
    requires
        search_accepted(search),
        terms.len() == search_pieces(search).len(),
        forall|k: int|
            0 <= k < terms.len() ==> (#[trigger] terms[k])@ == lower_seq(search_pieces(search)[k]),
    ensures
        terms.len() > 0,
        forall|k: int|
            0 <= k < terms.len() ==> valid_term(#[trigger] terms[k]@) && lower_seq(terms[k]@)
                == terms[k]@,
{
    crate::text::lemma_split_nonempty(search, ',');
    assert forall|k: int| 0 <= k < terms.len() implies valid_term(#[trigger] terms[k]@)
        && lower_seq(terms[k]@) == terms[k]@ by {
        let p = search_pieces(search)[k];
        assert(valid_term(p));
        let t = terms[k]@;
        assert forall|i: int| 0 <= i < t.len() implies is_ascii_alnum(#[trigger] t[i]) by {
            assert(is_ascii_alnum(p[i]));
        }
        assert(lower_seq(t) =~= t);
    }
}

} // verus!
