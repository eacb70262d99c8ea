use vstd::prelude::*;

use crate::config::SearchConfig;
use crate::text::push_char;

verus! {

/// The character of a decimal digit.
pub open spec fn digit_char(d: nat) -> char {
    ((48 + d) as u32) as char
}

/// The decimal numeral of `n`, without leading zeros.
pub open spec fn decimal(n: nat) -> Seq<char>
    decreases n,
{
    if n < 10 {
        seq![digit_char(n)]
    } else {
        decimal(n / 10).push(digit_char(n % 10))
    }
}

/// The suffix of a public-key file name.
pub open spec fn pub_suffix() -> Seq<char> {
    seq!['.', 'p', 'u', 'b']
}

/// The decimal numeral of `n`.
pub fn decimal_string(n: usize) -> (r: String)
    ensures
        r@ == decimal(n as nat),
    decreases n,
{
    if n < 10 {
        let mut s = String::new();
        push_char(&mut s, ((n as u8) + 48) as char);
        assert(s@ =~= decimal(n as nat));
        s
    } else {
        let mut s = decimal_string(n / 10);
        push_char(&mut s, (((n % 10) as u8) + 48) as char);
        s
    }
}

/// The names of the private and the public key file of an attempt slot: the slot's
/// decimal numeral, and that numeral followed by `.pub`.
pub fn slot_file_names(slot: usize) -> (r: (String, String))
    ensures
        r.0@ == decimal(slot as nat),
        r.1@ == decimal(slot as nat) + pub_suffix(),
{
    let private = decimal_string(slot);
    let mut public = decimal_string(slot);
    push_char(&mut public, '.');
    push_char(&mut public, 'p');
    push_char(&mut public, 'u');
    push_char(&mut public, 'b');
    assert(public@ =~= decimal(slot as nat) + pub_suffix());
    (private, public)
}

/// The final output files: the private key under the configured base name, the
/// public key under that name followed by `.pub`.
pub fn output_file_names(config: &SearchConfig) -> (r: (String, String))
    ensures
        r.0@ == config.output@,
        r.1@ == config.output@ + pub_suffix(),
{
    let private = config.output.clone();
    let mut public = config.output.clone();
    push_char(&mut public, '.');
    push_char(&mut public, 'p');
    push_char(&mut public, 'u');
    push_char(&mut public, 'b');
    assert(public@ =~= config.output@ + pub_suffix());
    (private, public)
}

/// The key generator's arguments for one attempt in `slot`: key type, comment,
/// output file (the slot's private-key name) and the passphrase argument.
pub fn keygen_args(config: &SearchConfig, slot: usize) -> (r: Vec<String>)
    ensures
        r@.len() == 8,
        r@[0]@ == seq!['-', 't'],
        r@[1]@ == config.key_type@,
        r@[2]@ == seq!['-', 'C'],
        r@[3]@ == config.comment@,
        r@[4]@ == seq!['-', 'f'],
        r@[5]@ == decimal(slot as nat),
        r@[6]@ == seq!['-', 'N'],
        r@[7]@ == seq!['"', '"'],
{
    let mut args: Vec<String> = Vec::new();
    args.push(flag('t'));
    args.push(config.key_type.clone());
    args.push(flag('C'));
    args.push(config.comment.clone());
    args.push(flag('f'));
    args.push(decimal_string(slot));
    args.push(flag('N'));
    let mut quotes = String::new();
    push_char(&mut quotes, '"');
    push_char(&mut quotes, '"');
    args.push(quotes);
    args
}

/// A one-letter command-line flag.
fn flag(c: char) -> (r: String)
    ensures
        r@ == seq!['-', c],
{
    let mut s = String::new();
    push_char(&mut s, '-');
    push_char(&mut s, c);
    assert(s@ =~= seq!['-', c]);
    s
}

} // verus!
