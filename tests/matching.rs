use keybrute::matching::{key_matches, word_matches, FormatError};

fn terms(ts: &[&str]) -> Vec<String> {
    ts.iter().map(|t| t.to_string()).collect()
}

#[test]
fn key_field_is_matched_case_insensitively() {
    let r = key_matches("ssh-ed25519 AbCdEf me@host", &terms(&["abc"]));
    assert_eq!(r, Ok(true));
}

#[test]
fn only_the_second_field_is_searched() {
    let r = key_matches("abc xyz abc", &terms(&["abc"]));
    assert_eq!(r, Ok(false));
}

#[test]
fn any_term_suffices() {
    let r = key_matches("ssh-ed25519 AAAAC3cafebabe me", &terms(&["zz", "babe"]));
    assert_eq!(r, Ok(true));
}

#[test]
fn no_term_gives_false() {
    let r = key_matches("ssh-ed25519 AAAAC3NzaC1 me", &terms(&["zz", "qq"]));
    assert_eq!(r, Ok(false));
}

#[test]
fn two_fields_are_a_format_error() {
    let r = key_matches("ssh-ed25519 AAAAC3cafe", &terms(&["cafe"]));
    assert_eq!(r, Err(FormatError { field_count: 2 }));
}

#[test]
fn four_fields_are_a_format_error() {
    let r = key_matches("ssh-ed25519 AAAAC3cafe me extra", &terms(&["cafe"]));
    assert_eq!(r, Err(FormatError { field_count: 4 }));
}

#[test]
fn empty_text_is_a_format_error() {
    assert_eq!(key_matches("", &terms(&["a"])), Err(FormatError { field_count: 1 }));
}

#[test]
fn double_space_makes_an_empty_field() {
    let r = key_matches("a  b", &terms(&["b"]));
    assert_eq!(r, Ok(false));
}

#[test]
fn word_matches_stops_at_any_term() {
    let word: Vec<char> = "xxcafexx".chars().collect();
    assert!(word_matches(&word, &terms(&["nope", "cafe"])));
    assert!(!word_matches(&word, &terms(&["CAFE"])));
    assert!(!word_matches(&word, &terms(&[])));
}
