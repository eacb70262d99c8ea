use keybrute::signal::TerminationSignal;

#[test]
fn first_claim_wins() {
    let mut s = TerminationSignal::new();
    assert!(!s.is_set());
    assert!(s.claim(3));
    assert!(s.is_set());
    assert!(!s.claim(1));
    assert!(!s.claim(3));
    assert_eq!(s.winner, Some(3));
}
