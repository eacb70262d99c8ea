use keybrute::progress::{Report, State};

#[test]
fn reports_come_once_per_interval() {
    let mut s = State::new(0);
    let mut reports = 0u64;
    for i in 1..=30u64 {
        if s.record_attempt(10, i).is_some() {
            reports += 1;
        }
    }
    assert_eq!(reports, 3);
    assert_eq!(s.counter, 30);
}

#[test]
fn record_attempt_reports_on_the_boundary() {
    let mut s = State::new(100);
    assert_eq!(s.record_attempt(2, 150), None);
    assert_eq!(s.iteration, 100);
    let r = s.record_attempt(2, 170);
    assert_eq!(r, Some(Report { total: 70, since_last: 70, attempts: 2 }));
    assert_eq!(s.iteration, 170);
    assert_eq!(s.record_attempt(2, 180), None);
    let r = s.record_attempt(2, 200);
    assert_eq!(r, Some(Report { total: 100, since_last: 30, attempts: 4 }));
}

#[test]
fn interval_of_one_reports_every_attempt() {
    let mut s = State::new(0);
    for i in 1..=5u64 {
        assert!(s.record_attempt(1, i).is_some());
    }
    assert_eq!(s.counter, 5);
}

#[test]
fn print_details_restarts_the_interval_clock() {
    let mut s = State { counter: 9, start: 10, iteration: 20 };
    let r = s.print_details(50);
    assert_eq!(r, Report { total: 40, since_last: 30, attempts: 9 });
    assert_eq!(s, State { counter: 9, start: 10, iteration: 50 });
}

#[test]
fn an_earlier_clock_reading_gives_zero_durations() {
    let mut s = State::new(100);
    let r = s.print_details(40);
    assert_eq!(r, Report { total: 0, since_last: 0, attempts: 0 });
}

#[test]
fn counts_from_several_workers_add_up() {
    let shared = std::sync::Mutex::new(State::new(0));
    let mut reports = [0u64; 4];
    for round in 0..100usize {
        let worker = (round * 7) % 4;
        if shared.lock().unwrap().record_attempt(10, round as u64).is_some() {
            reports[worker] += 1;
        }
    }
    assert_eq!(reports.iter().sum::<u64>(), 10);
    assert_eq!(shared.lock().unwrap().counter, 100);
}

#[test]
fn reports_from_a_nonzero_counter() {
    let mut s = State { counter: 5, start: 0, iteration: 0 };
    let mut reports = Vec::new();
    for i in 0..20u64 {
        if let Some(r) = s.record_attempt(10, i) {
            reports.push(r.attempts);
        }
    }
    assert_eq!(reports, vec![10, 20]);
    assert_eq!(s.counter, 25);
}
