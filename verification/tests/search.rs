use createxcrunch::search::{Action, Event, Timestamp};
use createxcrunch::Search;

fn at(secs: u64, millis: u32) -> Timestamp {
    Timestamp {
        secs,
        subsec_nanos: millis * 1_000_000 + 999_999,
    }
}

fn sleep_of(action: Action) -> Option<u64> {
    match action {
        Action::Collect { sleep_millis } => sleep_millis,
        _ => panic!("a launch is followed by a collection"),
    }
}

#[test]
fn milliseconds_are_rounded_down() {
    assert_eq!(at(12, 345).as_millis(), 12_345);
    assert_eq!(at(0, 0).as_millis(), 0);
}

#[test]
fn nonces_follow_one_another() {
    let mut search = Search::new([1, 2, 3, 4], 40);
    for round in 0u32..5 {
        search.step(Event::Launched { now: at(round as u64, 0) });
        let collected = Event::Collected { now: at(round as u64, 10), solutions: [0, 1, 2, 3] };
        match search.step(collected) {
            Action::Launch { nonce } => assert_eq!(nonce, 41 + round),
            _ => panic!("there was no solution"),
        }
        assert_eq!(search.nonce, 41 + round);
        assert_eq!(search.salt, [1, 2, 3, 4]);
    }
}

#[test]
fn sleeps_most_of_the_last_work() {
    let mut search = Search::new([0; 4], 0);
    assert_eq!(sleep_of(search.step(Event::Launched { now: at(100, 0) })), None);
    search.step(Event::Collected { now: at(101, 1), solutions: [0; 4] });
    assert_eq!(search.work_duration_millis, 1001);
    assert_eq!(sleep_of(search.step(Event::Launched { now: at(102, 0) })), Some(980));
    search.step(Event::Collected { now: at(102, 0), solutions: [0; 4] });
    assert_eq!(sleep_of(search.step(Event::Launched { now: at(103, 0) })), None);
}

#[test]
fn solution_ends_the_search() {
    let mut search = Search::new([0; 4], u32::MAX);
    search.step(Event::Launched { now: at(1, 0) });
    match search.step(Event::Collected { now: at(1, 5), solutions: [9, 8, 7, 6] }) {
        Action::Report { solutions } => assert_eq!(solutions, [9, 8, 7, 6]),
        _ => panic!("there was a solution"),
    }
    assert_eq!(search.nonce, u32::MAX);
    assert_eq!(search.work_duration_millis, 5);
}

#[test]
fn overflowing_events_are_not_admitted() {
    let mut search = Search::new([0; 4], u32::MAX);
    assert!(search.admits(&Event::Launched { now: at(5, 0) }));
    search.step(Event::Launched { now: at(5, 0) });
    // there is no next nonce
    assert!(!search.admits(&Event::Collected { now: at(5, 0), solutions: [0; 4] }));
    assert!(search.admits(&Event::Collected { now: at(5, 0), solutions: [1, 0, 0, 0] }));
    // the clock went backwards
    assert!(!search.admits(&Event::Collected { now: at(4, 0), solutions: [1, 0, 0, 0] }));
    // too late to be counted in milliseconds
    assert!(!search.admits(&Event::Launched { now: at(u64::MAX, 0) }));
    assert!(search.admits(&Event::Launched { now: at(u64::MAX / 1000, 615) }));
    assert!(!search.admits(&Event::Launched { now: at(u64::MAX / 1000, 616) }));
    // too long to take 98% of
    search.work_duration_millis = u64::MAX / 980;
    assert!(search.admits(&Event::Launched { now: at(5, 0) }));
    search.work_duration_millis += 1;
    assert!(!search.admits(&Event::Launched { now: at(5, 0) }));
}

#[test]
fn random_searches_start_fresh() {
    let mut salts = Vec::new();
    let mut nonces = Vec::new();
    for _ in 0..8 {
        let search = Search::random();
        assert_eq!(search.work_start_millis, 0);
        assert_eq!(search.work_duration_millis, 0);
        salts.push(search.salt);
        nonces.push(search.nonce);
    }
    assert!(salts.iter().any(|salt| *salt != salts[0]));
    assert!(nonces.iter().any(|nonce| *nonce != nonces[0]));
}
