use wordle::timer::Timer;

#[test]
fn new_timer_has_not_started() {
    let t = Timer::new(60);
    assert_eq!(t.secs(), 60);
    assert!(!t.started());
    assert_eq!(t.elapsed(), 0);
    assert!(!t.finished());
}

#[test]
fn timer_of_zero_seconds_is_over_at_once() {
    assert!(Timer::new(0).finished());
}

#[test]
fn timer_that_has_not_started_takes_no_reading() {
    let mut t = Timer::new(10);
    t.record(99);
    assert_eq!(t.elapsed(), 0);
    assert!(!t.finished());
    assert_eq!(t.read(), 0);
    t.ticktock();
    assert_eq!(t.elapsed(), 0);
    assert!(!t.started());
}

#[test]
fn timer_is_over_when_the_reading_reaches_its_limit() {
    let mut t = Timer::new(10);
    t.start();
    assert!(t.started());
    t.record(9);
    assert_eq!(t.elapsed(), 9);
    assert!(!t.finished());
    t.record(10);
    assert!(t.finished());
    t.record(11);
    assert!(t.finished());
    t.record(3);
    assert_eq!(t.elapsed(), 3);
    assert!(!t.finished());
    assert_eq!(t.secs(), 10);
}

#[test]
fn timer_reads_the_clock_once_started() {
    let mut t = Timer::new(3600);
    t.start();
    t.record(5000);
    assert!(t.finished());
    t.ticktock();
    assert!(t.elapsed() < 3600);
    assert!(!t.finished());
    assert!(t.read() < 3600);
    t.start();
    assert!(t.started());
}
