use routing::timer::Timer;

#[test]
fn tokens_are_unique() {
    let mut timer = Timer::new();
    let mut seen = Vec::new();
    for _ in 0..1_000 {
        let token = timer.schedule(20_000);
        assert!(!seen.contains(&token));
        seen.push(token);
    }
}

#[test]
fn tokens_count_up_from_zero() {
    let mut timer = Timer::new();
    assert_eq!(timer.schedule(1), 0);
    assert_eq!(timer.schedule(1_000_000), 1);
    assert_eq!(timer.schedule(0), 2);
}
