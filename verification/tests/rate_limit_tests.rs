use gmocoin::rate_limit::Admission;
use gmocoin::rate_limit::TokenBucket;

#[test]
fn burst_of_capacity_then_wait() {
    // Capacity 3 tokens, 1 token per second: three immediate admissions,
    // then a wait of one full token time.
    let mut b = TokenBucket::new(3000, 1000, 0);
    assert_eq!(b.try_acquire(0), Admission::Granted);
    assert_eq!(b.try_acquire(0), Admission::Granted);
    assert_eq!(b.try_acquire(0), Admission::Granted);
    assert_eq!(b.try_acquire(0), Admission::Wait(1000));
}

#[test]
fn wait_matches_fractional_rate() {
    // Half a token per second: an empty bucket asks for two seconds.
    let mut b = TokenBucket::new(1000, 500, 0);
    assert_eq!(b.try_acquire(0), Admission::Granted);
    assert_eq!(b.try_acquire(0), Admission::Wait(2000));
}

#[test]
fn granted_after_advertised_wait() {
    let mut b = TokenBucket::new(1000, 500, 0);
    assert_eq!(b.try_acquire(0), Admission::Granted);
    let w = match b.try_acquire(0) {
        Admission::Wait(w) => w,
        Admission::Granted => panic!("empty bucket admitted"),
    };
    assert_eq!(b.try_acquire(w), Admission::Granted);
}

#[test]
fn refill_caps_at_capacity() {
    let mut b = TokenBucket::new(2000, 1000, 0);
    assert_eq!(b.try_acquire(0), Admission::Granted);
    // A long idle period refills to capacity, no further.
    assert_eq!(b.available_mt(1000000), 2000);
}

#[test]
fn backwards_clock_accrues_nothing() {
    let mut b = TokenBucket::new(1000, 1000, 5000);
    assert_eq!(b.try_acquire(5000), Admission::Granted);
    // An earlier timestamp must not mint tokens.
    match b.try_acquire(0) {
        Admission::Wait(_) => {}
        Admission::Granted => panic!("backwards clock minted a token"),
    }
}

#[test]
fn steady_rate_sustains_one_per_period() {
    // 1 token/s: at each whole second one admission is available.
    let mut b = TokenBucket::new(1000, 1000, 0);
    for k in 0..5u64 {
        assert_eq!(b.try_acquire(k * 1000), Admission::Granted);
        match b.try_acquire(k * 1000) {
            Admission::Wait(w) => assert_eq!(w, 1000),
            Admission::Granted => panic!("second admission within one period"),
        }
    }
}
