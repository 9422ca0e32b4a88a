use leroyjenkins::keyed_limiter::{Decision, KeyedLimiter};

const SECOND: u64 = 1_000_000_000;

fn key(s: &str) -> Vec<u8> {
    s.as_bytes().to_vec()
}

#[test]
fn burst_admits_then_denies() {
    // burst 10 per 5 s: exactly ten back-to-back admissions.
    let mut l = KeyedLimiter::new(10, 5 * SECOND, 16);
    let k = key("1.2.3.4");
    for _ in 0..10 {
        assert_eq!(l.check_key(&k, 0), Decision::Admitted);
    }
    assert_eq!(l.check_key(&k, 0), Decision::Denied);
    assert_eq!(l.check_key(&k, 0), Decision::Denied);
}

#[test]
fn keys_have_independent_budgets() {
    let mut l = KeyedLimiter::new(1, SECOND, 16);
    let a = key("a");
    let b = key("b");
    assert_eq!(l.check_key(&a, 0), Decision::Admitted);
    assert_eq!(l.check_key(&a, 0), Decision::Denied);
    assert_eq!(l.check_key(&b, 0), Decision::Admitted);
}

#[test]
fn budget_replenishes_over_time() {
    let mut l = KeyedLimiter::new(1, SECOND, 16);
    let k = key("a");
    assert_eq!(l.check_key(&k, 0), Decision::Admitted);
    assert_eq!(l.check_key(&k, 0), Decision::Denied);
    // One emission interval later the next event fits again.
    assert_eq!(l.check_key(&k, SECOND), Decision::Admitted);
}

#[test]
fn gc_does_not_change_decisions() {
    // Initial capacity 0 keeps the collection threshold at its floor, so
    // every check runs a pass first.
    let mut l = KeyedLimiter::new(1, SECOND, 0);
    let k = key("a");
    assert_eq!(l.check_key(&k, 0), Decision::Admitted);
    // The bucket now stands at one emission interval; a check right
    // after a collection pass at the same instant is still denied.
    l.maybe_gc(0);
    assert_eq!(l.check_key(&k, 0), Decision::Denied);
    // Once fully replenished the bucket may be collected; the key then
    // behaves as fresh, which decides identically.
    l.maybe_gc(2 * SECOND);
    assert_eq!(l.check_key(&k, 2 * SECOND), Decision::Admitted);
}

#[test]
fn denial_does_not_extend_the_bucket() {
    let mut l = KeyedLimiter::new(2, 2 * SECOND, 16);
    let k = key("a");
    assert_eq!(l.check_key(&k, 0), Decision::Admitted);
    assert_eq!(l.check_key(&k, 0), Decision::Admitted);
    // Many denials in a row must not push the budget further away.
    for _ in 0..100 {
        assert_eq!(l.check_key(&k, 0), Decision::Denied);
    }
    assert_eq!(l.check_key(&k, SECOND), Decision::Admitted);
}
