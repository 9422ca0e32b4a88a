use leroyjenkins::ip_addr::IpAddr;
use leroyjenkins::ttl_cache::TtlCache;

const SECOND: u64 = 1_000_000_000;

#[test]
fn entry_lives_until_its_deadline() {
    let mut c = TtlCache::new(4, 8, 10 * SECOND);
    let ip = IpAddr::V4(0x0A000001);
    assert_eq!(c.get(&ip, 0), None);
    assert!(!c.contains_key(&ip, 0));
    c.insert(ip, 3, SECOND);
    assert_eq!(c.get(&ip, SECOND), Some(3));
    assert_eq!(c.get(&ip, 11 * SECOND - 1), Some(3));
    assert_eq!(c.get(&ip, 11 * SECOND), None);
    assert!(!c.contains_key(&ip, 11 * SECOND));
}

#[test]
fn write_refreshes_the_lifetime() {
    let mut c = TtlCache::new(4, 8, 10 * SECOND);
    let ip = IpAddr::V4(1);
    c.insert(ip, 1, 0);
    c.insert(ip, 2, 5 * SECOND);
    // The second write restarts the countdown and replaces the value.
    assert_eq!(c.get(&ip, 14 * SECOND), Some(2));
    assert_eq!(c.get(&ip, 15 * SECOND), None);
}

#[test]
fn capacity_evicts_the_oldest_entry() {
    let mut c = TtlCache::new(2, 2, 100 * SECOND);
    let a = IpAddr::V4(1);
    let b = IpAddr::V4(2);
    let d = IpAddr::V4(3);
    c.insert(a, 10, 0);
    c.insert(b, 20, 1);
    c.insert(d, 30, 2);
    assert_eq!(c.get(&a, 3), None);
    assert_eq!(c.get(&b, 3), Some(20));
    assert_eq!(c.get(&d, 3), Some(30));
}

#[test]
fn refresh_moves_an_entry_to_the_young_end() {
    let mut c = TtlCache::new(2, 2, 100 * SECOND);
    let a = IpAddr::V4(1);
    let b = IpAddr::V4(2);
    let d = IpAddr::V4(3);
    c.insert(a, 10, 0);
    c.insert(b, 20, 1);
    // Refreshing `a` makes `b` the oldest entry.
    c.insert(a, 11, 2);
    c.insert(d, 30, 3);
    assert_eq!(c.get(&a, 4), Some(11));
    assert_eq!(c.get(&b, 4), None);
    assert_eq!(c.get(&d, 4), Some(30));
}

#[test]
fn v4_and_v6_keys_do_not_collide() {
    let mut c = TtlCache::new(4, 8, 10 * SECOND);
    let v4 = IpAddr::V4(1);
    let v6 = IpAddr::V6(1);
    c.insert(v4, 1, 0);
    assert_eq!(c.get(&v6, 0), None);
    c.insert(v6, 2, 0);
    assert_eq!(c.get(&v4, 0), Some(1));
    assert_eq!(c.get(&v6, 0), Some(2));
}
