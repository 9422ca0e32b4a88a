use leroyjenkins::{Args, BanOutcome, ConfigError, Leroy, LineOutcome};

const SECOND: u64 = 1_000_000_000;

fn args(bl_threshold: u32, bl_period_ns: u64, base_ms: u64) -> Args {
    Args {
        bl_threshold,
        bl_period: bl_period_ns,
        ipset_ban_ttl: 24 * 3600 * SECOND,
        ipset_base_time: base_ms,
        table: b"leroy".to_vec(),
        ipset_ipv4_name: b"leroy4".to_vec(),
        ipset_ipv6_name: b"leroy6".to_vec(),
        reporting_ban_time_period: 10 * SECOND,
        reporting_ip_time_period: 10 * SECOND,
        cache_initial_capacity: 16,
        cache_max_size: 1024,
        dry_run: true,
    }
}

fn line(s: &str) -> Vec<u8> {
    s.as_bytes().to_vec()
}

#[test]
fn zero_period_with_positive_threshold_is_rejected() {
    assert!(matches!(
        Leroy::new(args(10, 0, 30_000), 0),
        Err(ConfigError::ZeroBlPeriod)
    ));
    assert!(Leroy::new(args(0, 0, 30_000), 0).is_ok());
    assert!(Leroy::new(args(10, 5 * SECOND, 30_000), 0).is_ok());
}

#[test]
fn under_budget_lines_are_not_banned() {
    // Ten lines within a burst of ten: no ban, no cache write.
    let mut leroy = Leroy::new(args(10, 5 * SECOND, 30_000), 0).unwrap();
    for _ in 0..10 {
        let r = leroy.handle_line(&line("1.2.3.4"), 0);
        assert!(matches!(r.outcome, LineOutcome::UnderLimit));
    }
    // No suppression entry was written: a direct ban succeeds.
    assert!(matches!(
        leroy.ban(leroyjenkins::ip_addr::IpAddr::V4(0x01020304), 0),
        BanOutcome::Submitted(_)
    ));
}

#[test]
fn eleventh_line_is_banned_with_the_base_timeout() {
    let mut leroy = Leroy::new(args(10, 5 * SECOND, 30_000), 0).unwrap();
    for _ in 0..10 {
        let r = leroy.handle_line(&line("1.2.3.4"), 0);
        assert!(matches!(r.outcome, LineOutcome::UnderLimit));
    }
    let r = leroy.handle_line(&line("1.2.3.4"), 0);
    match r.outcome {
        LineOutcome::Banned(req) => {
            assert_eq!(req.ip, leroyjenkins::ip_addr::IpAddr::V4(0x01020304));
            assert_eq!(req.recidivism, 1);
            assert_eq!(req.timeout_ms, 30_000);
        },
        _ => panic!("eleventh line was not banned"),
    }
}

#[test]
fn ban_on_sight_suppresses_the_second_line() {
    let mut leroy = Leroy::new(args(0, 0, 30_000), 0).unwrap();
    let r = leroy.handle_line(&line("10.0.0.1"), 0);
    assert!(matches!(r.outcome, LineOutcome::Banned(_)));
    let r = leroy.handle_line(&line("10.0.0.1"), 1);
    assert!(matches!(r.outcome, LineOutcome::AlreadyBanned));
}

#[test]
fn recidivists_are_banned_longer() {
    // Base 30 s: the suppression entry lives 29 s; a return after it
    // expires but within the recidivism window doubles the timeout.
    let mut leroy = Leroy::new(args(0, 0, 30_000), 0).unwrap();
    let t0 = 0;
    let r = leroy.handle_line(&line("10.0.0.1"), t0);
    match r.outcome {
        LineOutcome::Banned(req) => assert_eq!(req.timeout_ms, 30_000),
        _ => panic!("first line not banned"),
    }
    let t1 = t0 + 29 * SECOND + 1;
    let r = leroy.handle_line(&line("10.0.0.1"), t1);
    match r.outcome {
        LineOutcome::Banned(req) => {
            assert_eq!(req.recidivism, 2);
            assert_eq!(req.timeout_ms, 60_000);
        },
        _ => panic!("second line not banned"),
    }
    let t2 = t1 + 58 * SECOND + 1;
    let r = leroy.handle_line(&line("10.0.0.1"), t2);
    match r.outcome {
        LineOutcome::Banned(req) => {
            assert_eq!(req.recidivism, 3);
            assert_eq!(req.timeout_ms, 90_000);
        },
        _ => panic!("third line not banned"),
    }
}

#[test]
fn recidivism_expires_after_the_window() {
    let mut a = args(0, 0, 30_000);
    a.ipset_ban_ttl = 60 * SECOND;
    let mut leroy = Leroy::new(a, 0).unwrap();
    let r = leroy.handle_line(&line("10.0.0.1"), 0);
    assert!(matches!(r.outcome, LineOutcome::Banned(_)));
    // Past the recidivism window the count starts over at one.
    let t = 61 * SECOND;
    let r = leroy.handle_line(&line("10.0.0.1"), t);
    match r.outcome {
        LineOutcome::Banned(req) => {
            assert_eq!(req.recidivism, 1);
            assert_eq!(req.timeout_ms, 30_000);
        },
        _ => panic!("line not banned after expiry"),
    }
}

#[test]
fn unparsable_lines_are_skipped() {
    let mut leroy = Leroy::new(args(0, 0, 30_000), 0).unwrap();
    let r = leroy.handle_line(&line("not an ip"), 0);
    assert!(matches!(r.outcome, LineOutcome::ParseFailed));
    let r = leroy.handle_line(&line(""), 0);
    assert!(matches!(r.outcome, LineOutcome::ParseFailed));
    // The pipeline keeps going afterwards.
    let r = leroy.handle_line(&line("10.0.0.1"), 0);
    assert!(matches!(r.outcome, LineOutcome::Banned(_)));
}

#[test]
fn timeout_saturates_instead_of_overflowing() {
    let a = args(0, 0, u64::MAX / 2 + 1);
    // A first ban fits; a second would exceed u64::MAX milliseconds and
    // saturates.
    assert_eq!(a.time_to_ban(1), u64::MAX / 2 + 1);
    assert_eq!(a.time_to_ban(2), u64::MAX);
    let b = args(0, 0, 30_000);
    assert_eq!(b.time_to_ban(3), 90_000);
    assert_eq!(b.time_to_ban(0), 0);
}

#[test]
fn non_dry_run_commits_only_when_told() {
    let mut a = args(0, 0, 30_000);
    a.dry_run = false;
    let mut leroy = Leroy::new(a, 0).unwrap();
    let req = match leroy.handle_line(&line("10.0.0.1"), 0).outcome {
        LineOutcome::Banned(req) => req,
        _ => panic!("line not banned"),
    };
    // Without a commit the next line builds a fresh batch again.
    let r = leroy.handle_line(&line("10.0.0.1"), 1);
    assert!(matches!(r.outcome, LineOutcome::Banned(_)));
    // After the commit the suppression entry is live.
    leroy.commit_ban(req.ip, req.recidivism, 2);
    let r = leroy.handle_line(&line("10.0.0.1"), 3);
    assert!(matches!(r.outcome, LineOutcome::AlreadyBanned));
}

#[test]
fn line_reports_come_every_ten_lines_after_the_period() {
    let mut leroy = Leroy::new(args(0, 0, 30_000), 0).unwrap();
    let mut reports = 0;
    for i in 0..20u64 {
        // Spaced far enough apart that the reporting period has always
        // passed; the ten-line gate alone decides.
        let now = (i + 1) * 11 * SECOND;
        let r = leroy.handle_line(&line("not an ip"), now);
        if let Some(rep) = r.report {
            assert_eq!(rep.lines, 10);
            reports += 1;
        }
    }
    assert_eq!(reports, 2);
}

#[test]
fn ban_reports_count_committed_bans() {
    let mut leroy = Leroy::new(args(0, 0, 30_000), 0).unwrap();
    assert!(leroy.take_ban_report(20 * SECOND).is_none());
    let r = leroy.handle_line(&line("10.0.0.1"), 0);
    assert!(matches!(r.outcome, LineOutcome::Banned(_)));
    let rep = leroy.take_ban_report(20 * SECOND).unwrap();
    assert_eq!(rep.bans, 1);
    // Taking the report resets the counter.
    assert!(leroy.take_ban_report(20 * SECOND).is_none());
}
