use chrono::{Datelike, TimeZone, Timelike};
use chrono_tz::Asia::Shanghai;
use stock_alert::config::TradingHoursConfig;
use stock_alert::scheduler::{SchedulerError, TradingScheduler, ZonedNow};

const NS: u64 = 1_000_000_000;

fn at(h: u64, m: u64, s: u64) -> u64 {
    (h * 3600 + m * 60 + s) * NS
}

fn scheduler() -> TradingScheduler {
    TradingScheduler::new(TradingHoursConfig::default(), "Asia/Shanghai").unwrap()
}

fn shanghai_now(y: i32, mo: u32, d: u32, h: u32, mi: u32, s: u32) -> ZonedNow {
    let t = Shanghai.with_ymd_and_hms(y, mo, d, h, mi, s).unwrap();
    ZonedNow {
        unix_seconds: t.timestamp(),
        unix_nanos: 0,
        day: t.date_naive().num_days_from_ce(),
        weekday: t.weekday().num_days_from_monday(),
        seconds: t.num_seconds_from_midnight(),
        nanos: 0,
    }
}

#[test]
fn unknown_time_zone() {
    match TradingScheduler::new(TradingHoursConfig::default(), "Mars/Base") {
        Err(SchedulerError::UnknownTimeZone(n)) => assert_eq!(n, "Mars/Base"),
        _ => panic!("expected an unknown zone"),
    }
}

#[test]
fn sessions() {
    let s = scheduler();
    assert_eq!(s.trading_hours_at(0, at(10, 0, 0)).unwrap(), true);
    assert_eq!(s.trading_hours_at(0, at(9, 30, 0)).unwrap(), true);
    assert_eq!(s.trading_hours_at(0, at(9, 29, 59)).unwrap(), false);
    assert_eq!(s.trading_hours_at(0, at(11, 30, 0)).unwrap(), true);
    assert_eq!(s.trading_hours_at(0, at(11, 30, 0) + 1).unwrap(), false);
    assert_eq!(s.trading_hours_at(2, at(12, 0, 0)).unwrap(), false);
    assert_eq!(s.trading_hours_at(4, at(14, 59, 59)).unwrap(), true);
    assert_eq!(s.trading_hours_at(4, at(15, 0, 1)).unwrap(), false);
    assert_eq!(s.trading_hours_at(5, at(10, 0, 0)).unwrap(), false);
    assert_eq!(s.trading_hours_at(6, at(14, 0, 0)).unwrap(), false);
}

#[test]
fn bad_configured_time() {
    let mut hours = TradingHoursConfig::default();
    hours.afternoon_start = "1pm".to_string();
    let s = TradingScheduler::new(hours, "Asia/Shanghai").unwrap();
    match s.trading_hours_at(1, at(10, 0, 0)) {
        Err(SchedulerError::BadTime(t)) => assert_eq!(t, "1pm"),
        _ => panic!("expected a bad time"),
    }
    // weekends are closed before the times are read
    assert_eq!(s.trading_hours_at(5, at(10, 0, 0)).unwrap(), false);
}

#[test]
fn waits() {
    let s = scheduler();
    // Monday 2024-01-15 08:00: the morning start is 90 minutes away.
    assert_eq!(s.wait_seconds_at(shanghai_now(2024, 1, 15, 8, 0, 0), false).unwrap(), 5400);
    // Monday at noon: the afternoon start is an hour away.
    assert_eq!(s.wait_seconds_at(shanghai_now(2024, 1, 15, 12, 0, 0), false).unwrap(), 3600);
    // Monday 16:00: Tuesday 09:30.
    assert_eq!(s.wait_seconds_at(shanghai_now(2024, 1, 15, 16, 0, 0), false).unwrap(), 17 * 3600 + 1800);
    // Saturday 2024-01-20 10:00: Monday 09:30.
    assert_eq!(s.wait_seconds_at(shanghai_now(2024, 1, 20, 10, 0, 0), false).unwrap(), 2 * 86400 - 1800);
    // Sunday 20:00: Monday 09:30.
    assert_eq!(s.wait_seconds_at(shanghai_now(2024, 1, 21, 20, 0, 0), false).unwrap(), 13 * 3600 + 1800);
    // within a session, or while trading
    assert_eq!(s.wait_seconds_at(shanghai_now(2024, 1, 15, 10, 0, 0), false).unwrap(), 1);
    assert_eq!(s.wait_seconds_at(shanghai_now(2024, 1, 15, 8, 0, 0), true).unwrap(), 0);
}

#[test]
fn clock_questions_answer() {
    let s = scheduler();
    assert!(s.is_trading_hours().is_ok());
    let w = s.calculate_wait_seconds().unwrap();
    assert!(w <= 3 * 86400);
}
