use stock_alert::config::{
    default_polling_interval, default_reconnect_max_delay, default_sse_pos, default_test_interval,
    default_true, AlertConfig, Config, NotifyConfig, QuoteSourceConfig, ThresholdType, TradingHoursConfig,
};
use stock_alert::text::parse_milli;

#[test]
fn defaults() {
    let c = Config::default();
    assert_eq!(c.db_path, "stock_alert.db");
    assert_eq!(c.timezone, "Asia/Shanghai");
    assert_eq!(c.trading_hours.morning_start, "09:30");
    assert_eq!(c.trading_hours.morning_end, "11:30");
    assert_eq!(c.trading_hours.afternoon_start, "13:00");
    assert_eq!(c.trading_hours.afternoon_end, "15:00");
    assert_eq!(c.alert.profit_thresholds, [ThresholdType::Ratio(10), ThresholdType::Ratio(20)]);
    assert_eq!(c.alert.loss_threshold, ThresholdType::Ratio(10));
    assert!(!c.alert.enable_loss_thresholds);
    assert_eq!(c.notify.sound_file, None);
    assert_eq!(c.notify.sound_min_interval, 1);
    assert_eq!(c.notify.log_file, Some("alerts.log".to_string()));
    assert!(!c.quote_source.is_test());
    match c.quote_source {
        QuoteSourceConfig::Sse(s) => {
            assert_eq!(s.sse_url_template, "https://22.push2.eastmoney.com/api/qt/stock/details/sse");
            assert_eq!(s.sse_fields2, "f51,f52,f53,f54,f55");
            assert_eq!(s.sse_mpi, 1000);
            assert_eq!(s.sse_pos, -11);
            assert_eq!(s.polling_url_template, "https://push2.eastmoney.com/api/qt/stock/get");
            assert_eq!(s.max_reconnect_attempts, 0);
            assert_eq!(s.reconnect_initial_delay, 1);
            assert_eq!(s.reconnect_max_delay, 60);
        }
        _ => panic!("expected the stream source"),
    }
    assert_eq!(default_polling_interval(), 2);
    assert_eq!(default_reconnect_max_delay(), 60);
    assert_eq!(default_sse_pos(), -11);
    assert_eq!(default_test_interval(), 1);
    assert!(default_true());
    let _ = (AlertConfig::default(), NotifyConfig::default(), TradingHoursConfig::default());
}

#[test]
fn test_source_config() {
    let t = QuoteSourceConfig::Test { test_data_file: "q.json".to_string(), update_interval: 1, loop_playback: true };
    assert!(t.is_test());
}

#[test]
fn ratio_thresholds() {
    let t = ThresholdType::Ratio(10);
    assert!(t.is_triggered(10_000, 11_000, true));
    assert!(!t.is_triggered(10_000, 10_999, true));
    assert!(t.is_triggered(10_000, 9_000, false));
    assert!(!t.is_triggered(10_000, 9_001, false));
    assert!(!t.is_triggered(10_000, 11_000, false));
    // zero buy price: an infinite ratio for a positive price, none for zero
    assert!(t.is_triggered(0, 1, true));
    assert!(!t.is_triggered(0, 0, true));
    assert!(!t.is_triggered(0, 1, false));
    assert!(ThresholdType::Ratio(-5).is_triggered(10_000, 9_600, true));
}

#[test]
fn price_thresholds() {
    let t = ThresholdType::Price(15_500);
    assert!(t.is_triggered(10_000, 15_500, true));
    assert!(!t.is_triggered(10_000, 15_499, true));
    assert!(t.is_triggered(10_000, 15_500, false));
    assert!(!t.is_triggered(10_000, 15_501, false));
}

#[test]
fn threshold_texts() {
    assert_eq!(ThresholdType::Ratio(10).display_value(), "10%");
    assert_eq!(ThresholdType::Ratio(-5).display_value(), "-5%");
    assert_eq!(ThresholdType::Ratio(i32::MIN).display_value(), "-2147483648%");
    assert_eq!(ThresholdType::Price(15_500).display_value(), "¥15.50");
    assert_eq!(ThresholdType::Price(15_505).display_value(), "¥15.51");
    assert_eq!(ThresholdType::Price(15_504).display_value(), "¥15.50");
    assert_eq!(ThresholdType::Price(5).display_value(), "¥0.01");
    assert_eq!(ThresholdType::Price(0).display_value(), "¥0.00");
    assert_eq!(ThresholdType::Ratio(10).describe(), "百分比(10%)");
    assert_eq!(ThresholdType::Price(15_500).describe(), "价格(¥15.50)");
}

#[test]
fn decimal_numbers() {
    assert_eq!(parse_milli("16.37"), Some(16_370));
    assert_eq!(parse_milli("52"), Some(52_000));
    assert_eq!(parse_milli(".5"), Some(500));
    assert_eq!(parse_milli("5."), Some(5_000));
    assert_eq!(parse_milli("0.001"), Some(1));
    assert_eq!(parse_milli("007"), Some(7_000));
    assert_eq!(parse_milli("1.2345"), Some(1_235));
    assert_eq!(parse_milli("1.23449"), Some(1_234));
    assert_eq!(parse_milli("0.9995"), Some(1_000));
    assert_eq!(parse_milli("16.3745"), Some(16_375));
    assert_eq!(parse_milli("1.2x45"), None);
    assert_eq!(parse_milli("1.234x"), None);
    assert_eq!(parse_milli(""), None);
    assert_eq!(parse_milli("."), None);
    assert_eq!(parse_milli("-1"), None);
    assert_eq!(parse_milli("+1"), Some(1_000));
    assert_eq!(parse_milli("+"), None);
    assert_eq!(parse_milli("1e3"), Some(1_000_000));
    assert_eq!(parse_milli("1.5e3"), Some(1_500_000));
    assert_eq!(parse_milli("25E-1"), Some(2_500));
    assert_eq!(parse_milli("1e+2"), Some(100_000));
    assert_eq!(parse_milli("+.5e1"), Some(5_000));
    assert_eq!(parse_milli("1.2e-3"), Some(1));
    assert_eq!(parse_milli("5e-4"), Some(1));
    assert_eq!(parse_milli("4e-4"), Some(0));
    assert_eq!(parse_milli("1e-99999999999999999999999999999999999999999"), Some(0));
    assert_eq!(parse_milli("0e99999999999999999999999999999999999999999"), Some(0));
    assert_eq!(parse_milli("1e25"), None);
    assert_eq!(parse_milli("1e"), None);
    assert_eq!(parse_milli("e5"), None);
    assert_eq!(parse_milli("1e5.0"), None);
    assert_eq!(parse_milli("-1e3"), None);
    assert_eq!(parse_milli("1.2.3"), None);
    assert_eq!(parse_milli("18446744073709551"), Some(18_446_744_073_709_551_000));
    assert_eq!(parse_milli("18446744073709552"), None);
    assert_eq!(parse_milli("99999999999999999999999"), None);
}
