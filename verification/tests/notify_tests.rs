use stock_alert::config::ThresholdType;
use stock_alert::models::{AlertEvent, AlertRule, PnlRatio, StockPosition};
use stock_alert::notify::{
    alert_log_line, alert_log_line_at, alert_status_text, push_percent, should_play_sound, SoundSpacer,
};

fn percent(numerator: i128, denominator: u64) -> String {
    let mut s = String::new();
    push_percent(&mut s, PnlRatio { numerator, denominator });
    s
}

#[test]
fn percentages() {
    assert_eq!(percent(1_000, 10_000), "10.00");
    assert_eq!(percent(-1_000, 10_000), "-10.00");
    assert_eq!(percent(1, 3), "33.33");
    assert_eq!(percent(2, 3), "66.67");
    assert_eq!(percent(0, 5), "0.00");
    assert_eq!(percent(5, 0), "inf");
    assert_eq!(percent(-5, 0), "-inf");
    assert_eq!(percent(0, 0), "NaN");
}

fn event(rule: AlertRule) -> AlertEvent {
    AlertEvent {
        code: "000001".to_string(),
        name: "平安银行".to_string(),
        rule,
        current_price: 11_550,
        pnl_ratio: PnlRatio { numerator: 1_050, denominator: 10_500 },
        max_profit_ratio: PnlRatio { numerator: 1_260, denominator: 10_500 },
        timestamp: 0,
    }
}

#[test]
fn log_lines() {
    let line = alert_log_line_at(&event(AlertRule::ProfitThreshold(ThresholdType::Ratio(10))), "2024-01-15 10:30:25");
    assert_eq!(line, "[2024-01-15 10:30:25] 平安银行 (000001) - 盈利阈值 10.0% - 当前价: 11.55, 盈亏: 10.00%, 最高盈利: 12.00%\n");
    let line = alert_log_line_at(&event(AlertRule::LossThreshold(ThresholdType::Price(9_000))), "t");
    assert!(line.contains(" - 亏损阈值 ¥9.00 - "));
    let line = alert_log_line_at(&event(AlertRule::ProfitDrawdownHalf), "t");
    assert!(line.contains(" - 盈利回撤过半 - "));
    let line = alert_log_line(&event(AlertRule::ProfitDrawdownHalf));
    assert!(line.starts_with('[') && line.ends_with("%\n"));
    // `[YYYY-MM-DD HH:MM:SS] `: the local time, written by chrono.
    let time: Vec<char> = line.chars().skip(1).take(20).collect();
    assert_eq!(time.len(), 20);
    for (i, c) in time.iter().enumerate() {
        match i {
            4 | 7 => assert_eq!(*c, '-'),
            10 => assert_eq!(*c, ' '),
            13 | 16 => assert_eq!(*c, ':'),
            19 => assert_eq!(*c, ']'),
            _ => assert!(c.is_ascii_digit()),
        }
    }
}

#[test]
fn sound_interval() {
    assert!(should_play_sound(1, 1));
    assert!(!should_play_sound(0, 1));
    assert!(should_play_sound(0, 0));
}

const SECOND: i128 = 1_000_000_000;

#[test]
fn sound_spacer_spaces_sounds() {
    let mut g = SoundSpacer::new(5, 0);
    assert_eq!(g.last_played, -1000 * SECOND);
    // the first sound plays: its mark is 1000 seconds back
    assert!(g.try_play(0));
    assert_eq!(g.last_played, 0);
    // 4.9 seconds later: too soon, nothing changes
    assert!(!g.try_play(4 * SECOND + 900_000_000));
    assert_eq!(g.last_played, 0);
    // 5 seconds after the last sound: plays
    assert!(g.try_play(5 * SECOND));
    assert_eq!(g.last_played, 5 * SECOND);
    // a clock reading before the last sound counts as no time passed
    assert!(!g.try_play(SECOND));
}

#[test]
fn sound_spacer_with_a_long_interval_skips_the_first_sound() {
    let mut g = SoundSpacer::new(2000, 0);
    assert!(!g.try_play(0));
    assert!(g.try_play(1000 * SECOND));
    let mut every = SoundSpacer::new(0, 0);
    assert!(every.try_play(SECOND));
    assert!(every.try_play(0));
}

#[test]
fn status_text() {
    let p = StockPosition {
        id: None,
        code: "1".to_string(),
        name: "n".to_string(),
        buy_price: 1,
        current_price: 1,
        highest_price_since_buy: 1,
        profit_threshold_level1_alerted: true,
        profit_threshold_level2_alerted: false,
        loss_threshold_alerted: true,
        profit_drawdown_half_alerted: false,
        profit_threshold1: ThresholdType::Ratio(10),
        profit_threshold2: ThresholdType::Ratio(20),
        loss_threshold: ThresholdType::Ratio(10),
        created_at: None,
        updated_at: None,
    };
    assert_eq!(alert_status_text(&p), "盈1级✓ 盈2级✗ 亏✓ 回撤✗");
}
