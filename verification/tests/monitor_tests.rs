use stock_alert::config::{AlertConfig, ThresholdType};
use stock_alert::engine::AlertEngine;
use stock_alert::models::{AlertRule, Quote, StockPosition};
use stock_alert::monitor::PositionBook;

fn position(code: &str, name: &str, buy: u64) -> StockPosition {
    StockPosition {
        id: None,
        code: code.to_string(),
        name: name.to_string(),
        buy_price: buy,
        current_price: buy,
        highest_price_since_buy: buy,
        profit_threshold_level1_alerted: false,
        profit_threshold_level2_alerted: false,
        loss_threshold_alerted: false,
        profit_drawdown_half_alerted: false,
        profit_threshold1: ThresholdType::Ratio(10),
        profit_threshold2: ThresholdType::Ratio(20),
        loss_threshold: ThresholdType::Ratio(10),
        created_at: None,
        updated_at: None,
    }
}

fn quote(code: &str, price: u64) -> Quote {
    Quote { code: code.to_string(), price, volume: None, timestamp: 0 }
}

#[test]
fn later_position_wins() {
    let book = PositionBook::from_positions(vec![
        position("000001", "a", 10_000),
        position("600000", "b", 20_000),
        position("000001", "c", 30_000),
    ]);
    let ps = book.positions();
    assert_eq!(ps.len(), 2);
    let p = ps.iter().find(|p| p.code == "000001").unwrap();
    assert_eq!(p.name, "c");
}

#[test]
fn quote_updates_its_position_only() {
    let mut book = PositionBook::from_positions(vec![position("000001", "a", 10_000), position("600000", "b", 20_000)]);
    let cfg = AlertConfig::default();
    let mut engine = AlertEngine::new(cfg);
    let events = book.handle_quote(&mut engine, &cfg, &quote("000001", 11_000));
    assert_eq!(events.len(), 1);
    assert_eq!(events[0].rule, AlertRule::ProfitThreshold(ThresholdType::Ratio(10)));
    let ps = book.positions();
    assert_eq!(ps[0].current_price, 11_000);
    assert!(ps[0].profit_threshold_level1_alerted);
    assert_eq!(ps[1].current_price, 20_000);
    assert!(!ps[1].profit_threshold_level1_alerted);
    // the same alert does not fire again
    assert!(book.handle_quote(&mut engine, &cfg, &quote("000001", 11_100)).is_empty());
}

#[test]
fn unknown_code_changes_nothing() {
    let mut book = PositionBook::from_positions(vec![position("000001", "a", 10_000)]);
    let cfg = AlertConfig::default();
    let mut engine = AlertEngine::new(cfg);
    assert!(book.handle_quote(&mut engine, &cfg, &quote("999999", 1)).is_empty());
    assert_eq!(book.positions()[0].current_price, 10_000);
}

#[test]
fn equal_thresholds_mark_level_one() {
    let cfg = AlertConfig { profit_thresholds: [ThresholdType::Ratio(10), ThresholdType::Ratio(10)], loss_threshold: ThresholdType::Ratio(10), enable_loss_thresholds: false };
    let mut engine = AlertEngine::new(cfg);
    let mut book = PositionBook::from_positions(vec![position("000001", "a", 10_000)]);
    let events = book.handle_quote(&mut engine, &cfg, &quote("000001", 11_000));
    assert_eq!(events.len(), 1);
    let p = &book.positions()[0];
    assert!(p.profit_threshold_level2_alerted);
    assert!(p.profit_threshold_level1_alerted);
}

#[test]
fn insert_and_remove() {
    let mut book = PositionBook::new();
    book.insert(position("000001", "a", 1));
    book.insert(position("600000", "b", 2));
    book.insert(position("000001", "c", 3));
    assert_eq!(book.positions().len(), 2);
    assert_eq!(book.positions()[0].name, "c");
    let removed = book.remove("000001").unwrap();
    assert_eq!(removed.name, "c");
    assert!(book.remove("000001").is_none());
    assert_eq!(book.positions().len(), 1);
}
