use stock_alert::config::{AlertConfig, ThresholdType};
use stock_alert::engine::AlertEngine;
use stock_alert::models::{AlertRule, PnlRatio, StockPosition};

fn position(buy: u64, price: u64) -> StockPosition {
    StockPosition {
        id: Some(1),
        code: "000001".to_string(),
        name: "平安银行".to_string(),
        buy_price: buy,
        current_price: buy,
        highest_price_since_buy: buy,
        profit_threshold_level1_alerted: false,
        profit_threshold_level2_alerted: false,
        loss_threshold_alerted: false,
        profit_drawdown_half_alerted: false,
        profit_threshold1: ThresholdType::Ratio(10),
        profit_threshold2: ThresholdType::Ratio(20),
        loss_threshold: ThresholdType::Ratio(10),
        created_at: None,
        updated_at: None,
    }
    .with_price(price)
}

trait WithPrice {
    fn with_price(self, price: u64) -> Self;
}

impl WithPrice for StockPosition {
    fn with_price(mut self, price: u64) -> Self {
        self.update_price(price);
        self
    }
}

fn rules(engine: &mut AlertEngine, p: &mut StockPosition, price: u64) -> Vec<AlertRule> {
    p.update_price(price);
    engine.process_update_at(p, 42).iter().map(|e| e.rule).collect()
}

#[test]
fn profit_levels_then_drawdown() {
    let mut engine = AlertEngine::new(AlertConfig::default());
    let mut p = position(10_000, 10_000);
    assert!(rules(&mut engine, &mut p, 10_500).is_empty());
    assert_eq!(rules(&mut engine, &mut p, 11_000), vec![AlertRule::ProfitThreshold(ThresholdType::Ratio(10))]);
    assert!(p.profit_threshold_level1_alerted);
    assert!(rules(&mut engine, &mut p, 11_500).is_empty());
    assert_eq!(rules(&mut engine, &mut p, 12_000), vec![AlertRule::ProfitThreshold(ThresholdType::Ratio(20))]);
    assert!(p.profit_threshold_level2_alerted);
    // 15% of a best 20%: above half, nothing.
    assert!(rules(&mut engine, &mut p, 11_500).is_empty());
    // 10% of a best 20%: no longer above half.
    assert_eq!(rules(&mut engine, &mut p, 11_000), vec![AlertRule::ProfitDrawdownHalf]);
    assert!(p.profit_drawdown_half_alerted);
    assert!(rules(&mut engine, &mut p, 10_000).is_empty());
    // Every alert has fired: nothing fires again.
    assert!(rules(&mut engine, &mut p, 13_000).is_empty());
    assert!(rules(&mut engine, &mut p, 11_000).is_empty());
}

fn loss_enabled() -> AlertConfig {
    AlertConfig { enable_loss_thresholds: true, ..AlertConfig::default() }
}

#[test]
fn flags_stay_set_after_falling_back() {
    let mut engine = AlertEngine::new(AlertConfig::default());
    let mut p = position(10_000, 10_000);
    assert_eq!(rules(&mut engine, &mut p, 11_500), vec![AlertRule::ProfitThreshold(ThresholdType::Ratio(10))]);
    assert!(rules(&mut engine, &mut p, 10_500).is_empty());
    assert!(p.profit_threshold_level1_alerted);
    assert!(rules(&mut engine, &mut p, 11_500).is_empty());
}

#[test]
fn loss_alert_does_not_repeat() {
    let mut engine = AlertEngine::new(loss_enabled());
    let mut p = position(10_000, 10_000);
    assert_eq!(rules(&mut engine, &mut p, 8_500), vec![AlertRule::LossThreshold(ThresholdType::Ratio(10))]);
    assert!(rules(&mut engine, &mut p, 9_500).is_empty());
    assert!(p.loss_threshold_alerted);
    assert!(rules(&mut engine, &mut p, 8_500).is_empty());
}

#[test]
fn drawdown_after_level_two_keeps_profit_flags() {
    let mut engine = AlertEngine::new(AlertConfig::default());
    let mut p = position(10_000, 10_000);
    p.update_price(12_000);
    p.update_price(10_800);
    p.profit_threshold_level1_alerted = true;
    p.profit_threshold_level2_alerted = true;
    let events = engine.process_update_at(&mut p, 0);
    assert_eq!(events.len(), 1);
    assert_eq!(events[0].rule, AlertRule::ProfitDrawdownHalf);
    assert_eq!(events[0].pnl_ratio, PnlRatio { numerator: 800, denominator: 10_000 });
    assert_eq!(events[0].max_profit_ratio, PnlRatio { numerator: 2_000, denominator: 10_000 });
    assert!(p.profit_drawdown_half_alerted);
    assert!(p.profit_threshold_level1_alerted);
    assert!(p.profit_threshold_level2_alerted);
    assert!(!p.loss_threshold_alerted);
}

#[test]
fn drawdown_needs_only_the_level_two_flag() {
    let mut engine = AlertEngine::new(AlertConfig::default());
    let mut p = position(10_000, 10_000);
    p.update_price(11_000);
    p.update_price(10_400);
    p.profit_threshold_level1_alerted = true;
    p.profit_threshold_level2_alerted = true;
    assert_eq!(engine.process_update_at(&mut p, 0).iter().map(|e| e.rule).collect::<Vec<_>>(), vec![AlertRule::ProfitDrawdownHalf]);
}

#[test]
fn no_loss_alert_by_default() {
    let mut engine = AlertEngine::new(AlertConfig::default());
    let mut p = position(10_000, 8_500);
    assert!(engine.process_update_at(&mut p, 0).is_empty());
    assert!(!p.loss_threshold_alerted);
}

#[test]
fn event_fields() {
    let mut engine = AlertEngine::new(AlertConfig::default());
    let mut p = position(10_000, 11_000);
    let events = engine.process_update_at(&mut p, 1234);
    assert_eq!(events.len(), 1);
    let e = &events[0];
    assert_eq!(e.code, "000001");
    assert_eq!(e.name, "平安银行");
    assert_eq!(e.current_price, 11_000);
    assert_eq!(e.pnl_ratio, PnlRatio { numerator: 1_000, denominator: 10_000 });
    assert_eq!(e.max_profit_ratio, PnlRatio { numerator: 1_000, denominator: 10_000 });
    assert_eq!(e.timestamp, 1234);
}

#[test]
fn loss_alert_once_with_negated_ratio() {
    let mut engine = AlertEngine::new(loss_enabled());
    let mut p = position(10_000, 10_000);
    assert!(rules(&mut engine, &mut p, 9_100).is_empty());
    p.update_price(9_000);
    let events = engine.process_update_at(&mut p, 0);
    assert_eq!(events.len(), 1);
    assert_eq!(events[0].rule, AlertRule::LossThreshold(ThresholdType::Ratio(10)));
    assert_eq!(events[0].pnl_ratio, PnlRatio { numerator: 1_000, denominator: 10_000 });
    assert!(rules(&mut engine, &mut p, 8_000).is_empty());
}

#[test]
fn level_two_first_then_level_one_next_update() {
    let mut engine = AlertEngine::new(AlertConfig::default());
    let mut p = position(10_000, 10_000);
    assert_eq!(rules(&mut engine, &mut p, 12_500), vec![AlertRule::ProfitThreshold(ThresholdType::Ratio(20))]);
    assert!(!p.profit_threshold_level1_alerted);
    assert_eq!(rules(&mut engine, &mut p, 12_500), vec![AlertRule::ProfitThreshold(ThresholdType::Ratio(10))]);
    assert!(rules(&mut engine, &mut p, 12_500).is_empty());
}

#[test]
fn level_two_and_drawdown_in_one_update() {
    let mut engine = AlertEngine::new(AlertConfig::default());
    let mut p = position(10_000, 10_000);
    p.update_price(15_000);
    p.update_price(12_000);
    let events = engine.process_update_at(&mut p, 0);
    let r: Vec<AlertRule> = events.iter().map(|e| e.rule).collect();
    assert_eq!(r, vec![AlertRule::ProfitThreshold(ThresholdType::Ratio(20)), AlertRule::ProfitDrawdownHalf]);
}

#[test]
fn price_threshold_levels() {
    let cfg = AlertConfig {
        profit_thresholds: [ThresholdType::Price(11_000), ThresholdType::Price(12_000)],
        loss_threshold: ThresholdType::Price(9_500),
        enable_loss_thresholds: true,
    };
    let mut engine = AlertEngine::new(cfg);
    let mut p = position(10_000, 10_000);
    assert_eq!(rules(&mut engine, &mut p, 11_000), vec![AlertRule::ProfitThreshold(ThresholdType::Price(11_000))]);
    assert_eq!(rules(&mut engine, &mut p, 9_500), vec![AlertRule::LossThreshold(ThresholdType::Price(9_500))]);
}

#[test]
fn process_update_keeps_prices() {
    let mut engine = AlertEngine::new(AlertConfig::default());
    let mut p = position(10_000, 12_000);
    let before = p.clone();
    let events = engine.process_update(&mut p);
    assert_eq!(events.len(), 1);
    assert_eq!(p.current_price, before.current_price);
    assert_eq!(p.highest_price_since_buy, before.highest_price_since_buy);
    assert_eq!(p.code, before.code);
    assert_eq!(p.updated_at, before.updated_at);
}

#[test]
fn update_price_tracks_the_highest() {
    let mut p = position(10_000, 10_000);
    p.update_price(12_000);
    assert_eq!((p.current_price, p.highest_price_since_buy), (12_000, 12_000));
    p.update_price(11_000);
    assert_eq!((p.current_price, p.highest_price_since_buy), (11_000, 12_000));
    assert!(p.updated_at.is_some());
    assert_eq!(p.pnl_ratio(), PnlRatio { numerator: 1_000, denominator: 10_000 });
    assert_eq!(p.max_profit_ratio(), PnlRatio { numerator: 2_000, denominator: 10_000 });
    p.update_price(9_000);
    assert_eq!(p.pnl_ratio(), PnlRatio { numerator: -1_000, denominator: 10_000 });
}

#[test]
fn zero_buy_price() {
    let mut engine = AlertEngine::new(AlertConfig::default());
    let mut p = position(0, 0);
    assert!(rules(&mut engine, &mut p, 0).is_empty());
    let r = rules(&mut engine, &mut p, 5);
    assert_eq!(r, vec![AlertRule::ProfitThreshold(ThresholdType::Ratio(20)), AlertRule::ProfitDrawdownHalf]);
}
