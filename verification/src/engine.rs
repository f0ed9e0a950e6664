//! The alert rules: profit levels, loss, and giving back half of the best
//! profit. Each alert fires once per position: its flag is set when it
//! fires, and a set flag keeps it from firing again.
use crate::clock::utc_now_nanos;
use crate::config::{threshold_reached, AlertConfig, ThresholdType};
use crate::models::{
    max_profit_of, pnl_of, same_but_flags, AlertEvent, AlertRule, PnlRatio, StockPosition,
};
use vstd::prelude::*;

verus! {

/// Decides which alerts a position's current price fires.
pub struct AlertEngine {
    config: AlertConfig,
}

impl View for AlertEngine {
    type V = AlertConfig;

    closed spec fn view(&self) -> AlertConfig {
        self.config
    }
}

/// The second (level-2) profit threshold is reached at the current price.
pub open spec fn level2_reached(cfg: AlertConfig, p: StockPosition) -> bool {
    threshold_reached(cfg.profit_thresholds[1], p.buy_price, p.current_price, true)
}

/// The first (level-1) profit threshold is reached at the current price.
pub open spec fn level1_reached(cfg: AlertConfig, p: StockPosition) -> bool {
    threshold_reached(cfg.profit_thresholds[0], p.buy_price, p.current_price, true)
}

/// Loss alerts are enabled and the loss threshold is reached at the
/// current price.
pub open spec fn loss_reached(cfg: AlertConfig, p: StockPosition) -> bool {
    cfg.enable_loss_thresholds && threshold_reached(
        cfg.loss_threshold,
        p.buy_price,
        p.current_price,
        false,
    )
}

/// The level-2 profit alert fires: its threshold is reached and it has not
/// fired before.
pub open spec fn level2_fires(cfg: AlertConfig, p: StockPosition) -> bool {
    level2_reached(cfg, p) && !p.profit_threshold_level2_alerted
}

/// The level-1 profit alert fires: level 2 does not, the first threshold is
/// reached, and it has not fired before.
pub open spec fn level1_fires(cfg: AlertConfig, p: StockPosition) -> bool {
    &&& !level2_fires(cfg, p)
    &&& level1_reached(cfg, p)
    &&& !p.profit_threshold_level1_alerted
}

/// The loss alert fires: no profit alert does, loss alerts are enabled,
/// the loss threshold is reached, and it has not fired before.
pub open spec fn loss_fires(cfg: AlertConfig, p: StockPosition) -> bool {
    &&& !level2_fires(cfg, p)
    &&& !level1_fires(cfg, p)
    &&& loss_reached(cfg, p)
    &&& !p.loss_threshold_alerted
}

/// The current profit ratio is above half of the best one:
/// `(current - buy) / buy > (highest - buy) / buy / 2`. Never so for a buy
/// price of 0, where both ratios are infinite or undefined.
pub open spec fn above_half_of_best(p: StockPosition) -> bool {
    p.buy_price > 0 && 2 * (p.current_price - p.buy_price) > p.highest_price_since_buy
        - p.buy_price
}

/// The draw-down alert fires: the level-2 profit alert has fired (now or
/// before), the draw-down alert has not, and the profit is no longer above
/// half of the best one.
pub open spec fn drawdown_fires(cfg: AlertConfig, p: StockPosition) -> bool {
    &&& (p.profit_threshold_level2_alerted || level2_fires(cfg, p))
    &&& !p.profit_drawdown_half_alerted
    &&& !above_half_of_best(p)
}

/// The rules of the alerts fired for `p`, in order.
pub open spec fn fired_rules(cfg: AlertConfig, p: StockPosition) -> Seq<AlertRule> {
    let first = if level2_fires(cfg, p) {
        seq![AlertRule::ProfitThreshold(cfg.profit_thresholds[1])]
    } else if level1_fires(cfg, p) {
        seq![AlertRule::ProfitThreshold(cfg.profit_thresholds[0])]
    } else if loss_fires(cfg, p) {
        seq![AlertRule::LossThreshold(cfg.loss_threshold)]
    } else {
        Seq::empty()
    };
    first + if drawdown_fires(cfg, p) {
        seq![AlertRule::ProfitDrawdownHalf]
    } else {
        Seq::empty()
    }
}

/// `after` is `before` with the flags of the fired alerts set; no flag is
/// ever cleared.
pub open spec fn flags_after(cfg: AlertConfig, before: StockPosition, after: StockPosition) -> bool {
    &&& same_but_flags(before, after)
    &&& after.profit_threshold_level2_alerted == (before.profit_threshold_level2_alerted
        || level2_fires(cfg, before))
    &&& after.profit_threshold_level1_alerted == (before.profit_threshold_level1_alerted
        || level1_fires(cfg, before))
    &&& after.loss_threshold_alerted == (before.loss_threshold_alerted || loss_fires(cfg, before))
    &&& after.profit_drawdown_half_alerted == (before.profit_drawdown_half_alerted
        || drawdown_fires(cfg, before))
}

/// `e` reports `rule` for position `p`: its code, name and price, the
/// profit-and-loss ratio (negated for a loss alert) and the best ratio.
pub open spec fn event_for(e: AlertEvent, p: StockPosition, rule: AlertRule) -> bool {
    &&& e.code@ == p.code@
    &&& e.name@ == p.name@
    &&& e.rule == rule
    &&& e.current_price == p.current_price
    &&& e.pnl_ratio == (if rule is LossThreshold {
        PnlRatio { numerator: (-pnl_of(p).numerator) as i128, denominator: p.buy_price }
    } else {
        pnl_of(p)
    })
    &&& e.max_profit_ratio == max_profit_of(p)
}

/// `events` are the alerts fired for `p`, in order.
pub open spec fn events_for(cfg: AlertConfig, events: Seq<AlertEvent>, p: StockPosition) -> bool {
    &&& events.len() == fired_rules(cfg, p).len()
    &&& forall|i: int| 0 <= i < events.len() ==> event_for(#[trigger] events[i], p, fired_rules(cfg, p)[i])
}

fn make_event(p: &StockPosition, rule: AlertRule, pnl: PnlRatio, max_profit: PnlRatio, now: i128) -> (e: AlertEvent)
    ensures
        e.code@ == p.code@,
        e.name@ == p.name@,
        e.rule == rule,
        e.current_price == p.current_price,
        e.pnl_ratio == pnl,
        e.max_profit_ratio == max_profit,
        e.timestamp == now,
{
    AlertEvent {
        code: p.code.clone(),
        name: p.name.clone(),
        rule,
        current_price: p.current_price,
        pnl_ratio: pnl,
        max_profit_ratio: max_profit,
        timestamp: now,
    }
}

fn is_above_half_of_best(p: &StockPosition) -> (r: bool)
    ensures
        r == above_half_of_best(*p),
{
    if p.buy_price == 0 {
        false
    } else {
        let cur = p.current_price as i128 - p.buy_price as i128;
        let best = p.highest_price_since_buy as i128 - p.buy_price as i128;
        2 * cur > best
    }
}

impl AlertEngine {
    pub fn new(config: AlertConfig) -> (r: Self)
        ensures
            r@ == config,
    {
        AlertEngine { config }
    }

    /// Fires the alerts of `position` at its current price, stamped with
    /// time `now`, and sets their flags.
    pub fn process_update_at(&mut self, position: &mut StockPosition, now: i128) -> (events: Vec<AlertEvent>)
        ensures
            final(self)@ == old(self)@,
            flags_after(old(self)@, *old(position), *final(position)),
            events_for(old(self)@, events@, *old(position)),
            forall|i: int| 0 <= i < events@.len() ==> (#[trigger] events@[i]).timestamp == now,
            forall|i: int|
                0 <= i < events@.len() ==> (#[trigger] events@[i]).current_price == old(
                    position,
                ).current_price && events@[i].code@ == old(position).code@ && events@[i].name@
                    == old(position).name@,
    {
        let ghost p0 = *position;
        let cfg = self.config;
        let pnl = position.pnl_ratio();
        let max_profit = position.max_profit_ratio();
        let buy = position.buy_price;
        let cur = position.current_price;
        let mut events: Vec<AlertEvent> = Vec::new();
        let t1 = cfg.profit_thresholds[1];
        let t0 = cfg.profit_thresholds[0];
        let reached2 = t1.is_triggered(buy, cur, true);
        let reached1 = t0.is_triggered(buy, cur, true);
        let reached_loss = cfg.enable_loss_thresholds && cfg.loss_threshold.is_triggered(
            buy,
            cur,
            false,
        );
        if reached2 && !position.profit_threshold_level2_alerted {
            events.push(make_event(position, AlertRule::ProfitThreshold(t1), pnl, max_profit, now));
            position.profit_threshold_level2_alerted = true;
        } else if reached1 && !position.profit_threshold_level1_alerted {
            events.push(make_event(position, AlertRule::ProfitThreshold(t0), pnl, max_profit, now));
            position.profit_threshold_level1_alerted = true;
        } else if reached_loss && !position.loss_threshold_alerted {
            let loss = PnlRatio { numerator: -pnl.numerator, denominator: pnl.denominator };
            events.push(
                make_event(position, AlertRule::LossThreshold(cfg.loss_threshold), loss, max_profit, now),
            );
            position.loss_threshold_alerted = true;
        }
        if position.profit_threshold_level2_alerted && !position.profit_drawdown_half_alerted
            && !is_above_half_of_best(position) {
            events.push(make_event(position, AlertRule::ProfitDrawdownHalf, pnl, max_profit, now));
            position.profit_drawdown_half_alerted = true;
        }
        proof {
            let rules = fired_rules(cfg, p0);
            assert(events@.len() == rules.len());
            assert forall|i: int| 0 <= i < events@.len() implies event_for(
                #[trigger] events@[i],
                p0,
                rules[i],
            ) by {}
        }
        events
    }

    /// Fires the alerts of `position` at its current price, stamped with the
    /// current time, and sets their flags.
    pub fn process_update(&mut self, position: &mut StockPosition) -> (events: Vec<AlertEvent>)
        ensures
            final(self)@ == old(self)@,
            flags_after(old(self)@, *old(position), *final(position)),
            events_for(old(self)@, events@, *old(position)),
            forall|i: int, j: int|
                0 <= i < events@.len() && 0 <= j < events@.len() ==> (#[trigger] events@[i]).timestamp
                    == (#[trigger] events@[j]).timestamp,
            forall|i: int|
                0 <= i < events@.len() ==> (#[trigger] events@[i]).current_price == old(
                    position,
                ).current_price && events@[i].code@ == old(position).code@ && events@[i].name@
                    == old(position).name@,
    {
        let now = utc_now_nanos();
        self.process_update_at(position, now)
    }
}

/// The flags of an alert, once set, stay set: an update never clears one.
pub proof fn law_flags_never_cleared(cfg: AlertConfig, before: StockPosition, after: StockPosition)
    requires
        flags_after(cfg, before, after),
    ensures
        before.profit_threshold_level1_alerted ==> after.profit_threshold_level1_alerted,
        before.profit_threshold_level2_alerted ==> after.profit_threshold_level2_alerted,
        before.loss_threshold_alerted ==> after.loss_threshold_alerted,
        before.profit_drawdown_half_alerted ==> after.profit_drawdown_half_alerted,
{
}

/// An alert that has fired does not fire again: once an update fired an
/// alert, no later update of the position fires it, whatever the prices
/// then (`later` is any position whose flags are at least those the first
/// update left, as they are after any number of further updates).
pub proof fn law_alert_fires_once(
    cfg: AlertConfig,
    before: StockPosition,
    after: StockPosition,
    later: StockPosition,
)
    requires
        flags_after(cfg, before, after),
        after.profit_threshold_level1_alerted ==> later.profit_threshold_level1_alerted,
        after.profit_threshold_level2_alerted ==> later.profit_threshold_level2_alerted,
        after.loss_threshold_alerted ==> later.loss_threshold_alerted,
        after.profit_drawdown_half_alerted ==> later.profit_drawdown_half_alerted,
    ensures
        level2_fires(cfg, before) ==> !level2_fires(cfg, later),
        level1_fires(cfg, before) ==> !level1_fires(cfg, later),
        loss_fires(cfg, before) ==> !loss_fires(cfg, later),
        drawdown_fires(cfg, before) ==> !drawdown_fires(cfg, later),
{
}

/// One update fires at most one threshold alert (level 2 before level 1
/// before loss), and at most one draw-down alert besides.
pub proof fn law_at_most_one_threshold_alert(cfg: AlertConfig, p: StockPosition)
    ensures
        fired_rules(cfg, p).len() <= 2,
        !(level2_fires(cfg, p) && level1_fires(cfg, p)),
        !(level2_fires(cfg, p) && loss_fires(cfg, p)),
        !(level1_fires(cfg, p) && loss_fires(cfg, p)),
        forall|i: int|
            0 <= i < fired_rules(cfg, p).len() && #[trigger] fired_rules(cfg, p)[i]
                is ProfitDrawdownHalf ==> i == fired_rules(cfg, p).len() - 1,
{
}

/// The draw-down alert needs the level-2 profit alert (fired now or
/// before), and a profit at most half of the best one.
pub proof fn law_drawdown_needs_level2(cfg: AlertConfig, p: StockPosition)
    ensures
        drawdown_fires(cfg, p) ==> (p.profit_threshold_level2_alerted || level2_fires(cfg, p)),
        drawdown_fires(cfg, p) && p.buy_price > 0 ==> 2 * (p.current_price - p.buy_price) <= (
        p.highest_price_since_buy - p.buy_price),
{
}

/// A profit threshold reached at some price stays reached at any higher
/// price, and a loss threshold reached at some price stays reached at any
/// lower price.
pub proof fn law_thresholds_monotone(t: ThresholdType, buy: u64, price: u64, other: u64)
    ensures
        threshold_reached(t, buy, price, true) && price <= other ==> threshold_reached(
            t,
            buy,
            other,
            true,
        ),
        threshold_reached(t, buy, price, false) && other <= price ==> threshold_reached(
            t,
            buy,
            other,
            false,
        ),
{
}

/// Every alert reports the position as it is: its code, its name, its
/// current price (whatever the rule, the draw-down alert included) and its
/// best profit ratio; only a loss alert negates the profit-and-loss ratio.
pub proof fn law_events_report_the_position(cfg: AlertConfig, events: Seq<AlertEvent>, p: StockPosition)
    requires
        events_for(cfg, events, p),
    ensures
        forall|i: int|
            0 <= i < events.len() ==> {
                &&& (#[trigger] events[i]).current_price == p.current_price
                &&& events[i].code@ == p.code@
                &&& events[i].name@ == p.name@
                &&& events[i].max_profit_ratio.numerator == p.highest_price_since_buy - p.buy_price
                &&& events[i].max_profit_ratio.denominator == p.buy_price
                &&& events[i].pnl_ratio.denominator == p.buy_price
                &&& (events[i].rule is LossThreshold ==> events[i].pnl_ratio.numerator
                    == p.buy_price - p.current_price)
                &&& (!(events[i].rule is LossThreshold) ==> events[i].pnl_ratio.numerator
                    == p.current_price - p.buy_price)
            },
{
    assert forall|i: int| 0 <= i < events.len() implies (#[trigger] events[i]).current_price
        == p.current_price by {
        assert(event_for(events[i], p, fired_rules(cfg, p)[i]));
    }
}

} // verus!
