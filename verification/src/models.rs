//! Positions, quotes and alert events.
use crate::clock::local_now_naive_seconds;
use crate::config::ThresholdType;
use vstd::prelude::*;

verus! {

/// An exact ratio `numerator / denominator`. A denominator of 0 stands for
/// the ratio of a position bought at price 0 (infinite, or undefined when
/// the numerator is 0 too).
#[derive(Debug, Clone, Copy, PartialEq, Eq, Structural)]
pub struct PnlRatio {
    pub numerator: i128,
    pub denominator: u64,
}

/// A held stock. Prices are in thousandths of a yuan; the `*_alerted` flags
/// record which alerts have fired (an alert that has fired does not fire
/// again). Times are local wall-clock times in seconds since
/// 1970-01-01 00:00:00.
#[derive(Debug, Clone)]
pub struct StockPosition {
    pub id: Option<i64>,
    pub code: String,
    pub name: String,
    pub buy_price: u64,
    pub current_price: u64,
    pub highest_price_since_buy: u64,
    pub profit_threshold_level1_alerted: bool,
    pub profit_threshold_level2_alerted: bool,
    pub loss_threshold_alerted: bool,
    pub profit_drawdown_half_alerted: bool,
    pub profit_threshold1: ThresholdType,
    pub profit_threshold2: ThresholdType,
    pub loss_threshold: ThresholdType,
    pub created_at: Option<i64>,
    pub updated_at: Option<i64>,
}

/// `(current - buy) / buy`.
pub open spec fn pnl_of(p: StockPosition) -> PnlRatio {
    PnlRatio {
        numerator: (p.current_price - p.buy_price) as i128,
        denominator: p.buy_price,
    }
}

/// `(highest - buy) / buy`.
pub open spec fn max_profit_of(p: StockPosition) -> PnlRatio {
    PnlRatio {
        numerator: (p.highest_price_since_buy - p.buy_price) as i128,
        denominator: p.buy_price,
    }
}

/// Same position, same prices, same times: only the alert flags may differ.
pub open spec fn same_but_flags(a: StockPosition, b: StockPosition) -> bool {
    &&& a.id == b.id
    &&& a.code == b.code
    &&& a.name == b.name
    &&& a.buy_price == b.buy_price
    &&& a.current_price == b.current_price
    &&& a.highest_price_since_buy == b.highest_price_since_buy
    &&& a.profit_threshold1 == b.profit_threshold1
    &&& a.profit_threshold2 == b.profit_threshold2
    &&& a.loss_threshold == b.loss_threshold
    &&& a.created_at == b.created_at
    &&& a.updated_at == b.updated_at
}

/// Same position and flags: only the prices and the update time may differ.
pub open spec fn same_but_prices(a: StockPosition, b: StockPosition) -> bool {
    &&& a.id == b.id
    &&& a.code == b.code
    &&& a.name == b.name
    &&& a.buy_price == b.buy_price
    &&& a.profit_threshold_level1_alerted == b.profit_threshold_level1_alerted
    &&& a.profit_threshold_level2_alerted == b.profit_threshold_level2_alerted
    &&& a.loss_threshold_alerted == b.loss_threshold_alerted
    &&& a.profit_drawdown_half_alerted == b.profit_drawdown_half_alerted
    &&& a.profit_threshold1 == b.profit_threshold1
    &&& a.profit_threshold2 == b.profit_threshold2
    &&& a.loss_threshold == b.loss_threshold
    &&& a.created_at == b.created_at
}

/// A threshold, or the given default when there is none.
pub open spec fn threshold_or(t: Option<ThresholdType>, default: ThresholdType) -> ThresholdType {
    match t {
        Some(x) => x,
        None => default,
    }
}

impl StockPosition {
    /// A new holding bought at `buy_price`: current and highest prices start
    /// at the buy price, no alert has fired, and it has no id or times yet.
    /// Missing thresholds default to +10%, +20% and -10%.
    pub fn new_holding(
        code: String,
        name: String,
        buy_price: u64,
        profit_threshold1: Option<ThresholdType>,
        profit_threshold2: Option<ThresholdType>,
        loss_threshold: Option<ThresholdType>,
    ) -> (r: Self)
        ensures
            r.id is None,
            r.code == code,
            r.name == name,
            r.buy_price == buy_price,
            r.current_price == buy_price,
            r.highest_price_since_buy == buy_price,
            !r.profit_threshold_level1_alerted,
            !r.profit_threshold_level2_alerted,
            !r.loss_threshold_alerted,
            !r.profit_drawdown_half_alerted,
            r.profit_threshold1 == threshold_or(profit_threshold1, ThresholdType::Ratio(10)),
            r.profit_threshold2 == threshold_or(profit_threshold2, ThresholdType::Ratio(20)),
            r.loss_threshold == threshold_or(loss_threshold, ThresholdType::Ratio(10)),
            r.created_at is None,
            r.updated_at is None,
    {
        StockPosition {
            id: None,
            code,
            name,
            buy_price,
            current_price: buy_price,
            highest_price_since_buy: buy_price,
            profit_threshold_level1_alerted: false,
            profit_threshold_level2_alerted: false,
            loss_threshold_alerted: false,
            profit_drawdown_half_alerted: false,
            profit_threshold1: match profit_threshold1 {
                Some(t) => t,
                None => ThresholdType::Ratio(10),
            },
            profit_threshold2: match profit_threshold2 {
                Some(t) => t,
                None => ThresholdType::Ratio(20),
            },
            loss_threshold: match loss_threshold {
                Some(t) => t,
                None => ThresholdType::Ratio(10),
            },
            created_at: None,
            updated_at: None,
        }
    }

    /// The profit-and-loss ratio `(current - buy) / buy`.
    pub fn pnl_ratio(&self) -> (r: PnlRatio)
        ensures
            r == pnl_of(*self),
    {
        PnlRatio {
            numerator: self.current_price as i128 - self.buy_price as i128,
            denominator: self.buy_price,
        }
    }

    /// The best ratio so far, `(highest - buy) / buy`.
    pub fn max_profit_ratio(&self) -> (r: PnlRatio)
        ensures
            r == max_profit_of(*self),
    {
        PnlRatio {
            numerator: self.highest_price_since_buy as i128 - self.buy_price as i128,
            denominator: self.buy_price,
        }
    }

    /// Records a new price: it becomes the current price, raises the
    /// highest price when above it, and stamps the update time.
    pub fn update_price(&mut self, price: u64)
        ensures
            final(self).current_price == price,
            final(self).highest_price_since_buy == (if price > old(self).highest_price_since_buy {
                price
            } else {
                old(self).highest_price_since_buy
            }),
            final(self).updated_at is Some,
            same_but_prices(*old(self), *final(self)),
    {
        self.current_price = price;
        if price > self.highest_price_since_buy {
            self.highest_price_since_buy = price;
        }
        self.updated_at = Some(local_now_naive_seconds());
    }
}

/// A price received for a stock: price and volume in thousandths, time in
/// nanoseconds since the Unix epoch.
#[derive(Debug, Clone)]
pub struct Quote {
    pub code: String,
    pub price: u64,
    pub volume: Option<u64>,
    pub timestamp: i128,
}

/// Which rule an alert comes from.
#[derive(Debug, Clone, Copy, PartialEq, Eq, Structural)]
pub enum AlertRule {
    ProfitThreshold(ThresholdType),
    LossThreshold(ThresholdType),
    ProfitDrawdownHalf,
}

/// A fired alert. `pnl_ratio` is the loss ratio (the negated
/// profit-and-loss ratio) for a loss alert; the time is in nanoseconds
/// since the Unix epoch.
#[derive(Debug, Clone)]
pub struct AlertEvent {
    pub code: String,
    pub name: String,
    pub rule: AlertRule,
    pub current_price: u64,
    pub pnl_ratio: PnlRatio,
    pub max_profit_ratio: PnlRatio,
    pub timestamp: i128,
}

} // verus!
