//! Configuration: trading hours, the quote source, alert thresholds and
//! notification settings, with their defaults.
use crate::text::{decimal_digits, int_text, padded_digits, push_decimal, push_int, push_padded, string_from};
use vstd::prelude::*;
use vstd::string::*;

verus! {

/// Trading hours, each as `HH:MM` text.
#[derive(Debug, Clone)]
pub struct TradingHoursConfig {
    pub morning_start: String,
    pub morning_end: String,
    pub afternoon_start: String,
    pub afternoon_end: String,
}

impl TradingHoursConfig {
    pub open spec fn is_default(&self) -> bool {
        &&& self.morning_start@ == "09:30"@
        &&& self.morning_end@ == "11:30"@
        &&& self.afternoon_start@ == "13:00"@
        &&& self.afternoon_end@ == "15:00"@
    }
}

impl Default for TradingHoursConfig {
    fn default() -> (r: Self)
        ensures
            r.is_default(),
    {
        TradingHoursConfig {
            morning_start: string_from("09:30"),
            morning_end: string_from("11:30"),
            afternoon_start: string_from("13:00"),
            afternoon_end: string_from("15:00"),
        }
    }
}

/// Where quotes come from: the push stream, or a recorded file played back.
#[derive(Debug, Clone)]
pub enum QuoteSourceConfig {
    Sse(QuoteSseSourceConfig),
    Test {
        /// Path of the recorded quotes (JSON).
        test_data_file: String,
        /// Seconds between two played quotes.
        update_interval: u64,
        /// Start again from the first record after the last one.
        loop_playback: bool,
    },
}

impl QuoteSourceConfig {
    pub fn is_test(&self) -> (r: bool)
        ensures
            r == (self is Test),
    {
        match self {
            QuoteSourceConfig::Test { .. } => true,
            QuoteSourceConfig::Sse(_) => false,
        }
    }

    pub open spec fn is_default(&self) -> bool {
        match self {
            QuoteSourceConfig::Sse(c) => c.is_default(),
            QuoteSourceConfig::Test { .. } => false,
        }
    }
}

/// Settings of the push-stream quote source.
#[derive(Debug, Clone)]
pub struct QuoteSseSourceConfig {
    pub sse_url_template: String,
    /// Field list (kept for older configuration files).
    pub sse_fields: String,
    pub sse_fields1: String,
    pub sse_fields2: String,
    /// Push interval in milliseconds.
    pub sse_mpi: u64,
    pub sse_ut: String,
    pub sse_fltt: u64,
    pub sse_pos: i64,
    pub enable_polling_fallback: bool,
    /// Polling interval in seconds.
    pub polling_interval: u64,
    pub polling_url_template: String,
    /// Largest number of connection attempts; 0 means no limit.
    pub max_reconnect_attempts: u32,
    /// First delay before reconnecting, in seconds.
    pub reconnect_initial_delay: u64,
    /// Largest delay before reconnecting, in seconds.
    pub reconnect_max_delay: u64,
}

impl QuoteSseSourceConfig {
    pub open spec fn is_default(&self) -> bool {
        &&& self.sse_url_template@ == "https://22.push2.eastmoney.com/api/qt/stock/details/sse"@
        &&& self.sse_fields@ == "f1,f2,f3,f4"@
        &&& self.sse_fields1@ == "f1,f2,f3,f4"@
        &&& self.sse_fields2@ == "f51,f52,f53,f54,f55"@
        &&& self.sse_mpi == 1000
        &&& self.sse_ut@ == "bd1d9ddb04089700cf9c27f6f7426281"@
        &&& self.sse_fltt == 2
        &&& self.sse_pos == -11
        &&& self.enable_polling_fallback
        &&& self.polling_interval == 2
        &&& self.polling_url_template@ == "https://push2.eastmoney.com/api/qt/stock/get"@
        &&& self.max_reconnect_attempts == 0
        &&& self.reconnect_initial_delay == 1
        &&& self.reconnect_max_delay == 60
    }
}

pub fn default_sse_url_template() -> (r: String)
    ensures
        r@ == "https://22.push2.eastmoney.com/api/qt/stock/details/sse"@,
{
    string_from("https://22.push2.eastmoney.com/api/qt/stock/details/sse")
}

pub fn default_sse_fields() -> (r: String)
    ensures
        r@ == "f1,f2,f3,f4"@,
{
    string_from("f1,f2,f3,f4")
}

pub fn default_sse_fields1() -> (r: String)
    ensures
        r@ == "f1,f2,f3,f4"@,
{
    string_from("f1,f2,f3,f4")
}

pub fn default_sse_fields2() -> (r: String)
    ensures
        r@ == "f51,f52,f53,f54,f55"@,
{
    string_from("f51,f52,f53,f54,f55")
}

pub fn default_sse_mpi() -> (r: u64)
    ensures
        r == 1000,
{
    1000
}

pub fn default_sse_ut() -> (r: String)
    ensures
        r@ == "bd1d9ddb04089700cf9c27f6f7426281"@,
{
    string_from("bd1d9ddb04089700cf9c27f6f7426281")
}

pub fn default_sse_fltt() -> (r: u64)
    ensures
        r == 2,
{
    2
}

pub fn default_sse_pos() -> (r: i64)
    ensures
        r == -11,
{
    -11
}

pub fn default_polling_interval() -> (r: u64)
    ensures
        r == 2,
{
    2
}

pub fn default_polling_url_template() -> (r: String)
    ensures
        r@ == "https://push2.eastmoney.com/api/qt/stock/get"@,
{
    string_from("https://push2.eastmoney.com/api/qt/stock/get")
}

pub fn default_reconnect_initial_delay() -> (r: u64)
    ensures
        r == 1,
{
    1
}

pub fn default_reconnect_max_delay() -> (r: u64)
    ensures
        r == 60,
{
    60
}

pub fn default_test_interval() -> (r: u64)
    ensures
        r == 1,
{
    1
}

pub fn default_true() -> (r: bool)
    ensures
        r,
{
    true
}

impl Default for QuoteSourceConfig {
    fn default() -> (r: Self)
        ensures
            r.is_default(),
    {
        QuoteSourceConfig::Sse(
            QuoteSseSourceConfig {
                sse_url_template: default_sse_url_template(),
                sse_fields: default_sse_fields(),
                sse_fields1: default_sse_fields1(),
                sse_fields2: default_sse_fields2(),
                sse_mpi: default_sse_mpi(),
                sse_ut: default_sse_ut(),
                sse_fltt: default_sse_fltt(),
                sse_pos: default_sse_pos(),
                enable_polling_fallback: true,
                polling_interval: default_polling_interval(),
                polling_url_template: default_polling_url_template(),
                max_reconnect_attempts: 0,
                reconnect_initial_delay: default_reconnect_initial_delay(),
                reconnect_max_delay: default_reconnect_max_delay(),
            },
        )
    }
}

/// An alert threshold: a whole percentage of the buy price, or a price in
/// thousandths of a yuan.
#[derive(Debug, Clone, Copy, PartialEq, Eq, Structural)]
pub enum ThresholdType {
    Ratio(i32),
    Price(u64),
}

/// Whether `threshold` is reached, for a position bought at `buy_price` and
/// now priced `current_price` (both in thousandths).
///
/// A ratio compares the exact profit-and-loss ratio `(current - buy) / buy`
/// with `ratio / 100`: a profit threshold is reached when the ratio is at
/// least that, a loss threshold when the negated ratio is. With a buy price
/// of 0 the ratio is infinite for a positive current price and undefined
/// for a zero one: only the profit side of a positive price is reached.
/// A price is reached from below for profit (`current >= price`) and from
/// above for loss (`current <= price`).
pub open spec fn threshold_reached(
    threshold: ThresholdType,
    buy_price: u64,
    current_price: u64,
    is_profit: bool,
) -> bool {
    match threshold {
        ThresholdType::Ratio(r) => if buy_price == 0 {
            is_profit && current_price > 0
        } else if is_profit {
            100 * (current_price - buy_price) >= r * buy_price
        } else {
            100 * (buy_price - current_price) >= r * buy_price
        },
        ThresholdType::Price(p) => if is_profit {
            current_price >= p
        } else {
            current_price <= p
        },
    }
}

/// `¥` followed by a price given in thousandths, written in yuan with two
/// decimals, the third decimal rounded half up.
pub open spec fn yuan_text(price: u64) -> Seq<char> {
    let cents = price as nat / 10 + (if price as nat % 10 >= 5 { 1nat } else { 0nat });
    decimal_digits(cents / 100) + seq!['.'] + padded_digits(cents % 100, 2)
}

impl ThresholdType {
    pub fn is_triggered(&self, buy_price: u64, current_price: u64, is_profit: bool) -> (r: bool)
        ensures
            r == threshold_reached(*self, buy_price, current_price, is_profit),
    {
        match self {
            ThresholdType::Ratio(ratio) => {
                if buy_price == 0 {
                    is_profit && current_price > 0
                } else {
                    let diff: i128 = if is_profit {
                        current_price as i128 - buy_price as i128
                    } else {
                        buy_price as i128 - current_price as i128
                    };
                    let lhs: i128 = 100 * diff;
                    let r: i128 = *ratio as i128;
                    let b: i128 = buy_price as i128;
                    assert(-0x8000_0000 * 0x1_0000_0000_0000_0000 <= r * b <= 0x8000_0000
                        * 0x1_0000_0000_0000_0000) by (nonlinear_arith)
                        requires
                            -0x8000_0000 <= r <= 0x8000_0000,
                            0 <= b <= 0x1_0000_0000_0000_0000,
                    ;
                    let rhs: i128 = r * b;
                    lhs >= rhs
                }
            },
            ThresholdType::Price(price) => {
                if is_profit {
                    current_price >= *price
                } else {
                    current_price <= *price
                }
            },
        }
    }

    /// The threshold as shown in alert messages: `10%` or `¥15.50`.
    pub fn display_value(&self) -> (r: String)
        ensures
            r@ == match *self {
                ThresholdType::Ratio(ratio) => int_text(ratio as int) + "%"@,
                ThresholdType::Price(price) => "¥"@ + yuan_text(price),
            },
    {
        let mut s = String::new();
        match self {
            ThresholdType::Ratio(ratio) => {
                push_int(&mut s, *ratio as i64);
                s.append("%");
            },
            ThresholdType::Price(price) => {
                s.append("¥");
                push_yuan(&mut s, *price);
            },
        }
        s
    }

    /// The threshold as shown in diagnostics: `百分比(10%)` or `价格(¥15.50)`.
    pub fn describe(&self) -> (r: String)
        ensures
            r@ == match *self {
                ThresholdType::Ratio(ratio) => "百分比("@ + int_text(ratio as int) + "%)"@,
                ThresholdType::Price(price) => "价格(¥"@ + yuan_text(price) + ")"@,
            },
    {
        let mut s = String::new();
        match self {
            ThresholdType::Ratio(ratio) => {
                s.append("百分比(");
                push_int(&mut s, *ratio as i64);
                s.append("%)");
            },
            ThresholdType::Price(price) => {
                s.append("价格(¥");
                push_yuan(&mut s, *price);
                s.append(")");
            },
        }
        s
    }
}

/// Appends `yuan_text(price)`.
pub fn push_yuan(s: &mut String, price: u64)
    ensures
        final(s)@ == old(s)@ + yuan_text(price),
{
    let cents: u64 = price / 10 + if price % 10 >= 5 {
        1
    } else {
        0
    };
    push_decimal(s, (cents / 100) as u128);
    proof {
        reveal_strlit(".");
    }
    s.append(".");
    push_padded(s, cents % 100, 2);
    assert(final(s)@ =~= old(s)@ + yuan_text(price));
}

/// Alert thresholds: two profit levels (the first is level 1, the second
/// level 2) and one loss threshold, which only alerts when loss alerts are
/// enabled (they are not by default).
#[derive(Debug, Clone, Copy)]
pub struct AlertConfig {
    pub profit_thresholds: [ThresholdType; 2],
    pub loss_threshold: ThresholdType,
    pub enable_loss_thresholds: bool,
}

impl AlertConfig {
    pub open spec fn is_default(&self) -> bool {
        &&& self.profit_thresholds[0] == ThresholdType::Ratio(10)
        &&& self.profit_thresholds[1] == ThresholdType::Ratio(20)
        &&& self.loss_threshold == ThresholdType::Ratio(10)
        &&& !self.enable_loss_thresholds
    }
}

impl Default for AlertConfig {
    fn default() -> (r: Self)
        ensures
            r.is_default(),
    {
        AlertConfig {
            profit_thresholds: [ThresholdType::Ratio(10), ThresholdType::Ratio(20)],
            loss_threshold: ThresholdType::Ratio(10),
            enable_loss_thresholds: false,
        }
    }
}

/// Notification settings.
#[derive(Debug, Clone)]
pub struct NotifyConfig {
    /// Sound file to play on an alert; the system sound when absent.
    pub sound_file: Option<String>,
    /// Smallest number of seconds between two sounds.
    pub sound_min_interval: u64,
    /// File the alerts are appended to.
    pub log_file: Option<String>,
}

impl NotifyConfig {
    pub open spec fn is_default(&self) -> bool {
        &&& self.sound_file is None
        &&& self.sound_min_interval == 1
        &&& self.log_file matches Some(f) && f@ == "alerts.log"@
    }
}

impl Default for NotifyConfig {
    fn default() -> (r: Self)
        ensures
            r.is_default(),
    {
        NotifyConfig {
            sound_file: None,
            sound_min_interval: 1,
            log_file: Some(string_from("alerts.log")),
        }
    }
}

/// The whole configuration.
#[derive(Debug, Clone)]
pub struct Config {
    pub db_path: String,
    pub trading_hours: TradingHoursConfig,
    pub timezone: String,
    pub quote_source: QuoteSourceConfig,
    pub alert: AlertConfig,
    pub notify: NotifyConfig,
}

impl Config {
    pub open spec fn is_default(&self) -> bool {
        &&& self.db_path@ == "stock_alert.db"@
        &&& self.trading_hours.is_default()
        &&& self.timezone@ == "Asia/Shanghai"@
        &&& self.quote_source.is_default()
        &&& self.alert.is_default()
        &&& self.notify.is_default()
    }
}

impl Default for Config {
    fn default() -> (r: Self)
        ensures
            r.is_default(),
    {
        Config {
            db_path: string_from("stock_alert.db"),
            trading_hours: TradingHoursConfig::default(),
            timezone: string_from("Asia/Shanghai"),
            quote_source: QuoteSourceConfig::default(),
            alert: AlertConfig::default(),
            notify: NotifyConfig::default(),
        }
    }
}

} // verus!
