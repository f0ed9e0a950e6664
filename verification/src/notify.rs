//! What an alert says: its log line, the positions' alert status, and how
//! often a sound may play.
use crate::config::{yuan_text, push_yuan, ThresholdType};
use crate::clock::local_now_naive_seconds;
use crate::quote::NANOS_PER_SECOND;
use crate::models::{AlertEvent, AlertRule, PnlRatio, StockPosition};
use crate::text::{decimal_digits, padded_digits, push_decimal, push_int, push_padded};
use vstd::prelude::*;
use vstd::string::*;

verus! {

/// `ratio` as a percentage with two decimals, rounded half up in
/// magnitude, `-` before a negative ratio; `inf`, `-inf` or `NaN` when the
/// denominator is 0.
pub open spec fn percent_text(ratio: PnlRatio) -> Seq<char> {
    if ratio.denominator == 0 {
        if ratio.numerator > 0 {
            "inf"@
        } else if ratio.numerator < 0 {
            "-inf"@
        } else {
            "NaN"@
        }
    } else {
        let mag: int = if ratio.numerator < 0 {
            -ratio.numerator
        } else {
            ratio.numerator as int
        };
        let hundredths: nat = ((20000 * mag + ratio.denominator) / (2 * ratio.denominator as int)) as nat;
        (if ratio.numerator < 0 { "-"@ } else { Seq::empty() }) + decimal_digits(hundredths / 100)
            + "."@ + padded_digits(hundredths % 100, 2)
    }
}

/// The ratios of positions: the numerator is a difference of two prices.
pub open spec fn price_ratio(ratio: PnlRatio) -> bool {
    -0x1_0000_0000_0000_0000 < ratio.numerator < 0x1_0000_0000_0000_0000
}

/// Appends `percent_text(ratio)`.
pub fn push_percent(s: &mut String, ratio: PnlRatio)
    requires
        price_ratio(ratio),
    ensures
        final(s)@ == old(s)@ + percent_text(ratio),
{
    if ratio.denominator == 0 {
        if ratio.numerator > 0 {
            s.append("inf");
        } else if ratio.numerator < 0 {
            s.append("-inf");
        } else {
            s.append("NaN");
        }
        return;
    }
    let neg = ratio.numerator < 0;
    let mag: u128 = if neg {
        (-ratio.numerator) as u128
    } else {
        ratio.numerator as u128
    };
    let den = ratio.denominator as u128;
    assert(mag * 20000 <= 0x1_0000_0000_0000_0000 * 20000) by (nonlinear_arith)
        requires
            mag <= 0x1_0000_0000_0000_0000,
    ;
    let hundredths: u128 = (20000 * mag + den) / (2 * den);
    if neg {
        s.append("-");
    }
    let ghost mid = s@;
    push_decimal(s, hundredths / 100);
    s.append(".");
    push_padded(s, (hundredths % 100) as u64, 2);
    assert(final(s)@ =~= old(s)@ + percent_text(ratio));
}

/// How a rule reads in the alert log.
pub open spec fn rule_text(rule: AlertRule) -> Seq<char> {
    match rule {
        AlertRule::ProfitThreshold(t) => "盈利阈值 "@ + threshold_text(t),
        AlertRule::LossThreshold(t) => "亏损阈值 "@ + threshold_text(t),
        AlertRule::ProfitDrawdownHalf => "盈利回撤过半"@,
    }
}

/// How a threshold reads in the alert log: a ratio with one decimal
/// (`10.0%`), a price in yuan (`¥15.50`).
pub open spec fn threshold_text(t: ThresholdType) -> Seq<char> {
    match t {
        ThresholdType::Ratio(r) => crate::text::int_text(r as int) + ".0%"@,
        ThresholdType::Price(p) => "¥"@ + yuan_text(p),
    }
}

/// Appends `threshold_text(t)`.
fn push_threshold(s: &mut String, t: ThresholdType)
    ensures
        final(s)@ == old(s)@ + threshold_text(t),
{
    match t {
        ThresholdType::Ratio(r) => {
            push_int(s, r as i64);
            s.append(".0%");
        },
        ThresholdType::Price(p) => {
            s.append("¥");
            push_yuan(s, p);
        },
    }
    assert(final(s)@ =~= old(s)@ + threshold_text(t));
}

/// The log line of an alert logged at local time `time`:
/// `[time] name (code) - rule - 当前价: price, 盈亏: pnl%, 最高盈利: best%`.
pub open spec fn alert_line(e: AlertEvent, time: Seq<char>) -> Seq<char> {
    "["@ + time + "] "@ + e.name@ + " ("@ + e.code@ + ") - "@ + rule_text(e.rule) + " - 当前价: "@
        + yuan_text(e.current_price) + ", 盈亏: "@ + percent_text(e.pnl_ratio) + "%, 最高盈利: "@
        + percent_text(e.max_profit_ratio) + "%\n"@
}

/// The log line of an alert logged at local time `time` (see
/// `alert_line`).
pub fn alert_log_line_at(e: &AlertEvent, time: &str) -> (r: String)
    requires
        price_ratio(e.pnl_ratio),
        price_ratio(e.max_profit_ratio),
    ensures
        r@ == alert_line(*e, time@),
{
    let mut s = string_from_str("[");
    s.append(time);
    s.append("] ");
    s.append(e.name.as_str());
    s.append(" (");
    s.append(e.code.as_str());
    s.append(") - ");
    match e.rule {
        AlertRule::ProfitThreshold(t) => {
            s.append("盈利阈值 ");
            push_threshold(&mut s, t);
        },
        AlertRule::LossThreshold(t) => {
            s.append("亏损阈值 ");
            push_threshold(&mut s, t);
        },
        AlertRule::ProfitDrawdownHalf => {
            s.append("盈利回撤过半");
        },
    }
    s.append(" - 当前价: ");
    push_yuan(&mut s, e.current_price);
    s.append(", 盈亏: ");
    push_percent(&mut s, e.pnl_ratio);
    s.append("%, 最高盈利: ");
    push_percent(&mut s, e.max_profit_ratio);
    s.append("%\n");
    assert(s@ =~= alert_line(*e, time@));
    s
}

fn string_from_str(s: &str) -> (r: String)
    ensures
        r@ == s@,
{
    String::from_str(s)
}

/// What chrono writes, with the format `%Y-%m-%d %H:%M:%S`, for the wall
/// time `secs` seconds after 1970-01-01 00:00:00; empty where chrono has no
/// such time.
pub uninterp spec fn naive_datetime_text(secs: i64) -> Seq<char>;

/// Calls `chrono::DateTime::from_timestamp(secs, 0)` and writes its
/// `naive_utc()` with `format("%Y-%m-%d %H:%M:%S")`; an empty text where
/// there is no such time. The result is named: it depends on `secs` alone.
#[verifier::external_body]
fn datetime_text(secs: i64) -> (r: String)
    ensures
        r@ == naive_datetime_text(secs),
{
    match chrono::DateTime::from_timestamp(secs, 0) {
        Some(t) => t.naive_utc().format("%Y-%m-%d %H:%M:%S").to_string(),
        None => String::new(),
    }
}

/// The log line of an alert logged now (see `alert_line`): the time is
/// the local wall time of the call, written `%Y-%m-%d %H:%M:%S`.
pub fn alert_log_line(e: &AlertEvent) -> (r: String)
    requires
        price_ratio(e.pnl_ratio),
        price_ratio(e.max_profit_ratio),
    ensures
        exists|secs: i64| r@ == alert_line(*e, #[trigger] naive_datetime_text(secs)),
{
    let secs = local_now_naive_seconds();
    let time = datetime_text(secs);
    alert_log_line_at(e, time.as_str())
}

/// Whether a sound may play, `elapsed` seconds after the last one: not
/// before the configured interval has passed.
pub fn should_play_sound(elapsed: u64, min_interval: u64) -> (r: bool)
    ensures
        r == (elapsed >= min_interval),
{
    elapsed >= min_interval
}

/// How far back a new sound spacer puts its last sound: 1000 seconds.
pub const NEVER_PLAYED_NANOS: i128 = 1_000_000_000_000;

/// The spacing of alert sounds: the smallest number of whole seconds
/// between two sounds, and when the last one played (nanoseconds on a
/// monotonic clock).
#[derive(Debug, Clone, Copy, PartialEq, Eq, Structural)]
pub struct SoundSpacer {
    pub min_interval: u64,
    pub last_played: i128,
}

/// Whole seconds from the last sound to `now` (0 when `now` is earlier).
pub open spec fn sound_elapsed_seconds(g: SoundSpacer, now: i128) -> int {
    if now < g.last_played {
        0
    } else {
        (now - g.last_played) / NANOS_PER_SECOND as int
    }
}

/// Whether a sound wanted at `now` plays, and the spacer afterwards: it plays
/// once at least `min_interval` whole seconds have passed since the last
/// one, and then becomes the last one; otherwise the spacer stays the same.
pub open spec fn sound_next(g: SoundSpacer, now: i128) -> (bool, SoundSpacer) {
    if sound_elapsed_seconds(g, now) >= g.min_interval {
        (true, SoundSpacer { last_played: now, ..g })
    } else {
        (false, g)
    }
}

impl SoundSpacer {
    /// A spacer made at `now`: its last sound counts as 1000 seconds earlier,
    /// so that the first sound plays unless the interval is longer.
    pub fn new(min_interval: u64, now: i128) -> (r: Self)
        requires
            now - NEVER_PLAYED_NANOS >= i128::MIN,
        ensures
            r.min_interval == min_interval,
            r.last_played == now - NEVER_PLAYED_NANOS,
    {
        SoundSpacer { min_interval, last_played: now - NEVER_PLAYED_NANOS }
    }

    /// Wants a sound at `now`; whether it plays (see `sound_next`).
    pub fn try_play(&mut self, now: i128) -> (r: bool)
        requires
            i128::MIN <= now - old(self).last_played <= i128::MAX,
        ensures
            (r, *final(self)) == sound_next(*old(self), now),
    {
        let diff = now - self.last_played;
        let elapsed: i128 = if diff < 0 {
            0
        } else {
            diff / NANOS_PER_SECOND
        };
        let play = elapsed > u64::MAX as i128 || should_play_sound(elapsed as u64, self.min_interval);
        if play {
            self.last_played = now;
        }
        play
    }
}

/// Two sounds that play are at least the interval apart: after a sound at
/// `t1`, the next sound plays no earlier than `min_interval` seconds later
/// (on a monotonic clock); a sound that does not play leaves the spacer
/// unchanged, so the sounds skipped in between change nothing.
pub proof fn law_sounds_spaced(g: SoundSpacer, t1: i128, t2: i128)
    requires
        g.min_interval > 0 || t1 <= t2,
    ensures
        sound_next(g, t1).0 && sound_next(sound_next(g, t1).1, t2).0 ==> t2 - t1 >= g.min_interval
            * NANOS_PER_SECOND,
        !sound_next(g, t2).0 ==> sound_next(g, t2).1 == g,
{
    if sound_next(g, t1).0 && sound_next(sound_next(g, t1).1, t2).0 {
        let g1 = sound_next(g, t1).1;
        assert(g1.last_played == t1);
        if t2 < t1 {
            assert(sound_elapsed_seconds(g1, t2) == 0);
        } else {
            let d = t2 - t1;
            let m = g.min_interval as int;
            assert(d / 1_000_000_000 >= m);
            assert(d >= m * 1_000_000_000) by (nonlinear_arith)
                requires
                    d >= 0,
                    d / 1_000_000_000 >= m,
            ;
        }
    }
}

/// A position's alert flags, as listed when monitoring starts.
pub open spec fn alert_status(p: StockPosition) -> Seq<char> {
    (if p.profit_threshold_level1_alerted { "盈1级✓"@ } else { "盈1级✗"@ }) + " "@ + (
    if p.profit_threshold_level2_alerted {
        "盈2级✓"@
    } else {
        "盈2级✗"@
    }) + " "@ + (if p.loss_threshold_alerted { "亏✓"@ } else { "亏✗"@ }) + " "@ + (
    if p.profit_drawdown_half_alerted {
        "回撤✓"@
    } else {
        "回撤✗"@
    })
}

/// A position's alert flags (see `alert_status`).
pub fn alert_status_text(p: &StockPosition) -> (r: String)
    ensures
        r@ == alert_status(*p),
{
    let mut s = if p.profit_threshold_level1_alerted {
        string_from_str("盈1级✓")
    } else {
        string_from_str("盈1级✗")
    };
    s.append(" ");
    s.append(
        if p.profit_threshold_level2_alerted {
            "盈2级✓"
        } else {
            "盈2级✗"
        },
    );
    s.append(" ");
    s.append(
        if p.loss_threshold_alerted {
            "亏✓"
        } else {
            "亏✗"
        },
    );
    s.append(" ");
    s.append(
        if p.profit_drawdown_half_alerted {
            "回撤✓"
        } else {
            "回撤✗"
        },
    );
    s
}

} // verus!
