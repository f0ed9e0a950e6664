//! The trading calendar: whether the market is open, and how long to wait
//! for it to open.
use crate::config::TradingHoursConfig;
use crate::quote::{naive_time_of_day, parse_time_of_day, NANOS_PER_SECOND};
use crate::text::string_from;
use vstd::prelude::*;

verus! {

/// Why a trading-hours question has no answer.
#[derive(Debug, Clone)]
pub enum SchedulerError {
    /// The time-zone name is not in the time-zone database.
    UnknownTimeZone(String),
    /// A configured time does not read as `HH:MM`.
    BadTime(String),
    /// The wall-clock time waited for does not exist, or exists twice, in
    /// the time zone, or its day is out of range.
    NoSuchLocalTime,
}

/// The current time in a time zone: the instant (whole seconds since the
/// Unix epoch and nanoseconds), and the wall-clock day (counted from
/// 0001-01-01), weekday (0 for Monday), and time of day (seconds from
/// midnight and nanoseconds).
#[derive(Debug, Clone, Copy, PartialEq, Eq, Structural)]
pub struct ZonedNow {
    pub unix_seconds: i64,
    pub unix_nanos: u32,
    pub day: i32,
    pub weekday: u32,
    pub seconds: u32,
    pub nanos: u32,
}

/// Whether `chrono_tz::Tz` has a zone of that name.
pub uninterp spec fn tz_known(name: Seq<char>) -> bool;

/// The instant, in seconds since the Unix epoch, of a wall-clock time in
/// the named zone, where it has exactly one; `None` otherwise (or for an
/// unknown zone or a day out of range).
pub uninterp spec fn tz_single_local_seconds(name: Seq<char>, day: i32, seconds: u32) -> Option<i64>;

/// Calls `name.parse::<chrono_tz::Tz>()` and tells whether it succeeds. The
/// result is named.
#[verifier::external_body]
fn tz_name_known(name: &str) -> (r: bool)
    ensures
        r == tz_known(name@),
{
    name.parse::<chrono_tz::Tz>().is_ok()
}

/// The wall clock of an instant (whole seconds since the Unix epoch and
/// nanoseconds) in the named zone: the day counted from 0001-01-01, the
/// weekday (0 for Monday), and the time of day in seconds from midnight and
/// nanoseconds; `None` for an unknown zone.
pub uninterp spec fn tz_wall_clock(name: Seq<char>, secs: i64, nanos: u32) -> Option<(i32, u32, u32, u32)>;

/// `now` is a reading of the clock in the zone `tz`: its wall-clock parts
/// are those of its instant in that zone.
pub open spec fn reads_now(tz: Seq<char>, now: ZonedNow) -> bool {
    &&& tz_wall_clock(tz, now.unix_seconds, now.unix_nanos) == Some(
        (now.day, now.weekday, now.seconds, now.nanos),
    )
    &&& now.weekday < 7
    &&& now.seconds < 86400
}

/// Calls `chrono::Utc::now().with_timezone(&tz)` for the zone named `name`
/// and returns its parts (see `ZonedNow`). Which instant is read depends on
/// the time of the call; what is claimed is that the zone is found when
/// `tz_known` holds, that the wall-clock parts are those of the instant in
/// that zone (named `tz_wall_clock`), and chrono's ranges for a weekday and
/// a time of day.
#[verifier::external_body]
fn zoned_now(name: &str) -> (r: Option<ZonedNow>)
    ensures
        tz_known(name@) ==> r is Some,
        r matches Some(n) ==> tz_wall_clock(name@, n.unix_seconds, n.unix_nanos) == Some(
            (n.day, n.weekday, n.seconds, n.nanos),
        ),
        r matches Some(n) ==> n.weekday < 7 && n.seconds < 86400,
{
    let tz = name.parse::<chrono_tz::Tz>().ok()?;
    let now = chrono::Utc::now().with_timezone(&tz);
    Some(ZonedNow {
        unix_seconds: now.timestamp(),
        unix_nanos: now.timestamp_subsec_nanos(),
        day: chrono::Datelike::num_days_from_ce(&now.date_naive()),
        weekday: chrono::Datelike::weekday(&now).num_days_from_monday(),
        seconds: chrono::Timelike::num_seconds_from_midnight(&now),
        nanos: chrono::Timelike::nanosecond(&now),
    })
}

/// Calls `tz.from_local_datetime(..).single()` for the zone named `name`,
/// the day (from `NaiveDate::from_num_days_from_ce_opt`) and the second,
/// and returns the instant's `timestamp()`. The result is named.
#[verifier::external_body]
fn tz_local_single(name: &str, day: i32, seconds: u32) -> (r: Option<i64>)
    ensures
        r == tz_single_local_seconds(name@, day, seconds),
{
    let tz = name.parse::<chrono_tz::Tz>().ok()?;
    let date = chrono::NaiveDate::from_num_days_from_ce_opt(day)?;
    let time = chrono::NaiveTime::from_num_seconds_from_midnight_opt(seconds, 0)?;
    chrono::TimeZone::from_local_datetime(&tz, &date.and_time(time)).single().map(|t| t.timestamp())
}

/// The configured time `HH:MM`, in seconds from midnight.
pub open spec fn hm(text: Seq<char>) -> Option<u32> {
    match naive_time_of_day(text, "%H:%M"@) {
        Some((s, _)) => Some(s),
        None => None,
    }
}

/// The four configured times, in order; the first that does not read is
/// reported.
pub open spec fn parsed_hours(c: TradingHoursConfig) -> Result<(u32, u32, u32, u32), Seq<char>> {
    match hm(c.morning_start@) {
        None => Err(c.morning_start@),
        Some(ms) => match hm(c.morning_end@) {
            None => Err(c.morning_end@),
            Some(me) => match hm(c.afternoon_start@) {
                None => Err(c.afternoon_start@),
                Some(a_s) => match hm(c.afternoon_end@) {
                    None => Err(c.afternoon_end@),
                    Some(ae) => Ok((ms, me, a_s, ae)),
                },
            },
        },
    }
}

/// `time` (nanoseconds from midnight) lies in a session: from the morning
/// start to the morning end, or from the afternoon start to the afternoon
/// end, both ends included.
pub open spec fn in_session(hours: (u32, u32, u32, u32), time: int) -> bool {
    let (ms, me, a_s, ae) = hours;
    (ms * NANOS_PER_SECOND <= time <= me * NANOS_PER_SECOND) || (a_s * NANOS_PER_SECOND <= time
        <= ae * NANOS_PER_SECOND)
}

/// The answer at a given weekday (0 for Monday) and time of day: closed on
/// Saturday and Sunday (before the configured times are read); otherwise
/// open within a session, or the first configured time that does not read.
pub open spec fn trading_at(c: TradingHoursConfig, weekday: u32, time: int) -> Result<bool, Seq<char>> {
    if weekday == 5 || weekday == 6 {
        Ok(false)
    } else {
        match parsed_hours(c) {
            Err(e) => Err(e),
            Ok(h) => Ok(in_session(h, time)),
        }
    }
}

/// `r` is the answer `expected`, an error carrying the time that does not
/// read.
pub open spec fn answers<T>(r: Result<T, SchedulerError>, expected: Result<T, Seq<char>>) -> bool {
    match expected {
        Ok(v) => r == Ok::<T, SchedulerError>(v),
        Err(t) => r matches Err(SchedulerError::BadTime(s)) && s@ == t,
    }
}

/// Where to wait to: a wall-clock time some days after today.
#[derive(Debug, Clone, Copy, PartialEq, Eq, Structural)]
pub struct WaitTarget {
    pub days_ahead: u32,
    pub seconds: u32,
}

/// The next opening to wait for, outside trading hours: on Saturday the
/// Monday morning start (two days on), on Sunday the next morning start;
/// on another day the morning start before it, the afternoon start
/// between the sessions, the next morning start after the afternoon end;
/// and nothing within a session.
pub open spec fn wait_target(hours: (u32, u32, u32, u32), weekday: u32, time: int) -> Option<WaitTarget> {
    let (ms, me, a_s, ae) = hours;
    if weekday == 5 {
        Some(WaitTarget { days_ahead: 2, seconds: ms })
    } else if weekday == 6 {
        Some(WaitTarget { days_ahead: 1, seconds: ms })
    } else if time < ms * NANOS_PER_SECOND {
        Some(WaitTarget { days_ahead: 0, seconds: ms })
    } else if me * NANOS_PER_SECOND < time && time < a_s * NANOS_PER_SECOND {
        Some(WaitTarget { days_ahead: 0, seconds: a_s })
    } else if time > ae * NANOS_PER_SECOND {
        Some(WaitTarget { days_ahead: 1, seconds: ms })
    } else {
        None
    }
}

/// Whole seconds of a span given in nanoseconds, rounded toward zero.
pub open spec fn whole_seconds(nanos: int) -> int {
    if nanos >= 0 {
        nanos / (NANOS_PER_SECOND as int)
    } else {
        -((-nanos) / (NANOS_PER_SECOND as int))
    }
}

/// The seconds to wait from `now` to `target` in the zone `tz`: the whole
/// seconds between the two instants, taken as a `u64` (a negative span
/// wraps around); at least 1 on a weekday. `None` where the target
/// wall-clock time has no single instant.
pub open spec fn wait_seconds_to(tz: Seq<char>, now: ZonedNow, target: WaitTarget) -> Option<u64> {
    let day = now.day + target.days_ahead;
    if day > i32::MAX {
        None
    } else {
        match tz_single_local_seconds(tz, day as i32, target.seconds) {
            None => None,
            Some(t) => {
                let span = (t - now.unix_seconds) * NANOS_PER_SECOND - now.unix_nanos;
                let w = whole_seconds(span) as u64;
                Some(
                    if now.weekday == 5 || now.weekday == 6 {
                        w
                    } else if w < 1 {
                        1
                    } else {
                        w
                    },
                )
            },
        }
    }
}

/// The answer of `calculate_wait_seconds` at `now`, when a second reading
/// of the clock says `trading`: the first configured time that does not
/// read; 0 when trading; 1 within a session; else the wait to the target.
pub open spec fn wait_at(
    c: TradingHoursConfig,
    tz: Seq<char>,
    now: ZonedNow,
    trading: bool,
) -> Result<Option<u64>, Seq<char>> {
    match parsed_hours(c) {
        Err(e) => Err(e),
        Ok(h) => if trading {
            Ok(Some(0))
        } else {
            match wait_target(h, now.weekday, now.seconds * NANOS_PER_SECOND + now.nanos) {
                None => Ok(Some(1)),
                Some(t) => Ok(wait_seconds_to(tz, now, t)),
            }
        },
    }
}

/// The market is open at the reading `now` (its weekday and time of day).
pub open spec fn open_at(c: TradingHoursConfig, now: ZonedNow) -> bool {
    trading_at(c, now.weekday, now.seconds * NANOS_PER_SECOND + now.nanos) == Ok::<
        bool,
        Seq<char>,
    >(true)
}

/// `r` is the wait `expected`: the seconds, `NoSuchLocalTime` where the
/// target has no single instant, or the configured time that does not read.
pub open spec fn wait_answers(r: Result<u64, SchedulerError>, expected: Result<Option<u64>, Seq<char>>) -> bool {
    match expected {
        Ok(Some(w)) => r == Ok::<u64, SchedulerError>(w),
        Ok(None) => r matches Err(SchedulerError::NoSuchLocalTime),
        Err(t) => r matches Err(SchedulerError::BadTime(s)) && s@ == t,
    }
}

/// The trading calendar of one market.
#[derive(Debug)]
pub struct TradingScheduler {
    config: TradingHoursConfig,
    timezone: String,
}

impl View for TradingScheduler {
    type V = (TradingHoursConfig, Seq<char>);

    closed spec fn view(&self) -> (TradingHoursConfig, Seq<char>) {
        (self.config, self.timezone@)
    }
}

impl TradingScheduler {
    #[verifier::type_invariant]
    spec fn zone_known(&self) -> bool {
        tz_known(self.timezone@)
    }

    /// A calendar for the given hours in the named time zone; an error when
    /// the zone is unknown.
    pub fn new(config: TradingHoursConfig, timezone_str: &str) -> (r: Result<Self, SchedulerError>)
        ensures
            tz_known(timezone_str@) ==> (r matches Ok(s) && s@ == (config, timezone_str@)),
            !tz_known(timezone_str@) ==> (r matches Err(SchedulerError::UnknownTimeZone(n))
                && n@ == timezone_str@),
    {
        if tz_name_known(timezone_str) {
            Ok(TradingScheduler { config, timezone: string_from(timezone_str) })
        } else {
            Err(SchedulerError::UnknownTimeZone(string_from(timezone_str)))
        }
    }

    /// A configured time, in seconds from midnight.
    fn parse_time(&self, time_str: &String) -> (r: Result<u32, SchedulerError>)
        ensures
            match hm(time_str@) {
                Some(s) => r == Ok::<u32, SchedulerError>(s),
                None => r matches Err(SchedulerError::BadTime(t)) && t@ == time_str@,
            },
    {
        match parse_time_of_day(time_str.as_str(), "%H:%M") {
            Some((s, _)) => Ok(s),
            None => Err(SchedulerError::BadTime(time_str.clone())),
        }
    }

    fn parse_hours(&self) -> (r: Result<(u32, u32, u32, u32), SchedulerError>)
        ensures
            answers(r, parsed_hours(self@.0)),
    {
        let ms = self.parse_time(&self.config.morning_start)?;
        let me = self.parse_time(&self.config.morning_end)?;
        let a_s = self.parse_time(&self.config.afternoon_start)?;
        let ae = self.parse_time(&self.config.afternoon_end)?;
        Ok((ms, me, a_s, ae))
    }

    /// Whether the market is open at a weekday (0 for Monday) and time of
    /// day (nanoseconds from midnight): see `trading_at`.
    pub fn trading_hours_at(&self, weekday: u32, time_of_day: u64) -> (r: Result<bool, SchedulerError>)
        ensures
            answers(r, trading_at(self@.0, weekday, time_of_day as int)),
            weekday == 5 || weekday == 6 ==> r == Ok::<bool, SchedulerError>(false),
            weekday != 5 && weekday != 6 ==> match parsed_hours(self@.0) {
                Ok((ms, me, a_s, ae)) => r == Ok::<bool, SchedulerError>(
                    (ms * 1_000_000_000 <= time_of_day && time_of_day <= me * 1_000_000_000) || (
                    a_s * 1_000_000_000 <= time_of_day && time_of_day <= ae * 1_000_000_000),
                ),
                Err(t) => r matches Err(SchedulerError::BadTime(s)) && s@ == t,
            },
    {
        if weekday == 5 || weekday == 6 {
            return Ok(false);
        }
        let (ms, me, a_s, ae) = self.parse_hours()?;
        let t = time_of_day as i128;
        let in_morning = ms as i128 * NANOS_PER_SECOND <= t && t <= me as i128 * NANOS_PER_SECOND;
        let in_afternoon = a_s as i128 * NANOS_PER_SECOND <= t && t <= ae as i128
            * NANOS_PER_SECOND;
        Ok(in_morning || in_afternoon)
    }

    /// Whether the market is open now, read on the clock in the calendar's
    /// time zone.
    pub fn is_trading_hours(&self) -> (r: Result<bool, SchedulerError>)
        ensures
            exists|now: ZonedNow|
                reads_now(self@.1, now) && #[trigger] answers(
                    r,
                    trading_at(self@.0, now.weekday, now.seconds * NANOS_PER_SECOND + now.nanos),
                ),
    {
        proof {
            use_type_invariant(self);
        }
        let now = match zoned_now(self.timezone.as_str()) {
            Some(n) => n,
            None => {
                return Err(SchedulerError::NoSuchLocalTime);
            },
        };
        let t: u64 = now.seconds as u64 * 1_000_000_000 + now.nanos as u64;
        let r = self.trading_hours_at(now.weekday, t);
        assert(answers(r, trading_at(self@.0, now.weekday, now.seconds * NANOS_PER_SECOND + now.nanos)));
        r
    }

    /// The seconds to wait at `now`, given whether the market is open (see
    /// `wait_at`); `NoSuchLocalTime` where the target has no single
    /// instant.
    pub fn wait_seconds_at(&self, now: ZonedNow, trading: bool) -> (r: Result<u64, SchedulerError>)
        requires
            now.seconds < 86400,
        ensures
            wait_answers(r, wait_at(self@.0, self@.1, now, trading)),
    {
        let (ms, me, a_s, ae) = self.parse_hours()?;
        if trading {
            return Ok(0);
        }
        let t: i128 = now.seconds as i128 * NANOS_PER_SECOND + now.nanos as i128;
        let target = if now.weekday == 5 {
            WaitTarget { days_ahead: 2, seconds: ms }
        } else if now.weekday == 6 {
            WaitTarget { days_ahead: 1, seconds: ms }
        } else if t < ms as i128 * NANOS_PER_SECOND {
            WaitTarget { days_ahead: 0, seconds: ms }
        } else if me as i128 * NANOS_PER_SECOND < t && t < a_s as i128 * NANOS_PER_SECOND {
            WaitTarget { days_ahead: 0, seconds: a_s }
        } else if t > ae as i128 * NANOS_PER_SECOND {
            WaitTarget { days_ahead: 1, seconds: ms }
        } else {
            return Ok(1);
        };
        let day: i64 = now.day as i64 + target.days_ahead as i64;
        if day > i32::MAX as i64 {
            return Err(SchedulerError::NoSuchLocalTime);
        }
        let at = match tz_local_single(self.timezone.as_str(), day as i32, target.seconds) {
            Some(s) => s,
            None => {
                return Err(SchedulerError::NoSuchLocalTime);
            },
        };
        let span: i128 = (at as i128 - now.unix_seconds as i128) * NANOS_PER_SECOND
            - now.unix_nanos as i128;
        let whole: i128 = if span >= 0 {
            span / NANOS_PER_SECOND
        } else {
            -((-span) / NANOS_PER_SECOND)
        };
        let w = whole as u64;
        if now.weekday == 5 || now.weekday == 6 {
            Ok(w)
        } else if w < 1 {
            Ok(1)
        } else {
            Ok(w)
        }
    }

    /// The seconds to wait for the market to open, read on the clock in the
    /// calendar's time zone: 0 when it is open at that reading.
    pub fn calculate_wait_seconds(&self) -> (r: Result<u64, SchedulerError>)
        ensures
            exists|now: ZonedNow|
                reads_now(self@.1, now) && #[trigger] wait_answers(
                    r,
                    wait_at(self@.0, self@.1, now, open_at(self@.0, now)),
                ),
    {
        proof {
            use_type_invariant(self);
        }
        let now = match zoned_now(self.timezone.as_str()) {
            Some(n) => n,
            None => {
                return Err(SchedulerError::NoSuchLocalTime);
            },
        };
        match self.parse_hours() {
            Err(e) => {
                let r: Result<u64, SchedulerError> = Err(e);
                assert(wait_answers(r, wait_at(self@.0, self@.1, now, open_at(self@.0, now))));
                return r;
            },
            Ok(_) => {},
        }
        let t: u64 = now.seconds as u64 * 1_000_000_000 + now.nanos as u64;
        let trading = match self.trading_hours_at(now.weekday, t) {
            Ok(b) => b,
            Err(e) => {
                return Err(e);
            },
        };
        assert(trading == open_at(self@.0, now));
        let r = self.wait_seconds_at(now, trading);
        assert(wait_answers(r, wait_at(self@.0, self@.1, now, open_at(self@.0, now))));
        r
    }
}

/// The market is closed all weekend, whatever the configured hours.
pub proof fn law_closed_on_weekends(c: TradingHoursConfig, weekday: u32, time: int)
    requires
        weekday == 5 || weekday == 6,
    ensures
        trading_at(c, weekday, time) == Ok::<bool, Seq<char>>(false),
{
}

/// No opening is waited for while the market is open: with the configured
/// times in order, a weekday time within a session has no wait target.
pub proof fn law_no_target_within_session(h: (u32, u32, u32, u32), weekday: u32, time: int)
    requires
        weekday < 5,
        in_session(h, time),
        h.0 <= h.1,
        h.1 <= h.2,
        h.2 <= h.3,
    ensures
        wait_target(h, weekday, time) is None,
{
}

/// Every weekday has the same sessions: from Monday to Friday, with
/// configured times that read, the market is open exactly from the morning
/// start to the morning end and from the afternoon start to the afternoon
/// end (both ends included), whichever weekday it is.
pub proof fn law_weekdays_alike(c: TradingHoursConfig, w1: u32, w2: u32, time: int)
    requires
        w1 < 5,
        w2 < 5,
        parsed_hours(c) is Ok,
    ensures
        trading_at(c, w1, time) == trading_at(c, w2, time),
        trading_at(c, w1, time) == Ok::<bool, Seq<char>>({
            let (ms, me, a_s, ae) = parsed_hours(c)->Ok_0;
            (ms * 1_000_000_000 <= time <= me * 1_000_000_000) || (a_s * 1_000_000_000 <= time
                <= ae * 1_000_000_000)
        }),
{
}

} // verus!
