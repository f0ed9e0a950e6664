//! The quote stream: its URL, its message format, the order of the ticks
//! it carries, and when to reconnect.
use crate::clock::utc_now_nanos;
use crate::config::QuoteSseSourceConfig;
use crate::json::{json_get, parse_json, serde_json_document, string_items, text_eq, JsonValue};
use crate::text::{decimal_digits, find_char, index_of, lemma_index_of, milli_value_u64, parse_milli, push_decimal, string_from};
use vstd::prelude::*;
use vstd::string::*;

verus! {

/// One tick of the stream: price (thousandths of a yuan), time
/// (nanoseconds since the Unix epoch), volume (thousandths of a share).
/// Prices and volumes are non-negative whole thousandths within `u64`:
/// negative, infinite or not-a-number values, and values beyond that
/// range, are outside what a tick holds.
pub type Tick = (u64, i128, u64);

/// Days from 0001-01-01 (day 1) to 1970-01-01.
pub const UNIX_EPOCH_DAY: i64 = 719_163;

pub const NANOS_PER_SECOND: i128 = 1_000_000_000;

/// What `chrono::NaiveTime::parse_from_str(text, format)` reads, as seconds
/// from midnight and nanoseconds past them (a leap second counts its
/// nanoseconds past 999 999 999); `None` where it reports an error.
pub uninterp spec fn naive_time_of_day(text: Seq<char>, format: Seq<char>) -> Option<(u32, u32)>;

/// The instant, in seconds since the Unix epoch, of the earliest reading of
/// a Shanghai wall-clock time (`chrono_tz::Asia::Shanghai`), given as a day
/// counted from 0001-01-01 and seconds from midnight; `None` where the day
/// is out of range or the wall-clock time does not exist there.
pub uninterp spec fn shanghai_earliest_seconds(day: i32, seconds: u32) -> Option<i64>;

/// Calls `chrono::NaiveTime::parse_from_str(text, format)` and returns the
/// seconds from midnight of the time read and its nanoseconds
/// (`num_seconds_from_midnight()`, `nanosecond()`). The result is named;
/// chrono keeps the seconds below 86400 and the nanoseconds below
/// 2 000 000 000.
#[verifier::external_body]
pub(crate) fn parse_time_of_day(text: &str, format: &str) -> (r: Option<(u32, u32)>)
    ensures
        r == naive_time_of_day(text@, format@),
        r matches Some((s, n)) ==> s < 86400 && n < 2_000_000_000,
{
    match chrono::NaiveTime::parse_from_str(text, format) {
        Ok(t) => Some((
            chrono::Timelike::num_seconds_from_midnight(&t),
            chrono::Timelike::nanosecond(&t),
        )),
        Err(_) => None,
    }
}

/// Calls `chrono_tz::Asia::Shanghai.from_local_datetime(..).earliest()` on
/// the given day (from `NaiveDate::from_num_days_from_ce_opt`) and second,
/// and returns the instant's `timestamp()`. The result is named.
#[verifier::external_body]
fn shanghai_local_to_utc(day: i32, seconds: u32) -> (r: Option<i64>)
    ensures
        r == shanghai_earliest_seconds(day, seconds),
{
    let date = chrono::NaiveDate::from_num_days_from_ce_opt(day)?;
    let time = chrono::NaiveTime::from_num_seconds_from_midnight_opt(seconds, 0)?;
    let local = chrono::TimeZone::from_local_datetime(&chrono_tz::Asia::Shanghai, &date.and_time(time));
    local.earliest().map(|t| t.timestamp())
}

/// Calls `chrono::Utc::now().with_timezone(&chrono_tz::Asia::Shanghai)` and
/// returns its date as a day counted from 0001-01-01 (`num_days_from_ce`).
/// No value is promised: it is the date of the call.
#[verifier::external_body]
fn shanghai_today() -> i32 {
    chrono::Datelike::num_days_from_ce(
        &chrono::Utc::now().with_timezone(&chrono_tz::Asia::Shanghai).date_naive(),
    )
}

/// The first three comma-separated fields of a detail record, when it has
/// at least three.
pub open spec fn detail_fields(s: Seq<char>) -> Option<(Seq<char>, Seq<char>, Seq<char>)> {
    let i1 = index_of(s, ',');
    if i1 >= s.len() {
        None
    } else {
        let r1 = s.skip(i1 + 1);
        let i2 = index_of(r1, ',');
        if i2 >= r1.len() {
            None
        } else {
            let r2 = r1.skip(i2 + 1);
            Some((s.take(i1), r1.take(i2), r2.take(index_of(r2, ','))))
        }
    }
}

/// The instant of a Shanghai wall-clock time, in nanoseconds: its earliest
/// reading, or the wall-clock time read as UTC where there is none.
pub open spec fn shanghai_instant(day: i32, seconds: u32) -> int {
    match shanghai_earliest_seconds(day, seconds) {
        Some(s) => s * NANOS_PER_SECOND,
        None => ((day - UNIX_EPOCH_DAY) * 86400 + seconds) * NANOS_PER_SECOND,
    }
}

/// The tick of a detail record `time,price,volume,...`: no tick without
/// three fields or with a price that does not read (see `milli_value`); a
/// time that does not read as `%H:%M:%S` becomes `now` (a leap second `:60`
/// reads as the second before it plus one second's nanoseconds), a volume
/// that does not read becomes 0. `day` is the day the times belong to.
///
/// Numbers outside what a tick holds (see `Tick`) are not handled: a record
/// whose price is negative, `inf`, `NaN` or beyond `u64` thousandths gives
/// no tick, and such a volume becomes 0.
pub open spec fn detail_tick(s: Seq<char>, day: i32, now: i128) -> Option<Tick> {
    match detail_fields(s) {
        None => None,
        Some((t, p, v)) => match milli_value_u64(p) {
            None => None,
            Some(price) => Some(
                (
                    price,
                    match naive_time_of_day(t, "%H:%M:%S"@) {
                        Some((secs, nanos)) => (shanghai_instant(day, secs) + nanos) as i128,
                        None => now,
                    },
                    match milli_value_u64(v) {
                        Some(x) => x,
                        None => 0,
                    },
                ),
            ),
        },
    }
}

/// The ticks of the records that have one, in record order.
pub open spec fn detail_ticks(records: Seq<Seq<char>>, day: i32, now: i128) -> Seq<Tick>
    decreases records.len(),
{
    if records.len() == 0 {
        Seq::empty()
    } else {
        let rest = detail_ticks(records.drop_last(), day, now);
        match detail_tick(records.last(), day, now) {
            Some(t) => rest.push(t),
            None => rest,
        }
    }
}

/// The ticks of `s` stamped with time `t`, in order.
pub open spec fn ticks_at(s: Seq<Tick>, t: i128) -> Seq<Tick>
    decreases s.len(),
{
    if s.len() == 0 {
        Seq::empty()
    } else {
        let rest = ticks_at(s.drop_last(), t);
        if s.last().1 == t {
            rest.push(s.last())
        } else {
            rest
        }
    }
}

pub open spec fn time_ordered(s: Seq<Tick>) -> bool {
    forall|i: int, j: int| 0 <= i < j < s.len() ==> s[i].1 <= s[j].1
}

/// `out` is `inp` ordered by time, ticks of the same time in their order
/// in `inp`.
pub open spec fn stable_time_order(out: Seq<Tick>, inp: Seq<Tick>) -> bool {
    &&& time_ordered(out)
    &&& forall|t: i128| #[trigger] ticks_at(out, t) == ticks_at(inp, t)
}

/// The ticks of a stream message: the string items of `data.details`,
/// read as records (see `detail_tick`), ordered by time. No ticks where the
/// message has no such array.
pub open spec fn message_ticks(msg: Option<JsonValue>, day: i32, now: i128, out: Seq<Tick>) -> bool {
    match message_details(msg) {
        Some(records) => stable_time_order(out, detail_ticks(records, day, now)),
        None => out.len() == 0,
    }
}

/// The string items of `data.details` of a message.
pub open spec fn message_details(msg: Option<JsonValue>) -> Option<Seq<Seq<char>>> {
    match msg {
        Some(m) => match json_get(m, "data"@) {
            Some(d) => match json_get(d, "details"@) {
                Some(JsonValue::Array(items)) => Some(string_items(items@)),
                _ => None,
            },
            None => None,
        },
        None => None,
    }
}

pub proof fn lemma_ticks_at_concat(a: Seq<Tick>, b: Seq<Tick>, t: i128)
    ensures
        ticks_at(a + b, t) == ticks_at(a, t) + ticks_at(b, t),
    decreases b.len(),
{
    if b.len() == 0 {
        assert(a + b =~= a);
        assert(ticks_at(b, t) =~= Seq::<Tick>::empty());
        assert(ticks_at(a, t) + ticks_at(b, t) =~= ticks_at(a, t));
    } else {
        lemma_ticks_at_concat(a, b.drop_last(), t);
        assert((a + b).drop_last() =~= a + b.drop_last());
        assert((a + b).last() == b.last());
        if b.last().1 == t {
            assert(ticks_at(a, t) + ticks_at(b.drop_last(), t).push(b.last()) =~= (ticks_at(
                a,
                t,
            ) + ticks_at(b.drop_last(), t)).push(b.last()));
        }
    }
}

pub proof fn lemma_ticks_at_none(s: Seq<Tick>, t: i128)
    requires
        forall|i: int| 0 <= i < s.len() ==> s[i].1 != t,
    ensures
        ticks_at(s, t) == Seq::<Tick>::empty(),
    decreases s.len(),
{
    if s.len() > 0 {
        lemma_ticks_at_none(s.drop_last(), t);
    }
}

/// Orders ticks by time; ticks of the same time keep their order.
pub fn sort_ticks_by_time(v: &Vec<Tick>) -> (out: Vec<Tick>)
    ensures
        stable_time_order(out@, v@),
{
    let mut out: Vec<Tick> = Vec::new();
    let mut i: usize = 0;
    while i < v.len()
        invariant
            i <= v@.len(),
            time_ordered(out@),
            forall|t: i128| #[trigger] ticks_at(out@, t) == ticks_at(v@.take(i as int), t),
        decreases v.len() - i,
    {
        let x = v[i];
        let mut p: usize = 0;
        while p < out.len() && out[p].1 <= x.1
            invariant
                p <= out@.len(),
                forall|j: int| 0 <= j < p ==> out@[j].1 <= x.1,
            decreases out.len() - p,
        {
            p = p + 1;
        }
        let ghost old_out = out@;
        proof {
            // Every tick from `p` on is later than `x`.
            assert forall|j: int| p <= j < old_out.len() implies old_out[j].1 > x.1 by {
                if p < old_out.len() {
                    assert(old_out[p as int].1 > x.1);
                    if j > p {
                        assert(old_out[p as int].1 <= old_out[j].1);
                    }
                }
            }
        }
        out.insert(p, x);
        proof {
            let pre = old_out.take(p as int);
            let post = old_out.skip(p as int);
            assert(out@ =~= pre + seq![x] + post);
            assert(old_out =~= pre + post);
            assert(v@.take(i + 1) =~= v@.take(i as int).push(x));
            assert forall|t: i128| #[trigger] ticks_at(out@, t) == ticks_at(v@.take(i + 1), t) by {
                lemma_ticks_at_concat(pre + seq![x], post, t);
                lemma_ticks_at_concat(pre, seq![x], t);
                lemma_ticks_at_concat(pre, post, t);
                assert(v@.take(i + 1).drop_last() =~= v@.take(i as int));
                assert(v@.take(i + 1).last() == x);
                assert(seq![x].drop_last() =~= Seq::<Tick>::empty());
                assert(ticks_at(Seq::<Tick>::empty(), t) =~= Seq::<Tick>::empty());
                assert(ticks_at(v@.take(i as int), t) == ticks_at(old_out, t));
                if x.1 == t {
                    assert(ticks_at(seq![x], t) =~= seq![x]);
                    assert forall|j: int| 0 <= j < post.len() implies post[j].1 != t by {
                        assert(post[j] == old_out[j + p]);
                    }
                    lemma_ticks_at_none(post, t);
                    assert(ticks_at(out@, t) =~= ticks_at(pre, t).push(x));
                    assert(ticks_at(old_out, t) =~= ticks_at(pre, t));
                } else {
                    assert(ticks_at(seq![x], t) =~= Seq::<Tick>::empty());
                    assert(ticks_at(out@, t) =~= ticks_at(pre, t) + ticks_at(post, t));
                }
            }
            assert forall|a: int, b: int| 0 <= a < b < out@.len() implies out@[a].1 <= out@[b].1 by {
                if b < p {
                    assert(out@[a] == old_out[a]);
                    assert(out@[b] == old_out[b]);
                } else if b == p {
                    assert(out@[a] == old_out[a]);
                } else if a < p {
                    assert(out@[a] == old_out[a]);
                    assert(out@[b] == old_out[b - 1]);
                } else if a == p {
                    assert(out@[b] == old_out[b - 1]);
                } else {
                    assert(out@[a] == old_out[a - 1]);
                    assert(out@[b] == old_out[b - 1]);
                }
            }
        }
        i = i + 1;
    }
    assert(v@.take(v@.len() as int) =~= v@);
    out
}

/// The instant of a Shanghai wall-clock time, in nanoseconds (see
/// `shanghai_instant`).
fn shanghai_instant_nanos(day: i32, seconds: u32) -> (r: i128)
    ensures
        r == shanghai_instant(day, seconds),
{
    match shanghai_local_to_utc(day, seconds) {
        Some(s) => s as i128 * NANOS_PER_SECOND,
        None => ((day as i64 - UNIX_EPOCH_DAY) as i128 * 86400 + seconds as i128) * NANOS_PER_SECOND,
    }
}

/// The first three comma-separated fields of a detail record (see
/// `detail_fields`).
fn split_detail(detail: &str) -> (r: Option<(&str, &str, &str)>)
    ensures
        match detail_fields(detail@) {
            Some((a, b, c)) => r matches Some((x, y, z)) && x@ == a && y@ == b && z@ == c,
            None => r is None,
        },
{
    let ghost s = detail@;
    let n = detail.unicode_len();
    let i1 = find_char(detail, ',', 0);
    assert(s.skip(0) =~= s);
    proof {
        lemma_index_of(s, ',');
    }
    if i1 >= n {
        return None;
    }
    let i2 = find_char(detail, ',', i1 + 1);
    let ghost r1 = s.skip(i1 + 1);
    proof {
        lemma_index_of(r1, ',');
    }
    if i2 >= n {
        return None;
    }
    let i3 = find_char(detail, ',', i2 + 1);
    let ghost r2 = r1.skip(i2 - i1);
    assert(r2 =~= s.skip(i2 + 1));
    proof {
        lemma_index_of(r2, ',');
    }
    let time_text = detail.substring_char(0, i1);
    let price_text = detail.substring_char(i1 + 1, i2);
    let volume_text = detail.substring_char(i2 + 1, i3);
    assert(time_text@ =~= s.take(i1 as int));
    assert(price_text@ =~= r1.take(i2 - i1 - 1));
    assert(volume_text@ =~= r2.take(index_of(r2, ',')));
    Some((time_text, price_text, volume_text))
}

/// Reads one detail record `time,price,volume,...` (see `detail_tick`);
/// `day` is the day its time belongs to, `now` the time to use when the
/// record's time does not read. A record whose price is negative, `inf`,
/// `NaN` or beyond `u64` thousandths is outside what this reads: it gives
/// `None`; such a volume gives 0.
pub fn parse_detail_record(detail: &str, code: &str, day: i32, now: i128) -> (r: Option<Tick>)
    ensures
        r == detail_tick(detail@, day, now),
{
    let (time_text, price_text, volume_text) = match split_detail(detail) {
        Some(f) => f,
        None => {
            return None;
        },
    };
    let price = match parse_milli(price_text) {
        Some(p) => p,
        None => {
            return None;
        },
    };
    let timestamp = match parse_time_of_day(time_text, "%H:%M:%S") {
        Some((secs, nanos)) => shanghai_instant_nanos(day, secs) + nanos as i128,
        None => now,
    };
    let volume = match parse_milli(volume_text) {
        Some(v) => v,
        None => 0,
    };
    Some((price, timestamp, volume))
}

/// The ticks of the given detail records, ordered by time.
pub fn ticks_from_details(details: &Vec<String>, code: &str, day: i32, now: i128) -> (r: Vec<Tick>)
    ensures
        stable_time_order(r@, detail_ticks(details@.map_values(|d: String| d@), day, now)),
{
    let ghost texts = details@.map_values(|d: String| d@);
    let mut ticks: Vec<Tick> = Vec::new();
    let mut i: usize = 0;
    while i < details.len()
        invariant
            i <= details@.len(),
            texts == details@.map_values(|d: String| d@),
            ticks@ == detail_ticks(texts.take(i as int), day, now),
        decreases details.len() - i,
    {
        assert(texts.take(i + 1).drop_last() =~= texts.take(i as int));
        assert(texts.take(i + 1).last() == details@[i as int]@);
        match parse_detail_record(details[i].as_str(), code, day, now) {
            Some(t) => {
                ticks.push(t);
            },
            None => {},
        }
        i = i + 1;
    }
    assert(texts.take(details@.len() as int) =~= texts);
    sort_ticks_by_time(&ticks)
}

/// The string items of `data.details` of a message.
pub fn details_of_message(msg: &Option<JsonValue>) -> (r: Option<Vec<String>>)
    ensures
        match message_details(*msg) {
            Some(d) => r matches Some(v) && v@.map_values(|s: String| s@) == d,
            None => r is None,
        },
{
    match msg {
        Some(m) => match m.get("data") {
            Some(d) => match d.get("details") {
                Some(items) => items.string_items(),
                None => None,
            },
            None => None,
        },
        None => None,
    }
}

/// The ticks of a parsed stream message (`None` for a text that is not
/// JSON), ordered by time: see `message_ticks`.
pub fn ticks_from_message(msg: &Option<JsonValue>, code: &str, day: i32, now: i128) -> (r: Vec<Tick>)
    ensures
        message_ticks(*msg, day, now, r@),
{
    match details_of_message(msg) {
        Some(details) => ticks_from_details(&details, code, day, now),
        None => Vec::new(),
    }
}

/// Reads a stream message such as
/// `{"rc":0,"data":{"details":["10:22:45,16.37,52,3,1",...]}}`: the ticks
/// of its detail records, ordered by time. The times are today's, in
/// Shanghai; a record whose time does not read gets the current time.
pub fn parse_quote_from_sse(data: &str, code: &str) -> (r: Vec<Tick>)
    ensures
        exists|day: i32, now: i128| message_ticks(serde_json_document(data@), day, now, r@),
{
    let msg = parse_json(data);
    let details = details_of_message(&msg);
    match details {
        Some(details) => {
            if details.len() == 0 {
                proof {
                    assert(detail_ticks(details@.map_values(|s: String| s@), 0, 0)
                        =~= Seq::<Tick>::empty());
                    assert(ticks_at(Seq::<Tick>::empty(), 0) =~= Seq::<Tick>::empty());
                    assert(message_ticks(msg, 0, 0, Seq::<Tick>::empty()));
                }
                return Vec::new();
            }
            let day = shanghai_today();
            let now = utc_now_nanos();
            let r = ticks_from_details(&details, code, day, now);
            assert(message_ticks(msg, day, now, r@));
            r
        },
        None => {
            let r: Vec<Tick> = Vec::new();
            assert(message_ticks(msg, 0, 0, r@));
            r
        },
    }
}

/// The quote source that follows the push stream.
#[derive(Debug, Clone)]
pub struct SSESource {
    config: QuoteSseSourceConfig,
}

impl View for SSESource {
    type V = QuoteSseSourceConfig;

    closed spec fn view(&self) -> QuoteSseSourceConfig {
        self.config
    }
}

/// The market of a stock code: `1` (Shanghai) for codes starting with `6`,
/// `0` (Shenzhen) otherwise.
pub open spec fn market_of(code: Seq<char>) -> Seq<char> {
    if code.len() > 0 && code[0] == '6' {
        "1"@
    } else {
        "0"@
    }
}

/// The stream's URL for a stock code.
pub open spec fn sse_url(c: QuoteSseSourceConfig, code: Seq<char>) -> Seq<char> {
    c.sse_url_template@ + "?fields="@ + c.sse_fields@ + "&mpi="@ + decimal_digits(c.sse_mpi as nat)
        + "&invt=2&fltt=1&secid="@ + market_of(code) + "."@ + code + "&ut="@ + c.sse_ut@
        + "&dect=1&wbp2u=|0|0|0|web"@
}

impl SSESource {
    pub fn new(config: QuoteSseSourceConfig) -> (r: Self)
        ensures
            r@ == config,
    {
        SSESource { config }
    }

    /// The stream's URL for a stock code (see `sse_url`).
    pub fn build_sse_url(&self, code: &str) -> (r: String)
        ensures
            r@ == sse_url(self@, code@),
    {
        let market = if code.unicode_len() > 0 && code.get_char(0) == '6' {
            "1"
        } else {
            "0"
        };
        let mut url = self.config.sse_url_template.clone();
        url.append("?fields=");
        url.append(self.config.sse_fields.as_str());
        url.append("&mpi=");
        push_decimal(&mut url, self.config.sse_mpi as u128);
        url.append("&invt=2&fltt=1&secid=");
        url.append(market);
        url.append(".");
        url.append(code);
        url.append("&ut=");
        url.append(self.config.sse_ut.as_str());
        url.append("&dect=1&wbp2u=|0|0|0|web");
        url
    }

    /// Reads a stream message (see `parse_quote_from_sse`).
    pub fn parse_quote_from_sse(&self, data: &str, code: &str) -> (r: Vec<Tick>)
        ensures
            exists|day: i32, now: i128| message_ticks(serde_json_document(data@), day, now, r@),
    {
        parse_quote_from_sse(data, code)
    }
}

/// Whether a stream event carries quotes: events named `message`, or not
/// named at all.
pub fn is_quote_event(event_type: &str) -> (r: bool)
    ensures
        r == (event_type@ == "message"@ || event_type@.len() == 0),
{
    event_type.unicode_len() == 0 || text_eq(event_type, "message")
}

/// Where the connection loop stands: attempts made so far and the delay
/// before the next reconnection, in seconds.
#[derive(Debug, Clone, Copy, PartialEq, Eq, Structural)]
pub struct ReconnectState {
    pub attempt: u32,
    pub delay: u64,
}

/// What to do next: stop, or connect (after waiting, except for the first
/// attempt).
#[derive(Debug, Clone, Copy, PartialEq, Eq, Structural)]
pub enum ReconnectStep {
    GiveUp,
    Connect { wait_seconds: Option<u64> },
}

/// The step after `st`: stop once the attempt limit (when not 0) is
/// reached; otherwise connect, waiting the current delay unless it is the
/// first attempt, and double the delay up to the largest one.
pub open spec fn reconnect_next(c: QuoteSseSourceConfig, st: ReconnectState) -> (ReconnectStep, ReconnectState) {
    if c.max_reconnect_attempts > 0 && st.attempt >= c.max_reconnect_attempts {
        (ReconnectStep::GiveUp, st)
    } else if st.attempt > 0 {
        let doubled = 2 * st.delay;
        (
            ReconnectStep::Connect { wait_seconds: Some(st.delay) },
            ReconnectState {
                attempt: (st.attempt + 1) as u32,
                delay: if doubled < c.reconnect_max_delay {
                    doubled as u64
                } else {
                    c.reconnect_max_delay
                },
            },
        )
    } else {
        (ReconnectStep::Connect { wait_seconds: None }, ReconnectState { attempt: 1, delay: st.delay })
    }
}

/// The inputs on which the step's arithmetic stays in range.
pub open spec fn reconnect_step_in_range(c: QuoteSseSourceConfig, st: ReconnectState) -> bool {
    !(c.max_reconnect_attempts > 0 && st.attempt >= c.max_reconnect_attempts) ==> (st.attempt
        < u32::MAX && (st.attempt > 0 ==> 2 * st.delay <= u64::MAX))
}

impl ReconnectState {
    /// No attempt yet; the first delay from the configuration.
    pub fn start(c: &QuoteSseSourceConfig) -> (r: Self)
        ensures
            r == (ReconnectState { attempt: 0, delay: c.reconnect_initial_delay }),
    {
        ReconnectState { attempt: 0, delay: c.reconnect_initial_delay }
    }

    /// Takes the next step of the connection loop (see `reconnect_next`).
    pub fn next_step(&mut self, c: &QuoteSseSourceConfig) -> (r: ReconnectStep)
        requires
            reconnect_step_in_range(*c, *old(self)),
        ensures
            (r, *final(self)) == reconnect_next(*c, *old(self)),
    {
        if c.max_reconnect_attempts > 0 && self.attempt >= c.max_reconnect_attempts {
            return ReconnectStep::GiveUp;
        }
        if self.attempt > 0 {
            let wait = self.delay;
            let doubled = self.delay * 2;
            self.delay = if doubled < c.reconnect_max_delay {
                doubled
            } else {
                c.reconnect_max_delay
            };
            self.attempt = self.attempt + 1;
            ReconnectStep::Connect { wait_seconds: Some(wait) }
        } else {
            self.attempt = 1;
            ReconnectStep::Connect { wait_seconds: None }
        }
    }
}

/// With an attempt limit, the loop never goes past it: from a state within
/// the limit, the next state is within it too, and a state at the limit
/// gives up.
pub proof fn law_reconnect_attempts_bounded(c: QuoteSseSourceConfig, st: ReconnectState)
    requires
        c.max_reconnect_attempts > 0,
        st.attempt <= c.max_reconnect_attempts,
    ensures
        reconnect_next(c, st).1.attempt <= c.max_reconnect_attempts,
        st.attempt == c.max_reconnect_attempts ==> reconnect_next(c, st).0 is GiveUp,
{
}

/// Waits never exceed the larger of the first and the largest delay: a
/// delay within that bound stays within it.
pub proof fn law_reconnect_delay_bounded(c: QuoteSseSourceConfig, st: ReconnectState)
    requires
        st.delay <= c.reconnect_initial_delay || st.delay <= c.reconnect_max_delay,
    ensures
        reconnect_next(c, st).1.delay <= c.reconnect_initial_delay || reconnect_next(c, st).1.delay
            <= c.reconnect_max_delay,
        reconnect_next(c, st).0 matches ReconnectStep::Connect { wait_seconds: Some(w) } ==> w
            == st.delay,
{
}

/// Only codes that start with `6` are Shanghai's (market `1`); every other
/// code, `0xxxxx`, `3xxxxx` or any other, and the empty code, is Shenzhen's
/// (market `0`).
pub proof fn law_market_by_first_digit(code: Seq<char>)
    ensures
        code.len() > 0 && code[0] == '6' ==> market_of(code) == "1"@,
        !(code.len() > 0 && code[0] == '6') ==> market_of(code) == "0"@,
        market_of(code) == "1"@ || market_of(code) == "0"@,
{
}

/// The stream URL names the security as `secid=<market>.<code>`, with
/// market `0` for every code that does not start with `6`.
pub proof fn law_url_secid(c: QuoteSseSourceConfig, code: Seq<char>)
    requires
        !(code.len() > 0 && code[0] == '6'),
    ensures
        sse_url(c, code) == c.sse_url_template@ + "?fields="@ + c.sse_fields@ + "&mpi="@
            + decimal_digits(c.sse_mpi as nat) + "&invt=2&fltt=1&secid="@ + "0"@ + "."@ + code
            + "&ut="@ + c.sse_ut@ + "&dect=1&wbp2u=|0|0|0|web"@,
{
}

} // verus!
