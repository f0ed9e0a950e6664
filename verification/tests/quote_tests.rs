use chrono::{DateTime, Datelike, NaiveDate, Timelike, Utc};
use chrono_tz::Asia::Shanghai;
use stock_alert::config::QuoteSseSourceConfig;
use stock_alert::json::JsonValue;
use stock_alert::quote::{
    details_of_message, is_quote_event, parse_detail_record, parse_quote_from_sse, sort_ticks_by_time,
    ReconnectState, ReconnectStep, SSESource,
};

fn to_utc(ts: i128) -> DateTime<Utc> {
    DateTime::from_timestamp((ts / 1_000_000_000) as i64, (ts % 1_000_000_000) as u32).unwrap()
}

#[test]
fn test_parse_quote_from_sse() {
    let code = "000001";

    let json_data = r#"{"rc":0,"rt":12,"svr":183124488,"lt":1,"full":0,"dlmkts":"","data":{"details":["10:22:45,16.37,52,3,1","10:22:48,16.37,54,2,1","10:22:51,16.37,27,3,1"]}}"#;
    let results = parse_quote_from_sse(json_data, code);

    assert_eq!(results.len(), 3);

    let (price1, timestamp1, volume1) = &results[0];
    assert_eq!(*price1 as f64 / 1000.0, 16.37);
    assert_eq!(*volume1 as f64 / 1000.0, 52.0);

    let (price2, timestamp2, volume2) = &results[1];
    assert_eq!(*price2 as f64 / 1000.0, 16.37);
    assert_eq!(*volume2 as f64 / 1000.0, 54.0);

    let (price3, timestamp3, volume3) = &results[2];
    assert_eq!(*price3 as f64 / 1000.0, 16.37);
    assert_eq!(*volume3 as f64 / 1000.0, 27.0);

    assert!(timestamp1 <= timestamp2);
    assert!(timestamp2 <= timestamp3);

    let empty_json = r#"{"rc":0,"rt":12,"svr":183124488,"lt":1,"full":0,"dlmkts":"","data":{"details":[]}}"#;
    let results = parse_quote_from_sse(empty_json, code);
    assert_eq!(results.len(), 0);

    let invalid_json = r#"{"invalid":"json"}"#;
    let results = parse_quote_from_sse(invalid_json, code);
    assert_eq!(results.len(), 0);

    let no_data_json = r#"{"rc":0,"rt":12}"#;
    let results = parse_quote_from_sse(no_data_json, code);
    assert_eq!(results.len(), 0);

    let no_details_json = r#"{"rc":0,"rt":12,"data":{}}"#;
    let results = parse_quote_from_sse(no_details_json, code);
    assert_eq!(results.len(), 0);
}

#[test]
fn test_parse_quote_from_sse_time_sorting() {
    let code = "000001";

    let json_data = r#"{"rc":0,"rt":12,"svr":183124488,"lt":1,"full":0,"dlmkts":"","data":{"details":["10:22:51,16.37,27,3,1","10:22:45,16.37,52,3,1","10:22:48,16.37,54,2,1"]}}"#;
    let results = parse_quote_from_sse(json_data, code);

    assert_eq!(results.len(), 3);

    let (_, ts1, _) = &results[0];
    let (_, ts2, _) = &results[1];
    let (_, ts3, _) = &results[2];

    assert!(ts1 <= ts2);
    assert!(ts2 <= ts3);

    let local1 = to_utc(*ts1).with_timezone(&Shanghai);
    assert_eq!(local1.hour(), 10);
    assert_eq!(local1.minute(), 22);
    assert_eq!(local1.second(), 45);

    let local3 = to_utc(*ts3).with_timezone(&Shanghai);
    assert_eq!(local3.hour(), 10);
    assert_eq!(local3.minute(), 22);
    assert_eq!(local3.second(), 51);
}

fn day_of(y: i32, m: u32, d: u32) -> i32 {
    NaiveDate::from_ymd_opt(y, m, d).unwrap().num_days_from_ce()
}

#[test]
fn detail_record_reads_price_time_and_volume() {
    let day = day_of(2024, 1, 15);
    let (price, ts, volume) = parse_detail_record("10:22:45,16.37,52,3,1", "000001", day, 7).unwrap();
    assert_eq!(price, 16370);
    assert_eq!(volume, 52000);
    // 10:22:45 in Shanghai is 02:22:45 UTC.
    let utc = to_utc(ts);
    assert_eq!((utc.year(), utc.month(), utc.day()), (2024, 1, 15));
    assert_eq!((utc.hour(), utc.minute(), utc.second()), (2, 22, 45));
}

#[test]
fn detail_record_edge_cases() {
    let day = day_of(2024, 1, 15);
    // fewer than three fields
    assert_eq!(parse_detail_record("10:22:45,16.37", "x", day, 7), None);
    assert_eq!(parse_detail_record("", "x", day, 7), None);
    // a price that does not read
    assert_eq!(parse_detail_record("10:22:45,abc,52", "x", day, 7), None);
    // a negative price has no value in thousandths of a yuan
    assert_eq!(parse_detail_record("10:22:45,-1,52", "x", day, 7), None);
    // extra decimals are rounded to thousandths
    let (price, _, volume) = parse_detail_record("10:22:45,16.3745,52.0004", "x", day, 7).unwrap();
    assert_eq!((price, volume), (16_375, 52_000));
    // a leap second comes one second after the second before it
    let (_, t59, _) = parse_detail_record("10:22:59,1,1", "x", day, 7).unwrap();
    let (_, t60, _) = parse_detail_record("10:22:60,1,1", "x", day, 7).unwrap();
    assert_eq!(t60, t59 + 1_000_000_000);
    // a time that does not read takes `now`
    assert_eq!(parse_detail_record("later,16.37,52", "x", day, 7), Some((16370, 7, 52000)));
    // a volume that does not read is 0
    let (_, _, volume) = parse_detail_record("10:22:45,16.37,many", "x", day, 7).unwrap();
    assert_eq!(volume, 0);
    // exactly three fields
    let (p, _, v) = parse_detail_record("09:30:00,5.5,100.25", "x", day, 7).unwrap();
    assert_eq!((p, v), (5500, 100250));
}

#[test]
fn ticks_with_equal_times_keep_their_order() {
    let v = vec![(3, 20, 0), (1, 10, 0), (4, 20, 1), (2, 10, 1), (5, 5, 0)];
    let sorted = sort_ticks_by_time(&v);
    assert_eq!(sorted, vec![(5, 5, 0), (1, 10, 0), (2, 10, 1), (3, 20, 0), (4, 20, 1)]);
    assert_eq!(sort_ticks_by_time(&vec![]), vec![]);
}

#[test]
fn message_details_are_the_string_items() {
    let obj = |k: &str, v: JsonValue| JsonValue::Object(vec![(k.to_string(), v)]);
    let items = JsonValue::Array(vec![
        JsonValue::Str("a".to_string()),
        JsonValue::Number("1".to_string()),
        JsonValue::Str("b".to_string()),
        JsonValue::Null,
    ]);
    let msg = Some(obj("data", obj("details", items)));
    assert_eq!(details_of_message(&msg), Some(vec!["a".to_string(), "b".to_string()]));
    assert_eq!(details_of_message(&None), None);
    let not_array = Some(obj("data", obj("details", JsonValue::Str("x".to_string()))));
    assert_eq!(details_of_message(&not_array), None);
    let array = Some(JsonValue::Array(vec![
        JsonValue::Number("1".to_string()),
        JsonValue::Number("2".to_string()),
    ]));
    assert_eq!(details_of_message(&array), None);
    let no_details = Some(obj("data", JsonValue::Object(vec![])));
    assert_eq!(details_of_message(&no_details), None);
}

#[test]
fn records_that_do_not_read_are_skipped() {
    let json = r#"{"data":{"details":["10:22:45,16.37,52","broken","10:22:40,x,1","10:22:41,1.001,2"]}}"#;
    let results = parse_quote_from_sse(json, "000001");
    assert_eq!(results.len(), 2);
    assert_eq!(results[0].0, 1001);
    assert_eq!(results[1].0, 16370);
}

#[test]
fn sse_url_for_shanghai_and_shenzhen_codes() {
    let config = match stock_alert::config::QuoteSourceConfig::default() {
        stock_alert::config::QuoteSourceConfig::Sse(c) => c,
        _ => unreachable!(),
    };
    let source = SSESource::new(config);
    assert_eq!(
        source.build_sse_url("600000"),
        "https://22.push2.eastmoney.com/api/qt/stock/details/sse?fields=f1,f2,f3,f4&mpi=1000&invt=2&fltt=1&secid=1.600000&ut=bd1d9ddb04089700cf9c27f6f7426281&dect=1&wbp2u=|0|0|0|web"
    );
    assert_eq!(
        source.build_sse_url("000001"),
        "https://22.push2.eastmoney.com/api/qt/stock/details/sse?fields=f1,f2,f3,f4&mpi=1000&invt=2&fltt=1&secid=0.000001&ut=bd1d9ddb04089700cf9c27f6f7426281&dect=1&wbp2u=|0|0|0|web"
    );
    assert!(source.build_sse_url("").contains("secid=0.&"));
}

#[test]
fn quote_events() {
    assert!(is_quote_event("message"));
    assert!(is_quote_event(""));
    assert!(!is_quote_event("ping"));
    assert!(!is_quote_event("messages"));
}

fn sse_config(max_attempts: u32) -> QuoteSseSourceConfig {
    match stock_alert::config::QuoteSourceConfig::default() {
        stock_alert::config::QuoteSourceConfig::Sse(mut c) => {
            c.max_reconnect_attempts = max_attempts;
            c
        }
        _ => unreachable!(),
    }
}

#[test]
fn reconnect_delays_double_up_to_the_largest() {
    let c = sse_config(0);
    let mut st = ReconnectState::start(&c);
    let mut waits = Vec::new();
    for _ in 0..9 {
        match st.next_step(&c) {
            ReconnectStep::Connect { wait_seconds } => waits.push(wait_seconds),
            ReconnectStep::GiveUp => panic!("no limit"),
        }
    }
    assert_eq!(
        waits,
        vec![None, Some(1), Some(2), Some(4), Some(8), Some(16), Some(32), Some(60), Some(60)]
    );
}

#[test]
fn reconnect_gives_up_at_the_limit() {
    let c = sse_config(3);
    let mut st = ReconnectState::start(&c);
    assert_eq!(st.next_step(&c), ReconnectStep::Connect { wait_seconds: None });
    assert_eq!(st.next_step(&c), ReconnectStep::Connect { wait_seconds: Some(1) });
    assert_eq!(st.next_step(&c), ReconnectStep::Connect { wait_seconds: Some(2) });
    assert_eq!(st.next_step(&c), ReconnectStep::GiveUp);
    assert_eq!(st.next_step(&c), ReconnectStep::GiveUp);
    assert_eq!(st.attempt, 3);
}
