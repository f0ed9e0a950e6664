use stock_alert::playback::{playback_records, record_quote, text_le_exec, TestQuoteRecord};

fn rec(code: &str, price: u64, ts: &str) -> TestQuoteRecord {
    TestQuoteRecord { code: code.to_string(), price, timestamp: ts.to_string() }
}

#[test]
fn records_of_one_code_in_time_order() {
    let records = vec![
        rec("000001", 3, "2024-01-15T10:00:03+08:00"),
        rec("600000", 9, "2024-01-15T10:00:00+08:00"),
        rec("000001", 1, "2024-01-15T10:00:01+08:00"),
        rec("000001", 2, "2024-01-15T10:00:01+08:00"),
    ];
    let out = playback_records(records, "000001");
    let prices: Vec<u64> = out.iter().map(|r| r.price).collect();
    assert_eq!(prices, vec![1, 2, 3]);
    assert!(playback_records(vec![rec("1", 1, "a")], "2").is_empty());
}

#[test]
fn text_order() {
    assert!(text_le_exec("a", "b"));
    assert!(!text_le_exec("b", "a"));
    assert!(text_le_exec("ab", "ab"));
    assert!(text_le_exec("a", "ab"));
    assert!(!text_le_exec("ab", "a"));
    assert!(text_le_exec("", ""));
}

#[test]
fn record_quotes() {
    let q = record_quote(&rec("000001", 16_370, "2024-01-15T10:22:45+08:00")).unwrap();
    assert_eq!(q.code, "000001");
    assert_eq!(q.price, 16_370);
    assert_eq!(q.volume, None);
    assert_eq!(q.timestamp, 1_705_285_365 * 1_000_000_000);
    assert!(record_quote(&rec("000001", 1, "yesterday")).is_none());
}
