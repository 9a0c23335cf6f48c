use rust_url_shortener::url_record::URLRecord;

#[test]
fn test_to_json_exact() {
    let rec = URLRecord {
        id: "abc".to_string(),
        url: "http://example.com/a".to_string(),
        timestamp: 1671731525,
        hits: 3,
    };
    assert_eq!(
        rec.to_json(),
        "{\"id\":\"abc\",\"url\":\"http://example.com/a\",\"timestamp\":1671731525,\"hits\":3}"
    );
}

#[test]
fn test_round_trip() {
    let rec = URLRecord {
        id: "xyz9".to_string(),
        url: "https://host/path?q=1".to_string(),
        timestamp: -7,
        hits: 0,
    };
    let json = rec.to_json();
    let back = URLRecord::from_json("ignored".to_string(), &json);
    assert_eq!(back.id, "xyz9");
    assert_eq!(back.url, "https://host/path?q=1");
    assert_eq!(back.timestamp, -7);
    assert_eq!(back.hits, 0);
}

#[test]
fn test_round_trip_escaped() {
    let rec = URLRecord {
        id: "a\"b".to_string(),
        url: "http://h/\\x\"y".to_string(),
        timestamp: 0,
        hits: 9223372036854775807,
    };
    let json = rec.to_json();
    let back = URLRecord::from_json("other".to_string(), &json);
    assert_eq!(back.id, "a\"b");
    assert_eq!(back.url, "http://h/\\x\"y");
    assert_eq!(back.timestamp, 0);
    assert_eq!(back.hits, 9223372036854775807);
}

#[test]
fn test_legacy_scalar() {
    let stored = "http://legacy.example.com".to_string();
    let back = URLRecord::from_json("oldid".to_string(), &stored);
    assert_eq!(back.id, "oldid");
    assert_eq!(back.url, "http://legacy.example.com");
    assert_eq!(back.timestamp, 0);
    assert_eq!(back.hits, 0);
}

#[test]
fn test_malformed_json_is_legacy() {
    let stored = "{\"id\":\"a\",\"url\":\"u\"}".to_string();
    let back = URLRecord::from_json("k".to_string(), &stored);
    // not this library's notation: kept verbatim as a legacy URL
    assert_eq!(back.id, "k");
    assert_eq!(back.url, stored);
    assert_eq!(back.timestamp, 0);
}
