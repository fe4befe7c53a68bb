use weather_api_rust::md5sum::md5sum_from_output;
use weather_api_rust::routes::{parse_zip_country, total_inserted, Pagination, StringLengthMap};
use weather_api_rust::errors::ServiceError;
use weather_api_rust::s3_sync::{
    after_download, after_upload, local_file_needs_md5, local_file_update, reconcile_remote,
    sync_message, trim_matches_char, KeyItem, KeyItemCache,
};
use weather_api_rust::choices::{history_selection, location_choices};

fn cache(key: &str, etag: &str, ts: i64, size: i64) -> KeyItemCache {
    KeyItemCache {
        s3_key: key.into(),
        etag: etag.into(),
        s3_timestamp: ts,
        s3_size: size,
        has_local: true,
        has_remote: false,
    }
}

#[test]
fn test_md5sum_output() {
    assert_eq!(
        md5sum_from_output("af59a680bc9c39776f9657dba46e008f  /tmp/temp.tmp\n").as_deref(),
        Some("af59a680bc9c39776f9657dba46e008f")
    );
    assert_eq!(md5sum_from_output("\n   \n  abc def\n").as_deref(), Some("abc"));
    assert_eq!(md5sum_from_output("").as_deref(), None);
    assert_eq!(md5sum_from_output(" \t\n\n").as_deref(), None);
}

#[test]
fn test_trim_quotes() {
    assert_eq!(trim_matches_char("\"abc\"", '"'), "abc");
    assert_eq!(trim_matches_char("\"\"a\"b\"", '"'), "a\"b");
    assert_eq!(trim_matches_char("\"\"\"", '"'), "");
    assert_eq!(trim_matches_char("abc", '"'), "abc");
}

#[test]
fn test_key_item_from_parts() {
    let item = KeyItem::from_s3_parts(Some("k".into()), Some("\"e1\"".into()), Some(1000), 5)
        .unwrap();
    assert_eq!(item.key, "k");
    assert_eq!(item.etag, "e1");
    assert_eq!(item.timestamp, 1000);
    assert_eq!(item.size, 5);
    assert!(KeyItem::from_s3_parts(None, Some("e".into()), Some(1), 1).is_none());
    assert!(KeyItem::from_s3_parts(Some("k".into()), None, Some(1), 1).is_none());
    assert!(KeyItem::from_s3_parts(Some("k".into()), Some("e".into()), None, 1).is_none());
    assert!(KeyItem::from_s3_parts(Some("k".into()), Some("e".into()), Some(i64::MAX), 1).is_none());
}

#[test]
fn test_key_item_equality_by_key() {
    let a = KeyItem { key: "k".into(), etag: "a".into(), timestamp: 1, size: 1 };
    let b = KeyItem { key: "k".into(), etag: "b".into(), timestamp: 2, size: 2 };
    let c = KeyItem { key: "j".into(), etag: "a".into(), timestamp: 1, size: 1 };
    assert_eq!(a, b);
    assert_ne!(a, c);
}

#[test]
fn test_reconcile_remote() {
    let key = KeyItem { key: "k".into(), etag: "new".into(), timestamp: 20, size: 100 };
    // unknown object
    let r = reconcile_remote(key.clone(), None);
    assert_eq!(r, KeyItemCache { has_local: false, has_remote: true, ..cache("k", "new", 20, 100) });
    // unchanged object is marked remote
    let r = reconcile_remote(key.clone(), Some(cache("k", "new", 20, 100)));
    assert_eq!(r, KeyItemCache { has_remote: true, ..cache("k", "new", 20, 100) });
    // changed and larger in the bucket: the bucket copy replaces the record
    let r = reconcile_remote(key.clone(), Some(cache("k", "old", 10, 50)));
    assert_eq!(r, KeyItemCache { has_local: false, has_remote: true, ..cache("k", "new", 20, 100) });
    // changed and smaller in the bucket
    let r = reconcile_remote(key.clone(), Some(cache("k", "old", 10, 500)));
    assert_eq!(r, KeyItemCache { has_remote: false, ..cache("k", "old", 10, 500) });
    // only the time changed
    let r = reconcile_remote(key, Some(cache("k", "new", 10, 500)));
    assert_eq!(r, KeyItemCache { has_remote: true, ..cache("k", "new", 10, 500) });
}

#[test]
fn test_local_file_update() {
    assert!(local_file_needs_md5(1, 1, &None));
    let existing = Some(cache("k", "e", 10, 50));
    assert!(!local_file_needs_md5(10, 100, &existing));
    assert!(!local_file_needs_md5(11, 40, &existing));
    assert!(local_file_needs_md5(11, 60, &existing));

    let r = local_file_update("f".into(), 5, 7, None, "m".into()).unwrap();
    assert_eq!(r, cache("f", "m", 5, 7));
    let r = local_file_update("k".into(), 11, 60, existing.clone(), "other".into()).unwrap();
    assert_eq!(r, KeyItemCache { has_local: true, has_remote: false, ..cache("k", "e", 10, 50) });
    assert!(local_file_update("k".into(), 11, 60, existing.clone(), "e".into()).is_none());
    assert!(local_file_update("k".into(), 10, 60, existing, "other".into()).is_none());
}

#[test]
fn test_after_transfer() {
    let item = KeyItemCache { has_local: false, has_remote: true, ..cache("k", "e", 1, 1) };
    assert!(after_download(item.clone()).has_local);
    let (up, go) = after_upload(cache("k", "e", 1, 1), true);
    assert!(go && up.has_remote && up.has_local);
    let (gone, go) = after_upload(cache("k", "e", 1, 1), false);
    assert!(!go && !gone.has_local && !gone.has_remote);
}

#[test]
fn test_sync_message() {
    assert_eq!(
        sync_message("weather-data", "bucket", 12, 3, 0),
        "weather-data bucket s3_bucketnkeys 12 uploaded 3 downloaded 0"
    );
}

#[test]
fn test_parse_zip_country() {
    assert_eq!(parse_zip_country("55427").unwrap(), (55427, None));
    assert_eq!(
        parse_zip_country("10001,US").unwrap(),
        (10001, Some(isocountry::CountryCode::USA))
    );
    assert_eq!(parse_zip_country("10001,ZZ,extra").unwrap(), (10001, None));
    assert_eq!(
        parse_zip_country("abc,US").unwrap_err(),
        ServiceError::ParseIntError("invalid digit found in string".into())
    );
    assert_eq!(
        parse_zip_country("99999999999999999999x,US").unwrap_err(),
        ServiceError::ParseIntError("number too large to fit in target type".into())
    );
    assert_eq!(
        parse_zip_country("").unwrap_err().to_message(),
        "ParseIntError cannot parse integer from empty string"
    );
}

#[test]
fn test_pagination_defaults() {
    let p = Pagination::from_request(None, None, 42);
    assert_eq!((p.offset, p.limit, p.total), (0, 10, 42));
    let p = Pagination::from_request(Some(5), Some(3), 42);
    assert_eq!((p.offset, p.limit, p.total), (5, 3, 42));
}

#[test]
fn test_total_inserted() {
    assert_eq!(total_inserted(&vec![1, 0, 1, 1]), 3);
    assert_eq!(total_inserted(&Vec::new()), 0);
}

#[test]
fn test_string_length_map_keeps_max() {
    let mut m = StringLengthMap::new();
    m.insert_lenth("/weather/index.html", 100);
    m.insert_lenth("/weather/plot.html", 50);
    m.insert_lenth("/weather/index.html", 80);
    m.insert_lenth("/weather/index.html", 120);
    m.insert_lenth("/weather/history_plot.html", 0);
    let mut entries = m.get_map();
    entries.sort();
    assert_eq!(
        entries,
        vec![("/weather/index.html".to_string(), 120), ("/weather/plot.html".to_string(), 50)]
    );
}

#[test]
fn test_location_choices() {
    let sh = vec!["11106".to_string(), "10001".to_string(), "Paris".to_string()];
    let hl = vec!["Paris".to_string(), "Astoria".to_string(), "11106".to_string()];
    let r = location_choices(&sh, &hl);
    assert_eq!(r, vec!["10001", "11106", "Astoria", "Paris"]);
    let r = location_choices(&vec!["b".into(), "ab".into(), "a".into(), "é".into(), "z".into()], &Vec::new());
    assert_eq!(r, vec!["a", "ab", "b", "z", "é"]);
}

#[test]
fn test_key_item_cache_roundtrip() {
    let k = KeyItem { key: "k".into(), etag: "e".into(), timestamp: -5, size: u64::MAX };
    let c = k.clone().to_cache();
    assert_eq!(c.s3_size, -1);
    assert!(!c.has_local && !c.has_remote);
    let back = c.to_key_item();
    assert_eq!(
        (back.key, back.etag, back.timestamp, back.size),
        ("k".to_string(), "e".to_string(), -5, u64::MAX)
    );
    let c = KeyItemCache { has_local: true, has_remote: true, ..cache("j", "f", 3, -7) };
    let again = c.clone().to_key_item().to_cache();
    assert_eq!(again, KeyItemCache { has_local: false, has_remote: false, ..c });
}

#[test]
fn test_history_selection() {
    let recorded: Vec<String> = vec!["Paris".into(), "Boston".into(), "Austin".into()];
    assert_eq!(history_selection(&"Boston".to_string(), &recorded), "Boston");
    assert_eq!(history_selection(&"10001".to_string(), &recorded), "Austin");
    assert_eq!(history_selection(&"10001".to_string(), &Vec::new()), "10001");
    let prefixes: Vec<String> = vec!["ab".into(), "a".into(), "b".into()];
    assert_eq!(history_selection(&String::new(), &prefixes), "a");
}
