use simple_hyper_client::text::u64_decimal;
use simple_hyper_client::Headers;

#[test]
fn headers_insert_and_get() {
    let mut h = Headers::new();
    assert_eq!(h.len(), 0);
    assert!(h.get("accept").is_none());

    h.insert("accept".to_owned(), b"*/*".to_vec());
    h.insert("content-type".to_owned(), b"text/plain".to_vec());
    assert_eq!(h.len(), 2);
    assert_eq!(h.get("accept").unwrap(), b"*/*");
    assert_eq!(h.get("content-type").unwrap(), b"text/plain");
}

#[test]
fn headers_insert_replaces_in_place() {
    let mut h = Headers::new();
    h.insert("a".to_owned(), b"1".to_vec());
    h.insert("b".to_owned(), b"2".to_vec());
    h.insert("a".to_owned(), b"3".to_vec());
    assert_eq!(h.len(), 2);
    assert_eq!(h.get("a").unwrap(), b"3");
    assert_eq!(h.get("b").unwrap(), b"2");
    let fields = h.fields();
    assert_eq!(fields[0].name, "a");
    assert_eq!(fields[0].value, b"3");
    assert_eq!(fields[1].name, "b");
}

#[test]
fn decimal_rendering() {
    assert_eq!(u64_decimal(0), b"0");
    assert_eq!(u64_decimal(7), b"7");
    assert_eq!(u64_decimal(10), b"10");
    assert_eq!(u64_decimal(255), b"255");
    assert_eq!(u64_decimal(1000), b"1000");
    assert_eq!(u64_decimal(u64::MAX), b"18446744073709551615");
}
