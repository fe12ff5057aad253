use shortlink::{import_dedup_record, import_token_record, ImportError, DEDUP_TAG, TOKEN_TAG};

#[test]
fn token_record_is_keyed_by_raw_token() {
    let (k, v) = import_token_record("QUFBQUFBQUFBQUE=", "aHR0cDovL2EuY29tL3g=").unwrap();
    assert_eq!(k, vec![TOKEN_TAG, 0, 0, 0, 0, 0, 0, 0, 0]);
    assert_eq!(v, b"http://a.com/x".to_vec());
}

#[test]
fn token_record_errors() {
    assert_eq!(import_token_record("***", "aHR0cDovL2EuY29tL3g="), Err(ImportError::BadEncoding));
    assert_eq!(import_token_record("QUFBQUFBQUFBQUE=", "***"), Err(ImportError::BadEncoding));
    assert_eq!(import_token_record("QUFBQQ==", "aHR0cDovL2EuY29tL3g="), Err(ImportError::BadToken));
    assert_eq!(import_token_record("//79", "aHR0cDovL2EuY29tL3g="), Err(ImportError::BadToken));
}

#[test]
fn dedup_record_is_keyed_by_fingerprint() {
    let (k, v) =
        import_dedup_record("jdnZgG2xBu5bBGq00Z2dd8d8qYqjnxzxoK5lrRYP9Ek=", "AQIDBAUGBwg").unwrap();
    assert_eq!(k, shortlink::make_dedup_key("http://a.com/x"));
    assert_eq!(k[0], DEDUP_TAG);
    assert_eq!(v, b"AQIDBAUGBwg".to_vec());
}

#[test]
fn dedup_record_errors() {
    assert_eq!(import_dedup_record("%%", "AQIDBAUGBwg"), Err(ImportError::BadEncoding));
    assert_eq!(import_dedup_record("QUFBQQ==", "AQIDBAUGBwg"), Err(ImportError::BadFingerprint));
    assert_eq!(
        import_dedup_record("jdnZgG2xBu5bBGq00Z2dd8d8qYqjnxzxoK5lrRYP9Ek=", "AQID"),
        Err(ImportError::BadToken)
    );
}

#[test]
fn pair_with_fingerprint_key_loads_as_dedup_record() {
    let (k, v) = shortlink::import_record(
        "jdnZgG2xBu5bBGq00Z2dd8d8qYqjnxzxoK5lrRYP9Ek=",
        "QVFJREJBVUdCd2c=",
    )
    .unwrap();
    assert_eq!(k, shortlink::make_dedup_key("http://a.com/x"));
    assert_eq!(v, b"AQIDBAUGBwg".to_vec());
}

#[test]
fn pair_with_token_key_loads_as_token_record() {
    let (k, v) = shortlink::import_record("QUFBQUFBQUFBQUE=", "aHR0cDovL2EuY29tL3g=").unwrap();
    assert_eq!(k, vec![TOKEN_TAG, 0, 0, 0, 0, 0, 0, 0, 0]);
    assert_eq!(v, b"http://a.com/x".to_vec());
    assert_eq!(
        shortlink::import_record("jdnZgG2xBu5bBGq00Z2dd8d8qYqjnxzxoK5lrRYP9Ek=", "//79"),
        Err(ImportError::BadToken)
    );
}
