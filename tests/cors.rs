use shortlink::{CorsHeader, CORS, PREFLIGHT_STATUS};

#[test]
fn every_response_allows_any_origin_for_get() {
    let h: Vec<(&str, &str)> =
        CORS.response_headers().iter().map(|h| (h.name(), h.value())).collect();
    assert_eq!(
        h,
        vec![
            ("Access-Control-Allow-Origin", "*"),
            ("Access-Control-Allow-Methods", "GET"),
            ("Access-Control-Allow-Headers", "*"),
        ]
    );
}

#[test]
fn preflight_reply_adds_max_age_and_allow() {
    let h = CORS.preflight_headers();
    assert_eq!(h.len(), 5);
    assert_eq!(h[3], CorsHeader::MaxAge);
    assert_eq!((h[3].name(), h[3].value()), ("Access-Control-Max-Age", "86400"));
    assert_eq!((h[4].name(), h[4].value()), ("Allow", "OPTIONS, GET"));
    assert_eq!(PREFLIGHT_STATUS, 204);
}

#[test]
fn policy_is_named() {
    assert_eq!(CORS.name(), "CORS headers");
}
