use shortlink::{
    make_dedup_key, make_token_key, resolve, token_bytes, token_text, validate, Allowlist,
    MemStore, ResolveError, Shortener, SubmitError, ValidationError, DEDUP_TAG, TOKEN_TAG,
};

const LIMIT: usize = 256_000;

fn shortener(entries: &[&str], limit: usize) -> Shortener {
    let allow = Allowlist::new(entries.iter().map(|e| e.to_string()).collect());
    Shortener::new(allow, limit)
}

#[test]
fn submit_twice_returns_same_token() {
    let s = shortener(&["a.com"], LIMIT);
    let mut store = MemStore::new();
    let t1 = s.submit(&mut store, "http://a.com/x").unwrap();
    let n = store.len();
    let t2 = s.submit(&mut store, "http://a.com/x").unwrap();
    assert_eq!(t1, t2);
    assert_eq!(store.len(), n);
    assert_eq!(resolve(&store, &t1).unwrap(), "http://a.com/x");
}

#[test]
fn trailing_slash_gives_different_token() {
    let s = shortener(&["a.com"], LIMIT);
    let mut store = MemStore::new();
    let t1 = s.submit(&mut store, "http://a.com/x").unwrap();
    let t2 = s.submit(&mut store, "http://a.com/x/").unwrap();
    assert_ne!(t1, t2);
    assert_eq!(resolve(&store, &t1).unwrap(), "http://a.com/x");
    assert_eq!(resolve(&store, &t2).unwrap(), "http://a.com/x/");
}

#[test]
fn submitted_link_round_trips() {
    let s = shortener(&["example.org"], LIMIT);
    let mut store = MemStore::new();
    let url = "https://example.org/path?b=2&a=1#frag";
    let t = s.submit(&mut store, url).unwrap();
    assert_eq!(t.len(), 11);
    assert_eq!(resolve(&store, &t).unwrap(), url);
}

#[test]
fn new_submission_writes_token_record_then_dedup_record() {
    let s = shortener(&["a.com"], LIMIT);
    let mut store = MemStore::new();
    let draws = vec![[1u8, 2, 3, 4, 5, 6, 7, 8]];
    let t = s.submit_with(&mut store, "http://a.com/x", &draws).unwrap();
    assert_eq!(t, "AQIDBAUGBwg");
    assert_eq!(store.len(), 2);
    let (k0, v0) = store.entry(0);
    assert_eq!(k0, vec![TOKEN_TAG, 1, 2, 3, 4, 5, 6, 7, 8]);
    assert_eq!(v0, b"http://a.com/x".to_vec());
    let (k1, v1) = store.entry(1);
    assert_eq!(k1, make_dedup_key("http://a.com/x"));
    assert_eq!(v1, b"AQIDBAUGBwg".to_vec());
}

#[test]
fn domain_not_on_allowlist_is_rejected_without_writes() {
    let s = shortener(&["a.com", "b.org"], LIMIT);
    let mut store = MemStore::new();
    assert_eq!(s.submit(&mut store, "http://evil.com/x"), Err(SubmitError::DomainRejected));
    assert_eq!(s.submit(&mut store, "http://a.com.evil.com/"), Err(SubmitError::DomainRejected));
    assert_eq!(store.len(), 0);
}

#[test]
fn subdomain_matches_by_root() {
    let s = shortener(&["example.com"], LIMIT);
    let mut store = MemStore::new();
    let t = s.submit(&mut store, "https://sub.example.com/page").unwrap();
    assert_eq!(resolve(&store, &t).unwrap(), "https://sub.example.com/page");
}

#[test]
fn exact_entry_matches_subdomain_host() {
    let s = shortener(&["sub.example.com"], LIMIT);
    let mut store = MemStore::new();
    assert!(s.submit(&mut store, "https://sub.example.com/").is_ok());
    assert_eq!(
        s.submit(&mut store, "https://other.example.com/"),
        Err(SubmitError::DomainRejected)
    );
}

#[test]
fn length_at_limit_succeeds_and_one_over_is_too_large() {
    let url = "http://a.com/abcdef";
    let mut store = MemStore::new();
    let at = shortener(&["a.com"], url.len());
    assert!(at.submit(&mut store, url).is_ok());
    let mut empty = MemStore::new();
    let under = shortener(&["a.com"], url.len() - 1);
    assert_eq!(under.submit(&mut empty, url), Err(SubmitError::TooLarge));
    assert_eq!(empty.len(), 0);
}

#[test]
fn malformed_links_are_rejected() {
    let s = shortener(&["a.com"], LIMIT);
    let mut store = MemStore::new();
    assert_eq!(s.submit(&mut store, "not a url"), Err(SubmitError::Malformed));
    assert_eq!(s.submit(&mut store, "mailto:someone@a.com"), Err(SubmitError::Malformed));
    assert_eq!(s.submit(&mut store, ""), Err(SubmitError::Malformed));
    assert_eq!(store.len(), 0);
}

#[test]
fn unknown_token_is_not_found() {
    let store = MemStore::new();
    let t = token_text(&[9u8; 8]);
    assert_eq!(resolve(&store, &t), Err(ResolveError::NotFound));
}

#[test]
fn undecodable_token_is_invalid() {
    let store = MemStore::new();
    assert_eq!(resolve(&store, "!!!"), Err(ResolveError::InvalidToken));
    assert_eq!(resolve(&store, "AAAA"), Err(ResolveError::InvalidToken));
}

#[test]
fn stored_link_that_is_not_text_is_a_storage_error() {
    let mut store = MemStore::new();
    store.put(make_token_key(&[0u8; 8]), vec![0xff, 0xfe]);
    assert_eq!(resolve(&store, "AAAAAAAAAAA"), Err(ResolveError::Storage));
}

#[test]
fn corrupt_dedup_record_is_a_storage_error() {
    let s = shortener(&["a.com"], LIMIT);
    let mut store = MemStore::new();
    store.put(make_dedup_key("http://a.com/"), vec![0xc3]);
    assert_eq!(s.submit(&mut store, "http://a.com/"), Err(SubmitError::Storage));
    assert_eq!(store.len(), 1);
}

#[test]
fn forced_collision_takes_second_candidate() {
    let s = shortener(&["a.com"], LIMIT);
    let mut store = MemStore::new();
    let first = [7u8; 8];
    let second = [8u8; 8];
    let t1 = s.submit_with(&mut store, "http://a.com/one", &vec![first]).unwrap();
    let t2 = s
        .submit_with(&mut store, "http://a.com/two", &vec![first, second])
        .unwrap();
    assert_ne!(t1, t2);
    assert_eq!(t2, token_text(&second));
    assert_eq!(resolve(&store, &t1).unwrap(), "http://a.com/one");
    assert_eq!(resolve(&store, &t2).unwrap(), "http://a.com/two");
    assert_eq!(store.len(), 4);
}

#[test]
fn all_candidates_taken_exhausts_retries() {
    let s = shortener(&["a.com"], LIMIT);
    let mut store = MemStore::new();
    let c = [3u8; 8];
    s.submit_with(&mut store, "http://a.com/one", &vec![c]).unwrap();
    assert_eq!(
        s.submit_with(&mut store, "http://a.com/two", &vec![c, c]),
        Err(SubmitError::ExhaustedRetries)
    );
    assert_eq!(
        s.submit_with(&mut store, "http://a.com/three", &vec![]),
        Err(SubmitError::ExhaustedRetries)
    );
    assert_eq!(store.len(), 2);
}

#[test]
fn token_text_is_unpadded_url_safe_base64() {
    assert_eq!(token_text(&[0u8; 8]), "AAAAAAAAAAA");
    assert_eq!(token_text(&[0xffu8; 8]), "__________8");
    assert_eq!(token_bytes("AQIDBAUGBwg"), Some(vec![1, 2, 3, 4, 5, 6, 7, 8]));
    assert_eq!(token_bytes("a+b/"), None);
}

#[test]
fn dedup_key_is_tagged_digest() {
    let k = make_dedup_key("");
    assert_eq!(k.len(), 33);
    assert_eq!(k[0], DEDUP_TAG);
    assert_eq!(&k[1..5], &[0xe3, 0xb0, 0xc4, 0x42]);
    let k2 = make_dedup_key("http://a.com/x");
    assert_eq!(&k2[1..5], &[0x8d, 0xd9, 0xd9, 0x80]);
    assert_ne!(make_dedup_key("http://a.com/x"), make_dedup_key("http://a.com/x/"));
}

#[test]
fn validate_extracts_domain_and_root() {
    let p = validate("https://www.example.co.uk/a", LIMIT).unwrap();
    assert_eq!(p.domain, "www.example.co.uk");
    assert_eq!(p.root, Some("example.co.uk".to_string()));
    assert_eq!(validate("https://www.example.co.uk/a", 5).err(), Some(ValidationError::TooLarge));
    assert_eq!(validate("nope", LIMIT).err(), Some(ValidationError::Malformed));
}
