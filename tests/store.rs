use shortlink::{bytes_eq, MemStore};

#[test]
fn put_then_get() {
    let mut s = MemStore::new();
    assert_eq!(s.get(b"k"), None);
    s.put(b"k".to_vec(), b"v".to_vec());
    assert_eq!(s.get(b"k"), Some(b"v".to_vec()));
    assert!(s.contains(b"k"));
    assert!(!s.contains(b"x"));
    assert_eq!(s.len(), 1);
}

#[test]
fn put_replaces_in_place() {
    let mut s = MemStore::new();
    s.put(b"a".to_vec(), b"1".to_vec());
    s.put(b"b".to_vec(), b"2".to_vec());
    s.put(b"a".to_vec(), b"3".to_vec());
    assert_eq!(s.len(), 2);
    assert_eq!(s.entry(0), (b"a".to_vec(), b"3".to_vec()));
    assert_eq!(s.entry(1), (b"b".to_vec(), b"2".to_vec()));
}

#[test]
fn bytes_eq_compares_contents() {
    assert!(bytes_eq(b"", b""));
    assert!(bytes_eq(b"abc", b"abc"));
    assert!(!bytes_eq(b"abc", b"abd"));
    assert!(!bytes_eq(b"ab", b"abc"));
}
