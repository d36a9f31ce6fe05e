use capedit::session::{SessionStore, EditSession};
use capedit::request::EditRequest;

fn session(text: &str, media: &str) -> (EditRequest, Vec<u8>) {
    (EditRequest::SingleText(text.as_bytes().to_vec()), media.as_bytes().to_vec())
}

#[test]
fn stored_sessions_come_back() {
    let mut store = SessionStore::new();
    let (r1, m1) = session("one", "media-1");
    let (r2, m2) = session("two", "media-2");
    let id1 = store.insert(r1, m1);
    let id2 = store.insert(r2, m2);
    assert_ne!(id1, id2);

    let s2: EditSession = store.take(id2).expect("second session");
    assert_eq!(s2.media, b"media-2".to_vec());
    match s2.request {
        EditRequest::SingleText(t) => assert_eq!(t, b"two".to_vec()),
        _ => panic!("expected a single text"),
    }

    let s1 = store.take(id1).expect("first session");
    assert_eq!(s1.media, b"media-1".to_vec());
}

#[test]
fn taking_twice_finds_nothing() {
    let mut store = SessionStore::new();
    let (r, m) = session("once", "media");
    let id = store.insert(r, m);
    assert!(store.take(id).is_some());
    assert!(store.take(id).is_none());
}

#[test]
fn unknown_ids_find_nothing() {
    let mut store = SessionStore::new();
    assert!(store.take(7).is_none());
    let (r, m) = session("x", "m");
    let id = store.insert(r, m);
    assert!(store.take(id + 1).is_none());
    assert!(store.take(id).is_some());
}

#[test]
fn ids_are_never_reused() {
    let mut store = SessionStore::new();
    let (r, m) = session("a", "m");
    let first = store.insert(r, m);
    assert!(store.take(first).is_some());
    let (r, m) = session("b", "m");
    let second = store.insert(r, m);
    assert_ne!(first, second);
    assert_eq!(store.peek_next(), second + 1);
}
