use quotebook::store::{QuoteStore, StoreError};

#[test]
fn scan_returns_insertion_order_with_increasing_stamps() {
    let mut store = QuoteStore::new();
    for a in ["first", "second", "third", "fourth"] {
        store.create(a.to_string(), a.to_string()).unwrap();
    }
    let all = store.scan(0, store.count());
    assert_eq!(all.len(), 4);
    let authors: Vec<&str> = all.iter().map(|q| q.author.as_str()).collect();
    assert_eq!(authors, ["first", "second", "third", "fourth"]);
    for w in all.windows(2) {
        assert!(w[0].created_at < w[1].created_at);
    }
}

#[test]
fn create_assigns_version_one_and_fresh_ids() {
    let mut store = QuoteStore::new();
    let a = store.create("a".to_string(), "qa".to_string()).unwrap();
    let b = store.create("b".to_string(), "qb".to_string()).unwrap();
    assert_eq!(a.version, 1);
    assert_eq!(b.version, 1);
    assert_ne!(a.id, b.id);
    assert!(a.created_at < b.created_at);
}

#[test]
fn version_grows_by_one_per_update() {
    let mut store = QuoteStore::new();
    let rec = store.create("a".to_string(), "q".to_string()).unwrap();
    let mut version = rec.version;
    assert_eq!(version, 1);
    for n in 1..=3u64 {
        let upd = store
            .update(rec.id, format!("a{n}"), format!("q{n}"))
            .expect("the record exists");
        assert_eq!(upd.version, version + 1);
        version = upd.version;
        assert_eq!(version, 1 + n);
    }
}

#[test]
fn update_missing_id_misses() {
    let mut store = QuoteStore::new();
    store.create("a".to_string(), "q".to_string()).unwrap();
    assert!(store.update(12345, "x".to_string(), "y".to_string()).is_none());
}

#[test]
fn update_replaces_fields_and_keeps_id_and_stamp() {
    let mut store = QuoteStore::new();
    let rec = store.create("a".to_string(), "q".to_string()).unwrap();
    let upd = store.update(rec.id, "b".to_string(), "r".to_string()).unwrap();
    assert_eq!(upd.id, rec.id);
    assert_eq!(upd.created_at, rec.created_at);
    assert_eq!(upd.author, "b");
    assert_eq!(upd.quote, "r");
    let got = store.get(rec.id).unwrap();
    assert_eq!(got.author, "b");
    assert_eq!(got.version, 2);
}

#[test]
fn get_and_delete_by_id() {
    let mut store = QuoteStore::new();
    let rec = store.create("a".to_string(), "q".to_string()).unwrap();
    let got = store.get(rec.id).expect("present after insert");
    assert_eq!(got.author, "a");
    assert_eq!(got.quote, "q");
    let gone = store.delete(rec.id).expect("present before delete");
    assert_eq!(gone.id, rec.id);
    assert!(store.get(rec.id).is_none());
    assert!(store.delete(rec.id).is_none());
    assert_eq!(store.count(), 0);
}

#[test]
fn insert_with_taken_id_is_refused() {
    let mut store = QuoteStore::new();
    let first = store.insert_with_id(7, "a".to_string(), "q".to_string()).unwrap();
    assert_eq!(first.version, 1);
    let second = store.insert_with_id(7, "b".to_string(), "r".to_string());
    assert_eq!(second.unwrap_err(), StoreError::IdInUse);
    assert_eq!(store.count(), 1);
}

#[test]
fn spent_stamp_counter_is_refused() {
    let mut store = QuoteStore {
        records: Vec::new(),
        next_stamp: u64::MAX,
    };
    let r = store.insert_with_id(1, "a".to_string(), "q".to_string());
    assert_eq!(r.unwrap_err(), StoreError::StampsExhausted);
}

#[test]
fn scan_past_the_end_is_empty() {
    let mut store = QuoteStore::new();
    store.create("a".to_string(), "q".to_string()).unwrap();
    assert!(store.scan(5, 3).is_empty());
    assert_eq!(store.scan(0, 0).len(), 0);
}
