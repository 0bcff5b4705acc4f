use quotebook::pagination::{list_page, ListError};
use quotebook::registry::TokenRegistry;
use quotebook::store::QuoteStore;

fn store_with(authors: &[&str]) -> QuoteStore {
    let mut store = QuoteStore::new();
    for a in authors {
        let r = store.create(a.to_string(), format!("quote by {a}"));
        assert!(r.is_ok());
    }
    store
}

#[test]
fn seven_records_three_pages() {
    let store = store_with(&["A", "B", "C", "D", "E", "F", "G"]);
    let mut reg = TokenRegistry::new();

    let lp = list_page(&store, &mut reg, None).unwrap();
    let authors: Vec<&str> = lp.quotes.iter().map(|q| q.author.as_str()).collect();
    assert_eq!(authors, ["A", "B", "C"]);
    assert_eq!(lp.page, 1);
    let t1 = lp.next_token.expect("a second page remains");

    let lp = list_page(&store, &mut reg, Some(t1)).unwrap();
    let authors: Vec<&str> = lp.quotes.iter().map(|q| q.author.as_str()).collect();
    assert_eq!(authors, ["D", "E", "F"]);
    assert_eq!(lp.page, 2);
    let t2 = lp.next_token.expect("a third page remains");

    let lp = list_page(&store, &mut reg, Some(t2.clone())).unwrap();
    let authors: Vec<&str> = lp.quotes.iter().map(|q| q.author.as_str()).collect();
    assert_eq!(authors, ["G"]);
    assert_eq!(lp.page, 3);
    assert!(lp.next_token.is_none());

    let again = list_page(&store, &mut reg, Some(t2));
    assert_eq!(again.unwrap_err(), ListError::InvalidToken);
}

#[test]
fn reset_then_list() {
    let mut store = store_with(&["A", "B", "C", "D"]);
    let mut reg = TokenRegistry::new();
    store.reset();
    let lp = list_page(&store, &mut reg, None).unwrap();
    assert!(lp.quotes.is_empty());
    assert_eq!(lp.page, 1);
    assert!(lp.next_token.is_none());
}

#[test]
fn no_token_starts_at_page_zero_and_caps_at_three() {
    let store = store_with(&["A", "B", "C", "D", "E"]);
    let mut reg = TokenRegistry::new();
    let lp = list_page(&store, &mut reg, None).unwrap();
    assert_eq!(lp.quotes.len(), 3);
    assert_eq!(lp.quotes[0].author, "A");
}

#[test]
fn next_token_iff_more_records_remain() {
    let mut reg = TokenRegistry::new();

    let empty = QuoteStore::new();
    let lp = list_page(&empty, &mut reg, None).unwrap();
    assert!(lp.next_token.is_none());

    let exactly_one_page = store_with(&["A", "B", "C"]);
    let lp = list_page(&exactly_one_page, &mut reg, None).unwrap();
    assert!(lp.next_token.is_none());

    let one_more = store_with(&["A", "B", "C", "D"]);
    let lp = list_page(&one_more, &mut reg, None).unwrap();
    assert!(lp.next_token.is_some());
}

#[test]
fn unknown_token_is_a_client_error() {
    let store = store_with(&["A", "B"]);
    let mut reg = TokenRegistry::new();
    let r = list_page(&store, &mut reg, Some("nosuchtoken16chr".to_string()));
    assert_eq!(r.unwrap_err(), ListError::InvalidToken);
}

#[test]
fn minted_token_is_sixteen_alphanumeric_chars() {
    let store = store_with(&["A", "B", "C", "D"]);
    let mut reg = TokenRegistry::new();
    let lp = list_page(&store, &mut reg, None).unwrap();
    let tok = lp.next_token.unwrap();
    assert_eq!(tok.chars().count(), 16);
    assert!(tok.chars().all(|c| c.is_ascii_alphanumeric()));
}
