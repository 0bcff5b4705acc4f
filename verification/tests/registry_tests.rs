use quotebook::registry::TokenRegistry;

#[test]
fn redeem_returns_the_minted_page_once() {
    let mut reg = TokenRegistry::new();
    let tok = reg.mint(5);
    assert_eq!(reg.redeem(&tok), Some(5));
    assert_eq!(reg.redeem(&tok), None);
}

#[test]
fn redeem_of_unknown_token_misses_and_stays_consumed() {
    let mut reg = TokenRegistry::new();
    assert_eq!(reg.redeem("neverminted00000"), None);
    assert_eq!(reg.redeem("neverminted00000"), None);
}

#[test]
fn tokens_are_independent() {
    let mut reg = TokenRegistry::new();
    let t1 = reg.mint(1);
    let t2 = reg.mint(2);
    assert_ne!(t1, t2);
    assert_eq!(reg.redeem(&t2), Some(2));
    assert_eq!(reg.redeem(&t1), Some(1));
    assert_eq!(reg.redeem(&t2), None);
}

#[test]
fn minted_tokens_are_opaque_alphanumeric() {
    let mut reg = TokenRegistry::new();
    let tok = reg.mint(0);
    assert_eq!(tok.chars().count(), 16);
    assert!(tok.chars().all(|c| c.is_ascii_alphanumeric()));
}
