use auth_service::data_stores::BannedTokenStore;
use auth_service::hashset_banned_token_store::HashsetBannedTokenStore;

#[test]
fn test_add_token() {
    let mut store = HashsetBannedTokenStore::new();

    store.add_token("token1".to_owned()).unwrap();
    assert!(store.is_banned_token("token1").unwrap());
}

#[test]
fn test_is_banned_token() {
    let mut store = HashsetBannedTokenStore::new();

    store.add_token("token1".to_owned()).unwrap();
    assert!(store.is_banned_token("token1").unwrap());

    assert!(!store.is_banned_token("token2").unwrap());
}

#[test]
fn test_add_token_twice_is_redundant_not_an_error() {
    let mut store = HashsetBannedTokenStore::new();

    store.add_token("token1".to_owned()).unwrap();
    // re-banning an already-banned token is not a meaningful failure
    assert!(store.add_token("token1".to_owned()).is_ok());
    assert!(store.is_banned_token("token1").unwrap());
}
