use url_shortener::errors::AppError;
use url_shortener::models::EntryRequest;
use url_shortener::routes::{
    api_key_auth, handle_entry_delete, handle_entry_get, handle_entry_post, handle_index_get,
};
use url_shortener::store::Store;

#[test]
fn round_trip_through_handlers() {
    let mut s = Store::new();
    let resp = handle_entry_post(
        &mut s,
        EntryRequest {
            url: "https://example.com/a".to_string(),
            slug: "ex".to_string(),
        },
    )
    .unwrap();
    assert_eq!(resp.url, "https://example.com/a");
    assert_eq!(resp.slug, "ex");
    assert_eq!(resp.id.len(), 36);
    let got = handle_entry_get(&s, "ex".to_string()).unwrap();
    assert_eq!(got, "https://example.com/a");
}

#[test]
fn malformed_url_never_reaches_the_store() {
    let mut s = Store::new();
    let r = handle_entry_post(
        &mut s,
        EntryRequest {
            url: "not a url".to_string(),
            slug: "nope".to_string(),
        },
    );
    assert!(matches!(r, Err(AppError::MalformedInput(_))));
    assert_eq!(s.len(), 0);
    assert!(matches!(
        handle_entry_get(&s, "nope".to_string()),
        Err(AppError::NotFound)
    ));
}

#[test]
fn stored_url_is_the_normalized_form() {
    let mut s = Store::new();
    let resp = handle_entry_post(
        &mut s,
        EntryRequest {
            url: "HTTPS://EXAMPLE.COM".to_string(),
            slug: "up".to_string(),
        },
    )
    .unwrap();
    assert_eq!(resp.url, "https://example.com/");
    let got = handle_entry_get(&s, "up".to_string()).unwrap();
    assert_eq!(got, "https://example.com/");
}

#[test]
fn duplicate_slug_through_handlers() {
    let mut s = Store::new();
    handle_entry_post(
        &mut s,
        EntryRequest {
            url: "https://example.com/a".to_string(),
            slug: "x".to_string(),
        },
    )
    .unwrap();
    let r = handle_entry_post(
        &mut s,
        EntryRequest {
            url: "https://example.com/b".to_string(),
            slug: "x".to_string(),
        },
    );
    assert!(matches!(r, Err(AppError::DuplicateSlug)));
    assert_eq!(s.len(), 1);
}

#[test]
fn handler_ids_are_fresh_uuids() {
    let mut s = Store::new();
    let a = handle_entry_post(
        &mut s,
        EntryRequest {
            url: "https://example.com/a".to_string(),
            slug: "a".to_string(),
        },
    )
    .unwrap();
    let b = handle_entry_post(
        &mut s,
        EntryRequest {
            url: "https://example.com/b".to_string(),
            slug: "b".to_string(),
        },
    )
    .unwrap();
    assert_eq!(a.id.len(), 36);
    assert_eq!(b.id.len(), 36);
    assert_ne!(a.id, b.id);
}

#[test]
fn delete_through_handlers() {
    let mut s = Store::new();
    handle_entry_post(
        &mut s,
        EntryRequest {
            url: "https://example.com/a".to_string(),
            slug: "x".to_string(),
        },
    )
    .unwrap();
    assert!(handle_entry_delete(&mut s, "x".to_string()).is_ok());
    assert!(matches!(
        handle_entry_delete(&mut s, "x".to_string()),
        Err(AppError::NotFound)
    ));
}

#[test]
fn index_greeting_is_fixed() {
    assert_eq!(handle_index_get(), "{value: who dis}");
}

#[test]
fn api_key_gate_decision() {
    let secret = "expected-key".to_string();
    let good = "expected-key".to_string();
    let bad = "wrong".to_string();
    assert!(api_key_auth(Some(&good), &secret));
    assert!(!api_key_auth(Some(&bad), &secret));
    assert!(!api_key_auth(None, &secret));
}
