use url_shortener::errors::AppError;
use url_shortener::store::{Entry, Store};

#[test]
fn uniqueness_second_create_conflicts() {
    let mut s = Store::new();
    let r1 = s.create_entry(
        "id-1".to_string(),
        "https://example.com/a".to_string(),
        "x".to_string(),
    );
    assert!(r1.is_ok());
    let r2 = s.create_entry(
        "id-2".to_string(),
        "https://example.com/b".to_string(),
        "x".to_string(),
    );
    assert!(matches!(r2, Err(AppError::DuplicateSlug)));
    assert_eq!(s.len(), 1);
    let kept = s.get_entry_by_slug("x".to_string()).unwrap();
    assert_eq!(kept, "https://example.com/a");
}

#[test]
fn create_returns_persisted_row() {
    let mut s = Store::new();
    let e = s
        .create_entry(
            "id-1".to_string(),
            "https://example.com/a".to_string(),
            "ex".to_string(),
        )
        .unwrap();
    assert_eq!(e.id, "id-1");
    assert_eq!(e.url, "https://example.com/a");
    assert_eq!(e.slug, "ex");
    assert!(!e.created_at.is_empty());
    assert!(e.created_at.chars().all(|c| c.is_ascii_digit()));
}

#[test]
fn round_trip_store_level() {
    let mut s = Store::new();
    s.create_entry(
        "id-1".to_string(),
        "https://example.com/a".to_string(),
        "ex".to_string(),
    )
    .unwrap();
    let got = s.get_entry_by_slug("ex".to_string()).unwrap();
    assert_eq!(got, "https://example.com/a");
}

#[test]
fn not_found_symmetry() {
    let mut s = Store::new();
    let r = s.get_entry_by_slug("missing".to_string());
    assert!(matches!(r, Err(AppError::NotFound)));
    let d = s.delete_entry_by_slug("missing".to_string());
    assert!(matches!(d, Err(AppError::NotFound)));
}

#[test]
fn delete_finality() {
    let mut s = Store::new();
    s.create_entry(
        "id-1".to_string(),
        "https://example.com/a".to_string(),
        "x".to_string(),
    )
    .unwrap();
    assert!(s.delete_entry_by_slug("x".to_string()).is_ok());
    assert!(matches!(
        s.get_entry_by_slug("x".to_string()),
        Err(AppError::NotFound)
    ));
    assert!(matches!(
        s.delete_entry_by_slug("x".to_string()),
        Err(AppError::NotFound)
    ));
}

#[test]
fn reads_do_not_disturb_an_entry() {
    let mut s = Store::new();
    s.create_entry(
        "id-1".to_string(),
        "https://example.com/a".to_string(),
        "keep".to_string(),
    )
    .unwrap();
    s.create_entry(
        "id-2".to_string(),
        "https://example.com/b".to_string(),
        "other".to_string(),
    )
    .unwrap();
    s.delete_entry_by_slug("other".to_string()).unwrap();
    let first = s.get_entry_by_slug("keep".to_string()).unwrap();
    let second = s.get_entry_by_slug("keep".to_string()).unwrap();
    assert_eq!(first, second);
    assert_eq!(first, "https://example.com/a");
}

#[test]
fn duplicate_id_is_a_storage_fault() {
    let mut s = Store::new();
    s.create_entry(
        "id-1".to_string(),
        "https://example.com/a".to_string(),
        "a".to_string(),
    )
    .unwrap();
    let r = s.create_entry(
        "id-1".to_string(),
        "https://example.com/b".to_string(),
        "b".to_string(),
    );
    match r {
        Err(AppError::StorageFault(m)) => assert_eq!(m, "duplicate id"),
        other => panic!("expected a storage fault, got {:?}", other),
    }
    assert_eq!(s.len(), 1);
}

#[test]
fn empty_store_has_no_entries() {
    let s = Store::new();
    assert_eq!(s.len(), 0);
}

#[test]
fn restore_rebuilds_a_row_exactly() {
    let mut s = Store::new();
    let e = s
        .create_entry(
            "id-1".to_string(),
            "https://example.com/a".to_string(),
            "ex".to_string(),
        )
        .unwrap();
    let mut t = Store::new();
    t.restore_entry(Entry {
        id: e.id.clone(),
        url: e.url.clone(),
        slug: e.slug.clone(),
        created_at: e.created_at.clone(),
    })
    .unwrap();
    assert_eq!(
        t.get_entry_by_slug("ex".to_string()).unwrap(),
        "https://example.com/a"
    );
    let row = t.get_entry(0);
    assert_eq!(row.id, e.id);
    assert_eq!(row.created_at, e.created_at);
}

#[test]
fn restore_keeps_the_same_arbitration() {
    let mut t = Store::new();
    t.restore_entry(Entry {
        id: "id-1".to_string(),
        url: "https://example.com/a".to_string(),
        slug: "ex".to_string(),
        created_at: "0".to_string(),
    })
    .unwrap();
    let dup_slug = t.restore_entry(Entry {
        id: "id-9".to_string(),
        url: "https://example.com/b".to_string(),
        slug: "ex".to_string(),
        created_at: "0".to_string(),
    });
    assert!(matches!(dup_slug, Err(AppError::DuplicateSlug)));
    let dup_id = t.restore_entry(Entry {
        id: "id-1".to_string(),
        url: "https://example.com/b".to_string(),
        slug: "other".to_string(),
        created_at: "0".to_string(),
    });
    assert!(matches!(dup_id, Err(AppError::StorageFault(_))));
    assert_eq!(t.len(), 1);
}
