use drinks_catalog::models::{CreateDrink, DrinkError, UpdateDrink};
use drinks_catalog::store::DrinkStore;

fn cola() -> CreateDrink {
    CreateDrink {
        name: "Cola".to_string(),
        brand: "Acme".to_string(),
        caffeine_content: 34,
        sugar_content: 39000,
        price_cents: 199,
    }
}

fn no_change() -> UpdateDrink {
    UpdateDrink {
        name: None,
        brand: None,
        caffeine_content: None,
        sugar_content: None,
        price_cents: None,
    }
}

#[test]
fn round_trip_create_get() {
    let mut s = DrinkStore::new();
    let created = s.create(&cola()).unwrap();
    let fetched = s.get(created.id).unwrap();
    assert_eq!(fetched.id, created.id);
    assert_eq!(fetched.name, "Cola");
    assert_eq!(fetched.brand, "Acme");
    assert_eq!(fetched.caffeine_content, 34);
    assert_eq!(fetched.sugar_content, 39000);
    assert_eq!(fetched.price_cents, 199);
    assert_eq!(fetched.created_at, created.created_at);
}

#[test]
fn create_assigns_unique_ids_and_increasing_stamps() {
    let mut s = DrinkStore::new();
    let a = s.create(&cola()).unwrap();
    let b = s.create(&cola()).unwrap();
    assert_ne!(a.id, b.id);
    assert!(a.created_at < b.created_at);
}

#[test]
fn get_missing_is_not_found() {
    let s = DrinkStore::new();
    assert_eq!(s.get(42).unwrap_err(), DrinkError::NotFound);
}

#[test]
fn update_with_no_fields_is_a_noop() {
    let mut s = DrinkStore::new();
    let created = s.create(&cola()).unwrap();
    let updated = s.update(created.id, &no_change()).unwrap();
    assert_eq!(updated.id, created.id);
    assert_eq!(updated.name, created.name);
    assert_eq!(updated.brand, created.brand);
    assert_eq!(updated.caffeine_content, created.caffeine_content);
    assert_eq!(updated.sugar_content, created.sugar_content);
    assert_eq!(updated.price_cents, created.price_cents);
    assert_eq!(updated.created_at, created.created_at);
}

#[test]
fn partial_update_changes_only_price() {
    let mut s = DrinkStore::new();
    let created = s.create(&cola()).unwrap();
    let patch = UpdateDrink { price_cents: Some(999), ..no_change() };
    let updated = s.update(created.id, &patch).unwrap();
    assert_eq!(updated.price_cents, 999);
    assert_eq!(updated.id, created.id);
    assert_eq!(updated.name, created.name);
    assert_eq!(updated.brand, created.brand);
    assert_eq!(updated.caffeine_content, created.caffeine_content);
    assert_eq!(updated.sugar_content, created.sugar_content);
    assert_eq!(updated.created_at, created.created_at);
    let fetched = s.get(created.id).unwrap();
    assert_eq!(fetched.price_cents, 999);
}

#[test]
fn partial_update_merges_each_present_field() {
    let mut s = DrinkStore::new();
    let created = s.create(&cola()).unwrap();
    let patch = UpdateDrink {
        name: Some("Zero".to_string()),
        brand: None,
        caffeine_content: Some(40),
        sugar_content: None,
        price_cents: None,
    };
    let updated = s.update(created.id, &patch).unwrap();
    assert_eq!(updated.name, "Zero");
    assert_eq!(updated.brand, "Acme");
    assert_eq!(updated.caffeine_content, 40);
    assert_eq!(updated.sugar_content, 39000);
    assert_eq!(updated.price_cents, 199);
}

#[test]
fn update_missing_is_not_found() {
    let mut s = DrinkStore::new();
    assert_eq!(s.update(7, &no_change()).unwrap_err(), DrinkError::NotFound);
}

#[test]
fn delete_then_get_is_not_found_and_second_delete_fails() {
    let mut s = DrinkStore::new();
    let created = s.create(&cola()).unwrap();
    assert!(s.delete(created.id).is_ok());
    assert_eq!(s.get(created.id).unwrap_err(), DrinkError::NotFound);
    assert_eq!(s.delete(created.id).unwrap_err(), DrinkError::NotFound);
}

#[test]
fn delete_keeps_other_rows() {
    let mut s = DrinkStore::new();
    let a = s.create(&cola()).unwrap();
    let b = s.create(&cola()).unwrap();
    s.delete(a.id).unwrap();
    assert!(s.get(b.id).is_ok());
    assert_eq!(s.list().len(), 1);
}

#[test]
fn list_of_empty_store_is_empty() {
    let s = DrinkStore::new();
    assert!(s.list().is_empty());
}

#[test]
fn list_returns_most_recent_first() {
    let mut s = DrinkStore::new();
    let a = s.create(&cola()).unwrap();
    let b = s.create(&cola()).unwrap();
    let c = s.create(&cola()).unwrap();
    let ids: Vec<u128> = s.list().iter().map(|d| d.id).collect();
    assert_eq!(ids, vec![c.id, b.id, a.id]);
}
