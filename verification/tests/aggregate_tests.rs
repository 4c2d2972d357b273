use drinks_catalog::models::CreateDrink;
use drinks_catalog::store::DrinkStore;

fn drink(brand: &str, caffeine: i32, sugar: i32, price_cents: u64) -> CreateDrink {
    CreateDrink {
        name: format!("{brand} drink"),
        brand: brand.to_string(),
        caffeine_content: caffeine,
        sugar_content: sugar,
        price_cents,
    }
}

#[test]
fn summary_of_empty_store_is_empty() {
    let s = DrinkStore::new();
    assert!(s.brand_summary().is_empty());
}

#[test]
fn summary_counts_and_averages_one_brand() {
    let mut s = DrinkStore::new();
    s.create(&drink("Acme", 10, 5, 100)).unwrap();
    s.create(&drink("Acme", 20, 10, 200)).unwrap();
    s.create(&drink("Acme", 30, 15, 300)).unwrap();
    let summary = s.brand_summary();
    assert_eq!(summary.len(), 1);
    let e = &summary[0];
    assert_eq!(e.brand, "Acme");
    assert_eq!(e.drink_count, 3);
    assert_eq!(e.caffeine_sum, 60);
    assert_eq!(e.sugar_sum, 30);
    assert_eq!(e.price_cents_sum, 600);
    let avg_caffeine = e.caffeine_sum as f64 / e.drink_count as f64;
    assert_eq!(avg_caffeine, 20.0);
}

#[test]
fn summary_orders_brands_ascending() {
    let mut s = DrinkStore::new();
    s.create(&drink("Zed", 80, 1, 10)).unwrap();
    s.create(&drink("Acme", 50, 2, 20)).unwrap();
    s.create(&drink("Mid", 60, 3, 30)).unwrap();
    s.create(&drink("Acme", 70, 4, 40)).unwrap();
    let brands: Vec<String> = s.brand_summary().iter().map(|e| e.brand.clone()).collect();
    assert_eq!(brands, vec!["Acme", "Mid", "Zed"]);
}

#[test]
fn summary_groups_each_brand_separately() {
    let mut s = DrinkStore::new();
    s.create(&drink("Acme", 50, 2, 20)).unwrap();
    s.create(&drink("Zed", 80, 1, 10)).unwrap();
    s.create(&drink("Acme", 70, 4, 40)).unwrap();
    let summary = s.brand_summary();
    assert_eq!(summary.len(), 2);
    assert_eq!(summary[0].brand, "Acme");
    assert_eq!(summary[0].drink_count, 2);
    assert_eq!(summary[0].caffeine_sum, 120);
    assert_eq!(summary[1].brand, "Zed");
    assert_eq!(summary[1].drink_count, 1);
    assert_eq!(summary[1].caffeine_sum, 80);
}

#[test]
fn summary_has_no_zero_count_rows() {
    let mut s = DrinkStore::new();
    let a = s.create(&drink("Acme", 10, 5, 100)).unwrap();
    s.create(&drink("Zed", 80, 1, 10)).unwrap();
    s.delete(a.id).unwrap();
    let summary = s.brand_summary();
    assert_eq!(summary.len(), 1);
    assert_eq!(summary[0].brand, "Zed");
    assert!(summary.iter().all(|e| e.drink_count > 0));
}

#[test]
fn summary_orders_prefix_brands_first() {
    let mut s = DrinkStore::new();
    s.create(&drink("AB", 1, 1, 1)).unwrap();
    s.create(&drink("A", 2, 2, 2)).unwrap();
    s.create(&drink("", 3, 3, 3)).unwrap();
    let brands: Vec<String> = s.brand_summary().iter().map(|e| e.brand.clone()).collect();
    assert_eq!(brands, vec!["", "A", "AB"]);
}

#[test]
fn summary_reflects_updates() {
    let mut s = DrinkStore::new();
    let a = s.create(&drink("Acme", 10, 5, 100)).unwrap();
    s.create(&drink("Acme", 20, 10, 200)).unwrap();
    let patch = drinks_catalog::models::UpdateDrink {
        name: None,
        brand: Some("Zed".to_string()),
        caffeine_content: None,
        sugar_content: None,
        price_cents: None,
    };
    s.update(a.id, &patch).unwrap();
    let summary = s.brand_summary();
    assert_eq!(summary.len(), 2);
    assert_eq!(summary[0].brand, "Acme");
    assert_eq!(summary[0].drink_count, 1);
    assert_eq!(summary[0].caffeine_sum, 20);
    assert_eq!(summary[1].brand, "Zed");
    assert_eq!(summary[1].drink_count, 1);
    assert_eq!(summary[1].caffeine_sum, 10);
}
