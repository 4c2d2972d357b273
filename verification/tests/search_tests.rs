use drinks_catalog::models::CreateDrink;
use drinks_catalog::predicate::{build_predicate, render_search_sql, BindValue, Clause, DrinkSearchParams};
use drinks_catalog::store::DrinkStore;

fn drink(name: &str, brand: &str, caffeine: i32, sugar: i32, price_cents: u64) -> CreateDrink {
    CreateDrink {
        name: name.to_string(),
        brand: brand.to_string(),
        caffeine_content: caffeine,
        sugar_content: sugar,
        price_cents,
    }
}

fn no_filter() -> DrinkSearchParams {
    DrinkSearchParams {
        brand: None,
        min_caffeine: None,
        max_caffeine: None,
        min_sugar: None,
        max_sugar: None,
        min_price_cents: None,
        max_price_cents: None,
    }
}

#[test]
fn empty_filter_search_equals_list() {
    let mut s = DrinkStore::new();
    s.create(&drink("A", "Acme", 50, 10, 100)).unwrap();
    s.create(&drink("B", "Acme", 120, 20, 200)).unwrap();
    s.create(&drink("C", "Zed", 80, 30, 300)).unwrap();
    let listed: Vec<u128> = s.list().iter().map(|d| d.id).collect();
    let found: Vec<u128> = s.search(&no_filter()).iter().map(|d| d.id).collect();
    assert_eq!(listed, found);
}

#[test]
fn filter_conjunction_selects_exactly_the_matching_row() {
    let mut s = DrinkStore::new();
    s.create(&drink("A", "Acme", 50, 10, 100)).unwrap();
    let b = s.create(&drink("B", "Acme", 120, 20, 200)).unwrap();
    s.create(&drink("C", "Zed", 80, 30, 300)).unwrap();
    let params = DrinkSearchParams {
        brand: Some("Acme".to_string()),
        min_caffeine: Some(100),
        ..no_filter()
    };
    let found = s.search(&params);
    assert_eq!(found.len(), 1);
    assert_eq!(found[0].id, b.id);
}

#[test]
fn range_bounds_are_inclusive() {
    let mut s = DrinkStore::new();
    let a = s.create(&drink("A", "Acme", 50, 10, 100)).unwrap();
    let params = DrinkSearchParams {
        min_caffeine: Some(50),
        max_caffeine: Some(50),
        min_sugar: Some(10),
        max_sugar: Some(10),
        min_price_cents: Some(100),
        max_price_cents: Some(100),
        ..no_filter()
    };
    let found = s.search(&params);
    assert_eq!(found.len(), 1);
    assert_eq!(found[0].id, a.id);
}

#[test]
fn sugar_and_price_bounds_exclude_rows_outside_the_range() {
    let mut s = DrinkStore::new();
    s.create(&drink("A", "Acme", 50, 10, 100)).unwrap();
    let b = s.create(&drink("B", "Acme", 50, 25, 250)).unwrap();
    s.create(&drink("C", "Acme", 50, 40, 400)).unwrap();
    let params = DrinkSearchParams {
        min_sugar: Some(20),
        max_sugar: Some(30),
        min_price_cents: Some(200),
        max_price_cents: Some(300),
        ..no_filter()
    };
    let found = s.search(&params);
    assert_eq!(found.len(), 1);
    assert_eq!(found[0].id, b.id);
}

#[test]
fn empty_filter_renders_unrestricted_sql_with_no_values() {
    let (clauses, values) = build_predicate(&no_filter());
    assert!(clauses.is_empty());
    assert!(values.is_empty());
    let sql = render_search_sql(&clauses);
    assert_eq!(sql, "SELECT * FROM drinks");
}

#[test]
fn full_filter_renders_all_clauses_in_fixed_order() {
    let params = DrinkSearchParams {
        brand: Some("Acme".to_string()),
        min_caffeine: Some(1),
        max_caffeine: Some(2),
        min_sugar: Some(3),
        max_sugar: Some(4),
        min_price_cents: Some(5),
        max_price_cents: Some(6),
    };
    let (clauses, values) = build_predicate(&params);
    assert_eq!(
        clauses,
        vec![
            Clause::BrandEq,
            Clause::CaffeineMin,
            Clause::CaffeineMax,
            Clause::SugarMin,
            Clause::SugarMax,
            Clause::PriceMin,
            Clause::PriceMax,
        ]
    );
    assert_eq!(values.len(), 7);
    let sql = render_search_sql(&clauses);
    assert_eq!(
        sql,
        "SELECT * FROM drinks WHERE brand = $1 AND caffeine_content >= $2 \
         AND caffeine_content <= $3 AND sugar_content >= $4 AND sugar_content <= $5 \
         AND price >= $6 AND price <= $7"
    );
}

#[test]
fn absent_fields_consume_no_position() {
    let params = DrinkSearchParams {
        max_caffeine: Some(90),
        min_price_cents: Some(150),
        ..no_filter()
    };
    let (clauses, values) = build_predicate(&params);
    assert_eq!(clauses, vec![Clause::CaffeineMax, Clause::PriceMin]);
    let sql = render_search_sql(&clauses);
    assert_eq!(
        sql,
        "SELECT * FROM drinks WHERE caffeine_content <= $1 AND price >= $2"
    );
    assert!(matches!(values[0], BindValue::Int(90)));
    assert!(matches!(values[1], BindValue::Cents(150)));
}

#[test]
fn injection_value_stays_a_bound_literal() {
    let hostile = "a' OR 1=1";
    let params = DrinkSearchParams {
        brand: Some(hostile.to_string()),
        ..no_filter()
    };
    let (clauses, values) = build_predicate(&params);
    let sql = render_search_sql(&clauses);
    // The hostile text never reaches the statement: the clause list and
    // the rendered text are exactly those of any one-brand filter.
    assert_eq!(sql, "SELECT * FROM drinks WHERE brand = $1");
    assert_eq!(clauses, vec![Clause::BrandEq]);
    match &values[0] {
        BindValue::Text(t) => assert_eq!(t, hostile),
        _ => panic!("brand must bind as text"),
    }
}

#[test]
fn injection_value_filters_by_literal_equality() {
    let hostile = "a' OR 1=1";
    let mut s = DrinkStore::new();
    s.create(&drink("A", "Acme", 50, 10, 100)).unwrap();
    let weird = s.create(&drink("B", hostile, 120, 20, 200)).unwrap();
    let params = DrinkSearchParams {
        brand: Some(hostile.to_string()),
        ..no_filter()
    };
    let found = s.search(&params);
    // Treated as a literal brand value: it selects only the row whose
    // brand is exactly that text, never every row.
    assert_eq!(found.len(), 1);
    assert_eq!(found[0].id, weird.id);
}
