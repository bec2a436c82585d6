use airstrip_ops::analysis::{group_by_source, RevenueGroup};
use airstrip_ops::message::Message;
use airstrip_ops::revenue::Revenue;
use airstrip_ops::state::AppState;

fn sum(group: &RevenueGroup) -> f64 {
    let mut total = 0.0;
    for bits in &group.amount_bits {
        total += f64::from_bits(*bits);
    }
    total
}

fn totals(groups: &[RevenueGroup]) -> Vec<(String, f64)> {
    groups.iter().map(|g| (g.source.clone(), sum(g))).collect()
}

#[test]
fn revenue_is_summed_by_category_and_in_total() {
    let mut state = AppState::new();
    let a = 3;
    state.record_revenue(a, "fuel_sales".to_string(), 100.0f64.to_bits(), "jet".to_string(), 10).unwrap();
    state.record_revenue(a, "fuel_sales".to_string(), 50.0f64.to_bits(), "avgas".to_string(), 15).unwrap();
    state.record_revenue(a, "parking".to_string(), 20.0f64.to_bits(), "apron".to_string(), 20).unwrap();
    let groups = state.get_revenue_analysis(a, 10, 20).unwrap();
    assert_eq!(
        totals(&groups),
        vec![
            ("fuel_sales".to_string(), 150.0),
            ("parking".to_string(), 20.0),
            ("total".to_string(), 170.0),
        ]
    );
}

#[test]
fn recorded_revenue_is_on_record() {
    let mut state = AppState::new();
    let r = state.record_revenue(3, "parking".to_string(), 2.5f64.to_bits(), "apron".to_string(), 44).unwrap();
    assert_eq!(r.id, 0);
    assert_eq!(r.airstrip_id, 3);
    assert_eq!(r.source, "parking");
    assert_eq!(f64::from_bits(r.amount_bits), 2.5);
    assert_eq!(r.transaction_date, 44);
    assert_eq!(r.description, "apron");
    assert_eq!(state.revenues.get(0), Some(r));
}

#[test]
fn revenue_needs_source_and_description() {
    let mut state = AppState::new();
    assert_eq!(
        state.record_revenue(3, " ".to_string(), 0, "d".to_string(), 0),
        Err(Message::InvalidPayload("Revenue source cannot be empty".to_string()))
    );
    assert_eq!(
        state.record_revenue(3, "s".to_string(), 0, "".to_string(), 0),
        Err(Message::InvalidPayload("Revenue description cannot be empty".to_string()))
    );
    assert!(state.revenues.scan().is_empty());
}

#[test]
fn window_includes_both_ends_and_one_airstrip() {
    let mut state = AppState::new();
    for (airstrip, source, amount, when) in [
        (1u64, "a", 1.0f64, 9u64),
        (1, "a", 2.0, 10),
        (2, "a", 4.0, 15),
        (1, "b", 8.0, 20),
        (1, "a", 16.0, 21),
        (1, "a", 32.0, 20),
    ] {
        state.record_revenue(airstrip, source.to_string(), amount.to_bits(), "d".to_string(), when).unwrap();
    }
    let groups = state.get_revenue_analysis(1, 10, 20).unwrap();
    assert_eq!(
        totals(&groups),
        vec![("a".to_string(), 34.0), ("b".to_string(), 8.0), ("total".to_string(), 42.0)]
    );
    assert_eq!(
        groups[2].amount_bits,
        vec![2.0f64.to_bits(), 8.0f64.to_bits(), 32.0f64.to_bits()]
    );
}

#[test]
fn analysis_without_revenue_is_a_zero_total() {
    let state = AppState::new();
    let groups = state.get_revenue_analysis(1, 0, u64::MAX).unwrap();
    assert_eq!(groups, vec![RevenueGroup { source: "total".to_string(), amount_bits: vec![] }]);
    assert_eq!(totals(&groups), vec![("total".to_string(), 0.0)]);
}

#[test]
fn empty_window_matches_nothing() {
    let mut state = AppState::new();
    state.record_revenue(1, "a".to_string(), 1.0f64.to_bits(), "d".to_string(), 10).unwrap();
    let groups = state.get_revenue_analysis(1, 11, 9).unwrap();
    assert_eq!(totals(&groups), vec![("total".to_string(), 0.0)]);
}

fn payment(id: u64, source: &str, amount: f64) -> Revenue {
    Revenue {
        id,
        airstrip_id: 0,
        source: source.to_string(),
        amount_bits: amount.to_bits(),
        transaction_date: id,
        description: "d".to_string(),
    }
}

#[test]
fn categories_keep_the_order_of_first_occurrence() {
    let payments = vec![
        payment(0, "parking", 1.0),
        payment(1, "fuel", 2.0),
        payment(2, "parking", 4.0),
        payment(3, "landing", 8.0),
        payment(4, "fuel", 16.0),
    ];
    let groups = group_by_source(&payments);
    assert_eq!(
        totals(&groups),
        vec![
            ("parking".to_string(), 5.0),
            ("fuel".to_string(), 18.0),
            ("landing".to_string(), 8.0),
            ("total".to_string(), 31.0),
        ]
    );
    assert_eq!(groups[0].amount_bits, vec![1.0f64.to_bits(), 4.0f64.to_bits()]);
}

#[test]
fn category_named_total_holds_the_grand_total() {
    let payments = vec![payment(0, "total", 1.0), payment(1, "fuel", 2.0)];
    let groups = group_by_source(&payments);
    assert_eq!(totals(&groups), vec![("total".to_string(), 3.0), ("fuel".to_string(), 2.0)]);
}
