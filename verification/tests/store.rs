use airstrip_ops::pilot::Pilot;
use airstrip_ops::state::AppState;
use airstrip_ops::store::{EntityStore, StoreError};

fn pilot(id: u64, name: &str) -> Pilot {
    Pilot {
        id,
        name: name.to_string(),
        license_number: format!("L-{}", id),
        experience_years: id,
        contact: "radio".to_string(),
        email: format!("{}@example.org", name),
    }
}

#[test]
fn stored_record_reads_back() {
    let mut state = AppState::new();
    let ann = pilot(5, "ann");
    state.pilots.insert(5, &ann).unwrap();
    assert_eq!(state.pilots.get(5), Some(ann));
    assert!(state.pilots.contains(5));
}

#[test]
fn absent_identifier_is_not_found() {
    let mut state = AppState::new();
    assert_eq!(state.pilots.get(0), None);
    assert!(!state.pilots.contains(0));
    state.pilots.insert(1, &pilot(1, "ann")).unwrap();
    assert_eq!(state.pilots.get(0), None);
    assert!(!state.pilots.contains(2));
}

#[test]
fn insert_overwrites() {
    let mut state = AppState::new();
    state.pilots.insert(1, &pilot(1, "ann")).unwrap();
    let bob = pilot(1, "bob");
    state.pilots.insert(1, &bob).unwrap();
    assert_eq!(state.pilots.get(1), Some(bob.clone()));
    assert_eq!(state.pilots.scan(), vec![(1, bob)]);
}

#[test]
fn scan_is_by_ascending_identifier() {
    let mut state = AppState::new();
    for id in [30u64, 2, 500, 17, 0, u64::MAX, 256] {
        state.pilots.insert(id, &pilot(id, "p")).unwrap();
    }
    let ids: Vec<u64> = state.pilots.scan().into_iter().map(|(id, _)| id).collect();
    assert_eq!(ids, vec![0, 2, 17, 30, 256, 500, u64::MAX]);
}

#[test]
fn scan_of_many_records_is_complete() {
    let mut state = AppState::new();
    for id in (0..300u64).rev() {
        state.pilots.insert(id, &pilot(id, "p")).unwrap();
    }
    let found = state.pilots.scan();
    assert_eq!(found.len(), 300);
    for (at, (id, record)) in found.iter().enumerate() {
        assert_eq!(*id, at as u64);
        assert_eq!(record.experience_years, at as u64);
    }
}

#[test]
fn scan_of_empty_store_is_empty() {
    let state = AppState::new();
    assert!(state.flights.scan().is_empty());
}

#[test]
fn stores_are_independent() {
    let mut state = AppState::new();
    state.pilots.insert(1, &pilot(1, "ann")).unwrap();
    assert!(!state.airstrips.contains(1));
    assert!(!state.flights.contains(1));
    assert!(state.revenues.scan().is_empty());
}

#[test]
fn update_rewrites_the_record() {
    let mut state = AppState::new();
    state.pilots.insert(1, &pilot(1, "ann")).unwrap();
    state.pilots.insert(2, &pilot(2, "bob")).unwrap();
    let outcome = state.pilots.update(1, |mut p| {
        p.experience_years += 10;
        p
    });
    assert_eq!(outcome, Ok(()));
    assert_eq!(state.pilots.get(1).unwrap().experience_years, 11);
    assert_eq!(state.pilots.get(2), Some(pilot(2, "bob")));
}

#[test]
fn update_of_absent_record_fails() {
    let mut state = AppState::new();
    let outcome = state.pilots.update(1, |p| p);
    assert_eq!(outcome, Err(StoreError::NotFound));
    assert!(state.pilots.scan().is_empty());
}

#[test]
fn separate_states_do_not_share_records() {
    let mut first = AppState::new();
    let second = AppState::new();
    first.pilots.insert(1, &pilot(1, "ann")).unwrap();
    assert!(!second.pilots.contains(1));
}

#[test]
fn resumed_state_on_fresh_memory_is_usable() {
    let mut state = AppState::init();
    state.pilots.insert(1, &pilot(1, "ann")).unwrap();
    assert_eq!(state.pilots.get(1), Some(pilot(1, "ann")));
}

#[test]
fn small_records_are_accepted() {
    assert!(EntityStore::<Pilot>::accepts(&pilot(1, "ann")));
}
