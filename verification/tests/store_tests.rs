use reputation::record::{Identity, Reputation};
use reputation::store::ReputationStore;

#[test]
fn test_get_absent_identity_is_none() {
    let store = ReputationStore::new();
    assert_eq!(store.get(Identity { id: 5 }), None);
    assert_eq!(store.get_counter(), 0);
    assert_eq!(store.get_liveness(), 0);
}

#[test]
fn test_put_then_get_roundtrip() {
    let mut store = ReputationStore::new();
    let id = Identity { id: 5 };
    let other = Identity { id: 6 };
    let rec =
        Reputation { total_score: 7, positive_count: 2, negative_count: 1, total_count: 3 };

    store.put(id, rec);
    assert_eq!(store.get(id), Some(rec));
    assert_eq!(store.get(other), None);

    let newer =
        Reputation { total_score: 5, positive_count: 2, negative_count: 2, total_count: 4 };
    store.put(id, newer);
    assert_eq!(store.get(id), Some(newer));
}

#[test]
fn test_counter_roundtrip() {
    let mut store = ReputationStore::new();
    store.put_counter(41);
    assert_eq!(store.get_counter(), 41);
    store.put_counter(42);
    assert_eq!(store.get_counter(), 42);
}

#[test]
fn test_extend_liveness_refreshes_only_below_threshold() {
    let mut store = ReputationStore::new();

    store.extend_liveness(100, 1000);
    assert_eq!(store.get_liveness(), 1000);

    // Already at 1000, which is not below the threshold: left alone.
    store.extend_liveness(100, 2000);
    assert_eq!(store.get_liveness(), 1000);

    // Below this higher threshold: refreshed to the new target.
    store.extend_liveness(1500, 3000);
    assert_eq!(store.get_liveness(), 3000);
}
