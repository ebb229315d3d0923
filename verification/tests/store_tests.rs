use reverbq::errors::StoreError;
use reverbq::store::ResultStore;

#[test]
fn get_before_create_is_not_found() {
    let store = ResultStore::new();
    assert_eq!(store.get("abc123"), Err(StoreError::NotFound));
}

#[test]
fn get_after_create_is_pending() {
    let mut store = ResultStore::new();
    store.create("abc123");
    assert_eq!(store.get("abc123"), Ok(None));
}

#[test]
fn get_after_set_result_returns_exactly_those_bytes() {
    let mut store = ResultStore::new();
    store.create("abc123");
    assert_eq!(store.set_result("abc123", vec![1, 2, 3, 255]), Ok(()));
    assert_eq!(store.get("abc123"), Ok(Some(vec![1, 2, 3, 255])));
}

#[test]
fn empty_result_bytes_round_trip() {
    // "done but empty" is stored and served as a completed job with an
    // empty body, not as still-pending.
    let mut store = ResultStore::new();
    store.create("abc123");
    assert_eq!(store.set_result("abc123", Vec::new()), Ok(()));
    assert_eq!(store.get("abc123"), Ok(Some(Vec::new())));
}

#[test]
fn set_result_without_create_is_not_found_and_changes_nothing() {
    let mut store = ResultStore::new();
    store.create("other0");
    assert_eq!(
        store.set_result("abc123", vec![9]),
        Err(StoreError::NotFound)
    );
    assert_eq!(store.get("abc123"), Err(StoreError::NotFound));
    assert_eq!(store.get("other0"), Ok(None));
}

#[test]
fn creating_a_route_again_resets_it_to_pending() {
    let mut store = ResultStore::new();
    store.create("abc123");
    assert_eq!(store.set_result("abc123", vec![7]), Ok(()));
    store.create("abc123");
    assert_eq!(store.get("abc123"), Ok(None));
}

#[test]
fn routes_do_not_disturb_each_other() {
    let mut store = ResultStore::new();
    store.create("first1");
    store.create("second");
    assert_eq!(store.set_result("first1", vec![1]), Ok(()));
    assert_eq!(store.set_result("second", vec![2]), Ok(()));
    assert_eq!(store.get("first1"), Ok(Some(vec![1])));
    assert_eq!(store.get("second"), Ok(Some(vec![2])));
    assert_eq!(store.get("third3"), Err(StoreError::NotFound));
}
