use multiera::{asset_from_pair, asset_query, AssetQuery, RegistryRecord};

fn record(id: i64, policy_id: &[u8], asset_name: &[u8]) -> RegistryRecord {
    RegistryRecord { id, policy_id: policy_id.to_vec(), asset_name: asset_name.to_vec() }
}

fn key(policy_id: &[u8], asset_name: &[u8]) -> (Vec<u8>, Vec<u8>) {
    (policy_id.to_vec(), asset_name.to_vec())
}

#[test]
fn known_pair_is_found_and_unknown_pair_is_not() {
    let registry = vec![record(1, b"A", b"B")];
    let pairs = vec![key(b"A", b"B"), key(b"C", b"D")];
    let found = asset_from_pair(&registry, &pairs);
    assert_eq!(found, vec![record(1, b"A", b"B")]);
    assert_eq!(found.len(), 1);
    assert_eq!(found[0].policy_id, b"A".to_vec());
    assert_eq!(found[0].asset_name, b"B".to_vec());
}

#[test]
fn empty_batch_finds_nothing() {
    let registry = vec![record(1, b"A", b"B"), record(2, b"C", b"D")];
    assert_eq!(asset_from_pair(&registry, &[]), Vec::new());
}

#[test]
fn empty_batch_asks_for_nothing() {
    assert_eq!(asset_query(&[]), AssetQuery::Nothing);
}

#[test]
fn batch_asks_for_each_pair_as_given() {
    let pairs = vec![key(b"A", b"B"), key(b"C", b"D"), key(b"A", b"B")];
    assert_eq!(asset_query(&pairs), AssetQuery::AnyOf(pairs.clone()));
    let single = vec![key(b"", b"")];
    assert_eq!(asset_query(&single), AssetQuery::AnyOf(single.clone()));
}

#[test]
fn empty_registry_gives_nothing() {
    let pairs = vec![key(b"A", b"B")];
    assert_eq!(asset_from_pair(&[], &pairs), Vec::new());
    assert_eq!(asset_from_pair(&[], &[]), Vec::new());
}

#[test]
fn every_matching_record_is_returned_in_registry_order() {
    let registry = vec![
        record(10, b"A", b"B"),
        record(11, b"A", b"C"),
        record(12, b"C", b"D"),
        record(13, b"E", b"F"),
    ];
    let pairs = vec![key(b"E", b"F"), key(b"A", b"B"), key(b"X", b"Y")];
    assert_eq!(
        asset_from_pair(&registry, &pairs),
        vec![record(10, b"A", b"B"), record(13, b"E", b"F")]
    );
}

#[test]
fn both_parts_of_the_key_must_match() {
    let registry = vec![record(1, b"A", b"B"), record(2, b"A", b"D"), record(3, b"C", b"B")];
    assert_eq!(asset_from_pair(&registry, &[key(b"A", b"B")]), vec![record(1, b"A", b"B")]);
    assert_eq!(asset_from_pair(&registry, &[key(b"C", b"D")]), Vec::new());
    assert_eq!(asset_from_pair(&registry, &[key(b"B", b"A")]), Vec::new());
}

#[test]
fn repeated_pair_selects_its_record_once() {
    let registry = vec![record(1, b"A", b"B"), record(2, b"C", b"D")];
    let pairs = vec![key(b"A", b"B"), key(b"A", b"B"), key(b"A", b"B")];
    assert_eq!(asset_from_pair(&registry, &pairs), vec![record(1, b"A", b"B")]);
}

#[test]
fn order_of_pairs_does_not_change_the_result() {
    let registry = vec![record(1, b"A", b"B"), record(2, b"C", b"D"), record(3, b"E", b"F")];
    let forward = vec![key(b"A", b"B"), key(b"E", b"F")];
    let backward = vec![key(b"E", b"F"), key(b"A", b"B")];
    assert_eq!(asset_from_pair(&registry, &forward), asset_from_pair(&registry, &backward));
    assert_eq!(asset_from_pair(&registry, &forward).len(), 2);
}

#[test]
fn result_is_no_longer_than_the_distinct_pairs() {
    let registry = vec![record(1, b"A", b"B"), record(2, b"C", b"D"), record(3, b"E", b"F")];
    let pairs = vec![key(b"A", b"B"), key(b"A", b"B"), key(b"C", b"D"), key(b"X", b"Y")];
    let found = asset_from_pair(&registry, &pairs);
    assert_eq!(found.len(), 2);
    assert!(found.len() <= 3);
}

#[test]
fn record_keeps_its_identity() {
    let registry = vec![record(i64::MAX, b"A", b"B"), record(-4, b"C", b"D")];
    let found = asset_from_pair(&registry, &[key(b"C", b"D"), key(b"A", b"B")]);
    assert_eq!(found[0].id, i64::MAX);
    assert_eq!(found[1].id, -4);
}

#[test]
fn empty_byte_strings_are_keys_like_any_other() {
    let registry = vec![record(1, b"", b""), record(2, b"A", b"")];
    assert_eq!(asset_from_pair(&registry, &[key(b"", b"")]), vec![record(1, b"", b"")]);
    assert_eq!(asset_from_pair(&registry, &[key(b"A", b"")]), vec![record(2, b"A", b"")]);
}

#[test]
fn query_admits_exactly_the_records_it_names() {
    let query = asset_query(&[key(b"A", b"B"), key(b"C", b"D")]);
    assert!(query.admits(&record(1, b"A", b"B")));
    assert!(query.admits(&record(2, b"C", b"D")));
    assert!(!query.admits(&record(3, b"A", b"D")));
    assert!(!query.admits(&record(4, b"C", b"B")));
    assert!(!AssetQuery::Nothing.admits(&record(1, b"A", b"B")));
}

#[test]
fn lookup_is_the_same_on_every_call() {
    let registry = vec![record(1, b"A", b"B"), record(2, b"C", b"D")];
    let pairs = vec![key(b"C", b"D")];
    let first = asset_from_pair(&registry, &pairs);
    let second = asset_from_pair(&registry, &pairs);
    assert_eq!(first, second);
    assert_eq!(first, vec![record(2, b"C", b"D")]);
}
