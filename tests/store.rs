use knowledge_store::{contains_pattern, Config, Error, Event, KeyPolicy, Pallet, Record, StorageKey};

const A: u64 = 1;
const B: u64 = 2;

fn store(min: u32, max: u32, policy: KeyPolicy) -> Pallet {
    Pallet::new(Config { min_length: min, max_length: max, policy })
}

fn listed(p: &Pallet, caller: u64) -> Vec<Vec<u8>> {
    match p.get_all_conhecimento(Some(caller)) {
        Ok(Event::ListConhecimentos { conhecimentos }) => conhecimentos,
        other => panic!("unexpected listing outcome: {:?}", other),
    }
}

fn found(p: &Pallet, caller: u64, pattern: &[u8], category: i32) -> Vec<Vec<u8>> {
    match p.search(Some(caller), pattern.to_vec(), category) {
        Ok(Event::SearchConhecimentos { dono, conhecimentos }) => {
            assert_eq!(dono, caller);
            conhecimentos
        }
        other => panic!("unexpected search outcome: {:?}", other),
    }
}

fn sorted(mut v: Vec<Vec<u8>>) -> Vec<Vec<u8>> {
    v.sort();
    v
}

#[test]
fn too_short_payload_is_rejected_and_table_unchanged() {
    let mut p = store(2, 10, KeyPolicy::ContentKeyed);
    assert!(p.new_conhecimento(Some(A), b"ok".to_vec(), 1, 1).is_ok());
    let r = p.new_conhecimento(Some(A), b"x".to_vec(), 1, 2);
    assert_eq!(r.unwrap_err(), Error::TooShort);
    let r = p.new_conhecimento(Some(A), Vec::new(), 1, 3);
    assert_eq!(r.unwrap_err(), Error::TooShort);
    assert_eq!(listed(&p, A), vec![b"ok".to_vec()]);
}

#[test]
fn too_long_payload_is_rejected_not_truncated() {
    let mut p = store(2, 10, KeyPolicy::OwnerKeyed);
    let r = p.new_conhecimento(Some(A), b"abcdefghijk".to_vec(), 1, 1);
    assert_eq!(r.unwrap_err(), Error::TooLong);
    assert!(listed(&p, A).is_empty());
}

#[test]
fn too_long_is_checked_before_too_short() {
    let mut p = store(5, 3, KeyPolicy::OwnerKeyed);
    assert_eq!(p.new_conhecimento(Some(A), b"abcd".to_vec(), 1, 1).unwrap_err(), Error::TooLong);
    assert_eq!(p.new_conhecimento(Some(A), b"ab".to_vec(), 1, 1).unwrap_err(), Error::TooShort);
}

#[test]
fn payloads_at_both_bounds_are_accepted_and_listed() {
    let mut p = store(2, 10, KeyPolicy::ContentKeyed);
    match p.new_conhecimento(Some(A), b"hi".to_vec(), 4, 1) {
        Ok(Event::AddConhecimentos { conhecimento }) => assert_eq!(conhecimento, b"hi".to_vec()),
        other => panic!("unexpected insert outcome: {:?}", other),
    }
    assert!(p.new_conhecimento(Some(B), b"0123456789".to_vec(), 4, 2).is_ok());
    assert_eq!(listed(&p, A), vec![b"hi".to_vec(), b"0123456789".to_vec()]);
}

#[test]
fn owner_keyed_second_insert_replaces_the_first() {
    let mut p = store(2, 10, KeyPolicy::OwnerKeyed);
    assert!(p.new_conhecimento(Some(A), b"first".to_vec(), 1, 1).is_ok());
    assert!(p.new_conhecimento(Some(B), b"other".to_vec(), 1, 1).is_ok());
    assert!(p.new_conhecimento(Some(A), b"second".to_vec(), 2, 5).is_ok());
    assert_eq!(sorted(listed(&p, A)), vec![b"other".to_vec(), b"second".to_vec()]);
    assert_eq!(found(&p, A, b"", 2), vec![b"second".to_vec()]);
    assert!(found(&p, A, b"", 1).is_empty());
}

#[test]
fn content_keyed_inserts_in_one_block_share_a_key() {
    let mut p = store(2, 10, KeyPolicy::ContentKeyed);
    assert!(p.new_conhecimento(Some(A), b"first".to_vec(), 1, 7).is_ok());
    assert!(p.new_conhecimento(Some(B), b"second".to_vec(), 1, 7).is_ok());
    assert_eq!(listed(&p, A), vec![b"second".to_vec()]);
    assert!(p.new_conhecimento(Some(A), b"third".to_vec(), 1, 8).is_ok());
    assert_eq!(listed(&p, A), vec![b"second".to_vec(), b"third".to_vec()]);
}

#[test]
fn content_keys_are_digests_of_the_block_number() {
    let p = store(2, 10, KeyPolicy::ContentKeyed);
    let k1 = match p.derive_key(A, 1) {
        StorageKey::Hashed(d) => d,
        other => panic!("unexpected key: {:?}", other),
    };
    let k1_again = match p.derive_key(B, 1) {
        StorageKey::Hashed(d) => d,
        other => panic!("unexpected key: {:?}", other),
    };
    let k2 = match p.derive_key(A, 2) {
        StorageKey::Hashed(d) => d,
        other => panic!("unexpected key: {:?}", other),
    };
    assert_eq!(k1.len(), 32);
    assert_eq!(k1, k1_again);
    assert_ne!(k1, k2);
    assert_ne!(k1, b"1".to_vec());
}

#[test]
fn owner_keys_are_the_owner() {
    let p = store(2, 10, KeyPolicy::OwnerKeyed);
    match p.derive_key(B, 9) {
        StorageKey::Owner(o) => assert_eq!(o, B),
        other => panic!("unexpected key: {:?}", other),
    }
}

#[test]
fn search_reports_the_callers_matching_payloads_in_the_category() {
    let mut p = store(1, 20, KeyPolicy::ContentKeyed);
    assert!(p.new_conhecimento(Some(A), b"rust verus".to_vec(), 1, 1).is_ok());
    assert!(p.new_conhecimento(Some(A), b"verified".to_vec(), 1, 2).is_ok());
    assert!(p.new_conhecimento(Some(A), b"verus".to_vec(), 2, 3).is_ok());
    assert!(p.new_conhecimento(Some(B), b"verus too".to_vec(), 1, 4).is_ok());
    assert!(p.new_conhecimento(Some(A), b"plain".to_vec(), 1, 5).is_ok());
    assert_eq!(
        sorted(found(&p, A, b"ver", 1)),
        vec![b"rust verus".to_vec(), b"verified".to_vec()]
    );
    assert_eq!(found(&p, A, b"verus", 1), vec![b"rust verus".to_vec()]);
    assert_eq!(found(&p, B, b"verus", 1), vec![b"verus too".to_vec()]);
    assert_eq!(found(&p, A, b"verus", 2), vec![b"verus".to_vec()]);
}

#[test]
fn search_without_match_is_empty_not_an_error() {
    let mut p = store(1, 20, KeyPolicy::ContentKeyed);
    assert!(p.new_conhecimento(Some(A), b"abc".to_vec(), 1, 1).is_ok());
    assert!(found(&p, A, b"abcd", 1).is_empty());
    assert!(found(&p, A, b"x", 1).is_empty());
    assert!(found(&p, B, b"abc", 1).is_empty());
    assert!(found(&p, A, b"abc", 3).is_empty());
    let empty = store(1, 20, KeyPolicy::OwnerKeyed);
    assert!(found(&empty, A, b"abc", 1).is_empty());
}

#[test]
fn empty_pattern_returns_all_of_the_callers_records_in_the_category() {
    let mut p = store(1, 20, KeyPolicy::ContentKeyed);
    assert!(p.new_conhecimento(Some(A), b"one".to_vec(), 3, 1).is_ok());
    assert!(p.new_conhecimento(Some(A), b"two".to_vec(), 3, 2).is_ok());
    assert!(p.new_conhecimento(Some(A), b"three".to_vec(), 4, 3).is_ok());
    assert!(p.new_conhecimento(Some(B), b"four".to_vec(), 3, 4).is_ok());
    assert_eq!(sorted(found(&p, A, b"", 3)), vec![b"one".to_vec(), b"two".to_vec()]);
}

#[test]
fn scenario_content_keyed_keeps_both_payloads() {
    let mut p = store(2, 10, KeyPolicy::ContentKeyed);
    assert!(p.new_conhecimento(Some(A), b"hello".to_vec(), 1, 1).is_ok());
    assert!(p.new_conhecimento(Some(A), b"hi".to_vec(), 1, 2).is_ok());
    assert_eq!(found(&p, A, b"he", 1), vec![b"hello".to_vec()]);
    assert_eq!(sorted(listed(&p, A)), vec![b"hello".to_vec(), b"hi".to_vec()]);
}

#[test]
fn scenario_owner_keyed_overwrites() {
    let mut p = store(2, 10, KeyPolicy::OwnerKeyed);
    assert!(p.new_conhecimento(Some(A), b"hello".to_vec(), 1, 1).is_ok());
    assert!(p.new_conhecimento(Some(A), b"hi".to_vec(), 1, 2).is_ok());
    assert!(found(&p, A, b"he", 1).is_empty());
    assert_eq!(listed(&p, A), vec![b"hi".to_vec()]);
}

#[test]
fn list_all_on_an_empty_store_is_empty() {
    let p = store(2, 10, KeyPolicy::ContentKeyed);
    assert!(listed(&p, A).is_empty());
}

#[test]
fn list_all_is_not_scoped_to_the_caller() {
    let mut p = store(2, 10, KeyPolicy::OwnerKeyed);
    assert!(p.new_conhecimento(Some(A), b"mine".to_vec(), 1, 1).is_ok());
    assert!(p.new_conhecimento(Some(B), b"theirs".to_vec(), 2, 1).is_ok());
    assert_eq!(sorted(listed(&p, A)), vec![b"mine".to_vec(), b"theirs".to_vec()]);
    assert_eq!(sorted(listed(&p, 99)), vec![b"mine".to_vec(), b"theirs".to_vec()]);
}

#[test]
fn calls_without_identity_are_refused() {
    let mut p = store(2, 10, KeyPolicy::OwnerKeyed);
    assert_eq!(p.new_conhecimento(None, b"hello".to_vec(), 1, 1).unwrap_err(), Error::Unauthenticated);
    assert!(listed(&p, A).is_empty());
    assert_eq!(p.search(None, b"h".to_vec(), 1).unwrap_err(), Error::Unauthenticated);
    assert_eq!(p.get_all_conhecimento(None).unwrap_err(), Error::Unauthenticated);
}

#[test]
fn substring_test_is_byte_exact() {
    assert!(contains_pattern(&b"hello".to_vec(), &b"ell".to_vec()));
    assert!(contains_pattern(&b"hello".to_vec(), &b"hello".to_vec()));
    assert!(contains_pattern(&b"hello".to_vec(), &Vec::new()));
    assert!(contains_pattern(&Vec::new(), &Vec::new()));
    assert!(!contains_pattern(&b"hello".to_vec(), &b"helloo".to_vec()));
    assert!(!contains_pattern(&b"hello".to_vec(), &b"Hell".to_vec()));
    assert!(!contains_pattern(&b"hello".to_vec(), &b"hlo".to_vec()));
    assert!(contains_pattern(&b"hello".to_vec(), &b"lo".to_vec()));
}

#[test]
fn restore_accepts_a_valid_table_and_keeps_its_order() {
    let rows = vec![
        (StorageKey::Owner(B), Record { payload: b"bee".to_vec(), category: 1, owner: B }),
        (StorageKey::Owner(A), Record { payload: b"ay".to_vec(), category: 2, owner: A }),
    ];
    let cfg = Config { min_length: 2, max_length: 10, policy: KeyPolicy::OwnerKeyed };
    let p = Pallet::restore(cfg, rows).expect("valid table");
    assert_eq!(listed(&p, A), vec![b"bee".to_vec(), b"ay".to_vec()]);
    let back = p.into_rows();
    assert_eq!(back.len(), 2);
    assert_eq!(back[1].1.payload, b"ay".to_vec());
}

#[test]
fn restore_refuses_an_invalid_table() {
    let cfg = Config { min_length: 2, max_length: 10, policy: KeyPolicy::OwnerKeyed };
    let twice = vec![
        (StorageKey::Owner(A), Record { payload: b"one".to_vec(), category: 1, owner: A }),
        (StorageKey::Owner(A), Record { payload: b"two".to_vec(), category: 1, owner: A }),
    ];
    assert!(Pallet::restore(cfg, twice).is_none());
    let short = vec![(StorageKey::Owner(A), Record { payload: b"x".to_vec(), category: 1, owner: A })];
    assert!(Pallet::restore(cfg, short).is_none());
    let foreign = vec![(StorageKey::Owner(B), Record { payload: b"xy".to_vec(), category: 1, owner: A })];
    assert!(Pallet::restore(cfg, foreign).is_none());
    let hashed = vec![(StorageKey::Hashed(vec![0u8; 32]), Record { payload: b"xy".to_vec(), category: 1, owner: A })];
    assert!(Pallet::restore(cfg, hashed).is_none());
    let content = Config { min_length: 2, max_length: 10, policy: KeyPolicy::ContentKeyed };
    let dup = vec![
        (StorageKey::Hashed(vec![1u8; 32]), Record { payload: b"xy".to_vec(), category: 1, owner: A }),
        (StorageKey::Hashed(vec![1u8; 32]), Record { payload: b"zw".to_vec(), category: 1, owner: B }),
    ];
    assert!(Pallet::restore(content, dup).is_none());
}
