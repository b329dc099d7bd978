use solforge::accounts::{same_key, AccountSet, PubkeyParseError};

#[test]
fn set_holds_each_key_once() {
    let mut set = AccountSet::new();
    assert_eq!(set.len(), 0);
    assert!(set.insert(vec![1; 32]));
    assert!(set.insert(vec![2; 32]));
    assert!(!set.insert(vec![1; 32]));
    assert_eq!(set.len(), 2);
    assert!(set.contains(&vec![1; 32]));
    assert!(set.contains(&vec![2; 32]));
    assert!(!set.contains(&vec![3; 32]));
    assert_eq!(set.into_keys(), vec![vec![1; 32], vec![2; 32]]);
}

#[test]
fn keys_compare_by_bytes() {
    assert!(same_key(&vec![1, 2, 3], &vec![1, 2, 3]));
    assert!(!same_key(&vec![1, 2, 3], &vec![1, 2, 4]));
    assert!(!same_key(&vec![1, 2], &vec![1, 2, 3]));
}

#[test]
fn key_error_texts() {
    assert_eq!(PubkeyParseError::WrongSize.text(), "String is the wrong size");
    assert_eq!(PubkeyParseError::Invalid.text(), "Invalid Base58 string");
}
