use solforge::accounts::PubkeyParseError;
use solforge::blocks::{
    account_update, block_accounts, collect_block_accounts, extract_accounts_from_tx,
    EncodedTransactionKeys,
};

const ZERO_KEY: &str = "11111111111111111111111111111111";

fn strings(v: &[&str]) -> Vec<String> {
    v.iter().map(|x| x.to_string()).collect()
}

#[test]
fn extract_by_encoding() {
    let keys = strings(&["a", "b"]);
    assert_eq!(extract_accounts_from_tx(&EncodedTransactionKeys::JsonParsed(keys.clone())), keys);
    assert_eq!(extract_accounts_from_tx(&EncodedTransactionKeys::JsonRaw(keys.clone())), keys);
    assert_eq!(extract_accounts_from_tx(&EncodedTransactionKeys::Accounts(keys.clone())), keys);
    assert!(extract_accounts_from_tx(&EncodedTransactionKeys::Binary).is_empty());
}

#[test]
fn block_keys_parsed_in_order() {
    let txs = vec![
        EncodedTransactionKeys::JsonRaw(strings(&[ZERO_KEY, "0abc"])),
        EncodedTransactionKeys::Binary,
        EncodedTransactionKeys::Accounts(strings(&["abc", ZERO_KEY])),
    ];
    let res = block_accounts(&txs);
    assert_eq!(res.keys, vec![vec![0u8; 32], vec![0u8; 32]]);
    assert_eq!(res.rejected.len(), 2);
    assert_eq!(res.rejected[0].key, "0abc");
    assert_eq!(res.rejected[0].error, PubkeyParseError::Invalid);
    assert_eq!(res.rejected[1].key, "abc");
    assert_eq!(res.rejected[1].error, PubkeyParseError::WrongSize);
}

#[test]
fn overlong_key_is_wrong_size() {
    let long = "1".repeat(45);
    let res = block_accounts(&vec![EncodedTransactionKeys::JsonParsed(vec![long.clone()])]);
    assert!(res.keys.is_empty());
    assert_eq!(res.rejected[0].key, long);
    assert_eq!(res.rejected[0].error, PubkeyParseError::WrongSize);
}

#[test]
fn key_bytes_match_key_library() {
    let text = "SysvarRent111111111111111111111111111111111";
    let res = block_accounts(&vec![EncodedTransactionKeys::Accounts(strings(&[text]))]);
    let expected: solana_program::pubkey::Pubkey = text.parse().unwrap();
    assert_eq!(res.keys, vec![expected.to_bytes().to_vec()]);
}

#[test]
fn accounts_gathered_once_failed_blocks_skipped() {
    let results: Vec<Result<Vec<Vec<u8>>, String>> = vec![
        Ok(vec![vec![1; 32], vec![2; 32], vec![1; 32]]),
        Err("Failed get_block_with_config".to_string()),
        Ok(vec![vec![2; 32], vec![3; 32]]),
        Err("x".to_string()),
    ];
    let set = collect_block_accounts(&results);
    assert_eq!(set.len(), 3);
    assert!(set.contains(&vec![3; 32]));
    assert_eq!(set.into_keys(), vec![vec![1; 32], vec![2; 32], vec![3; 32]]);
}

#[test]
fn no_blocks_no_accounts() {
    let set = collect_block_accounts(&vec![]);
    assert_eq!(set.len(), 0);
}

#[test]
fn account_update_keyed_by_base58() {
    let u = account_update(&vec![0u8; 32], 42, vec![9, 8], vec![5u8; 32], true);
    assert_eq!(u.filter_id, ZERO_KEY);
    assert_eq!(u.account._id, ZERO_KEY);
    assert_eq!(u.account.lamports, 42);
    assert_eq!(u.account.data, vec![9, 8]);
    assert_eq!(u.account.owner, vec![5u8; 32]);
    assert!(u.account.executable);
}

#[test]
fn account_id_round_trips_through_key_text() {
    let text = "SysvarRent111111111111111111111111111111111";
    let res = block_accounts(&vec![EncodedTransactionKeys::Accounts(strings(&[text]))]);
    let u = account_update(&res.keys[0], 0, vec![], vec![0u8; 32], false);
    assert_eq!(u.account._id, text);
    assert_eq!(u.filter_id, u.account._id);
}
