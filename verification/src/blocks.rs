//! The accounts that a block's transactions involve, and the record kept
//! for each account.

use vstd::prelude::*;
use crate::accounts::{
    AccountSet, PubkeyParseError, key_views, parse_pubkey, pubkey_from_str, pubkey_to_base58,
    pubkey_to_string,
};

verus! {

/// The account keys that an encoded transaction lists, by how the
/// transaction was encoded.
pub enum EncodedTransactionKeys {
    /// A JSON transaction with a parsed message: the keys of its accounts.
    JsonParsed(Vec<String>),
    /// A JSON transaction with a raw message: its account keys.
    JsonRaw(Vec<String>),
    /// A transaction encoded as its list of accounts: the keys of those accounts.
    Accounts(Vec<String>),
    /// A transaction in a binary encoding, whose keys are not read.
    Binary,
}

/// The account keys that a transaction lists, in its order.
pub open spec fn spec_extract_accounts(tx: EncodedTransactionKeys) -> Seq<Seq<char>> {
    match tx {
        EncodedTransactionKeys::JsonParsed(keys) => keys.deep_view(),
        EncodedTransactionKeys::JsonRaw(keys) => keys.deep_view(),
        EncodedTransactionKeys::Accounts(keys) => keys.deep_view(),
        EncodedTransactionKeys::Binary => Seq::empty(),
    }
}

fn clone_strings(v: &Vec<String>) -> (res: Vec<String>)
    ensures
        res.deep_view() == v.deep_view(),
{
    let mut res: Vec<String> = Vec::new();
    let n = v.len();
    let mut i: usize = 0;
    while i < n
        invariant
            n == v@.len(),
            i <= n,
            res@.len() == i,
            forall|j: int| 0 <= j < i ==> res@[j]@ == v@[j]@,
        decreases n - i,
    {
        res.push(v[i].clone());
        i = i + 1;
    }
    assert(res.deep_view() =~= v.deep_view());
    res
}

/// The account keys that a transaction lists, in its order; a binary
/// transaction lists none.
pub fn extract_accounts_from_tx(tx: &EncodedTransactionKeys) -> (res: Vec<String>)
    ensures
        res.deep_view() == spec_extract_accounts(*tx),
        *tx matches EncodedTransactionKeys::JsonParsed(keys) ==> res.deep_view() == keys.deep_view(),
        *tx matches EncodedTransactionKeys::JsonRaw(keys) ==> res.deep_view() == keys.deep_view(),
        *tx matches EncodedTransactionKeys::Accounts(keys) ==> res.deep_view() == keys.deep_view(),
        *tx is Binary ==> res@.len() == 0,
{
    match tx {
        EncodedTransactionKeys::JsonParsed(keys) => clone_strings(keys),
        EncodedTransactionKeys::JsonRaw(keys) => clone_strings(keys),
        EncodedTransactionKeys::Accounts(keys) => clone_strings(keys),
        EncodedTransactionKeys::Binary => Vec::new(),
    }
}

/// A transaction lists exactly the keys it carries, all of them and in
/// their order, whatever its encoding; a binary transaction lists none.
pub proof fn lemma_transaction_lists_its_keys(tx: EncodedTransactionKeys)
    ensures
        tx matches EncodedTransactionKeys::JsonParsed(keys) ==> spec_extract_accounts(tx)
            == keys.deep_view(),
        tx matches EncodedTransactionKeys::JsonRaw(keys) ==> spec_extract_accounts(tx)
            == keys.deep_view(),
        tx matches EncodedTransactionKeys::Accounts(keys) ==> spec_extract_accounts(tx)
            == keys.deep_view(),
        tx is Binary ==> spec_extract_accounts(tx).len() == 0,
{
}

/// The account keys that the transactions list, transaction by transaction.
pub open spec fn block_key_strings(txs: Seq<EncodedTransactionKeys>) -> Seq<Seq<char>>
    decreases txs.len(),
{
    if txs.len() == 0 {
        Seq::empty()
    } else {
        block_key_strings(txs.drop_last()) + spec_extract_accounts(txs.last())
    }
}

/// Whether some transaction of `txs` lists the key `s`.
pub open spec fn listed_by_a_transaction(txs: Seq<EncodedTransactionKeys>, s: Seq<char>) -> bool {
    exists|t: int, j: int|
        #![trigger spec_extract_accounts(txs[t])[j]]
        0 <= t < txs.len() && 0 <= j < spec_extract_accounts(txs[t]).len()
            && spec_extract_accounts(txs[t])[j] == s
}

/// Where a key of a block comes from: some transaction of the block lists it.
pub proof fn lemma_block_key_comes_from_a_transaction(txs: Seq<EncodedTransactionKeys>, k: int)
    requires
        0 <= k < block_key_strings(txs).len(),
    ensures
        listed_by_a_transaction(txs, block_key_strings(txs)[k]),
    decreases txs.len(),
{
    let before = txs.drop_last();
    let n = txs.len() - 1;
    let b = block_key_strings(before);
    let last = spec_extract_accounts(txs[n]);
    assert(block_key_strings(txs) == b + last);
    if k < b.len() {
        lemma_block_key_comes_from_a_transaction(before, k);
        let (t, j) = choose|t: int, j: int|
            0 <= t < before.len() && 0 <= j < spec_extract_accounts(before[t]).len()
                && spec_extract_accounts(before[t])[j] == b[k];
        assert(before[t] == txs[t]);
        assert(spec_extract_accounts(txs[t])[j] == block_key_strings(txs)[k]);
    } else {
        let j = k - b.len();
        assert(spec_extract_accounts(txs[n])[j] == block_key_strings(txs)[k]);
    }
}

/// The keys of a block are those of its transactions: every key that a
/// transaction lists is among them, and each of them is listed by one.
pub proof fn lemma_block_keys_are_its_transactions_keys(txs: Seq<EncodedTransactionKeys>)
    ensures
        forall|t: int, j: int|
            0 <= t < txs.len() && 0 <= j < spec_extract_accounts(txs[t]).len()
                ==> block_key_strings(txs).contains(#[trigger] spec_extract_accounts(txs[t])[j]),
        forall|k: int|
            0 <= k < block_key_strings(txs).len() ==> listed_by_a_transaction(
                txs,
                #[trigger] block_key_strings(txs)[k],
            ),
    decreases txs.len(),
{
    if txs.len() > 0 {
        let before = txs.drop_last();
        let n = txs.len() - 1;
        lemma_block_keys_are_its_transactions_keys(before);
        let b = block_key_strings(before);
        let last = spec_extract_accounts(txs[n]);
        let all = block_key_strings(txs);
        assert(all == b + last);
        assert forall|t: int, j: int|
            0 <= t < txs.len() && 0 <= j < spec_extract_accounts(txs[t]).len()
                implies all.contains(#[trigger] spec_extract_accounts(txs[t])[j]) by {
            if t < n {
                assert(before[t] == txs[t]);
                assert(b.contains(spec_extract_accounts(before[t])[j]));
                let k = choose|k: int| 0 <= k < b.len() && b[k] == spec_extract_accounts(before[t])[j];
                assert(all[k] == b[k]);
            } else {
                assert(all[b.len() + j] == last[j]);
            }
        }
    }
    assert forall|k: int| 0 <= k < block_key_strings(txs).len() implies listed_by_a_transaction(
        txs,
        #[trigger] block_key_strings(txs)[k],
    ) by {
        lemma_block_key_comes_from_a_transaction(txs, k);
    }
}

/// The keys, in order, of the strings that read as public keys.
pub open spec fn parsed_keys(strs: Seq<Seq<char>>) -> Seq<Seq<u8>>
    decreases strs.len(),
{
    if strs.len() == 0 {
        Seq::empty()
    } else {
        match pubkey_from_str(strs.last()) {
            Ok(bytes) => parsed_keys(strs.drop_last()).push(bytes),
            Err(_) => parsed_keys(strs.drop_last()),
        }
    }
}

/// The strings, in order, that do not read as public keys, each with why.
pub open spec fn rejected_keys(strs: Seq<Seq<char>>) -> Seq<(Seq<char>, PubkeyParseError)>
    decreases strs.len(),
{
    if strs.len() == 0 {
        Seq::empty()
    } else {
        match pubkey_from_str(strs.last()) {
            Ok(_) => rejected_keys(strs.drop_last()),
            Err(e) => rejected_keys(strs.drop_last()).push((strs.last(), e)),
        }
    }
}

/// Reading keys distributes over concatenation.
pub proof fn lemma_parsed_keys_append(a: Seq<Seq<char>>, b: Seq<Seq<char>>)
    ensures
        parsed_keys(a + b) == parsed_keys(a) + parsed_keys(b),
        rejected_keys(a + b) == rejected_keys(a) + rejected_keys(b),
    decreases b.len(),
{
    if b.len() == 0 {
        assert(a + b =~= a);
        assert(parsed_keys(a) + parsed_keys(b) =~= parsed_keys(a));
        assert(rejected_keys(a) + rejected_keys(b) =~= rejected_keys(a));
    } else {
        lemma_parsed_keys_append(a, b.drop_last());
        assert((a + b).drop_last() =~= a + b.drop_last());
        assert((a + b).last() == b.last());
        match pubkey_from_str(b.last()) {
            Ok(bytes) => {
                assert(parsed_keys(a + b) =~= parsed_keys(a) + parsed_keys(b));
                assert(rejected_keys(a + b) =~= rejected_keys(a) + rejected_keys(b));
            },
            Err(e) => {
                assert(parsed_keys(a + b) =~= parsed_keys(a) + parsed_keys(b));
                assert(rejected_keys(a + b) =~= rejected_keys(a) + rejected_keys(b));
            },
        }
    }
}

/// Each string on its own: one that reads as a public key gives that key
/// and no rejection; one that does not gives no key and its rejection with
/// the reason the key library gives, whatever else holds of the string.
pub proof fn lemma_single_key_read(s: Seq<char>)
    ensures
        pubkey_from_str(s) matches Ok(bytes) ==> (parsed_keys(seq![s]) == seq![bytes]
            && rejected_keys(seq![s]).len() == 0),
        pubkey_from_str(s) matches Err(e) ==> (parsed_keys(seq![s]).len() == 0
            && rejected_keys(seq![s]) == seq![(s, e)]),
{
    let one = seq![s];
    assert(one.drop_last() =~= Seq::<Seq<char>>::empty());
    assert(one.last() == s);
    assert(parsed_keys(one.drop_last()) == Seq::<Seq<u8>>::empty());
    assert(rejected_keys(one.drop_last()) == Seq::<(Seq<char>, PubkeyParseError)>::empty());
    match pubkey_from_str(s) {
        Ok(bytes) => {
            assert(parsed_keys(one) =~= seq![bytes]);
        },
        Err(e) => {
            assert(rejected_keys(one) =~= seq![(s, e)]);
        },
    }
}

/// Reading keys keeps every string that reads as a public key, as its key,
/// and rejects exactly the others, each with the reason the key library
/// gives: nothing read is dropped, and nothing rejected reads.
pub proof fn lemma_read_keys_sorts_by_parse(strs: Seq<Seq<char>>)
    ensures
        parsed_keys(strs).len() + rejected_keys(strs).len() == strs.len(),
        forall|i: int|
            0 <= i < strs.len() && #[trigger] pubkey_from_str(strs[i]) is Ok ==> parsed_keys(
                strs,
            ).contains(pubkey_from_str(strs[i])->Ok_0),
        forall|i: int|
            0 <= i < strs.len() && #[trigger] pubkey_from_str(strs[i]) is Err ==> rejected_keys(
                strs,
            ).contains((strs[i], pubkey_from_str(strs[i])->Err_0)),
        forall|k: int|
            0 <= k < parsed_keys(strs).len() ==> exists|i: int|
                0 <= i < strs.len() && pubkey_from_str(strs[i]) == Ok::<Seq<u8>, PubkeyParseError>(
                    #[trigger] parsed_keys(strs)[k],
                ),
        forall|k: int|
            0 <= k < rejected_keys(strs).len() ==> strs.contains(
                (#[trigger] rejected_keys(strs)[k]).0,
            ) && pubkey_from_str(rejected_keys(strs)[k].0) == Err::<Seq<u8>, PubkeyParseError>(
                rejected_keys(strs)[k].1,
            ),
    decreases strs.len(),
{
    if strs.len() > 0 {
        let before = strs.drop_last();
        let n = strs.len() - 1;
        let last = strs.last();
        lemma_read_keys_sorts_by_parse(before);
        let pb = parsed_keys(before);
        let rb = rejected_keys(before);
        let p = parsed_keys(strs);
        let r = rejected_keys(strs);
        assert forall|i: int|
            0 <= i < strs.len() && #[trigger] pubkey_from_str(strs[i]) is Ok implies p.contains(
                pubkey_from_str(strs[i])->Ok_0,
            ) by {
            if i < n {
                assert(before[i] == strs[i]);
                assert(pubkey_from_str(before[i]) is Ok);
                let k = choose|k: int| 0 <= k < pb.len() && pb[k] == pubkey_from_str(before[i])->Ok_0;
                assert(p[k] == pb[k]);
            } else {
                assert(p[p.len() - 1] == pubkey_from_str(strs[i])->Ok_0);
            }
        }
        assert forall|i: int|
            0 <= i < strs.len() && #[trigger] pubkey_from_str(strs[i]) is Err implies r.contains(
                (strs[i], pubkey_from_str(strs[i])->Err_0),
            ) by {
            if i < n {
                assert(before[i] == strs[i]);
                assert(pubkey_from_str(before[i]) is Err);
                let k = choose|k: int|
                    0 <= k < rb.len() && rb[k] == (before[i], pubkey_from_str(before[i])->Err_0);
                assert(r[k] == rb[k]);
            } else {
                assert(r[r.len() - 1] == (strs[i], pubkey_from_str(strs[i])->Err_0));
            }
        }
        assert forall|k: int| 0 <= k < p.len() implies exists|i: int|
            0 <= i < strs.len() && pubkey_from_str(strs[i]) == Ok::<Seq<u8>, PubkeyParseError>(
                #[trigger] p[k],
            ) by {
            if k < pb.len() {
                assert(p[k] == pb[k]);
                let i = choose|i: int|
                    0 <= i < before.len() && pubkey_from_str(before[i]) == Ok::<Seq<u8>, PubkeyParseError>(pb[k]);
                assert(before[i] == strs[i]);
            } else {
                assert(strs[n] == last);
                assert(pubkey_from_str(strs[n]) == Ok::<Seq<u8>, PubkeyParseError>(p[k]));
            }
        }
        assert forall|k: int| 0 <= k < r.len() implies strs.contains((#[trigger] r[k]).0)
            && pubkey_from_str(r[k].0) == Err::<Seq<u8>, PubkeyParseError>(r[k].1) by {
            if k < rb.len() {
                assert(r[k] == rb[k]);
                let i = choose|i: int| 0 <= i < before.len() && before[i] == rb[k].0;
                assert(strs[i] == before[i]);
            } else {
                assert(strs[n] == last);
                assert(r[k] == (last, pubkey_from_str(last)->Err_0));
            }
        }
    }
}

/// A listed account key that is not a public key, and why.
pub struct RejectedKey {
    pub key: String,
    pub error: PubkeyParseError,
}

/// The model of a sequence of rejected keys.
pub open spec fn rejected_views(v: Seq<RejectedKey>) -> Seq<(Seq<char>, PubkeyParseError)> {
    v.map_values(|r: RejectedKey| (r.key@, r.error))
}

/// The accounts of a block: the keys that read as public keys, and those
/// that do not.
pub struct BlockAccounts {
    pub keys: Vec<Vec<u8>>,
    pub rejected: Vec<RejectedKey>,
}

fn read_keys(strs: &Vec<String>, keys: &mut Vec<Vec<u8>>, rejected: &mut Vec<RejectedKey>)
    ensures
        key_views(final(keys)@) == key_views(old(keys)@) + parsed_keys(strs.deep_view()),
        rejected_views(final(rejected)@) == rejected_views(old(rejected)@) + rejected_keys(
            strs.deep_view(),
        ),
        (forall|i: int| 0 <= i < old(keys)@.len() ==> (#[trigger] old(keys)@[i])@.len() == 32)
            ==> (forall|i: int| 0 <= i < final(keys)@.len() ==> (#[trigger] final(keys)@[i])@.len() == 32),
{
    let ghost sv = strs.deep_view();
    let n = strs.len();
    let mut j: usize = 0;
    assert(sv.take(0) =~= Seq::<Seq<char>>::empty());
    assert(key_views(keys@) + parsed_keys(sv.take(0)) =~= key_views(keys@));
    assert(rejected_views(rejected@) + rejected_keys(sv.take(0)) =~= rejected_views(rejected@));
    while j < n
        invariant
            n == strs@.len(),
            sv == strs.deep_view(),
            j <= n,
            key_views(keys@) == key_views(old(keys)@) + parsed_keys(sv.take(j as int)),
            rejected_views(rejected@) == rejected_views(old(rejected)@) + rejected_keys(
                sv.take(j as int),
            ),
            keys@.len() >= old(keys)@.len(),
            forall|i: int| 0 <= i < old(keys)@.len() ==> keys@[i] == old(keys)@[i],
            forall|i: int| old(keys)@.len() <= i < keys@.len() ==> (#[trigger] keys@[i])@.len() == 32,
        decreases n - j,
    {
        let ghost before = sv.take(j as int);
        assert(sv.take(j + 1).drop_last() =~= before);
        assert(sv.take(j + 1).last() == strs@[j as int]@);
        match parse_pubkey(strs[j].as_str()) {
            Ok(bytes) => {
                let ghost prev = key_views(keys@);
                let ghost b = bytes@;
                keys.push(bytes);
                proof {
                    assert(key_views(keys@) =~= prev.push(b));
                    assert(parsed_keys(sv.take(j + 1)) == parsed_keys(before).push(b));
                    assert(prev.push(b) =~= key_views(old(keys)@) + parsed_keys(sv.take(j + 1)));
                    assert(rejected_keys(sv.take(j + 1)) == rejected_keys(before));
                }
            },
            Err(error) => {
                let key = strs[j].clone();
                let ghost prev = rejected_views(rejected@);
                let ghost r = (key@, error);
                rejected.push(RejectedKey { key, error });
                proof {
                    assert(rejected_views(rejected@) =~= prev.push(r));
                    assert(rejected_keys(sv.take(j + 1)) == rejected_keys(before).push(r));
                    assert(prev.push(r) =~= rejected_views(old(rejected)@) + rejected_keys(
                        sv.take(j + 1),
                    ));
                    assert(parsed_keys(sv.take(j + 1)) == parsed_keys(before));
                }
            },
        }
        j = j + 1;
    }
    assert(sv.take(n as int) =~= sv);
}

/// The accounts that a block's transactions involve: every key that the
/// transactions list, in order, that reads as a public key (repeats kept),
/// and every one that does not, with why.
pub fn block_accounts(txs: &Vec<EncodedTransactionKeys>) -> (res: BlockAccounts)
    ensures
        key_views(res.keys@) == parsed_keys(block_key_strings(txs@)),
        rejected_views(res.rejected@) == rejected_keys(block_key_strings(txs@)),
        forall|i: int| 0 <= i < res.keys@.len() ==> (#[trigger] res.keys@[i])@.len() == 32,
        forall|t: int, j: int|
            0 <= t < txs@.len() && 0 <= j < spec_extract_accounts(txs@[t]).len()
                && pubkey_from_str(spec_extract_accounts(txs@[t])[j]) is Ok ==> key_views(
                res.keys@,
            ).contains(pubkey_from_str(#[trigger] spec_extract_accounts(txs@[t])[j])->Ok_0),
        forall|k: int|
            0 <= k < res.rejected@.len() ==> pubkey_from_str((#[trigger] res.rejected@[k]).key@)
                == Err::<Seq<u8>, PubkeyParseError>(res.rejected@[k].error),
{
    let mut keys: Vec<Vec<u8>> = Vec::new();
    let mut rejected: Vec<RejectedKey> = Vec::new();
    let n = txs.len();
    let mut i: usize = 0;
    assert(txs@.take(0) =~= Seq::<EncodedTransactionKeys>::empty());
    assert(key_views(keys@) =~= Seq::<Seq<u8>>::empty());
    assert(rejected_views(rejected@) =~= Seq::<(Seq<char>, PubkeyParseError)>::empty());
    while i < n
        invariant
            n == txs@.len(),
            i <= n,
            key_views(keys@) == parsed_keys(block_key_strings(txs@.take(i as int))),
            rejected_views(rejected@) == rejected_keys(block_key_strings(txs@.take(i as int))),
            forall|k: int| 0 <= k < keys@.len() ==> (#[trigger] keys@[k])@.len() == 32,
        decreases n - i,
    {
        let strs = extract_accounts_from_tx(&txs[i]);
        let ghost prefix = block_key_strings(txs@.take(i as int));
        read_keys(&strs, &mut keys, &mut rejected);
        proof {
            assert(txs@.take(i + 1).drop_last() =~= txs@.take(i as int));
            assert(txs@.take(i + 1).last() == txs@[i as int]);
            assert(block_key_strings(txs@.take(i + 1)) == prefix + strs.deep_view());
            lemma_parsed_keys_append(prefix, strs.deep_view());
        }
        i = i + 1;
    }
    assert(txs@.take(n as int) =~= txs@);
    proof {
        let strs = block_key_strings(txs@);
        lemma_block_keys_are_its_transactions_keys(txs@);
        lemma_read_keys_sorts_by_parse(strs);
        assert forall|t: int, j: int|
            0 <= t < txs@.len() && 0 <= j < spec_extract_accounts(txs@[t]).len()
                && pubkey_from_str(spec_extract_accounts(txs@[t])[j]) is Ok implies key_views(
                keys@,
            ).contains(pubkey_from_str(#[trigger] spec_extract_accounts(txs@[t])[j])->Ok_0) by {
            let x = spec_extract_accounts(txs@[t])[j];
            assert(strs.contains(x));
            let i = choose|i: int| 0 <= i < strs.len() && strs[i] == x;
            assert(pubkey_from_str(strs[i]) is Ok);
        }
        assert forall|k: int| 0 <= k < rejected@.len() implies pubkey_from_str(
            (#[trigger] rejected@[k]).key@,
        ) == Err::<Seq<u8>, PubkeyParseError>(rejected@[k].error) by {
            assert(rejected_views(rejected@)[k] == (rejected@[k].key@, rejected@[k].error));
            assert(rejected_keys(strs)[k] == rejected_views(rejected@)[k]);
        }
    }
    BlockAccounts { keys, rejected }
}

/// The keys of the blocks that were processed: those of every block whose
/// processing succeeded.
pub open spec fn succeeded_keys(results: Seq<Result<Vec<Vec<u8>>, String>>) -> Set<Seq<u8>>
    decreases results.len(),
{
    if results.len() == 0 {
        Set::empty()
    } else {
        succeeded_keys(results.drop_last()).union(
            match results.last() {
                Ok(keys) => key_views(keys@).to_set(),
                Err(_) => Set::empty(),
            },
        )
    }
}

/// Whether `j` indexes a key of block `i`, and block `i` was processed.
pub open spec fn is_listed_key(results: Seq<Result<Vec<Vec<u8>>, String>>, i: int, j: int) -> bool {
    &&& 0 <= i < results.len()
    &&& results[i] is Ok
    &&& 0 <= j < results[i]->Ok_0@.len()
}

/// The key at index `j` of the keys of block `i`.
pub open spec fn listed_key(results: Seq<Result<Vec<Vec<u8>>, String>>, i: int, j: int) -> Seq<u8> {
    results[i]->Ok_0@[j]@
}

/// The accounts gathered from the processed blocks are exactly the keys of
/// the blocks whose processing succeeded, whatever their position: each
/// such key is gathered, and nothing else is.
pub proof fn lemma_succeeded_keys_are_the_blocks_keys(results: Seq<Result<Vec<Vec<u8>>, String>>)
    ensures
        forall|i: int, j: int|
            is_listed_key(results, i, j) ==> succeeded_keys(results).contains(
                #[trigger] listed_key(results, i, j),
            ),
        forall|k: Seq<u8>|
            #[trigger] succeeded_keys(results).contains(k) ==> exists|i: int, j: int|
                is_listed_key(results, i, j) && listed_key(results, i, j) == k,
    decreases results.len(),
{
    if results.len() > 0 {
        let before = results.drop_last();
        let n = results.len() - 1;
        lemma_succeeded_keys_are_the_blocks_keys(before);
        assert forall|i: int, j: int| is_listed_key(results, i, j) implies succeeded_keys(
            results,
        ).contains(#[trigger] listed_key(results, i, j)) by {
            if i < n {
                assert(before[i] == results[i]);
                assert(is_listed_key(before, i, j));
                assert(listed_key(before, i, j) == listed_key(results, i, j));
            } else {
                let keys = results[i]->Ok_0;
                assert(key_views(keys@)[j] == listed_key(results, i, j));
                assert(key_views(keys@).to_set().contains(listed_key(results, i, j)));
            }
        }
        assert forall|k: Seq<u8>| #[trigger] succeeded_keys(results).contains(k) implies exists|i: int, j: int|
            is_listed_key(results, i, j) && listed_key(results, i, j) == k by {
            if succeeded_keys(before).contains(k) {
                let (i, j) = choose|i: int, j: int| is_listed_key(before, i, j) && listed_key(before, i, j) == k;
                assert(before[i] == results[i]);
                assert(is_listed_key(results, i, j) && listed_key(results, i, j) == k);
            } else {
                let keys = results[n]->Ok_0;
                assert(key_views(keys@).contains(k));
                let j = choose|j: int| 0 <= j < key_views(keys@).len() && key_views(keys@)[j] == k;
                assert(is_listed_key(results, n, j) && listed_key(results, n, j) == k);
            }
        }
    }
}

fn insert_all(set: &mut AccountSet, keys: &Vec<Vec<u8>>)
    ensures
        final(set)@ == old(set)@.union(key_views(keys@).to_set()),
{
    let n = keys.len();
    let mut j: usize = 0;
    let ghost kv = key_views(keys@);
    assert(old(set)@.union(kv.take(0).to_set()) =~= old(set)@);
    while j < n
        invariant
            n == keys@.len(),
            kv == key_views(keys@),
            j <= n,
            set@ == old(set)@.union(kv.take(j as int).to_set()),
        decreases n - j,
    {
        set.insert(keys[j].clone());
        proof {
            assert(kv.take(j + 1) =~= kv.take(j as int).push(kv[j as int]));
            let ghost pre = kv.take(j as int);
            let ghost post = kv.take(j + 1);
            assert forall|x: Seq<u8>| post.contains(x) <==> (pre.contains(x) || x == kv[j as int]) by {
                if post.contains(x) {
                    let k = choose|k: int| 0 <= k < post.len() && post[k] == x;
                    if k < j {
                        assert(pre[k] == x);
                    }
                }
                if pre.contains(x) {
                    let k = choose|k: int| 0 <= k < pre.len() && pre[k] == x;
                    assert(post[k] == x);
                }
                if x == kv[j as int] {
                    assert(post[j as int] == x);
                }
            }
            assert(post.to_set() =~= pre.to_set().insert(kv[j as int]));
            assert(set@ =~= old(set)@.union(kv.take(j + 1).to_set()));
        }
        j = j + 1;
    }
    assert(kv.take(n as int) =~= kv);
}

/// Gathers the accounts of the processed blocks into one set, each account
/// once, so that no account is fetched twice; a block whose processing
/// failed adds nothing.
pub fn collect_block_accounts(results: &Vec<Result<Vec<Vec<u8>>, String>>) -> (res: AccountSet)
    ensures
        res@ == succeeded_keys(results@),
        forall|i: int, j: int|
            is_listed_key(results@, i, j) ==> res@.contains(#[trigger] listed_key(results@, i, j)),
        forall|k: Seq<u8>|
            #[trigger] res@.contains(k) ==> exists|i: int, j: int|
                is_listed_key(results@, i, j) && listed_key(results@, i, j) == k,
{
    proof {
        lemma_succeeded_keys_are_the_blocks_keys(results@);
    }
    let mut set = AccountSet::new();
    let n = results.len();
    let mut i: usize = 0;
    assert(results@.take(0) =~= Seq::<Result<Vec<Vec<u8>>, String>>::empty());
    while i < n
        invariant
            n == results@.len(),
            i <= n,
            set@ == succeeded_keys(results@.take(i as int)),
        decreases n - i,
    {
        proof {
            assert(results@.take(i + 1).drop_last() =~= results@.take(i as int));
            assert(results@.take(i + 1).last() == results@[i as int]);
        }
        match &results[i] {
            Ok(keys) => {
                insert_all(&mut set, keys);
            },
            Err(_) => {
                assert(set@ =~= set@.union(Set::<Seq<u8>>::empty()));
            },
        }
        i = i + 1;
    }
    assert(results@.take(n as int) =~= results@);
    set
}

/// The stored state of an account.
pub struct SolanaAccount {
    /// The account's key, as Base58 text.
    pub _id: String,
    pub lamports: u64,
    pub data: Vec<u8>,
    /// The bytes of the key of the program that owns the account.
    pub owner: Vec<u8>,
    pub executable: bool,
}

/// An upsert of an account: the id of the document to replace, and the
/// record to set.
pub struct AccountUpdate {
    pub filter_id: String,
    pub account: SolanaAccount,
}

/// The upsert that records an account's fetched state under its key.
pub fn account_update(key: &Vec<u8>, lamports: u64, data: Vec<u8>, owner: Vec<u8>, executable: bool) -> (res: AccountUpdate)
    requires
        key@.len() == 32,
    ensures
        res.filter_id@ == pubkey_to_base58(key@),
        res.account._id@ == pubkey_to_base58(key@),
        res.account.lamports == lamports,
        res.account.data@ == data@,
        res.account.owner@ == owner@,
        res.account.executable == executable,
{
    let account = SolanaAccount { _id: pubkey_to_string(key), lamports, data, owner, executable };
    let filter_id = pubkey_to_string(key);
    AccountUpdate { filter_id, account }
}

} // verus!
