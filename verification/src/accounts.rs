//! Accounts that the transactions of a block involve: extracting their keys,
//! reading the keys as public keys, gathering them without repetition, and
//! the record that is stored for each account.

use vstd::prelude::*;
use solana_program::pubkey::{ParsePubkeyError, Pubkey};

verus! {

/// Why a string is not a public key.
#[derive(Debug, Clone, Copy, PartialEq, Eq, Structural)]
pub enum PubkeyParseError {
    /// The string does not decode to exactly 32 bytes.
    WrongSize,
    /// The string is not Base58.
    Invalid,
}

/// The text with which the key library displays a key parse error.
pub open spec fn pubkey_error_text(err: PubkeyParseError) -> Seq<char> {
    match err {
        PubkeyParseError::WrongSize => "String is the wrong size"@,
        PubkeyParseError::Invalid => "Invalid Base58 string"@,
    }
}

impl PubkeyParseError {
    /// The text with which the key library displays this error.
    pub fn text(&self) -> (res: String)
        ensures
            res@ == pubkey_error_text(*self),
    {
        match self {
            PubkeyParseError::WrongSize => String::from_str("String is the wrong size"),
            PubkeyParseError::Invalid => String::from_str("Invalid Base58 string"),
        }
    }
}

/// What `Pubkey::from_str(s)` returns: the 32 bytes of the key, or the error.
pub uninterp spec fn pubkey_from_str(s: Seq<char>) -> Result<Seq<u8>, PubkeyParseError>;

/// What the key library displays for the key with bytes `bytes`: its
/// Base58 text.
pub uninterp spec fn pubkey_to_base58(bytes: Seq<u8>) -> Seq<char>;

/// Calls `Pubkey::from_str(s)` and gives back the key's bytes or the error.
/// Claimed: the result is the named parse result of `s`; a key has 32
/// bytes; a string of more than 44 characters (so more than 44 bytes) is
/// rejected as of the wrong size, since the key library tests the length
/// before it decodes.
#[verifier::external_body]
pub(crate) fn parse_pubkey(s: &str) -> (res: Result<Vec<u8>, PubkeyParseError>)
    ensures
        pubkey_from_str(s@) == (match res {
            Ok(bytes) => Ok(bytes@),
            Err(e) => Err(e),
        }),
        res matches Ok(bytes) ==> bytes@.len() == 32,
        s@.len() > 44 ==> (res matches Err(PubkeyParseError::WrongSize)),
{
    match <Pubkey as std::str::FromStr>::from_str(s) {
        Ok(key) => Ok(key.to_bytes().to_vec()),
        Err(ParsePubkeyError::WrongSize) => Err(PubkeyParseError::WrongSize),
        Err(ParsePubkeyError::Invalid) => Err(PubkeyParseError::Invalid),
    }
}

/// Makes the key with the 32 bytes `bytes` and displays it. Claimed: the
/// text is the named Base58 text of the bytes. Other lengths are not
/// admitted: the conversion to a key would panic on them.
#[verifier::external_body]
pub(crate) fn pubkey_to_string(bytes: &Vec<u8>) -> (res: String)
    requires
        bytes@.len() == 32,
    ensures
        res@ == pubkey_to_base58(bytes@),
{
    Pubkey::try_from(bytes.as_slice()).unwrap().to_string()
}

/// Whether two keys have the same bytes.
pub fn same_key(a: &Vec<u8>, b: &Vec<u8>) -> (res: bool)
    ensures
        res == (a@ == b@),
{
    if a.len() != b.len() {
        return false;
    }
    let n = a.len();
    let mut i: usize = 0;
    while i < n
        invariant
            n == a@.len(),
            n == b@.len(),
            i <= n,
            forall|j: int| 0 <= j < i ==> a@[j] == b@[j],
        decreases n - i,
    {
        if a[i] != b[i] {
            return false;
        }
        i = i + 1;
    }
    assert(a@ =~= b@);
    true
}

/// The keys of a sequence of byte vectors, as sequences of bytes.
pub open spec fn key_views(keys: Seq<Vec<u8>>) -> Seq<Seq<u8>> {
    keys.map_values(|k: Vec<u8>| k@)
}

/// A set of account keys, each held once, in the order they were first
/// inserted.
pub struct AccountSet {
    keys: Vec<Vec<u8>>,
}

impl View for AccountSet {
    type V = Set<Seq<u8>>;

    closed spec fn view(&self) -> Set<Seq<u8>> {
        key_views(self.keys@).to_set()
    }
}

impl AccountSet {
    /// The keys in the order they were first inserted.
    pub closed spec fn spec_keys(&self) -> Seq<Seq<u8>> {
        key_views(self.keys@)
    }

    /// No key is held twice.
    #[verifier::type_invariant]
    spec fn holds_each_key_once(&self) -> bool {
        self.spec_keys().no_duplicates()
    }

    /// The empty set.
    pub fn new() -> (res: AccountSet)
        ensures
            res@ == Set::<Seq<u8>>::empty(),
            res.spec_keys() == Seq::<Seq<u8>>::empty(),
    {
        let keys: Vec<Vec<u8>> = Vec::new();
        assert(key_views(keys@) =~= Seq::<Seq<u8>>::empty());
        let res = AccountSet { keys };
        assert(res@ =~= Set::<Seq<u8>>::empty());
        res
    }

    /// Whether the set holds `key`.
    pub fn contains(&self, key: &Vec<u8>) -> (res: bool)
        ensures
            res == self@.contains(key@),
    {
        let n = self.keys.len();
        let mut i: usize = 0;
        while i < n
            invariant
                n == self.keys@.len(),
                i <= n,
                forall|j: int| 0 <= j < i ==> self.keys@[j]@ != key@,
            decreases n - i,
        {
            if same_key(&self.keys[i], key) {
                proof {
                    assert(self.spec_keys()[i as int] == key@);
                }
                return true;
            }
            i = i + 1;
        }
        proof {
            if self.spec_keys().contains(key@) {
                let j = choose|j: int| 0 <= j < self.spec_keys().len() && self.spec_keys()[j] == key@;
                assert(self.keys@[j]@ == key@);
            }
        }
        false
    }

    /// Inserts `key`; the answer says whether it was not held before.
    pub fn insert(&mut self, key: Vec<u8>) -> (res: bool)
        ensures
            res == !old(self)@.contains(key@),
            final(self)@ == old(self)@.insert(key@),
            final(self).spec_keys() == (if res {
                old(self).spec_keys().push(key@)
            } else {
                old(self).spec_keys()
            }),
    {
        proof {
            use_type_invariant(&*self);
        }
        if self.contains(&key) {
            proof {
                assert(self@ =~= old(self)@.insert(key@));
            }
            false
        } else {
            let ghost before = self.spec_keys();
            let ghost k = key@;
            let mut keys: Vec<Vec<u8>> = Vec::new();
            assert(key_views(keys@) =~= Seq::<Seq<u8>>::empty());
            std::mem::swap(&mut keys, &mut self.keys);
            keys.push(key);
            let ghost after = key_views(keys@);
            proof {
                assert(after =~= before.push(k));
                assert(!before.contains(k));
                assert forall|a: int, b: int|
                    0 <= a < after.len() && 0 <= b < after.len() && a != b
                    implies after[a] != after[b] by {
                    if a == before.len() as int {
                        assert(before[b] == after[b]);
                    } else if b == before.len() as int {
                        assert(before[a] == after[a]);
                    }
                }
                assert(after.no_duplicates());
            }
            self.keys = keys;
            proof {
                assert(self.spec_keys() == after);
                assert(self@ =~= old(self)@.insert(k)) by {
                    assert forall|x: Seq<u8>| self@.contains(x) <==> old(self)@.insert(k).contains(x) by {
                        if after.contains(x) && x != k {
                            let j = choose|j: int| 0 <= j < after.len() && after[j] == x;
                            assert(before[j] == x);
                        }
                        if before.contains(x) {
                            let j = choose|j: int| 0 <= j < before.len() && before[j] == x;
                            assert(after[j] == x);
                        }
                        if x == k {
                            assert(after[before.len() as int] == k);
                        }
                    }
                }
            }
            true
        }
    }

    /// The number of keys in the set.
    pub fn len(&self) -> (res: usize)
        ensures
            res == self@.len(),
            res == self.spec_keys().len(),
    {
        proof {
            use_type_invariant(self);
            self.spec_keys().unique_seq_to_set();
        }
        self.keys.len()
    }

    /// The keys, each once, in the order they were first inserted.
    pub fn into_keys(self) -> (res: Vec<Vec<u8>>)
        ensures
            key_views(res@) == self.spec_keys(),
            key_views(res@).no_duplicates(),
            key_views(res@).to_set() == self@,
    {
        proof {
            use_type_invariant(&self);
        }
        self.keys
    }
}

} // verus!
