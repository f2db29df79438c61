//! Accounts as the routing engine hands them over.

use crate::pubkey::Pubkey;
use vstd::prelude::*;

verus! {

/// What the connector reads of an account.
pub struct Account {
    pub data: Vec<u8>,
    /// The program that owns the account.
    pub owner: Pubkey,
}

/// An account with its address.
pub struct KeyedAccount {
    pub key: Pubkey,
    pub account: Account,
}

/// Accounts by address; an address occurs once.
pub struct AccountMap {
    entries: Vec<KeyedAccount>,
}

/// The accounts of a list of entries, by address.
pub closed spec fn entries_by_key(entries: Seq<KeyedAccount>) -> Map<Pubkey, Account>
    decreases entries.len(),
{
    if entries.len() == 0 {
        Map::empty()
    } else {
        entries_by_key(entries.drop_last()).insert(entries.last().key, entries.last().account)
    }
}

spec fn keys_distinct(entries: Seq<KeyedAccount>) -> bool {
    forall|i: int, j: int| 0 <= i < j < entries.len() ==> entries[i].key != entries[j].key
}

proof fn lemma_entry_in_map(entries: Seq<KeyedAccount>, i: int)
    requires
        keys_distinct(entries),
        0 <= i < entries.len(),
    ensures
        entries_by_key(entries).contains_key(entries[i].key),
        entries_by_key(entries)[entries[i].key] == entries[i].account,
    decreases entries.len(),
{
    if i < entries.len() - 1 {
        assert(entries.drop_last()[i] == entries[i]);
        lemma_entry_in_map(entries.drop_last(), i);
    }
}

proof fn lemma_no_entry_no_key(entries: Seq<KeyedAccount>, key: Pubkey)
    requires
        forall|i: int| 0 <= i < entries.len() ==> entries[i].key != key,
    ensures
        !entries_by_key(entries).contains_key(key),
    decreases entries.len(),
{
    if entries.len() > 0 {
        lemma_no_entry_no_key(entries.drop_last(), key);
    }
}

proof fn lemma_replaced_entry(entries: Seq<KeyedAccount>, i: int, entry: KeyedAccount)
    requires
        keys_distinct(entries),
        0 <= i < entries.len(),
        entries[i].key == entry.key,
    ensures
        entries_by_key(entries.update(i, entry)) == entries_by_key(entries).insert(
            entry.key,
            entry.account,
        ),
    decreases entries.len(),
{
    let updated = entries.update(i, entry);
    if i == entries.len() - 1 {
        assert(updated.drop_last() =~= entries.drop_last());
        assert(entries_by_key(updated) =~= entries_by_key(entries).insert(entry.key, entry.account));
    } else {
        assert(updated.drop_last() =~= entries.drop_last().update(i, entry));
        assert(entries.drop_last()[i] == entries[i]);
        lemma_replaced_entry(entries.drop_last(), i, entry);
        assert(entries.last().key != entry.key);
        assert(entries_by_key(updated) =~= entries_by_key(entries).insert(entry.key, entry.account));
    }
}

impl View for AccountMap {
    type V = Map<Pubkey, Account>;

    closed spec fn view(&self) -> Map<Pubkey, Account> {
        entries_by_key(self.entries@)
    }
}

impl AccountMap {
    #[verifier::type_invariant]
    spec fn keys_are_distinct(self) -> bool {
        keys_distinct(self.entries@)
    }

    /// A map without accounts.
    pub fn new() -> (map: Self)
        ensures
            map@ == Map::<Pubkey, Account>::empty(),
    {
        AccountMap { entries: Vec::new() }
    }

    /// Where an address stands among the entries.
    fn position(&self, key: &Pubkey) -> (place: Option<usize>)
        ensures
            match place {
                Some(i) => i < self.entries@.len() && self.entries@[i as int].key == *key,
                None => forall|j: int| 0 <= j < self.entries@.len() ==> self.entries@[j].key != *key,
            },
    {
        let mut i: usize = 0;
        while i < self.entries.len()
            invariant
                i <= self.entries@.len(),
                forall|j: int| 0 <= j < i ==> self.entries@[j].key != *key,
            decreases self.entries@.len() - i,
        {
            if self.entries[i].key == *key {
                return Some(i);
            }
            i = i + 1;
        }
        None
    }

    /// Puts an account at an address, in place of one that was there.
    pub fn insert(&mut self, key: Pubkey, account: Account)
        ensures
            final(self)@ == old(self)@.insert(key, account),
    {
        proof {
            use_type_invariant(&*self);
        }
        let place = self.position(&key);
        let mut entries: Vec<KeyedAccount> = Vec::new();
        std::mem::swap(&mut entries, &mut self.entries);
        let ghost before = entries@;
        let entry = KeyedAccount { key, account };
        match place {
            Some(i) => {
                proof {
                    lemma_replaced_entry(before, i as int, entry);
                }
                entries.set(i, entry);
            },
            None => {
                entries.push(entry);
                proof {
                    assert(entries@.drop_last() =~= before);
                }
            },
        }
        self.entries = entries;
    }

    /// The account at an address.
    pub fn get(&self, key: &Pubkey) -> (account: Option<&Account>)
        ensures
            match account {
                Some(found) => self@.contains_key(*key) && self@[*key] == *found,
                None => !self@.contains_key(*key),
            },
    {
        proof {
            use_type_invariant(self);
        }
        match self.position(key) {
            Some(i) => {
                proof {
                    lemma_entry_in_map(self.entries@, i as int);
                }
                Some(&self.entries[i].account)
            },
            None => {
                proof {
                    lemma_no_entry_no_key(self.entries@, *key);
                }
                None
            },
        }
    }
}

impl Default for AccountMap {
    fn default() -> (map: Self)
        ensures
            map@ == Map::<Pubkey, Account>::empty(),
    {
        AccountMap::new()
    }
}

} // verus!
