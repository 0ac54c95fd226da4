//! The price oracle: a string-to-string store that only its owner writes.
use vstd::prelude::*;
use crate::AccountId;
use crate::table::Table;

verus! {

/// What the oracle answers for a key, given its stored values: the stored
/// text, or the empty text where nothing was stored.
pub open spec fn oracle_lookup(values: Map<Seq<char>, String>, key: Seq<char>) -> Seq<char> {
    if values.contains_key(key) {
        values[key]@
    } else {
        Seq::empty()
    }
}

/// The oracle contract's state.
pub struct Oracle {
    values: Table<String, String>,
    owner: AccountId,
}

impl Oracle {
    /// The state is well formed.
    pub closed spec fn wf(&self) -> bool {
        self.values.wf()
    }

    /// The stored values, by the text of their keys.
    pub closed spec fn values_view(&self) -> Map<Seq<char>, String> {
        self.values@
    }

    /// The account that may write values.
    pub closed spec fn owner_view(&self) -> AccountId {
        self.owner
    }

    /// A new oracle, owned by the account that instantiates it.
    pub fn new(caller: AccountId) -> (o: Self)
        ensures
            o.wf(),
            o.values_view() == Map::<Seq<char>, String>::empty(),
            o.owner_view() == caller,
    {
        Oracle { values: Table::new(), owner: caller }
    }

    /// The account that may write values.
    pub fn owner(&self) -> (r: AccountId)
        ensures
            r == self.owner_view(),
    {
        self.owner
    }

    /// The value stored under the key, or the empty string.
    pub fn get(&self, key: String) -> (r: String)
        requires
            self.wf(),
        ensures
            r@ == oracle_lookup(self.values_view(), key@),
    {
        match self.values.get(&key) {
            Some(v) => v.clone(),
            None => String::new(),
        }
    }

    /// Stores the value under the key. Only the owner may write: any other
    /// caller is refused (the contract panics), so that is left out here.
    pub fn set(&mut self, caller: AccountId, key: String, value: String)
        requires
            old(self).wf(),
            caller == old(self).owner_view(),
        ensures
            final(self).wf(),
            final(self).owner_view() == old(self).owner_view(),
            final(self).values_view() == old(self).values_view().insert(key@, value),
    {
        self.values.insert(key, value);
    }
}

/// A read gives back what the last write under the same key wrote, and a
/// write under one key leaves what every other key reads unchanged.
pub proof fn law_read_after_write(values: Map<Seq<char>, String>, key: Seq<char>, value: String, other: Seq<char>)
    ensures
        oracle_lookup(values.insert(key, value), key) == value@,
        other != key ==> oracle_lookup(values.insert(key, value), other) == oracle_lookup(values, other),
{
}

/// A key that was never written reads as the empty string.
pub proof fn law_unwritten_key_reads_empty(key: Seq<char>)
    ensures
        oracle_lookup(Map::<Seq<char>, String>::empty(), key) == Seq::<char>::empty(),
{
}

} // verus!
