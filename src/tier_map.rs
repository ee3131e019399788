use vstd::prelude::*;

use crate::account::{Account, AccountView};
use crate::address::Address;

verus! {

/// One stored account and the address it is stored under.
struct Entry {
    address: Address,
    account: Account,
}

/// A map from addresses to accounts: one tier of the store.
///
/// The entries hold each address at most once; `contents` is the map they
/// stand for.
pub struct TierMap {
    entries: Vec<Entry>,
    contents: Ghost<Map<Seq<u8>, AccountView>>,
}

impl View for TierMap {
    type V = Map<Seq<u8>, AccountView>;

    closed spec fn view(&self) -> Map<Seq<u8>, AccountView> {
        self.contents@
    }
}

impl TierMap {
    /// The entries hold distinct addresses and stand exactly for the view.
    pub closed spec fn well_formed(&self) -> bool {
        &&& forall|i: int, j: int|
            0 <= i < self.entries@.len() && 0 <= j < self.entries@.len() && i != j
                ==> self.entries@[i].address@ != self.entries@[j].address@
        &&& forall|i: int|
            0 <= i < self.entries@.len() ==> {
                &&& self.contents@.contains_key(#[trigger] self.entries@[i].address@)
                &&& self.contents@[self.entries@[i].address@] == self.entries@[i].account@
            }
        &&& forall|k: Seq<u8>|
            #[trigger] self.contents@.contains_key(k) ==> exists|i: int|
                0 <= i < self.entries@.len() && self.entries@[i].address@ == k
    }

    pub fn new() -> (r: TierMap)
        ensures
            r.well_formed(),
            r@ == Map::<Seq<u8>, AccountView>::empty(),
    {
        TierMap { entries: Vec::new(), contents: Ghost(Map::empty()) }
    }

    /// The position of `address` among the entries, if it is stored.
    fn find(&self, address: &Address) -> (r: Option<usize>)
        requires
            self.well_formed(),
        ensures
            match r {
                Some(i) => i < self.entries@.len() && self.entries@[i as int].address@ == address@,
                None => !self@.contains_key(address@),
            },
    {
        let mut i: usize = 0;
        while i < self.entries.len()
            invariant
                0 <= i <= self.entries@.len(),
                forall|j: int| 0 <= j < i ==> self.entries@[j].address@ != address@,
            decreases self.entries@.len() - i,
        {
            if self.entries[i].address.same_as(address) {
                return Some(i);
            }
            i = i + 1;
        }
        Option::None
    }

    /// The account stored under `address`, if any.
    pub fn get(&self, address: &Address) -> (r: Option<Account>)
        requires
            self.well_formed(),
        ensures
            match r {
                Some(a) => self@.contains_key(address@) && a@ == self@[address@],
                None => !self@.contains_key(address@),
            },
    {
        match self.find(address) {
            Some(i) => Some(self.entries[i].account.clone()),
            None => Option::None,
        }
    }

    /// Whether an account is stored under `address`.
    pub fn contains(&self, address: &Address) -> (r: bool)
        requires
            self.well_formed(),
        ensures
            r == self@.contains_key(address@),
    {
        self.find(address).is_some()
    }

    /// Stores `account` under `address`, replacing what was there.
    pub fn insert(&mut self, address: &Address, account: Account)
        requires
            old(self).well_formed(),
        ensures
            final(self).well_formed(),
            final(self)@ == old(self)@.insert(address@, account@),
    {
        let ghost new_contents = self.contents@.insert(address@, account@);
        match self.find(address) {
            Some(i) => {
                let ghost before = self.entries@;
                self.entries.set(i, Entry { address: *address, account });
                self.contents = Ghost(new_contents);
                assert forall|k: Seq<u8>| #[trigger] self.contents@.contains_key(k) implies exists|j: int|
                    0 <= j < self.entries@.len() && self.entries@[j].address@ == k by {
                    if k != address@ {
                        assert(old(self).contents@.contains_key(k));
                        let j = choose|j: int| 0 <= j < before.len() && before[j].address@ == k;
                        assert(self.entries@[j].address@ == k);
                    } else {
                        assert(self.entries@[i as int].address@ == k);
                    }
                }
            },
            None => {
                let ghost before = self.entries@;
                self.entries.push(Entry { address: *address, account });
                self.contents = Ghost(new_contents);
                assert forall|k: Seq<u8>| #[trigger] self.contents@.contains_key(k) implies exists|j: int|
                    0 <= j < self.entries@.len() && self.entries@[j].address@ == k by {
                    if k != address@ {
                        assert(old(self).contents@.contains_key(k));
                        let j = choose|j: int| 0 <= j < before.len() && before[j].address@ == k;
                        assert(self.entries@[j].address@ == k);
                    } else {
                        assert(self.entries@[before.len() as int].address@ == k);
                    }
                }
            },
        }
    }

    /// Removes every entry.
    pub fn clear(&mut self)
        ensures
            final(self).well_formed(),
            final(self)@ == Map::<Seq<u8>, AccountView>::empty(),
    {
        self.entries = Vec::new();
        self.contents = Ghost(Map::empty());
    }
}

} // verus!
