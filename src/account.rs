use vstd::prelude::*;

use crate::address::Address;

verus! {

/// An account: balance, payload, owner, executable flag and rent epoch.
/// Every write to the store replaces a whole `Account`.
#[derive(Debug, PartialEq, Eq)]
pub struct Account {
    pub lamports: u64,
    pub data: Vec<u8>,
    pub owner: Address,
    pub executable: bool,
    pub rent_epoch: u64,
}

/// The mathematical value of an [`Account`].
pub struct AccountView {
    pub lamports: u64,
    pub data: Seq<u8>,
    pub owner: Seq<u8>,
    pub executable: bool,
    pub rent_epoch: u64,
}

impl View for Account {
    type V = AccountView;

    open spec fn view(&self) -> AccountView {
        AccountView {
            lamports: self.lamports,
            data: self.data@,
            owner: self.owner@,
            executable: self.executable,
            rent_epoch: self.rent_epoch,
        }
    }
}

impl Clone for Account {
    fn clone(&self) -> (r: Account)
        ensures
            r@ == self@,
    {
        let mut data: Vec<u8> = Vec::with_capacity(self.data.len());
        let mut i: usize = 0;
        while i < self.data.len()
            invariant
                0 <= i <= self.data@.len(),
                data@ == self.data@.subrange(0, i as int),
            decreases self.data@.len() - i,
        {
            data.push(self.data[i]);
            i = i + 1;
        }
        assert(data@ =~= self.data@);
        Account {
            lamports: self.lamports,
            data,
            owner: self.owner,
            executable: self.executable,
            rent_epoch: self.rent_epoch,
        }
    }
}

impl Account {
    pub fn new(lamports: u64, data: Vec<u8>, owner: Address, executable: bool, rent_epoch: u64) -> (r: Account)
        ensures
            r@ == (AccountView {
                lamports,
                data: data@,
                owner: owner@,
                executable,
                rent_epoch,
            }),
    {
        Account { lamports, data, owner, executable, rent_epoch }
    }
}

} // verus!
