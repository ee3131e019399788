use vstd::prelude::*;

use crate::account::{Account, AccountView};
use crate::address::{
    clock_address, clock_sysvar_id, sysvar_owner, sysvar_owner_id, system_program, system_program_id,
    Address,
};
use crate::clock::{
    advanced_timestamp, clamp_i64, clock_bytes, clock_from_bytes, decode_clock, encode_clock,
    lemma_clock_round_trip, saturating_add_i64, Clock,
};
use crate::tier_map::TierMap;
use crate::tracker::SysvarTracker;

verus! {

/// A required system value could not be read: a setup defect of the harness.
#[derive(Clone, Copy, Debug, PartialEq, Eq, Structural)]
pub enum SysvarError {
    /// No system value is stored under the requested address.
    Missing,
    /// The stored payload is too short to hold the requested value.
    Corrupt,
}

/// The balance of the payer a harness starts with.
pub const PAYER_LAMPORTS: u64 = 500_000_000_000_000_000;

/// The account of the payer a harness starts with: empty, owned by the
/// system program.
pub open spec fn payer_account() -> AccountView {
    AccountView {
        lamports: PAYER_LAMPORTS,
        data: Seq::empty(),
        owner: system_program_id(),
        executable: false,
        rent_epoch: 0,
    }
}

/// The clock a harness starts with: every field zero but the time, the
/// wall-clock second `now`.
pub open spec fn initial_clock(now: u64) -> Clock {
    Clock {
        slot: 0,
        epoch_start_timestamp: 0,
        epoch: 0,
        leader_schedule_epoch: 0,
        unix_timestamp: clamp_i64(now as int),
    }
}

/// What the execution engine reports for one transaction.
pub enum ExecutionOutcome {
    /// The transaction ran: whether it succeeded, and the accounts it left.
    Executed { succeeded: bool, accounts: Vec<(Address, Account)> },
    /// The transaction was charged its fee and did not run.
    FeesOnly,
}

/// The mathematical value of the store: its four tiers and the clock checkpoint.
pub struct StoreView {
    pub ephemeral: Map<Seq<u8>, AccountView>,
    pub durable: Map<Seq<u8>, AccountView>,
    pub program: Map<Seq<u8>, AccountView>,
    pub system: Map<Seq<u8>, AccountView>,
    pub checkpoint: u64,
}

/// The account a lookup of `k` sees: the first tier holding `k`, in the
/// order ephemeral, durable, program, system value.
pub open spec fn resolve(v: StoreView, k: Seq<u8>) -> Option<AccountView> {
    if v.ephemeral.contains_key(k) {
        Some(v.ephemeral[k])
    } else if v.durable.contains_key(k) {
        Some(v.durable[k])
    } else if v.program.contains_key(k) {
        Some(v.program[k])
    } else if v.system.contains_key(k) {
        Some(v.system[k])
    } else {
        None
    }
}

/// The account a system value is stored as.
pub open spec fn sysvar_account(data: Seq<u8>) -> AccountView {
    AccountView { lamports: 1, data, owner: sysvar_owner_id(), executable: false, rent_epoch: 0 }
}

/// The clock held in the system-value tier, if its payload is long enough.
pub open spec fn stored_clock(v: StoreView) -> Option<Clock> {
    let id = clock_sysvar_id();
    if v.system.contains_key(id) && v.system[id].data.len() >= 40 {
        Some(clock_from_bytes(v.system[id].data))
    } else {
        None
    }
}

/// Why the store holds no readable clock: none is stored, or its payload is
/// too short.
pub open spec fn clock_error(v: StoreView) -> SysvarError {
    if v.system.contains_key(clock_sysvar_id()) {
        SysvarError::Corrupt
    } else {
        SysvarError::Missing
    }
}

/// `c` advanced by the wall-clock seconds from `checkpoint` to `now`.
pub open spec fn lazy_read(c: Clock, checkpoint: u64, now: u64) -> Clock {
    Clock { unix_timestamp: advanced_timestamp(c.unix_timestamp, checkpoint, now), ..c }
}

/// The store after a system value with payload `data` is written under `k` at `now`.
pub open spec fn with_sysvar(v: StoreView, k: Seq<u8>, data: Seq<u8>, now: u64) -> StoreView {
    StoreView {
        system: v.system.insert(k, sysvar_account(data)),
        checkpoint: if k == clock_sysvar_id() {
            now
        } else {
            v.checkpoint
        },
        ..v
    }
}

/// The store after the clock `c` is written at `now`.
pub open spec fn with_clock(v: StoreView, c: Clock, now: u64) -> StoreView {
    with_sysvar(v, clock_sysvar_id(), clock_bytes(c), now)
}

/// The store after its clock is materialised at `now`; unchanged when it
/// holds no readable clock.
pub open spec fn materialized(v: StoreView, now: u64) -> StoreView {
    match stored_clock(v) {
        Some(c) => with_clock(v, lazy_read(c, v.checkpoint, now), now),
        None => v,
    }
}

/// The store after the clock, as read at `now`, is moved by `seconds`.
pub open spec fn forwarded(v: StoreView, seconds: i64, now: u64) -> StoreView {
    match stored_clock(v) {
        Some(c) => {
            let read = lazy_read(c, v.checkpoint, now);
            with_clock(
                materialized(v, now),
                Clock { unix_timestamp: clamp_i64(read.unix_timestamp + seconds), ..read },
                now,
            )
        },
        None => v,
    }
}

/// The store after the clock, as read at `now`, is set to the time `timestamp`.
pub open spec fn warped(v: StoreView, timestamp: i64, now: u64) -> StoreView {
    match stored_clock(v) {
        Some(c) => {
            let read = lazy_read(c, v.checkpoint, now);
            with_clock(materialized(v, now), Clock { unix_timestamp: timestamp, ..read }, now)
        },
        None => v,
    }
}

/// The store after a lookup of `k` at `now`: only a lookup that reaches the
/// system-value tier for the clock address materialises the clock.
pub open spec fn after_lookup(v: StoreView, k: Seq<u8>, now: u64) -> StoreView {
    if k == clock_sysvar_id() && !v.ephemeral.contains_key(k) && !v.durable.contains_key(k)
        && !v.program.contains_key(k) {
        materialized(v, now)
    } else {
        v
    }
}

/// The store with its ephemeral tier emptied.
pub open spec fn reset_ephemeral(v: StoreView) -> StoreView {
    StoreView { ephemeral: Map::empty(), ..v }
}

/// Whether settlement leaves a delta alone: executable accounts and accounts
/// owned by the system-value owner.
pub open spec fn excluded_from_settlement(a: AccountView) -> bool {
    a.executable || a.owner == sysvar_owner_id()
}

/// The store after one settlement delta: durable if the address is durable
/// already, ephemeral otherwise; excluded deltas are dropped.
pub open spec fn settle_one(v: StoreView, k: Seq<u8>, a: AccountView) -> StoreView {
    if excluded_from_settlement(a) {
        v
    } else if v.durable.contains_key(k) {
        StoreView { durable: v.durable.insert(k, a), ..v }
    } else {
        StoreView { ephemeral: v.ephemeral.insert(k, a), ..v }
    }
}

/// The store after the deltas `ds` are settled in order.
pub open spec fn settled(v: StoreView, ds: Seq<(Seq<u8>, AccountView)>) -> StoreView
    decreases ds.len(),
{
    if ds.len() == 0 {
        v
    } else {
        let last = ds.last();
        settle_one(settled(v, ds.drop_last()), last.0, last.1)
    }
}

/// The mathematical value of a batch of deltas.
pub open spec fn delta_views(ds: Seq<(Address, Account)>) -> Seq<(Seq<u8>, AccountView)> {
    ds.map_values(|d: (Address, Account)| (d.0@, d.1@))
}

/// The ledger-state store: four tiers of accounts and the clock checkpoint.
pub struct AccountsDB {
    accounts: TierMap,
    permanent_accounts: TierMap,
    programs: TierMap,
    sysvars: TierMap,
    pub sysvar_tracker: SysvarTracker,
}

impl View for AccountsDB {
    type V = StoreView;

    closed spec fn view(&self) -> StoreView {
        StoreView {
            ephemeral: self.accounts@,
            durable: self.permanent_accounts@,
            program: self.programs@,
            system: self.sysvars@,
            checkpoint: self.sysvar_tracker.last_clock_update,
        }
    }
}

impl Default for AccountsDB {
    fn default() -> (r: AccountsDB)
        ensures
            r.well_formed(),
            r@.ephemeral == Map::<Seq<u8>, AccountView>::empty(),
            r@.durable == Map::<Seq<u8>, AccountView>::empty(),
            r@.program == Map::<Seq<u8>, AccountView>::empty(),
            r@.system == Map::<Seq<u8>, AccountView>::empty(),
            r@.checkpoint == 0,
    {
        AccountsDB::new()
    }
}

impl AccountsDB {
    pub closed spec fn well_formed(&self) -> bool {
        &&& self.accounts.well_formed()
        &&& self.permanent_accounts.well_formed()
        &&& self.programs.well_formed()
        &&& self.sysvars.well_formed()
    }

    /// An empty store whose clock checkpoint is zero.
    pub fn new() -> (r: AccountsDB)
        ensures
            r.well_formed(),
            r@.ephemeral == Map::<Seq<u8>, AccountView>::empty(),
            r@.durable == Map::<Seq<u8>, AccountView>::empty(),
            r@.program == Map::<Seq<u8>, AccountView>::empty(),
            r@.system == Map::<Seq<u8>, AccountView>::empty(),
            r@.checkpoint == 0,
    {
        AccountsDB {
            accounts: TierMap::new(),
            permanent_accounts: TierMap::new(),
            programs: TierMap::new(),
            sysvars: TierMap::new(),
            sysvar_tracker: SysvarTracker::new(),
        }
    }

    /// A store for a new harness: the payer funded in the durable tier, and
    /// the clock set to the wall-clock second `now`, with the checkpoint there.
    pub fn seeded(payer: &Address, now: u64) -> (r: AccountsDB)
        ensures
            r.well_formed(),
            r@.ephemeral == Map::<Seq<u8>, AccountView>::empty(),
            r@.durable == Map::<Seq<u8>, AccountView>::empty().insert(payer@, payer_account()),
            r@.program == Map::<Seq<u8>, AccountView>::empty(),
            r@.system == Map::<Seq<u8>, AccountView>::empty().insert(
                clock_sysvar_id(),
                sysvar_account(clock_bytes(initial_clock(now))),
            ),
            r@.checkpoint == now,
    {
        let mut db = AccountsDB::new();
        let empty: Vec<u8> = Vec::new();
        assert(empty@ =~= Seq::<u8>::empty());
        let funded = Account::new(PAYER_LAMPORTS, empty, system_program(), false, 0);
        db.set_permanent_account(payer, &funded);
        let time: i64 = if now > i64::MAX as u64 {
            i64::MAX
        } else {
            now as i64
        };
        let clock = Clock { slot: 0, epoch_start_timestamp: 0, epoch: 0, leader_schedule_epoch: 0, unix_timestamp: time };
        db.set_clock(&clock, now);
        assert(db@.durable =~= Map::<Seq<u8>, AccountView>::empty().insert(payer@, payer_account()));
        db
    }

    pub fn get_temporary_account(&self, pubkey: &Address) -> (r: Option<Account>)
        requires
            self.well_formed(),
        ensures
            r matches Some(a) ==> self@.ephemeral.contains_key(pubkey@) && a@ == self@.ephemeral[pubkey@],
            r is None ==> !self@.ephemeral.contains_key(pubkey@),
    {
        self.accounts.get(pubkey)
    }

    pub fn get_permanent_account(&self, pubkey: &Address) -> (r: Option<Account>)
        requires
            self.well_formed(),
        ensures
            r matches Some(a) ==> self@.durable.contains_key(pubkey@) && a@ == self@.durable[pubkey@],
            r is None ==> !self@.durable.contains_key(pubkey@),
    {
        self.permanent_accounts.get(pubkey)
    }

    pub fn get_program(&self, pubkey: &Address) -> (r: Option<Account>)
        requires
            self.well_formed(),
        ensures
            r matches Some(a) ==> self@.program.contains_key(pubkey@) && a@ == self@.program[pubkey@],
            r is None ==> !self@.program.contains_key(pubkey@),
    {
        self.programs.get(pubkey)
    }

    pub fn get_sysvar_account(&self, pubkey: &Address) -> (r: Option<Account>)
        requires
            self.well_formed(),
        ensures
            r matches Some(a) ==> self@.system.contains_key(pubkey@) && a@ == self@.system[pubkey@],
            r is None ==> !self@.system.contains_key(pubkey@),
    {
        self.sysvars.get(pubkey)
    }

    pub fn set_temporary_account(&mut self, pubkey: &Address, account: &Account)
        requires
            old(self).well_formed(),
        ensures
            final(self).well_formed(),
            final(self)@ == (StoreView {
                ephemeral: old(self)@.ephemeral.insert(pubkey@, account@),
                ..old(self)@
            }),
    {
        self.accounts.insert(pubkey, account.clone());
    }

    pub fn set_permanent_account(&mut self, pubkey: &Address, account: &Account)
        requires
            old(self).well_formed(),
        ensures
            final(self).well_formed(),
            final(self)@ == (StoreView {
                durable: old(self)@.durable.insert(pubkey@, account@),
                ..old(self)@
            }),
    {
        self.permanent_accounts.insert(pubkey, account.clone());
    }

    pub fn set_program(&mut self, pubkey: &Address, account: &Account)
        requires
            old(self).well_formed(),
        ensures
            final(self).well_formed(),
            final(self)@ == (StoreView {
                program: old(self)@.program.insert(pubkey@, account@),
                ..old(self)@
            }),
    {
        self.programs.insert(pubkey, account.clone());
    }

    /// Writes the system value `id` with the encoded payload `data`, as an
    /// account of one lamport owned by the system-value owner. Writing the
    /// clock moves the clock checkpoint to `now` and leaves its time alone.
    pub fn set_sysvar(&mut self, id: &Address, data: Vec<u8>, now: u64)
        requires
            old(self).well_formed(),
        ensures
            final(self).well_formed(),
            final(self)@ == with_sysvar(old(self)@, id@, data@, now),
    {
        let account = Account::new(1, data, sysvar_owner(), false, 0);
        self.sysvars.insert(id, account);
        if id.same_as(&clock_address()) {
            self.sysvar_tracker.refresh_last_clock_update(now);
        }
    }

    /// Writes the clock system value and moves the clock checkpoint to `now`.
    pub fn set_clock(&mut self, clock: &Clock, now: u64)
        requires
            old(self).well_formed(),
        ensures
            final(self).well_formed(),
            final(self)@ == with_clock(old(self)@, *clock, now),
    {
        let data = encode_clock(clock);
        self.set_sysvar(&clock_address(), data, now);
    }

    /// Materialises the clock at `now`: advances its time by the seconds
    /// elapsed since the checkpoint, stores it, and moves the checkpoint.
    pub fn update_clock(&mut self, now: u64) -> (r: Result<(), SysvarError>)
        requires
            old(self).well_formed(),
        ensures
            final(self).well_formed(),
            final(self)@ == materialized(old(self)@, now),
            r == (if stored_clock(old(self)@) is Some {
                Ok(())
            } else {
                Err(clock_error(old(self)@))
            }),
    {
        let id = clock_address();
        let stored = self.sysvars.get(&id);
        match stored {
            None => Err(SysvarError::Missing),
            Some(account) => {
                match decode_clock(account.data.as_slice()) {
                    None => Err(SysvarError::Corrupt),
                    Some(c) => {
                        let mut clock = c;
                        self.sysvar_tracker.refresh_with_clock(&mut clock, now);
                        self.set_clock(&clock, now);
                        Ok(())
                    },
                }
            },
        }
    }

    /// Reads the clock system value, materialising it at `now` first.
    pub fn get_clock(&mut self, now: u64) -> (r: Result<Clock, SysvarError>)
        requires
            old(self).well_formed(),
        ensures
            final(self).well_formed(),
            final(self)@ == materialized(old(self)@, now),
            r == (match stored_clock(old(self)@) {
                Some(c) => Ok(lazy_read(c, old(self)@.checkpoint, now)),
                None => Err(clock_error(old(self)@)),
            }),
    {
        match self.update_clock(now) {
            Err(e) => Err(e),
            Ok(()) => {
                let ghost c = stored_clock(old(self)@)->Some_0;
                proof {
                    lemma_clock_round_trip(lazy_read(c, old(self)@.checkpoint, now));
                }
                let id = clock_address();
                match self.sysvars.get(&id) {
                    Some(account) => match decode_clock(account.data.as_slice()) {
                        Some(clock) => Ok(clock),
                        None => Err(SysvarError::Corrupt),
                    },
                    None => Err(SysvarError::Missing),
                }
            },
        }
    }

    /// The payload of the system value `id`, the clock materialised at `now`
    /// first when `id` is the clock's address.
    pub fn get_sysvar(&mut self, id: &Address, now: u64) -> (r: Result<Vec<u8>, SysvarError>)
        requires
            old(self).well_formed(),
        ensures
            final(self).well_formed(),
            final(self)@ == (if id@ == clock_sysvar_id() {
                materialized(old(self)@, now)
            } else {
                old(self)@
            }),
            r matches Ok(data) ==> final(self)@.system.contains_key(id@)
                && data@ == final(self)@.system[id@].data,
            r is Err ==> r == Err::<Vec<u8>, SysvarError>(SysvarError::Missing)
                && !final(self)@.system.contains_key(id@),
    {
        if id.same_as(&clock_address()) {
            let _ = self.update_clock(now);
        }
        match self.sysvars.get(id) {
            Some(account) => Ok(account.data),
            None => Err(SysvarError::Missing),
        }
    }

    /// The account under `pubkey` in the first tier that holds it, in the
    /// order ephemeral, durable, program, system value. A lookup that reaches
    /// the system-value tier for the clock materialises the clock at `now`.
    pub fn get_account(&mut self, pubkey: &Address, now: u64) -> (r: Option<Account>)
        requires
            old(self).well_formed(),
        ensures
            final(self).well_formed(),
            final(self)@ == after_lookup(old(self)@, pubkey@, now),
            r matches Some(a) ==> resolve(final(self)@, pubkey@) == Some(a@),
            r is None ==> resolve(final(self)@, pubkey@) is None,
    {
        if let Some(account) = self.get_temporary_account(pubkey) {
            Some(account)
        } else if let Some(account) = self.get_permanent_account(pubkey) {
            Some(account)
        } else if let Some(account) = self.get_program(pubkey) {
            Some(account)
        } else {
            if pubkey.same_as(&clock_address()) {
                let _ = self.update_clock(now);
            }
            self.get_sysvar_account(pubkey)
        }
    }

    /// The position in `owners` of the owner of the account that a lookup of
    /// `pubkey` at `now` sees; `None` if there is no such account or its
    /// owner is not listed.
    pub fn account_matches_owners(&mut self, pubkey: &Address, owners: &Vec<Address>, now: u64)
        -> (r: Option<usize>)
        requires
            old(self).well_formed(),
        ensures
            final(self).well_formed(),
            final(self)@ == after_lookup(old(self)@, pubkey@, now),
            match resolve(final(self)@, pubkey@) {
                None => r is None,
                Some(a) => match r {
                    Some(i) => i < owners@.len() && owners@[i as int]@ == a.owner
                        && forall|j: int| 0 <= j < i ==> owners@[j]@ != a.owner,
                    None => forall|j: int| 0 <= j < owners@.len() ==> owners@[j]@ != a.owner,
                },
            },
    {
        match self.get_account(pubkey, now) {
            None => Option::None,
            Some(account) => {
                let mut i: usize = 0;
                while i < owners.len()
                    invariant
                        0 <= i <= owners@.len(),
                        self.well_formed(),
                        self@ == after_lookup(old(self)@, pubkey@, now),
                        resolve(self@, pubkey@) == Some(account@),
                        forall|j: int| 0 <= j < i ==> owners@[j]@ != account.owner@,
                    decreases owners@.len() - i,
                {
                    if owners[i].same_as(&account.owner) {
                        return Some(i);
                    }
                    i = i + 1;
                }
                Option::None
            },
        }
    }

    /// Empties the ephemeral tier; the other tiers and the checkpoint stay.
    pub fn reset_temp(&mut self)
        requires
            old(self).well_formed(),
        ensures
            final(self).well_formed(),
            final(self)@ == reset_ephemeral(old(self)@),
    {
        self.accounts.clear();
    }

    /// Moves the clock by `seconds` (back when negative, saturating at the
    /// bounds of `i64`) from its time as read at `now`, and moves the
    /// checkpoint to `now`.
    pub fn forward_in_time(&mut self, seconds: i64, now: u64) -> (r: Result<(), SysvarError>)
        requires
            old(self).well_formed(),
        ensures
            final(self).well_formed(),
            final(self)@ == forwarded(old(self)@, seconds, now),
            r == (if stored_clock(old(self)@) is Some {
                Ok(())
            } else {
                Err(clock_error(old(self)@))
            }),
    {
        match self.get_clock(now) {
            Err(e) => Err(e),
            Ok(c) => {
                let mut clock = c;
                clock.unix_timestamp = saturating_add_i64(clock.unix_timestamp, seconds);
                self.set_clock(&clock, now);
                Ok(())
            },
        }
    }

    /// Sets the clock's time to `timestamp` (its other fields as read at
    /// `now`), and moves the checkpoint to `now`.
    pub fn warp_to_timestamp(&mut self, timestamp: i64, now: u64) -> (r: Result<(), SysvarError>)
        requires
            old(self).well_formed(),
        ensures
            final(self).well_formed(),
            final(self)@ == warped(old(self)@, timestamp, now),
            r == (if stored_clock(old(self)@) is Some {
                Ok(())
            } else {
                Err(clock_error(old(self)@))
            }),
    {
        match self.get_clock(now) {
            Err(e) => Err(e),
            Ok(c) => {
                let mut clock = c;
                clock.unix_timestamp = timestamp;
                self.set_clock(&clock, now);
                Ok(())
            },
        }
    }

    /// Writes `account` to the durable tier when `permanent`, else to the
    /// ephemeral tier.
    pub fn set_account(&mut self, pubkey: &Address, account: &Account, permanent: bool)
        requires
            old(self).well_formed(),
        ensures
            final(self).well_formed(),
            final(self)@ == (if permanent {
                StoreView { durable: old(self)@.durable.insert(pubkey@, account@), ..old(self)@ }
            } else {
                StoreView { ephemeral: old(self)@.ephemeral.insert(pubkey@, account@), ..old(self)@ }
            }),
    {
        if permanent {
            self.set_permanent_account(pubkey, account);
        } else {
            self.set_temporary_account(pubkey, account);
        }
    }

    /// Writes back the accounts an execution left behind, in order. A delta
    /// for an executable account or one owned by the system-value owner is
    /// dropped; any other goes to the durable tier if its address is durable
    /// already, else to the ephemeral tier.
    pub fn settle_accounts(&mut self, accounts: &Vec<(Address, Account)>)
        requires
            old(self).well_formed(),
        ensures
            final(self).well_formed(),
            final(self)@ == settled(old(self)@, delta_views(accounts@)),
    {
        let owner = sysvar_owner();
        let mut i: usize = 0;
        while i < accounts.len()
            invariant
                0 <= i <= accounts@.len(),
                self.well_formed(),
                owner@ == sysvar_owner_id(),
                self@ == settled(old(self)@, delta_views(accounts@.subrange(0, i as int))),
            decreases accounts@.len() - i,
        {
            let (address, account) = (&accounts[i].0, &accounts[i].1);
            proof {
                let ds = delta_views(accounts@.subrange(0, i + 1));
                assert(ds.drop_last() =~= delta_views(accounts@.subrange(0, i as int)));
                assert(ds.last() == (address@, account@));
            }
            if !account.executable && !account.owner.same_as(&owner) {
                if self.permanent_accounts.contains(address) {
                    self.set_permanent_account(address, account);
                } else {
                    self.set_temporary_account(address, account);
                }
            }
            i = i + 1;
        }
        assert(accounts@.subrange(0, accounts@.len() as int) =~= accounts@);
    }

    /// Closes one transaction: materialises the clock at `now`, then settles
    /// the accounts the transaction left if it ran and succeeded. A failed or
    /// fee-only transaction leaves the tiers as they were.
    pub fn settle_execution(&mut self, outcome: &ExecutionOutcome, now: u64)
        requires
            old(self).well_formed(),
        ensures
            final(self).well_formed(),
            final(self)@ == (match outcome {
                ExecutionOutcome::Executed { succeeded: true, accounts } => settled(
                    materialized(old(self)@, now),
                    delta_views(accounts@),
                ),
                _ => materialized(old(self)@, now),
            }),
    {
        let _ = self.update_clock(now);
        match outcome {
            ExecutionOutcome::Executed { succeeded, accounts } => {
                if *succeeded {
                    self.settle_accounts(accounts);
                }
            },
            ExecutionOutcome::FeesOnly => {},
        }
    }
}

/// A lookup of an address that only the ephemeral tier held finds nothing
/// once that tier has been reset.
pub proof fn lemma_reset_forgets_ephemeral_only(v: StoreView, k: Seq<u8>, now: u64)
    requires
        v.ephemeral.contains_key(k),
        !v.durable.contains_key(k),
        !v.program.contains_key(k),
        !v.system.contains_key(k),
    ensures
        resolve(after_lookup(reset_ephemeral(v), k, now), k) is None,
{
}

/// A lookup of an address held by both the ephemeral and the durable tier
/// sees the ephemeral account, and changes nothing.
pub proof fn lemma_ephemeral_shadows_durable(v: StoreView, k: Seq<u8>, now: u64)
    requires
        v.ephemeral.contains_key(k),
        v.durable.contains_key(k),
    ensures
        after_lookup(v, k, now) == v,
        resolve(after_lookup(v, k, now), k) == Some(v.ephemeral[k]),
{
}

/// Materialising the clock stores the time it reads and moves the
/// checkpoint to the time of the read.
pub proof fn lemma_materialized_clock(v: StoreView, c: Clock, now: u64)
    requires
        stored_clock(v) == Some(c),
    ensures
        stored_clock(materialized(v, now)) == Some(lazy_read(c, v.checkpoint, now)),
        materialized(v, now).checkpoint == now,
{
    lemma_clock_round_trip(lazy_read(c, v.checkpoint, now));
}

/// Two lazy reads of the clock, the second at a wall-clock time no earlier
/// than the first, return non-decreasing times.
pub proof fn lemma_clock_reads_monotonic(v: StoreView, c: Clock, now1: u64, now2: u64)
    requires
        stored_clock(v) == Some(c),
        now1 <= now2,
    ensures
        ({
            let first = lazy_read(c, v.checkpoint, now1);
            let v1 = materialized(v, now1);
            &&& stored_clock(v1) == Some(first)
            &&& first.unix_timestamp <= lazy_read(first, v1.checkpoint, now2).unix_timestamp
        }),
{
    lemma_materialized_clock(v, c, now1);
}

/// Two lazy reads of the clock within the same wall-clock second return the
/// same clock.
pub proof fn lemma_clock_reads_idempotent(v: StoreView, c: Clock, now: u64)
    requires
        stored_clock(v) == Some(c),
    ensures
        ({
            let first = lazy_read(c, v.checkpoint, now);
            let v1 = materialized(v, now);
            &&& stored_clock(v1) == Some(first)
            &&& lazy_read(first, v1.checkpoint, now) == first
        }),
{
    lemma_materialized_clock(v, c, now);
}

/// Moving the clock by `seconds` and then reading it within the same
/// wall-clock second returns the time it had then, plus `seconds`.
pub proof fn lemma_forward_then_read(v: StoreView, c: Clock, seconds: i64, now: u64)
    requires
        stored_clock(v) == Some(c),
    ensures
        ({
            let before = lazy_read(c, v.checkpoint, now);
            let after = forwarded(v, seconds, now);
            &&& stored_clock(after) is Some
            &&& lazy_read(stored_clock(after)->Some_0, after.checkpoint, now).unix_timestamp
                == clamp_i64(before.unix_timestamp + seconds)
        }),
{
    let read = lazy_read(c, v.checkpoint, now);
    lemma_clock_round_trip(Clock { unix_timestamp: clamp_i64(read.unix_timestamp + seconds), ..read });
}

/// Setting the clock to `timestamp` and then reading it returns `timestamp`
/// plus the wall-clock seconds elapsed since it was set.
pub proof fn lemma_warp_then_read(v: StoreView, c: Clock, timestamp: i64, now: u64, later: u64)
    requires
        stored_clock(v) == Some(c),
    ensures
        ({
            let after = warped(v, timestamp, now);
            &&& stored_clock(after) is Some
            &&& lazy_read(stored_clock(after)->Some_0, after.checkpoint, later).unix_timestamp
                == advanced_timestamp(timestamp, now, later)
        }),
{
    let read = lazy_read(c, v.checkpoint, now);
    lemma_clock_round_trip(Clock { unix_timestamp: timestamp, ..read });
}

/// Once an address is durable, settling any batch keeps it durable and
/// never writes it to the ephemeral tier.
pub proof fn lemma_settlement_keeps_durable(v: StoreView, ds: Seq<(Seq<u8>, AccountView)>, k: Seq<u8>)
    requires
        v.durable.contains_key(k),
    ensures
        settled(v, ds).durable.contains_key(k),
        settled(v, ds).ephemeral.contains_key(k) == v.ephemeral.contains_key(k),
        v.ephemeral.contains_key(k) ==> settled(v, ds).ephemeral[k] == v.ephemeral[k],
    decreases ds.len(),
{
    if ds.len() > 0 {
        lemma_settlement_keeps_durable(v, ds.drop_last(), k);
    }
}

/// A delta for an executable account, or for one owned by the system-value
/// owner, changes no tier wherever it stands in a batch: the batch settles
/// to the same store without it.
pub proof fn lemma_settlement_drops_excluded(
    v: StoreView,
    before: Seq<(Seq<u8>, AccountView)>,
    k: Seq<u8>,
    a: AccountView,
    after: Seq<(Seq<u8>, AccountView)>,
)
    requires
        excluded_from_settlement(a),
    ensures
        settled(v, before + seq![(k, a)] + after) == settled(v, before + after),
    decreases after.len(),
{
    let with = before + seq![(k, a)] + after;
    let without = before + after;
    if after.len() == 0 {
        assert(with.drop_last() =~= before);
        assert(without =~= before);
    } else {
        lemma_settlement_drops_excluded(v, before, k, a, after.drop_last());
        assert(with.drop_last() =~= before + seq![(k, a)] + after.drop_last());
        assert(without.drop_last() =~= before + after.drop_last());
        assert(with.last() == after.last());
        assert(without.last() == after.last());
    }
}

} // verus!
