use trident_svm::account::Account;
use trident_svm::accounts_db::{AccountsDB, ExecutionOutcome, SysvarError};
use trident_svm::address::{clock_address, sysvar_owner, system_program, Address};
use trident_svm::clock::{decode_clock, encode_clock, Clock};
use trident_svm::tracker::{get_current_timestamp, SysvarTracker};

const T0: u64 = 1_700_000_000;

fn addr(b: u8) -> Address {
    Address::new([b; 32])
}

fn user_account(lamports: u64) -> Account {
    Account::new(lamports, vec![1, 2, 3], addr(200), false, 0)
}

fn db_with_clock(clock: &Clock, now: u64) -> AccountsDB {
    let mut db = AccountsDB::new();
    db.set_clock(clock, now);
    db
}

#[test]
fn accounts_db_test_clock_update() {
    let mut db = db_with_clock(&Clock::default(), T0);
    let initial_timestamp = db.get_clock(T0).unwrap().unix_timestamp;
    let updated_clock = db.get_clock(T0 + 2).unwrap();
    assert!(updated_clock.unix_timestamp > initial_timestamp, "Clock timestamp should have increased");
    let diff = (updated_clock.unix_timestamp - initial_timestamp) as u64;
    assert!((1..=3).contains(&diff), "Clock update difference should be ~2 seconds, got {}", diff);
}

#[test]
fn sysvar_tracker_test_clock_update() {
    let mut db = db_with_clock(&Clock::default(), T0);
    let initial_timestamp = db.get_clock(T0).unwrap().unix_timestamp;
    let updated_clock = db.get_clock(T0 + 2).unwrap();
    assert!(updated_clock.unix_timestamp > initial_timestamp);
    let diff = (updated_clock.unix_timestamp - initial_timestamp) as u64;
    assert!((1..=3).contains(&diff));
}

#[test]
fn accounts_db_test_sysvar_tracker_updates() {
    let mut db = db_with_clock(&Clock::default(), T0);
    let initial_tracker_time = db.sysvar_tracker.last_clock_update;
    let _ = db.get_clock(T0 + 1).unwrap();
    assert!(
        db.sysvar_tracker.last_clock_update > initial_tracker_time,
        "SysvarTracker should have been updated"
    );
}

#[test]
fn sysvar_tracker_test_sysvar_tracker_updates() {
    let mut db = db_with_clock(&Clock::default(), T0);
    let initial_tracker_time = db.sysvar_tracker.last_clock_update;
    let _ = db.get_clock(T0 + 1).unwrap();
    assert!(db.sysvar_tracker.last_clock_update > initial_tracker_time);
}

fn multiple_clock_updates() {
    let initial_clock = Clock::default();
    let mut db = db_with_clock(&initial_clock, T0);
    let first_update = db.get_clock(T0 + 1).unwrap();
    let first_diff = (first_update.unix_timestamp - initial_clock.unix_timestamp) as u64;
    assert!((1..=2).contains(&first_diff), "First update difference should be ~1 second");
    let second_update = db.get_clock(T0 + 2).unwrap();
    let second_diff = (second_update.unix_timestamp - first_update.unix_timestamp) as u64;
    assert!((1..=2).contains(&second_diff), "Second update difference should be ~1 second");
    let total_diff = (second_update.unix_timestamp - initial_clock.unix_timestamp) as u64;
    assert!((2..=3).contains(&total_diff), "Total time difference should be ~2 seconds");
}

#[test]
fn accounts_db_test_multiple_clock_updates() {
    multiple_clock_updates();
}

#[test]
fn sysvar_tracker_test_multiple_clock_updates() {
    multiple_clock_updates();
}

fn time_manipulation(now: u64) {
    let mut db = db_with_clock(&Clock::default(), now);
    let clock = db.get_clock(now).unwrap();
    let initial_time = clock.unix_timestamp;

    db.forward_in_time(600, now).unwrap();
    let clock = db.get_clock(now).unwrap();
    assert_eq!(clock.unix_timestamp, initial_time + 600, "Clock should advance 600 seconds");

    db.warp_to_timestamp(500, now).unwrap();
    let clock = db.get_clock(now).unwrap();
    assert_eq!(clock.unix_timestamp, 500, "Clock should warp to timestamp 500");

    db.forward_in_time(-300, now).unwrap();
    let clock = db.get_clock(now).unwrap();
    assert_eq!(clock.unix_timestamp, 200, "Clock should go back 300 seconds from 500");
}

#[test]
fn accounts_db_test_time_manipulation() {
    time_manipulation(T0);
}

#[test]
fn sysvar_tracker_test_time_manipulation() {
    time_manipulation(get_current_timestamp());
}

#[test]
fn reset_forgets_ephemeral_only_address() {
    let mut db = AccountsDB::new();
    db.set_temporary_account(&addr(1), &user_account(10));
    assert_eq!(db.get_account(&addr(1), T0).map(|a| a.lamports), Some(10));
    db.reset_temp();
    assert!(db.get_account(&addr(1), T0).is_none());
    assert!(db.get_temporary_account(&addr(1)).is_none());
}

#[test]
fn reset_keeps_durable_program_and_system_tiers() {
    let mut db = db_with_clock(&Clock::default(), T0);
    db.set_permanent_account(&addr(2), &user_account(20));
    db.set_program(&addr(3), &user_account(30));
    db.set_temporary_account(&addr(2), &user_account(99));
    db.reset_temp();
    assert_eq!(db.get_account(&addr(2), T0).unwrap().lamports, 20);
    assert_eq!(db.get_account(&addr(3), T0).unwrap().lamports, 30);
    assert!(db.get_sysvar_account(&clock_address()).is_some());
}

#[test]
fn ephemeral_shadows_durable() {
    let mut db = AccountsDB::new();
    db.set_permanent_account(&addr(1), &user_account(100));
    db.set_temporary_account(&addr(1), &user_account(7));
    assert_eq!(db.get_account(&addr(1), T0).unwrap().lamports, 7);
    assert_eq!(db.get_permanent_account(&addr(1)).unwrap().lamports, 100);
}

#[test]
fn lookup_precedence_over_all_tiers() {
    let mut db = AccountsDB::new();
    let a = addr(9);
    db.set_sysvar(&a, vec![4], T0);
    assert_eq!(db.get_account(&a, T0).unwrap().data, vec![4]);
    db.set_program(&a, &user_account(3));
    assert_eq!(db.get_account(&a, T0).unwrap().lamports, 3);
    db.set_permanent_account(&a, &user_account(2));
    assert_eq!(db.get_account(&a, T0).unwrap().lamports, 2);
    db.set_temporary_account(&a, &user_account(1));
    assert_eq!(db.get_account(&a, T0).unwrap().lamports, 1);
    assert!(db.get_account(&addr(10), T0).is_none());
}

#[test]
fn system_value_is_stored_as_sysvar_account() {
    let mut db = AccountsDB::new();
    db.set_sysvar(&addr(5), vec![9, 9], T0);
    let acc = db.get_sysvar_account(&addr(5)).unwrap();
    assert_eq!(acc.lamports, 1);
    assert_eq!(acc.owner, sysvar_owner());
    assert!(!acc.executable);
    assert_eq!(acc.rent_epoch, 0);
    assert_eq!(db.get_sysvar(&addr(5), T0).unwrap(), vec![9, 9]);
    // A system value other than the clock leaves the checkpoint alone.
    assert_eq!(db.sysvar_tracker.last_clock_update, 0);
}

#[test]
fn clock_lookup_through_get_account_materialises() {
    let mut db = db_with_clock(&Clock { unix_timestamp: 1000, ..Clock::default() }, T0);
    let acc = db.get_account(&clock_address(), T0 + 5).unwrap();
    assert_eq!(decode_clock(&acc.data).unwrap().unix_timestamp, 1005);
    assert_eq!(db.sysvar_tracker.last_clock_update, T0 + 5);
    // Other addresses never touch the clock.
    let _ = db.get_account(&addr(1), T0 + 50);
    assert_eq!(db.sysvar_tracker.last_clock_update, T0 + 5);
}

#[test]
fn clock_shadowed_by_durable_is_not_materialised() {
    let mut db = db_with_clock(&Clock::default(), T0);
    db.set_permanent_account(&clock_address(), &user_account(5));
    assert_eq!(db.get_account(&clock_address(), T0 + 10).unwrap().lamports, 5);
    assert_eq!(db.sysvar_tracker.last_clock_update, T0);
}

#[test]
fn clock_reads_are_monotonic() {
    let mut db = db_with_clock(&Clock { unix_timestamp: 50, ..Clock::default() }, T0);
    let mut last = db.get_clock(T0).unwrap().unix_timestamp;
    for now in [T0, T0 + 1, T0 + 1, T0 + 7, T0 + 100] {
        let t = db.get_clock(now).unwrap().unix_timestamp;
        assert!(t >= last);
        last = t;
    }
    assert_eq!(last, 150);
    // A wall clock that goes backwards adds nothing.
    assert_eq!(db.get_clock(T0).unwrap().unix_timestamp, 150);
}

#[test]
fn clock_reads_within_one_second_are_identical() {
    let mut db = db_with_clock(&Clock { unix_timestamp: 77, slot: 3, ..Clock::default() }, T0);
    let a = db.get_clock(T0 + 4).unwrap();
    let b = db.get_clock(T0 + 4).unwrap();
    assert_eq!(a, b);
    assert_eq!(a.unix_timestamp, 81);
    assert_eq!(a.slot, 3);
}

#[test]
fn clock_written_then_read_two_seconds_later() {
    let mut db = db_with_clock(&Clock { unix_timestamp: 1000, ..Clock::default() }, T0);
    let t = db.get_clock(T0 + 2).unwrap().unix_timestamp;
    assert!((1001..=1003).contains(&t));
    assert_eq!(t, 1002);
}

#[test]
fn set_clock_then_advance_reads_sum() {
    let mut db = db_with_clock(&Clock::default(), T0);
    db.warp_to_timestamp(500, T0).unwrap();
    db.forward_in_time(600, T0).unwrap();
    assert_eq!(db.get_clock(T0).unwrap().unix_timestamp, 1100);
}

#[test]
fn warp_then_read_adds_elapsed_wall_time() {
    let mut db = db_with_clock(&Clock::default(), T0);
    db.warp_to_timestamp(500, T0 + 10).unwrap();
    assert_eq!(db.get_clock(T0 + 13).unwrap().unix_timestamp, 503);
}

#[test]
fn forward_saturates_at_bounds() {
    let mut db = db_with_clock(&Clock { unix_timestamp: i64::MAX - 1, ..Clock::default() }, T0);
    db.forward_in_time(10, T0).unwrap();
    assert_eq!(db.get_clock(T0).unwrap().unix_timestamp, i64::MAX);
    db.warp_to_timestamp(i64::MIN + 1, T0).unwrap();
    db.forward_in_time(-10, T0).unwrap();
    assert_eq!(db.get_clock(T0).unwrap().unix_timestamp, i64::MIN);
}

#[test]
fn missing_clock_is_reported() {
    let mut db = AccountsDB::new();
    assert_eq!(db.get_clock(T0), Err(SysvarError::Missing));
    assert_eq!(db.update_clock(T0), Err(SysvarError::Missing));
    assert_eq!(db.forward_in_time(5, T0), Err(SysvarError::Missing));
    assert_eq!(db.warp_to_timestamp(5, T0), Err(SysvarError::Missing));
    assert_eq!(db.get_sysvar(&addr(4), T0), Err(SysvarError::Missing));
}

#[test]
fn corrupt_clock_is_reported_and_left_alone() {
    let mut db = AccountsDB::new();
    db.set_sysvar(&clock_address(), vec![1, 2, 3], T0);
    assert_eq!(db.get_clock(T0 + 9), Err(SysvarError::Corrupt));
    assert_eq!(db.forward_in_time(5, T0 + 9), Err(SysvarError::Corrupt));
    assert_eq!(db.get_sysvar(&clock_address(), T0 + 9).unwrap(), vec![1, 2, 3]);
    assert_eq!(db.sysvar_tracker.last_clock_update, T0);
}

#[test]
fn settlement_overwrites_durable_entry() {
    let a = addr(0xA);
    let mut db = AccountsDB::new();
    db.set_permanent_account(&a, &user_account(100));
    db.settle_accounts(&vec![(a, user_account(150))]);
    assert_eq!(db.get_account(&a, T0).unwrap().lamports, 150);
    assert_eq!(db.get_permanent_account(&a).unwrap().lamports, 150);
    assert!(db.get_temporary_account(&a).is_none());
}

#[test]
fn settlement_defaults_to_ephemeral() {
    let a = addr(0xB);
    let mut db = AccountsDB::new();
    db.settle_accounts(&vec![(a, user_account(5)), (a, user_account(6))]);
    assert_eq!(db.get_temporary_account(&a).unwrap().lamports, 6);
    assert!(db.get_permanent_account(&a).is_none());
    db.reset_temp();
    assert!(db.get_account(&a, T0).is_none());
}

#[test]
fn settlement_never_moves_durable_to_ephemeral() {
    let a = addr(0xC);
    let mut db = AccountsDB::new();
    db.set_permanent_account(&a, &user_account(1));
    for lamports in [2, 3, 4] {
        db.settle_accounts(&vec![(a, user_account(lamports))]);
        assert!(db.get_temporary_account(&a).is_none());
    }
    assert_eq!(db.get_permanent_account(&a).unwrap().lamports, 4);
}

#[test]
fn settlement_drops_executable_and_system_owned() {
    let mut db = AccountsDB::new();
    db.set_permanent_account(&addr(1), &user_account(1));
    let executable = Account::new(9, vec![], addr(200), true, 0);
    let system_owned = Account::new(9, vec![], sysvar_owner(), false, 0);
    db.settle_accounts(&vec![
        (addr(1), Account::new(9, vec![], addr(200), true, 0)),
        (addr(2), executable),
        (addr(3), system_owned),
    ]);
    assert_eq!(db.get_permanent_account(&addr(1)).unwrap().lamports, 1);
    assert!(db.get_account(&addr(2), T0).is_none());
    assert!(db.get_account(&addr(3), T0).is_none());
}

#[test]
fn set_account_picks_tier() {
    let mut db = AccountsDB::new();
    db.set_account(&addr(1), &user_account(1), true);
    db.set_account(&addr(2), &user_account(2), false);
    assert!(db.get_permanent_account(&addr(1)).is_some());
    assert!(db.get_temporary_account(&addr(1)).is_none());
    assert!(db.get_temporary_account(&addr(2)).is_some());
    assert!(db.get_permanent_account(&addr(2)).is_none());
}

#[test]
fn owner_match_gives_first_position() {
    let mut db = AccountsDB::new();
    db.set_temporary_account(&addr(1), &user_account(1));
    let owners = vec![addr(7), addr(200), addr(200)];
    assert_eq!(db.account_matches_owners(&addr(1), &owners, T0), Some(1));
    assert_eq!(db.account_matches_owners(&addr(1), &vec![addr(7)], T0), None);
    assert_eq!(db.account_matches_owners(&addr(2), &owners, T0), None);
}

#[test]
fn clock_encoding_is_little_endian_fields() {
    let c = Clock {
        slot: 1,
        epoch_start_timestamp: -1,
        epoch: 0x0102,
        leader_schedule_epoch: 0,
        unix_timestamp: 1000,
    };
    let bytes = encode_clock(&c);
    assert_eq!(bytes.len(), 40);
    assert_eq!(&bytes[0..8], &[1, 0, 0, 0, 0, 0, 0, 0]);
    assert_eq!(&bytes[8..16], &[0xff; 8]);
    assert_eq!(&bytes[16..24], &[2, 1, 0, 0, 0, 0, 0, 0]);
    assert_eq!(&bytes[32..40], &[0xe8, 3, 0, 0, 0, 0, 0, 0]);
    assert_eq!(decode_clock(&bytes), Some(c));
    let mut longer = bytes.clone();
    longer.push(7);
    assert_eq!(decode_clock(&longer), Some(c));
    assert_eq!(decode_clock(&bytes[..39]), None);
}

#[test]
fn well_known_addresses() {
    assert_eq!(clock_address().bytes, solana_sdk_ids::sysvar::clock::id().to_bytes());
    assert_eq!(sysvar_owner().bytes, solana_sdk_ids::sysvar::id().to_bytes());
    assert_eq!(system_program().bytes, solana_sdk_ids::system_program::id().to_bytes());
    assert_eq!(clock_address().bytes[..4], [6, 167, 213, 23]);
    assert!(!clock_address().same_as(&sysvar_owner()));
}

#[test]
fn tracker_refresh_with_clock() {
    let mut tracker = SysvarTracker::new();
    tracker.refresh_last_clock_update(100);
    let mut clock = Clock { unix_timestamp: 10, epoch: 4, ..Clock::default() };
    tracker.refresh_with_clock(&mut clock, 130);
    assert_eq!(clock.unix_timestamp, 40);
    assert_eq!(clock.epoch, 4);
    assert_eq!(tracker.last_clock_update, 130);
    tracker.refresh_with_clock(&mut clock, 120);
    assert_eq!(clock.unix_timestamp, 40);
    assert_eq!(tracker.last_clock_update, 120);
    tracker.refresh();
    assert!(tracker.last_clock_update > 120);
}

#[test]
fn successful_execution_is_settled_and_clock_materialised() {
    let mut db = db_with_clock(&Clock { unix_timestamp: 10, ..Clock::default() }, T0);
    let outcome = ExecutionOutcome::Executed { succeeded: true, accounts: vec![(addr(1), user_account(42))] };
    db.settle_execution(&outcome, T0 + 3);
    assert_eq!(db.get_temporary_account(&addr(1)).unwrap().lamports, 42);
    assert_eq!(db.sysvar_tracker.last_clock_update, T0 + 3);
    assert_eq!(db.get_clock(T0 + 3).unwrap().unix_timestamp, 13);
}

#[test]
fn failed_or_fee_only_execution_is_not_settled() {
    let mut db = db_with_clock(&Clock::default(), T0);
    let failed = ExecutionOutcome::Executed { succeeded: false, accounts: vec![(addr(1), user_account(42))] };
    db.settle_execution(&failed, T0 + 1);
    db.settle_execution(&ExecutionOutcome::FeesOnly, T0 + 2);
    assert!(db.get_account(&addr(1), T0 + 2).is_none());
    assert_eq!(db.get_clock(T0 + 2).unwrap().unix_timestamp, 2);
}

#[test]
fn default_store_is_empty() {
    let mut db = AccountsDB::default();
    assert!(db.get_account(&addr(1), T0).is_none());
    assert_eq!(db.sysvar_tracker.last_clock_update, 0);
    assert_eq!(SysvarTracker::default().last_clock_update, 0);
}

#[test]
fn seeded_store_holds_payer_and_clock() {
    let payer = addr(33);
    let mut db = AccountsDB::seeded(&payer, T0);
    let acc = db.get_account(&payer, T0).unwrap();
    assert_eq!(acc.lamports, 500_000_000 * 1_000_000_000);
    assert_eq!(acc.owner, system_program());
    assert_eq!(acc.owner.bytes, [0u8; 32]);
    assert!(acc.data.is_empty());
    assert_eq!(db.sysvar_tracker.last_clock_update, T0);
    let clock = db.get_clock(T0 + 4).unwrap();
    assert_eq!(clock.unix_timestamp, T0 as i64 + 4);
    assert_eq!(clock.slot, 0);
}
