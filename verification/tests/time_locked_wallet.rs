use concentrated_liquidity::pubkey::Pubkey;
use concentrated_liquidity::time_locked_wallet::{
    close_vault, initialize_lock, set_duration, set_receiver, withdraw, TimeLock, TimeLockError,
    RIGHT_SET_DURATION, RIGHT_SET_RECEIVER,
};

fn key(b: u8) -> Pubkey {
    Pubkey::new_from_array([b; 32])
}

fn vault_with(authority: Option<Pubkey>, rights: u8) -> TimeLock {
    initialize_lock(100, key(1), 5_000, 200, authority, key(3), 7, rights, 254).unwrap()
}

#[test]
fn initialize_lock_records_every_field() {
    let vault = vault_with(Some(key(2)), 3);
    assert!(vault.creator == key(1));
    assert!(vault.authority == Some(key(2)));
    assert!(vault.receiver == key(3));
    assert_eq!(vault.amount, 5_000);
    assert_eq!(vault.unlock_timestamp, 200);
    assert_eq!(vault.seed, 7);
    assert_eq!(vault.authority_rights, 3);
    assert_eq!(vault.bump, 254);
}

#[test]
fn initialize_lock_refuses_zero_amount() {
    let r = initialize_lock(100, key(1), 0, 200, None, key(3), 0, 0, 0);
    assert_eq!(r.unwrap_err(), TimeLockError::InvalidAmount);
}

#[test]
fn initialize_lock_refuses_unlock_not_in_future() {
    let r = initialize_lock(200, key(1), 10, 200, None, key(3), 0, 0, 0);
    assert_eq!(r.unwrap_err(), TimeLockError::InvalidUnlockTime);
    let r = initialize_lock(201, key(1), 10, 200, None, key(3), 0, 0, 0);
    assert_eq!(r.unwrap_err(), TimeLockError::InvalidUnlockTime);
}

#[test]
fn initialize_lock_refuses_rights_without_authority() {
    let r = initialize_lock(100, key(1), 10, 200, None, key(3), 0, 1, 0);
    assert_eq!(r.unwrap_err(), TimeLockError::AuthorityRightsWithoutAuthority);
    assert!(initialize_lock(100, key(1), 10, 200, None, key(3), 0, 0, 0).is_ok());
}

#[test]
fn withdraw_refused_while_locked() {
    let mut vault = vault_with(None, 0);
    assert_eq!(withdraw(&mut vault, 199, 10_000).unwrap_err(), TimeLockError::StillLocked);
    assert_eq!(vault.amount, 5_000);
}

#[test]
fn withdraw_refused_when_vault_balance_short() {
    let mut vault = vault_with(None, 0);
    assert_eq!(withdraw(&mut vault, 200, 4_999).unwrap_err(), TimeLockError::InsufficientFunds);
    assert_eq!(vault.amount, 5_000);
}

#[test]
fn withdraw_releases_deposit_exactly_once() {
    let mut vault = vault_with(None, 0);
    assert_eq!(withdraw(&mut vault, 250, 5_000), Ok(5_000));
    assert_eq!(vault.amount, 0);
    assert_eq!(vault.unlock_timestamp, 250);
    assert_eq!(withdraw(&mut vault, 300, 5_000).unwrap_err(), TimeLockError::NothingToWithdraw);
    assert_eq!(withdraw(&mut vault, 249, 5_000).unwrap_err(), TimeLockError::StillLocked);
}

#[test]
fn set_receiver_needs_authority_right_and_funds() {
    let mut vault = vault_with(Some(key(2)), RIGHT_SET_RECEIVER);
    assert_eq!(set_receiver(&mut vault, key(9), key(4)).unwrap_err(), TimeLockError::OnlyAuthority);
    assert_eq!(set_receiver(&mut vault, key(2), key(4)), Ok(()));
    assert!(vault.receiver == key(4));

    let mut no_right = vault_with(Some(key(2)), RIGHT_SET_DURATION);
    assert_eq!(set_receiver(&mut no_right, key(2), key(4)).unwrap_err(), TimeLockError::AuthorityMissingRight);
    assert!(no_right.receiver == key(3));

    assert_eq!(withdraw(&mut vault, 200, 5_000), Ok(5_000));
    assert_eq!(set_receiver(&mut vault, key(2), key(5)).unwrap_err(), TimeLockError::AlreadyWithdrawn);
    assert!(vault.receiver == key(4));
}

#[test]
fn set_duration_needs_authority_right_and_funds() {
    let mut vault = vault_with(Some(key(2)), RIGHT_SET_DURATION);
    assert_eq!(set_duration(&mut vault, key(1), 500).unwrap_err(), TimeLockError::OnlyAuthority);
    assert_eq!(set_duration(&mut vault, key(2), 500), Ok(()));
    assert_eq!(vault.unlock_timestamp, 500);
    assert_eq!(withdraw(&mut vault, 400, 5_000).unwrap_err(), TimeLockError::StillLocked);

    let mut no_right = vault_with(Some(key(2)), RIGHT_SET_RECEIVER);
    assert_eq!(set_duration(&mut no_right, key(2), 500).unwrap_err(), TimeLockError::AuthorityMissingRight);

    assert_eq!(withdraw(&mut vault, 500, 5_000), Ok(5_000));
    assert_eq!(set_duration(&mut vault, key(2), 900).unwrap_err(), TimeLockError::AlreadyWithdrawn);
}

#[test]
fn vault_without_authority_cannot_be_administered() {
    let mut vault = vault_with(None, 0);
    assert_eq!(set_receiver(&mut vault, key(2), key(4)).unwrap_err(), TimeLockError::OnlyAuthority);
    assert_eq!(set_duration(&mut vault, key(2), 900).unwrap_err(), TimeLockError::OnlyAuthority);
}

#[test]
fn close_vault_only_by_creator_after_withdrawal() {
    let mut vault = vault_with(None, 0);
    assert_eq!(close_vault(&vault, key(1)).unwrap_err(), TimeLockError::NonZeroBalance);
    assert_eq!(withdraw(&mut vault, 200, 5_000), Ok(5_000));
    assert_eq!(close_vault(&vault, key(3)).unwrap_err(), TimeLockError::OnlyCreator);
    assert_eq!(close_vault(&vault, key(1)), Ok(()));
}

#[test]
fn account_size_matches_layout() {
    assert_eq!(TimeLock::LEN, 131);
}
