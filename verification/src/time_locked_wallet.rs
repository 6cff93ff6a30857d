//! A wallet that locks lamports for a receiver until a timestamp.
//!
//! A creator funds a vault with `amount` lamports that the receiver can take
//! once `unlock_timestamp` has passed. An optional authority may move the
//! receiver or the unlock time, as far as its rights bitmask allows, until the
//! funds are withdrawn; the creator may then close the vault.

use vstd::prelude::*;

use crate::pubkey::Pubkey;

verus! {

/// Right bit allowing the authority to change the receiver.
pub const RIGHT_SET_RECEIVER: u8 = 0b0000_0001;

/// Right bit allowing the authority to change the unlock timestamp.
pub const RIGHT_SET_DURATION: u8 = 0b0000_0010;

/// The state of one time-locked vault.
#[derive(Clone, Copy, Debug)]
pub struct TimeLock {
    /// Who created and funded the vault.
    pub creator: Pubkey,
    /// Who may administer the vault, if anyone.
    pub authority: Option<Pubkey>,
    /// Who may withdraw the funds.
    pub receiver: Pubkey,
    /// Locked lamports; zero once withdrawn.
    pub amount: u64,
    /// When the funds unlock; after withdrawal, when they were claimed.
    pub unlock_timestamp: i64,
    /// Seed distinguishing the vaults of one creator.
    pub seed: u64,
    /// Bitmask of the authority's rights: 1 = set receiver, 2 = set duration.
    pub authority_rights: u8,
    /// Address-derivation bump of the vault account.
    pub bump: u8,
}

impl TimeLock {
    /// Account size: discriminator, creator, optional authority, receiver,
    /// amount, unlock timestamp, seed, rights and bump.
    pub const LEN: usize = 8 + 32 + 1 + 32 + 32 + 8 + 8 + 8 + 1 + 1;

    /// A vault without an authority grants no rights.
    pub open spec fn wf(self) -> bool {
        self.authority is None ==> self.authority_rights == 0
    }
}

/// Every way an instruction of the time-locked wallet can be refused.
#[derive(Clone, Copy, Debug, PartialEq, Eq, Structural)]
pub enum TimeLockError {
    /// Unauthorized: Only the receiver can perform this action.
    Unauthorized,
    /// Only the authority can perform this action.
    OnlyAuthority,
    /// Authority lacks required right for this action.
    AuthorityMissingRight,
    /// Insufficient funds in time lock.
    InsufficientFunds,
    /// Funds are still locked until unlock timestamp.
    StillLocked,
    /// Invalid amount.
    InvalidAmount,
    /// Invalid unlock timestamp.
    InvalidUnlockTime,
    /// Nothing to withdraw.
    NothingToWithdraw,
    /// authority_rights must be 0 when authority is None.
    AuthorityRightsWithoutAuthority,
    /// Vault has already been withdrawn; modifications are disabled.
    AlreadyWithdrawn,
    /// Only the creator can perform this action.
    OnlyCreator,
    /// Cannot close vault with non-zero recorded amount.
    NonZeroBalance,
}

/// Whether `signer` is the vault's authority.
pub open spec fn is_authority(vault: TimeLock, signer: Pubkey) -> bool {
    match vault.authority {
        Some(authority) => authority@ == signer@,
        None => false,
    }
}

/// Whether the rights bitmask holds the given right bit.
pub open spec fn has_right(rights: u8, right: u8) -> bool {
    rights & right != 0
}

/// The vault created by `initialize_lock`, or why it is refused.
pub open spec fn spec_initialize_lock(
    now: i64,
    creator: Pubkey,
    amount: u64,
    unlock_timestamp: i64,
    authority: Option<Pubkey>,
    receiver: Pubkey,
    seed: u64,
    authority_rights: u8,
    bump: u8,
) -> Result<TimeLock, TimeLockError> {
    if amount == 0 {
        Err(TimeLockError::InvalidAmount)
    } else if unlock_timestamp <= now {
        Err(TimeLockError::InvalidUnlockTime)
    } else if authority is None && authority_rights != 0 {
        Err(TimeLockError::AuthorityRightsWithoutAuthority)
    } else {
        Ok(
            TimeLock {
                creator,
                authority,
                receiver,
                amount,
                unlock_timestamp,
                seed,
                authority_rights,
                bump,
            },
        )
    }
}

/// Creates a vault locking `amount` lamports until `unlock_timestamp`.
///
/// `now` is the cluster time; the caller then moves `amount` lamports from the
/// creator into the vault account.
pub fn initialize_lock(
    now: i64,
    creator: Pubkey,
    amount: u64,
    unlock_timestamp: i64,
    authority: Option<Pubkey>,
    receiver: Pubkey,
    seed: u64,
    authority_rights: u8,
    bump: u8,
) -> (vault: Result<TimeLock, TimeLockError>)
    ensures
        vault == spec_initialize_lock(
            now,
            creator,
            amount,
            unlock_timestamp,
            authority,
            receiver,
            seed,
            authority_rights,
            bump,
        ),
        vault matches Ok(v) ==> v.wf(),
{
    if amount == 0 {
        return Err(TimeLockError::InvalidAmount);
    }
    if unlock_timestamp <= now {
        return Err(TimeLockError::InvalidUnlockTime);
    }
    if !(authority.is_some() || authority_rights == 0) {
        return Err(TimeLockError::AuthorityRightsWithoutAuthority);
    }
    Ok(
        TimeLock {
            creator,
            authority,
            receiver,
            amount,
            unlock_timestamp,
            seed,
            authority_rights,
            bump,
        },
    )
}

/// What `withdraw` answers, and the vault after it.
pub open spec fn spec_withdraw(vault: TimeLock, now: i64, vault_balance: u64) -> (Result<u64, TimeLockError>, TimeLock) {
    if now < vault.unlock_timestamp {
        (Err(TimeLockError::StillLocked), vault)
    } else if vault.amount == 0 {
        (Err(TimeLockError::NothingToWithdraw), vault)
    } else if vault_balance < vault.amount {
        (Err(TimeLockError::InsufficientFunds), vault)
    } else {
        (Ok(vault.amount), TimeLock { amount: 0, unlock_timestamp: now, ..vault })
    }
}

/// Releases the locked lamports once the unlock time has passed.
///
/// Returns the number of lamports the caller moves from the vault account to
/// the receiver; the vault then records zero and, in place of the unlock time,
/// the time of the claim.
pub fn withdraw(vault: &mut TimeLock, now: i64, vault_balance: u64) -> (released: Result<u64, TimeLockError>)
    ensures
        (released, *final(vault)) == spec_withdraw(*old(vault), now, vault_balance),
{
    if now < vault.unlock_timestamp {
        return Err(TimeLockError::StillLocked);
    }
    let amount = vault.amount;
    if amount == 0 {
        return Err(TimeLockError::NothingToWithdraw);
    }
    if vault_balance < amount {
        return Err(TimeLockError::InsufficientFunds);
    }
    vault.amount = 0;
    vault.unlock_timestamp = now;
    Ok(amount)
}

/// Why the authority `signer` may not use the right `right` on the vault, if
/// it may not.
pub open spec fn authority_check(vault: TimeLock, signer: Pubkey, right: u8) -> Result<(), TimeLockError> {
    if !is_authority(vault, signer) {
        Err(TimeLockError::OnlyAuthority)
    } else if !has_right(vault.authority_rights, right) {
        Err(TimeLockError::AuthorityMissingRight)
    } else if vault.amount == 0 {
        Err(TimeLockError::AlreadyWithdrawn)
    } else {
        Ok(())
    }
}

/// Checks that `signer` is the authority, holds `right`, and that the funds
/// are still locked.
fn check_authority(vault: &TimeLock, signer: Pubkey, right: u8) -> (r: Result<(), TimeLockError>)
    ensures
        r == authority_check(*vault, signer, right),
{
    let is_auth = match vault.authority {
        Some(authority) => authority == signer,
        None => false,
    };
    if !is_auth {
        return Err(TimeLockError::OnlyAuthority);
    }
    if (vault.authority_rights & right) == 0 {
        return Err(TimeLockError::AuthorityMissingRight);
    }
    if !(vault.amount > 0) {
        return Err(TimeLockError::AlreadyWithdrawn);
    }
    Ok(())
}

/// What `set_receiver` answers, and the vault after it.
pub open spec fn spec_set_receiver(vault: TimeLock, signer: Pubkey, new_receiver: Pubkey) -> (Result<
    (),
    TimeLockError,
>, TimeLock) {
    match authority_check(vault, signer, RIGHT_SET_RECEIVER) {
        Ok(()) => (Ok(()), TimeLock { receiver: new_receiver, ..vault }),
        Err(e) => (Err(e), vault),
    }
}

/// What `set_duration` answers, and the vault after it.
pub open spec fn spec_set_duration(vault: TimeLock, signer: Pubkey, new_unlock_timestamp: i64) -> (Result<
    (),
    TimeLockError,
>, TimeLock) {
    match authority_check(vault, signer, RIGHT_SET_DURATION) {
        Ok(()) => (Ok(()), TimeLock { unlock_timestamp: new_unlock_timestamp, ..vault }),
        Err(e) => (Err(e), vault),
    }
}

/// Moves the funds to another receiver (authority with the set-receiver
/// right only, before withdrawal).
pub fn set_receiver(vault: &mut TimeLock, signer: Pubkey, new_receiver: Pubkey) -> (r: Result<
    (),
    TimeLockError,
>)
    ensures
        (r, *final(vault)) == spec_set_receiver(*old(vault), signer, new_receiver),
{
    match check_authority(vault, signer, RIGHT_SET_RECEIVER) {
        Ok(()) => {},
        Err(e) => return Err(e),
    }
    vault.receiver = new_receiver;
    Ok(())
}

/// Moves the unlock time (authority with the set-duration right only,
/// before withdrawal).
pub fn set_duration(vault: &mut TimeLock, signer: Pubkey, new_unlock_timestamp: i64) -> (r: Result<
    (),
    TimeLockError,
>)
    ensures
        (r, *final(vault)) == spec_set_duration(*old(vault), signer, new_unlock_timestamp),
{
    match check_authority(vault, signer, RIGHT_SET_DURATION) {
        Ok(()) => {},
        Err(e) => return Err(e),
    }
    vault.unlock_timestamp = new_unlock_timestamp;
    Ok(())
}

/// Whether the vault may be closed by `signer`.
pub open spec fn spec_close_vault(vault: TimeLock, signer: Pubkey) -> Result<(), TimeLockError> {
    if signer@ != vault.creator@ {
        Err(TimeLockError::OnlyCreator)
    } else if vault.amount != 0 {
        Err(TimeLockError::NonZeroBalance)
    } else {
        Ok(())
    }
}

/// Allows the creator to close an emptied vault and recover its rent.
pub fn close_vault(vault: &TimeLock, signer: Pubkey) -> (r: Result<(), TimeLockError>)
    ensures
        r == spec_close_vault(*vault, signer),
{
    if !(signer == vault.creator) {
        return Err(TimeLockError::OnlyCreator);
    }
    if vault.amount != 0 {
        return Err(TimeLockError::NonZeroBalance);
    }
    Ok(())
}

// ---------------------------------------------------------------------------
// Laws of the vault life cycle.

/// A freshly created vault stays locked before its unlock time, and at or
/// after it releases exactly the deposited amount when the vault account holds
/// it, leaving the vault recording zero.
pub proof fn law_withdraw_releases_deposit_after_unlock(
    now: i64,
    creator: Pubkey,
    amount: u64,
    unlock_timestamp: i64,
    authority: Option<Pubkey>,
    receiver: Pubkey,
    seed: u64,
    authority_rights: u8,
    bump: u8,
    later: i64,
    vault_balance: u64,
)
    requires
        spec_initialize_lock(
            now,
            creator,
            amount,
            unlock_timestamp,
            authority,
            receiver,
            seed,
            authority_rights,
            bump,
        ) is Ok,
    ensures
        ({
            let vault = spec_initialize_lock(
                now,
                creator,
                amount,
                unlock_timestamp,
                authority,
                receiver,
                seed,
                authority_rights,
                bump,
            )->Ok_0;
            let (released, after) = spec_withdraw(vault, later, vault_balance);
            &&& later < unlock_timestamp ==> released == Err::<u64, TimeLockError>(TimeLockError::StillLocked)
            &&& later >= unlock_timestamp && vault_balance >= amount ==> {
                &&& released == Ok::<u64, TimeLockError>(amount)
                &&& after.amount == 0
                &&& after.receiver == receiver
            }
        }),
{
}

/// Funds leave a vault at most once: after a successful withdrawal every
/// further withdrawal is refused.
pub proof fn law_single_withdrawal(vault: TimeLock, now: i64, vault_balance: u64, later: i64, later_balance: u64)
    requires
        spec_withdraw(vault, now, vault_balance).0 is Ok,
    ensures
        spec_withdraw(spec_withdraw(vault, now, vault_balance).1, later, later_balance).0 is Err,
{
}

/// Once withdrawn, a vault can no longer be administered, and its creator
/// can close it.
pub proof fn law_withdrawn_vault_is_frozen(
    vault: TimeLock,
    now: i64,
    vault_balance: u64,
    signer: Pubkey,
    new_receiver: Pubkey,
    new_unlock_timestamp: i64,
)
    requires
        spec_withdraw(vault, now, vault_balance).0 is Ok,
    ensures
        spec_set_receiver(spec_withdraw(vault, now, vault_balance).1, signer, new_receiver).0 is Err,
        spec_set_receiver(spec_withdraw(vault, now, vault_balance).1, signer, new_receiver).1 == spec_withdraw(
            vault,
            now,
            vault_balance,
        ).1,
        spec_set_duration(spec_withdraw(vault, now, vault_balance).1, signer, new_unlock_timestamp).0 is Err,
        spec_set_duration(spec_withdraw(vault, now, vault_balance).1, signer, new_unlock_timestamp).1
            == spec_withdraw(vault, now, vault_balance).1,
        spec_close_vault(spec_withdraw(vault, now, vault_balance).1, vault.creator) is Ok,
{
}

/// A vault with funds still recorded can never be closed.
pub proof fn law_funded_vault_stays_open(vault: TimeLock, signer: Pubkey)
    requires
        vault.amount > 0,
    ensures
        spec_close_vault(vault, signer) is Err,
{
}

/// A vault without an authority can never be administered.
pub proof fn law_no_authority_no_administration(
    vault: TimeLock,
    signer: Pubkey,
    new_receiver: Pubkey,
    new_unlock_timestamp: i64,
)
    requires
        vault.authority is None,
    ensures
        spec_set_receiver(vault, signer, new_receiver) == (
        Err::<(), TimeLockError>(TimeLockError::OnlyAuthority),
        vault,
        ),
        spec_set_duration(vault, signer, new_unlock_timestamp) == (
        Err::<(), TimeLockError>(TimeLockError::OnlyAuthority),
        vault,
        ),
{
}

/// Withdrawing and administering keep a vault well-formed.
pub proof fn law_operations_keep_vault_wf(
    vault: TimeLock,
    now: i64,
    vault_balance: u64,
    signer: Pubkey,
    new_receiver: Pubkey,
    new_unlock_timestamp: i64,
)
    requires
        vault.wf(),
    ensures
        spec_withdraw(vault, now, vault_balance).1.wf(),
        spec_set_receiver(vault, signer, new_receiver).1.wf(),
        spec_set_duration(vault, signer, new_unlock_timestamp).1.wf(),
{
}

/// A vault is created exactly when the amount is positive, the unlock time
/// lies after `now`, and rights are only granted to an authority that
/// exists; an authority may hold any rights mask, none included. The vault
/// records the inputs as given.
pub proof fn law_initialize_lock_accepts_exactly_valid_locks(
    now: i64,
    creator: Pubkey,
    amount: u64,
    unlock_timestamp: i64,
    authority: Option<Pubkey>,
    receiver: Pubkey,
    seed: u64,
    authority_rights: u8,
    bump: u8,
)
    ensures
        ({
            let created = spec_initialize_lock(
                now,
                creator,
                amount,
                unlock_timestamp,
                authority,
                receiver,
                seed,
                authority_rights,
                bump,
            );
            &&& created is Ok <==> (amount > 0 && unlock_timestamp > now && (authority is Some
                || authority_rights == 0))
            &&& amount > 0 && unlock_timestamp > now && authority is Some ==> created is Ok
            &&& created is Err && amount > 0 && unlock_timestamp > now ==> authority is None
                && authority_rights != 0
            &&& created matches Ok(v) ==> {
                &&& v.creator == creator
                &&& v.authority == authority
                &&& v.receiver == receiver
                &&& v.amount == amount
                &&& v.unlock_timestamp == unlock_timestamp
                &&& v.seed == seed
                &&& v.authority_rights == authority_rights
                &&& v.bump == bump
            }
        }),
{
}

/// The vault's authority, holding the set-receiver bit among whatever other
/// rights, moves the receiver of a still funded vault to `new_receiver` and
/// changes nothing else.
pub proof fn law_authority_with_right_sets_receiver(vault: TimeLock, signer: Pubkey, new_receiver: Pubkey)
    requires
        vault.authority == Some(signer),
        vault.authority_rights & RIGHT_SET_RECEIVER != 0,
        vault.amount > 0,
    ensures
        spec_set_receiver(vault, signer, new_receiver) == (
        Ok::<(), TimeLockError>(()),
        TimeLock { receiver: new_receiver, ..vault },
        ),
{
}

/// `set_receiver` succeeds only for the vault's authority holding the
/// set-receiver bit on a funded vault, then changes only the receiver; when
/// refused it leaves the vault as it was.
pub proof fn law_set_receiver_outcomes(vault: TimeLock, signer: Pubkey, new_receiver: Pubkey)
    ensures
        ({
            let (r, after) = spec_set_receiver(vault, signer, new_receiver);
            &&& r is Ok ==> {
                &&& vault.authority matches Some(a) && a@ == signer@
                &&& vault.authority_rights & RIGHT_SET_RECEIVER != 0
                &&& vault.amount > 0
                &&& after == TimeLock { receiver: new_receiver, ..vault }
            }
            &&& r is Err ==> after == vault
        }),
{
}

/// The vault's authority, holding the set-duration bit among whatever other
/// rights, sets the unlock time of a still funded vault to exactly
/// `new_unlock_timestamp`, earlier or later, and changes nothing else.
pub proof fn law_authority_with_right_sets_duration(vault: TimeLock, signer: Pubkey, new_unlock_timestamp: i64)
    requires
        vault.authority == Some(signer),
        vault.authority_rights & RIGHT_SET_DURATION != 0,
        vault.amount > 0,
    ensures
        spec_set_duration(vault, signer, new_unlock_timestamp) == (
        Ok::<(), TimeLockError>(()),
        TimeLock { unlock_timestamp: new_unlock_timestamp, ..vault },
        ),
{
}

/// `set_duration` succeeds only for the vault's authority holding the
/// set-duration bit on a funded vault, then changes only the unlock time to
/// the new one; when refused it leaves the vault as it was.
pub proof fn law_set_duration_outcomes(vault: TimeLock, signer: Pubkey, new_unlock_timestamp: i64)
    ensures
        ({
            let (r, after) = spec_set_duration(vault, signer, new_unlock_timestamp);
            &&& r is Ok ==> {
                &&& vault.authority matches Some(a) && a@ == signer@
                &&& vault.authority_rights & RIGHT_SET_DURATION != 0
                &&& vault.amount > 0
                &&& after == TimeLock { unlock_timestamp: new_unlock_timestamp, ..vault }
            }
            &&& r is Err ==> after == vault
        }),
{
}

/// After the unlock time has been moved, the funds are released from the new
/// unlock time on, whether it was moved earlier or later, and are still
/// locked before it.
pub proof fn law_withdraw_follows_new_unlock_time(
    vault: TimeLock,
    signer: Pubkey,
    new_unlock_timestamp: i64,
    now: i64,
    vault_balance: u64,
)
    requires
        spec_set_duration(vault, signer, new_unlock_timestamp).0 is Ok,
    ensures
        ({
            let after = spec_set_duration(vault, signer, new_unlock_timestamp).1;
            &&& now >= new_unlock_timestamp && vault_balance >= vault.amount ==> spec_withdraw(
                after,
                now,
                vault_balance,
            ).0 == Ok::<u64, TimeLockError>(vault.amount)
            &&& now < new_unlock_timestamp ==> spec_withdraw(after, now, vault_balance).0 == Err::<
                u64,
                TimeLockError,
            >(TimeLockError::StillLocked)
        }),
{
    law_set_duration_outcomes(vault, signer, new_unlock_timestamp);
}

/// `withdraw` releases exactly the recorded amount when the unlock time has
/// come, something is recorded and the vault account holds it; the vault
/// then records zero and the claim time and keeps everything else. A refused
/// withdrawal leaves the vault as it was.
pub proof fn law_withdraw_outcomes(vault: TimeLock, now: i64, vault_balance: u64)
    ensures
        ({
            let (released, after) = spec_withdraw(vault, now, vault_balance);
            &&& released is Ok <==> (now >= vault.unlock_timestamp && vault.amount > 0 && vault_balance
                >= vault.amount)
            &&& released is Ok ==> {
                &&& released == Ok::<u64, TimeLockError>(vault.amount)
                &&& after == TimeLock { amount: 0, unlock_timestamp: now, ..vault }
            }
            &&& released is Err ==> after == vault
        }),
{
}

/// Only the creator may close a vault, and only once it records nothing.
pub proof fn law_close_vault_outcomes(vault: TimeLock, signer: Pubkey)
    ensures
        spec_close_vault(vault, signer) is Ok <==> (signer@ == vault.creator@ && vault.amount == 0),
{
}

} // verus!
