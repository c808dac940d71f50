//! The hook executor: authenticates the signing authority, moves the fee and
//! counts the invocation, all or nothing.

use crate::accounts::{
    AccountEntry, Counter, InitializeView, TransferHook, TransferHookView, ACCOUNT_COUNT,
    AUTHORITY, FEE_DESTINATION, FEE_SOURCE, MINT, RECORD,
};
use crate::address::{same_bytes_same_address, Address};
use crate::binding::{binding_outcome, check_bindings, swapped, swapped_accounts_are_not_bound};
use crate::bytes::copy_bytes;
use crate::error::{HookError, SeedResolutionError};
use crate::layout::{parsed_record, parsed_record_of_bytes, BASE_ACCOUNTS};
use crate::record::ExtraAccountMetadataRecord;
use crate::resolver::{
    authority_seeds, fee_descriptors, fee_descriptors_wf, initialize_outcome, initialized,
    record_seeds, record_signer_seeds, AUTHORITY_LABEL,
};
use crate::seeds::{
    address_with_bump, derivation_bump, find_address, found_address, found_address_is_derived,
    program_address, with_bump,
};
use vstd::prelude::*;

verus! {

/// How far an invocation of the hook has come.
#[derive(Clone, Copy, Debug, PartialEq, Eq, Structural)]
pub enum HookState {
    Received,
    AuthorityVerified,
    FeeTransferred,
    CounterUpdated,
    Complete,
    Aborted(HookError),
}

impl HookState {
    /// The state after a step that ended with `outcome`: the next one, or
    /// `Aborted` from wherever the step failed. The two last states stay.
    pub open spec fn after(self, outcome: Result<(), HookError>) -> HookState {
        match self {
            HookState::Complete => HookState::Complete,
            HookState::Aborted(e) => HookState::Aborted(e),
            _ => match outcome {
                Err(e) => HookState::Aborted(e),
                Ok(_) => match self {
                    HookState::Received => HookState::AuthorityVerified,
                    HookState::AuthorityVerified => HookState::FeeTransferred,
                    HookState::FeeTransferred => HookState::CounterUpdated,
                    _ => HookState::Complete,
                },
            },
        }
    }

    /// The number of steps between the state and `Complete`.
    pub open spec fn steps_left(self) -> nat {
        match self {
            HookState::Received => 4,
            HookState::AuthorityVerified => 3,
            HookState::FeeTransferred => 2,
            HookState::CounterUpdated => 1,
            HookState::Complete => 0,
            HookState::Aborted(_) => 0,
        }
    }

    /// Moves on by one step that ended with `outcome`.
    pub fn advance(self, outcome: Result<(), HookError>) -> (r: HookState)
        ensures
            r == self.after(outcome),
    {
        match self {
            HookState::Complete => HookState::Complete,
            HookState::Aborted(e) => HookState::Aborted(e),
            HookState::Received => match outcome {
                Ok(_) => HookState::AuthorityVerified,
                Err(e) => HookState::Aborted(e),
            },
            HookState::AuthorityVerified => match outcome {
                Ok(_) => HookState::FeeTransferred,
                Err(e) => HookState::Aborted(e),
            },
            HookState::FeeTransferred => match outcome {
                Ok(_) => HookState::CounterUpdated,
                Err(e) => HookState::Aborted(e),
            },
            HookState::CounterUpdated => match outcome {
                Ok(_) => HookState::Complete,
                Err(e) => HookState::Aborted(e),
            },
        }
    }
}

/// Whether the seeds of the signing authority, with the recorded bump, derive
/// the supplied address under the program.
pub open spec fn authority_matches(program: Address, bump: u8, supplied: Address) -> bool {
    program_address(with_bump(authority_seeds(), bump), program@) == Some(supplied@)
}

/// The seeds of the signing authority.
pub fn authority_signer_seeds() -> (r: Vec<Vec<u8>>)
    ensures
        r.deep_view() == authority_seeds(),
{
    let mut seeds: Vec<Vec<u8>> = Vec::new();
    seeds.push(copy_bytes(AUTHORITY_LABEL.as_slice()));
    assert(seeds.deep_view() =~~= authority_seeds());
    seeds
}

/// Derives the signing authority again from its label and the recorded bump,
/// and holds the supplied address against it.
pub fn verify_authority(program: &Address, bump: u8, supplied: &Address) -> (r: Result<
    (),
    HookError,
>)
    ensures
        authority_matches(*program, bump, *supplied) ==> r is Ok,
        !authority_matches(*program, bump, *supplied) ==> r == Err::<(), HookError>(
            HookError::AuthorityMismatch,
        ),
{
    match address_with_bump(authority_signer_seeds(), bump, program) {
        Some(derived) => {
            if derived.same(supplied) {
                Ok(())
            } else {
                Err(HookError::AuthorityMismatch)
            }
        },
        None => Err(HookError::AuthorityMismatch),
    }
}

/// What moving `amount` leaves in the two accounts.
pub open spec fn fee_moved(source: u64, destination: u64, amount: u64) -> Result<
    (u64, u64),
    HookError,
> {
    if source < amount {
        Err(HookError::InsufficientBalance)
    } else if destination + amount > u64::MAX {
        Err(HookError::ArithmeticOverflow)
    } else {
        Ok(((source - amount) as u64, (destination + amount) as u64))
    }
}

/// Takes `amount` from what the fee source holds and adds it to what the fee
/// destination holds. A source that holds less fails with
/// `InsufficientBalance`, a sum beyond `u64` with `ArithmeticOverflow`.
pub fn move_fee(source: u64, destination: u64, amount: u64) -> (r: Result<(u64, u64), HookError>)
    ensures
        r == fee_moved(source, destination, amount),
{
    if source < amount {
        return Err(HookError::InsufficientBalance);
    }
    match destination.checked_add(amount) {
        Some(sum) => Ok((source - amount, sum)),
        None => Err(HookError::ArithmeticOverflow),
    }
}

/// The counter after one more invocation.
pub open spec fn counter_after(counter: Option<Counter>) -> Result<Option<Counter>, HookError> {
    match counter {
        None => Ok(None),
        Some(counter) => match counter.incremented() {
            Ok(next) => Ok(Some(next)),
            Err(e) => Err(e),
        },
    }
}

/// Whether the record of the asset stands at its place: the account at the
/// record's position has the address that the record's seeds derive from the
/// asset's address.
pub open spec fn record_in_place(ctx: TransferHookView) -> bool {
    found_address(record_seeds(ctx.accounts[MINT as int].address), ctx.program_id@) matches Some(
        (address, _),
    ) && address == ctx.accounts[RECORD as int].address@
}

/// Whether the described accounts stand at their places: the bytes of the
/// record hold a record that describes every account of the hook, and each
/// described account has the address that its descriptor resolves to.
pub open spec fn described_in_place(ctx: TransferHookView) -> bool {
    parsed_record(ctx.record_data) matches Some(descriptors) && BASE_ACCOUNTS + descriptors.len()
        >= ACCOUNT_COUNT && binding_outcome(descriptors, ctx.accounts, ctx.program_id) is Ok
}

/// Whether the accounts are bound: all positions are supplied, the record
/// and the accounts that it describes stand at their places, and the account
/// of the signing authority has the address that the program derives with the
/// recorded bump.
pub open spec fn bound(ctx: TransferHookView) -> bool {
    &&& ctx.accounts.len() >= ACCOUNT_COUNT
    &&& record_in_place(ctx)
    &&& described_in_place(ctx)
    &&& authority_matches(
        ctx.program_id,
        ctx.authority_bump,
        ctx.accounts[AUTHORITY as int].address,
    )
}

/// The entry with another balance.
pub open spec fn with_balance(entry: AccountEntry, balance: u64) -> AccountEntry {
    AccountEntry { address: entry.address, balance }
}

/// What the hook does: the accounts as it leaves them, or the error with
/// which it aborts.
pub open spec fn hook_outcome(ctx: TransferHookView, amount: u64) -> Result<
    TransferHookView,
    HookError,
> {
    if !bound(ctx) {
        Err(HookError::AuthorityMismatch)
    } else {
        match fee_moved(
            ctx.accounts[FEE_SOURCE as int].balance,
            ctx.accounts[FEE_DESTINATION as int].balance,
            amount,
        ) {
            Err(e) => Err(e),
            Ok((source, destination)) => match counter_after(ctx.counter) {
                Err(e) => Err(e),
                Ok(counter) => Ok(
                    TransferHookView {
                        accounts: ctx.accounts.update(
                            FEE_SOURCE as int,
                            with_balance(ctx.accounts[FEE_SOURCE as int], source),
                        ).update(
                            FEE_DESTINATION as int,
                            with_balance(ctx.accounts[FEE_DESTINATION as int], destination),
                        ),
                        counter,
                        ..ctx
                    },
                ),
            },
        }
    }
}

/// Checks that the account at the record's position is the record of the
/// asset.
fn check_record_in_place(ctx: &TransferHook) -> (r: bool)
    requires
        ctx@.accounts.len() >= ACCOUNT_COUNT,
    ensures
        r == record_in_place(ctx@),
{
    let seeds = record_signer_seeds(&ctx.accounts[MINT].address);
    derivation_bump(&ctx.accounts[RECORD].address, &seeds, &ctx.program_id).is_some()
}

/// Checks that the accounts which the record describes stand at their
/// places.
fn check_described_in_place(ctx: &TransferHook) -> (r: bool)
    ensures
        r == described_in_place(ctx@),
{
    match ExtraAccountMetadataRecord::decode(ctx.record_data.as_slice()) {
        Some(record) => {
            record.count() >= ACCOUNT_COUNT - BASE_ACCOUNTS && check_bindings(
                &record,
                &ctx.accounts,
                &ctx.program_id,
            ).is_ok()
        },
        None => false,
    }
}

/// Checks that the accounts are bound.
fn check_binding(ctx: &TransferHook) -> (r: Result<(), HookError>)
    ensures
        bound(ctx@) ==> r is Ok,
        !bound(ctx@) ==> r == Err::<(), HookError>(HookError::AuthorityMismatch),
{
    if ctx.accounts.len() < ACCOUNT_COUNT {
        return Err(HookError::AuthorityMismatch);
    }
    if !check_record_in_place(ctx) || !check_described_in_place(ctx) {
        return Err(HookError::AuthorityMismatch);
    }
    verify_authority(&ctx.program_id, ctx.authority_bump, &ctx.accounts[AUTHORITY].address)
}

/// Runs the hook on a transfer of `amount`: verifies the signing authority,
/// moves `amount` of the secondary asset from the fee source to the fee
/// destination, and adds one to the counter where there is one. Where a step
/// fails, the accounts stay as they were. Of several failures the first in
/// the order of the steps is reported. A fee that the destination cannot
/// hold, its balance being a `u64`, fails the second step with
/// `ArithmeticOverflow`.
pub fn transfer_hook(ctx: &mut TransferHook, amount: u64) -> (r: Result<(), HookError>)
    ensures
        match hook_outcome(old(ctx)@, amount) {
            Ok(after) => r is Ok && final(ctx)@ == after,
            Err(e) => r == Err::<(), HookError>(e) && *final(ctx) == *old(ctx),
        },
{
    let mut state = HookState::Received;
    let mut source: u64 = 0;
    let mut destination: u64 = 0;
    let mut counter: Option<Counter> = ctx.counter;
    loop
        invariant
            state !is Complete ==> *ctx == *old(ctx),
            state is AuthorityVerified || state is FeeTransferred || state is CounterUpdated
                ==> bound(ctx@),
            state is FeeTransferred || state is CounterUpdated ==> fee_moved(
                ctx@.accounts[FEE_SOURCE as int].balance,
                ctx@.accounts[FEE_DESTINATION as int].balance,
                amount,
            ) == Ok::<(u64, u64), HookError>((source, destination)),
            state is Received || state is AuthorityVerified || state is FeeTransferred
                ==> counter == ctx.counter,
            state is CounterUpdated ==> counter_after(ctx.counter) == Ok::<
                Option<Counter>,
                HookError,
            >(counter),
            state is Complete ==> hook_outcome(old(ctx)@, amount) == Ok::<
                TransferHookView,
                HookError,
            >(ctx@),
            state matches HookState::Aborted(e) ==> hook_outcome(old(ctx)@, amount) == Err::<
                TransferHookView,
                HookError,
            >(e),
        decreases state.steps_left(),
    {
        match state {
            HookState::Received => {
                state = state.advance(check_binding(ctx));
            },
            HookState::AuthorityVerified => {
                match move_fee(
                    ctx.accounts[FEE_SOURCE].balance,
                    ctx.accounts[FEE_DESTINATION].balance,
                    amount,
                ) {
                    Ok((new_source, new_destination)) => {
                        source = new_source;
                        destination = new_destination;
                        state = state.advance(Ok(()));
                    },
                    Err(e) => {
                        state = state.advance(Err(e));
                    },
                }
            },
            HookState::FeeTransferred => {
                match counter {
                    Some(mut current) => {
                        let outcome = current.increment();
                        counter = Some(current);
                        state = state.advance(outcome);
                    },
                    None => {
                        state = state.advance(Ok(()));
                    },
                }
            },
            HookState::CounterUpdated => {
                let mut entry = ctx.accounts[FEE_SOURCE];
                entry.balance = source;
                ctx.accounts[FEE_SOURCE] = entry;
                let mut entry = ctx.accounts[FEE_DESTINATION];
                entry.balance = destination;
                ctx.accounts[FEE_DESTINATION] = entry;
                ctx.counter = counter;
                state = state.advance(Ok(()));
            },
            HookState::Complete => {
                return Ok(());
            },
            HookState::Aborted(e) => {
                return Err(e);
            },
        }
    }
}

/// The record that the initialization writes is the one that the hook
/// accepts: with the bytes of the created record, the record's account at its
/// place, the described accounts at the addresses that the descriptors of the
/// fee policy resolve to, and the signing authority at its derived address,
/// the accounts are bound.
pub proof fn initialized_record_binds(created: InitializeView, ctx: TransferHookView)
    requires
        initialize_outcome(created) is Ok,
        ctx.program_id == created.program_id,
        ctx.accounts.len() >= ACCOUNT_COUNT,
        ctx.accounts[MINT as int].address == created.mint,
        ctx.accounts[RECORD as int].address@ == initialized(
            created,
        ).extra_account_meta_list->0.address,
        ctx.record_data == initialized(created).extra_account_meta_list->0.data,
        binding_outcome(
            fee_descriptors(
                created.secondary_mint,
                created.token_program,
                created.associated_token_program,
            ),
            ctx.accounts,
            ctx.program_id,
        ) is Ok,
        authority_matches(
            ctx.program_id,
            ctx.authority_bump,
            ctx.accounts[AUTHORITY as int].address,
        ),
    ensures
        bound(ctx),
{
    let descriptors = fee_descriptors(
        created.secondary_mint,
        created.token_program,
        created.associated_token_program,
    );
    fee_descriptors_wf(
        created.secondary_mint,
        created.token_program,
        created.associated_token_program,
    );
    parsed_record_of_bytes(descriptors);
}

/// Where the accounts are bound and the entry of the signing authority is
/// exchanged with an entry of another address, the hook aborts with
/// `AuthorityMismatch`: no fee moves.
pub proof fn swapped_authority_moves_no_fee(ctx: TransferHookView, other: int, amount: u64)
    requires
        bound(ctx),
        0 <= other < ctx.accounts.len(),
        ctx.accounts[other].address != ctx.accounts[AUTHORITY as int].address,
    ensures
        hook_outcome(
            TransferHookView { accounts: swapped(ctx.accounts, AUTHORITY as int, other), ..ctx },
            amount,
        ) == Err::<TransferHookView, HookError>(HookError::AuthorityMismatch),
{
    if ctx.accounts[other].address@ == ctx.accounts[AUTHORITY as int].address@ {
        same_bytes_same_address(
            ctx.accounts[other].address,
            ctx.accounts[AUTHORITY as int].address,
        );
    }
}

/// Where the accounts are bound and the entries of two described accounts of
/// different addresses are exchanged, the hook aborts with
/// `AuthorityMismatch`: no fee moves.
pub proof fn swapped_accounts_move_no_fee(ctx: TransferHookView, i: int, j: int, amount: u64)
    requires
        bound(ctx),
        BASE_ACCOUNTS <= i < j < ACCOUNT_COUNT,
        ctx.accounts[i].address != ctx.accounts[j].address,
    ensures
        hook_outcome(
            TransferHookView { accounts: swapped(ctx.accounts, i, j), ..ctx },
            amount,
        ) == Err::<TransferHookView, HookError>(HookError::AuthorityMismatch),
{
    let descriptors = parsed_record(ctx.record_data)->0;
    swapped_accounts_are_not_bound(descriptors, ctx.accounts, ctx.program_id, i, j);
}

/// A hook that succeeds takes exactly the amount from the fee source, gives
/// exactly the amount to the fee destination, adds exactly one to the counter
/// and leaves every other account as it was.
pub proof fn completed_hook_moves_the_fee(ctx: TransferHookView, amount: u64)
    requires
        hook_outcome(ctx, amount) is Ok,
    ensures
        ({
            let after = hook_outcome(ctx, amount)->Ok_0;
            &&& after.accounts.len() == ctx.accounts.len()
            &&& after.accounts[FEE_SOURCE as int].balance + amount
                == ctx.accounts[FEE_SOURCE as int].balance
            &&& after.accounts[FEE_DESTINATION as int].balance
                == ctx.accounts[FEE_DESTINATION as int].balance + amount
            &&& forall|k: int|
                0 <= k < ctx.accounts.len() ==> (#[trigger] after.accounts[k]).address
                    == ctx.accounts[k].address
            &&& forall|k: int|
                0 <= k < ctx.accounts.len() && k != FEE_SOURCE && k != FEE_DESTINATION
                    ==> #[trigger] after.accounts[k] == ctx.accounts[k]
            &&& ctx.counter matches Some(counter) ==> after.counter == Some(
                Counter { count: (counter.count + 1) as u64, ..counter },
            ) && counter.count < u64::MAX
            &&& ctx.counter is None ==> after.counter is None
            &&& after.program_id == ctx.program_id
            &&& after.authority_bump == ctx.authority_bump
        }),
{
}

/// The hook changes no account but the described ones that the fee policy
/// declares writable.
pub proof fn changed_accounts_are_declared_writable(ctx: TransferHookView, amount: u64, k: int)
    requires
        hook_outcome(ctx, amount) is Ok,
        0 <= k < ctx.accounts.len(),
        hook_outcome(ctx, amount)->Ok_0.accounts[k] != ctx.accounts[k],
    ensures
        BASE_ACCOUNTS <= k < ACCOUNT_COUNT,
        forall|a: Address, b: Address, c: Address|
            (#[trigger] fee_descriptors(a, b, c))[k - BASE_ACCOUNTS].is_writable,
{
}

/// A hook whose counter stands at the highest count aborts: the count does
/// not start again at zero. With bound accounts and a fee that can be moved,
/// the error is `ArithmeticOverflow`.
pub proof fn saturated_counter_aborts(ctx: TransferHookView, amount: u64)
    requires
        ctx.counter matches Some(counter) && counter.count == u64::MAX,
    ensures
        hook_outcome(ctx, amount) is Err,
        bound(ctx) && fee_moved(
            ctx.accounts[FEE_SOURCE as int].balance,
            ctx.accounts[FEE_DESTINATION as int].balance,
            amount,
        ) is Ok ==> hook_outcome(ctx, amount) == Err::<TransferHookView, HookError>(
            HookError::ArithmeticOverflow,
        ),
{
}

/// The signing authority of a program: an address that no key signs for, and
/// the bump that derives it from the label.
#[derive(Clone, Copy, Debug, PartialEq, Eq)]
pub struct SigningAuthority {
    pub address: Address,
    pub bump: u8,
}

impl SigningAuthority {
    /// What creating the signing authority of a program gives: its address
    /// and bump, or the error with which the creation aborts.
    pub open spec fn creation(existing: Option<SigningAuthority>, program: Address) -> Result<
        (Seq<u8>, u8),
        HookError,
    > {
        if existing is Some {
            Err(HookError::AlreadyInitialized)
        } else {
            match found_address(authority_seeds(), program@) {
                Some(found) => Ok(found),
                None => Err(HookError::SeedResolutionError(SeedResolutionError::SearchExhausted)),
            }
        }
    }

    /// Creates the signing authority of the program in `slot`: derives its
    /// address from the label and records the bump. Where the slot holds an
    /// authority already, the creation fails and the slot stays as it was.
    pub fn create(slot: &mut Option<SigningAuthority>, program: &Address) -> (r: Result<
        (),
        HookError,
    >)
        ensures
            match Self::creation(*old(slot), *program) {
                Ok((address, bump)) => {
                    &&& r is Ok
                    &&& *final(slot) matches Some(authority)
                    &&& authority.address@ == address
                    &&& authority.bump == bump
                    &&& authority_matches(*program, bump, authority.address)
                },
                Err(e) => r == Err::<(), HookError>(e) && *final(slot) == *old(slot),
            },
    {
        if slot.is_some() {
            return Err(HookError::AlreadyInitialized);
        }
        match find_address(&authority_signer_seeds(), program) {
            Ok((address, bump)) => {
                proof {
                    found_address_is_derived(authority_seeds(), program@);
                }
                *slot = Some(SigningAuthority { address, bump });
                Ok(())
            },
            Err(e) => Err(HookError::SeedResolutionError(e)),
        }
    }
}

} // verus!
