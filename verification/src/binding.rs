//! Binding by position: each described account has to stand at its place of
//! the account list, with the address that its descriptor resolves to.

use crate::accounts::AccountEntry;
use crate::address::{same_bytes_same_address, Address};
use crate::error::{HookError, SeedResolutionError};
use crate::layout::BASE_ACCOUNTS;
use crate::record::{
    AccountDescriptor, DescriptorView, ExtraAccountMetadataRecord, Resolution, ResolutionView,
};
use crate::seeds::{derive_address, derived_address};
use vstd::prelude::*;

verus! {

/// The program under which a formula derives: this program, or the one at a
/// position of the account list, where the list has that position.
pub open spec fn deriving_program(
    external_program: Option<u8>,
    accounts: Seq<AccountEntry>,
    program: Address,
) -> Option<Address> {
    match external_program {
        None => Some(program),
        Some(position) => if position < accounts.len() {
            Some(accounts[position as int].address)
        } else {
            None
        },
    }
}

/// The address that a resolution stands for, given the accounts that it may
/// refer to.
pub open spec fn resolved_address(
    resolution: ResolutionView,
    accounts: Seq<AccountEntry>,
    program: Address,
) -> Result<Seq<u8>, SeedResolutionError> {
    match resolution {
        ResolutionView::FixedAddress(address) => Ok(address@),
        ResolutionView::SeedDerived { terms, external_program } => match deriving_program(
            external_program,
            accounts,
            program,
        ) {
            None => Err(SeedResolutionError::BadReference),
            Some(under) => match derived_address(terms, accounts, under@) {
                Ok((address, _)) => Ok(address),
                Err(e) => Err(e),
            },
        },
    }
}

/// Resolves a descriptor to the address of the account that it describes.
pub fn resolve_account(
    descriptor: &AccountDescriptor,
    accounts: &Vec<AccountEntry>,
    program: &Address,
) -> (r: Result<Address, SeedResolutionError>)
    ensures
        match r {
            Ok(address) => resolved_address(descriptor@.resolution, accounts@, *program) == Ok::<
                Seq<u8>,
                SeedResolutionError,
            >(address@),
            Err(e) => resolved_address(descriptor@.resolution, accounts@, *program) == Err::<
                Seq<u8>,
                SeedResolutionError,
            >(e),
        },
{
    match &descriptor.resolution {
        Resolution::FixedAddress(address) => Ok(*address),
        Resolution::SeedDerived { terms, external_program } => {
            let under = match external_program {
                None => *program,
                Some(position) => {
                    if (*position as usize) < accounts.len() {
                        accounts[*position as usize].address
                    } else {
                        return Err(SeedResolutionError::BadReference);
                    }
                },
            };
            match derive_address(terms, accounts, &under) {
                Ok((address, _)) => Ok(address),
                Err(e) => Err(e),
            }
        },
    }
}

/// Whether the account at the place of descriptor `k` is the one that the
/// descriptor resolves to. A descriptor is resolved against the accounts
/// before its own place.
pub open spec fn binding_at(
    descriptors: Seq<DescriptorView>,
    accounts: Seq<AccountEntry>,
    program: Address,
    k: int,
) -> Result<(), HookError> {
    match resolved_address(
        descriptors[k].resolution,
        accounts.subrange(0, BASE_ACCOUNTS + k),
        program,
    ) {
        Err(e) => Err(HookError::SeedResolutionError(e)),
        Ok(address) => if address == accounts[BASE_ACCOUNTS + k].address@ {
            Ok(())
        } else {
            Err(HookError::AuthorityMismatch)
        },
    }
}

/// The first failure among the bindings of the descriptors from `k` on.
pub open spec fn binding_from(
    descriptors: Seq<DescriptorView>,
    accounts: Seq<AccountEntry>,
    program: Address,
    k: int,
) -> Result<(), HookError>
    decreases descriptors.len() - k,
{
    if k < 0 || k >= descriptors.len() {
        Ok(())
    } else {
        match binding_at(descriptors, accounts, program, k) {
            Err(e) => Err(e),
            Ok(_) => binding_from(descriptors, accounts, program, k + 1),
        }
    }
}

/// What checking the accounts against the descriptors gives: `Ok` where each
/// described account stands at its place, else the first failure. A list that
/// lacks a described account fails with `AuthorityMismatch`.
pub open spec fn binding_outcome(
    descriptors: Seq<DescriptorView>,
    accounts: Seq<AccountEntry>,
    program: Address,
) -> Result<(), HookError> {
    if accounts.len() < BASE_ACCOUNTS + descriptors.len() {
        Err(HookError::AuthorityMismatch)
    } else {
        binding_from(descriptors, accounts, program, 0)
    }
}

/// Checks that the accounts stand in the order that the record declares: the
/// account after the base accounts and the first `k` described ones has the
/// address that descriptor `k` resolves to.
pub fn check_bindings(
    record: &ExtraAccountMetadataRecord,
    accounts: &Vec<AccountEntry>,
    program: &Address,
) -> (r: Result<(), HookError>)
    ensures
        r == binding_outcome(record@, accounts@, *program),
{
    let count: usize = record.descriptors.len();
    let supplied_count: usize = accounts.len();
    if supplied_count < BASE_ACCOUNTS || supplied_count - BASE_ACCOUNTS < count {
        return Err(HookError::AuthorityMismatch);
    }
    let mut before: Vec<AccountEntry> = Vec::new();
    let mut i: usize = 0;
    while i < BASE_ACCOUNTS
        invariant
            i <= BASE_ACCOUNTS <= accounts@.len(),
            before@ == accounts@.subrange(0, i as int),
        decreases BASE_ACCOUNTS - i,
    {
        before.push(accounts[i]);
        i += 1;
    }
    let mut k: usize = 0;
    while k < count
        invariant
            k <= count == record@.len(),
            supplied_count == accounts@.len(),
            BASE_ACCOUNTS + count <= supplied_count,
            before@ == accounts@.subrange(0, BASE_ACCOUNTS + k),
            binding_from(record@, accounts@, *program, 0) == binding_from(
                record@,
                accounts@,
                *program,
                k as int,
            ),
        decreases count - k,
    {
        let supplied = accounts[BASE_ACCOUNTS + k];
        match resolve_account(&record.descriptors[k], &before, program) {
            Err(e) => {
                return Err(HookError::SeedResolutionError(e));
            },
            Ok(address) => {
                if !address.same(&supplied.address) {
                    return Err(HookError::AuthorityMismatch);
                }
            },
        }
        before.push(supplied);
        k += 1;
    }
    Ok(())
}

/// Where the accounts are bound, each described account has the address that
/// its descriptor resolves to.
pub proof fn bound_accounts_resolve(
    descriptors: Seq<DescriptorView>,
    accounts: Seq<AccountEntry>,
    program: Address,
    from: int,
    k: int,
)
    requires
        0 <= from <= k < descriptors.len(),
        binding_from(descriptors, accounts, program, from) is Ok,
    ensures
        binding_at(descriptors, accounts, program, k) is Ok,
    decreases k - from,
{
    if from < k {
        bound_accounts_resolve(descriptors, accounts, program, from + 1, k);
    }
}

/// Where one described account does not stand at its place, the accounts are
/// not bound.
pub proof fn unbound_account_fails(
    descriptors: Seq<DescriptorView>,
    accounts: Seq<AccountEntry>,
    program: Address,
    from: int,
    k: int,
)
    requires
        0 <= from <= k < descriptors.len(),
        binding_at(descriptors, accounts, program, k) is Err,
    ensures
        binding_from(descriptors, accounts, program, from) is Err,
    decreases k - from,
{
    if from < k {
        unbound_account_fails(descriptors, accounts, program, from + 1, k);
    }
}

/// The accounts with the entries at two positions exchanged.
pub open spec fn swapped(accounts: Seq<AccountEntry>, i: int, j: int) -> Seq<AccountEntry> {
    accounts.update(i, accounts[j]).update(j, accounts[i])
}

/// Where the accounts are bound and two described accounts of different
/// addresses are exchanged, the accounts are no longer bound.
pub proof fn swapped_accounts_are_not_bound(
    descriptors: Seq<DescriptorView>,
    accounts: Seq<AccountEntry>,
    program: Address,
    i: int,
    j: int,
)
    requires
        binding_outcome(descriptors, accounts, program) is Ok,
        BASE_ACCOUNTS <= i < j < BASE_ACCOUNTS + descriptors.len(),
        accounts[i].address != accounts[j].address,
    ensures
        binding_outcome(descriptors, swapped(accounts, i, j), program) is Err,
{
    let exchanged = swapped(accounts, i, j);
    let k = i - BASE_ACCOUNTS;
    bound_accounts_resolve(descriptors, accounts, program, 0, k);
    assert(exchanged.subrange(0, i) =~= accounts.subrange(0, i));
    if accounts[i].address@ == accounts[j].address@ {
        same_bytes_same_address(accounts[i].address, accounts[j].address);
    }
    unbound_account_fails(descriptors, exchanged, program, 0, k);
}

} // verus!
