//! The accounts that an invocation is given, as plain values.

use crate::address::Address;
use crate::error::HookError;
use vstd::prelude::*;

verus! {

/// One account of the caller-supplied list. The position of an entry in the
/// list is what binds it to its role.
#[derive(Clone, Copy, Debug, PartialEq, Eq)]
pub struct AccountEntry {
    pub address: Address,
    /// What the account holds: the secondary asset in a fee account, funds in
    /// a payer.
    pub balance: u64,
}

/// Counts the successful invocations of the hook.
#[derive(Clone, Copy, Debug, PartialEq, Eq)]
pub struct Counter {
    pub count: u64,
    pub derivation_bump: u8,
}

impl Counter {
    /// A counter at zero, as it is created.
    pub fn new(derivation_bump: u8) -> (r: Counter)
        ensures
            r == (Counter { count: 0, derivation_bump }),
    {
        Counter { count: 0, derivation_bump }
    }

    /// What `increment` leaves and returns.
    pub open spec fn incremented(self) -> Result<Counter, HookError> {
        if self.count < u64::MAX {
            Ok(Counter { count: (self.count + 1) as u64, derivation_bump: self.derivation_bump })
        } else {
            Err(HookError::ArithmeticOverflow)
        }
    }

    /// Adds one to the count. A saturated counter is left as it is.
    pub fn increment(&mut self) -> (r: Result<(), HookError>)
        ensures
            match old(self).incremented() {
                Ok(c) => r is Ok && *final(self) == c,
                Err(e) => r == Err::<(), HookError>(e) && *final(self) == *old(self),
            },
    {
        match self.count.checked_add(1) {
            Some(next) => {
                self.count = next;
                Ok(())
            },
            None => Err(HookError::ArithmeticOverflow),
        }
    }
}

/// Position of the account that the transfer takes from.
pub const SOURCE: usize = 0;

/// Position of the descriptor of the transferred asset.
pub const MINT: usize = 1;

/// Position of the account that the transfer gives to.
pub const DESTINATION: usize = 2;

/// Position of the owner who started the transfer.
pub const OWNER: usize = 3;

/// Position of the extra-account metadata record.
pub const RECORD: usize = 4;

/// Position of the descriptor of the secondary asset.
pub const SECONDARY_MINT: usize = 5;

/// Position of the program that moves assets.
pub const TOKEN_PROGRAM: usize = 6;

/// Position of the program under which the fee accounts are derived.
pub const ASSOCIATED_TOKEN_PROGRAM: usize = 7;

/// Position of the owner's account in the secondary asset, which pays the fee.
pub const FEE_SOURCE: usize = 8;

/// Position of the signing authority.
pub const AUTHORITY: usize = 9;

/// Position of the authority's account in the secondary asset, which
/// receives the fee.
pub const FEE_DESTINATION: usize = 10;

/// Number of accounts that the hook is invoked with.
pub const ACCOUNT_COUNT: usize = 11;

/// Number of accounts that the record describes: those from the secondary
/// asset on.
pub const DESCRIBED_ACCOUNTS: usize = 6;

/// The storage of the record, as it is persisted at the record's address.
#[derive(Clone, Debug, PartialEq, Eq)]
pub struct RecordAccount {
    pub address: Address,
    /// The bump with which the seeds of the record derive `address`.
    pub bump: u8,
    /// The program that owns the storage.
    pub owner: Address,
    pub funds: u64,
    /// The bytes of the record.
    pub data: Vec<u8>,
}

/// The storage of the record as a mathematical value.
pub struct RecordAccountView {
    pub address: Seq<u8>,
    pub bump: u8,
    pub owner: Address,
    pub funds: u64,
    pub data: Seq<u8>,
}

impl View for RecordAccount {
    type V = RecordAccountView;

    open spec fn view(&self) -> RecordAccountView {
        RecordAccountView {
            address: self.address@,
            bump: self.bump,
            owner: self.owner,
            funds: self.funds,
            data: self.data@,
        }
    }
}

/// What the initialization is invoked with.
#[derive(Clone, Debug, PartialEq, Eq)]
pub struct InitializeExtraAccountMetaList {
    pub program_id: Address,
    /// Pays for the storage; its balance is in funds.
    pub payer: AccountEntry,
    /// The storage of the record: `None` until it is created.
    pub extra_account_meta_list: Option<RecordAccount>,
    /// The asset whose transfers the hook watches.
    pub mint: Address,
    /// The asset in which the fee is paid.
    pub secondary_mint: Address,
    pub token_program: Address,
    pub associated_token_program: Address,
    /// The least funds that keep storage of the record's size alive.
    pub rent_exempt_minimum: u64,
}

/// The initialization's accounts as a mathematical value.
pub struct InitializeView {
    pub program_id: Address,
    pub payer: AccountEntry,
    pub extra_account_meta_list: Option<RecordAccountView>,
    pub mint: Address,
    pub secondary_mint: Address,
    pub token_program: Address,
    pub associated_token_program: Address,
    pub rent_exempt_minimum: u64,
}

impl View for InitializeExtraAccountMetaList {
    type V = InitializeView;

    open spec fn view(&self) -> InitializeView {
        InitializeView {
            program_id: self.program_id,
            payer: self.payer,
            extra_account_meta_list: match self.extra_account_meta_list {
                Some(account) => Some(account@),
                None => None,
            },
            mint: self.mint,
            secondary_mint: self.secondary_mint,
            token_program: self.token_program,
            associated_token_program: self.associated_token_program,
            rent_exempt_minimum: self.rent_exempt_minimum,
        }
    }
}

/// What the hook is invoked with.
#[derive(Clone, Debug, PartialEq, Eq)]
pub struct TransferHook {
    pub program_id: Address,
    /// The accounts in the order in which the caller supplied them.
    pub accounts: Vec<AccountEntry>,
    /// The bytes that are persisted at the address of the record.
    pub record_data: Vec<u8>,
    /// The bump that was recorded when the signing authority was created.
    pub authority_bump: u8,
    /// The counter, where the program keeps one.
    pub counter: Option<Counter>,
}

/// The hook's accounts as a mathematical value.
pub struct TransferHookView {
    pub program_id: Address,
    pub accounts: Seq<AccountEntry>,
    pub record_data: Seq<u8>,
    pub authority_bump: u8,
    pub counter: Option<Counter>,
}

impl View for TransferHook {
    type V = TransferHookView;

    open spec fn view(&self) -> TransferHookView {
        TransferHookView {
            program_id: self.program_id,
            accounts: self.accounts@,
            record_data: self.record_data@,
            authority_bump: self.authority_bump,
            counter: self.counter,
        }
    }
}

} // verus!
