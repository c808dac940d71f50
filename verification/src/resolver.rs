//! The account-meta resolver: builds the descriptors of the accounts that the
//! hook needs, and creates the record that holds them.

use crate::accounts::{
    AccountEntry, InitializeExtraAccountMetaList, InitializeView, RecordAccount,
    RecordAccountView, ASSOCIATED_TOKEN_PROGRAM, AUTHORITY, DESCRIBED_ACCOUNTS, OWNER,
    SECONDARY_MINT, TOKEN_PROGRAM,
};
use crate::address::Address;
use crate::bytes::copy_bytes;
use crate::error::{HookError, SeedResolutionError};
use crate::layout::{
    formula_bytes, record_bytes, record_bytes_parts, record_len, record_wf, BASE_ACCOUNTS,
    DESCRIPTOR_BYTES, HEADER_BYTES,
};
use crate::record::{
    AccountDescriptor, DescriptorView, ExtraAccountMetadataRecord, ResolutionView,
};
use crate::seeds::{
    find_address, found_address, found_address_is_derived, program_address, with_bump, SeedTerm,
    SeedTermView,
};
use vstd::prelude::*;

verus! {

/// The label in the seeds of the record: `extra-account-metas`.
pub const RECORD_LABEL: [u8; 19] = [
    101, 120, 116, 114, 97, 45, 97, 99, 99, 111, 117, 110, 116, 45, 109, 101, 116, 97, 115,
];

/// The label in the seeds of the signing authority: `delegate`.
pub const AUTHORITY_LABEL: [u8; 8] = [100, 101, 108, 101, 103, 97, 116, 101];

/// The seeds of the record of an asset: the label, then the asset's address.
pub open spec fn record_seeds(mint: Address) -> Seq<Seq<u8>> {
    seq![RECORD_LABEL@, mint@]
}

/// The seeds of the signing authority: the label.
pub open spec fn authority_seeds() -> Seq<Seq<u8>> {
    seq![AUTHORITY_LABEL@]
}

/// The formula of the fee account that `holder` has in the secondary asset.
pub open spec fn fee_account_formula(holder: u8) -> Seq<SeedTermView> {
    seq![
        SeedTermView::AccountRef(holder),
        SeedTermView::AccountRef(TOKEN_PROGRAM as u8),
        SeedTermView::AccountRef(SECONDARY_MINT as u8),
    ]
}

/// The descriptor of a fee account.
pub open spec fn fee_account_descriptor(holder: u8) -> DescriptorView {
    DescriptorView {
        resolution: ResolutionView::SeedDerived {
            terms: fee_account_formula(holder),
            external_program: Some(ASSOCIATED_TOKEN_PROGRAM as u8),
        },
        is_signer: false,
        is_writable: true,
    }
}

/// A descriptor of a fixed address that neither signs nor is written.
pub open spec fn fixed_descriptor(address: Address) -> DescriptorView {
    DescriptorView {
        resolution: ResolutionView::FixedAddress(address),
        is_signer: false,
        is_writable: false,
    }
}

/// The descriptors of the accounts that the hook needs beyond those of the
/// transfer and the record: the fixed ones first, then the derived ones, each
/// of which refers to earlier positions only.
pub open spec fn fee_descriptors(
    secondary_mint: Address,
    token_program: Address,
    associated_token_program: Address,
) -> Seq<DescriptorView> {
    seq![
        fixed_descriptor(secondary_mint),
        fixed_descriptor(token_program),
        fixed_descriptor(associated_token_program),
        fee_account_descriptor(OWNER as u8),
        DescriptorView {
            resolution: ResolutionView::SeedDerived {
                terms: seq![SeedTermView::Literal(AUTHORITY_LABEL@)],
                external_program: None,
            },
            is_signer: false,
            is_writable: true,
        },
        fee_account_descriptor(AUTHORITY as u8),
    ]
}

/// The descriptors of the fee policy make a record.
pub proof fn fee_descriptors_wf(
    secondary_mint: Address,
    token_program: Address,
    associated_token_program: Address,
)
    ensures
        record_wf(fee_descriptors(secondary_mint, token_program, associated_token_program)),
{
    reveal_with_fuel(formula_bytes, 4);
    let all = fee_descriptors(secondary_mint, token_program, associated_token_program);
    assert forall|k: int| 0 <= k < all.len() implies {
        &&& (#[trigger] all[k]).resolution.fits()
        &&& all[k].resolution.refers_below((BASE_ACCOUNTS + k) as nat)
    } by {
        if k >= 3 {
            let terms = all[k].resolution->terms;
            assert(formula_bytes(terms).len() == if k == 4 {
                10int
            } else {
                6int
            });
        }
    }
}

/// A fee account's descriptor: derived under the program at the position of
/// the associated-token program from the holder, the token program and the
/// secondary asset.
fn fee_account(holder: u8) -> (r: AccountDescriptor)
    ensures
        r@ == fee_account_descriptor(holder),
{
    let mut terms: Vec<SeedTerm> = Vec::new();
    terms.push(SeedTerm::AccountRef(holder));
    terms.push(SeedTerm::AccountRef(TOKEN_PROGRAM as u8));
    terms.push(SeedTerm::AccountRef(SECONDARY_MINT as u8));
    assert(terms.deep_view() =~= fee_account_formula(holder));
    AccountDescriptor::seed_derived(terms, Some(ASSOCIATED_TOKEN_PROGRAM as u8), false, true)
}

/// Builds the descriptors of the fee policy, in the order in which the
/// accounts have to be supplied.
pub fn fee_account_descriptors(
    secondary_mint: Address,
    token_program: Address,
    associated_token_program: Address,
) -> (r: Vec<AccountDescriptor>)
    ensures
        r.deep_view() == fee_descriptors(secondary_mint, token_program, associated_token_program),
        record_wf(r.deep_view()),
{
    let mut authority_terms: Vec<SeedTerm> = Vec::new();
    authority_terms.push(SeedTerm::Literal(copy_bytes(AUTHORITY_LABEL.as_slice())));
    assert(authority_terms.deep_view() =~= seq![SeedTermView::Literal(AUTHORITY_LABEL@)]);
    let mut all: Vec<AccountDescriptor> = Vec::new();
    all.push(AccountDescriptor::fixed(secondary_mint, false, false));
    all.push(AccountDescriptor::fixed(token_program, false, false));
    all.push(AccountDescriptor::fixed(associated_token_program, false, false));
    all.push(fee_account(OWNER as u8));
    all.push(AccountDescriptor::seed_derived(authority_terms, None, false, true));
    all.push(fee_account(AUTHORITY as u8));
    proof {
        fee_descriptors_wf(secondary_mint, token_program, associated_token_program);
    }
    all
}

/// The storage that the initialization creates for an asset whose record
/// has `address` and `bump`.
pub open spec fn created_record(ctx: InitializeView, address: Seq<u8>, bump: u8)
    -> RecordAccountView {
    RecordAccountView {
        address,
        bump,
        owner: ctx.program_id,
        funds: ctx.rent_exempt_minimum,
        data: record_bytes(
            fee_descriptors(ctx.secondary_mint, ctx.token_program, ctx.associated_token_program),
        ),
    }
}

/// What the initialization does: the accounts as it leaves them, or the error
/// with which it aborts.
pub open spec fn initialize_outcome(ctx: InitializeView) -> Result<InitializeView, HookError> {
    match found_address(record_seeds(ctx.mint), ctx.program_id@) {
        None => Err(HookError::SeedResolutionError(SeedResolutionError::SearchExhausted)),
        Some((address, bump)) => {
            if ctx.extra_account_meta_list is Some {
                Err(HookError::AlreadyInitialized)
            } else if ctx.payer.balance < ctx.rent_exempt_minimum {
                Err(HookError::InsufficientFunds)
            } else {
                Ok(
                    InitializeView {
                        payer: AccountEntry {
                            address: ctx.payer.address,
                            balance: (ctx.payer.balance - ctx.rent_exempt_minimum) as u64,
                        },
                        extra_account_meta_list: Some(created_record(ctx, address, bump)),
                        ..ctx
                    },
                )
            }
        },
    }
}

/// The seeds of the record of an asset.
pub fn record_signer_seeds(mint: &Address) -> (r: Vec<Vec<u8>>)
    ensures
        r.deep_view() == record_seeds(*mint),
{
    let mut seeds: Vec<Vec<u8>> = Vec::new();
    seeds.push(copy_bytes(RECORD_LABEL.as_slice()));
    seeds.push(mint.to_vec());
    assert(seeds.deep_view() =~~= record_seeds(*mint));
    seeds
}

/// The number of bytes of the storage that the initialization creates.
pub fn required_space() -> (r: usize)
    ensures
        r == record_len(DESCRIBED_ACCOUNTS as nat),
{
    HEADER_BYTES + DESCRIPTOR_BYTES * DESCRIBED_ACCOUNTS
}

/// Creates the record of an asset: derives the record's address from the
/// label and the asset's address, takes the funds for the storage from the
/// payer, and writes the descriptors of the fee policy. Whatever fails, the
/// accounts stay as they were. Of several failures the first in this order is
/// reported: no address for the record, a record that exists, a payer
/// without the funds.
pub fn initialize_extra_account_meta_list(ctx: &mut InitializeExtraAccountMetaList) -> (r: Result<
    (),
    HookError,
>)
    ensures
        match initialize_outcome(old(ctx)@) {
            Ok(after) => r is Ok && final(ctx)@ == after,
            Err(e) => r == Err::<(), HookError>(e) && *final(ctx) == *old(ctx),
        },
{
    let descriptors = fee_account_descriptors(
        ctx.secondary_mint,
        ctx.token_program,
        ctx.associated_token_program,
    );
    let record = ExtraAccountMetadataRecord { descriptors };
    let seeds = record_signer_seeds(&ctx.mint);
    let (address, bump) = match find_address(&seeds, &ctx.program_id) {
        Ok(found) => found,
        Err(e) => {
            return Err(HookError::SeedResolutionError(e));
        },
    };
    if ctx.extra_account_meta_list.is_some() {
        return Err(HookError::AlreadyInitialized);
    }
    if ctx.payer.balance < ctx.rent_exempt_minimum {
        return Err(HookError::InsufficientFunds);
    }
    let data = record.encode();
    ctx.payer.balance = ctx.payer.balance - ctx.rent_exempt_minimum;
    ctx.extra_account_meta_list = Some(
        RecordAccount {
            address,
            bump,
            owner: ctx.program_id,
            funds: ctx.rent_exempt_minimum,
            data,
        },
    );
    Ok(())
}

/// The accounts after an invocation of the initialization: as it leaves
/// them where it succeeds, as they were where it aborts.
pub open spec fn initialized(ctx: InitializeView) -> InitializeView {
    match initialize_outcome(ctx) {
        Ok(after) => after,
        Err(_) => ctx,
    }
}

/// The initialization happens once: after it has succeeded for an asset, a
/// second invocation aborts with `AlreadyInitialized`, and the record is what
/// the first one wrote.
pub proof fn second_initialization_fails(ctx: InitializeView)
    requires
        initialize_outcome(ctx) is Ok,
    ensures
        initialize_outcome(initialized(ctx)) == Err::<InitializeView, HookError>(
            HookError::AlreadyInitialized,
        ),
        initialized(initialized(ctx)) == initialized(ctx),
        initialized(ctx).extra_account_meta_list matches Some(account) && account.data
            == record_bytes(
            fee_descriptors(ctx.secondary_mint, ctx.token_program, ctx.associated_token_program),
        ),
{
}

/// What the initialization takes from the payer is what the record's storage
/// gets, and the storage is owned by the program, at the address that the
/// record's seeds derive with the recorded bump.
pub proof fn initialization_funds_the_record(ctx: InitializeView)
    requires
        initialize_outcome(ctx) is Ok,
    ensures
        ({
            let after = initialized(ctx);
            let account = after.extra_account_meta_list->0;
            &&& ctx.extra_account_meta_list is None
            &&& after.payer.balance + account.funds == ctx.payer.balance
            &&& account.funds == ctx.rent_exempt_minimum
            &&& account.owner == ctx.program_id
            &&& account.data.len() == record_len(DESCRIBED_ACCOUNTS as nat)
            &&& program_address(with_bump(record_seeds(ctx.mint), account.bump), ctx.program_id@)
                == Some(account.address)
        }),
{
    fee_descriptors_wf(ctx.secondary_mint, ctx.token_program, ctx.associated_token_program);
    record_bytes_parts(
        fee_descriptors(ctx.secondary_mint, ctx.token_program, ctx.associated_token_program),
    );
    found_address_is_derived(record_seeds(ctx.mint), ctx.program_id@);
}

} // verus!
