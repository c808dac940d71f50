use transfer_hook::accounts::{
    AccountEntry, Counter, ACCOUNT_COUNT, AUTHORITY, FEE_DESTINATION, FEE_SOURCE, MINT, OWNER,
    RECORD,
};
use transfer_hook::address::Address;
use transfer_hook::binding::resolve_account;
use transfer_hook::error::HookError;
use transfer_hook::hook::{
    authority_signer_seeds, move_fee, verify_authority, HookState, SigningAuthority,
};
use transfer_hook::record::ExtraAccountMetadataRecord;
use transfer_hook::seeds::find_address;
use transfer_hook::{
    initialize_extra_account_meta_list, transfer_hook, InitializeExtraAccountMetaList,
    TransferHook,
};

fn address(fill: u8) -> Address {
    Address::new([fill; 32])
}

/// Accounts in the declared order: the record is created by the
/// initialization, and each described account gets the address that its
/// descriptor resolves to.
fn bound_hook(fee_source: u64, fee_destination: u64, counter: Option<Counter>) -> TransferHook {
    let program_id = address(42);
    let mut created = InitializeExtraAccountMetaList {
        program_id,
        payer: AccountEntry { address: address(1), balance: 5_000 },
        extra_account_meta_list: None,
        mint: address(101),
        secondary_mint: address(105),
        token_program: address(106),
        associated_token_program: address(107),
        rent_exempt_minimum: 2_408,
    };
    initialize_extra_account_meta_list(&mut created).unwrap();
    let storage = created.extra_account_meta_list.unwrap();
    let record = ExtraAccountMetadataRecord::decode(&storage.data).unwrap();
    let mut accounts: Vec<AccountEntry> = vec![
        AccountEntry { address: address(100), balance: 0 },
        AccountEntry { address: address(101), balance: 0 },
        AccountEntry { address: address(102), balance: 0 },
        AccountEntry { address: address(103), balance: 0 },
        AccountEntry { address: storage.address, balance: 0 },
    ];
    for descriptor in &record.descriptors {
        let resolved = resolve_account(descriptor, &accounts, &program_id).unwrap();
        accounts.push(AccountEntry { address: resolved, balance: 0 });
    }
    assert_eq!(accounts.len(), ACCOUNT_COUNT);
    accounts[FEE_SOURCE].balance = fee_source;
    accounts[FEE_DESTINATION].balance = fee_destination;
    let mut slot = None;
    SigningAuthority::create(&mut slot, &program_id).unwrap();
    let authority = slot.unwrap();
    assert_eq!(authority.address, accounts[AUTHORITY].address);
    TransferHook {
        program_id,
        accounts,
        record_data: storage.data,
        authority_bump: authority.bump,
        counter,
    }
}

#[test]
fn funded_hook_moves_the_fee_and_counts() {
    let mut ctx = bound_hook(1_200, 30, Some(Counter::new(254)));
    let before = ctx.clone();
    assert_eq!(transfer_hook(&mut ctx, 500), Ok(()));
    assert_eq!(ctx.accounts[FEE_SOURCE].balance, 700);
    assert_eq!(ctx.accounts[FEE_DESTINATION].balance, 530);
    assert_eq!(ctx.counter, Some(Counter { count: 1, derivation_bump: 254 }));
    for position in 0..ACCOUNT_COUNT {
        assert_eq!(ctx.accounts[position].address, before.accounts[position].address);
        if position != FEE_SOURCE && position != FEE_DESTINATION {
            assert_eq!(ctx.accounts[position], before.accounts[position]);
        }
    }
    assert_eq!(ctx.program_id, before.program_id);
    assert_eq!(ctx.authority_bump, before.authority_bump);
}

#[test]
fn empty_fee_source_aborts_with_insufficient_balance() {
    let mut ctx = bound_hook(0, 0, Some(Counter::new(1)));
    let before = ctx.clone();
    assert_eq!(transfer_hook(&mut ctx, 1_000), Err(HookError::InsufficientBalance));
    assert_eq!(ctx, before);
    assert_eq!(ctx.counter, Some(Counter { count: 0, derivation_bump: 1 }));
}

#[test]
fn hook_without_counter_moves_the_fee() {
    let mut ctx = bound_hook(500, 0, None);
    assert_eq!(transfer_hook(&mut ctx, 500), Ok(()));
    assert_eq!(ctx.accounts[FEE_SOURCE].balance, 0);
    assert_eq!(ctx.accounts[FEE_DESTINATION].balance, 500);
    assert_eq!(ctx.counter, None);
    assert_eq!(transfer_hook(&mut ctx, 0), Ok(()));
    assert_eq!(transfer_hook(&mut ctx, 1), Err(HookError::InsufficientBalance));
}

#[test]
fn saturated_counter_aborts_and_nothing_moves() {
    let full = Counter { count: u64::MAX, derivation_bump: 9 };
    let mut ctx = bound_hook(1_000, 0, Some(full));
    let before = ctx.clone();
    assert_eq!(transfer_hook(&mut ctx, 500), Err(HookError::ArithmeticOverflow));
    assert_eq!(ctx, before);
    assert_eq!(ctx.counter, Some(full));
}

#[test]
fn counter_adds_one_or_stays() {
    let mut counter = Counter::new(3);
    assert_eq!(counter, Counter { count: 0, derivation_bump: 3 });
    assert_eq!(counter.increment(), Ok(()));
    assert_eq!(counter.count, 1);
    let mut last = Counter { count: u64::MAX - 1, derivation_bump: 3 };
    assert_eq!(last.increment(), Ok(()));
    assert_eq!(last.count, u64::MAX);
    assert_eq!(last.increment(), Err(HookError::ArithmeticOverflow));
    assert_eq!(last, Counter { count: u64::MAX, derivation_bump: 3 });
}

#[test]
fn fee_that_overflows_the_destination_aborts() {
    let mut ctx = bound_hook(10, u64::MAX - 5, None);
    let before = ctx.clone();
    assert_eq!(transfer_hook(&mut ctx, 6), Err(HookError::ArithmeticOverflow));
    assert_eq!(ctx, before);
    assert_eq!(transfer_hook(&mut ctx, 5), Ok(()));
    assert_eq!(ctx.accounts[FEE_DESTINATION].balance, u64::MAX);
}

#[test]
fn move_fee_is_exact() {
    assert_eq!(move_fee(500, 0, 500), Ok((0, 500)));
    assert_eq!(move_fee(1_000, 7, 1), Ok((999, 8)));
    assert_eq!(move_fee(499, 0, 500), Err(HookError::InsufficientBalance));
    assert_eq!(move_fee(1, u64::MAX, 1), Err(HookError::ArithmeticOverflow));
    assert_eq!(move_fee(0, u64::MAX, 1), Err(HookError::InsufficientBalance));
}

#[test]
fn swapped_authority_slot_moves_no_fee() {
    for other in 0..ACCOUNT_COUNT {
        if other == AUTHORITY {
            continue;
        }
        let mut ctx = bound_hook(1_000, 0, Some(Counter::new(0)));
        ctx.accounts.swap(AUTHORITY, other);
        let before = ctx.clone();
        assert_eq!(transfer_hook(&mut ctx, 500), Err(HookError::AuthorityMismatch));
        assert_eq!(ctx, before);
    }
}

#[test]
fn swapped_described_accounts_move_no_fee() {
    for first in RECORD + 1..ACCOUNT_COUNT {
        for second in first + 1..ACCOUNT_COUNT {
            let mut ctx = bound_hook(1_000, 700, None);
            ctx.accounts.swap(first, second);
            let before = ctx.clone();
            assert_eq!(transfer_hook(&mut ctx, 500), Err(HookError::AuthorityMismatch));
            assert_eq!(ctx, before);
        }
    }
}

#[test]
fn accounts_that_are_not_the_described_ones_are_refused() {
    // another owner: the fee source is not the account that the owner has
    let mut ctx = bound_hook(1_000, 0, None);
    ctx.accounts[OWNER].address = address(9);
    assert_eq!(transfer_hook(&mut ctx, 1), Err(HookError::AuthorityMismatch));
    // another asset: the record is not the record of that asset
    let mut ctx = bound_hook(1_000, 0, None);
    ctx.accounts[MINT].address = address(9);
    assert_eq!(transfer_hook(&mut ctx, 1), Err(HookError::AuthorityMismatch));
    // a record at another address
    let mut ctx = bound_hook(1_000, 0, None);
    ctx.accounts[RECORD].address = address(9);
    assert_eq!(transfer_hook(&mut ctx, 1), Err(HookError::AuthorityMismatch));
    // bytes that hold no record, a record that describes too little
    let mut ctx = bound_hook(1_000, 0, None);
    ctx.record_data.clear();
    assert_eq!(transfer_hook(&mut ctx, 1), Err(HookError::AuthorityMismatch));
    ctx.record_data = ExtraAccountMetadataRecord::new(Vec::new()).unwrap().encode();
    assert_eq!(transfer_hook(&mut ctx, 1), Err(HookError::AuthorityMismatch));
    // another fee destination
    let mut ctx = bound_hook(1_000, 0, None);
    ctx.accounts[FEE_DESTINATION].address = address(9);
    assert_eq!(transfer_hook(&mut ctx, 1), Err(HookError::AuthorityMismatch));
    assert_eq!(ctx.accounts[FEE_SOURCE].balance, 1_000);
}

#[test]
fn wrong_bump_or_program_is_an_authority_mismatch() {
    let mut ctx = bound_hook(1_000, 0, None);
    ctx.authority_bump = ctx.authority_bump.wrapping_sub(1);
    assert_eq!(transfer_hook(&mut ctx, 1), Err(HookError::AuthorityMismatch));
    let mut ctx = bound_hook(1_000, 0, None);
    ctx.program_id = address(43);
    assert_eq!(transfer_hook(&mut ctx, 1), Err(HookError::AuthorityMismatch));
    assert_eq!(ctx.accounts[FEE_SOURCE].balance, 1_000);
}

#[test]
fn missing_accounts_are_an_authority_mismatch() {
    let mut ctx = bound_hook(1_000, 0, None);
    ctx.accounts.truncate(ACCOUNT_COUNT - 1);
    assert_eq!(transfer_hook(&mut ctx, 1), Err(HookError::AuthorityMismatch));
    ctx.accounts.clear();
    assert_eq!(transfer_hook(&mut ctx, 1), Err(HookError::AuthorityMismatch));
    let mut ctx = bound_hook(1_000, 0, None);
    ctx.accounts.push(AccountEntry { address: address(1), balance: 5 });
    assert_eq!(transfer_hook(&mut ctx, 1), Ok(()));
    assert_eq!(ctx.accounts[ACCOUNT_COUNT].balance, 5);
}

#[test]
fn authority_is_verified_by_deriving_it_again() {
    let program = address(42);
    let (authority, bump) = find_address(&authority_signer_seeds(), &program).unwrap();
    assert_eq!(authority_signer_seeds(), vec![b"delegate".to_vec()]);
    assert_eq!(verify_authority(&program, bump, &authority), Ok(()));
    assert_eq!(verify_authority(&program, bump, &program), Err(HookError::AuthorityMismatch));
    assert_eq!(
        verify_authority(&address(1), bump, &authority),
        Err(HookError::AuthorityMismatch)
    );
    if bump < 255 {
        assert_eq!(
            verify_authority(&program, bump + 1, &authority),
            Err(HookError::AuthorityMismatch)
        );
    }
}

#[test]
fn states_follow_one_another() {
    let failed = Err(HookError::InsufficientBalance);
    assert_eq!(HookState::Received.advance(Ok(())), HookState::AuthorityVerified);
    assert_eq!(HookState::AuthorityVerified.advance(Ok(())), HookState::FeeTransferred);
    assert_eq!(HookState::FeeTransferred.advance(Ok(())), HookState::CounterUpdated);
    assert_eq!(HookState::CounterUpdated.advance(Ok(())), HookState::Complete);
    assert_eq!(
        HookState::Received.advance(Err(HookError::AuthorityMismatch)),
        HookState::Aborted(HookError::AuthorityMismatch)
    );
    assert_eq!(
        HookState::AuthorityVerified.advance(failed),
        HookState::Aborted(HookError::InsufficientBalance)
    );
    assert_eq!(
        HookState::FeeTransferred.advance(Err(HookError::ArithmeticOverflow)),
        HookState::Aborted(HookError::ArithmeticOverflow)
    );
    assert_eq!(
        HookState::CounterUpdated.advance(failed),
        HookState::Aborted(HookError::InsufficientBalance)
    );
    assert_eq!(HookState::Complete.advance(failed), HookState::Complete);
    assert_eq!(
        HookState::Aborted(HookError::AuthorityMismatch).advance(Ok(())),
        HookState::Aborted(HookError::AuthorityMismatch)
    );
}

#[test]
fn signing_authority_is_created_once() {
    let program = address(42);
    let mut slot = None;
    assert_eq!(SigningAuthority::create(&mut slot, &program), Ok(()));
    let (found, bump) = find_address(&authority_signer_seeds(), &program).unwrap();
    assert_eq!(slot, Some(SigningAuthority { address: found, bump }));
    assert_eq!(verify_authority(&program, bump, &found), Ok(()));
    assert_eq!(SigningAuthority::create(&mut slot, &program), Err(HookError::AlreadyInitialized));
    assert_eq!(SigningAuthority::create(&mut slot, &address(1)), Err(HookError::AlreadyInitialized));
    assert_eq!(slot, Some(SigningAuthority { address: found, bump }));
}
