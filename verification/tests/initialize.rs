use anchor_lang::solana_program::pubkey::Pubkey;
use transfer_hook::accounts::{AccountEntry, RecordAccount};
use transfer_hook::address::Address;
use transfer_hook::error::{HookError, SeedResolutionError};
use transfer_hook::record::{ExtraAccountMetadataRecord, Resolution};
use transfer_hook::resolver::{
    fee_account_descriptors, required_space, AUTHORITY_LABEL, RECORD_LABEL,
};
use transfer_hook::seeds::SeedTerm;
use transfer_hook::{initialize_extra_account_meta_list, InitializeExtraAccountMetaList};

fn address(fill: u8) -> Address {
    Address::new([fill; 32])
}

fn fresh(funds: u64, rent_exempt_minimum: u64) -> InitializeExtraAccountMetaList {
    InitializeExtraAccountMetaList {
        program_id: address(42),
        payer: AccountEntry { address: address(1), balance: funds },
        extra_account_meta_list: None,
        mint: address(2),
        secondary_mint: address(5),
        token_program: address(6),
        associated_token_program: address(7),
        rent_exempt_minimum,
    }
}

#[test]
fn labels_are_the_documented_words() {
    assert_eq!(&RECORD_LABEL[..], b"extra-account-metas");
    assert_eq!(&AUTHORITY_LABEL[..], b"delegate");
    assert_eq!(required_space(), 218);
}

#[test]
fn fee_policy_lists_fixed_accounts_first() {
    let descriptors = fee_account_descriptors(address(5), address(6), address(7));
    assert_eq!(descriptors.len(), 6);
    for (k, fill) in [5u8, 6, 7].iter().enumerate() {
        assert_eq!(descriptors[k].resolution, Resolution::FixedAddress(address(*fill)));
        assert!(!descriptors[k].is_signer);
        assert!(!descriptors[k].is_writable);
    }
    let fee_account = |holder: u8| Resolution::SeedDerived {
        terms: vec![
            SeedTerm::AccountRef(holder),
            SeedTerm::AccountRef(6),
            SeedTerm::AccountRef(5),
        ],
        external_program: Some(7),
    };
    assert_eq!(descriptors[3].resolution, fee_account(3));
    assert_eq!(
        descriptors[4].resolution,
        Resolution::SeedDerived {
            terms: vec![SeedTerm::Literal(b"delegate".to_vec())],
            external_program: None,
        }
    );
    assert_eq!(descriptors[5].resolution, fee_account(9));
    for descriptor in &descriptors[3..] {
        assert!(!descriptor.is_signer);
        assert!(descriptor.is_writable);
    }
    assert!(ExtraAccountMetadataRecord::new(descriptors).is_some());
}

#[test]
fn initialization_creates_the_record_at_its_derived_address() {
    let mut ctx = fresh(10_000, 2_408_160 / 1_000);
    let before = ctx.clone();
    assert_eq!(initialize_extra_account_meta_list(&mut ctx), Ok(()));
    let (key, bump) = Pubkey::find_program_address(
        &[b"extra-account-metas", &[2u8; 32]],
        &Pubkey::new_from_array([42u8; 32]),
    );
    assert_eq!(
        key,
        spl_transfer_hook_interface::get_extra_account_metas_address(
            &Pubkey::new_from_array([2u8; 32]),
            &Pubkey::new_from_array([42u8; 32]),
        )
    );
    let record = ExtraAccountMetadataRecord::new(fee_account_descriptors(
        address(5),
        address(6),
        address(7),
    ))
    .unwrap();
    assert_eq!(
        ctx.extra_account_meta_list,
        Some(RecordAccount {
            address: Address::new(key.to_bytes()),
            bump,
            owner: address(42),
            funds: 2_408,
            data: record.encode(),
        })
    );
    assert_eq!(ctx.payer, AccountEntry { address: address(1), balance: 10_000 - 2_408 });
    let created = ctx.extra_account_meta_list.clone().unwrap();
    assert_eq!(created.data.len(), required_space());
    assert_eq!(ExtraAccountMetadataRecord::decode(&created.data), Some(record));
    ctx.extra_account_meta_list = None;
    ctx.payer = before.payer;
    assert_eq!(ctx, before);
}

#[test]
fn second_initialization_fails_and_leaves_the_record() {
    let mut ctx = fresh(10_000, 2_408);
    assert_eq!(initialize_extra_account_meta_list(&mut ctx), Ok(()));
    let after_first = ctx.clone();
    let content = ctx.extra_account_meta_list.clone().unwrap().data;
    assert_eq!(initialize_extra_account_meta_list(&mut ctx), Err(HookError::AlreadyInitialized));
    assert_eq!(ctx, after_first);
    assert_eq!(ctx.extra_account_meta_list.clone().unwrap().data, content);
    ctx.payer.balance = 0;
    assert_eq!(initialize_extra_account_meta_list(&mut ctx), Err(HookError::AlreadyInitialized));
}

#[test]
fn payer_without_the_minimum_fails_with_insufficient_funds() {
    let mut ctx = fresh(2_407, 2_408);
    let before = ctx.clone();
    assert_eq!(initialize_extra_account_meta_list(&mut ctx), Err(HookError::InsufficientFunds));
    assert_eq!(ctx, before);
    let mut ctx = fresh(2_408, 2_408);
    assert_eq!(initialize_extra_account_meta_list(&mut ctx), Ok(()));
    assert_eq!(ctx.payer.balance, 0);
    let mut ctx = fresh(0, 0);
    assert_eq!(initialize_extra_account_meta_list(&mut ctx), Ok(()));
}

#[test]
fn seed_errors_have_their_own_variant() {
    let bad = HookError::SeedResolutionError(SeedResolutionError::BadReference);
    let exhausted = HookError::SeedResolutionError(SeedResolutionError::SearchExhausted);
    assert_ne!(bad, exhausted);
    assert_ne!(bad, HookError::AlreadyInitialized);
}
