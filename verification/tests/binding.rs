use anchor_lang::solana_program::pubkey::Pubkey;
use spl_tlv_account_resolution::account::ExtraAccountMeta;
use spl_tlv_account_resolution::seeds::Seed;
use transfer_hook::accounts::AccountEntry;
use transfer_hook::address::Address;
use transfer_hook::binding::{check_bindings, resolve_account};
use transfer_hook::error::{HookError, SeedResolutionError};
use transfer_hook::record::{AccountDescriptor, ExtraAccountMetadataRecord};
use transfer_hook::resolver::fee_account_descriptors;
use transfer_hook::seeds::SeedTerm;

fn address(fill: u8) -> Address {
    Address::new([fill; 32])
}

fn entry(fill: u8) -> AccountEntry {
    AccountEntry { address: address(fill), balance: 0 }
}

fn base() -> Vec<AccountEntry> {
    vec![entry(10), entry(11), entry(12), entry(13), entry(14)]
}

fn fee_record() -> ExtraAccountMetadataRecord {
    ExtraAccountMetadataRecord::new(fee_account_descriptors(address(5), address(6), address(7)))
        .unwrap()
}

fn bound_accounts(record: &ExtraAccountMetadataRecord, program: &Address) -> Vec<AccountEntry> {
    let mut accounts = base();
    for descriptor in &record.descriptors {
        let resolved = resolve_account(descriptor, &accounts, program).unwrap();
        accounts.push(AccountEntry { address: resolved, balance: 0 });
    }
    accounts
}

#[test]
fn fixed_descriptor_resolves_to_its_address() {
    let descriptor = AccountDescriptor::fixed(address(9), false, false);
    assert_eq!(resolve_account(&descriptor, &Vec::new(), &address(1)), Ok(address(9)));
}

#[test]
fn derived_descriptor_resolves_under_its_program() {
    let program = address(42);
    let accounts = base();
    let own = AccountDescriptor::seed_derived(
        vec![SeedTerm::Literal(b"delegate".to_vec()), SeedTerm::AccountRef(3)],
        None,
        false,
        true,
    );
    let (key, _) =
        Pubkey::find_program_address(&[b"delegate", &[13u8; 32]], &Pubkey::new_from_array([42; 32]));
    assert_eq!(resolve_account(&own, &accounts, &program), Ok(Address::new(key.to_bytes())));
    let outside = AccountDescriptor::seed_derived(
        vec![SeedTerm::Literal(b"delegate".to_vec()), SeedTerm::AccountRef(3)],
        Some(2),
        false,
        true,
    );
    let (key, _) =
        Pubkey::find_program_address(&[b"delegate", &[13u8; 32]], &Pubkey::new_from_array([12; 32]));
    assert_eq!(resolve_account(&outside, &accounts, &program), Ok(Address::new(key.to_bytes())));
}

#[test]
fn resolution_fails_on_positions_that_are_not_there() {
    let program = address(42);
    let program_missing = AccountDescriptor::seed_derived(Vec::new(), Some(5), false, false);
    assert_eq!(
        resolve_account(&program_missing, &base(), &program),
        Err(SeedResolutionError::BadReference)
    );
    let account_missing =
        AccountDescriptor::seed_derived(vec![SeedTerm::AccountRef(5)], Some(4), false, false);
    assert_eq!(
        resolve_account(&account_missing, &base(), &program),
        Err(SeedResolutionError::BadReference)
    );
    let too_long =
        AccountDescriptor::seed_derived(vec![SeedTerm::Literal(vec![0; 33])], None, false, false);
    assert_eq!(
        resolve_account(&too_long, &base(), &program),
        Err(SeedResolutionError::SearchExhausted)
    );
}

#[test]
fn resolution_agrees_with_the_interface() {
    let program = address(42);
    let record = fee_record();
    let accounts = bound_accounts(&record, &program);
    let keys: Vec<Pubkey> =
        accounts.iter().map(|a| Pubkey::new_from_array(a.address.bytes)).collect();
    let fee_account = |holder: u8| {
        ExtraAccountMeta::new_external_pda_with_seeds(
            7,
            &[
                Seed::AccountKey { index: holder },
                Seed::AccountKey { index: 6 },
                Seed::AccountKey { index: 5 },
            ],
            false,
            true,
        )
        .unwrap()
    };
    let metas = vec![
        (8usize, fee_account(3)),
        (
            9,
            ExtraAccountMeta::new_with_seeds(
                &[Seed::Literal { bytes: b"delegate".to_vec() }],
                false,
                true,
            )
            .unwrap(),
        ),
        (10, fee_account(9)),
    ];
    for (position, meta) in metas {
        let resolved = meta
            .resolve(&[], &Pubkey::new_from_array(program.bytes), |index| {
                keys.get(index).map(|key| (key, None))
            })
            .unwrap();
        assert_eq!(resolved.pubkey, keys[position]);
        assert!(resolved.is_writable);
        assert!(!resolved.is_signer);
    }
}

#[test]
fn accounts_in_the_declared_order_are_bound() {
    let program = address(42);
    let record = fee_record();
    let mut accounts = bound_accounts(&record, &program);
    assert_eq!(accounts.len(), 11);
    assert_eq!(accounts[5].address, address(5));
    assert_eq!(accounts[7].address, address(7));
    assert_eq!(check_bindings(&record, &accounts, &program), Ok(()));
    accounts.push(entry(99));
    assert_eq!(check_bindings(&record, &accounts, &program), Ok(()));
    let empty = ExtraAccountMetadataRecord::new(Vec::new()).unwrap();
    assert_eq!(check_bindings(&empty, &base(), &program), Ok(()));
    assert_eq!(check_bindings(&empty, &Vec::new(), &program), Err(HookError::AuthorityMismatch));
}

#[test]
fn accounts_out_of_order_are_not_bound() {
    let program = address(42);
    let record = fee_record();
    let accounts = bound_accounts(&record, &program);
    for first in 5..accounts.len() {
        for second in first + 1..accounts.len() {
            let mut exchanged = accounts.clone();
            exchanged.swap(first, second);
            assert_eq!(
                check_bindings(&record, &exchanged, &program),
                Err(HookError::AuthorityMismatch)
            );
        }
    }
    let mut short = accounts.clone();
    short.pop();
    assert_eq!(check_bindings(&record, &short, &program), Err(HookError::AuthorityMismatch));
    let mut other_owner = accounts.clone();
    other_owner[3] = entry(77);
    assert_eq!(check_bindings(&record, &other_owner, &program), Err(HookError::AuthorityMismatch));
    assert_eq!(check_bindings(&record, &accounts, &address(43)), Err(HookError::AuthorityMismatch));
}

#[test]
fn descriptor_that_cannot_be_resolved_fails_with_its_error() {
    let program = address(42);
    let record = ExtraAccountMetadataRecord {
        descriptors: vec![AccountDescriptor::seed_derived(
            vec![SeedTerm::AccountRef(5)],
            None,
            false,
            false,
        )],
    };
    let mut accounts = base();
    accounts.push(entry(1));
    assert_eq!(
        check_bindings(&record, &accounts, &program),
        Err(HookError::SeedResolutionError(SeedResolutionError::BadReference))
    );
    let record = ExtraAccountMetadataRecord {
        descriptors: vec![AccountDescriptor::seed_derived(
            vec![SeedTerm::Literal(vec![0; 33])],
            None,
            false,
            false,
        )],
    };
    assert_eq!(
        check_bindings(&record, &accounts, &program),
        Err(HookError::SeedResolutionError(SeedResolutionError::SearchExhausted))
    );
}
