use anchor_lang::solana_program::pubkey::Pubkey;
use transfer_hook::accounts::AccountEntry;
use transfer_hook::address::Address;
use transfer_hook::error::SeedResolutionError;
use transfer_hook::bytes::copy_bytes;
use transfer_hook::seeds::{
    address_with_bump, derivation_bump, derive_address, find_address, resolve_seeds, SeedTerm,
};

fn address(fill: u8) -> Address {
    Address::new([fill; 32])
}

fn entry(fill: u8) -> AccountEntry {
    AccountEntry { address: address(fill), balance: 0 }
}

#[test]
fn address_keeps_its_bytes() {
    let mut bytes = [0u8; 40];
    for (i, byte) in bytes.iter_mut().enumerate() {
        *byte = i as u8;
    }
    let a = Address::from_slice(&bytes[3..35]).unwrap();
    assert_eq!(a.bytes[0], 3);
    assert_eq!(a.bytes[31], 34);
    assert_eq!(a.to_vec(), bytes[3..35].to_vec());
    assert!(a.same(&Address::new(a.bytes)));
    assert!(!a.same(&address(3)));
    assert_eq!(Address::from_slice(&bytes[..31]), None);
    assert_eq!(Address::from_slice(&bytes[..33]), None);
    assert_eq!(Address::from_slice(&[]), None);
    assert_eq!(copy_bytes(&bytes), bytes.to_vec());
}

#[test]
fn find_address_is_the_program_address_search() {
    let program = address(7);
    let seeds = vec![b"delegate".to_vec()];
    let (found, bump) = find_address(&seeds, &program).unwrap();
    let (key, key_bump) =
        Pubkey::find_program_address(&[b"delegate"], &Pubkey::new_from_array(program.bytes));
    assert_eq!(found.bytes, key.to_bytes());
    assert_eq!(bump, key_bump);
    assert_ne!(found, program);
}

#[test]
fn derivation_is_deterministic() {
    let program = address(9);
    let accounts = vec![entry(1), entry(2), entry(3)];
    let terms = vec![SeedTerm::Literal(b"fee".to_vec()), SeedTerm::AccountRef(2)];
    let first = derive_address(&terms, &accounts, &program);
    let second = derive_address(&terms, &accounts, &program);
    assert!(first.is_ok());
    assert_eq!(first, second);
}

#[test]
fn found_bump_derives_the_found_address() {
    let program = address(11);
    let seeds = vec![b"extra-account-metas".to_vec(), vec![5u8; 32]];
    let (found, bump) = find_address(&seeds, &program).unwrap();
    assert_eq!(address_with_bump(seeds.clone(), bump, &program), Some(found));
    let key = Pubkey::create_program_address(
        &[b"extra-account-metas", &[5u8; 32], &[bump]],
        &Pubkey::new_from_array(program.bytes),
    )
    .unwrap();
    assert_eq!(found.bytes, key.to_bytes());
}

#[test]
fn no_bump_above_the_found_one_derives_an_address() {
    let program = address(13);
    let seeds = vec![b"delegate".to_vec()];
    let (_, bump) = find_address(&seeds, &program).unwrap();
    assert!(bump >= 1);
    let mut higher = bump;
    while higher < 255 {
        higher += 1;
        assert_eq!(address_with_bump(seeds.clone(), higher, &program), None);
    }
}

#[test]
fn terms_resolve_to_literals_and_addresses() {
    let accounts = vec![entry(1), entry(2), entry(3)];
    let terms = vec![
        SeedTerm::AccountRef(2),
        SeedTerm::Literal(vec![9, 8, 7]),
        SeedTerm::AccountRef(0),
    ];
    let seeds = resolve_seeds(&terms, &accounts).unwrap();
    assert_eq!(seeds, vec![vec![3u8; 32], vec![9, 8, 7], vec![1u8; 32]]);
}

#[test]
fn derive_address_follows_the_account_list() {
    let program = address(21);
    let accounts = vec![entry(1), entry(2), entry(3)];
    let terms = vec![SeedTerm::Literal(b"vault".to_vec()), SeedTerm::AccountRef(1)];
    let (found, bump) = derive_address(&terms, &accounts, &program).unwrap();
    let (key, key_bump) = Pubkey::find_program_address(
        &[b"vault", &[2u8; 32]],
        &Pubkey::new_from_array(program.bytes),
    );
    assert_eq!(found.bytes, key.to_bytes());
    assert_eq!(bump, key_bump);
}

#[test]
fn reference_out_of_range_is_refused() {
    let program = address(21);
    let accounts = vec![entry(1), entry(2), entry(3)];
    let terms = vec![SeedTerm::Literal(b"vault".to_vec()), SeedTerm::AccountRef(3)];
    assert_eq!(
        derive_address(&terms, &accounts, &program),
        Err(SeedResolutionError::BadReference)
    );
    assert_eq!(resolve_seeds(&terms, &accounts), Err(SeedResolutionError::BadReference));
    assert_eq!(
        derive_address(&vec![SeedTerm::AccountRef(0)], &Vec::new(), &program),
        Err(SeedResolutionError::BadReference)
    );
}

#[test]
fn search_without_an_address_is_exhausted() {
    let program = address(21);
    let too_long = vec![vec![1u8; 33]];
    assert_eq!(find_address(&too_long, &program), Err(SeedResolutionError::SearchExhausted));
    let too_many: Vec<Vec<u8>> = (0..16).map(|i| vec![i as u8]).collect();
    assert_eq!(find_address(&too_many, &program), Err(SeedResolutionError::SearchExhausted));
    assert_eq!(address_with_bump(too_long, 255, &program), None);
    let terms = vec![SeedTerm::Literal(vec![1u8; 33])];
    assert_eq!(
        derive_address(&terms, &Vec::new(), &program),
        Err(SeedResolutionError::SearchExhausted)
    );
}

#[test]
fn verifier_gives_the_bump_of_a_derived_address() {
    let program = address(13);
    let seeds = vec![b"delegate".to_vec()];
    let (found, bump) = find_address(&seeds, &program).unwrap();
    assert_eq!(derivation_bump(&found, &seeds, &program), Some(bump));
    assert_eq!(derivation_bump(&program, &seeds, &program), None);
    assert_eq!(derivation_bump(&found, &seeds, &address(14)), None);
    assert_eq!(derivation_bump(&found, &vec![b"delegates".to_vec()], &program), None);
    assert_eq!(derivation_bump(&found, &vec![vec![0u8; 33]], &program), None);
}
