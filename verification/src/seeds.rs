//! The seed formula engine: from a formula and the account list to an address
//! and its bump.

use crate::accounts::AccountEntry;
use crate::address::{same_bytes_same_address, Address};
use crate::bytes::copy_bytes;
use crate::error::SeedResolutionError;
use anchor_lang::solana_program::pubkey::Pubkey;
use vstd::prelude::*;

verus! {

/// One term of a seed formula.
#[derive(Clone, Debug, PartialEq, Eq)]
pub enum SeedTerm {
    /// The bytes themselves.
    Literal(Vec<u8>),
    /// The address of the account at a position of the account list.
    AccountRef(u8),
}

/// A term as a mathematical value.
pub enum SeedTermView {
    Literal(Seq<u8>),
    AccountRef(u8),
}

impl View for SeedTerm {
    type V = SeedTermView;

    open spec fn view(&self) -> SeedTermView {
        match *self {
            SeedTerm::Literal(bytes) => SeedTermView::Literal(bytes@),
            SeedTerm::AccountRef(index) => SeedTermView::AccountRef(index),
        }
    }
}

impl DeepView for SeedTerm {
    type V = SeedTermView;

    open spec fn deep_view(&self) -> SeedTermView {
        self@
    }
}

/// The address that a list of seeds derives under a program, where it derives
/// one: what `Pubkey::create_program_address` returns, `None` for its errors.
pub uninterp spec fn program_address(seeds: Seq<Seq<u8>>, program: Seq<u8>) -> Option<Seq<u8>>;

/// The seeds with a bump as their last seed.
pub open spec fn with_bump(seeds: Seq<Seq<u8>>, bump: u8) -> Seq<Seq<u8>> {
    seeds.push(seq![bump])
}

/// `bump` is the highest bump from 255 down to 1 with which the seeds derive
/// an address.
pub open spec fn is_canonical_bump(seeds: Seq<Seq<u8>>, program: Seq<u8>, bump: u8) -> bool {
    &&& 1 <= bump
    &&& program_address(with_bump(seeds, bump), program) is Some
    &&& forall|b: u8| bump < b ==> program_address(#[trigger] with_bump(seeds, b), program) is None
}

/// No bump from 255 down to 1 derives an address.
pub open spec fn search_exhausted(seeds: Seq<Seq<u8>>, program: Seq<u8>) -> bool {
    forall|b: u8| 1 <= b ==> program_address(#[trigger] with_bump(seeds, b), program) is None
}

/// The canonical bump of the seeds, where there is one.
pub open spec fn canonical_bump(seeds: Seq<Seq<u8>>, program: Seq<u8>) -> Option<u8> {
    if exists|b: u8| is_canonical_bump(seeds, program, b) {
        Some(choose|b: u8| is_canonical_bump(seeds, program, b))
    } else {
        None
    }
}

/// The address and bump that the search over the bumps finds.
pub open spec fn found_address(seeds: Seq<Seq<u8>>, program: Seq<u8>) -> Option<(Seq<u8>, u8)> {
    match canonical_bump(seeds, program) {
        Some(bump) => Some((program_address(with_bump(seeds, bump), program)->0, bump)),
        None => None,
    }
}

/// Whether every reference of the terms lies inside a list of `count`
/// accounts.
pub open spec fn references_in_range(terms: Seq<SeedTermView>, count: nat) -> bool {
    forall|k: int|
        0 <= k < terms.len() ==> match #[trigger] terms[k] {
            SeedTermView::AccountRef(index) => index < count,
            SeedTermView::Literal(_) => true,
        }
}

/// The seed that a term stands for.
pub open spec fn term_seed(term: SeedTermView, accounts: Seq<AccountEntry>) -> Seq<u8> {
    match term {
        SeedTermView::Literal(bytes) => bytes,
        SeedTermView::AccountRef(index) => accounts[index as int].address@,
    }
}

/// The seeds that the terms stand for, in their order.
pub open spec fn formula_seeds(terms: Seq<SeedTermView>, accounts: Seq<AccountEntry>) -> Seq<
    Seq<u8>,
> {
    Seq::new(terms.len(), |k: int| term_seed(terms[k], accounts))
}

/// What the engine returns for a formula, an account list and a program.
pub open spec fn derived_address(
    terms: Seq<SeedTermView>,
    accounts: Seq<AccountEntry>,
    program: Seq<u8>,
) -> Result<(Seq<u8>, u8), SeedResolutionError> {
    if !references_in_range(terms, accounts.len()) {
        Err(SeedResolutionError::BadReference)
    } else {
        match found_address(formula_seeds(terms, accounts), program) {
            Some(found) => Ok(found),
            None => Err(SeedResolutionError::SearchExhausted),
        }
    }
}

/// Whether `r` is what the engine returns for a formula, an account list and
/// a program.
pub open spec fn is_derivation(
    terms: Seq<SeedTermView>,
    accounts: Seq<AccountEntry>,
    program: Address,
    r: Result<(Address, u8), SeedResolutionError>,
) -> bool {
    match r {
        Ok((address, bump)) => derived_address(terms, accounts, program@) == Ok::<
            (Seq<u8>, u8),
            SeedResolutionError,
        >((address@, bump)),
        Err(e) => derived_address(terms, accounts, program@) == Err::<
            (Seq<u8>, u8),
            SeedResolutionError,
        >(e),
    }
}

/// Calls `Pubkey::create_program_address`, which hashes the seeds and the
/// program and refuses a result on the curve. The result is a function of the
/// bytes handed in.
#[verifier::external_body]
fn create_program_address(seeds: &Vec<Vec<u8>>, program: &Address) -> (r: Option<Address>)
    ensures
        match r {
            Some(address) => program_address(seeds.deep_view(), program@) == Some(address@),
            None => program_address(seeds.deep_view(), program@) is None,
        },
{
    let parts: Vec<&[u8]> = seeds.iter().map(|s| s.as_slice()).collect();
    match Pubkey::create_program_address(&parts, &Pubkey::new_from_array(program.bytes)) {
        Ok(key) => Some(Address { bytes: key.to_bytes() }),
        Err(_) => None,
    }
}

/// Calls `Pubkey::try_find_program_address`, which tries the bumps from 255
/// down to 1 with `create_program_address` and returns the first address that
/// it gets, with its bump.
#[verifier::external_body]
fn try_find_program_address(seeds: &Vec<Vec<u8>>, program: &Address) -> (r: Option<(Address, u8)>)
    ensures
        match r {
            Some((address, bump)) => {
                &&& is_canonical_bump(seeds.deep_view(), program@, bump)
                &&& program_address(with_bump(seeds.deep_view(), bump), program@) == Some(address@)
            },
            None => search_exhausted(seeds.deep_view(), program@),
        },
{
    let parts: Vec<&[u8]> = seeds.iter().map(|s| s.as_slice()).collect();
    match Pubkey::try_find_program_address(&parts, &Pubkey::new_from_array(program.bytes)) {
        Some((key, bump)) => Some((Address { bytes: key.to_bytes() }, bump)),
        None => None,
    }
}

/// Searches the bump of the seeds and derives their address.
pub fn find_address(seeds: &Vec<Vec<u8>>, program: &Address) -> (r: Result<
    (Address, u8),
    SeedResolutionError,
>)
    ensures
        match r {
            Ok((address, bump)) => found_address(seeds.deep_view(), program@) == Some(
                (address@, bump),
            ),
            Err(e) => e == SeedResolutionError::SearchExhausted && found_address(
                seeds.deep_view(),
                program@,
            ) is None,
        },
{
    match try_find_program_address(seeds, program) {
        Some((address, bump)) => {
            proof {
                let b = canonical_bump(seeds.deep_view(), program@)->0;
                canonical_bump_is_unique(seeds.deep_view(), program@, bump, b);
            }
            Ok((address, bump))
        },
        None => {
            proof {
                exhausted_iff_no_canonical_bump(seeds.deep_view(), program@);
            }
            Err(SeedResolutionError::SearchExhausted)
        },
    }
}

/// Derives the address of the seeds with a bump that is already known.
pub fn address_with_bump(seeds: Vec<Vec<u8>>, bump: u8, program: &Address) -> (r: Option<Address>)
    ensures
        match r {
            Some(address) => program_address(with_bump(seeds.deep_view(), bump), program@)
                == Some(address@),
            None => program_address(with_bump(seeds.deep_view(), bump), program@) is None,
        },
{
    let mut all = seeds;
    let ghost before = all.deep_view();
    let mut last: Vec<u8> = Vec::new();
    last.push(bump);
    assert(last.deep_view() =~= seq![bump]);
    all.push(last);
    assert(all.deep_view() =~= with_bump(before, bump));
    create_program_address(&all, program)
}

/// The verifier of a derivation: the bump with which the seeds derive the
/// address under the program, where the address is the one that the search
/// over the bumps finds.
pub fn derivation_bump(address: &Address, seeds: &Vec<Vec<u8>>, program: &Address) -> (r: Option<
    u8,
>)
    ensures
        match r {
            Some(bump) => found_address(seeds.deep_view(), program@) == Some((address@, bump)),
            None => match found_address(seeds.deep_view(), program@) {
                Some((found, _)) => found != address@,
                None => true,
            },
        },
{
    match find_address(seeds, program) {
        Ok((found, bump)) => {
            if found.same(address) {
                Some(bump)
            } else {
                None
            }
        },
        Err(_) => None,
    }
}

/// Turns the terms of a formula into seeds: a literal gives its bytes, a
/// reference the address of the account at its position.
pub fn resolve_seeds(terms: &Vec<SeedTerm>, accounts: &Vec<AccountEntry>) -> (r: Result<
    Vec<Vec<u8>>,
    SeedResolutionError,
>)
    ensures
        match r {
            Ok(seeds) => references_in_range(terms.deep_view(), accounts@.len())
                && seeds.deep_view() == formula_seeds(terms.deep_view(), accounts@),
            Err(e) => e == SeedResolutionError::BadReference && !references_in_range(
                terms.deep_view(),
                accounts@.len(),
            ),
        },
{
    let mut seeds: Vec<Vec<u8>> = Vec::new();
    let mut k: usize = 0;
    while k < terms.len()
        invariant
            k <= terms@.len(),
            seeds@.len() == k,
            references_in_range(terms.deep_view().subrange(0, k as int), accounts@.len()),
            forall|j: int|
                0 <= j < k ==> (#[trigger] seeds@[j]).deep_view() == term_seed(
                    terms.deep_view()[j],
                    accounts@,
                ),
        decreases terms@.len() - k,
    {
        let seed = match &terms[k] {
            SeedTerm::Literal(bytes) => copy_bytes(bytes.as_slice()),
            SeedTerm::AccountRef(index) => {
                if (*index as usize) < accounts.len() {
                    accounts[*index as usize].address.to_vec()
                } else {
                    assert(terms.deep_view()[k as int] == SeedTermView::AccountRef(*index));
                    return Err(SeedResolutionError::BadReference);
                }
            },
        };
        seeds.push(seed);
        proof {
            references_in_range_next(terms.deep_view(), k as int, accounts@.len());
        }
        k += 1;
    }
    assert(terms.deep_view().subrange(0, k as int) =~= terms.deep_view());
    Ok(seeds)
}

/// The seed formula engine: resolves the terms against the account list and
/// searches the bump of the seeds under the program.
pub fn derive_address(terms: &Vec<SeedTerm>, accounts: &Vec<AccountEntry>, program: &Address) -> (r:
    Result<(Address, u8), SeedResolutionError>)
    ensures
        is_derivation(terms.deep_view(), accounts@, *program, r),
{
    match resolve_seeds(terms, accounts) {
        Ok(seeds) => find_address(&seeds, program),
        Err(e) => Err(e),
    }
}

/// Where the references of the first `k` terms lie in range and that of term
/// `k` does, those of the first `k + 1` terms do.
pub proof fn references_in_range_next(terms: Seq<SeedTermView>, k: int, count: nat)
    requires
        0 <= k < terms.len(),
        references_in_range(terms.subrange(0, k), count),
        terms[k] matches SeedTermView::AccountRef(index) ==> index < count,
    ensures
        references_in_range(terms.subrange(0, k + 1), count),
{
    let done = terms.subrange(0, k);
    let next = terms.subrange(0, k + 1);
    assert forall|j: int| 0 <= j < next.len() implies match #[trigger] next[j] {
        SeedTermView::AccountRef(index) => index < count,
        SeedTermView::Literal(_) => true,
    } by {
        if j < k {
            assert(next[j] == done[j]);
        }
    }
}

/// Two canonical bumps of the same seeds are the same bump.
pub proof fn canonical_bump_is_unique(seeds: Seq<Seq<u8>>, program: Seq<u8>, b1: u8, b2: u8)
    requires
        is_canonical_bump(seeds, program, b1),
        is_canonical_bump(seeds, program, b2),
    ensures
        b1 == b2,
{
    if b1 < b2 {
        assert(program_address(with_bump(seeds, b2), program) is None);
    } else if b2 < b1 {
        assert(program_address(with_bump(seeds, b1), program) is None);
    }
}

/// From a bump that derives an address, there is a canonical bump among the
/// bumps up to `top`, provided that none above `top` derives one.
proof fn highest_bump_from(seeds: Seq<Seq<u8>>, program: Seq<u8>, b0: u8, top: u8)
    requires
        1 <= b0 <= top,
        program_address(with_bump(seeds, b0), program) is Some,
        forall|b: u8| top < b ==> program_address(#[trigger] with_bump(seeds, b), program) is None,
    ensures
        exists|b: u8| is_canonical_bump(seeds, program, b),
    decreases top - b0,
{
    if program_address(with_bump(seeds, top), program) is Some {
        assert(is_canonical_bump(seeds, program, top));
    } else {
        highest_bump_from(seeds, program, b0, (top - 1) as u8);
    }
}

/// Where the search is exhausted there is no canonical bump, and the reverse.
pub proof fn exhausted_iff_no_canonical_bump(seeds: Seq<Seq<u8>>, program: Seq<u8>)
    ensures
        search_exhausted(seeds, program) <==> canonical_bump(seeds, program) is None,
{
    if search_exhausted(seeds, program) {
        assert forall|b: u8| !is_canonical_bump(seeds, program, b) by {
            if 1 <= b {
                assert(program_address(with_bump(seeds, b), program) is None);
            }
        }
    } else {
        let b0 = choose|b: u8| 1 <= b && program_address(with_bump(seeds, b), program) is Some;
        highest_bump_from(seeds, program, b0, 255);
    }
}

/// The bump that the search finds derives the address that it finds: seeds,
/// bump and program show that the address is derived.
pub proof fn found_address_is_derived(seeds: Seq<Seq<u8>>, program: Seq<u8>)
    requires
        found_address(seeds, program) is Some,
    ensures
        ({
            let (address, bump) = found_address(seeds, program)->0;
            &&& is_canonical_bump(seeds, program, bump)
            &&& program_address(with_bump(seeds, bump), program) == Some(address)
        }),
{
}

/// Determinism: two runs of the engine on the same formula, account list and
/// program give the same address and the same bump, or the same error.
pub proof fn derivation_is_deterministic(
    terms: Seq<SeedTermView>,
    accounts: Seq<AccountEntry>,
    program: Address,
    first: Result<(Address, u8), SeedResolutionError>,
    second: Result<(Address, u8), SeedResolutionError>,
)
    requires
        is_derivation(terms, accounts, program, first),
        is_derivation(terms, accounts, program, second),
    ensures
        first == second,
{
    if first is Ok {
        same_bytes_same_address(first->Ok_0.0, second->Ok_0.0);
    }
}

} // verus!
