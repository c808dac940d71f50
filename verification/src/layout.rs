//! The bytes of the extra-account metadata record.
//!
//! Layout: `[size: u32][count: u32][count descriptors]`, integers little
//! endian, `size` the number of bytes that follow it. A descriptor takes 35
//! bytes: `[kind][32 bytes of payload][is_signer][is_writable]`. The payload of
//! a fixed address is the address. The payload of a seed formula is its terms
//! one after the other, then zeros: a literal as `[1][length][bytes]`, a
//! reference as `[3][position]`.

use crate::address::same_bytes_same_address;
use crate::record::{DescriptorView, ResolutionView};
use crate::seeds::{references_in_range, SeedTermView};
use vstd::bytes::{
    lemma_auto_spec_u32_to_from_le_bytes, spec_u32_from_le_bytes, spec_u32_to_le_bytes,
};
use vstd::prelude::*;

verus! {

/// Accounts that stand before the first described one: the four of the
/// transfer and the record itself.
pub const BASE_ACCOUNTS: usize = 5;

/// Bytes of a descriptor's payload.
pub const PAYLOAD_BYTES: usize = 32;

/// Bytes of a descriptor.
pub const DESCRIPTOR_BYTES: usize = 35;

/// Bytes of the two integers that a record starts with.
pub const HEADER_BYTES: usize = 8;

/// The most descriptors whose record still has a size that fits its header.
pub const MAX_DESCRIPTORS: usize = 122_713_351;

/// Kind of a descriptor with a fixed address.
pub const KIND_FIXED: u8 = 0;

/// Kind of a descriptor whose address is derived under this program.
pub const KIND_DERIVED: u8 = 1;

/// Kinds from here on: derived under the program at position `kind - 128`.
pub const KIND_EXTERNAL: u8 = 128;

/// Kind of a literal term.
pub const TERM_LITERAL: u8 = 1;

/// Kind of a term that refers to an account.
pub const TERM_ACCOUNT_REF: u8 = 3;

/// The bytes of one term.
pub open spec fn term_bytes(term: SeedTermView) -> Seq<u8> {
    match term {
        SeedTermView::Literal(bytes) => seq![TERM_LITERAL, bytes.len() as u8] + bytes,
        SeedTermView::AccountRef(index) => seq![TERM_ACCOUNT_REF, index],
    }
}

/// The bytes of the terms of a formula, one after the other.
pub open spec fn formula_bytes(terms: Seq<SeedTermView>) -> Seq<u8>
    decreases terms.len(),
{
    if terms.len() == 0 {
        Seq::empty()
    } else {
        term_bytes(terms.first()) + formula_bytes(terms.drop_first())
    }
}

/// `count` zero bytes.
pub open spec fn zeros(count: nat) -> Seq<u8> {
    Seq::new(count, |i: int| 0u8)
}

/// The byte of a flag.
pub open spec fn flag_byte(flag: bool) -> u8 {
    if flag {
        1
    } else {
        0
    }
}

impl ResolutionView {
    /// Whether the resolution has a payload and a kind: the terms take no more
    /// than the payload, and the position of an outside program leaves the kind's
    /// top bit free.
    pub open spec fn fits(self) -> bool {
        match self {
            ResolutionView::FixedAddress(_) => true,
            ResolutionView::SeedDerived { terms, external_program } => {
                &&& formula_bytes(terms).len() <= PAYLOAD_BYTES
                &&& external_program matches Some(position) ==> position < KIND_EXTERNAL
            },
        }
    }

    /// Whether every position that the resolution names lies below `count`.
    pub open spec fn refers_below(self, count: nat) -> bool {
        match self {
            ResolutionView::FixedAddress(_) => true,
            ResolutionView::SeedDerived { terms, external_program } => {
                &&& references_in_range(terms, count)
                &&& external_program matches Some(position) ==> position < count
            },
        }
    }

    /// The first byte of a descriptor.
    pub open spec fn kind(self) -> u8 {
        match self {
            ResolutionView::FixedAddress(_) => KIND_FIXED,
            ResolutionView::SeedDerived { external_program: None, .. } => KIND_DERIVED,
            ResolutionView::SeedDerived { external_program: Some(position), .. } => (KIND_EXTERNAL
                + position) as u8,
        }
    }

    /// The 32 bytes after the kind.
    pub open spec fn payload(self) -> Seq<u8> {
        match self {
            ResolutionView::FixedAddress(address) => address@,
            ResolutionView::SeedDerived { terms, .. } => formula_bytes(terms) + zeros(
                (PAYLOAD_BYTES - formula_bytes(terms).len()) as nat,
            ),
        }
    }
}

impl DescriptorView {
    /// The 35 bytes of the descriptor.
    pub open spec fn bytes(self) -> Seq<u8> {
        seq![self.resolution.kind()] + self.resolution.payload() + seq![
            flag_byte(self.is_signer),
            flag_byte(self.is_writable),
        ]
    }
}

/// The bytes of the descriptors, one after the other.
pub open spec fn descriptors_bytes(descriptors: Seq<DescriptorView>) -> Seq<u8>
    decreases descriptors.len(),
{
    if descriptors.len() == 0 {
        Seq::empty()
    } else {
        descriptors_bytes(descriptors.drop_last()) + descriptors.last().bytes()
    }
}

/// The number of bytes of a record of `count` descriptors.
pub open spec fn record_len(count: nat) -> nat {
    HEADER_BYTES as nat + DESCRIPTOR_BYTES as nat * count
}

/// The bytes of the record that holds the descriptors.
pub open spec fn record_bytes(descriptors: Seq<DescriptorView>) -> Seq<u8> {
    spec_u32_to_le_bytes((record_len(descriptors.len()) - 4) as u32) + spec_u32_to_le_bytes(
        descriptors.len() as u32,
    ) + descriptors_bytes(descriptors)
}

/// Whether each of the descriptors has its bytes.
pub open spec fn all_fit(descriptors: Seq<DescriptorView>) -> bool {
    forall|k: int| 0 <= k < descriptors.len() ==> (#[trigger] descriptors[k]).resolution.fits()
}

/// Whether the descriptors make a record: each has its bytes, none refers to
/// its own position or a later one, and the size fits the header.
pub open spec fn record_wf(descriptors: Seq<DescriptorView>) -> bool {
    &&& descriptors.len() <= MAX_DESCRIPTORS
    &&& forall|k: int|
        0 <= k < descriptors.len() ==> {
            &&& (#[trigger] descriptors[k]).resolution.fits()
            &&& descriptors[k].resolution.refers_below((BASE_ACCOUNTS + k) as nat)
        }
}

/// What reading a formula back from a payload gives: the terms up to the first
/// zero byte, after which only zeros may follow.
pub open spec fn parse_formula(bytes: Seq<u8>) -> Option<Seq<SeedTermView>>
    decreases bytes.len(),
{
    if bytes.len() == 0 {
        Some(Seq::empty())
    } else if bytes[0] == 0 {
        if bytes == zeros(bytes.len()) {
            Some(Seq::empty())
        } else {
            None
        }
    } else if bytes[0] == TERM_LITERAL {
        if bytes.len() < 2 || bytes.len() < 2 + bytes[1] {
            None
        } else {
            match parse_formula(bytes.skip(2 + bytes[1])) {
                Some(rest) => Some(
                    seq![SeedTermView::Literal(bytes.subrange(2, 2 + bytes[1]))] + rest,
                ),
                None => None,
            }
        }
    } else if bytes[0] == TERM_ACCOUNT_REF {
        if bytes.len() < 2 {
            None
        } else {
            match parse_formula(bytes.skip(2)) {
                Some(rest) => Some(seq![SeedTermView::AccountRef(bytes[1])] + rest),
                None => None,
            }
        }
    } else {
        None
    }
}

/// The number of descriptors that the header of the bytes declares, where
/// size and count agree with each other and with the number of the bytes.
pub open spec fn declared_count(bytes: Seq<u8>) -> Option<nat> {
    if bytes.len() < HEADER_BYTES {
        None
    } else {
        let size = spec_u32_from_le_bytes(bytes.subrange(0, 4));
        let count = spec_u32_from_le_bytes(bytes.subrange(4, 8));
        if count <= MAX_DESCRIPTORS && bytes.len() == record_len(count as nat) && size
            == bytes.len() - 4 {
            Some(count as nat)
        } else {
            None
        }
    }
}

/// The descriptors of the record that the bytes hold, where they hold one.
pub open spec fn parsed_record(bytes: Seq<u8>) -> Option<Seq<DescriptorView>> {
    if exists|descriptors: Seq<DescriptorView>|
        record_wf(descriptors) && #[trigger] record_bytes(descriptors) == bytes {
        Some(
            choose|descriptors: Seq<DescriptorView>|
                record_wf(descriptors) && #[trigger] record_bytes(descriptors) == bytes,
        )
    } else {
        None
    }
}

/// The bytes of a formula are those of its first terms, then those of its last.
pub proof fn formula_bytes_push(terms: Seq<SeedTermView>, term: SeedTermView)
    ensures
        formula_bytes(terms.push(term)) == formula_bytes(terms) + term_bytes(term),
    decreases terms.len(),
{
    let all = terms.push(term);
    if terms.len() == 0 {
        assert(formula_bytes(all.drop_first()) =~= Seq::<u8>::empty());
    } else {
        assert(all.drop_first() =~= terms.drop_first().push(term));
        formula_bytes_push(terms.drop_first(), term);
    }
}

/// The first terms of a formula take no more bytes than all of them.
pub proof fn formula_bytes_prefix_len(terms: Seq<SeedTermView>, count: int)
    requires
        0 <= count <= terms.len(),
    ensures
        formula_bytes(terms.subrange(0, count)).len() <= formula_bytes(terms).len(),
    decreases terms.len() - count,
{
    if count < terms.len() {
        formula_bytes_push(terms.subrange(0, count), terms[count]);
        assert(terms.subrange(0, count + 1) =~= terms.subrange(0, count).push(terms[count]));
        formula_bytes_prefix_len(terms, count + 1);
    } else {
        assert(terms.subrange(0, count) =~= terms);
    }
}

/// The bytes of the first `k + 1` terms are those of the first `k`, then
/// those of term `k`, and no more than the bytes of all terms.
pub proof fn formula_bytes_next(terms: Seq<SeedTermView>, k: int)
    requires
        0 <= k < terms.len(),
    ensures
        formula_bytes(terms.subrange(0, k + 1)) == formula_bytes(terms.subrange(0, k))
            + term_bytes(terms[k]),
        formula_bytes(terms.subrange(0, k + 1)).len() <= formula_bytes(terms).len(),
{
    formula_bytes_push(terms.subrange(0, k), terms[k]);
    assert(terms.subrange(0, k + 1) =~= terms.subrange(0, k).push(terms[k]));
    formula_bytes_prefix_len(terms, k + 1);
}

/// Reading back the bytes of a formula, with zeros after them, gives the
/// formula.
pub proof fn parse_formula_of_bytes(terms: Seq<SeedTermView>, padding: nat)
    requires
        formula_bytes(terms).len() <= PAYLOAD_BYTES,
    ensures
        parse_formula(formula_bytes(terms) + zeros(padding)) == Some(terms),
    decreases terms.len(),
{
    if terms.len() > 0 {
        let bytes = formula_bytes(terms) + zeros(padding);
        let tail = formula_bytes(terms.drop_first()) + zeros(padding);
        parse_formula_of_bytes(terms.drop_first(), padding);
        match terms.first() {
            SeedTermView::Literal(literal) => {
                assert(bytes.skip(2 + bytes[1]) =~= tail);
                assert(bytes.subrange(2, 2 + bytes[1]) =~= literal);
            },
            SeedTermView::AccountRef(_) => {
                assert(bytes.skip(2) =~= tail);
            },
        }
    }
}

/// Where bytes read back as a formula, they are the bytes of that formula
/// with zeros after them.
pub proof fn bytes_of_parsed_formula(bytes: Seq<u8>)
    requires
        parse_formula(bytes) is Some,
    ensures
        formula_bytes(parse_formula(bytes)->0).len() <= bytes.len(),
        formula_bytes(parse_formula(bytes)->0) + zeros(
            (bytes.len() - formula_bytes(parse_formula(bytes)->0).len()) as nat,
        ) == bytes,
    decreases bytes.len(),
{
    let terms = parse_formula(bytes)->0;
    if bytes.len() > 0 && bytes[0] != 0 {
        let used: int = if bytes[0] == TERM_LITERAL {
            2 + bytes[1]
        } else {
            2
        };
        let tail = bytes.skip(used);
        bytes_of_parsed_formula(tail);
        assert(terms.drop_first() =~= parse_formula(tail)->0);
        assert(bytes.subrange(0, used) + tail =~= bytes);
    }
}

/// The parts of the 35 bytes of a descriptor that has its bytes.
pub proof fn descriptor_bytes_parts(descriptor: DescriptorView)
    requires
        descriptor.resolution.fits(),
    ensures
        descriptor.bytes().len() == DESCRIPTOR_BYTES,
        descriptor.bytes()[0] == descriptor.resolution.kind(),
        descriptor.bytes().subrange(1, 33) == descriptor.resolution.payload(),
        descriptor.bytes()[33] == flag_byte(descriptor.is_signer),
        descriptor.bytes()[34] == flag_byte(descriptor.is_writable),
{
}

/// Two descriptors with the same bytes are the same descriptor.
pub proof fn descriptor_bytes_injective(a: DescriptorView, b: DescriptorView)
    requires
        a.resolution.fits(),
        b.resolution.fits(),
        a.bytes() == b.bytes(),
    ensures
        a == b,
{
    descriptor_bytes_parts(a);
    descriptor_bytes_parts(b);
    match a.resolution {
        ResolutionView::FixedAddress(address) => {
            same_bytes_same_address(address, b.resolution->FixedAddress_0);
        },
        ResolutionView::SeedDerived { terms, external_program } => {
            let other = b.resolution->terms;
            parse_formula_of_bytes(terms, (PAYLOAD_BYTES - formula_bytes(terms).len()) as nat);
            parse_formula_of_bytes(other, (PAYLOAD_BYTES - formula_bytes(other).len()) as nat);
        },
    }
}

/// The descriptors take 35 bytes each, and each stands at its place.
pub proof fn descriptors_bytes_chunks(descriptors: Seq<DescriptorView>)
    requires
        all_fit(descriptors),
    ensures
        descriptors_bytes(descriptors).len() == DESCRIPTOR_BYTES * descriptors.len(),
        forall|k: int|
            0 <= k < descriptors.len() ==> descriptors_bytes(descriptors).subrange(
                DESCRIPTOR_BYTES * k,
                DESCRIPTOR_BYTES * k + DESCRIPTOR_BYTES,
            ) == (#[trigger] descriptors[k]).bytes(),
    decreases descriptors.len(),
{
    if descriptors.len() > 0 {
        let first = descriptors.drop_last();
        let last = descriptors.last();
        descriptors_bytes_chunks(first);
        descriptor_bytes_parts(last);
        let all = descriptors_bytes(descriptors);
        assert forall|k: int| 0 <= k < descriptors.len() implies all.subrange(
            DESCRIPTOR_BYTES * k,
            DESCRIPTOR_BYTES * k + DESCRIPTOR_BYTES,
        ) == (#[trigger] descriptors[k]).bytes() by {
            if k < first.len() {
                assert(first[k] == descriptors[k]);
            }
        }
    }
}

/// The parts of the bytes of a record: its size, its count, its descriptors.
pub proof fn record_bytes_parts(descriptors: Seq<DescriptorView>)
    requires
        all_fit(descriptors),
        descriptors.len() <= MAX_DESCRIPTORS,
    ensures
        record_bytes(descriptors).len() == record_len(descriptors.len()),
        spec_u32_from_le_bytes(record_bytes(descriptors).subrange(0, 4)) == record_len(
            descriptors.len(),
        ) - 4,
        spec_u32_from_le_bytes(record_bytes(descriptors).subrange(4, 8)) == descriptors.len(),
        record_bytes(descriptors).skip(8) == descriptors_bytes(descriptors),
{
    lemma_auto_spec_u32_to_from_le_bytes();
    descriptors_bytes_chunks(descriptors);
    let size = (record_len(descriptors.len()) - 4) as u32;
    let count = descriptors.len() as u32;
    let all = record_bytes(descriptors);
    assert(all.subrange(0, 4) =~= spec_u32_to_le_bytes(size));
    assert(all.subrange(4, 8) =~= spec_u32_to_le_bytes(count));
}

/// The header of a record declares the number of its descriptors.
pub proof fn record_bytes_declare_count(descriptors: Seq<DescriptorView>)
    requires
        record_wf(descriptors),
    ensures
        declared_count(record_bytes(descriptors)) == Some(descriptors.len()),
{
    record_bytes_parts(descriptors);
}

/// Two records with the same bytes hold the same descriptors.
pub proof fn record_bytes_injective(a: Seq<DescriptorView>, b: Seq<DescriptorView>)
    requires
        record_wf(a),
        record_wf(b),
        record_bytes(a) == record_bytes(b),
    ensures
        a == b,
{
    record_bytes_parts(a);
    record_bytes_parts(b);
    descriptors_bytes_chunks(a);
    descriptors_bytes_chunks(b);
    assert forall|k: int| 0 <= k < a.len() implies a[k] == b[k] by {
        descriptor_bytes_injective(a[k], b[k]);
    }
}

/// Reading the bytes of a record gives its descriptors.
pub proof fn parsed_record_of_bytes(descriptors: Seq<DescriptorView>)
    requires
        record_wf(descriptors),
    ensures
        parsed_record(record_bytes(descriptors)) == Some(descriptors),
{
    let found = parsed_record(record_bytes(descriptors))->0;
    record_bytes_injective(found, descriptors);
}

} // verus!
