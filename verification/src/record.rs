//! The extra-account metadata record: the ordered list of the accounts that a
//! caller has to supply beyond those of the transfer, written to bytes and
//! read back from them.

use crate::address::Address;
use crate::bytes::{append_bytes, copy_bytes};
use crate::instruction::{has_execute_tag, EXECUTE_TAG, TAG_BYTES};
use crate::layout::{
    bytes_of_parsed_formula, declared_count, descriptor_bytes_injective, descriptor_bytes_parts,
    descriptors_bytes, descriptors_bytes_chunks, formula_bytes, formula_bytes_next,
    parse_formula, parse_formula_of_bytes, parsed_record, parsed_record_of_bytes, record_bytes,
    record_bytes_declare_count, record_bytes_parts, record_len, record_wf, zeros, BASE_ACCOUNTS,
    DESCRIPTOR_BYTES, HEADER_BYTES, KIND_DERIVED, KIND_EXTERNAL, KIND_FIXED, MAX_DESCRIPTORS,
    PAYLOAD_BYTES, TERM_ACCOUNT_REF, TERM_LITERAL,
};
use crate::seeds::{references_in_range, references_in_range_next, SeedTerm, SeedTermView};
use vstd::bytes::{lemma_auto_spec_u32_to_from_le_bytes, u32_from_le_bytes, u32_to_le_bytes};
use vstd::prelude::*;
use vstd::slice::slice_subrange;

verus! {

/// How the address of a described account is found.
#[derive(Clone, Debug, PartialEq, Eq)]
pub enum Resolution {
    /// The address itself.
    FixedAddress(Address),
    /// Derived from seeds, under this program or, with `external_program`,
    /// under the program at that position of the account list.
    SeedDerived { terms: Vec<SeedTerm>, external_program: Option<u8> },
}

/// A resolution as a mathematical value.
pub enum ResolutionView {
    FixedAddress(Address),
    SeedDerived { terms: Seq<SeedTermView>, external_program: Option<u8> },
}

impl View for Resolution {
    type V = ResolutionView;

    open spec fn view(&self) -> ResolutionView {
        match *self {
            Resolution::FixedAddress(address) => ResolutionView::FixedAddress(address),
            Resolution::SeedDerived { terms, external_program } => ResolutionView::SeedDerived {
                terms: terms.deep_view(),
                external_program,
            },
        }
    }
}

/// One entry of the record.
#[derive(Clone, Debug, PartialEq, Eq)]
pub struct AccountDescriptor {
    pub resolution: Resolution,
    pub is_signer: bool,
    pub is_writable: bool,
}

/// A descriptor as a mathematical value.
pub struct DescriptorView {
    pub resolution: ResolutionView,
    pub is_signer: bool,
    pub is_writable: bool,
}

impl View for AccountDescriptor {
    type V = DescriptorView;

    open spec fn view(&self) -> DescriptorView {
        DescriptorView {
            resolution: self.resolution@,
            is_signer: self.is_signer,
            is_writable: self.is_writable,
        }
    }
}

impl DeepView for AccountDescriptor {
    type V = DescriptorView;

    open spec fn deep_view(&self) -> DescriptorView {
        self@
    }
}

/// The persisted record: the descriptors in the order in which the accounts
/// have to be supplied.
#[derive(Clone, Debug, PartialEq, Eq)]
pub struct ExtraAccountMetadataRecord {
    pub descriptors: Vec<AccountDescriptor>,
}

impl View for ExtraAccountMetadataRecord {
    type V = Seq<DescriptorView>;

    open spec fn view(&self) -> Seq<DescriptorView> {
        self.descriptors.deep_view()
    }
}

/// The number of bytes that the terms take, or `None` where they take more
/// than a payload has.
pub fn formula_len(terms: &Vec<SeedTerm>) -> (r: Option<usize>)
    ensures
        match r {
            Some(len) => len == formula_bytes(terms.deep_view()).len() && len <= PAYLOAD_BYTES,
            None => formula_bytes(terms.deep_view()).len() > PAYLOAD_BYTES,
        },
{
    let mut len: usize = 0;
    let mut k: usize = 0;
    while k < terms.len()
        invariant
            k <= terms@.len(),
            len == formula_bytes(terms.deep_view().subrange(0, k as int)).len(),
            len <= PAYLOAD_BYTES,
        decreases terms@.len() - k,
    {
        proof {
            formula_bytes_next(terms.deep_view(), k as int);
        }
        let term_len: usize = match &terms[k] {
            SeedTerm::Literal(bytes) => {
                if bytes.len() > PAYLOAD_BYTES {
                    return None;
                }
                2 + bytes.len()
            },
            SeedTerm::AccountRef(_) => 2,
        };
        if len + term_len > PAYLOAD_BYTES {
            return None;
        }
        len = len + term_len;
        k += 1;
    }
    assert(terms.deep_view().subrange(0, k as int) =~= terms.deep_view());
    Some(len)
}

/// Appends the bytes of the terms to `out`.
fn encode_formula(terms: &Vec<SeedTerm>, out: &mut Vec<u8>)
    requires
        formula_bytes(terms.deep_view()).len() <= PAYLOAD_BYTES,
    ensures
        final(out)@ == old(out)@ + formula_bytes(terms.deep_view()),
{
    let mut k: usize = 0;
    while k < terms.len()
        invariant
            k <= terms@.len(),
            formula_bytes(terms.deep_view()).len() <= PAYLOAD_BYTES,
            out@ == old(out)@ + formula_bytes(terms.deep_view().subrange(0, k as int)),
        decreases terms@.len() - k,
    {
        proof {
            formula_bytes_next(terms.deep_view(), k as int);
        }
        match &terms[k] {
            SeedTerm::Literal(bytes) => {
                out.push(TERM_LITERAL);
                out.push(bytes.len() as u8);
                append_bytes(out, bytes.as_slice());
            },
            SeedTerm::AccountRef(index) => {
                out.push(TERM_ACCOUNT_REF);
                out.push(*index);
            },
        }
        k += 1;
    }
    assert(terms.deep_view().subrange(0, k as int) =~= terms.deep_view());
}

/// Whether every reference of the terms lies below `count`.
fn terms_refer_below(terms: &Vec<SeedTerm>, count: usize) -> (r: bool)
    ensures
        r == references_in_range(terms.deep_view(), count as nat),
{
    let mut k: usize = 0;
    while k < terms.len()
        invariant
            k <= terms@.len(),
            references_in_range(terms.deep_view().subrange(0, k as int), count as nat),
        decreases terms@.len() - k,
    {
        match &terms[k] {
            SeedTerm::Literal(_) => {},
            SeedTerm::AccountRef(index) => {
                if *index as usize >= count {
                    assert(terms.deep_view()[k as int] == SeedTermView::AccountRef(*index));
                    return false;
                }
            },
        }
        proof {
            references_in_range_next(terms.deep_view(), k as int, count as nat);
        }
        k += 1;
    }
    assert(terms.deep_view().subrange(0, k as int) =~= terms.deep_view());
    true
}

impl AccountDescriptor {
    /// A descriptor of an account with a fixed address.
    pub fn fixed(address: Address, is_signer: bool, is_writable: bool) -> (r: AccountDescriptor)
        ensures
            r@ == (DescriptorView {
                resolution: ResolutionView::FixedAddress(address),
                is_signer,
                is_writable,
            }),
            r@.resolution.fits(),
    {
        AccountDescriptor { resolution: Resolution::FixedAddress(address), is_signer, is_writable }
    }

    /// A descriptor of an account whose address is derived from seeds, under
    /// this program or under the program at a position of the account list.
    pub fn seed_derived(
        terms: Vec<SeedTerm>,
        external_program: Option<u8>,
        is_signer: bool,
        is_writable: bool,
    ) -> (r: AccountDescriptor)
        ensures
            r@ == (DescriptorView {
                resolution: ResolutionView::SeedDerived {
                    terms: terms.deep_view(),
                    external_program,
                },
                is_signer,
                is_writable,
            }),
    {
        AccountDescriptor {
            resolution: Resolution::SeedDerived { terms, external_program },
            is_signer,
            is_writable,
        }
    }

    /// Whether the descriptor can be written as 35 bytes.
    pub fn fits(&self) -> (r: bool)
        ensures
            r == self@.resolution.fits(),
    {
        match &self.resolution {
            Resolution::FixedAddress(_) => true,
            Resolution::SeedDerived { terms, external_program } => {
                let position_fits = match external_program {
                    Some(position) => *position < KIND_EXTERNAL,
                    None => true,
                };
                formula_len(terms).is_some() && position_fits
            },
        }
    }

    /// Whether every position that the descriptor names lies below `count`.
    pub fn refers_below(&self, count: usize) -> (r: bool)
        ensures
            r == self@.resolution.refers_below(count as nat),
    {
        match &self.resolution {
            Resolution::FixedAddress(_) => true,
            Resolution::SeedDerived { terms, external_program } => {
                let program_below = match external_program {
                    Some(position) => (*position as usize) < count,
                    None => true,
                };
                terms_refer_below(terms, count) && program_below
            },
        }
    }

    /// Appends the 35 bytes of the descriptor to `out`.
    pub fn encode_into(&self, out: &mut Vec<u8>)
        requires
            self@.resolution.fits(),
        ensures
            final(out)@ == old(out)@ + self@.bytes(),
    {
        match &self.resolution {
            Resolution::FixedAddress(address) => {
                out.push(KIND_FIXED);
                let payload = address.to_vec();
                append_bytes(out, payload.as_slice());
            },
            Resolution::SeedDerived { terms, external_program } => {
                match external_program {
                    Some(position) => out.push(KIND_EXTERNAL + *position),
                    None => out.push(KIND_DERIVED),
                }
                let ghost start = out@;
                let start_len: usize = out.len();
                encode_formula(terms, out);
                let mut padded: usize = out.len() - start_len;
                while padded < PAYLOAD_BYTES
                    invariant
                        padded <= PAYLOAD_BYTES,
                        formula_bytes(terms.deep_view()).len() <= padded,
                        out@ == start + formula_bytes(terms.deep_view()) + zeros(
                            (padded - formula_bytes(terms.deep_view()).len()) as nat,
                        ),
                    decreases PAYLOAD_BYTES - padded,
                {
                    out.push(0);
                    padded += 1;
                }
            },
        }
        out.push(if self.is_signer { 1 } else { 0 });
        out.push(if self.is_writable { 1 } else { 0 });
    }
}

/// The terms read so far, followed by what the rest reads as.
spec fn joined(done: Seq<SeedTermView>, rest: Option<Seq<SeedTermView>>) -> Option<
    Seq<SeedTermView>,
> {
    match rest {
        Some(rest) => Some(done + rest),
        None => None,
    }
}

/// Reads a formula back from a payload.
fn decode_formula(payload: &[u8]) -> (r: Option<Vec<SeedTerm>>)
    ensures
        match r {
            Some(terms) => parse_formula(payload@) == Some(terms.deep_view()),
            None => parse_formula(payload@) is None,
        },
{
    let len: usize = payload.len();
    let mut terms: Vec<SeedTerm> = Vec::new();
    let mut pos: usize = 0;
    assert(payload@.skip(0) =~= payload@);
    while pos < len
        invariant
            len == payload@.len(),
            pos <= len,
            parse_formula(payload@) == joined(
                terms.deep_view(),
                parse_formula(payload@.skip(pos as int)),
            ),
        decreases len - pos,
    {
        let ghost rest = payload@.skip(pos as int);
        let kind: u8 = payload[pos];
        if kind == 0 {
            let mut j: usize = pos;
            while j < len && payload[j] == 0
                invariant
                    len == payload@.len(),
                    pos <= j <= len,
                    forall|i: int| pos <= i < j ==> payload@[i] == 0,
                decreases len - j,
            {
                j += 1;
            }
            if j < len {
                assert(zeros(rest.len())[j - pos] == 0);
                return None;
            }
            assert(rest =~= zeros(rest.len()));
            return Some(terms);
        } else if kind == TERM_LITERAL {
            if len - pos < 2 {
                return None;
            }
            let n: usize = payload[pos + 1] as usize;
            if len - pos - 2 < n {
                return None;
            }
            let literal = copy_bytes(slice_subrange(payload, pos + 2, pos + 2 + n));
            assert(literal@ =~= rest.subrange(2, 2 + rest[1]));
            assert(rest.skip(2 + rest[1]) =~= payload@.skip(pos + 2 + n));
            terms.push(SeedTerm::Literal(literal));
            pos = pos + 2 + n;
        } else if kind == TERM_ACCOUNT_REF {
            if len - pos < 2 {
                return None;
            }
            let index: u8 = payload[pos + 1];
            assert(rest.skip(2) =~= payload@.skip(pos + 2));
            terms.push(SeedTerm::AccountRef(index));
            pos = pos + 2;
        } else {
            return None;
        }
    }
    Some(terms)
}

/// Reads one descriptor back from its 35 bytes.
fn decode_descriptor(chunk: &[u8]) -> (r: Option<AccountDescriptor>)
    requires
        chunk@.len() == DESCRIPTOR_BYTES,
    ensures
        match r {
            Some(descriptor) => descriptor@.resolution.fits() && descriptor@.bytes() == chunk@,
            None => forall|d: DescriptorView| d.resolution.fits() ==> d.bytes() != chunk@,
        },
{
    let kind: u8 = chunk[0];
    let signer: u8 = chunk[33];
    let writable: u8 = chunk[34];
    if signer > 1 || writable > 1 || (kind > KIND_DERIVED && kind < KIND_EXTERNAL) {
        assert forall|d: DescriptorView| d.resolution.fits() implies d.bytes() != chunk@ by {
            descriptor_bytes_parts(d);
        }
        return None;
    }
    let payload = slice_subrange(chunk, 1, 33);
    let resolution = if kind == KIND_FIXED {
        match Address::from_slice(payload) {
            Some(address) => Resolution::FixedAddress(address),
            None => {
                return None;
            },
        }
    } else {
        match decode_formula(payload) {
            Some(terms) => {
                proof {
                    bytes_of_parsed_formula(payload@);
                }
                let external_program = if kind == KIND_DERIVED {
                    None
                } else {
                    Some(kind - KIND_EXTERNAL)
                };
                Resolution::SeedDerived { terms, external_program }
            },
            None => {
                assert forall|d: DescriptorView| d.resolution.fits() implies d.bytes()
                    != chunk@ by {
                    descriptor_bytes_parts(d);
                    if d.bytes() == chunk@ {
                        let terms = d.resolution->terms;
                        parse_formula_of_bytes(
                            terms,
                            (PAYLOAD_BYTES - formula_bytes(terms).len()) as nat,
                        );
                    }
                }
                return None;
            },
        }
    };
    let descriptor = AccountDescriptor {
        resolution,
        is_signer: signer == 1,
        is_writable: writable == 1,
    };
    proof {
        descriptor_bytes_parts(descriptor@);
    }
    Some(descriptor)
}

/// Reads the header of a record: the number of descriptors that it declares,
/// where size and count agree with each other and with the number of the
/// bytes.
fn read_header(bytes: &[u8]) -> (r: Option<usize>)
    ensures
        match r {
            Some(count) => declared_count(bytes@) == Some(count as nat),
            None => declared_count(bytes@) is None,
        },
{
    let len: usize = bytes.len();
    if len < HEADER_BYTES {
        return None;
    }
    let size: u32 = u32_from_le_bytes(slice_subrange(bytes, 0, 4));
    let count: u32 = u32_from_le_bytes(slice_subrange(bytes, 4, 8));
    if count as usize <= MAX_DESCRIPTORS && len == HEADER_BYTES + DESCRIPTOR_BYTES
        * count as usize && size as usize == len - 4 {
        Some(count as usize)
    } else {
        None
    }
}

/// The number of bytes of a record of `count` descriptors, or `None` where
/// the size would not fit the header.
pub fn record_size(count: usize) -> (r: Option<usize>)
    ensures
        match r {
            Some(size) => count <= MAX_DESCRIPTORS && size == record_len(count as nat),
            None => count > MAX_DESCRIPTORS,
        },
{
    if count > MAX_DESCRIPTORS {
        None
    } else {
        Some(HEADER_BYTES + DESCRIPTOR_BYTES * count)
    }
}

impl ExtraAccountMetadataRecord {
    /// The invariant of a record.
    pub open spec fn wf(&self) -> bool {
        record_wf(self@)
    }

    /// The record of the descriptors, where they make one.
    pub fn new(descriptors: Vec<AccountDescriptor>) -> (r: Option<ExtraAccountMetadataRecord>)
        ensures
            match r {
                Some(record) => record.wf() && record@ == descriptors.deep_view(),
                None => !record_wf(descriptors.deep_view()),
            },
    {
        if descriptors.len() > MAX_DESCRIPTORS {
            return None;
        }
        let mut k: usize = 0;
        while k < descriptors.len()
            invariant
                k <= descriptors@.len() <= MAX_DESCRIPTORS,
                forall|j: int|
                    0 <= j < k ==> {
                        &&& (#[trigger] descriptors.deep_view()[j]).resolution.fits()
                        &&& descriptors.deep_view()[j].resolution.refers_below(
                            (BASE_ACCOUNTS + j) as nat,
                        )
                    },
            decreases descriptors@.len() - k,
        {
            if !descriptors[k].fits() || !descriptors[k].refers_below(BASE_ACCOUNTS + k) {
                assert(descriptors.deep_view()[k as int] == descriptors@[k as int]@);
                return None;
            }
            k += 1;
        }
        Some(ExtraAccountMetadataRecord { descriptors })
    }

    /// The number of descriptors.
    pub fn count(&self) -> (r: usize)
        ensures
            r == self@.len(),
    {
        self.descriptors.len()
    }

    /// The number of bytes of the record.
    pub fn size(&self) -> (r: usize)
        requires
            self.wf(),
        ensures
            r == record_len(self@.len()),
            r == record_bytes(self@).len(),
    {
        proof {
            record_bytes_parts(self@);
        }
        HEADER_BYTES + DESCRIPTOR_BYTES * self.descriptors.len()
    }

    /// The bytes of the record.
    pub fn encode(&self) -> (r: Vec<u8>)
        requires
            self.wf(),
        ensures
            r@ == record_bytes(self@),
    {
        let count: usize = self.descriptors.len();
        let size: usize = HEADER_BYTES + DESCRIPTOR_BYTES * count - 4;
        let mut out = u32_to_le_bytes(size as u32);
        let count_bytes = u32_to_le_bytes(count as u32);
        append_bytes(&mut out, count_bytes.as_slice());
        let ghost header = out@;
        let mut k: usize = 0;
        while k < count
            invariant
                k <= count == self@.len(),
                self.wf(),
                out@ == header + descriptors_bytes(self@.subrange(0, k as int)),
            decreases count - k,
        {
            let ghost done = self@.subrange(0, k as int);
            assert(self@[k as int] == self.descriptors@[k as int]@);
            self.descriptors[k].encode_into(&mut out);
            k += 1;
            assert(self@.subrange(0, k as int).drop_last() =~= done);
        }
        assert(self@.subrange(0, k as int) =~= self@);
        out
    }

    /// Reads a record back from its bytes: the inverse of `encode`.
    pub fn decode(bytes: &[u8]) -> (r: Option<ExtraAccountMetadataRecord>)
        ensures
            match r {
                Some(record) => record.wf() && record_bytes(record@) == bytes@,
                None => forall|descriptors: Seq<DescriptorView>|
                    record_wf(descriptors) ==> #[trigger] record_bytes(descriptors) != bytes@,
            },
            match r {
                Some(record) => parsed_record(bytes@) == Some(record@),
                None => parsed_record(bytes@) is None,
            },
    {
        let r = Self::decode_checked(bytes);
        proof {
            if r is Some {
                parsed_record_of_bytes(r->0@);
            }
        }
        r
    }

    /// Reads the header, then one descriptor after the other.
    fn decode_checked(bytes: &[u8]) -> (r: Option<ExtraAccountMetadataRecord>)
        ensures
            match r {
                Some(record) => record.wf() && record_bytes(record@) == bytes@,
                None => forall|descriptors: Seq<DescriptorView>|
                    record_wf(descriptors) ==> #[trigger] record_bytes(descriptors) != bytes@,
            },
    {
        let len: usize = bytes.len();
        let count: usize = match read_header(bytes) {
            Some(count) => count,
            None => {
                assert forall|ds: Seq<DescriptorView>| record_wf(ds) implies #[trigger] record_bytes(
                    ds,
                ) != bytes@ by {
                    record_bytes_declare_count(ds);
                }
                return None;
            },
        };
        let mut descriptors: Vec<AccountDescriptor> = Vec::new();
        let mut k: usize = 0;
        while k < count
            invariant
                k <= count <= MAX_DESCRIPTORS,
                len == bytes@.len(),
                len == HEADER_BYTES + DESCRIPTOR_BYTES * count,
                descriptors@.len() == k,
                forall|j: int|
                    0 <= j < k ==> {
                        &&& (#[trigger] descriptors.deep_view()[j]).resolution.fits()
                        &&& descriptors.deep_view()[j].resolution.refers_below(
                            (BASE_ACCOUNTS + j) as nat,
                        )
                    },
                descriptors_bytes(descriptors.deep_view()) == bytes@.subrange(
                    8,
                    8 + DESCRIPTOR_BYTES * k,
                ),
            decreases count - k,
        {
            let ghost done = descriptors.deep_view();
            let start: usize = HEADER_BYTES + DESCRIPTOR_BYTES * k;
            let chunk = slice_subrange(bytes, start, start + DESCRIPTOR_BYTES);
            let decoded = decode_descriptor(chunk);
            let accepted = match &decoded {
                Some(descriptor) => descriptor.refers_below(BASE_ACCOUNTS + k),
                None => false,
            };
            if !accepted {
                assert forall|ds: Seq<DescriptorView>| record_wf(ds) implies #[trigger] record_bytes(
                    ds,
                ) != bytes@ by {
                    if record_bytes(ds) == bytes@ {
                        record_bytes_declare_count(ds);
                        record_bytes_parts(ds);
                        descriptors_bytes_chunks(ds);
                        assert(ds[k as int].bytes() =~= chunk@);
                        if decoded is Some {
                            descriptor_bytes_injective(ds[k as int], decoded->0@);
                        }
                    }
                }
                return None;
            }
            let descriptor = decoded.unwrap();
            let ghost view = descriptor@;
            descriptors.push(descriptor);
            k += 1;
            assert(descriptors.deep_view() =~= done.push(view));
            assert(descriptors.deep_view().drop_last() =~= done);
        }
        let record = ExtraAccountMetadataRecord { descriptors };
        proof {
            lemma_auto_spec_u32_to_from_le_bytes();
        }
        Some(record)
    }
}

/// The bytes that are kept at the address of a record: the tag of the
/// operation that the record serves, then the bytes of the record.
pub open spec fn storage_bytes(record: Seq<u8>) -> Seq<u8> {
    EXECUTE_TAG@ + record
}

/// The bytes to keep at the address of a record.
pub fn stored_bytes(record: &[u8]) -> (r: Vec<u8>)
    ensures
        r@ == storage_bytes(record@),
{
    let mut out = copy_bytes(EXECUTE_TAG.as_slice());
    append_bytes(&mut out, record);
    out
}

/// The bytes of the record in what is kept at its address, where that starts
/// with the tag.
pub fn record_in_storage(storage: &[u8]) -> (r: Option<Vec<u8>>)
    ensures
        match r {
            Some(record) => storage@ == storage_bytes(record@),
            None => storage@.len() < TAG_BYTES || storage@.subrange(0, TAG_BYTES as int)
                != EXECUTE_TAG@,
        },
{
    if has_execute_tag(storage) {
        let record = copy_bytes(slice_subrange(storage, TAG_BYTES, storage.len()));
        assert(storage@ =~= storage@.subrange(0, TAG_BYTES as int) + record@);
        Some(record)
    } else {
        None
    }
}

} // verus!
