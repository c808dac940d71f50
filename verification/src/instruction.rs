//! The instruction dispatcher: reads the operation out of the raw bytes and
//! hands the one that is supported on to the hook.

use crate::accounts::TransferHook;
use crate::error::HookError;
use crate::hook::{hook_outcome, transfer_hook};
use anchor_lang::solana_program::program_error::ProgramError;
use spl_transfer_hook_interface::instruction::TransferHookInstruction;
use vstd::bytes::{
    lemma_auto_spec_u64_to_from_le_bytes, spec_u64_from_le_bytes, spec_u64_to_le_bytes,
    u64_from_le_bytes, u64_to_le_bytes,
};
use vstd::prelude::*;
use vstd::slice::slice_subrange;

verus! {

/// Number of bytes of an operation tag.
pub const TAG_BYTES: usize = 8;

/// The tag of the one operation that is supported: to run the hook.
pub const EXECUTE_TAG: [u8; 8] = [105, 37, 101, 197, 75, 251, 102, 26];

/// The operations that the bytes of an instruction can name.
#[derive(Clone, Copy, Debug, PartialEq, Eq, Structural)]
pub enum HookInstruction {
    /// Run the hook on a transfer of `amount`.
    Execute { amount: u64 },
    /// Known, and not handled here.
    InitializeExtraAccountMetaList,
    /// Known, and not handled here.
    UpdateExtraAccountMetaList,
}

/// The error of the program interface, which the dispatcher maps to its own.
#[verifier::external_type_specification]
#[verifier::external_body]
pub struct ExProgramError(ProgramError);

/// The amount that the bytes carry, where they name the supported operation:
/// the tag, then the amount as eight bytes, little endian. What follows the
/// amount is not read.
pub open spec fn execute_amount(data: Seq<u8>) -> Option<u64> {
    if data.len() >= TAG_BYTES + 8 && data.subrange(0, TAG_BYTES as int) == EXECUTE_TAG@ {
        Some(spec_u64_from_le_bytes(data.subrange(TAG_BYTES as int, TAG_BYTES + 8)))
    } else {
        None
    }
}

/// Whether the bytes start with the tag of the supported operation.
pub fn has_execute_tag(data: &[u8]) -> (r: bool)
    ensures
        r == (data@.len() >= TAG_BYTES && data@.subrange(0, TAG_BYTES as int) == EXECUTE_TAG@),
{
    if data.len() < TAG_BYTES {
        return false;
    }
    let mut i: usize = 0;
    while i < TAG_BYTES
        invariant
            i <= TAG_BYTES <= data@.len(),
            forall|k: int| 0 <= k < i ==> data@[k] == EXECUTE_TAG@[k],
        decreases TAG_BYTES - i,
    {
        if data[i] != EXECUTE_TAG[i] {
            assert(data@.subrange(0, TAG_BYTES as int)[i as int] != EXECUTE_TAG@[i as int]);
            return false;
        }
        i += 1;
    }
    assert(data@.subrange(0, TAG_BYTES as int) =~= EXECUTE_TAG@);
    true
}

/// Calls `TransferHookInstruction::unpack` on bytes that start with the tag
/// of `Execute`. With eight more bytes it returns `Execute` with those bytes
/// as the amount, little endian; with fewer it returns an error. Bytes with
/// another tag are kept from it: on the two other tags that it knows it cuts
/// as many entries out of the bytes as their count says, and panics where the
/// bytes hold fewer.
#[verifier::external_body]
fn unpack_instruction(data: &[u8]) -> (r: Result<HookInstruction, ProgramError>)
    requires
        data@.len() >= TAG_BYTES,
        data@.subrange(0, TAG_BYTES as int) == EXECUTE_TAG@,
    ensures
        match execute_amount(data@) {
            Some(amount) => r == Ok::<HookInstruction, ProgramError>(
                HookInstruction::Execute { amount },
            ),
            None => r is Err,
        },
{
    match TransferHookInstruction::unpack(data) {
        Ok(TransferHookInstruction::Execute { amount }) => Ok(HookInstruction::Execute { amount }),
        Ok(TransferHookInstruction::InitializeExtraAccountMetaList { .. }) => Ok(
            HookInstruction::InitializeExtraAccountMetaList,
        ),
        Ok(TransferHookInstruction::UpdateExtraAccountMetaList { .. }) => Ok(
            HookInstruction::UpdateExtraAccountMetaList,
        ),
        Err(e) => Err(e),
    }
}

/// Reads the amount that the dispatcher hands to the hook: eight bytes,
/// little endian.
pub fn decode_amount(data: &[u8]) -> (r: Result<u64, HookError>)
    ensures
        data@.len() >= 8 ==> r == Ok::<u64, HookError>(
            spec_u64_from_le_bytes(data@.subrange(0, 8)),
        ),
        data@.len() < 8 ==> r == Err::<u64, HookError>(HookError::InvalidInstructionData),
{
    if data.len() < 8 {
        Err(HookError::InvalidInstructionData)
    } else {
        Ok(u64_from_le_bytes(slice_subrange(data, 0, 8)))
    }
}

/// Decides what the bytes of an instruction ask for. Bytes that name the
/// supported operation give its amount, encoded again as eight bytes, little
/// endian, for the hook. Every other operation, known or not, is refused by
/// its tag, before anything else of the bytes is read.
pub fn dispatch(data: &[u8]) -> (r: Result<Vec<u8>, HookError>)
    ensures
        match execute_amount(data@) {
            Some(amount) => r matches Ok(bytes) && bytes@ == spec_u64_to_le_bytes(amount),
            None => r == Err::<Vec<u8>, HookError>(HookError::InvalidInstructionData),
        },
        data@.len() < TAG_BYTES || data@.subrange(0, TAG_BYTES as int) != EXECUTE_TAG@ ==> r
            == Err::<Vec<u8>, HookError>(HookError::InvalidInstructionData),
{
    if !has_execute_tag(data) {
        return Err(HookError::InvalidInstructionData);
    }
    match unpack_instruction(data) {
        Ok(HookInstruction::Execute { amount }) => Ok(u64_to_le_bytes(amount)),
        Ok(HookInstruction::InitializeExtraAccountMetaList) => Err(
            HookError::InvalidInstructionData,
        ),
        Ok(HookInstruction::UpdateExtraAccountMetaList) => Err(HookError::InvalidInstructionData),
        Err(_) => Err(HookError::InvalidInstructionData),
    }
}

/// The entry point that the transfer runtime invokes. Bytes that name the
/// supported operation run the hook on their amount, with the accounts in
/// the order in which they came. Any other bytes are refused, and the
/// accounts stay as they were.
pub fn fallback(ctx: &mut TransferHook, data: &[u8]) -> (r: Result<(), HookError>)
    ensures
        match execute_amount(data@) {
            Some(amount) => match hook_outcome(old(ctx)@, amount) {
                Ok(after) => r is Ok && final(ctx)@ == after,
                Err(e) => r == Err::<(), HookError>(e) && *final(ctx) == *old(ctx),
            },
            None => r == Err::<(), HookError>(HookError::InvalidInstructionData) && *final(ctx)
                == *old(ctx),
        },
        data@.len() < TAG_BYTES || data@.subrange(0, TAG_BYTES as int) != EXECUTE_TAG@ ==> r
            == Err::<(), HookError>(HookError::InvalidInstructionData) && *final(ctx) == *old(
            ctx,
        ),
{
    let amount_bytes = match dispatch(data) {
        Ok(bytes) => bytes,
        Err(e) => {
            return Err(e);
        },
    };
    proof {
        lemma_auto_spec_u64_to_from_le_bytes();
        assert(amount_bytes@.subrange(0, 8) =~= amount_bytes@);
    }
    match decode_amount(amount_bytes.as_slice()) {
        Ok(amount) => transfer_hook(ctx, amount),
        Err(e) => Err(e),
    }
}

} // verus!
