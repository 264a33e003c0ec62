use vstd::prelude::*;
use vstd::bytes::spec_u16_from_le_bytes;
use solana_program::sanitize::SanitizeError;
use crate::address::{same_pubkey, Address};

verus! {

/// The error type of solana's serialization helpers.
#[verifier::external_type_specification]
#[verifier::external_body]
pub struct ExSanitizeError(SanitizeError);

/// Reads the little-endian `u16` at `*current` and moves past it, through
/// `solana_program::serialize_utils::read_u16`.
///
/// Trusted: its source checks that two bytes are left, decodes them with
/// `u16::from_le_bytes` and advances `current` by two; otherwise it fails
/// with `IndexOutOfBounds` and leaves `current` alone.
#[verifier::external_body]
fn read_u16(current: &mut usize, data: &[u8]) -> (r: Result<u16, SanitizeError>)
    requires
        *old(current) + 2 <= usize::MAX,
    ensures
        *old(current) + 2 <= data@.len() ==> {
            &&& r matches Ok(v) && v == spec_u16_from_le_bytes(
                data@.subrange(*old(current) as int, *old(current) + 2),
            )
            &&& *final(current) == *old(current) + 2
        },
        *old(current) + 2 > data@.len() ==> r is Err && *final(current) == *old(current),
{
    solana_program::serialize_utils::read_u16(current, data)
}

/// Reads the 32-byte public key at `*current` and moves past it, through
/// `solana_program::serialize_utils::read_pubkey`.
///
/// Trusted: its source checks that 32 bytes are left, builds the key from
/// them (whose `to_bytes` gives them back) and advances `current` by 32;
/// otherwise it fails with `IndexOutOfBounds` and leaves `current` alone.
#[verifier::external_body]
fn read_pubkey(current: &mut usize, data: &[u8]) -> (r: Result<Address, SanitizeError>)
    requires
        *old(current) + 32 <= usize::MAX,
    ensures
        *old(current) + 32 <= data@.len() ==> {
            &&& r matches Ok(k) && k@ == data@.subrange(*old(current) as int, *old(current) + 32)
            &&& *final(current) == *old(current) + 32
        },
        *old(current) + 32 > data@.len() ==> r is Err && *final(current) == *old(current),
{
    match solana_program::serialize_utils::read_pubkey(current, data) {
        Ok(key) => Ok(key.to_bytes()),
        Err(e) => Err(e),
    }
}

/// The little-endian `u16` at `pos`, when two bytes are there.
pub open spec fn u16_at(data: Seq<u8>, pos: int) -> Option<u16> {
    if 0 <= pos && pos + 2 <= data.len() {
        Some(spec_u16_from_le_bytes(data.subrange(pos, pos + 2)))
    } else {
        None
    }
}

/// The program id of instruction `index` in the serialized instructions
/// sysvar: the instruction's offset is in the table after the count, and
/// at that offset its account count is followed by 33 bytes per account and
/// then the program id.
pub open spec fn instruction_program_id(data: Seq<u8>, index: int) -> Option<Seq<u8>> {
    match u16_at(data, 2 + 2 * index) {
        None => None,
        Some(start) => match u16_at(data, start as int) {
            None => None,
            Some(num_accounts) => {
                let p = start + 2 + num_accounts * 33;
                if p + 32 <= data.len() {
                    Some(data.subrange(p, p + 32))
                } else {
                    None
                }
            },
        },
    }
}

/// Instruction `index` of the serialized instructions sysvar, as its
/// program id and its data: after the program id come the data length and
/// the data. `None` when the index is past the count or a field runs past
/// the end.
pub open spec fn instruction_at(data: Seq<u8>, index: int) -> Option<(Seq<u8>, Seq<u8>)> {
    match u16_at(data, 0) {
        None => None,
        Some(n) => if index < 0 || index >= n {
            None
        } else {
            match u16_at(data, 2 + 2 * index) {
                None => None,
                Some(start) => match u16_at(data, start as int) {
                    None => None,
                    Some(num_accounts) => {
                        let p = start + 2 + num_accounts * 33;
                        if p + 32 > data.len() {
                            None
                        } else {
                            match u16_at(data, p + 32) {
                                None => None,
                                Some(len) => if p + 34 + len <= data.len() {
                                    Some((data.subrange(p, p + 32), data.subrange(p + 34, p + 34 + len)))
                                } else {
                                    None
                                },
                            }
                        }
                    },
                },
            }
        },
    }
}

/// The instruction `offset` places after the running one, whose index is
/// in the last two bytes of the sysvar.
pub open spec fn relative_instruction(data: Seq<u8>, offset: int) -> Option<(Seq<u8>, Seq<u8>)> {
    if data.len() < 2 {
        None
    } else {
        instruction_at(
            data,
            spec_u16_from_le_bytes(data.subrange(data.len() - 2, data.len() as int)) + offset,
        )
    }
}

/// Reads the index of the running instruction from the instructions sysvar,
/// through `solana_program::sysvar::instructions::load_current_index`.
///
/// Trusted: its source decodes the last two bytes of the data with
/// `u16::from_le_bytes`; it panics on shorter data, which `requires` rules
/// out.
#[verifier::external_body]
#[allow(deprecated)]
fn load_current_index(data: &[u8]) -> (r: u16)
    requires
        data@.len() >= 2,
    ensures
        r == spec_u16_from_le_bytes(data@.subrange(data@.len() - 2, data@.len() as int)),
{
    solana_program::sysvar::instructions::load_current_index(data)
}

/// Reads instruction `index` out of the instructions sysvar, through
/// `solana_program::sysvar::instructions::load_instruction_at`, keeping its
/// program id and data.
///
/// Trusted: its source reads the count and fails past it, follows the
/// instruction's offset, reads the account count, a flag byte and a key per
/// account, the program id, the data length and the data, each read failing
/// when the bytes run out; it never panics.
#[verifier::external_body]
#[allow(deprecated)]
fn load_instruction_at(index: usize, data: &[u8]) -> (r: Option<(Address, Vec<u8>)>)
    ensures
        match r {
            Some((program, bytes)) => instruction_at(data@, index as int) == Some((program@, bytes@)),
            None => instruction_at(data@, index as int) is None,
        },
{
    match solana_program::sysvar::instructions::load_instruction_at(index, data) {
        Ok(ix) => Some((ix.program_id.to_bytes(), ix.data)),
        Err(_) => None,
    }
}

/// The program id and data of the instruction `offset` places after the
/// running one; `None` when the sysvar does not hold it.
pub fn instruction_relative(data: &[u8], offset: u16) -> (r: Option<(Address, Vec<u8>)>)
    ensures
        match r {
            Some((program, bytes)) => relative_instruction(data@, offset as int) == Some(
                (program@, bytes@),
            ),
            None => relative_instruction(data@, offset as int) is None,
        },
{
    if data.len() < 2 {
        return None;
    }
    let current = load_current_index(data);
    load_instruction_at(current as usize + offset as usize, data)
}

/// `id` is one of the `allowed` program ids.
pub open spec fn is_allowed_program(allowed: Seq<Address>, id: Seq<u8>) -> bool {
    exists|k: int| 0 <= k < allowed.len() && #[trigger] allowed[k]@ == id
}

/// How the scan of the instructions of a transaction ends.
#[derive(Clone, Copy, Debug)]
pub enum InstructionScan {
    /// The instruction count cannot be read.
    CountUnreadable,
    /// The entry of this instruction cannot be read.
    EntryUnreadable(u16),
    /// An instruction calls this program, which is not allowed.
    Disallowed(Address),
    /// The scan reached an instruction whose index, doubled, no longer fits
    /// in 16 bits.
    IndexOverflow,
    /// Every instruction calls an allowed program.
    AllAllowed,
}

/// The scan outcome, with program ids as byte sequences.
pub enum ScanOutcome {
    CountUnreadable,
    EntryUnreadable(int),
    Disallowed(Seq<u8>),
    IndexOverflow,
    AllAllowed,
}

/// The outcome of checking instructions `i..n`.
pub open spec fn scan_from(data: Seq<u8>, allowed: Seq<Address>, i: int, n: int) -> ScanOutcome
    decreases n - i,
{
    if i >= n {
        ScanOutcome::AllAllowed
    } else if i >= 32768 {
        ScanOutcome::IndexOverflow
    } else {
        match instruction_program_id(data, i) {
            None => ScanOutcome::EntryUnreadable(i),
            Some(id) => if is_allowed_program(allowed, id) {
                scan_from(data, allowed, i + 1, n)
            } else {
                ScanOutcome::Disallowed(id)
            },
        }
    }
}

/// The outcome of checking every instruction of the sysvar `data`.
pub open spec fn scan_instructions(data: Seq<u8>, allowed: Seq<Address>) -> ScanOutcome {
    match u16_at(data, 0) {
        None => ScanOutcome::CountUnreadable,
        Some(n) => scan_from(data, allowed, 0, n as int),
    }
}

/// The outcome as a plain value.
pub open spec fn scan_view(r: InstructionScan) -> ScanOutcome {
    match r {
        InstructionScan::CountUnreadable => ScanOutcome::CountUnreadable,
        InstructionScan::EntryUnreadable(i) => ScanOutcome::EntryUnreadable(i as int),
        InstructionScan::Disallowed(k) => ScanOutcome::Disallowed(k@),
        InstructionScan::IndexOverflow => ScanOutcome::IndexOverflow,
        InstructionScan::AllAllowed => ScanOutcome::AllAllowed,
    }
}

/// Tells whether `id` is one of the `allowed` program ids.
pub fn is_allowed(id: &Address, allowed: &Vec<Address>) -> (ok: bool)
    ensures
        ok == is_allowed_program(allowed@, id@),
{
    let mut k: usize = 0;
    while k < allowed.len()
        invariant
            0 <= k <= allowed@.len(),
            forall|j: int| 0 <= j < k ==> allowed@[j]@ != id@,
        decreases allowed@.len() - k,
    {
        if same_pubkey(&allowed[k], id) {
            return true;
        }
        k += 1;
    }
    false
}

/// Instruction `k` can be read and calls one of the `allowed` programs.
pub open spec fn instruction_calls_allowed(data: Seq<u8>, allowed: Seq<Address>, k: int) -> bool {
    match instruction_program_id(data, k) {
        Some(id) => is_allowed_program(allowed, id),
        None => false,
    }
}

proof fn lemma_scan_from_all_allowed(data: Seq<u8>, allowed: Seq<Address>, i: int, n: int)
    requires
        scan_from(data, allowed, i, n) == ScanOutcome::AllAllowed,
    ensures
        forall|k: int|
            i <= k < n ==> #[trigger] instruction_calls_allowed(data, allowed, k),
    decreases n - i,
{
    if i < n {
        lemma_scan_from_all_allowed(data, allowed, i + 1, n);
    }
}

/// When the scan accepts a transaction, every one of its instructions can
/// be read and calls an allowed program.
pub proof fn lemma_accepted_transaction_calls_only_allowed_programs(data: Seq<u8>, allowed: Seq<Address>)
    requires
        scan_instructions(data, allowed) == ScanOutcome::AllAllowed,
    ensures
        u16_at(data, 0) is Some,
        forall|k: int|
            0 <= k < u16_at(data, 0).unwrap() ==> #[trigger] instruction_calls_allowed(data, allowed, k),
{
    lemma_scan_from_all_allowed(data, allowed, 0, u16_at(data, 0).unwrap() as int);
}

/// Checks that every instruction of the transaction, as the instructions
/// sysvar `data` lists them, calls one of the `allowed` programs.
pub fn scan_instruction_programs(data: &[u8], allowed: &Vec<Address>) -> (r: InstructionScan)
    ensures
        scan_view(r) == scan_instructions(data@, allowed@),
{
    let mut idx: usize = 0;
    let num_instructions = match read_u16(&mut idx, data) {
        Ok(n) => n,
        Err(_) => return InstructionScan::CountUnreadable,
    };
    let ghost n = num_instructions as int;
    let mut index: u16 = 0;
    while index < num_instructions
        invariant
            n == num_instructions,
            u16_at(data@, 0) == Some(num_instructions),
            0 <= index <= num_instructions,
            scan_instructions(data@, allowed@) == scan_from(data@, allowed@, index as int, n),
        decreases num_instructions - index,
    {
        if index >= 32768 {
            return InstructionScan::IndexOverflow;
        }
        let mut current = 2 + (index as usize) * 2;
        let start = match read_u16(&mut current, data) {
            Ok(v) => v,
            Err(_) => return InstructionScan::EntryUnreadable(index),
        };
        current = start as usize;
        let num_accounts = match read_u16(&mut current, data) {
            Ok(v) => v,
            Err(_) => return InstructionScan::EntryUnreadable(index),
        };
        current += (num_accounts as usize) * (1 + 32);
        let program_id = match read_pubkey(&mut current, data) {
            Ok(k) => k,
            Err(_) => return InstructionScan::EntryUnreadable(index),
        };
        assert(instruction_program_id(data@, index as int) == Some(program_id@));
        if !is_allowed(&program_id, allowed) {
            return InstructionScan::Disallowed(program_id);
        }
        index += 1;
    }
    InstructionScan::AllAllowed
}

} // verus!
