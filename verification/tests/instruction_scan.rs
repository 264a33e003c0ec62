use magic_hat::processor::instruction_scan::{is_allowed, scan_instruction_programs, InstructionScan};

/// Serializes instructions the way the instructions sysvar lays them out:
/// the count, the offset of each instruction, then at each offset the
/// account count, 33 bytes per account, the program id and the data.
fn sysvar(instructions: &[(u16, [u8; 32])]) -> Vec<u8> {
    let n = instructions.len();
    let mut out = vec![0u8; 2 + 2 * n];
    out[0..2].copy_from_slice(&(n as u16).to_le_bytes());
    for (i, (accounts, program)) in instructions.iter().enumerate() {
        let offset = out.len() as u16;
        out[2 + 2 * i..4 + 2 * i].copy_from_slice(&offset.to_le_bytes());
        out.extend_from_slice(&accounts.to_le_bytes());
        out.extend(std::iter::repeat(9u8).take(*accounts as usize * 33));
        out.extend_from_slice(program);
        out.extend_from_slice(&[0, 0]);
    }
    out
}

fn allowed() -> Vec<[u8; 32]> {
    vec![[1; 32], [2; 32], [3; 32], [4; 32]]
}

#[test]
fn allowed_programs_pass() {
    let data = sysvar(&[(2, [1; 32]), (0, [3; 32]), (5, [4; 32])]);
    assert!(matches!(scan_instruction_programs(&data, &allowed()), InstructionScan::AllAllowed));
    assert!(matches!(scan_instruction_programs(&sysvar(&[]), &allowed()), InstructionScan::AllAllowed));
}

#[test]
fn first_foreign_program_is_reported() {
    let data = sysvar(&[(1, [2; 32]), (1, [7; 32]), (1, [8; 32])]);
    match scan_instruction_programs(&data, &allowed()) {
        InstructionScan::Disallowed(k) => assert_eq!(k, [7; 32]),
        other => panic!("unexpected {:?}", other),
    }
}

#[test]
fn unreadable_sysvar_is_reported() {
    assert!(matches!(scan_instruction_programs(&[5], &allowed()), InstructionScan::CountUnreadable));
    let mut data = sysvar(&[(1, [1; 32]), (1, [2; 32])]);
    data.truncate(data.len() - 20);
    assert!(matches!(
        scan_instruction_programs(&data, &allowed()),
        InstructionScan::EntryUnreadable(1)
    ));
    let data = vec![3, 0, 6, 0];
    assert!(matches!(
        scan_instruction_programs(&data, &allowed()),
        InstructionScan::EntryUnreadable(0)
    ));
}

#[test]
fn allow_list_membership() {
    assert!(is_allowed(&[3; 32], &allowed()));
    assert!(!is_allowed(&[5; 32], &allowed()));
    assert!(!is_allowed(&[1; 32], &vec![]));
}
