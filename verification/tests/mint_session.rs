use magic_hat::errors::MagicHatError;
use magic_hat::processor::initialize::get_space_for_magic_hat;
use magic_hat::processor::instruction_scan::{
    instruction_relative, scan_instruction_programs, InstructionScan,
};
use magic_hat::processor::mint_session::{
    begin_whitelist_mint, MintAbort, MintAction, MintCheckout, MintClosing, MintOpening,
    MintRequest, MintStop,
};
use magic_hat::processor::whitelist_mint::{GatekeeperAccounts, ProgramIds};
use magic_hat::state::{
    GatekeeperConfig, MagicHat, MagicHatData, WhitelistMintMode, WhitelistMintSettings,
};
use magic_hat::wallet_whitelist::{WLType, WalletWhitelist};

const PAYER: [u8; 32] = [9; 32];
const WL_MINT: [u8; 32] = [6; 32];
const CREATOR: [u8; 32] = [7; 32];
const UPDATE_AUTHORITY: [u8; 32] = [8; 32];

fn ids() -> ProgramIds {
    ProgramIds {
        magic_hat: [10; 32],
        gumdrop: [11; 32],
        cupcake: [12; 32],
        spl_token: [13; 32],
        system: [14; 32],
        associated_token: [15; 32],
        slot_hashes: [16; 32],
        block_hashes: [17; 32],
    }
}

fn data(items: u64) -> MagicHatData {
    MagicHatData {
        uuid: "0ABCDE".to_string(),
        price: 1_000,
        symbol: "HAT".to_string(),
        seller_fee_basis_points: 500,
        max_supply: 0,
        is_mutable: false,
        retain_authority: true,
        go_live_date: Some(100),
        end_settings: None,
        creators: vec![],
        hidden_settings: None,
        whitelist_mint_settings: None,
        items_available: items,
        gatekeeper: None,
    }
}

fn hat(items: u64) -> MagicHat {
    MagicHat { authority: [1; 32], wallet: [2; 32], token_mint: None, items_redeemed: 0, data: data(items) }
}

fn entry(spots: u64, price: u64) -> WalletWhitelist {
    WalletWhitelist {
        magic_hat_creator: CREATOR,
        magic_hat: [3; 32],
        whitelisted_address: PAYER,
        whitelist_type: WLType::Two,
        number_of_whitelist_spots: spots,
        special_discounted_price: price,
        bump: 255,
    }
}

/// An instructions sysvar holding `instructions` (program id and data, no
/// accounts), with the first one running.
fn sysvar_of(instructions: &[([u8; 32], Vec<u8>)]) -> Vec<u8> {
    let n = instructions.len();
    let mut v = vec![0u8; 2 + 2 * n];
    v[0..2].copy_from_slice(&(n as u16).to_le_bytes());
    for (i, (program, data)) in instructions.iter().enumerate() {
        let offset = v.len() as u16;
        v[2 + 2 * i..4 + 2 * i].copy_from_slice(&offset.to_le_bytes());
        v.extend_from_slice(&[0, 0]);
        v.extend_from_slice(program);
        v.extend_from_slice(&(data.len() as u16).to_le_bytes());
        v.extend_from_slice(data);
    }
    v.extend_from_slice(&[0, 0]);
    v
}

/// An instructions sysvar with one instruction, calling `program`.
fn sysvar(program: [u8; 32]) -> Vec<u8> {
    sysvar_of(&[(program, vec![1, 2, 3])])
}

fn request(remaining: Vec<[u8; 32]>, whitelist_token: Option<u64>) -> MintRequest {
    let ids = ids();
    MintRequest {
        ids,
        metadata_is_empty: true,
        slot_hashes_key: ids.slot_hashes,
        instructions_sysvar: sysvar(ids.magic_hat),
        now: 200,
        payer: PAYER,
        remaining,
        whitelist_token,
    }
}

/// Slot hashes whose most recent hash starts with `seed`.
fn slot_hashes(seed: u64) -> Vec<u8> {
    let mut v = vec![0u8; 48];
    v[12..20].copy_from_slice(&seed.to_le_bytes());
    v
}

const LINES: usize = 709 + 4;

fn account(items: u64) -> Vec<u8> {
    let mut arr = vec![0u8; get_space_for_magic_hat(data(items)).unwrap()];
    for i in 0..items as usize {
        let start = LINES + i * 240;
        let name = format!("Hat {}", i);
        arr[start] = name.len() as u8;
        arr[start + 4..start + 4 + name.len()].copy_from_slice(name.as_bytes());
        arr[start + 40..start + 43].copy_from_slice(b"uri");
    }
    arr
}

fn checkout(opening: MintOpening) -> MintCheckout {
    match opening {
        MintOpening::Checkout { actions, checkout } => {
            assert!(actions.is_empty());
            checkout
        }
        MintOpening::Stopped { stop, .. } => panic!("stopped: {:?}", stop),
    }
}

#[test]
fn session_mints_and_uses_a_spot() {
    let opening = begin_whitelist_mint(request(vec![], None), hat(10), entry(2, 500));
    let c = checkout(opening);
    assert_eq!(c.amount_due(), 500);
    assert_eq!(c.payment_accounts(), None);
    let mut arr = account(10);
    match c.complete(1_000, &slot_hashes(13), &mut arr, &CREATOR, &UPDATE_AUTHORITY) {
        MintClosing::Minted { actions, magic_hat, wallet_whitelist } => {
            assert_eq!(actions.len(), 2);
            assert!(matches!(actions[0], MintAction::Pay { price: 500, token_accounts: None }));
            match &actions[1] {
                MintAction::CreateMetadata(m) => {
                    assert_eq!(m.line.name, "Hat 3");
                    assert_eq!(m.line.uri, "uri");
                    assert_eq!(m.creators.len(), 1);
                    assert_eq!(m.creators[0].address, CREATOR);
                    assert!(m.creators[0].verified);
                    assert_eq!(m.update_authority, [1; 32]);
                    assert_eq!(m.mutability, Some(false));
                    assert_eq!(m.symbol, "HAT");
                    assert_eq!(m.seller_fee_basis_points, 500);
                    assert_eq!(m.max_supply, 0);
                    assert!(!m.is_mutable);
                }
                _ => panic!("expected the metadata call"),
            }
            assert_eq!(magic_hat.items_redeemed, 1);
            assert_eq!(wallet_whitelist.number_of_whitelist_spots, 1);
        }
        MintClosing::Stopped { stop, .. } => panic!("stopped: {:?}", stop),
    }
    let bitmask = LINES + 10 * 240 + 4 + 10 / 8 + 4;
    assert_eq!(arr[bitmask], 0b0001_0000);
}

#[test]
fn session_hands_out_distinct_lines() {
    let mut arr = account(10);
    let mut names = Vec::new();
    let mut state = hat(10);
    for _ in 0..3 {
        let c = checkout(begin_whitelist_mint(request(vec![], None), state, entry(3, 0)));
        match c.complete(0, &slot_hashes(13), &mut arr, &CREATOR, &UPDATE_AUTHORITY) {
            MintClosing::Minted { actions, magic_hat, .. } => {
                if let MintAction::CreateMetadata(m) = &actions[1] {
                    names.push(m.line.name.clone());
                }
                state = magic_hat;
            }
            MintClosing::Stopped { stop, .. } => panic!("stopped: {:?}", stop),
        }
    }
    assert_eq!(names, vec!["Hat 3", "Hat 4", "Hat 5"]);
    assert_eq!(state.items_redeemed, 3);
}

#[test]
fn session_punishes_a_sold_out_hat() {
    let mut h = hat(10);
    h.items_redeemed = 10;
    match begin_whitelist_mint(request(vec![], None), h, entry(2, 500)) {
        MintOpening::Stopped { actions, stop } => {
            assert!(actions.is_empty());
            assert!(matches!(stop, MintStop::Punish(MagicHatError::MagicHatEmpty)));
        }
        MintOpening::Checkout { .. } => panic!("a sold-out hat went on"),
    }
}

#[test]
fn session_fails_without_a_spot() {
    let c = checkout(begin_whitelist_mint(request(vec![], None), hat(10), entry(0, 500)));
    let mut arr = account(10);
    match c.complete(1_000, &slot_hashes(0), &mut arr, &CREATOR, &UPDATE_AUTHORITY) {
        MintClosing::Stopped { actions, stop } => {
            assert_eq!(actions.len(), 2);
            assert!(matches!(stop, MintStop::Fail(MagicHatError::NumericalOverflowError)));
        }
        MintClosing::Minted { .. } => panic!("minted without a spot"),
    }
}

#[test]
fn session_fails_on_a_short_balance() {
    let c = checkout(begin_whitelist_mint(request(vec![], None), hat(10), entry(1, 500)));
    let mut arr = account(10);
    let before = arr.clone();
    match c.complete(499, &slot_hashes(0), &mut arr, &CREATOR, &UPDATE_AUTHORITY) {
        MintClosing::Stopped { actions, stop } => {
            assert!(actions.is_empty());
            assert!(matches!(stop, MintStop::Fail(MagicHatError::NotEnoughSOL)));
        }
        MintClosing::Minted { .. } => panic!("minted on a short balance"),
    }
    assert_eq!(arr, before);
}

#[test]
fn session_aborts_on_short_slot_hashes() {
    let c = checkout(begin_whitelist_mint(request(vec![], None), hat(10), entry(1, 500)));
    let mut arr = account(10);
    match c.complete(1_000, &[0u8; 19], &mut arr, &CREATOR, &UPDATE_AUTHORITY) {
        MintClosing::Stopped { actions, stop } => {
            assert_eq!(actions.len(), 1);
            assert!(matches!(stop, MintStop::Abort(MintAbort::SlotHashesTooShort)));
        }
        MintClosing::Minted { .. } => panic!("minted without slot hashes"),
    }
}

#[test]
fn session_punishes_another_program() {
    let mut r = request(vec![], None);
    let mut v = sysvar_of(&[([99; 32], vec![]), ([10; 32], vec![])]);
    let len = v.len();
    v[len - 2..].copy_from_slice(&1u16.to_le_bytes());
    r.instructions_sysvar = v;
    match begin_whitelist_mint(r, hat(10), entry(1, 500)) {
        MintOpening::Stopped { actions, stop } => {
            assert!(actions.is_empty());
            assert!(matches!(stop, MintStop::PunishProgram(p) if p == [99; 32]));
        }
        MintOpening::Checkout { .. } => panic!("went on"),
    }
}

#[test]
fn session_refuses_an_unknown_next_instruction() {
    let mut r = request(vec![], None);
    r.instructions_sysvar = sysvar_of(&[([10; 32], vec![]), ([99; 32], vec![0; 8])]);
    match begin_whitelist_mint(r, hat(10), entry(1, 500)) {
        MintOpening::Stopped { stop, .. } => {
            assert!(matches!(stop, MintStop::Fail(MagicHatError::SuspiciousTransaction)));
        }
        MintOpening::Checkout { .. } => panic!("went on"),
    }
    let mut r = request(vec![], None);
    r.instructions_sysvar = sysvar_of(&[([10; 32], vec![]), ([10; 32], vec![0; 7])]);
    match begin_whitelist_mint(r, hat(10), entry(1, 500)) {
        MintOpening::Stopped { stop, .. } => {
            assert!(matches!(stop, MintStop::Abort(MintAbort::NextInstructionTooShort)));
        }
        MintOpening::Checkout { .. } => panic!("went on"),
    }
}

#[test]
fn session_aborts_without_the_whitelist_token_account() {
    let mut h = hat(10);
    h.data.whitelist_mint_settings = Some(WhitelistMintSettings {
        mode: WhitelistMintMode::NeverBurn,
        mint: WL_MINT,
        presale: false,
        discount_price: Some(100),
    });
    match begin_whitelist_mint(request(vec![], None), h, entry(1, 500)) {
        MintOpening::Stopped { stop, .. } => {
            assert!(matches!(stop, MintStop::Abort(MintAbort::MissingRemainingAccount)));
        }
        MintOpening::Checkout { .. } => panic!("went on"),
    }
}

#[test]
fn session_verifies_gateway_then_burns() {
    let mut h = hat(10);
    h.data.gatekeeper = Some(GatekeeperConfig { gatekeeper_network: [20; 32], expire_on_use: false });
    h.data.whitelist_mint_settings = Some(WhitelistMintSettings {
        mode: WhitelistMintMode::BurnEveryTime,
        mint: WL_MINT,
        presale: false,
        discount_price: Some(100),
    });
    let remaining = vec![[21; 32], [22; 32], WL_MINT, [23; 32]];
    match begin_whitelist_mint(request(remaining, Some(1)), h, entry(1, 500)) {
        MintOpening::Checkout { actions, checkout } => {
            assert_eq!(actions.len(), 2);
            assert!(matches!(actions[0], MintAction::VerifyGateway(GatekeeperAccounts::Verify)));
            match &actions[1] {
                MintAction::Burn { source, accounts } => {
                    assert_eq!(*source, 1);
                    assert_eq!(accounts.mint, 2);
                    assert_eq!(accounts.authority, 3);
                }
                _ => panic!("expected the burn"),
            }
            assert_eq!(checkout.amount_due(), 100);
        }
        MintOpening::Stopped { stop, .. } => panic!("stopped: {:?}", stop),
    }
}

/// A sysvar of `count` instructions whose entries all point at offset 2,
/// where the bytes read as an instruction calling the program `[2, 0] * 16`.
fn repeated_sysvar(count: u16) -> Vec<u8> {
    let mut v = count.to_le_bytes().to_vec();
    for _ in 0..count {
        v.extend_from_slice(&[2, 0]);
    }
    v
}

#[test]
fn scan_stops_where_the_entry_offset_overflows() {
    let program: Vec<u8> = [2u8, 0].iter().cycle().take(32).cloned().collect();
    let mut key = [0u8; 32];
    key.copy_from_slice(&program);
    let allowed = vec![key];
    assert!(matches!(
        scan_instruction_programs(&repeated_sysvar(32768), &allowed),
        InstructionScan::AllAllowed
    ));
    assert!(matches!(
        scan_instruction_programs(&repeated_sysvar(32769), &allowed),
        InstructionScan::IndexOverflow
    ));
    assert!(matches!(
        scan_instruction_programs(&repeated_sysvar(40000), &[[5u8; 32]].to_vec()),
        InstructionScan::Disallowed(_)
    ));
}

const SET_COLLECTION_DURING_MINT: [u8; 8] = [103, 17, 200, 25, 118, 95, 125, 61];

#[test]
fn session_accepts_set_collection_after_the_mint() {
    let mut r = request(vec![], None);
    r.instructions_sysvar =
        sysvar_of(&[([10; 32], vec![]), ([10; 32], SET_COLLECTION_DURING_MINT.to_vec())]);
    assert!(matches!(begin_whitelist_mint(r, hat(10), entry(1, 500)), MintOpening::Checkout { .. }));
    let mut r = request(vec![], None);
    r.instructions_sysvar = sysvar_of(&[
        ([10; 32], vec![]),
        ([10; 32], SET_COLLECTION_DURING_MINT.to_vec()),
        ([13; 32], vec![]),
    ]);
    match begin_whitelist_mint(r, hat(10), entry(1, 500)) {
        MintOpening::Stopped { stop, .. } => {
            assert!(matches!(stop, MintStop::Fail(MagicHatError::SuspiciousTransaction)));
        }
        MintOpening::Checkout { .. } => panic!("an instruction after set_collection went through"),
    }
}

#[test]
fn session_aborts_without_a_running_instruction() {
    let mut r = request(vec![], None);
    r.instructions_sysvar = vec![0];
    match begin_whitelist_mint(r, hat(10), entry(1, 500)) {
        MintOpening::Stopped { stop, .. } => {
            assert!(matches!(stop, MintStop::Abort(MintAbort::CurrentInstructionUnreadable)));
        }
        MintOpening::Checkout { .. } => panic!("went on"),
    }
}

#[test]
fn relative_instructions_are_read_from_the_sysvar() {
    let mut v = sysvar_of(&[([1; 32], vec![5]), ([2; 32], vec![6, 7]), ([3; 32], vec![])]);
    let len = v.len();
    v[len - 2..].copy_from_slice(&1u16.to_le_bytes());
    assert_eq!(instruction_relative(&v, 0), Some(([2; 32], vec![6, 7])));
    assert_eq!(instruction_relative(&v, 1), Some(([3; 32], vec![])));
    assert_eq!(instruction_relative(&v, 2), None);
    assert_eq!(instruction_relative(&[0u8], 0), None);
}

#[test]
fn session_punishes_a_call_from_another_program() {
    let mut r = request(vec![], None);
    r.instructions_sysvar = sysvar([99; 32]);
    match begin_whitelist_mint(r, hat(10), entry(1, 500)) {
        MintOpening::Stopped { actions, stop } => {
            assert!(actions.is_empty());
            assert!(matches!(stop, MintStop::Punish(MagicHatError::SuspiciousTransaction)));
        }
        MintOpening::Checkout { .. } => panic!("went on"),
    }
}
