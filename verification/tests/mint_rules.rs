use magic_hat::errors::MagicHatError;
use magic_hat::processor::whitelist_mint::{
    allowed_programs, check_balance, check_end_settings, check_items_remaining,
    check_next_instruction, check_transaction_accounts, consume_whitelist_spot, gatekeeper_accounts,
    gateway_token_check, metadata_mutability, mint_creators, new_update_authority, plan_whitelist,
    random_start_index, record_redemption, token_payment_accounts, BurnAccounts,
    GatekeeperAccounts, MintVerdict, ProgramIds, WhitelistPlan,
};
use magic_hat::state::{
    Creator, EndSettingType, EndSettings, GatekeeperConfig, MagicHat, MagicHatData,
    WhitelistMintMode, WhitelistMintSettings,
};
use magic_hat::wallet_whitelist::{WLType, WalletWhitelist};

const AUTHORITY: [u8; 32] = [1; 32];
const PAYER: [u8; 32] = [9; 32];
const WL_MINT: [u8; 32] = [6; 32];

fn ids() -> ProgramIds {
    ProgramIds {
        magic_hat: [10; 32],
        gumdrop: [11; 32],
        cupcake: [12; 32],
        spl_token: [13; 32],
        system: [14; 32],
        associated_token: [15; 32],
        slot_hashes: [16; 32],
        block_hashes: [17; 32],
    }
}

fn hat() -> MagicHat {
    MagicHat {
        authority: AUTHORITY,
        wallet: [2; 32],
        token_mint: None,
        items_redeemed: 0,
        data: MagicHatData {
            uuid: "0ABCDE".to_string(),
            price: 1_000,
            symbol: "HAT".to_string(),
            seller_fee_basis_points: 500,
            max_supply: 0,
            is_mutable: true,
            retain_authority: true,
            go_live_date: Some(100),
            end_settings: None,
            creators: vec![],
            hidden_settings: None,
            whitelist_mint_settings: None,
            items_available: 10,
            gatekeeper: None,
        },
    }
}

fn whitelist(mode: WhitelistMintMode, presale: bool, discount: Option<u64>) -> Option<WhitelistMintSettings> {
    Some(WhitelistMintSettings { mode, mint: WL_MINT, presale, discount_price: discount })
}

const DISCRIMINATOR: [u8; 8] = [103, 17, 200, 25, 118, 95, 125, 61];

#[test]
fn transaction_accounts() {
    let ids = ids();
    let m = ids.magic_hat;
    assert_eq!(check_transaction_accounts(&ids, true, &ids.slot_hashes, &m), MintVerdict::Continue);
    assert_eq!(check_transaction_accounts(&ids, true, &ids.block_hashes, &ids.cupcake), MintVerdict::Continue);
    assert_eq!(
        check_transaction_accounts(&ids, false, &ids.slot_hashes, &m),
        MintVerdict::Fail(MagicHatError::MetadataAccountMustBeEmpty)
    );
    assert_eq!(
        check_transaction_accounts(&ids, true, &[0; 32], &m),
        MintVerdict::Fail(MagicHatError::IncorrectSlotHashesPubkey)
    );
    assert_eq!(
        check_transaction_accounts(&ids, true, &ids.slot_hashes, &[0; 32]),
        MintVerdict::Punish(MagicHatError::SuspiciousTransaction)
    );
}

#[test]
fn next_instruction() {
    let ids = ids();
    let uuid_plain = "0ABCDE".to_string();
    let uuid_collection = "1ABCDE".to_string();
    let mut data = DISCRIMINATOR.to_vec();
    data.extend_from_slice(&[1, 2]);
    assert_eq!(check_next_instruction(&ids, &uuid_plain, Some(ids.magic_hat), &data, false), MintVerdict::Continue);
    assert_eq!(
        check_next_instruction(&ids, &uuid_plain, Some(ids.magic_hat), &data, true),
        MintVerdict::Fail(MagicHatError::SuspiciousTransaction)
    );
    assert_eq!(
        check_next_instruction(&ids, &uuid_plain, Some(ids.gumdrop), &data, false),
        MintVerdict::Fail(MagicHatError::SuspiciousTransaction)
    );
    data[7] = 0;
    assert_eq!(
        check_next_instruction(&ids, &uuid_plain, Some(ids.magic_hat), &data, false),
        MintVerdict::Fail(MagicHatError::SuspiciousTransaction)
    );
    assert_eq!(check_next_instruction(&ids, &uuid_plain, None, &[], false), MintVerdict::Continue);
    assert_eq!(
        check_next_instruction(&ids, &uuid_collection, None, &[], false),
        MintVerdict::Punish(MagicHatError::MissingSetCollectionDuringMint)
    );
}

#[test]
fn other_instructions_may_call_four_programs() {
    let ids = ids();
    assert_eq!(allowed_programs(&ids), vec![ids.magic_hat, ids.spl_token, ids.system, ids.associated_token]);
}

#[test]
fn end_settings() {
    let mut m = hat();
    assert_eq!(check_end_settings(&m, 1_000, &PAYER), MintVerdict::Continue);
    m.data.end_settings = Some(EndSettings { end_setting_type: EndSettingType::Date, number: 500 });
    assert_eq!(check_end_settings(&m, 500, &PAYER), MintVerdict::Continue);
    assert_eq!(check_end_settings(&m, 501, &PAYER), MintVerdict::Punish(MagicHatError::MagicHatNotLive));
    assert_eq!(check_end_settings(&m, 501, &AUTHORITY), MintVerdict::Continue);
    m.data.end_settings = Some(EndSettings { end_setting_type: EndSettingType::Amount, number: 3 });
    m.items_redeemed = 2;
    assert_eq!(check_end_settings(&m, 0, &PAYER), MintVerdict::Continue);
    m.items_redeemed = 3;
    assert_eq!(check_end_settings(&m, 0, &PAYER), MintVerdict::Punish(MagicHatError::MagicHatEmpty));
    assert_eq!(check_end_settings(&m, 0, &AUTHORITY), MintVerdict::Fail(MagicHatError::MagicHatEmpty));
}

#[test]
fn gatekeeper() {
    assert_eq!(gatekeeper_accounts(&None, 0), (GatekeeperAccounts::NotRequired, 0));
    let verify = Some(GatekeeperConfig { gatekeeper_network: [3; 32], expire_on_use: false });
    assert_eq!(
        gatekeeper_accounts(&verify, 0),
        (GatekeeperAccounts::Refused(MintVerdict::Punish(MagicHatError::GatewayTokenMissing)), 0)
    );
    assert_eq!(gatekeeper_accounts(&verify, 1), (GatekeeperAccounts::Verify, 1));
    let expire = Some(GatekeeperConfig { gatekeeper_network: [3; 32], expire_on_use: true });
    assert_eq!(
        gatekeeper_accounts(&expire, 1),
        (GatekeeperAccounts::Refused(MintVerdict::Fail(MagicHatError::GatewayAppMissing)), 1)
    );
    assert_eq!(
        gatekeeper_accounts(&expire, 2),
        (GatekeeperAccounts::Refused(MintVerdict::Fail(MagicHatError::NetworkExpireFeatureMissing)), 2)
    );
    assert_eq!(gatekeeper_accounts(&expire, 5), (GatekeeperAccounts::VerifyAndExpire, 3));
}

#[test]
fn gateway_token_age() {
    let mut m = hat();
    assert_eq!(gateway_token_check(&m.data, Some(0)), Ok(()));
    m.data.whitelist_mint_settings = whitelist(WhitelistMintMode::NeverBurn, false, None);
    assert_eq!(gateway_token_check(&m.data, Some(699)), Err(MagicHatError::GatewayTokenExpireTimeInvalid));
    assert_eq!(gateway_token_check(&m.data, Some(700)), Ok(()));
    assert_eq!(gateway_token_check(&m.data, None), Ok(()));
    m.data.whitelist_mint_settings = whitelist(WhitelistMintMode::NeverBurn, true, None);
    assert_eq!(gateway_token_check(&m.data, Some(0)), Ok(()));
}

fn plan(verdict: MintVerdict, price: u64, burn: Option<BurnAccounts>, next_counter: usize) -> WhitelistPlan {
    WhitelistPlan { verdict, price, burn, next_counter }
}

#[test]
fn no_whitelist_checks_go_live() {
    let m = hat();
    let keys = vec![];
    assert_eq!(plan_whitelist(&m, None, 100, &PAYER, &keys, 0, 7), plan(MintVerdict::Continue, 7, None, 0));
    assert_eq!(
        plan_whitelist(&m, None, 99, &PAYER, &keys, 0, 7),
        plan(MintVerdict::Punish(MagicHatError::MagicHatNotLive), 7, None, 0)
    );
    assert_eq!(plan_whitelist(&m, None, 99, &AUTHORITY, &keys, 0, 7), plan(MintVerdict::Continue, 7, None, 0));
    let mut undated = hat();
    undated.data.go_live_date = None;
    assert_eq!(
        plan_whitelist(&undated, None, 1_000, &PAYER, &keys, 0, 7),
        plan(MintVerdict::Punish(MagicHatError::MagicHatNotLive), 7, None, 0)
    );
}

#[test]
fn whitelist_holder_gets_discount_and_burns() {
    let mut m = hat();
    m.data.whitelist_mint_settings = whitelist(WhitelistMintMode::BurnEveryTime, false, Some(3));
    let keys = vec![[0; 32], [20; 32], WL_MINT, [21; 32]];
    assert_eq!(
        plan_whitelist(&m, Some(1), 100, &PAYER, &keys, 1, 7),
        plan(MintVerdict::Continue, 3, Some(BurnAccounts { mint: 2, authority: 3 }), 4)
    );
    assert_eq!(
        plan_whitelist(&m, Some(1), 99, &PAYER, &keys, 1, 7),
        plan(MintVerdict::Punish(MagicHatError::MagicHatNotLive), 7, None, 2)
    );
    let wrong = vec![[0; 32], [20; 32], [22; 32], [21; 32]];
    assert_eq!(
        plan_whitelist(&m, Some(1), 100, &PAYER, &wrong, 1, 7),
        plan(MintVerdict::Punish(MagicHatError::IncorrectOwner), 7, None, 4)
    );
}

#[test]
fn presale_holder_mints_early() {
    let mut m = hat();
    m.data.whitelist_mint_settings = whitelist(WhitelistMintMode::NeverBurn, true, None);
    let keys = vec![[20; 32]];
    assert_eq!(plan_whitelist(&m, Some(2), 50, &PAYER, &keys, 0, 7), plan(MintVerdict::Continue, 7, None, 1));
    assert_eq!(
        plan_whitelist(&m, Some(0), 50, &PAYER, &keys, 0, 7),
        plan(MintVerdict::Punish(MagicHatError::MagicHatNotLive), 7, None, 1)
    );
    assert_eq!(plan_whitelist(&m, None, 150, &PAYER, &keys, 0, 7), plan(MintVerdict::Continue, 7, None, 1));
}

#[test]
fn forced_whitelist_needs_the_token() {
    let mut m = hat();
    m.data.whitelist_mint_settings = whitelist(WhitelistMintMode::BurnEveryTime, false, None);
    let keys = vec![[20; 32], [21; 32], [22; 32]];
    assert_eq!(
        plan_whitelist(&m, Some(0), 150, &PAYER, &keys, 0, 7),
        plan(MintVerdict::Punish(MagicHatError::NoWhitelistToken), 7, None, 1)
    );
    assert_eq!(
        plan_whitelist(&m, None, 150, &PAYER, &keys, 0, 7),
        plan(MintVerdict::Punish(MagicHatError::NoWhitelistToken), 7, None, 1)
    );
    m.data.whitelist_mint_settings = whitelist(WhitelistMintMode::BurnEveryTime, false, Some(3));
    assert_eq!(plan_whitelist(&m, Some(0), 150, &PAYER, &keys, 0, 7), plan(MintVerdict::Continue, 7, None, 3));
    assert_eq!(plan_whitelist(&m, None, 150, &PAYER, &keys, 0, 7), plan(MintVerdict::Continue, 7, None, 3));
    assert_eq!(
        plan_whitelist(&m, None, 50, &PAYER, &keys, 0, 7),
        plan(MintVerdict::Punish(MagicHatError::MagicHatNotLive), 7, None, 3)
    );
}

#[test]
fn sold_out_and_balance() {
    let mut m = hat();
    assert_eq!(check_items_remaining(&m), MintVerdict::Continue);
    m.items_redeemed = 10;
    assert_eq!(check_items_remaining(&m), MintVerdict::Punish(MagicHatError::MagicHatEmpty));
    assert_eq!(check_balance(&m, 5, 5), MintVerdict::Continue);
    assert_eq!(check_balance(&m, 4, 5), MintVerdict::Fail(MagicHatError::NotEnoughSOL));
    assert_eq!(token_payment_accounts(&m, 4), None);
    m.token_mint = Some([8; 32]);
    assert_eq!(check_balance(&m, 4, 5), MintVerdict::Fail(MagicHatError::NotEnoughTokens));
    assert_eq!(token_payment_accounts(&m, 4), Some((4, 5)));
}

#[test]
fn random_index_from_slot_hash() {
    let mut data = vec![0u8; 40];
    data[12..20].copy_from_slice(&1_000_003u64.to_le_bytes());
    assert_eq!(random_start_index(&data, 10), Ok(3));
    assert_eq!(random_start_index(&data, 1), Ok(0));
    assert_eq!(random_start_index(&data, 0), Err(MagicHatError::NumericalOverflowError));
    data[12..20].copy_from_slice(&u64::MAX.to_le_bytes());
    assert_eq!(random_start_index(&data, 1_000), Ok((u64::MAX % 1_000) as usize));
}

#[test]
fn redemption_counter_stays_within_supply() {
    let mut m = hat();
    m.items_redeemed = 9;
    assert_eq!(check_items_remaining(&m), MintVerdict::Continue);
    assert_eq!(record_redemption(&mut m), Ok(()));
    assert_eq!(m.items_redeemed, 10);
    assert!(m.items_redeemed <= m.data.items_available);
    assert_eq!(check_items_remaining(&m), MintVerdict::Punish(MagicHatError::MagicHatEmpty));
    m.items_redeemed = u64::MAX;
    assert_eq!(record_redemption(&mut m), Err(MagicHatError::NumericalOverflowError));
    assert_eq!(m.items_redeemed, u64::MAX);
}

#[test]
fn creators_and_authority_of_minted_nft() {
    let mut m = hat();
    m.data.creators = vec![
        Creator { address: [30; 32], verified: true, share: 60 },
        Creator { address: [31; 32], verified: false, share: 40 },
    ];
    let creators = mint_creators(&[5; 32], &m.data);
    assert_eq!(creators.len(), 3);
    assert_eq!((creators[0].address, creators[0].verified, creators[0].share), ([5; 32], true, 0));
    assert_eq!((creators[1].address, creators[1].verified, creators[1].share), ([30; 32], false, 60));
    assert_eq!((creators[2].address, creators[2].verified, creators[2].share), ([31; 32], false, 40));
    assert_eq!(new_update_authority(&m, &[7; 32]), AUTHORITY);
    assert_eq!(metadata_mutability(&m), None);
    m.data.retain_authority = false;
    m.data.is_mutable = false;
    assert_eq!(new_update_authority(&m, &[7; 32]), [7; 32]);
    assert_eq!(metadata_mutability(&m), Some(false));
}

#[test]
fn whitelist_spot_is_used_up() {
    let mut w = WalletWhitelist {
        magic_hat_creator: [1; 32],
        magic_hat: [2; 32],
        whitelisted_address: [3; 32],
        whitelist_type: WLType::Two,
        number_of_whitelist_spots: 1,
        special_discounted_price: 10,
        bump: 255,
    };
    assert_eq!(consume_whitelist_spot(&mut w), Ok(()));
    assert_eq!(w.number_of_whitelist_spots, 0);
    assert_eq!(consume_whitelist_spot(&mut w), Err(MagicHatError::NumericalOverflowError));
    assert_eq!(w.number_of_whitelist_spots, 0);
}
