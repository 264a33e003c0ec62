use magic_hat::wallet_whitelist::{WLType, WalletWhitelist};
use magic_hat::whitelist_config::{WhitelistConfig, WhitelistSchedule, WhitelistTierConfig};
use magic_hat::whitelist_config_instructions::create_whitelist_config::handler_create_whitelist_config;
use magic_hat::whitelist_config_instructions::update_whitelist_config::handler_update_whitelist_config;
use magic_hat::whitelist_errors::WhitelistErrorCode;
use magic_hat::whitelist_instructions::{create_whitelist_account, decrease_whitelist_count};

fn entry() -> WalletWhitelist {
    WalletWhitelist {
        magic_hat_creator: [1; 32],
        magic_hat: [0; 32],
        whitelisted_address: [0; 32],
        whitelist_type: WLType::Null,
        number_of_whitelist_spots: 0,
        special_discounted_price: 77,
        bump: 0,
    }
}

#[test]
fn whitelist_entry_tiers() {
    for (name, t, spots) in [
        ("One", WLType::One, 1),
        ("Two", WLType::Two, 2),
        ("Three", WLType::Three, 3),
        ("Four", WLType::Four, 4),
    ] {
        let mut w = entry();
        assert_eq!(create_whitelist_account::handler(&mut w, [2; 32], [3; 32], name.to_string(), 254), Ok(()));
        assert_eq!(w.whitelist_type, t);
        assert_eq!(w.number_of_whitelist_spots, spots);
        assert_eq!(w.magic_hat, [2; 32]);
        assert_eq!(w.whitelisted_address, [3; 32]);
        assert_eq!(w.bump, 254);
        assert_eq!(w.magic_hat_creator, [1; 32]);
        assert_eq!(w.special_discounted_price, 77);
    }
}

#[test]
fn unknown_tier_is_refused() {
    let mut w = entry();
    assert_eq!(
        create_whitelist_account::handler(&mut w, [2; 32], [3; 32], "one".to_string(), 254),
        Err(WhitelistErrorCode::InvalidWLType)
    );
    assert_eq!(w.whitelist_type, WLType::Null);
    assert_eq!(w.number_of_whitelist_spots, 0);
    assert_eq!(w.bump, 0);
    assert_eq!(w.magic_hat, [2; 32]);
    assert_eq!(w.whitelisted_address, [3; 32]);
}

#[test]
fn spots_decrease_and_stay_within_tier() {
    let mut w = entry();
    create_whitelist_account::handler(&mut w, [2; 32], [3; 32], "Three".to_string(), 1).unwrap();
    assert_eq!(decrease_whitelist_count::handler(&mut w, 2), Ok(()));
    assert_eq!(w.number_of_whitelist_spots, 1);
    assert_eq!(decrease_whitelist_count::handler(&mut w, 2), Err(WhitelistErrorCode::InvalidNumberofWL));
    assert_eq!(w.number_of_whitelist_spots, 1);
    assert_eq!(decrease_whitelist_count::handler(&mut w, 1), Ok(()));
    assert_eq!(w.number_of_whitelist_spots, 0);
    assert_eq!(decrease_whitelist_count::handler(&mut w, 0), Ok(()));
    assert!(w.number_of_whitelist_spots <= 3);
}

fn tier(t: WLType, spots: u64, price: u64, start: u64) -> WhitelistTierConfig {
    WhitelistTierConfig { whitelist_type: t, number_of_whitelist_spots_total: spots, discounted_mint_price: price, whitelist_mint_start_time: start }
}

fn blank() -> WhitelistConfig {
    let t = tier(WLType::Null, 0, 0, 0);
    WhitelistConfig {
        whitelist_schedule: WhitelistSchedule { wl_start_time_4: t, wl_start_time_3: t, wl_start_time_2: t, wl_start_time_1: t },
        magic_hat_creator: [0; 32],
    }
}

#[test]
fn whitelist_config_is_published_and_updated() {
    let mut c = blank();
    assert_eq!(
        handler_create_whitelist_config(&mut c, [9; 32], 40, 4, 10, 30, 3, 20, 20, 2, 30, 10, 1, 40),
        Ok(())
    );
    assert_eq!(c.magic_hat_creator, [9; 32]);
    assert_eq!(
        c.whitelist_schedule,
        WhitelistSchedule {
            wl_start_time_4: tier(WLType::Four, 40, 4, 10),
            wl_start_time_3: tier(WLType::Three, 30, 3, 20),
            wl_start_time_2: tier(WLType::Two, 20, 2, 30),
            wl_start_time_1: tier(WLType::One, 10, 1, 40),
        }
    );
    assert!(c.whitelist_schedule.schedule_invariants_hold());
    c.whitelist_schedule.verify_schedule_invariants();
    assert_eq!(handler_update_whitelist_config(&mut c, 1, 1, 99, 2, 2, 5, 3, 3, 5, 4, 4, 6), Ok(()));
    assert_eq!(c.magic_hat_creator, [9; 32]);
    assert_eq!(c.whitelist_schedule.wl_start_time_4, tier(WLType::Four, 1, 1, 99));
    assert_eq!(c.whitelist_schedule.wl_start_time_1, tier(WLType::One, 4, 4, 6));
}

#[test]
fn schedule_order_check() {
    let mut c = blank();
    c.whitelist_schedule.wl_start_time_1 = tier(WLType::One, 1, 1, 5);
    c.whitelist_schedule.wl_start_time_2 = tier(WLType::Two, 1, 1, 6);
    assert!(!c.whitelist_schedule.schedule_invariants_hold());
    c.whitelist_schedule.wl_start_time_2 = tier(WLType::Two, 1, 1, 5);
    c.whitelist_schedule.wl_start_time_3 = tier(WLType::Three, 1, 1, 6);
    assert!(!c.whitelist_schedule.schedule_invariants_hold());
    c.whitelist_schedule.wl_start_time_3 = tier(WLType::Three, 1, 1, 5);
    assert!(c.whitelist_schedule.schedule_invariants_hold());
}

#[test]
fn error_messages() {
    assert_eq!(WhitelistErrorCode::NotEnoughBalance.message(), "Src Balance < LP Deposit Amount.");
    assert_eq!(WhitelistErrorCode::InvalidWLType.message(), "WLType is invalid.");
    assert_eq!(
        WhitelistErrorCode::InvalidNumberofWL.message(),
        "Can't decerease as the count is more than number of available spots."
    );
}
