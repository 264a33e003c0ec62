use vstd::prelude::*;
use crate::address::Address;
use crate::whitelist_config::{build_schedule, schedule_from, WhitelistConfig};
use crate::whitelist_errors::WhitelistErrorCode;

verus! {

/// Publishes the whitelist schedule of `magic_hat_creator` in a new
/// whitelist config account. The tiers must open in order: tier three no
/// later than tier two, tier two no later than tier one.
pub fn handler_create_whitelist_config(
    whitelist_config: &mut WhitelistConfig,
    magic_hat_creator: Address,
    wl_start_time_4_wl_spots: u64,
    wl_start_time_4_wl_mp: u64,
    wl_start_time_4_wl_st: u64,
    wl_start_time_3_wl_spots: u64,
    wl_start_time_3_wl_mp: u64,
    wl_start_time_3_wl_st: u64,
    wl_start_time_2_wl_spots: u64,
    wl_start_time_2_wl_mp: u64,
    wl_start_time_2_wl_st: u64,
    wl_start_time_1_wl_spots: u64,
    wl_start_time_1_wl_mp: u64,
    wl_start_time_1_wl_st: u64,
) -> (r: Result<(), WhitelistErrorCode>)
    requires
        wl_start_time_1_wl_st >= wl_start_time_2_wl_st,
        wl_start_time_2_wl_st >= wl_start_time_3_wl_st,
    ensures
        r is Ok,
        *final(whitelist_config) == (WhitelistConfig {
            whitelist_schedule: schedule_from(
                wl_start_time_4_wl_spots,
                wl_start_time_4_wl_mp,
                wl_start_time_4_wl_st,
                wl_start_time_3_wl_spots,
                wl_start_time_3_wl_mp,
                wl_start_time_3_wl_st,
                wl_start_time_2_wl_spots,
                wl_start_time_2_wl_mp,
                wl_start_time_2_wl_st,
                wl_start_time_1_wl_spots,
                wl_start_time_1_wl_mp,
                wl_start_time_1_wl_st,
            ),
            magic_hat_creator,
        }),
        final(whitelist_config).whitelist_schedule.schedule_invariants(),
{
    let whitelist_schedule = build_schedule(
        wl_start_time_4_wl_spots,
        wl_start_time_4_wl_mp,
        wl_start_time_4_wl_st,
        wl_start_time_3_wl_spots,
        wl_start_time_3_wl_mp,
        wl_start_time_3_wl_st,
        wl_start_time_2_wl_spots,
        wl_start_time_2_wl_mp,
        wl_start_time_2_wl_st,
        wl_start_time_1_wl_spots,
        wl_start_time_1_wl_mp,
        wl_start_time_1_wl_st,
    );
    whitelist_schedule.verify_schedule_invariants();
    whitelist_config.whitelist_schedule = whitelist_schedule;
    whitelist_config.magic_hat_creator = magic_hat_creator;
    Ok(())
}

} // verus!
