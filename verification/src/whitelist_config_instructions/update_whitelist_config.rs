use vstd::prelude::*;
use crate::whitelist_config::{build_schedule, schedule_from, WhitelistConfig};
use crate::whitelist_errors::WhitelistErrorCode;

verus! {

/// Replaces the whitelist schedule of a config, keeping its creator. The
/// tiers must open in order: tier three no later than tier two, tier two no
/// later than tier one.
pub fn handler_update_whitelist_config(
    whitelist_config: &mut WhitelistConfig,
    wl_start_time_4_wl_spots: u64,
    wl_start_time_4_wl_mp: u64,
    wl_start_time_4_wl_st: u64,
    wl_start_time_3_wl_spots: u64,
    wl_start_time_3_wl_mp: u64,
    wl_start_time_3_wl_st: u64,
    wl_start_time_2_wl_spots: u64,
    wl_start_time_2_wl_mp: u64,
    wl_start_time_2_wl_st: u64,
    wl_start_time_1_wl_spots: u64,
    wl_start_time_1_wl_mp: u64,
    wl_start_time_1_wl_st: u64,
) -> (r: Result<(), WhitelistErrorCode>)
    requires
        wl_start_time_1_wl_st >= wl_start_time_2_wl_st,
        wl_start_time_2_wl_st >= wl_start_time_3_wl_st,
    ensures
        r is Ok,
        *final(whitelist_config) == (WhitelistConfig {
            whitelist_schedule: schedule_from(
                wl_start_time_4_wl_spots,
                wl_start_time_4_wl_mp,
                wl_start_time_4_wl_st,
                wl_start_time_3_wl_spots,
                wl_start_time_3_wl_mp,
                wl_start_time_3_wl_st,
                wl_start_time_2_wl_spots,
                wl_start_time_2_wl_mp,
                wl_start_time_2_wl_st,
                wl_start_time_1_wl_spots,
                wl_start_time_1_wl_mp,
                wl_start_time_1_wl_st,
            ),
            ..*old(whitelist_config)
        }),
        final(whitelist_config).whitelist_schedule.schedule_invariants(),
{
    let whitelist_schedule = build_schedule(
        wl_start_time_4_wl_spots,
        wl_start_time_4_wl_mp,
        wl_start_time_4_wl_st,
        wl_start_time_3_wl_spots,
        wl_start_time_3_wl_mp,
        wl_start_time_3_wl_st,
        wl_start_time_2_wl_spots,
        wl_start_time_2_wl_mp,
        wl_start_time_2_wl_st,
        wl_start_time_1_wl_spots,
        wl_start_time_1_wl_mp,
        wl_start_time_1_wl_st,
    );
    whitelist_schedule.verify_schedule_invariants();
    whitelist_config.whitelist_schedule = whitelist_schedule;
    Ok(())
}

} // verus!
