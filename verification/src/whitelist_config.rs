use vstd::prelude::*;
use crate::address::Address;
use crate::wallet_whitelist::WLType;

verus! {

/// Settings of one whitelist tier.
#[derive(Clone, Copy, Debug, PartialEq, Eq, Structural)]
pub struct WhitelistTierConfig {
    pub whitelist_type: WLType,
    pub number_of_whitelist_spots_total: u64,
    pub discounted_mint_price: u64,
    pub whitelist_mint_start_time: u64,
}

/// The four whitelist tiers of a magic hat.
#[derive(Clone, Copy, Debug, PartialEq, Eq, Structural)]
pub struct WhitelistSchedule {
    pub wl_start_time_4: WhitelistTierConfig,
    pub wl_start_time_3: WhitelistTierConfig,
    pub wl_start_time_2: WhitelistTierConfig,
    pub wl_start_time_1: WhitelistTierConfig,
}

/// The whitelist schedule that a magic hat creator published.
#[derive(Clone, Copy, Debug)]
pub struct WhitelistConfig {
    pub whitelist_schedule: WhitelistSchedule,
    pub magic_hat_creator: Address,
}

impl WhitelistSchedule {
    /// Tier one opens no earlier than tier two, and tier two no earlier than
    /// tier three.
    pub open spec fn schedule_invariants(&self) -> bool {
        &&& self.wl_start_time_1.whitelist_mint_start_time
            >= self.wl_start_time_2.whitelist_mint_start_time
        &&& self.wl_start_time_2.whitelist_mint_start_time
            >= self.wl_start_time_3.whitelist_mint_start_time
    }

    /// Tells whether the schedule meets its invariants.
    pub fn schedule_invariants_hold(&self) -> (ok: bool)
        ensures
            ok == self.schedule_invariants(),
    {
        self.wl_start_time_1.whitelist_mint_start_time
            >= self.wl_start_time_2.whitelist_mint_start_time
            && self.wl_start_time_2.whitelist_mint_start_time
            >= self.wl_start_time_3.whitelist_mint_start_time
    }

    /// Asserts the schedule invariants; a schedule that breaks them is
    /// refused before this point, so the call itself does nothing.
    pub fn verify_schedule_invariants(&self)
        requires
            self.schedule_invariants(),
    {
    }
}

/// Builds the tier settings from their three numbers.
pub open spec fn tier(t: WLType, spots: u64, price: u64, start: u64) -> WhitelistTierConfig {
    WhitelistTierConfig {
        whitelist_type: t,
        number_of_whitelist_spots_total: spots,
        discounted_mint_price: price,
        whitelist_mint_start_time: start,
    }
}

/// The schedule of the four tiers, each given by its number of spots, its
/// mint price and its start time.
pub open spec fn schedule_from(
    spots_4: u64,
    price_4: u64,
    start_4: u64,
    spots_3: u64,
    price_3: u64,
    start_3: u64,
    spots_2: u64,
    price_2: u64,
    start_2: u64,
    spots_1: u64,
    price_1: u64,
    start_1: u64,
) -> WhitelistSchedule {
    WhitelistSchedule {
        wl_start_time_4: tier(WLType::Four, spots_4, price_4, start_4),
        wl_start_time_3: tier(WLType::Three, spots_3, price_3, start_3),
        wl_start_time_2: tier(WLType::Two, spots_2, price_2, start_2),
        wl_start_time_1: tier(WLType::One, spots_1, price_1, start_1),
    }
}

/// Builds the schedule of the four tiers.
pub fn build_schedule(
    spots_4: u64,
    price_4: u64,
    start_4: u64,
    spots_3: u64,
    price_3: u64,
    start_3: u64,
    spots_2: u64,
    price_2: u64,
    start_2: u64,
    spots_1: u64,
    price_1: u64,
    start_1: u64,
) -> (s: WhitelistSchedule)
    ensures
        s == schedule_from(
            spots_4,
            price_4,
            start_4,
            spots_3,
            price_3,
            start_3,
            spots_2,
            price_2,
            start_2,
            spots_1,
            price_1,
            start_1,
        ),
{
    WhitelistSchedule {
        wl_start_time_4: WhitelistTierConfig {
            whitelist_type: WLType::Four,
            number_of_whitelist_spots_total: spots_4,
            discounted_mint_price: price_4,
            whitelist_mint_start_time: start_4,
        },
        wl_start_time_3: WhitelistTierConfig {
            whitelist_type: WLType::Three,
            number_of_whitelist_spots_total: spots_3,
            discounted_mint_price: price_3,
            whitelist_mint_start_time: start_3,
        },
        wl_start_time_2: WhitelistTierConfig {
            whitelist_type: WLType::Two,
            number_of_whitelist_spots_total: spots_2,
            discounted_mint_price: price_2,
            whitelist_mint_start_time: start_2,
        },
        wl_start_time_1: WhitelistTierConfig {
            whitelist_type: WLType::One,
            number_of_whitelist_spots_total: spots_1,
            discounted_mint_price: price_1,
            whitelist_mint_start_time: start_1,
        },
    }
}

} // verus!
