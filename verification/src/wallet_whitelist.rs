use vstd::prelude::*;
use crate::address::Address;

verus! {

/// Whitelist tier of a wallet.
#[derive(Clone, Copy, Debug, PartialEq, Eq, Structural, PartialOrd)]
pub enum WLType {
    Null,
    One,
    Two,
    Three,
    Four,
}

/// Number of mint spots that a freshly created whitelist entry of the
/// given tier grants; the tier named "Four" grants four spots, and so on.
pub open spec fn tier_spot_count(t: WLType) -> u64 {
    match t {
        WLType::Null => 0,
        WLType::One => 1,
        WLType::Two => 2,
        WLType::Three => 3,
        WLType::Four => 4,
    }
}

/// The whitelist entry of one wallet for one magic hat.
#[derive(Clone, Copy, Debug)]
pub struct WalletWhitelist {
    pub magic_hat_creator: Address,
    pub magic_hat: Address,
    pub whitelisted_address: Address,
    pub whitelist_type: WLType,
    pub number_of_whitelist_spots: u64,
    pub special_discounted_price: u64,
    pub bump: u8,
}

impl WalletWhitelist {
    /// The entry holds no more spots than its tier grants.
    pub open spec fn spots_within_tier(&self) -> bool {
        self.number_of_whitelist_spots <= tier_spot_count(self.whitelist_type)
    }
}

} // verus!
