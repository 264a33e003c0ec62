use vstd::prelude::*;
use crate::address::Address;
use crate::wallet_whitelist::{tier_spot_count, WLType, WalletWhitelist};
use crate::whitelist_errors::WhitelistErrorCode;

verus! {

/// The tier named `name`: "One", "Two", "Three" or "Four".
pub open spec fn tier_named(name: Seq<char>) -> Option<WLType> {
    if name == "One"@ {
        Some(WLType::One)
    } else if name == "Two"@ {
        Some(WLType::Two)
    } else if name == "Three"@ {
        Some(WLType::Three)
    } else if name == "Four"@ {
        Some(WLType::Four)
    } else {
        None
    }
}

/// Fills the whitelist entry of `whitelisted_address` for `magic_hat`: the
/// tier named by `whitelist_type` with as many spots as its number, and the
/// bump of the entry's address. An unknown tier name is refused.
pub fn handler(
    wallet_whitelist_account: &mut WalletWhitelist,
    magic_hat: Address,
    whitelisted_address: Address,
    whitelist_type: String,
    bump: u8,
) -> (r: Result<(), WhitelistErrorCode>)
    ensures
        match tier_named(whitelist_type@) {
            None => r == Err::<(), WhitelistErrorCode>(WhitelistErrorCode::InvalidWLType)
                && *final(wallet_whitelist_account) == (WalletWhitelist {
                magic_hat,
                whitelisted_address,
                ..*old(wallet_whitelist_account)
            }),
            Some(t) => {
                &&& r is Ok
                &&& *final(wallet_whitelist_account) == (WalletWhitelist {
                    magic_hat,
                    whitelisted_address,
                    whitelist_type: t,
                    number_of_whitelist_spots: tier_spot_count(t),
                    bump,
                    ..*old(wallet_whitelist_account)
                })
                &&& final(wallet_whitelist_account).spots_within_tier()
            },
        },
{
    wallet_whitelist_account.magic_hat = magic_hat;
    wallet_whitelist_account.whitelisted_address = whitelisted_address;
    let one = String::from_str("One");
    let two = String::from_str("Two");
    let three = String::from_str("Three");
    let four = String::from_str("Four");
    if whitelist_type == one {
        wallet_whitelist_account.whitelist_type = WLType::One;
        wallet_whitelist_account.number_of_whitelist_spots = 1;
    } else if whitelist_type == two {
        wallet_whitelist_account.whitelist_type = WLType::Two;
        wallet_whitelist_account.number_of_whitelist_spots = 2;
    } else if whitelist_type == three {
        wallet_whitelist_account.whitelist_type = WLType::Three;
        wallet_whitelist_account.number_of_whitelist_spots = 3;
    } else if whitelist_type == four {
        wallet_whitelist_account.whitelist_type = WLType::Four;
        wallet_whitelist_account.number_of_whitelist_spots = 4;
    } else {
        return Err(WhitelistErrorCode::InvalidWLType);
    }
    wallet_whitelist_account.bump = bump;
    Ok(())
}

} // verus!
