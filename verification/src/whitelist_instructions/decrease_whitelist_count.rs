use vstd::prelude::*;
use crate::wallet_whitelist::WalletWhitelist;
use crate::whitelist_errors::WhitelistErrorCode;

verus! {

/// Takes `count` spots away from a whitelist entry; more than it holds is
/// refused.
pub fn handler(wallet_whitelist_account: &mut WalletWhitelist, count: u64) -> (r: Result<
    (),
    WhitelistErrorCode,
>)
    ensures
        count > old(wallet_whitelist_account).number_of_whitelist_spots ==> r == Err::<
            (),
            WhitelistErrorCode,
        >(WhitelistErrorCode::InvalidNumberofWL) && *final(wallet_whitelist_account)
            == *old(wallet_whitelist_account),
        count <= old(wallet_whitelist_account).number_of_whitelist_spots ==> r is Ok
            && *final(wallet_whitelist_account) == (WalletWhitelist {
            number_of_whitelist_spots: (old(wallet_whitelist_account).number_of_whitelist_spots
                - count) as u64,
            ..*old(wallet_whitelist_account)
        }),
        old(wallet_whitelist_account).spots_within_tier() ==> final(wallet_whitelist_account).spots_within_tier(),
{
    if count > wallet_whitelist_account.number_of_whitelist_spots {
        return Err(WhitelistErrorCode::InvalidNumberofWL);
    }
    wallet_whitelist_account.number_of_whitelist_spots = wallet_whitelist_account.number_of_whitelist_spots
        - count;
    Ok(())
}

} // verus!
