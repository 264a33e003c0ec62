use vstd::prelude::*;
use crate::address::{same_pubkey, Address};
use crate::errors::MagicHatError;
use crate::state::MagicHat;

verus! {

/// Feature `feature_index` of a magic hat is on: its UUID holds '1' there.
pub open spec fn feature_active(uuid: Seq<char>, feature_index: int) -> bool {
    uuid[feature_index] == '1'
}

/// Tells whether the magic hat UUID turns feature `feature_index` on.
pub fn is_feature_active(uuid: &String, feature_index: usize) -> (active: bool)
    requires
        feature_index < uuid@.len(),
    ensures
        active == feature_active(uuid@, feature_index as int),
{
    uuid.as_str().get_char(feature_index) == '1'
}

/// The sale is open to `payer` at time `now`: the go-live date has come, or
/// the payer is the authority (who may always mint; without a date only the
/// authority may).
pub open spec fn go_live_reached(magic_hat: MagicHat, payer: Address, now: i64) -> bool {
    payer@ == magic_hat.authority@ || match magic_hat.data.go_live_date {
        None => false,
        Some(val) => now >= val,
    }
}

/// Refuses a mint before the go-live date, unless the payer is the
/// authority.
pub fn assert_valid_go_live(payer: &Address, now: i64, magic_hat: &MagicHat) -> (r: Result<(), MagicHatError>)
    ensures
        r is Ok <==> go_live_reached(*magic_hat, *payer, now),
        r is Err ==> r == Err::<(), MagicHatError>(MagicHatError::MagicHatNotLive),
{
    match magic_hat.data.go_live_date {
        None => {
            if !same_pubkey(payer, &magic_hat.authority) {
                return Err(MagicHatError::MagicHatNotLive);
            }
        },
        Some(val) => {
            if now < val && !same_pubkey(payer, &magic_hat.authority) {
                return Err(MagicHatError::MagicHatNotLive);
            }
        },
    }
    Ok(())
}

} // verus!
