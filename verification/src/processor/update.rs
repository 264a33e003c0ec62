use vstd::prelude::*;
use crate::address::Address;
use crate::constants::COLLECTIONS_FEATURE_INDEX;
use crate::errors::MagicHatError;
use crate::state::{MagicHat, MagicHatData};
use crate::utils::{feature_active, is_feature_active};

verus! {

/// Hands the magic hat to a new authority, when one is given.
pub fn handle_update_authority(magic_hat: &mut MagicHat, new_authority: Option<Address>) -> (r:
    Result<(), MagicHatError>)
    ensures
        r is Ok,
        *final(magic_hat) == match new_authority {
            Some(a) => MagicHat { authority: a, ..*old(magic_hat) },
            None => *old(magic_hat),
        },
{
    if let Some(new_auth) = new_authority {
        magic_hat.authority = new_auth;
    }
    Ok(())
}

/// The number of items may only change for hidden NFTs.
pub open spec fn changes_number_of_lines(magic_hat: MagicHat, data: MagicHatData) -> bool {
    data.items_available != magic_hat.data.items_available && data.hidden_settings is None
}

/// A magic hat with config lines cannot become hidden.
pub open spec fn switches_to_hidden(magic_hat: MagicHat, data: MagicHatData) -> bool {
    magic_hat.data.items_available > 0 && magic_hat.data.hidden_settings is None
        && data.hidden_settings is Some
}

/// An update reaches the collection flag of the UUID (its character at
/// `COLLECTIONS_FEATURE_INDEX`) and the UUID is too short to hold it: the
/// update cannot go on.
pub fn update_lacks_collection_flag(magic_hat: &MagicHat, data: &MagicHatData) -> (b: bool)
    ensures
        b == (!changes_number_of_lines(*magic_hat, *data) && !switches_to_hidden(*magic_hat, *data)
            && magic_hat.data.uuid@.len() <= COLLECTIONS_FEATURE_INDEX),
{
    let changes_lines = data.items_available != magic_hat.data.items_available
        && data.hidden_settings.is_none();
    let to_hidden = magic_hat.data.items_available > 0 && magic_hat.data.hidden_settings.is_none()
        && data.hidden_settings.is_some();
    !changes_lines && !to_hidden && magic_hat.data.uuid.as_str().unicode_len() <= COLLECTIONS_FEATURE_INDEX
}

/// Replaces the settings of a magic hat, keeping its UUID, and sets its
/// wallet and sale token: the first remaining account, if there is one.
pub fn handle_update_magic_hat(
    magic_hat: &mut MagicHat,
    wallet: Address,
    data: MagicHatData,
    remaining_accounts: &Vec<Address>,
) -> (r: Result<(), MagicHatError>)
    requires
        !changes_number_of_lines(*old(magic_hat), data) && !switches_to_hidden(*old(magic_hat), data)
            ==> COLLECTIONS_FEATURE_INDEX < old(magic_hat).data.uuid@.len(),
    ensures
        changes_number_of_lines(*old(magic_hat), data) ==> r == Err::<(), MagicHatError>(
            MagicHatError::CannotChangeNumberOfLines,
        ) && *final(magic_hat) == *old(magic_hat),
        !changes_number_of_lines(*old(magic_hat), data) && switches_to_hidden(*old(magic_hat), data)
            ==> r == Err::<(), MagicHatError>(MagicHatError::CannotSwitchToHiddenSettings)
            && *final(magic_hat) == *old(magic_hat),
        !changes_number_of_lines(*old(magic_hat), data) && !switches_to_hidden(*old(magic_hat), data)
            ==> if feature_active(old(magic_hat).data.uuid@, COLLECTIONS_FEATURE_INDEX as int)
            && !data.retain_authority {
            &&& r == Err::<(), MagicHatError>(MagicHatError::MagicHatCollectionRequiresRetainAuthority)
            &&& *final(magic_hat) == MagicHat { wallet, ..*old(magic_hat) }
        } else {
            &&& r is Ok
            &&& *final(magic_hat) == MagicHat {
                wallet,
                token_mint: if remaining_accounts@.len() > 0 {
                    Some(remaining_accounts@[0])
                } else {
                    None::<Address>
                },
                data: MagicHatData { uuid: old(magic_hat).data.uuid, ..data },
                ..*old(magic_hat)
            }
        },
{
    if data.items_available != magic_hat.data.items_available && data.hidden_settings.is_none() {
        return Err(MagicHatError::CannotChangeNumberOfLines);
    }
    if magic_hat.data.items_available > 0 && magic_hat.data.hidden_settings.is_none()
        && data.hidden_settings.is_some() {
        return Err(MagicHatError::CannotSwitchToHiddenSettings);
    }
    let old_uuid = magic_hat.data.uuid.clone();
    magic_hat.wallet = wallet;
    if is_feature_active(&old_uuid, COLLECTIONS_FEATURE_INDEX) && !data.retain_authority {
        return Err(MagicHatError::MagicHatCollectionRequiresRetainAuthority);
    }
    magic_hat.data = data;
    magic_hat.data.uuid = old_uuid;
    if !remaining_accounts.is_empty() {
        magic_hat.token_mint = Some(remaining_accounts[0]);
    } else {
        magic_hat.token_mint = None;
    }
    Ok(())
}

/// Which updates the number of items and the hidden settings allow: a
/// magic hat that is already hidden may be updated while it stays hidden,
/// whatever its item count; with config lines it can neither become hidden
/// nor change its item count; a hidden one may change its item count.
pub proof fn lemma_update_keeps_hidden_hats_editable(magic_hat: MagicHat, data: MagicHatData)
    ensures
        magic_hat.data.hidden_settings is Some && data.hidden_settings is Some ==> !changes_number_of_lines(
            magic_hat,
            data,
        ) && !switches_to_hidden(magic_hat, data),
        data.hidden_settings is None && data.items_available == magic_hat.data.items_available
            ==> !changes_number_of_lines(magic_hat, data) && !switches_to_hidden(magic_hat, data),
        magic_hat.data.items_available > 0 && magic_hat.data.hidden_settings is None
            && data.hidden_settings is Some ==> switches_to_hidden(magic_hat, data),
        data.hidden_settings is None && data.items_available != magic_hat.data.items_available
            ==> changes_number_of_lines(magic_hat, data),
        magic_hat.data.items_available == 0 && data.hidden_settings is Some ==> !switches_to_hidden(
            magic_hat,
            data,
        ),
{
}

} // verus!
