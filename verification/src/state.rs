use vstd::prelude::*;
use crate::address::Address;

verus! {

/// A creator listed in the metadata of every NFT that the magic hat mints.
#[derive(Clone, Copy, Debug)]
pub struct Creator {
    pub address: Address,
    pub verified: bool,
    pub share: u8,
}

/// What ends a sale.
#[derive(Clone, Copy, Debug, PartialEq, Eq, Structural)]
pub enum EndSettingType {
    /// The sale ends after a date.
    Date,
    /// The sale ends after a number of mints.
    Amount,
}

/// When the sale ends.
#[derive(Clone, Copy, Debug)]
pub struct EndSettings {
    pub end_setting_type: EndSettingType,
    pub number: u64,
}

/// What happens to the whitelist token on a whitelisted mint.
#[derive(Clone, Copy, Debug, PartialEq, Eq, Structural)]
pub enum WhitelistMintMode {
    /// One whitelist token is burnt on each mint.
    BurnEveryTime,
    /// The whitelist token stays.
    NeverBurn,
}

/// Token-gated access to the sale.
#[derive(Clone, Copy, Debug)]
pub struct WhitelistMintSettings {
    pub mode: WhitelistMintMode,
    pub mint: Address,
    pub presale: bool,
    pub discount_price: Option<u64>,
}

/// Settings of a sale whose NFTs are revealed later: every NFT gets the
/// same URI and a numbered name.
#[derive(Clone, Debug)]
pub struct HiddenSettings {
    pub name: String,
    pub uri: String,
    pub hash: [u8; 32],
}

/// Gateway (proof of personhood) requirement of the sale.
#[derive(Clone, Copy, Debug)]
pub struct GatekeeperConfig {
    pub gatekeeper_network: Address,
    pub expire_on_use: bool,
}

/// The settings of a magic hat.
#[derive(Clone, Debug)]
pub struct MagicHatData {
    pub uuid: String,
    pub price: u64,
    pub symbol: String,
    pub seller_fee_basis_points: u16,
    pub max_supply: u64,
    pub is_mutable: bool,
    pub retain_authority: bool,
    pub go_live_date: Option<i64>,
    pub end_settings: Option<EndSettings>,
    pub creators: Vec<Creator>,
    pub hidden_settings: Option<HiddenSettings>,
    pub whitelist_mint_settings: Option<WhitelistMintSettings>,
    pub items_available: u64,
    pub gatekeeper: Option<GatekeeperConfig>,
}

/// A magic hat: the sale of a collection of NFTs.
#[derive(Clone, Debug)]
pub struct MagicHat {
    pub authority: Address,
    pub wallet: Address,
    pub token_mint: Option<Address>,
    pub items_redeemed: u64,
    pub data: MagicHatData,
}

/// Name and URI of one NFT.
#[derive(Clone, Debug)]
pub struct ConfigLine {
    pub name: String,
    pub uri: String,
}

} // verus!
