use vstd::prelude::*;

verus! {

/// Longest NFT name accepted by the token-metadata program, in bytes.
pub const MAX_NAME_LENGTH: usize = 32;

/// Longest NFT symbol accepted by the token-metadata program, in bytes.
pub const MAX_SYMBOL_LENGTH: usize = 10;

/// Longest metadata URI accepted by the token-metadata program, in bytes.
pub const MAX_URI_LENGTH: usize = 200;

/// Most creators that one metadata account can list.
pub const MAX_CREATOR_LIMIT: usize = 5;

/// Serialized size of one creator entry: address, verified flag, share.
pub const MAX_CREATOR_LEN: usize = 34;

/// Size of one config line in the account: a length-prefixed name followed
/// by a length-prefixed URI.
pub const CONFIG_LINE_SIZE: usize = 4 + MAX_NAME_LENGTH + 4 + MAX_URI_LENGTH;

/// Offset of the config-line array inside a magic hat account: the account
/// discriminator followed by the largest serialized magic hat.
pub const CONFIG_ARRAY_START: usize = 8 // discriminator
    + 32 // authority
    + 32 // wallet
    + 33 // optional token mint
    + 8 // items redeemed
    + 4 + 6 // uuid
    + 8 // price
    + 4 + MAX_SYMBOL_LENGTH // symbol
    + 2 // seller fee basis points
    + 8 // max supply
    + 1 // is mutable
    + 1 // retain authority
    + 9 // optional go-live date
    + 10 // optional end settings
    + 4 + MAX_CREATOR_LIMIT * MAX_CREATOR_LEN // creators
    + 1 + 4 + MAX_NAME_LENGTH + 4 + MAX_URI_LENGTH + 32 // optional hidden settings
    + 1 + 1 + 32 + 1 + 9 // optional whitelist mint settings
    + 8 // items available
    + 1 + 32 + 1 // optional gatekeeper
;

/// Position, in the magic hat UUID, of the flag that turns on collections.
pub const COLLECTIONS_FEATURE_INDEX: usize = 0;

/// Seconds between the creation of a gateway token and its expiry.
pub const EXPIRE_OFFSET: i64 = 600;

/// Anchor discriminator of the `set_collection_during_mint` instruction.
pub const SET_COLLECTION_DURING_MINT_DISCRIMINATOR: [u8; 8] = [103, 17, 200, 25, 118, 95, 125, 61];

} // verus!
