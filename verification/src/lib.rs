//! Verified core of the magic hat NFT minting program: account models,
//! whitelist bookkeeping and the decisions that the mint instruction makes.
pub mod address;
pub mod constants;
pub mod errors;
pub mod processor;
pub mod state;
pub mod text;
pub mod utils;
pub mod wallet_whitelist;
pub mod whitelist_config;
pub mod whitelist_config_instructions;
pub mod whitelist_errors;
pub mod whitelist_instructions;
