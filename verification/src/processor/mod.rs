pub mod initialize;
pub mod instruction_scan;
pub mod update;
pub mod whitelist_mint;
pub mod mint_session;
