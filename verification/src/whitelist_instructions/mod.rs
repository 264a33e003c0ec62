pub mod create_whitelist_account;
pub mod decrease_whitelist_count;
