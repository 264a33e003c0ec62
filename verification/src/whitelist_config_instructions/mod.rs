pub mod create_whitelist_config;
pub mod update_whitelist_config;
