pub mod errors;
pub mod store;
pub mod vault;
pub mod claim_calculator;
pub mod usdc_token;
pub mod vault_share_token;
