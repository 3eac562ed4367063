pub mod bytes;
pub mod config;
pub mod contributions;
pub mod effects;
pub mod funding;
pub mod history;
pub mod laws;
pub mod ledger;
pub mod outside;
pub mod pallet;
pub mod payouts;
pub mod rates;
pub mod relay;
pub mod rollback;
pub mod state;
pub mod storage_map;
pub mod tally;
pub mod types;
pub mod upkeep;
pub mod vaults;
