//! What each call does, told by what goes in and what comes out: what it asks of the
//! rest of the chain, in which order, and what it leaves of the pallet's state.
pub mod funding;
pub mod names;
pub mod payouts;
pub mod plain;
pub mod rates;
pub mod relay;
pub mod vaults;
pub mod walks;
