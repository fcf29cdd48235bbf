//! A router that executes a batch of four buy-then-sell arbitrage legs against
//! curve-style liquidity venues.
//!
//! The library decides; it performs no invocation itself. The caller runs the
//! batch by handing each outcome of an issued call back to the executor, which
//! answers with the next call to issue or with the final result.

pub mod address;
pub mod chain;
pub mod encoder;
pub mod error;
pub mod executor;
pub mod leg;
pub mod partition;
pub mod resolver;
pub mod router;
pub mod run;
pub mod types;
pub mod venue;

pub use address::Address;
pub use encoder::{
    encode_buy, encode_payload, encode_sell, venue_accounts, AccountMeta, EncodedCall,
    BUY_DISCRIMINATOR, SELL_DISCRIMINATOR,
};
pub use error::MyErrorCode;
pub use executor::{
    execute_arbitrage_batch, resume_arbitrage_batch, BatchAction, BatchError, BatchState,
    BatchStep, CallOutcome,
};
pub use leg::{collect_accounts, plan_leg, AccountRef, Invocation, LegPlan};
pub use partition::{leg_range, partition_pool, AccountRange};
pub use resolver::{
    contains_key, find_user_token_account, is_user_token_account, resolve_at_venue,
    resolve_venue_accounts, ResolvedVenueAccounts, SlotCategory, VenueSlot,
};
pub use router::{initialize, toggle_pause, Initialize, RouterState, TogglePause};
pub use types::{ArbitrageParams, DexType, ExecuteArbitrageBatch, PoolAccount};
pub use venue::{associated_token_address, derive_venue_addresses, VenueAddresses};
