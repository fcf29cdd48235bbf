//! What a caller submits with a batch: the legs, the named accounts and the
//! pool of further accounts.

use crate::address::Address;
use crate::router::RouterState;
use vstd::prelude::*;

verus! {

/// The liquidity venues a leg can name.
#[derive(Clone, Copy, Debug, PartialEq, Eq, Structural)]
pub enum DexType {
    /// Named, but neither resolved nor encoded.
    Meteora,
    /// The curve venue.
    PumpFun,
}

/// One leg of a batch: buy an asset at one venue, sell it at another. The
/// amounts and bounds come from the planner and are passed on as they are.
#[derive(Clone, Copy, Debug, PartialEq, Eq)]
pub struct ArbitrageParams {
    /// The asset traded.
    pub token_mint: Address,
    /// What the planner meant to invest; not read by the router.
    pub amount_in: u64,
    /// The least proceeds the sell call may return.
    pub min_wsol_out: u64,
    pub buy_dex: DexType,
    pub sell_dex: DexType,
    /// How many entries of the pool belong to this leg.
    pub accounts_count: u8,
    pub tokens_to_buy: u64,
    /// The most the buy call may spend.
    pub max_sol_cost: u64,
    pub tokens_to_sell: u64,
}

/// One entry of the account pool, as far as the router reads it.
#[derive(Clone, Debug, PartialEq, Eq)]
pub struct PoolAccount {
    pub key: Address,
    /// The program that owns the account.
    pub owner: Address,
    pub data: Vec<u8>,
}

/// The accounts every batch names.
#[derive(Clone, Copy, Debug, PartialEq, Eq)]
pub struct ExecuteArbitrageBatch {
    pub router_state: RouterState,
    /// The operator, who signs the batch.
    pub user: Address,
    /// The operator's settlement account; not read by the router.
    pub user_wsol_account: Address,
    pub token_program: Address,
    pub system_program: Address,
    pub rent: Address,
}

} // verus!
