//! One leg from pool to calls: its range of the pool, its accounts, its buy
//! and its sell. Both calls are ready before either is issued.

use crate::encoder::{
    buy_call, encode_buy, encode_sell, payload, sell_call, venue_account_list, EncodedCall,
    EncodedCallView, BUY_DISCRIMINATOR, SELL_DISCRIMINATOR,
};
use crate::error::MyErrorCode;
use crate::partition::{leg_range, leg_range_spec};
use crate::resolver::{
    first_missing, resolve_spec, resolve_venue_accounts, slot_error, token_shaped,
    ResolvedVenueAccounts,
};
use crate::chain::{token_program_id, TOKEN_ACCOUNT_LEN};
use crate::types::{ArbitrageParams, DexType, ExecuteArbitrageBatch, PoolAccount};
use crate::venue::venue_addresses;
use vstd::prelude::*;
use vstd::slice::slice_subrange;

verus! {

/// An account handed to an invocation: an entry of the pool by its place, or
/// one of the accounts that the batch names.
#[derive(Clone, Copy, Debug, PartialEq, Eq)]
pub enum AccountRef {
    Pool { index: usize },
    User,
    SystemProgram,
    TokenProgram,
    Rent,
}

/// A call together with the accounts to hand to the invocation.
#[derive(Clone, Debug, PartialEq, Eq)]
pub struct Invocation {
    pub call: EncodedCall,
    pub accounts: Vec<AccountRef>,
}

/// An invocation as its call and its accounts in order.
pub struct InvocationView {
    pub call: EncodedCallView,
    pub accounts: Seq<AccountRef>,
}

impl View for Invocation {
    type V = InvocationView;

    open spec fn view(&self) -> InvocationView {
        InvocationView { call: self.call@, accounts: self.accounts@ }
    }
}

/// What a leg comes to: its two invocations and where its range ends.
#[derive(Clone, Debug, PartialEq, Eq)]
pub struct LegPlan {
    pub buy: Invocation,
    pub sell: Invocation,
    pub end: usize,
}

/// A leg's plan as its two invocations and the end of its range.
pub struct LegPlanView {
    pub buy: InvocationView,
    pub sell: InvocationView,
    pub end: int,
}

impl View for LegPlan {
    type V = LegPlanView;

    open spec fn view(&self) -> LegPlanView {
        LegPlanView { buy: self.buy@, sell: self.sell@, end: self.end as int }
    }
}

/// Whether an entry goes along with an invocation: it has one of the venue's
/// addresses, or the shape of a token account.
pub open spec fn goes_along(account: PoolAccount, resolved: ResolvedVenueAccounts) -> bool {
    ||| account.key == resolved.global
    ||| account.key == resolved.fee_recipient
    ||| account.key == resolved.mint
    ||| account.key == resolved.bonding_curve
    ||| account.key == resolved.associated_bonding_curve
    ||| account.key == resolved.event_authority
    ||| account.key == resolved.program
    ||| token_shaped(account)
}

/// The entries of a leg that go along with its invocations, in pool order,
/// each by its place in the pool; `start` is the place of the leg's first.
pub open spec fn pool_accounts_handed(
    accounts: Seq<PoolAccount>,
    start: int,
    resolved: ResolvedVenueAccounts,
) -> Seq<AccountRef>
    decreases accounts.len(),
{
    if accounts.len() == 0 {
        Seq::empty()
    } else {
        let before = pool_accounts_handed(accounts.drop_last(), start, resolved);
        if goes_along(accounts.last(), resolved) {
            before.push(AccountRef::Pool { index: (start + accounts.len() - 1) as usize })
        } else {
            before
        }
    }
}

/// The accounts handed to an invocation of a leg: the leg's entries that go
/// along, then the operator, the system program, the token program and the
/// rent account.
pub open spec fn accounts_handed(
    accounts: Seq<PoolAccount>,
    start: int,
    resolved: ResolvedVenueAccounts,
) -> Seq<AccountRef> {
    pool_accounts_handed(accounts, start, resolved) + seq![
        AccountRef::User,
        AccountRef::SystemProgram,
        AccountRef::TokenProgram,
        AccountRef::Rent,
    ]
}

/// The plan of `leg`, whose range of `pool` starts at `offset`. In order: the
/// range must fit the pool, the accounts must resolve at the buy venue, and
/// both venues must have an encoder.
#[verifier::opaque]
pub open spec fn plan_leg_spec(
    named: ExecuteArbitrageBatch,
    leg: ArbitrageParams,
    pool: Seq<PoolAccount>,
    offset: int,
) -> Result<LegPlanView, MyErrorCode> {
    match leg_range_spec(offset, leg.accounts_count, pool.len() as int) {
        Err(error) => Err(error),
        Ok((start, end)) => {
            let accounts = pool.subrange(start, end);
            match resolve_spec(accounts, leg.buy_dex, leg.token_mint, named.user) {
                Err(error) => Err(error),
                Ok(resolved) => match buy_call(leg.buy_dex, resolved, named, leg) {
                    Err(error) => Err(error),
                    Ok(buy) => match sell_call(leg.sell_dex, resolved, named, leg) {
                        Err(error) => Err(error),
                        Ok(sell) => {
                            let handed = accounts_handed(accounts, start, resolved);
                            Ok(
                                LegPlanView {
                                    buy: InvocationView { call: buy, accounts: handed },
                                    sell: InvocationView { call: sell, accounts: handed },
                                    end,
                                },
                            )
                        },
                    },
                },
            }
        },
    }
}

/// Whether an entry goes along with the invocations of a leg.
fn is_handed(account: &PoolAccount, resolved: &ResolvedVenueAccounts) -> (r: bool)
    ensures
        r == goes_along(*account, *resolved),
{
    account.key == resolved.global || account.key == resolved.fee_recipient || account.key
        == resolved.mint || account.key == resolved.bonding_curve || account.key
        == resolved.associated_bonding_curve || account.key == resolved.event_authority
        || account.key == resolved.program || (account.owner == token_program_id()
        && account.data.len() == TOKEN_ACCOUNT_LEN)
}

/// Lists the accounts to hand to an invocation of a leg whose entries are
/// `accounts`, the first of them at place `start` of the pool.
pub fn collect_accounts(accounts: &[PoolAccount], start: usize, resolved: &ResolvedVenueAccounts) -> (r:
    Vec<AccountRef>)
    requires
        start + accounts@.len() <= usize::MAX,
    ensures
        r@ == accounts_handed(accounts@, start as int, *resolved),
{
    let mut handed: Vec<AccountRef> = Vec::new();
    let mut i: usize = 0;
    assert(accounts@.take(0).len() == 0);
    while i < accounts.len()
        invariant
            i <= accounts@.len(),
            start + accounts@.len() <= usize::MAX,
            handed@ == pool_accounts_handed(accounts@.take(i as int), start as int, *resolved),
        decreases accounts@.len() - i,
    {
        assert(accounts@.take(i + 1).drop_last() =~= accounts@.take(i as int));
        assert(accounts@.take(i + 1).last() == accounts@[i as int]);
        if is_handed(&accounts[i], resolved) {
            handed.push(AccountRef::Pool { index: start + i });
        }
        i += 1;
    }
    assert(accounts@.take(i as int) =~= accounts@);
    handed.push(AccountRef::User);
    handed.push(AccountRef::SystemProgram);
    handed.push(AccountRef::TokenProgram);
    handed.push(AccountRef::Rent);
    assert(handed@ =~= accounts_handed(accounts@, start as int, *resolved));
    handed
}

/// Plans one leg: takes its range of the pool, resolves its accounts and
/// encodes its buy and its sell. Nothing is issued here.
pub fn plan_leg(
    named: &ExecuteArbitrageBatch,
    leg: &ArbitrageParams,
    pool: &[PoolAccount],
    offset: usize,
) -> (r: Result<LegPlan, MyErrorCode>)
    ensures
        match plan_leg_spec(*named, *leg, pool@, offset as int) {
            Ok(plan) => r matches Ok(planned) && planned@ == plan,
            Err(error) => r == Err::<LegPlan, MyErrorCode>(error),
        },
{
    reveal(plan_leg_spec);
    let range = match leg_range(offset, leg.accounts_count, pool.len()) {
        Ok(range) => range,
        Err(error) => { return Err(error); },
    };
    let accounts = slice_subrange(pool, range.start, range.end);
    let resolved = match resolve_venue_accounts(accounts, leg.buy_dex, &leg.token_mint, &named.user) {
        Ok(resolved) => resolved,
        Err(error) => { return Err(error); },
    };
    let buy = match encode_buy(leg.buy_dex, &resolved, named, leg) {
        Ok(call) => call,
        Err(error) => { return Err(error); },
    };
    let sell = match encode_sell(leg.sell_dex, &resolved, named, leg) {
        Ok(call) => call,
        Err(error) => { return Err(error); },
    };
    let buy_accounts = collect_accounts(accounts, range.start, &resolved);
    let sell_accounts = collect_accounts(accounts, range.start, &resolved);
    Ok(
        LegPlan {
            buy: Invocation { call: buy, accounts: buy_accounts },
            sell: Invocation { call: sell, accounts: sell_accounts },
            end: range.end,
        },
    )
}

/// A leg is refused for want of accounts exactly where its range would pass
/// the end of the pool; nothing of the pool is read then.
pub proof fn lemma_short_pool_refuses_leg(
    named: ExecuteArbitrageBatch,
    leg: ArbitrageParams,
    pool: Seq<PoolAccount>,
    offset: int,
)
    ensures
        offset + leg.accounts_count > pool.len() <==> plan_leg_spec(named, leg, pool, offset) == Err::<
            LegPlanView,
            MyErrorCode,
        >(MyErrorCode::InsufficientAccounts),
{
    reveal(plan_leg_spec);
    if offset + leg.accounts_count <= pool.len() {
        let accounts = pool.subrange(offset, offset + leg.accounts_count);
        if leg.buy_dex == DexType::PumpFun {
            if let Ok(addresses) = venue_addresses(leg.token_mint) {
                match first_missing(accounts, addresses, leg.token_mint, named.user) {
                    Some(slot) => {
                        assert(slot_error(slot) != MyErrorCode::InsufficientAccounts);
                    },
                    None => {},
                }
            }
        }
    }
}

/// A leg that names a venue without resolver or encoder is refused with the
/// failure for such a venue: at the buy venue as soon as the range fits the
/// pool, whatever the pool holds; at the sell venue once the accounts have
/// resolved. Neither call of the leg exists then.
pub proof fn lemma_unsupported_venue_refuses_leg(
    named: ExecuteArbitrageBatch,
    leg: ArbitrageParams,
    pool: Seq<PoolAccount>,
    offset: int,
)
    requires
        offset + leg.accounts_count <= pool.len(),
    ensures
        leg.buy_dex == DexType::Meteora ==> plan_leg_spec(named, leg, pool, offset) == Err::<
            LegPlanView,
            MyErrorCode,
        >(MyErrorCode::InvalidDexType),
        leg.sell_dex == DexType::Meteora && resolve_spec(
            pool.subrange(offset, offset + leg.accounts_count),
            leg.buy_dex,
            leg.token_mint,
            named.user,
        ) is Ok ==> plan_leg_spec(named, leg, pool, offset) == Err::<LegPlanView, MyErrorCode>(
            MyErrorCode::InvalidDexType,
        ),
{
    reveal(plan_leg_spec);
}

/// A leg whose accounts do not resolve is refused with the failure of the
/// resolution, and a leg with a plan is made of what its own range of the
/// pool resolves to: the buy and the sell name the venue's accounts in the
/// venue's order, the same accounts go along with both, and the range ends
/// where the leg's count of entries ends.
pub proof fn lemma_plan_follows_resolution(
    named: ExecuteArbitrageBatch,
    leg: ArbitrageParams,
    pool: Seq<PoolAccount>,
    offset: int,
)
    requires
        offset + leg.accounts_count <= pool.len(),
    ensures
        match resolve_spec(
            pool.subrange(offset, offset + leg.accounts_count),
            leg.buy_dex,
            leg.token_mint,
            named.user,
        ) {
            Err(error) => plan_leg_spec(named, leg, pool, offset) == Err::<
                LegPlanView,
                MyErrorCode,
            >(error),
            Ok(resolved) => match plan_leg_spec(named, leg, pool, offset) {
                Err(error) => leg.sell_dex == DexType::Meteora && error
                    == MyErrorCode::InvalidDexType,
                Ok(plan) => {
                    &&& leg.buy_dex == DexType::PumpFun
                    &&& leg.sell_dex == DexType::PumpFun
                    &&& plan.end == offset + leg.accounts_count
                    &&& plan.buy.call.program_id == resolved.program
                    &&& plan.sell.call.program_id == resolved.program
                    &&& plan.buy.call.accounts == venue_account_list(resolved, named)
                    &&& plan.sell.call.accounts == plan.buy.call.accounts
                    &&& plan.buy.call.data == payload(
                        BUY_DISCRIMINATOR@,
                        leg.tokens_to_buy,
                        leg.max_sol_cost,
                    )
                    &&& plan.sell.call.data == payload(
                        SELL_DISCRIMINATOR@,
                        leg.tokens_to_sell,
                        leg.min_wsol_out,
                    )
                    &&& plan.buy.accounts == accounts_handed(
                        pool.subrange(offset, offset + leg.accounts_count),
                        offset,
                        resolved,
                    )
                    &&& plan.sell.accounts == plan.buy.accounts
                },
            },
        },
{
    reveal(plan_leg_spec);
}

/// Every pool entry that goes along with an invocation is an entry of the
/// leg's own range, by its place in the pool, and one that has a venue address
/// or the shape of a token account. They stand in pool order.
pub proof fn lemma_handed_accounts_are_of_the_leg(
    accounts: Seq<PoolAccount>,
    start: int,
    resolved: ResolvedVenueAccounts,
)
    requires
        0 <= start,
        start + accounts.len() <= usize::MAX,
    ensures
        pool_accounts_handed(accounts, start, resolved).len() <= accounts.len(),
        forall|at: int|
            0 <= at < pool_accounts_handed(accounts, start, resolved).len() ==> {
                &&& (#[trigger] pool_accounts_handed(accounts, start, resolved)[at]) matches AccountRef::Pool {
                    index,
                }
                &&& start + at <= index < start + accounts.len()
                &&& goes_along(accounts[index - start], resolved)
            },
        forall|at: int, after: int|
            0 <= at < after < pool_accounts_handed(accounts, start, resolved).len() ==> (
            #[trigger] pool_accounts_handed(accounts, start, resolved)[at])->index < (
            #[trigger] pool_accounts_handed(accounts, start, resolved)[after])->index,
    decreases accounts.len(),
{
    if accounts.len() > 0 {
        let before = accounts.drop_last();
        lemma_handed_accounts_are_of_the_leg(before, start, resolved);
        let earlier = pool_accounts_handed(before, start, resolved);
        let handed = pool_accounts_handed(accounts, start, resolved);
        assert forall|at: int| 0 <= at < handed.len() implies {
            &&& (#[trigger] handed[at]) matches AccountRef::Pool { index }
            &&& start + at <= index < start + accounts.len()
            &&& goes_along(accounts[index - start], resolved)
        } by {
            if at < earlier.len() {
                assert(handed[at] == earlier[at]);
                let index = earlier[at]->index;
                assert(accounts[index - start] == before[index - start]);
            }
        }
        assert forall|at: int, after: int| 0 <= at < after < handed.len() implies (
        #[trigger] handed[at])->index < (#[trigger] handed[after])->index by {
            assert(handed[at] == earlier[at]);
            if after < earlier.len() {
                assert(handed[after] == earlier[after]);
            }
        }
    }
}

} // verus!
