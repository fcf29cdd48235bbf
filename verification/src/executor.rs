//! The batch executor. It issues nothing itself: it says which call comes
//! next, is told how that call ended, and says what follows. The caller
//! performs each call and reports its outcome.
//!
//! A batch is held to the pause flag once, then takes its legs in the order
//! submitted: plan the leg, issue its buy, issue its sell, move on. Whatever
//! fails ends the batch at once with that failure; nothing is retried and
//! nothing after the failure is attempted.
//!
//! A state is kept only while a call is out, and once the batch is over. What
//! lies between two calls (reading the pause flag, planning a leg, moving to
//! the next leg) happens within one step.

use crate::error::MyErrorCode;
use crate::leg::{plan_leg, plan_leg_spec, Invocation, InvocationView};
use crate::types::{ArbitrageParams, ExecuteArbitrageBatch, PoolAccount};
use vstd::prelude::*;

verus! {

/// Why a batch ended without completing.
#[derive(Clone, Copy, Debug, PartialEq, Eq, Structural)]
pub enum BatchError {
    /// The router refused to go on.
    Refused(MyErrorCode),
    /// A venue rejected a call; its code is passed on unread.
    CallFailed(u64),
}

/// How an issued call ended.
#[derive(Clone, Copy, Debug, PartialEq, Eq, Structural)]
pub enum CallOutcome {
    Succeeded,
    /// The venue rejected the call with this code.
    Failed(u64),
}

/// Where a batch stands between two calls.
#[derive(Clone, Debug, PartialEq, Eq)]
pub enum BatchState {
    /// The buy of `leg` is issued; its sell waits. The next leg's range of
    /// the pool starts at `next_offset`.
    BuyInvoked { leg: usize, next_offset: usize, sell: Invocation },
    /// The sell of `leg` is issued.
    SellInvoked { leg: usize, next_offset: usize },
    /// Every leg completed both its calls.
    Done,
    /// The batch ended with a failure.
    Aborted { error: BatchError },
}

/// What the caller is to do next.
#[derive(Debug, PartialEq, Eq)]
pub enum BatchAction {
    /// Issue this call and report how it ended.
    Invoke(Invocation),
    /// The batch is over, with this result.
    Finish(Result<(), BatchError>),
}

/// One step of a batch: where it now stands, and what to do next.
#[derive(Debug, PartialEq, Eq)]
pub struct BatchStep {
    pub state: BatchState,
    pub action: BatchAction,
}

/// A state with its waiting invocation as call, accounts and payload.
pub enum BatchStateView {
    BuyInvoked { leg: usize, next_offset: usize, sell: InvocationView },
    SellInvoked { leg: usize, next_offset: usize },
    Done,
    Aborted { error: BatchError },
}

/// An action with its invocation as call, accounts and payload.
pub enum BatchActionView {
    Invoke(InvocationView),
    Finish(Result<(), BatchError>),
}

/// A step as the views of its state and its action.
pub struct BatchStepView {
    pub state: BatchStateView,
    pub action: BatchActionView,
}

impl View for BatchState {
    type V = BatchStateView;

    open spec fn view(&self) -> BatchStateView {
        match *self {
            BatchState::BuyInvoked { leg, next_offset, sell } => BatchStateView::BuyInvoked {
                leg,
                next_offset,
                sell: sell@,
            },
            BatchState::SellInvoked { leg, next_offset } => BatchStateView::SellInvoked {
                leg,
                next_offset,
            },
            BatchState::Done => BatchStateView::Done,
            BatchState::Aborted { error } => BatchStateView::Aborted { error },
        }
    }
}

impl View for BatchAction {
    type V = BatchActionView;

    open spec fn view(&self) -> BatchActionView {
        match *self {
            BatchAction::Invoke(invocation) => BatchActionView::Invoke(invocation@),
            BatchAction::Finish(result) => BatchActionView::Finish(result),
        }
    }
}

impl View for BatchStep {
    type V = BatchStepView;

    open spec fn view(&self) -> BatchStepView {
        BatchStepView { state: self.state@, action: self.action@ }
    }
}

/// The step that ends a batch with `error`.
pub open spec fn aborted(error: BatchError) -> BatchStepView {
    BatchStepView {
        state: BatchStateView::Aborted { error },
        action: BatchActionView::Finish(Err(error)),
    }
}

/// The step that ends a batch whose legs all completed.
pub open spec fn completed() -> BatchStepView {
    BatchStepView { state: BatchStateView::Done, action: BatchActionView::Finish(Ok(())) }
}

/// Whether a batch is over in this state.
pub open spec fn finished(state: BatchStateView) -> bool {
    state is Done || state is Aborted
}

/// Entering leg number `leg`, whose range of the pool starts at `offset`:
/// past the last leg the batch is complete; otherwise the leg is planned and
/// its buy comes next, or the batch ends with the failure of the plan.
pub open spec fn enter_leg(
    named: ExecuteArbitrageBatch,
    legs: Seq<ArbitrageParams>,
    pool: Seq<PoolAccount>,
    leg: int,
    offset: int,
) -> BatchStepView {
    if leg >= legs.len() {
        completed()
    } else {
        match plan_leg_spec(named, legs[leg], pool, offset) {
            Ok(plan) => BatchStepView {
                state: BatchStateView::BuyInvoked {
                    leg: leg as usize,
                    next_offset: plan.end as usize,
                    sell: plan.sell,
                },
                action: BatchActionView::Invoke(plan.buy),
            },
            Err(error) => aborted(BatchError::Refused(error)),
        }
    }
}

/// The first step of a batch: a paused router refuses it; otherwise the first
/// leg is entered at the head of the pool.
pub open spec fn begin_batch(
    named: ExecuteArbitrageBatch,
    legs: Seq<ArbitrageParams>,
    pool: Seq<PoolAccount>,
) -> BatchStepView {
    if named.router_state.is_paused {
        aborted(BatchError::Refused(MyErrorCode::ContractIsPaused))
    } else {
        enter_leg(named, legs, pool, 0, 0)
    }
}

/// The step that follows `state` once the call it waits for ended with
/// `outcome`. A failed call ends the batch. After a buy comes the sell that
/// was planned with it; after a sell the next leg is entered. A batch that is
/// over stays as it is.
pub open spec fn resume_batch(
    named: ExecuteArbitrageBatch,
    legs: Seq<ArbitrageParams>,
    pool: Seq<PoolAccount>,
    state: BatchStateView,
    outcome: CallOutcome,
) -> BatchStepView {
    match state {
        BatchStateView::BuyInvoked { leg, next_offset, sell } => match outcome {
            CallOutcome::Succeeded => BatchStepView {
                state: BatchStateView::SellInvoked { leg, next_offset },
                action: BatchActionView::Invoke(sell),
            },
            CallOutcome::Failed(code) => aborted(BatchError::CallFailed(code)),
        },
        BatchStateView::SellInvoked { leg, next_offset } => match outcome {
            CallOutcome::Succeeded => enter_leg(named, legs, pool, leg + 1, next_offset as int),
            CallOutcome::Failed(code) => aborted(BatchError::CallFailed(code)),
        },
        BatchStateView::Done => completed(),
        BatchStateView::Aborted { error } => aborted(error),
    }
}

impl BatchState {
    /// Whether the step that follows this state reads the pool. Only the entry
    /// into the next leg does, after a sell; for any other state the caller
    /// may hand over an empty pool.
    pub fn reads_pool(&self) -> (r: bool)
        ensures
            r == (self@ is SellInvoked),
    {
        match self {
            BatchState::SellInvoked { .. } => true,
            _ => false,
        }
    }
}

/// Enters leg number `leg` of the batch.
fn enter(
    ctx: &ExecuteArbitrageBatch,
    arbitrages: &[ArbitrageParams; 4],
    remaining_accounts: &[PoolAccount],
    leg: usize,
    offset: usize,
) -> (step: BatchStep)
    requires
        leg <= 4,
    ensures
        step@ == enter_leg(*ctx, arbitrages@, remaining_accounts@, leg as int, offset as int),
{
    if leg >= 4 {
        return BatchStep { state: BatchState::Done, action: BatchAction::Finish(Ok(())) };
    }
    match plan_leg(ctx, &arbitrages[leg], remaining_accounts, offset) {
        Ok(plan) => BatchStep {
            state: BatchState::BuyInvoked { leg, next_offset: plan.end, sell: plan.sell },
            action: BatchAction::Invoke(plan.buy),
        },
        Err(error) => abort(BatchError::Refused(error)),
    }
}

/// Ends the batch with `error`.
fn abort(error: BatchError) -> (step: BatchStep)
    ensures
        step@ == aborted(error),
{
    BatchStep { state: BatchState::Aborted { error }, action: BatchAction::Finish(Err(error)) }
}

/// Begins a batch of four legs over the pool `remaining_accounts`: reads the
/// pause flag, then plans the first leg and asks for its buy. The caller
/// issues each call asked for and hands its outcome to
/// `resume_arbitrage_batch`, until the action is `Finish`.
pub fn execute_arbitrage_batch(
    ctx: &ExecuteArbitrageBatch,
    arbitrages: &[ArbitrageParams; 4],
    remaining_accounts: &[PoolAccount],
) -> (step: BatchStep)
    ensures
        step@ == begin_batch(*ctx, arbitrages@, remaining_accounts@),
{
    if ctx.router_state.is_paused {
        return abort(BatchError::Refused(MyErrorCode::ContractIsPaused));
    }
    enter(ctx, arbitrages, remaining_accounts, 0, 0)
}

/// Continues a batch whose last call ended with `outcome`. The pool is read
/// as it stands now.
pub fn resume_arbitrage_batch(
    ctx: &ExecuteArbitrageBatch,
    arbitrages: &[ArbitrageParams; 4],
    remaining_accounts: &[PoolAccount],
    state: BatchState,
    outcome: CallOutcome,
) -> (step: BatchStep)
    ensures
        step@ == resume_batch(*ctx, arbitrages@, remaining_accounts@, state@, outcome),
{
    match state {
        BatchState::BuyInvoked { leg, next_offset, sell } => match outcome {
            CallOutcome::Succeeded => BatchStep {
                state: BatchState::SellInvoked { leg, next_offset },
                action: BatchAction::Invoke(sell),
            },
            CallOutcome::Failed(code) => abort(BatchError::CallFailed(code)),
        },
        BatchState::SellInvoked { leg, next_offset } => match outcome {
            CallOutcome::Succeeded => if leg < 3 {
                enter(ctx, arbitrages, remaining_accounts, leg + 1, next_offset)
            } else {
                BatchStep { state: BatchState::Done, action: BatchAction::Finish(Ok(())) }
            },
            CallOutcome::Failed(code) => abort(BatchError::CallFailed(code)),
        },
        BatchState::Done => BatchStep {
            state: BatchState::Done,
            action: BatchAction::Finish(Ok(())),
        },
        BatchState::Aborted { error } => abort(error),
    }
}

/// The pool is read only to enter a leg: the step that follows any state but
/// that of an issued sell is the same whatever pool is handed over.
pub proof fn lemma_pool_is_read_only_after_a_sell(
    named: ExecuteArbitrageBatch,
    legs: Seq<ArbitrageParams>,
    pool: Seq<PoolAccount>,
    other_pool: Seq<PoolAccount>,
    state: BatchStateView,
    outcome: CallOutcome,
)
    requires
        !(state is SellInvoked),
    ensures
        resume_batch(named, legs, pool, state, outcome) == resume_batch(
            named,
            legs,
            other_pool,
            state,
            outcome,
        ),
{
}

} // verus!
