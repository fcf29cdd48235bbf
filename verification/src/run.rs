//! A batch over its whole run: the actions that follow one another as the
//! outcomes of its calls come in, and what holds of them.

use crate::error::MyErrorCode;
use crate::executor::{
    aborted, begin_batch, enter_leg, finished, resume_batch, BatchActionView, BatchError,
    BatchStateView, BatchStepView, CallOutcome,
};
use crate::leg::{
    lemma_plan_follows_resolution, lemma_short_pool_refuses_leg,
    lemma_unsupported_venue_refuses_leg, plan_leg_spec, LegPlanView,
};
use crate::partition::{consumed, lemma_consumed_grows};
use crate::resolver::{
    lemma_single_missing_slot_is_named, resolve_spec, slot_error, slot_filled, VenueSlot,
};
use crate::types::{ArbitrageParams, DexType, ExecuteArbitrageBatch, PoolAccount};
use crate::venue::{venue_addresses, VenueAddresses};
use vstd::prelude::*;

verus! {

/// How many pool entries each leg takes, in leg order.
pub open spec fn leg_counts(legs: Seq<ArbitrageParams>) -> Seq<u8> {
    Seq::new(legs.len(), |k: int| legs[k].accounts_count)
}

/// Where the range of leg number `leg` starts: behind the entries of all the
/// legs before it.
pub open spec fn leg_offset(legs: Seq<ArbitrageParams>, leg: int) -> int {
    consumed(leg_counts(legs), leg)
}

/// The plan of leg number `leg` over its own range of the pool.
pub open spec fn leg_plan(
    named: ExecuteArbitrageBatch,
    legs: Seq<ArbitrageParams>,
    pool: Seq<PoolAccount>,
    leg: int,
) -> Result<LegPlanView, MyErrorCode> {
    plan_leg_spec(named, legs[leg], pool, leg_offset(legs, leg))
}

/// The actions that follow `state` as the outcomes of the calls come in, one
/// action for each outcome until the batch is over.
pub open spec fn continue_batch(
    named: ExecuteArbitrageBatch,
    legs: Seq<ArbitrageParams>,
    pool: Seq<PoolAccount>,
    state: BatchStateView,
    outcomes: Seq<CallOutcome>,
) -> Seq<BatchActionView>
    decreases outcomes.len(),
{
    if outcomes.len() == 0 || finished(state) {
        Seq::empty()
    } else {
        let step = resume_batch(named, legs, pool, state, outcomes.first());
        seq![step.action] + continue_batch(named, legs, pool, step.state, outcomes.drop_first())
    }
}

/// The actions of a batch from `step` on.
pub open spec fn actions_from(
    named: ExecuteArbitrageBatch,
    legs: Seq<ArbitrageParams>,
    pool: Seq<PoolAccount>,
    step: BatchStepView,
    outcomes: Seq<CallOutcome>,
) -> Seq<BatchActionView> {
    seq![step.action] + continue_batch(named, legs, pool, step.state, outcomes)
}

/// Every action of a batch whose calls end with `outcomes`, in order: each
/// call that is issued, and the end of the batch once it is reached.
pub open spec fn batch_actions(
    named: ExecuteArbitrageBatch,
    legs: Seq<ArbitrageParams>,
    pool: Seq<PoolAccount>,
    outcomes: Seq<CallOutcome>,
) -> Seq<BatchActionView> {
    actions_from(named, legs, pool, begin_batch(named, legs, pool), outcomes)
}

/// The calls of the legs from number `from` up to, not including, `upto`: for
/// each leg its buy, then its sell.
pub open spec fn planned_calls(
    named: ExecuteArbitrageBatch,
    legs: Seq<ArbitrageParams>,
    pool: Seq<PoolAccount>,
    from: int,
    upto: int,
) -> Seq<BatchActionView>
    decreases upto - from,
{
    if from >= upto {
        Seq::empty()
    } else {
        let plan = leg_plan(named, legs, pool, from)->Ok_0;
        seq![BatchActionView::Invoke(plan.buy), BatchActionView::Invoke(plan.sell)]
            + planned_calls(named, legs, pool, from + 1, upto)
    }
}

/// How a batch ends whose legs before number `upto` all have a plan: complete
/// where `upto` is past the last leg, else with the failure of that leg's plan.
pub open spec fn closing(
    named: ExecuteArbitrageBatch,
    legs: Seq<ArbitrageParams>,
    pool: Seq<PoolAccount>,
    upto: int,
) -> BatchActionView {
    if upto >= legs.len() {
        BatchActionView::Finish(Ok(()))
    } else {
        BatchActionView::Finish(Err(BatchError::Refused(leg_plan(named, legs, pool, upto)->Err_0)))
    }
}

/// Whether the first `count` outcomes are there and are all successes.
pub open spec fn all_succeed(outcomes: Seq<CallOutcome>, count: int) -> bool {
    &&& outcomes.len() >= count
    &&& forall|i: int| 0 <= i < count ==> outcomes[i] == CallOutcome::Succeeded
}

/// A leg with a plan ends where the next leg starts, within the pool.
pub proof fn lemma_plan_ends_at_next_offset(
    named: ExecuteArbitrageBatch,
    legs: Seq<ArbitrageParams>,
    pool: Seq<PoolAccount>,
    leg: int,
)
    requires
        0 <= leg < legs.len(),
        leg_plan(named, legs, pool, leg) is Ok,
    ensures
        0 <= leg_offset(legs, leg),
        leg_plan(named, legs, pool, leg)->Ok_0.end == leg_offset(legs, leg + 1),
        leg_offset(legs, leg + 1) == leg_offset(legs, leg) + legs[leg].accounts_count,
        leg_offset(legs, leg + 1) <= pool.len(),
{
    reveal(plan_leg_spec);
    lemma_consumed_grows(leg_counts(legs), 0, leg);
}

/// From the entry into leg number `from`: where the legs up to `upto` have a
/// plan and their calls succeed, the batch issues their calls and then closes.
proof fn lemma_actions_from_leg(
    named: ExecuteArbitrageBatch,
    legs: Seq<ArbitrageParams>,
    pool: Seq<PoolAccount>,
    from: int,
    upto: int,
    outcomes: Seq<CallOutcome>,
)
    requires
        0 <= from <= upto <= legs.len() <= usize::MAX,
        pool.len() <= usize::MAX,
        forall|k: int| from <= k < upto ==> (#[trigger] leg_plan(named, legs, pool, k)) is Ok,
        upto < legs.len() ==> leg_plan(named, legs, pool, upto) is Err,
        all_succeed(outcomes, 2 * (upto - from)),
    ensures
        actions_from(
            named,
            legs,
            pool,
            enter_leg(named, legs, pool, from, leg_offset(legs, from)),
            outcomes,
        ) == planned_calls(named, legs, pool, from, upto) + seq![closing(named, legs, pool, upto)],
    decreases upto - from,
{
    let entered = enter_leg(named, legs, pool, from, leg_offset(legs, from));
    if from == upto {
        assert(finished(entered.state));
        assert(actions_from(named, legs, pool, entered, outcomes) =~= planned_calls(
            named,
            legs,
            pool,
            from,
            upto,
        ) + seq![closing(named, legs, pool, upto)]);
    } else {
        assert(leg_plan(named, legs, pool, from) is Ok);
        lemma_plan_ends_at_next_offset(named, legs, pool, from);
        let plan = leg_plan(named, legs, pool, from)->Ok_0;
        assert(outcomes[0] == CallOutcome::Succeeded);
        assert(outcomes[1] == CallOutcome::Succeeded);
        let after_buy = resume_batch(named, legs, pool, entered.state, outcomes.first());
        let rest = outcomes.drop_first();
        assert(rest.first() == outcomes[1]);
        let after_sell = resume_batch(named, legs, pool, after_buy.state, rest.first());
        let later = rest.drop_first();
        assert(after_sell == enter_leg(named, legs, pool, from + 1, leg_offset(legs, from + 1)));
        assert(all_succeed(later, 2 * (upto - (from + 1)))) by {
            assert forall|i: int| 0 <= i < 2 * (upto - (from + 1)) implies later[i]
                == CallOutcome::Succeeded by {
                assert(later[i] == outcomes[i + 2]);
            }
        }
        lemma_actions_from_leg(named, legs, pool, from + 1, upto, later);
        assert(continue_batch(named, legs, pool, after_buy.state, rest) == seq![after_sell.action]
            + continue_batch(named, legs, pool, after_sell.state, later));
        assert(continue_batch(named, legs, pool, entered.state, outcomes) == seq![
            after_buy.action,
        ] + continue_batch(named, legs, pool, after_buy.state, rest));
        assert(actions_from(named, legs, pool, entered, outcomes) =~= planned_calls(
            named,
            legs,
            pool,
            from,
            upto,
        ) + seq![closing(named, legs, pool, upto)]);
    }
}

/// While the router is paused, a batch is refused before anything else:
/// whatever the legs, the pool and the outcomes, its only action is to end
/// with the pause failure, and no call is issued.
pub proof fn lemma_paused_batch_issues_no_call(
    named: ExecuteArbitrageBatch,
    legs: Seq<ArbitrageParams>,
    pool: Seq<PoolAccount>,
    outcomes: Seq<CallOutcome>,
)
    requires
        named.router_state.is_paused,
    ensures
        batch_actions(named, legs, pool, outcomes) == seq![
            BatchActionView::Finish(Err(BatchError::Refused(MyErrorCode::ContractIsPaused))),
        ],
{
    assert(batch_actions(named, legs, pool, outcomes) =~= seq![
        BatchActionView::Finish(Err(BatchError::Refused(MyErrorCode::ContractIsPaused))),
    ]);
}

/// A batch of four legs that all have a plan, and whose calls all succeed,
/// issues exactly eight calls and then completes: the buy and then the sell of
/// each leg, the legs in the order submitted. Leg number `k` is planned over
/// the entries from `leg_offset(legs, k)` up to `leg_offset(legs, k + 1)`.
pub proof fn lemma_complete_batch_issues_every_call(
    named: ExecuteArbitrageBatch,
    legs: Seq<ArbitrageParams>,
    pool: Seq<PoolAccount>,
)
    requires
        !named.router_state.is_paused,
        legs.len() == 4,
        pool.len() <= usize::MAX,
        forall|k: int| 0 <= k < 4 ==> (#[trigger] leg_plan(named, legs, pool, k)) is Ok,
    ensures
        batch_actions(named, legs, pool, Seq::new(8, |i: int| CallOutcome::Succeeded)) == seq![
            BatchActionView::Invoke(leg_plan(named, legs, pool, 0)->Ok_0.buy),
            BatchActionView::Invoke(leg_plan(named, legs, pool, 0)->Ok_0.sell),
            BatchActionView::Invoke(leg_plan(named, legs, pool, 1)->Ok_0.buy),
            BatchActionView::Invoke(leg_plan(named, legs, pool, 1)->Ok_0.sell),
            BatchActionView::Invoke(leg_plan(named, legs, pool, 2)->Ok_0.buy),
            BatchActionView::Invoke(leg_plan(named, legs, pool, 2)->Ok_0.sell),
            BatchActionView::Invoke(leg_plan(named, legs, pool, 3)->Ok_0.buy),
            BatchActionView::Invoke(leg_plan(named, legs, pool, 3)->Ok_0.sell),
            BatchActionView::Finish(Ok(())),
        ],
{
    let outcomes = Seq::new(8, |i: int| CallOutcome::Succeeded);
    lemma_actions_from_leg(named, legs, pool, 0, 4, outcomes);
    reveal_with_fuel(planned_calls, 5);
    assert(planned_calls(named, legs, pool, 0, 4) + seq![closing(named, legs, pool, 4)] =~= seq![
        BatchActionView::Invoke(leg_plan(named, legs, pool, 0)->Ok_0.buy),
        BatchActionView::Invoke(leg_plan(named, legs, pool, 0)->Ok_0.sell),
        BatchActionView::Invoke(leg_plan(named, legs, pool, 1)->Ok_0.buy),
        BatchActionView::Invoke(leg_plan(named, legs, pool, 1)->Ok_0.sell),
        BatchActionView::Invoke(leg_plan(named, legs, pool, 2)->Ok_0.buy),
        BatchActionView::Invoke(leg_plan(named, legs, pool, 2)->Ok_0.sell),
        BatchActionView::Invoke(leg_plan(named, legs, pool, 3)->Ok_0.buy),
        BatchActionView::Invoke(leg_plan(named, legs, pool, 3)->Ok_0.sell),
        BatchActionView::Finish(Ok(())),
    ]);
}

/// A batch ends at the first leg without a plan. Where the legs before number
/// `failing` have a plan and their calls succeed, the batch issues the calls
/// of those legs, then ends with the failure of that leg's plan: no call is
/// issued for the failing leg, nor for any leg after it.
pub proof fn lemma_batch_ends_at_first_failing_leg(
    named: ExecuteArbitrageBatch,
    legs: Seq<ArbitrageParams>,
    pool: Seq<PoolAccount>,
    failing: int,
    outcomes: Seq<CallOutcome>,
)
    requires
        !named.router_state.is_paused,
        0 <= failing < legs.len() <= usize::MAX,
        pool.len() <= usize::MAX,
        forall|k: int| 0 <= k < failing ==> (#[trigger] leg_plan(named, legs, pool, k)) is Ok,
        leg_plan(named, legs, pool, failing) is Err,
        all_succeed(outcomes, 2 * failing),
    ensures
        batch_actions(named, legs, pool, outcomes) == planned_calls(named, legs, pool, 0, failing)
            + seq![
            BatchActionView::Finish(
                Err(BatchError::Refused(leg_plan(named, legs, pool, failing)->Err_0)),
            ),
        ],
        planned_calls(named, legs, pool, 0, failing).len() == 2 * failing,
{
    lemma_actions_from_leg(named, legs, pool, 0, failing, outcomes);
    lemma_planned_calls_len(named, legs, pool, 0, failing);
}

/// A batch ends at the first leg that lacks a required account. Where the
/// legs before number `failing` have a plan and their calls succeed, and the
/// range of that leg fits the pool and fills every role of the curve venue but
/// `missing`, the batch issues the calls of the legs before it, then ends with
/// the failure of the missing role: no call is issued for that leg, nor for
/// any leg after it.
pub proof fn lemma_missing_slot_ends_batch(
    named: ExecuteArbitrageBatch,
    legs: Seq<ArbitrageParams>,
    pool: Seq<PoolAccount>,
    failing: int,
    venue: VenueAddresses,
    missing: VenueSlot,
    outcomes: Seq<CallOutcome>,
)
    requires
        !named.router_state.is_paused,
        0 <= failing < legs.len() <= usize::MAX,
        pool.len() <= usize::MAX,
        forall|k: int| 0 <= k < failing ==> (#[trigger] leg_plan(named, legs, pool, k)) is Ok,
        all_succeed(outcomes, 2 * failing),
        legs[failing].buy_dex == DexType::PumpFun,
        leg_offset(legs, failing + 1) <= pool.len(),
        venue_addresses(legs[failing].token_mint) == Ok::<VenueAddresses, MyErrorCode>(venue),
        !slot_filled(
            missing,
            pool.subrange(leg_offset(legs, failing), leg_offset(legs, failing + 1)),
            venue,
            legs[failing].token_mint,
            named.user,
        ),
        forall|slot: VenueSlot|
            slot != missing ==> #[trigger] slot_filled(
                slot,
                pool.subrange(leg_offset(legs, failing), leg_offset(legs, failing + 1)),
                venue,
                legs[failing].token_mint,
                named.user,
            ),
    ensures
        batch_actions(named, legs, pool, outcomes) == planned_calls(named, legs, pool, 0, failing)
            + seq![BatchActionView::Finish(Err(BatchError::Refused(slot_error(missing))))],
        planned_calls(named, legs, pool, 0, failing).len() == 2 * failing,
{
    let leg = legs[failing];
    let offset = leg_offset(legs, failing);
    lemma_consumed_grows(leg_counts(legs), 0, failing);
    assert(leg_offset(legs, failing + 1) == offset + leg.accounts_count);
    let accounts = pool.subrange(offset, offset + leg.accounts_count);
    lemma_single_missing_slot_is_named(accounts, venue, leg.token_mint, named.user, missing);
    lemma_plan_follows_resolution(named, leg, pool, offset);
    lemma_batch_ends_at_first_failing_leg(named, legs, pool, failing, outcomes);
}

/// A batch ends at the first leg that names a venue without resolver or
/// encoder. Where the legs before number `failing` have a plan and their
/// calls succeed, and the range of that leg fits the pool, the batch issues
/// the calls of the legs before it, then ends with the failure for such a
/// venue: at once where the buy venue is the unsupported one, whatever the
/// pool holds, and where the sell venue is, once the accounts have resolved.
/// No call is issued for that leg, nor for any leg after it.
pub proof fn lemma_unsupported_venue_ends_batch(
    named: ExecuteArbitrageBatch,
    legs: Seq<ArbitrageParams>,
    pool: Seq<PoolAccount>,
    failing: int,
    outcomes: Seq<CallOutcome>,
)
    requires
        !named.router_state.is_paused,
        0 <= failing < legs.len() <= usize::MAX,
        pool.len() <= usize::MAX,
        forall|k: int| 0 <= k < failing ==> (#[trigger] leg_plan(named, legs, pool, k)) is Ok,
        all_succeed(outcomes, 2 * failing),
        leg_offset(legs, failing + 1) <= pool.len(),
        legs[failing].buy_dex == DexType::Meteora || (legs[failing].sell_dex == DexType::Meteora
            && resolve_spec(
            pool.subrange(leg_offset(legs, failing), leg_offset(legs, failing + 1)),
            legs[failing].buy_dex,
            legs[failing].token_mint,
            named.user,
        ) is Ok),
    ensures
        batch_actions(named, legs, pool, outcomes) == planned_calls(named, legs, pool, 0, failing)
            + seq![
            BatchActionView::Finish(Err(BatchError::Refused(MyErrorCode::InvalidDexType))),
        ],
        planned_calls(named, legs, pool, 0, failing).len() == 2 * failing,
{
    let offset = leg_offset(legs, failing);
    lemma_consumed_grows(leg_counts(legs), 0, failing);
    assert(leg_offset(legs, failing + 1) == offset + legs[failing].accounts_count);
    lemma_unsupported_venue_refuses_leg(named, legs[failing], pool, offset);
    lemma_batch_ends_at_first_failing_leg(named, legs, pool, failing, outcomes);
}

/// A batch ends for want of accounts at the first leg whose range would pass
/// the end of the pool. Where the legs before number `short` have a plan and
/// their calls succeed, the batch issues the calls of those legs, then ends
/// with the failure for too few accounts; where the first leg is the short
/// one, no call is issued at all.
pub proof fn lemma_short_pool_ends_batch(
    named: ExecuteArbitrageBatch,
    legs: Seq<ArbitrageParams>,
    pool: Seq<PoolAccount>,
    short: int,
    outcomes: Seq<CallOutcome>,
)
    requires
        !named.router_state.is_paused,
        0 <= short < legs.len() <= usize::MAX,
        pool.len() <= usize::MAX,
        forall|k: int| 0 <= k < short ==> (#[trigger] leg_plan(named, legs, pool, k)) is Ok,
        leg_offset(legs, short + 1) > pool.len(),
        all_succeed(outcomes, 2 * short),
    ensures
        batch_actions(named, legs, pool, outcomes) == planned_calls(named, legs, pool, 0, short)
            + seq![
            BatchActionView::Finish(
                Err(BatchError::Refused(MyErrorCode::InsufficientAccounts)),
            ),
        ],
        planned_calls(named, legs, pool, 0, short).len() == 2 * short,
{
    lemma_short_pool_refuses_leg(named, legs[short], pool, leg_offset(legs, short));
    lemma_batch_ends_at_first_failing_leg(named, legs, pool, short, outcomes);
}

/// A batch that completes after entering leg number `from` had a plan for
/// that leg and for every leg after it.
proof fn lemma_completion_needs_every_plan(
    named: ExecuteArbitrageBatch,
    legs: Seq<ArbitrageParams>,
    pool: Seq<PoolAccount>,
    from: int,
    outcomes: Seq<CallOutcome>,
)
    requires
        0 <= from <= legs.len() <= usize::MAX,
        pool.len() <= usize::MAX,
        actions_from(
            named,
            legs,
            pool,
            enter_leg(named, legs, pool, from, leg_offset(legs, from)),
            outcomes,
        ).contains(BatchActionView::Finish(Ok(()))),
    ensures
        forall|k: int| from <= k < legs.len() ==> (#[trigger] leg_plan(named, legs, pool, k)) is Ok,
    decreases legs.len() - from,
{
    let done = BatchActionView::Finish(Ok(()));
    let entered = enter_leg(named, legs, pool, from, leg_offset(legs, from));
    let actions = actions_from(named, legs, pool, entered, outcomes);
    let at = choose|at: int| 0 <= at < actions.len() && actions[at] == done;
    if from < legs.len() {
        if leg_plan(named, legs, pool, from) is Err {
            assert(finished(entered.state));
            assert(actions =~= seq![entered.action]);
            assert(false);
        }
        lemma_plan_ends_at_next_offset(named, legs, pool, from);
        assert(entered.action != done);
        let after_entry = continue_batch(named, legs, pool, entered.state, outcomes);
        if outcomes.len() == 0 {
            assert(actions =~= seq![entered.action]);
            assert(false);
        }
        assert(after_entry[at - 1] == done);
        let after_buy = resume_batch(named, legs, pool, entered.state, outcomes.first());
        let rest = outcomes.drop_first();
        if outcomes.first() != CallOutcome::Succeeded {
            assert(finished(after_buy.state));
            assert(continue_batch(named, legs, pool, after_buy.state, rest) =~= Seq::empty());
            assert(after_entry =~= seq![after_buy.action]);
            assert(false);
        }
        assert(after_buy.action != done);
        let after_first = continue_batch(named, legs, pool, after_buy.state, rest);
        if rest.len() == 0 {
            assert(continue_batch(named, legs, pool, after_buy.state, rest) =~= Seq::empty());
            assert(after_entry =~= seq![after_buy.action]);
            assert(false);
        }
        assert(after_first[at - 2] == done);
        let after_sell = resume_batch(named, legs, pool, after_buy.state, rest.first());
        let later = rest.drop_first();
        if rest.first() != CallOutcome::Succeeded {
            assert(finished(after_sell.state));
            assert(continue_batch(named, legs, pool, after_sell.state, later) =~= Seq::empty());
            assert(after_first =~= seq![after_sell.action]);
            assert(false);
        }
        assert(after_sell == enter_leg(named, legs, pool, from + 1, leg_offset(legs, from + 1)));
        let onward = actions_from(named, legs, pool, after_sell, later);
        assert(after_first =~= onward);
        assert(onward[at - 2] == done);
        lemma_completion_needs_every_plan(named, legs, pool, from + 1, later);
    }
}

/// A batch whose legs together need more entries than the pool holds never
/// completes, however its calls end.
pub proof fn lemma_oversubscribed_batch_never_completes(
    named: ExecuteArbitrageBatch,
    legs: Seq<ArbitrageParams>,
    pool: Seq<PoolAccount>,
    outcomes: Seq<CallOutcome>,
)
    requires
        legs.len() <= usize::MAX,
        pool.len() <= usize::MAX,
        leg_offset(legs, legs.len() as int) > pool.len(),
    ensures
        !batch_actions(named, legs, pool, outcomes).contains(BatchActionView::Finish(Ok(()))),
{
    let done = BatchActionView::Finish(Ok(()));
    let actions = batch_actions(named, legs, pool, outcomes);
    if actions.contains(done) {
        if named.router_state.is_paused {
            lemma_paused_batch_issues_no_call(named, legs, pool, outcomes);
            let at = choose|at: int| 0 <= at < actions.len() && actions[at] == done;
            assert(false);
        }
        lemma_completion_needs_every_plan(named, legs, pool, 0, outcomes);
        if legs.len() > 0 {
            let last = legs.len() - 1;
            assert(leg_plan(named, legs, pool, last) is Ok);
            lemma_plan_ends_at_next_offset(named, legs, pool, last);
        }
        assert(false);
    }
}

/// A failed call ends the batch at once: whatever leg is under way and
/// whatever would follow, the only action after the failure is to end with
/// the venue's code, and no further call is issued.
pub proof fn lemma_failed_call_ends_batch(
    named: ExecuteArbitrageBatch,
    legs: Seq<ArbitrageParams>,
    pool: Seq<PoolAccount>,
    state: BatchStateView,
    code: u64,
    later: Seq<CallOutcome>,
)
    requires
        !finished(state),
    ensures
        continue_batch(named, legs, pool, state, seq![CallOutcome::Failed(code)] + later) == seq![
            BatchActionView::Finish(Err(BatchError::CallFailed(code))),
        ],
{
    let outcomes = seq![CallOutcome::Failed(code)] + later;
    assert(outcomes.first() == CallOutcome::Failed(code));
    let step = resume_batch(named, legs, pool, state, outcomes.first());
    assert(step == aborted(BatchError::CallFailed(code)));
    assert(continue_batch(named, legs, pool, step.state, outcomes.drop_first()) =~= Seq::empty());
    assert(continue_batch(named, legs, pool, state, outcomes) =~= seq![
        BatchActionView::Finish(Err(BatchError::CallFailed(code))),
    ]);
}

/// From the entry into leg number `from`: where the first `failed` calls
/// succeed and the next one fails, the batch issues those calls and the
/// failed one, then ends with the venue's code.
proof fn lemma_actions_until_failed_call(
    named: ExecuteArbitrageBatch,
    legs: Seq<ArbitrageParams>,
    pool: Seq<PoolAccount>,
    from: int,
    failed: int,
    code: u64,
    outcomes: Seq<CallOutcome>,
)
    requires
        0 <= from,
        0 <= failed,
        from + failed / 2 < legs.len() <= usize::MAX,
        pool.len() <= usize::MAX,
        forall|k: int|
            from <= k <= from + failed / 2 ==> (#[trigger] leg_plan(named, legs, pool, k)) is Ok,
        all_succeed(outcomes, failed),
        failed < outcomes.len(),
        outcomes[failed] == CallOutcome::Failed(code),
    ensures
        actions_from(
            named,
            legs,
            pool,
            enter_leg(named, legs, pool, from, leg_offset(legs, from)),
            outcomes,
        ) == planned_calls(named, legs, pool, from, from + failed / 2 + 1).take(failed + 1) + seq![
            BatchActionView::Finish(Err(BatchError::CallFailed(code))),
        ],
    decreases failed,
{
    let entered = enter_leg(named, legs, pool, from, leg_offset(legs, from));
    let end = BatchActionView::Finish(Err(BatchError::CallFailed(code)));
    let upto = from + failed / 2 + 1;
    assert(leg_plan(named, legs, pool, from) is Ok);
    lemma_plan_ends_at_next_offset(named, legs, pool, from);
    lemma_planned_calls_len(named, legs, pool, from + 1, upto);
    let plan = leg_plan(named, legs, pool, from)->Ok_0;
    let calls = planned_calls(named, legs, pool, from, upto);
    let later_calls = planned_calls(named, legs, pool, from + 1, upto);
    assert(calls == seq![BatchActionView::Invoke(plan.buy), BatchActionView::Invoke(plan.sell)]
        + later_calls);
    let after_buy = resume_batch(named, legs, pool, entered.state, outcomes.first());
    let rest = outcomes.drop_first();
    assert(continue_batch(named, legs, pool, entered.state, outcomes) == seq![after_buy.action]
        + continue_batch(named, legs, pool, after_buy.state, rest));
    if failed == 0 {
        assert(continue_batch(named, legs, pool, after_buy.state, rest) =~= Seq::empty());
        assert(actions_from(named, legs, pool, entered, outcomes) =~= calls.take(1) + seq![end]);
    } else {
        assert(outcomes[0] == CallOutcome::Succeeded);
        assert(rest.first() == outcomes[1]);
        let after_sell = resume_batch(named, legs, pool, after_buy.state, rest.first());
        let later = rest.drop_first();
        assert(continue_batch(named, legs, pool, after_buy.state, rest) == seq![after_sell.action]
            + continue_batch(named, legs, pool, after_sell.state, later));
        if failed == 1 {
            assert(continue_batch(named, legs, pool, after_sell.state, later) =~= Seq::empty());
            assert(actions_from(named, legs, pool, entered, outcomes) =~= calls.take(2) + seq![
                end,
            ]);
        } else {
            assert(after_sell == enter_leg(named, legs, pool, from + 1, leg_offset(legs, from + 1)));
            assert(all_succeed(later, failed - 2)) by {
                assert forall|i: int| 0 <= i < failed - 2 implies later[i]
                    == CallOutcome::Succeeded by {
                    assert(later[i] == outcomes[i + 2]);
                }
            }
            assert(later[failed - 2] == outcomes[failed]);
            lemma_actions_until_failed_call(named, legs, pool, from + 1, failed - 2, code, later);
            assert(from + 1 + (failed - 2) / 2 + 1 == upto);
            assert(actions_from(named, legs, pool, entered, outcomes) =~= calls.take(failed + 1)
                + seq![end]);
        }
    }
}

/// A batch ends at the first call that fails. Where the calls before number
/// `failed` succeed and the legs up to the one of the failed call have a
/// plan, the batch issues the calls up to and including the failed one, in
/// order, then ends with the venue's code: the failed call is not repeated,
/// and no leg after it is attempted.
pub proof fn lemma_batch_ends_at_first_failed_call(
    named: ExecuteArbitrageBatch,
    legs: Seq<ArbitrageParams>,
    pool: Seq<PoolAccount>,
    failed: int,
    code: u64,
    outcomes: Seq<CallOutcome>,
)
    requires
        !named.router_state.is_paused,
        0 <= failed,
        failed / 2 < legs.len() <= usize::MAX,
        pool.len() <= usize::MAX,
        forall|k: int| 0 <= k <= failed / 2 ==> (#[trigger] leg_plan(named, legs, pool, k)) is Ok,
        all_succeed(outcomes, failed),
        failed < outcomes.len(),
        outcomes[failed] == CallOutcome::Failed(code),
    ensures
        batch_actions(named, legs, pool, outcomes) == planned_calls(
            named,
            legs,
            pool,
            0,
            failed / 2 + 1,
        ).take(failed + 1) + seq![BatchActionView::Finish(Err(BatchError::CallFailed(code)))],
{
    lemma_actions_until_failed_call(named, legs, pool, 0, failed, code, outcomes);
}

/// Each leg contributes two calls.
pub proof fn lemma_planned_calls_len(
    named: ExecuteArbitrageBatch,
    legs: Seq<ArbitrageParams>,
    pool: Seq<PoolAccount>,
    from: int,
    upto: int,
)
    requires
        from <= upto,
    ensures
        planned_calls(named, legs, pool, from, upto).len() == 2 * (upto - from),
    decreases upto - from,
{
    if from < upto {
        lemma_planned_calls_len(named, legs, pool, from + 1, upto);
    }
}

} // verus!
