use anchor_lang::prelude::Pubkey;
use anchor_lang::solana_program::program_option::COption;
use anchor_lang::solana_program::program_pack::Pack;
use anchor_spl::token::spl_token::state::{Account, AccountState};
use dex_arbitrage_router::{
    collect_accounts, derive_venue_addresses, execute_arbitrage_batch, plan_leg,
    resolve_venue_accounts, resume_arbitrage_batch, AccountMeta, AccountRef, Address,
    ArbitrageParams, BatchAction, BatchError, BatchState, BatchStep, CallOutcome, DexType,
    EncodedCall, ExecuteArbitrageBatch, Invocation, MyErrorCode, PoolAccount, RouterState,
    BUY_DISCRIMINATOR, SELL_DISCRIMINATOR,
};

fn at(byte: u8) -> Address {
    Address { bytes: [byte; 32] }
}

fn token_program() -> Address {
    Address { bytes: anchor_spl::token::ID.to_bytes() }
}

fn token_data(mint: &Address, owner: &Address) -> Vec<u8> {
    let account = Account {
        mint: Pubkey::new_from_array(mint.bytes),
        owner: Pubkey::new_from_array(owner.bytes),
        amount: 1,
        delegate: COption::None,
        state: AccountState::Initialized,
        is_native: COption::None,
        delegated_amount: 0,
        close_authority: COption::None,
    };
    let mut data = vec![0u8; Account::LEN];
    account.pack_into_slice(&mut data);
    data
}

fn plain(key: Address) -> PoolAccount {
    PoolAccount { key, owner: at(200), data: vec![9] }
}

fn user() -> Address {
    at(60)
}

fn named(paused: bool) -> ExecuteArbitrageBatch {
    ExecuteArbitrageBatch {
        router_state: RouterState { owner: at(20), is_paused: paused, bump: 1 },
        user: user(),
        user_wsol_account: at(22),
        token_program: token_program(),
        system_program: at(24),
        rent: at(25),
    }
}

fn mint_of(leg: u8) -> Address {
    at(50 + leg)
}

fn user_token_of(leg: u8) -> Address {
    at(70 + leg)
}

/// The eight accounts that leg number `leg` requires, in the order of their
/// roles.
fn required(leg: u8) -> Vec<PoolAccount> {
    let mint = mint_of(leg);
    let venue = derive_venue_addresses(&mint).unwrap();
    let curve = venue.bonding_curve.unwrap();
    vec![
        plain(venue.program),
        plain(venue.global.unwrap()),
        plain(venue.fee_recipient),
        plain(mint),
        plain(curve),
        PoolAccount { key: user_token_of(leg), owner: token_program(), data: token_data(&mint, &user()) },
        plain(venue.event_authority.unwrap()),
        PoolAccount {
            key: venue.associated_bonding_curve.unwrap(),
            owner: token_program(),
            data: token_data(&mint, &curve),
        },
    ]
}

fn leg(number: u8, count: u8) -> ArbitrageParams {
    ArbitrageParams {
        token_mint: mint_of(number),
        amount_in: 5,
        min_wsol_out: 1000 + number as u64,
        buy_dex: DexType::PumpFun,
        sell_dex: DexType::PumpFun,
        accounts_count: count,
        tokens_to_buy: 100 + number as u64,
        max_sol_cost: 200 + number as u64,
        tokens_to_sell: 300 + number as u64,
    }
}

fn four_legs() -> ([ArbitrageParams; 4], Vec<PoolAccount>) {
    let mut pool = Vec::new();
    for number in 0..4 {
        pool.extend(required(number));
    }
    ([leg(0, 8), leg(1, 8), leg(2, 8), leg(3, 8)], pool)
}

fn metas(number: u8) -> Vec<AccountMeta> {
    let venue = derive_venue_addresses(&mint_of(number)).unwrap();
    let ctx = named(false);
    vec![
        AccountMeta { pubkey: venue.global.unwrap(), is_signer: false, is_writable: false },
        AccountMeta { pubkey: venue.fee_recipient, is_signer: false, is_writable: true },
        AccountMeta { pubkey: mint_of(number), is_signer: false, is_writable: false },
        AccountMeta { pubkey: venue.bonding_curve.unwrap(), is_signer: false, is_writable: true },
        AccountMeta {
            pubkey: venue.associated_bonding_curve.unwrap(),
            is_signer: false,
            is_writable: true,
        },
        AccountMeta { pubkey: user_token_of(number), is_signer: false, is_writable: true },
        AccountMeta { pubkey: user(), is_signer: true, is_writable: true },
        AccountMeta { pubkey: ctx.system_program, is_signer: false, is_writable: false },
        AccountMeta { pubkey: ctx.token_program, is_signer: false, is_writable: false },
        AccountMeta { pubkey: ctx.rent, is_signer: false, is_writable: false },
        AccountMeta { pubkey: venue.event_authority.unwrap(), is_signer: false, is_writable: false },
        AccountMeta { pubkey: venue.program, is_signer: false, is_writable: false },
    ]
}

fn payload(tag: [u8; 8], quantity: u64, bound: u64) -> Vec<u8> {
    let mut data = tag.to_vec();
    data.extend_from_slice(&quantity.to_le_bytes());
    data.extend_from_slice(&bound.to_le_bytes());
    data
}

fn handed(places: std::ops::Range<usize>) -> Vec<AccountRef> {
    let mut list: Vec<AccountRef> = places.map(|index| AccountRef::Pool { index }).collect();
    list.extend([AccountRef::User, AccountRef::SystemProgram, AccountRef::TokenProgram, AccountRef::Rent]);
    list
}

fn buy_of(number: u8, places: std::ops::Range<usize>) -> Invocation {
    let venue = derive_venue_addresses(&mint_of(number)).unwrap();
    Invocation {
        call: EncodedCall {
            program_id: venue.program,
            accounts: metas(number),
            data: payload(BUY_DISCRIMINATOR, 100 + number as u64, 200 + number as u64),
        },
        accounts: handed(places),
    }
}

fn sell_of(number: u8, places: std::ops::Range<usize>) -> Invocation {
    let venue = derive_venue_addresses(&mint_of(number)).unwrap();
    Invocation {
        call: EncodedCall {
            program_id: venue.program,
            accounts: metas(number),
            data: payload(SELL_DISCRIMINATOR, 300 + number as u64, 1000 + number as u64),
        },
        accounts: handed(places),
    }
}

fn refused(code: MyErrorCode) -> BatchStep {
    BatchStep {
        state: BatchState::Aborted { error: BatchError::Refused(code) },
        action: BatchAction::Finish(Err(BatchError::Refused(code))),
    }
}

/// Runs a batch, answering each call with the next of `outcomes`, and returns
/// every action in order.
fn run(
    ctx: &ExecuteArbitrageBatch,
    legs: &[ArbitrageParams; 4],
    pool: &[PoolAccount],
    outcomes: &[CallOutcome],
) -> Vec<BatchAction> {
    let mut actions = Vec::new();
    let mut step = execute_arbitrage_batch(ctx, legs, pool);
    let mut next = outcomes.iter();
    loop {
        let over = matches!(step.action, BatchAction::Finish(_));
        actions.push(step.action);
        if over {
            return actions;
        }
        match next.next() {
            Some(outcome) => step = resume_arbitrage_batch(ctx, legs, pool, step.state, *outcome),
            None => return actions,
        }
    }
}

#[test]
fn paused_router_issues_no_call() {
    let (legs, pool) = four_legs();
    let step = execute_arbitrage_batch(&named(true), &legs, &pool);
    assert_eq!(step, refused(MyErrorCode::ContractIsPaused));
    let actions = run(&named(true), &legs, &pool, &[CallOutcome::Succeeded; 8]);
    assert_eq!(
        actions,
        vec![BatchAction::Finish(Err(BatchError::Refused(MyErrorCode::ContractIsPaused)))]
    );
}

#[test]
fn paused_router_refuses_even_an_empty_pool() {
    let (legs, _) = four_legs();
    assert_eq!(
        execute_arbitrage_batch(&named(true), &legs, &[]),
        refused(MyErrorCode::ContractIsPaused)
    );
}

#[test]
fn complete_batch_issues_eight_calls_in_order() {
    let (legs, pool) = four_legs();
    let actions = run(&named(false), &legs, &pool, &[CallOutcome::Succeeded; 8]);
    assert_eq!(
        actions,
        vec![
            BatchAction::Invoke(buy_of(0, 0..8)),
            BatchAction::Invoke(sell_of(0, 0..8)),
            BatchAction::Invoke(buy_of(1, 8..16)),
            BatchAction::Invoke(sell_of(1, 8..16)),
            BatchAction::Invoke(buy_of(2, 16..24)),
            BatchAction::Invoke(sell_of(2, 16..24)),
            BatchAction::Invoke(buy_of(3, 24..32)),
            BatchAction::Invoke(sell_of(3, 24..32)),
            BatchAction::Finish(Ok(())),
        ]
    );
}

#[test]
fn states_follow_the_leg_under_way() {
    let (legs, pool) = four_legs();
    let ctx = named(false);
    let step = execute_arbitrage_batch(&ctx, &legs, &pool);
    assert_eq!(
        step.state,
        BatchState::BuyInvoked { leg: 0, next_offset: 8, sell: sell_of(0, 0..8) }
    );
    let step = resume_arbitrage_batch(&ctx, &legs, &pool, step.state, CallOutcome::Succeeded);
    assert_eq!(step.state, BatchState::SellInvoked { leg: 0, next_offset: 8 });
    assert_eq!(step.action, BatchAction::Invoke(sell_of(0, 0..8)));
    let step = resume_arbitrage_batch(&ctx, &legs, &pool, step.state, CallOutcome::Succeeded);
    assert_eq!(
        step.state,
        BatchState::BuyInvoked { leg: 1, next_offset: 16, sell: sell_of(1, 8..16) }
    );
    assert_eq!(step.action, BatchAction::Invoke(buy_of(1, 8..16)));
}

#[test]
fn last_sell_completes_the_batch() {
    let (legs, pool) = four_legs();
    let state = BatchState::SellInvoked { leg: 3, next_offset: 32 };
    let step = resume_arbitrage_batch(&named(false), &legs, &pool, state, CallOutcome::Succeeded);
    assert_eq!(step, BatchStep { state: BatchState::Done, action: BatchAction::Finish(Ok(())) });
}

#[test]
fn finished_batch_stays_finished() {
    let (legs, pool) = four_legs();
    let ctx = named(false);
    for outcome in [CallOutcome::Succeeded, CallOutcome::Failed(3)] {
        let step = resume_arbitrage_batch(&ctx, &legs, &pool, BatchState::Done, outcome);
        assert_eq!(step, BatchStep { state: BatchState::Done, action: BatchAction::Finish(Ok(())) });
        let error = BatchError::CallFailed(17);
        let step =
            resume_arbitrage_batch(&ctx, &legs, &pool, BatchState::Aborted { error }, outcome);
        assert_eq!(
            step,
            BatchStep { state: BatchState::Aborted { error }, action: BatchAction::Finish(Err(error)) }
        );
    }
}

#[test]
fn failed_buy_ends_the_batch() {
    let (legs, pool) = four_legs();
    let actions = run(&named(false), &legs, &pool, &[CallOutcome::Failed(6001); 8]);
    assert_eq!(
        actions,
        vec![
            BatchAction::Invoke(buy_of(0, 0..8)),
            BatchAction::Finish(Err(BatchError::CallFailed(6001))),
        ]
    );
}

#[test]
fn failed_sell_ends_the_batch() {
    let (legs, pool) = four_legs();
    let outcomes = [
        CallOutcome::Succeeded,
        CallOutcome::Succeeded,
        CallOutcome::Succeeded,
        CallOutcome::Failed(u64::MAX),
        CallOutcome::Succeeded,
        CallOutcome::Succeeded,
    ];
    let actions = run(&named(false), &legs, &pool, &outcomes);
    assert_eq!(
        actions,
        vec![
            BatchAction::Invoke(buy_of(0, 0..8)),
            BatchAction::Invoke(sell_of(0, 0..8)),
            BatchAction::Invoke(buy_of(1, 8..16)),
            BatchAction::Invoke(sell_of(1, 8..16)),
            BatchAction::Finish(Err(BatchError::CallFailed(u64::MAX))),
        ]
    );
}

#[test]
fn pool_too_short_for_the_first_leg_issues_no_call() {
    let (legs, pool) = four_legs();
    let step = execute_arbitrage_batch(&named(false), &legs, &pool[..7]);
    assert_eq!(step, refused(MyErrorCode::InsufficientAccounts));
}

#[test]
fn pool_too_short_for_the_last_leg_ends_the_batch_there() {
    let (legs, pool) = four_legs();
    let actions = run(&named(false), &legs, &pool[..31], &[CallOutcome::Succeeded; 8]);
    assert_eq!(actions.len(), 7);
    assert_eq!(actions[5], BatchAction::Invoke(sell_of(2, 16..24)));
    assert_eq!(
        actions[6],
        BatchAction::Finish(Err(BatchError::Refused(MyErrorCode::InsufficientAccounts)))
    );
}

#[test]
fn legs_take_their_ranges_one_after_another() {
    let mut pool = Vec::new();
    pool.extend(required(0));
    pool.push(plain(at(150)));
    pool.push(plain(at(151)));
    pool.extend(required(1));
    pool.extend(required(2));
    pool.push(plain(at(152)));
    pool.extend(required(3));
    let legs = [leg(0, 10), leg(1, 8), leg(2, 9), leg(3, 8)];
    let actions = run(&named(false), &legs, &pool, &[CallOutcome::Succeeded; 8]);
    assert_eq!(actions.len(), 9);
    assert_eq!(actions[0], BatchAction::Invoke(buy_of(0, 0..8)));
    assert_eq!(actions[2], BatchAction::Invoke(buy_of(1, 10..18)));
    assert_eq!(actions[4], BatchAction::Invoke(buy_of(2, 18..26)));
    assert_eq!(actions[6], BatchAction::Invoke(buy_of(3, 27..35)));
    assert_eq!(actions[8], BatchAction::Finish(Ok(())));
}

#[test]
fn accounts_of_one_leg_do_not_serve_another() {
    let (mut legs, pool) = four_legs();
    legs[0].accounts_count = 7;
    legs[1].accounts_count = 9;
    let step = execute_arbitrage_batch(&named(false), &legs, &pool);
    assert_eq!(step, refused(MyErrorCode::AssociatedAccountNotFound));
}

#[test]
fn missing_account_in_the_third_leg_ends_the_batch_there() {
    let (mut legs, mut pool) = four_legs();
    pool.remove(16 + 3);
    legs[2].accounts_count = 7;
    let actions = run(&named(false), &legs, &pool, &[CallOutcome::Succeeded; 8]);
    assert_eq!(
        actions,
        vec![
            BatchAction::Invoke(buy_of(0, 0..8)),
            BatchAction::Invoke(sell_of(0, 0..8)),
            BatchAction::Invoke(buy_of(1, 8..16)),
            BatchAction::Invoke(sell_of(1, 8..16)),
            BatchAction::Finish(Err(BatchError::Refused(MyErrorCode::MintAccountNotFound))),
        ]
    );
}

#[test]
fn missing_fee_recipient_in_the_first_leg_issues_no_call() {
    let (mut legs, mut pool) = four_legs();
    pool.remove(2);
    legs[0].accounts_count = 7;
    let step = execute_arbitrage_batch(&named(false), &legs, &pool);
    assert_eq!(step, refused(MyErrorCode::AccountNotFound));
}

#[test]
fn missing_associated_account_in_the_first_leg_issues_no_call() {
    let (mut legs, mut pool) = four_legs();
    pool.remove(7);
    legs[0].accounts_count = 7;
    let step = execute_arbitrage_batch(&named(false), &legs, &pool);
    assert_eq!(step, refused(MyErrorCode::AssociatedAccountNotFound));
}

#[test]
fn missing_associated_account_in_the_last_leg_ends_the_batch_there() {
    let (mut legs, mut pool) = four_legs();
    pool.remove(24 + 7);
    legs[3].accounts_count = 7;
    let actions = run(&named(false), &legs, &pool, &[CallOutcome::Succeeded; 8]);
    assert_eq!(actions.len(), 7);
    assert_eq!(actions[5], BatchAction::Invoke(sell_of(2, 16..24)));
    assert_eq!(
        actions[6],
        BatchAction::Finish(Err(BatchError::Refused(MyErrorCode::AssociatedAccountNotFound)))
    );
}

#[test]
fn pool_is_read_only_to_enter_a_leg() {
    let (legs, pool) = four_legs();
    let ctx = named(false);
    let step = execute_arbitrage_batch(&ctx, &legs, &pool);
    assert!(!step.state.reads_pool());
    let step = resume_arbitrage_batch(&ctx, &legs, &[], step.state, CallOutcome::Succeeded);
    assert_eq!(step.action, BatchAction::Invoke(sell_of(0, 0..8)));
    assert!(step.state.reads_pool());
    let step = resume_arbitrage_batch(&ctx, &legs, &pool, step.state, CallOutcome::Succeeded);
    assert_eq!(step.action, BatchAction::Invoke(buy_of(1, 8..16)));
    assert!(!step.state.reads_pool());
    assert!(!BatchState::Done.reads_pool());
    assert!(!BatchState::Aborted { error: BatchError::CallFailed(1) }.reads_pool());
}

#[test]
fn one_leg_among_unrelated_accounts_issues_buy_then_sell() {
    let mut pool = required(0);
    pool.push(plain(at(150)));
    pool.push(plain(at(151)));
    pool.push(plain(at(152)));
    pool.swap(0, 9);
    pool.swap(3, 10);
    pool.swap(5, 8);
    pool.rotate_left(4);
    let legs = [leg(0, 11), leg(1, 0), leg(2, 0), leg(3, 0)];
    let actions = run(&named(false), &legs, &pool, &[CallOutcome::Succeeded; 8]);
    assert_eq!(actions.len(), 3);
    let (buy, sell) = match (&actions[0], &actions[1]) {
        (BatchAction::Invoke(buy), BatchAction::Invoke(sell)) => (buy, sell),
        other => panic!("expected two calls, got {:?}", other),
    };
    assert_eq!(buy.call, buy_of(0, 0..0).call);
    assert_eq!(sell.call, sell_of(0, 0..0).call);
    assert_eq!(buy.call.accounts, metas(0));
    assert_eq!(sell.call.accounts, metas(0));
    let unrelated = [at(150), at(151), at(152)];
    for reference in &buy.accounts {
        if let AccountRef::Pool { index } = reference {
            assert!(!unrelated.contains(&pool[*index].key));
        }
    }
    assert_eq!(buy.accounts.len(), 8 + 4);
    assert_eq!(buy.accounts, sell.accounts);
    assert_eq!(
        actions[2],
        BatchAction::Finish(Err(BatchError::Refused(MyErrorCode::AccountNotFound)))
    );
}

#[test]
fn unsupported_buy_venue_issues_no_call_whatever_the_pool() {
    let (mut legs, pool) = four_legs();
    legs[0].buy_dex = DexType::Meteora;
    assert_eq!(
        execute_arbitrage_batch(&named(false), &legs, &pool),
        refused(MyErrorCode::InvalidDexType)
    );
    legs[0].accounts_count = 0;
    assert_eq!(
        execute_arbitrage_batch(&named(false), &legs, &[]),
        refused(MyErrorCode::InvalidDexType)
    );
    legs[0].accounts_count = 3;
    let junk = vec![plain(at(1)), plain(at(2)), plain(at(3))];
    assert_eq!(
        execute_arbitrage_batch(&named(false), &legs, &junk),
        refused(MyErrorCode::InvalidDexType)
    );
}

#[test]
fn unsupported_sell_venue_issues_no_call() {
    let (mut legs, pool) = four_legs();
    legs[0].sell_dex = DexType::Meteora;
    assert_eq!(
        execute_arbitrage_batch(&named(false), &legs, &pool),
        refused(MyErrorCode::InvalidDexType)
    );
}

#[test]
fn unsupported_venue_in_a_later_leg_ends_the_batch_there() {
    let (mut legs, pool) = four_legs();
    legs[1].buy_dex = DexType::Meteora;
    let actions = run(&named(false), &legs, &pool, &[CallOutcome::Succeeded; 8]);
    assert_eq!(
        actions,
        vec![
            BatchAction::Invoke(buy_of(0, 0..8)),
            BatchAction::Invoke(sell_of(0, 0..8)),
            BatchAction::Finish(Err(BatchError::Refused(MyErrorCode::InvalidDexType))),
        ]
    );
}

#[test]
fn short_pool_is_reported_before_an_unsupported_venue() {
    let (mut legs, pool) = four_legs();
    legs[0].buy_dex = DexType::Meteora;
    assert_eq!(
        execute_arbitrage_batch(&named(false), &legs, &pool[..5]),
        refused(MyErrorCode::InsufficientAccounts)
    );
}

#[test]
fn plan_of_a_leg_holds_both_calls() {
    let (legs, pool) = four_legs();
    let plan = plan_leg(&named(false), &legs[1], &pool, 8).unwrap();
    assert_eq!(plan.buy, buy_of(1, 8..16));
    assert_eq!(plan.sell, sell_of(1, 8..16));
    assert_eq!(plan.end, 16);
    assert_eq!(plan_leg(&named(false), &legs[1], &pool, 0), Err(MyErrorCode::MintAccountNotFound));
    assert_eq!(plan_leg(&named(false), &legs[1], &pool, 25), Err(MyErrorCode::InsufficientAccounts));
}

#[test]
fn token_shaped_accounts_go_along_with_the_calls() {
    let mut pool = required(0);
    pool.insert(0, plain(at(150)));
    pool.push(PoolAccount { key: at(151), owner: token_program(), data: token_data(&at(1), &at(2)) });
    pool.push(PoolAccount { key: at(152), owner: token_program(), data: vec![0u8; 164] });
    pool.push(PoolAccount { key: at(153), owner: at(9), data: token_data(&at(1), &at(2)) });
    let resolved = resolve_venue_accounts(&pool, DexType::PumpFun, &mint_of(0), &user()).unwrap();
    let list = collect_accounts(&pool, 40, &resolved);
    let mut expected: Vec<AccountRef> = (41..49).map(|index| AccountRef::Pool { index }).collect();
    expected.push(AccountRef::Pool { index: 49 });
    expected.extend([AccountRef::User, AccountRef::SystemProgram, AccountRef::TokenProgram, AccountRef::Rent]);
    assert_eq!(list, expected);
}

#[test]
fn named_accounts_go_along_even_with_no_entries() {
    let pool = required(0);
    let resolved = resolve_venue_accounts(&pool, DexType::PumpFun, &mint_of(0), &user()).unwrap();
    assert_eq!(
        collect_accounts(&[], 0, &resolved),
        vec![AccountRef::User, AccountRef::SystemProgram, AccountRef::TokenProgram, AccountRef::Rent]
    );
}
