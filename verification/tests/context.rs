use openbook_v2_fuzz::address::AccountRef;
use openbook_v2_fuzz::context::{ContextAddresses, FuzzContext, ReferrerId, UserId};
use openbook_v2_fuzz::instruction::{
    CancelAllOrders, CancelOrder, CancelOrderByClientOrderId, ConsumeEvents, ConsumeGivenEvents,
    CreateMarket, Deposit, PlaceOrder, PlaceOrderPegged, PlaceTakeOrder, SettleFunds,
    StubOracleSet, SweepFees,
};
use openbook_v2_fuzz::keys::{associated_token_address, market_address, oracle_address};
use openbook_v2_fuzz::oracle::Decimal;
use openbook_v2_fuzz::position::Position;
use openbook_v2_fuzz::types::{
    MatchError, OrderType, ProgramError, SelfTradeBehavior, Side, INITIAL_BALANCE, NUM_USERS,
};

fn market_params() -> CreateMarket {
    CreateMarket {
        quote_lot_size: 10,
        base_lot_size: 100,
        maker_fee: 0,
        taker_fee: 0,
        book_capacity: 32,
        event_capacity: 32,
    }
}

fn ready_context() -> FuzzContext {
    let mut context = FuzzContext::new(0).unwrap();
    context.initialize().create_market(market_params()).unwrap();
    context
}

fn resting_order(side: Side, price_lots: i64, max_base_lots: i64) -> PlaceOrder {
    PlaceOrder {
        side,
        price_lots,
        max_base_lots,
        max_quote_lots_including_fees: i64::MAX,
        client_order_id: 42,
        order_type: OrderType::Limit,
        self_trade_behavior: SelfTradeBehavior::DecrementBoth,
        expiry_timestamp: 0,
    }
}

fn position_of(context: &FuzzContext, user: usize) -> Position {
    context.state.position(&context.users[user].unwrap().open_orders).unwrap()
}

#[test]
fn new_context_holds_nothing() {
    let context = FuzzContext::new(5).unwrap();
    assert_eq!(context.users.len(), NUM_USERS as usize);
    assert_eq!(context.referrers.len(), NUM_USERS as usize);
    assert!(context.users.iter().all(|u| u.is_none()));
    assert!(context.referrers.iter().all(|r| r.is_none()));
    assert!(context.state.market.is_none());
    assert!(context.state.oracle_price.is_none());
    assert_eq!(context.state.tokens.len(), 0);
    assert_eq!(context.state.open_orders.len(), 0);
    assert_eq!(context.state.event_queue.len(), 0);
    assert_eq!(context.market, market_address(&context.payer, 5).unwrap());
    assert_eq!(context.oracle, oracle_address(&context.admin, &context.base_mint).unwrap());
    assert_eq!(
        context.base_vault,
        associated_token_address(&context.market, &context.base_mint).unwrap()
    );
    assert_eq!(
        context.quote_vault,
        associated_token_address(&context.market, &context.quote_mint).unwrap()
    );
    assert_eq!(
        context.collect_fee_admin_quote_vault,
        associated_token_address(&context.collect_fee_admin, &context.quote_mint).unwrap()
    );
    assert_ne!(context.payer, context.admin);
    assert_ne!(context.bids, context.asks);
    let other = FuzzContext::new(5).unwrap();
    assert_ne!(other.market, context.market);
}

fn plain_address(n: u8) -> AccountRef {
    AccountRef { key: [n; 32] }
}

fn plain_addresses() -> ContextAddresses {
    ContextAddresses {
        payer: plain_address(1),
        admin: plain_address(2),
        base_mint: plain_address(3),
        quote_mint: plain_address(4),
        market: Some(plain_address(5)),
        oracle: Some(plain_address(6)),
        bids: plain_address(7),
        asks: plain_address(8),
        event_queue: plain_address(9),
        base_vault: Some(plain_address(10)),
        quote_vault: Some(plain_address(11)),
        collect_fee_admin: plain_address(12),
        collect_fee_admin_quote_vault: Some(plain_address(13)),
    }
}

#[test]
fn context_is_made_of_the_addresses_it_is_given() {
    let context = FuzzContext::with_addresses(plain_addresses()).unwrap();
    assert_eq!(context.payer, plain_address(1));
    assert_eq!(context.admin, plain_address(2));
    assert_eq!(context.base_mint, plain_address(3));
    assert_eq!(context.quote_mint, plain_address(4));
    assert_eq!(context.market, plain_address(5));
    assert_eq!(context.oracle, plain_address(6));
    assert_eq!(context.bids, plain_address(7));
    assert_eq!(context.asks, plain_address(8));
    assert_eq!(context.event_queue, plain_address(9));
    assert_eq!(context.base_vault, plain_address(10));
    assert_eq!(context.quote_vault, plain_address(11));
    assert_eq!(context.collect_fee_admin, plain_address(12));
    assert_eq!(context.collect_fee_admin_quote_vault, plain_address(13));
    assert_eq!(context.users.len(), NUM_USERS as usize);
    assert!(context.users.iter().all(|u| u.is_none()));
    assert!(context.referrers.iter().all(|r| r.is_none()));
    assert!(context.state.market.is_none());
    assert_eq!(context.state.tokens.len(), 0);
    assert_eq!(context.state.open_orders.len(), 0);
}

#[test]
fn context_needs_every_derived_address() {
    let all = plain_addresses();
    assert!(FuzzContext::with_addresses(ContextAddresses { market: None, ..all }).is_none());
    assert!(FuzzContext::with_addresses(ContextAddresses { oracle: None, ..all }).is_none());
    assert!(FuzzContext::with_addresses(ContextAddresses { base_vault: None, ..all }).is_none());
    assert!(FuzzContext::with_addresses(ContextAddresses { quote_vault: None, ..all }).is_none());
    assert!(FuzzContext::with_addresses(ContextAddresses {
        collect_fee_admin_quote_vault: None,
        ..all
    })
    .is_none());
    assert!(FuzzContext::with_addresses(all).is_some());
    // the host derives every address of a new context
    assert!(FuzzContext::new(3).is_some());
}

#[test]
fn initialize_opens_the_vaults_and_the_oracle() {
    let mut context = FuzzContext::new(0).unwrap();
    context.initialize();
    assert_eq!(context.state.tokens.len(), 3);
    assert_eq!(context.state.token_balance(&context.base_vault), Some(0));
    assert_eq!(context.state.token_balance(&context.quote_vault), Some(0));
    assert_eq!(context.state.token_balance(&context.collect_fee_admin_quote_vault), Some(0));
    assert_eq!(context.state.tokens[0].owner, context.market);
    assert_eq!(context.state.tokens[1].mint, context.quote_mint);
    assert_eq!(context.state.oracle_price, Some(Decimal::one()));
    assert!(context.state.market.is_none());
}

#[test]
fn market_is_created_once_with_valid_parameters() {
    let mut context = FuzzContext::new(0).unwrap();
    context.initialize();
    for bad in [
        CreateMarket { base_lot_size: 0, ..market_params() },
        CreateMarket { quote_lot_size: -1, ..market_params() },
        CreateMarket { taker_fee: -1, ..market_params() },
        CreateMarket { taker_fee: 1_000_001, ..market_params() },
        CreateMarket { maker_fee: 1_000_001, ..market_params() },
        // a rebate above the taker fee
        CreateMarket { maker_fee: -201, taker_fee: 200, ..market_params() },
    ] {
        assert_eq!(context.create_market(bad), Err(ProgramError::InvalidMarketParams));
        assert!(context.state.market.is_none());
    }
    let good = CreateMarket { maker_fee: -200, taker_fee: 200, ..market_params() };
    assert_eq!(context.create_market(good), Ok(()));
    let market = context.state.market.unwrap();
    assert_eq!(market.base_lot_size, 100);
    assert_eq!(market.quote_lot_size, 10);
    assert_eq!(market.maker_fee, -200);
    assert_eq!(market.taker_fee, 200);
    assert_eq!(market.collect_fee_admin, context.collect_fee_admin);
    assert_eq!(market.fees_accrued, 0);
    assert_eq!(market.referrer_rebates_accrued, 0);
    assert_eq!(market.seq_num, 0);
    assert_eq!(context.state.bids.len(), 0);
    assert_eq!(context.state.asks.len(), 0);
    assert_eq!(context.state.event_queue.len(), 0);
    assert_eq!(context.state.bids.capacity, 32);
    assert_eq!(context.state.event_queue.capacity, 32);
    assert_eq!(context.create_market(market_params()), Err(ProgramError::MarketAlreadyCreated));
    assert_eq!(context.state.market.unwrap().taker_fee, 200);
}

#[test]
fn nothing_trades_before_the_market_is_created() {
    let mut context = FuzzContext::new(0).unwrap();
    context.initialize();
    let user = UserId::new(0);
    assert_eq!(
        context.place_order(&user, &resting_order(Side::Bid, 10, 1), None),
        Err(ProgramError::MarketNotCreated)
    );
    assert_eq!(
        context.deposit(&user, &Deposit { base_amount: 1, quote_amount: 1 }),
        Err(ProgramError::MarketNotCreated)
    );
    assert_eq!(
        context.consume_events(&vec![user], &ConsumeEvents { limit: 1 }),
        Err(ProgramError::MarketNotCreated)
    );
    assert_eq!(context.sweep_fees(&SweepFees {}), Err(ProgramError::MarketNotCreated));
    assert_eq!(
        context.settle_funds(&user, &SettleFunds {}, None),
        Err(ProgramError::MarketNotCreated)
    );
    assert_eq!(
        context.cancel_order(&user, &CancelOrder { order_id: 0 }),
        Err(ProgramError::MarketNotCreated)
    );
    // the trader got accounts all the same
    assert!(context.users[0].is_some());
}

#[test]
fn accounts_that_were_never_opened_are_not_found() {
    let mut context = FuzzContext::new(0).unwrap();
    assert_eq!(
        context.stub_oracle_set(&StubOracleSet { price: Decimal::one() }),
        Err(ProgramError::AccountNotFound)
    );
    // without initialize there are no vaults
    context.create_market(market_params()).unwrap();
    assert_eq!(
        context.place_order(&UserId::new(0), &resting_order(Side::Bid, 10, 1), None),
        Err(ProgramError::AccountNotFound)
    );
    assert_eq!(context.sweep_fees(&SweepFees {}), Err(ProgramError::AccountNotFound));
    assert_eq!(context.state.bids.len(), 0);
}

#[test]
fn traders_start_with_the_initial_balance() {
    let mut context = ready_context();
    let user = UserId::new(2);
    context.deposit(&user, &Deposit { base_amount: 0, quote_amount: 0 }).unwrap();
    let accounts = context.users[2].unwrap();
    assert_eq!(context.state.token_balance(&accounts.base_vault), Some(INITIAL_BALANCE));
    assert_eq!(context.state.token_balance(&accounts.quote_vault), Some(INITIAL_BALANCE));
    assert_eq!(position_of(&context, 2), Position::new());
    assert_eq!(context.state.open_orders.len(), 1);
    assert_eq!(context.state.open_orders[0].owner, accounts.owner);
    // the same trader again: no new accounts
    context.deposit(&UserId::new(10), &Deposit { base_amount: 0, quote_amount: 0 }).unwrap();
    assert_eq!(context.state.open_orders.len(), 1);
    assert_eq!(context.state.tokens.len(), 5);
}

#[test]
fn deposit_moves_tokens_into_the_free_balances() {
    let mut context = ready_context();
    let user = UserId::new(1);
    context.deposit(&user, &Deposit { base_amount: 700, quote_amount: 30 }).unwrap();
    let accounts = context.users[1].unwrap();
    assert_eq!(context.state.token_balance(&accounts.base_vault), Some(INITIAL_BALANCE - 700));
    assert_eq!(context.state.token_balance(&accounts.quote_vault), Some(INITIAL_BALANCE - 30));
    assert_eq!(context.state.token_balance(&context.base_vault), Some(700));
    assert_eq!(context.state.token_balance(&context.quote_vault), Some(30));
    let p = position_of(&context, 1);
    assert_eq!(p.base_free_native, 700);
    assert_eq!(p.quote_free_native, 30);
    // more than the token account holds
    assert_eq!(
        context.deposit(&user, &Deposit { base_amount: INITIAL_BALANCE, quote_amount: 0 }),
        Err(ProgramError::Match(MatchError::InsufficientFunds))
    );
    assert_eq!(
        context.deposit(&user, &Deposit { base_amount: 0, quote_amount: u64::MAX }),
        Err(ProgramError::Match(MatchError::ArithmeticOverflow))
    );
    assert_eq!(position_of(&context, 1), p);
    assert_eq!(context.state.token_balance(&context.base_vault), Some(700));
    // a deposit is paid out again by a settlement
    context.settle_funds(&user, &SettleFunds {}, None).unwrap();
    assert_eq!(context.state.token_balance(&accounts.base_vault), Some(INITIAL_BALANCE));
    assert_eq!(context.state.token_balance(&accounts.quote_vault), Some(INITIAL_BALANCE));
    assert_eq!(position_of(&context, 1), Position::new());
}

#[test]
fn order_beyond_the_token_balance_is_refused() {
    let mut context = ready_context();
    let user = UserId::new(0);
    // 1_000_001 lots of 100 native base units
    let big = resting_order(Side::Ask, 10, 10_000_001);
    assert_eq!(
        context.place_order(&user, &big, None),
        Err(ProgramError::Match(MatchError::InsufficientFunds))
    );
    assert_eq!(context.state.asks.len(), 0);
    assert_eq!(position_of(&context, 0), Position::new());
    let fits = resting_order(Side::Ask, 10, 10_000_000);
    assert_eq!(context.place_order(&user, &fits, None), Ok(()));
    let accounts = context.users[0].unwrap();
    assert_eq!(context.state.token_balance(&accounts.base_vault), Some(0));
}

#[test]
fn makers_named_are_settled_with_the_placement() {
    let mut context = ready_context();
    let maker = UserId::new(0);
    let other = UserId::new(1);
    let taker = UserId::new(2);
    context.place_order(&maker, &resting_order(Side::Ask, 10, 1), None).unwrap();
    context.place_order(&other, &resting_order(Side::Ask, 10, 1), None).unwrap();
    context
        .place_order(&taker, &resting_order(Side::Bid, 10, 2), Some(&vec![taker, maker, UserId::new(7)]))
        .unwrap();
    // the fill of the maker named was applied, the other's waits
    assert_eq!(position_of(&context, 0).asks_base_lots, 0);
    assert_eq!(position_of(&context, 0).quote_free_native, 100);
    assert_eq!(position_of(&context, 1).asks_base_lots, 1);
    assert_eq!(context.state.event_queue.len(), 1);
    assert_eq!(context.state.event_queue.peek_head().unwrap().owner(), context.users[1].unwrap().open_orders);
    // the taker itself is not among the accounts that were settled
    assert_eq!(position_of(&context, 2).taker_base_lots, 2);
    assert!(context.users[7].is_none());
}

#[test]
fn maker_accounts_are_those_that_exist_but_for_the_takers() {
    let mut context = ready_context();
    for user in [0u8, 1, 3] {
        context
            .deposit(&UserId::new(user), &Deposit { base_amount: 0, quote_amount: 0 })
            .unwrap();
    }
    let ids = vec![UserId::new(3), UserId::new(2), UserId::new(1), UserId::new(0), UserId::new(9)];
    let all = context.maker_accounts(&ids, None);
    let of = |n: usize| context.users[n].unwrap().open_orders;
    assert_eq!(all, vec![of(3), of(1), of(0), of(1)]);
    let others = context.maker_accounts(&ids, Some(UserId::new(1)));
    assert_eq!(others, vec![of(3), of(0)]);
    assert_eq!(context.maker_accounts(&vec![], None), vec![]);
}

#[test]
fn take_order_never_rests_and_pays_out_at_once() {
    let mut context = ready_context();
    let maker = UserId::new(0);
    let taker = UserId::new(1);
    context.place_order(&maker, &resting_order(Side::Ask, 10, 2), None).unwrap();
    let take = PlaceTakeOrder {
        side: Side::Bid,
        price_lots: 10,
        max_base_lots: 3,
        max_quote_lots_including_fees: i64::MAX,
        fill_or_kill: false,
        self_trade_behavior: SelfTradeBehavior::DecrementBoth,
    };
    context.place_take_order(&taker, &take, None, None).unwrap();
    assert_eq!(context.state.bids.len(), 0);
    assert_eq!(context.state.asks.len(), 0);
    let accounts = context.users[1].unwrap();
    // paid 2 lots at 10, got 2 base lots, both at once
    assert_eq!(context.state.token_balance(&accounts.quote_vault), Some(INITIAL_BALANCE - 200));
    assert_eq!(context.state.token_balance(&accounts.base_vault), Some(INITIAL_BALANCE + 200));
    assert_eq!(position_of(&context, 1).base_free_native, 0);
    let all = PlaceTakeOrder { fill_or_kill: true, ..take };
    assert_eq!(
        context.place_take_order(&taker, &all, None, None),
        Err(ProgramError::Match(MatchError::WouldNotFullyFill))
    );
}

#[test]
fn take_order_whose_settlement_is_refused_fails_whole() {
    let mut context = ready_context();
    let maker = UserId::new(0);
    let taker = UserId::new(1);
    context.place_order(&maker, &resting_order(Side::Ask, 10, 2), None).unwrap();
    context.deposit(&taker, &Deposit { base_amount: 0, quote_amount: 0 }).unwrap();
    // the taker claims more for a referrer than the market holds
    context.state.open_orders[1].position.referrer_rebates_available = 9;
    let before = position_of(&context, 1);
    let accounts = context.users[1].unwrap();
    let take = PlaceTakeOrder {
        side: Side::Bid,
        price_lots: 10,
        max_base_lots: 1,
        max_quote_lots_including_fees: i64::MAX,
        fill_or_kill: false,
        self_trade_behavior: SelfTradeBehavior::DecrementBoth,
    };
    assert_eq!(
        context.place_take_order(&taker, &take, None, None),
        Err(ProgramError::Match(MatchError::ArithmeticOverflow))
    );
    // nothing of the placement stands
    assert_eq!(context.state.asks.len(), 1);
    assert_eq!(context.state.asks.best().unwrap().quantity, 2);
    assert_eq!(context.state.event_queue.len(), 0);
    assert_eq!(position_of(&context, 1), before);
    assert_eq!(context.state.token_balance(&accounts.quote_vault), Some(INITIAL_BALANCE));
    assert_eq!(context.state.market.unwrap().seq_num, 1);
}

#[test]
fn placement_fails_where_the_makers_cannot_be_settled() {
    let mut context = ready_context();
    let maker = UserId::new(0);
    let taker = UserId::new(1);
    context.place_order(&maker, &resting_order(Side::Ask, 10, 2), None).unwrap();
    // the maker's position has lost the lots that rest
    context.state.open_orders[0].position.asks_base_lots = 0;
    assert_eq!(
        context.place_order(&taker, &resting_order(Side::Bid, 10, 1), Some(&vec![maker])),
        Err(ProgramError::Match(MatchError::ArithmeticOverflow))
    );
    assert_eq!(context.state.asks.best().unwrap().quantity, 2);
    assert_eq!(context.state.bids.len(), 0);
    assert_eq!(context.state.event_queue.len(), 0);
    assert_eq!(position_of(&context, 1), Position::new());
    // without the maker named the placement stands and the event waits
    assert_eq!(context.place_order(&taker, &resting_order(Side::Bid, 10, 1), None), Ok(()));
    assert_eq!(context.state.event_queue.len(), 1);
}

#[test]
fn take_order_credits_the_referrer() {
    let mut context = FuzzContext::new(0).unwrap();
    context.initialize();
    context.create_market(CreateMarket { taker_fee: 1000, ..market_params() }).unwrap();
    let maker = UserId::new(0);
    let taker = UserId::new(1);
    let referrer = ReferrerId::new(4);
    context.place_order(&maker, &resting_order(Side::Bid, 100, 5), None).unwrap();
    let take = PlaceTakeOrder {
        side: Side::Ask,
        price_lots: 100,
        max_base_lots: 5,
        max_quote_lots_including_fees: i64::MAX,
        fill_or_kill: true,
        self_trade_behavior: SelfTradeBehavior::DecrementBoth,
    };
    context.place_take_order(&taker, &take, Some(&referrer), Some(&vec![maker])).unwrap();
    // 5 lots at 100 are 5000 native; 0.1% of it is 5; a fifth of the fee is 1
    let account = context.referrers[4].unwrap();
    assert_eq!(context.state.token_balance(&account), Some(1));
    assert_eq!(context.state.market.unwrap().fees_accrued, 4);
    let accounts = context.users[1].unwrap();
    assert_eq!(context.state.token_balance(&accounts.quote_vault), Some(INITIAL_BALANCE + 4995));
    assert_eq!(context.state.token_balance(&accounts.base_vault), Some(INITIAL_BALANCE - 500));
    // the maker's reserve for the fee came back
    assert_eq!(position_of(&context, 0).quote_free_native, 5);
    assert_eq!(position_of(&context, 0).base_free_native, 500);
}

#[test]
fn orders_are_cancelled_for_their_owner() {
    let mut context = ready_context();
    let a = UserId::new(0);
    let b = UserId::new(1);
    context.place_order(&a, &resting_order(Side::Bid, 10, 1), None).unwrap();
    context.place_order(&a, &resting_order(Side::Bid, 9, 1), None).unwrap();
    context.place_order(&a, &resting_order(Side::Ask, 20, 1), None).unwrap();
    context.place_order(&b, &resting_order(Side::Ask, 21, 1), None).unwrap();
    // another trader cannot cancel it, and that is no error
    assert_eq!(context.cancel_order(&b, &CancelOrder { order_id: 0 }), Ok(()));
    assert_eq!(context.state.bids.len(), 2);
    // a trader without accounts has nothing to cancel
    assert_eq!(context.cancel_order(&UserId::new(5), &CancelOrder { order_id: 0 }), Ok(()));
    assert_eq!(context.cancel_all_orders(&UserId::new(5), &CancelAllOrders { limit: 9 }), Ok(()));
    assert!(context.users[5].is_none());
    assert_eq!(context.cancel_order(&a, &CancelOrder { order_id: 0 }), Ok(()));
    assert_eq!(context.state.bids.len(), 1);
    assert_eq!(position_of(&context, 0).quote_free_native, 100);
    assert_eq!(position_of(&context, 0).bids_base_lots, 1);
    assert_eq!(context.state.event_queue.len(), 0);
    assert_eq!(
        context.cancel_order_by_client_order_id(&b, &CancelOrderByClientOrderId { client_order_id: 42 }),
        Ok(())
    );
    assert_eq!(context.state.asks.len(), 1);
    assert_eq!(context.cancel_all_orders(&a, &CancelAllOrders { limit: 1 }), Ok(()));
    assert_eq!(context.state.bids.len(), 0);
    assert_eq!(context.state.asks.len(), 1);
    assert_eq!(context.cancel_all_orders(&a, &CancelAllOrders { limit: 255 }), Ok(()));
    assert_eq!(context.state.asks.len(), 0);
    let p = position_of(&context, 0);
    assert_eq!((p.bids_base_lots, p.asks_base_lots), (0, 0));
    assert_eq!((p.base_free_native, p.quote_free_native), (100, 190));
}

#[test]
fn given_events_are_consumed_by_their_numbers() {
    let mut context = ready_context();
    let maker = UserId::new(0);
    let taker = UserId::new(1);
    context.place_order(&maker, &resting_order(Side::Ask, 10, 3), None).unwrap();
    for _ in 0..3 {
        context.place_order(&taker, &resting_order(Side::Bid, 10, 1), None).unwrap();
    }
    let seqs: Vec<u64> = context.state.event_queue.events.iter().map(|e| e.seq_num()).collect();
    assert_eq!(seqs, vec![1, 2, 3]);
    context
        .consume_given_events(&vec![maker], &ConsumeGivenEvents { seq_nums: vec![3, 1] })
        .unwrap();
    let seqs: Vec<u64> = context.state.event_queue.events.iter().map(|e| e.seq_num()).collect();
    assert_eq!(seqs, vec![2]);
    assert_eq!(position_of(&context, 0).asks_base_lots, 1);
    context.consume_events(&vec![maker], &ConsumeEvents { limit: 0 }).unwrap();
    assert_eq!(context.state.event_queue.len(), 1);
    context.consume_events(&vec![taker, maker], &ConsumeEvents { limit: 1 }).unwrap();
    assert_eq!(context.state.event_queue.len(), 0);
    assert_eq!(position_of(&context, 0).base_position_lots, -3);
    assert_eq!(position_of(&context, 1).base_position_lots, 3);
}

#[test]
fn pegged_orders_follow_the_stub_oracle() {
    let mut context = ready_context();
    let a = UserId::new(0);
    let b = UserId::new(1);
    // the oracle starts at 1 native per native: 10 quote lots per base lot
    assert_eq!(context.state.oracle_price_lots(), Some(10));
    let pegged = PlaceOrderPegged {
        side: Side::Bid,
        price_offset_lots: -2,
        peg_limit: 30,
        max_base_lots: 1,
        max_quote_lots_including_fees: i64::MAX,
        client_order_id: 0,
        order_type: OrderType::Limit,
        self_trade_behavior: SelfTradeBehavior::DecrementBoth,
        expiry_timestamp: 0,
    };
    context.place_order_pegged(&a, &pegged, None).unwrap();
    assert_eq!(context.state.bids.best().unwrap().price_lots, 8);
    context.stub_oracle_set(&StubOracleSet { price: Decimal::from_int(2) }).unwrap();
    assert_eq!(context.state.oracle_price_lots(), Some(20));
    context.place_order(&b, &resting_order(Side::Ask, 18, 1), Some(&vec![a])).unwrap();
    assert_eq!(context.state.asks.len(), 0);
    assert_eq!(context.state.bids.len(), 0);
    // traded at 18; the bid had locked its limit 30
    let p = position_of(&context, 0);
    assert_eq!(p.quote_position_native, -180);
    assert_eq!(p.quote_free_native, 120);
    assert_eq!(p.base_free_native, 100);
}

#[test]
fn resting_orders_expire_with_the_clock() {
    let mut context = ready_context();
    let a = UserId::new(0);
    let b = UserId::new(1);
    let short = PlaceOrder { expiry_timestamp: 10, ..resting_order(Side::Ask, 10, 1) };
    context.place_order(&a, &short, None).unwrap();
    context.state.set_time(11);
    context.place_order(&b, &resting_order(Side::Bid, 10, 1), Some(&vec![a])).unwrap();
    assert_eq!(context.state.asks.len(), 0);
    assert_eq!(context.state.bids.len(), 1);
    // the out event gave the owner the base back
    let p = position_of(&context, 0);
    assert_eq!(p.asks_base_lots, 0);
    assert_eq!(p.base_free_native, 100);
    assert_eq!(p.base_position_lots, 0);
}

#[test]
fn program_error_codes_are_distinct() {
    let all = [
        ProgramError::Match(MatchError::BookFull),
        ProgramError::Match(MatchError::InsufficientFunds),
        ProgramError::AccountNotFound,
        ProgramError::Unauthorized,
        ProgramError::InvalidMarketParams,
        ProgramError::MarketAlreadyCreated,
        ProgramError::MarketNotCreated,
        ProgramError::AddressNotDerived,
    ];
    for (i, a) in all.iter().enumerate() {
        for (j, b) in all.iter().enumerate() {
            assert_eq!(a.code() == b.code(), i == j);
        }
    }
}
