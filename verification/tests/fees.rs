use openbook_v2_fuzz::context::{FuzzContext, ReferrerId, UserId};
use openbook_v2_fuzz::instruction::{
    ConsumeEvents, CreateMarket, PlaceOrder, SettleFunds, StubOracleSet, SweepFees,
};
use openbook_v2_fuzz::oracle::Decimal;
use openbook_v2_fuzz::position::Position;
use openbook_v2_fuzz::types::{
    MatchError, OrderType, ProgramError, SelfTradeBehavior, Side, INITIAL_BALANCE,
};

fn fee_context(maker_fee: i64, taker_fee: i64) -> FuzzContext {
    let mut context = FuzzContext::new(1).unwrap();
    context.initialize();
    context
        .create_market(CreateMarket {
            quote_lot_size: 10,
            base_lot_size: 100,
            maker_fee,
            taker_fee,
            book_capacity: 1024,
            event_capacity: 600,
        })
        .unwrap();
    context
}

fn fee_order(side: Side, price_lots: i64) -> PlaceOrder {
    PlaceOrder {
        side,
        price_lots,
        max_base_lots: 1,
        max_quote_lots_including_fees: 10000,
        client_order_id: 0,
        order_type: OrderType::Limit,
        self_trade_behavior: SelfTradeBehavior::DecrementBoth,
        expiry_timestamp: 0,
    }
}

fn fee_position(context: &FuzzContext, user: usize) -> Position {
    let accounts = context.users[user].unwrap();
    context.state.position(&accounts.open_orders).unwrap()
}

#[test]
fn test_fees_acrued() {
    let mut context = fee_context(100, 200);

    let price_lots = context
        .state
        .market
        .unwrap()
        .native_price_to_lot(Decimal::from_int(1000))
        .unwrap();
    assert_eq!(price_lots, 10000);

    // Set the initial oracle price
    context
        .stub_oracle_set(&StubOracleSet { price: Decimal::from_int(1000) })
        .unwrap();

    let account_0 = UserId::new(0);
    let account_1 = UserId::new(1);

    context
        .place_order(&account_0, &fee_order(Side::Bid, price_lots), None)
        .unwrap();
    context
        .place_order(&account_1, &fee_order(Side::Ask, price_lots), None)
        .unwrap();

    {
        let open_orders_account_0 = fee_position(&context, 0);
        let open_orders_account_1 = fee_position(&context, 1);

        println!("base_position_lots {}", open_orders_account_0.base_position_lots);
        println!("quote_position_native {}", open_orders_account_0.quote_position_native);

        assert_eq!(open_orders_account_0.base_position_lots, 0);
        assert_eq!(open_orders_account_1.base_position_lots, 0);
        assert_eq!(open_orders_account_0.quote_position_native, 0);
        assert_eq!(open_orders_account_0.bids_base_lots, 1);
        assert_eq!(open_orders_account_1.bids_base_lots, 0);
        assert_eq!(open_orders_account_0.asks_base_lots, 0);
        assert_eq!(open_orders_account_1.asks_base_lots, 0);
        assert_eq!(open_orders_account_0.taker_base_lots, 0);
        assert_eq!(open_orders_account_1.taker_quote_lots, 10000);
        assert_eq!(open_orders_account_0.base_free_native, 0);
        assert_eq!(open_orders_account_1.base_free_native, 0);
        assert_eq!(open_orders_account_0.quote_free_native, 0);
        assert_eq!(open_orders_account_1.quote_free_native, 99980);
    }

    {
        let market_acc = context.state.market.unwrap();
        println!("xxx {}", market_acc.fees_accrued);
    }

    context
        .consume_events(&vec![account_0, account_1], &ConsumeEvents { limit: 10 })
        .unwrap();

    {
        let open_orders_account_0 = fee_position(&context, 0);
        let open_orders_account_1 = fee_position(&context, 1);

        println!("0 base_position_lots {}", open_orders_account_0.base_position_lots);
        println!("0 quote_position_native {}", open_orders_account_0.quote_position_native);
        println!("1 base_position_lots {}", open_orders_account_1.base_position_lots);
        println!("1 quote_position_native {}", open_orders_account_1.quote_position_native);

        assert_eq!(open_orders_account_0.base_position_lots, 1);
        assert_eq!(open_orders_account_1.base_position_lots, -1);
        assert_eq!(open_orders_account_0.quote_position_native, -100_010);
        assert_eq!(open_orders_account_0.bids_base_lots, 0);
        assert_eq!(open_orders_account_1.bids_base_lots, 0);
        assert_eq!(open_orders_account_0.asks_base_lots, 0);
        assert_eq!(open_orders_account_1.asks_base_lots, 0);
        assert_eq!(open_orders_account_0.taker_base_lots, 0);
        assert_eq!(open_orders_account_1.taker_quote_lots, 0);
        assert_eq!(open_orders_account_0.base_free_native, 100);
        assert_eq!(open_orders_account_1.base_free_native, 0);
        assert_eq!(open_orders_account_0.quote_free_native, 10);
        assert_eq!(open_orders_account_1.quote_free_native, 99980);
    }
}

fn fees_of(context: &FuzzContext) -> (i64, i64) {
    let market = context.state.market.unwrap();
    (market.fees_accrued, market.referrer_rebates_accrued)
}

#[test]
fn crossing_orders_trade_and_fees_accrue() {
    // maker fee zero: the fees grow by the taker fee alone, 2 bps of 100_000;
    // a fifth of it is the taker's to claim for a referrer
    let mut context = fee_context(0, 200);
    let a = UserId::new(0);
    let b = UserId::new(1);
    context.place_order(&a, &fee_order(Side::Bid, 10000), None).unwrap();
    assert_eq!(context.state.market.unwrap().fees_accrued, 0);
    context.place_order(&b, &fee_order(Side::Ask, 10000), None).unwrap();
    assert_eq!(fees_of(&context), (20, 4));
    context
        .consume_events(&vec![a, b], &ConsumeEvents { limit: 8 })
        .unwrap();
    let pa = fee_position(&context, 0);
    let pb = fee_position(&context, 1);
    assert_eq!(pa.base_position_lots, 1);
    assert_eq!(pb.base_position_lots, -1);
    assert_eq!(pa.bids_base_lots + pa.asks_base_lots, 0);
    assert_eq!(pb.bids_base_lots + pb.asks_base_lots, 0);
    assert_eq!(fees_of(&context), (20, 4));
    // no referrer comes: the taker's settlement leaves the fees as they are
    context.settle_funds(&b, &SettleFunds {}, None).unwrap();
    assert_eq!(fees_of(&context), (20, 0));
    assert_eq!(context.state.bids.len(), 0);
    assert_eq!(context.state.asks.len(), 0);
    assert_eq!(context.state.event_queue.len(), 0);
    // value is conserved: what the two positions lost in quote is the fees
    assert_eq!(pa.quote_position_native + pb.quote_position_native + 20, 0);
    assert_eq!(pa.base_position_lots + pb.base_position_lots, 0);
}

#[test]
fn maker_fee_accrues_when_the_fill_is_applied() {
    let mut context = fee_context(100, 200);
    let a = UserId::new(0);
    let b = UserId::new(1);
    context.place_order(&a, &fee_order(Side::Bid, 10000), None).unwrap();
    context.place_order(&b, &fee_order(Side::Ask, 10000), None).unwrap();
    assert_eq!(fees_of(&context), (20, 4));
    context
        .consume_events(&vec![a], &ConsumeEvents { limit: 8 })
        .unwrap();
    assert_eq!(fees_of(&context), (30, 4));
    let pa = fee_position(&context, 0);
    let pb = fee_position(&context, 1);
    // the taker was not supplied: its lots wait to be folded
    assert_eq!(pb.taker_base_lots, -1);
    assert_eq!(pb.base_position_lots, 0);
    assert_eq!(pb.quote_position_native, -20);
    assert_eq!(pa.quote_position_native, -100_010);
    context
        .consume_events(&vec![b], &ConsumeEvents { limit: 8 })
        .unwrap();
    let pb = fee_position(&context, 1);
    assert_eq!(pb.base_position_lots, -1);
    assert_eq!(pb.quote_position_native, 99_980);
    assert_eq!(pa.quote_position_native + pb.quote_position_native + 30, 0);
}

#[test]
fn maker_rebate_is_paid_from_the_taker_fee() {
    // makers are paid 1 bp, takers pay 2 bps
    let mut context = fee_context(-100, 200);
    let a = UserId::new(0);
    let b = UserId::new(1);
    context.place_order(&a, &fee_order(Side::Ask, 10000), None).unwrap();
    context.place_order(&b, &fee_order(Side::Bid, 10000), Some(&vec![a])).unwrap();
    // taker fee 20 less rebate 10; a fifth of the taker fee may be claimed
    assert_eq!(fees_of(&context), (10, 4));
    let pa = fee_position(&context, 0);
    assert_eq!(pa.quote_free_native, 100_010);
    assert_eq!(pa.quote_position_native, 100_010);
    assert_eq!(pa.base_position_lots, -1);
    assert_eq!(pa.asks_base_lots, 0);
    let pb = fee_position(&context, 1);
    assert_eq!(pb.base_free_native, 100);
    assert_eq!(pb.quote_position_native, -20);
    assert_eq!(pb.taker_quote_lots, -10000);
    assert_eq!(context.state.event_queue.len(), 0);
}

#[test]
fn tokens_follow_the_trade_and_the_vault_keeps_the_fees() {
    let mut context = fee_context(100, 200);
    let a = UserId::new(0);
    let b = UserId::new(1);
    context.place_order(&a, &fee_order(Side::Bid, 10000), None).unwrap();
    context.place_order(&b, &fee_order(Side::Ask, 10000), None).unwrap();
    let ua = context.users[0].unwrap();
    let ub = context.users[1].unwrap();
    assert_eq!(context.state.token_balance(&ua.quote_vault), Some(INITIAL_BALANCE - 100_020));
    assert_eq!(context.state.token_balance(&ua.base_vault), Some(INITIAL_BALANCE));
    assert_eq!(context.state.token_balance(&ub.base_vault), Some(INITIAL_BALANCE - 100));
    assert_eq!(context.state.token_balance(&context.quote_vault), Some(100_020));
    assert_eq!(context.state.token_balance(&context.base_vault), Some(100));
    context
        .consume_events(&vec![a, b], &ConsumeEvents { limit: 8 })
        .unwrap();
    context.settle_funds(&a, &SettleFunds {}, None).unwrap();
    context.settle_funds(&b, &SettleFunds {}, None).unwrap();
    assert_eq!(context.state.token_balance(&ua.base_vault), Some(INITIAL_BALANCE + 100));
    assert_eq!(context.state.token_balance(&ua.quote_vault), Some(INITIAL_BALANCE - 100_010));
    assert_eq!(context.state.token_balance(&ub.quote_vault), Some(INITIAL_BALANCE + 99_980));
    assert_eq!(context.state.token_balance(&context.base_vault), Some(0));
    // what is left in the vault is the fees
    assert_eq!(context.state.token_balance(&context.quote_vault), Some(30));
    assert_eq!(context.state.market.unwrap().fees_accrued, 30);
    assert_eq!(fee_position(&context, 0).quote_free_native, 0);
    assert_eq!(fee_position(&context, 0).base_free_native, 0);

    // a second settlement moves nothing
    context.settle_funds(&a, &SettleFunds {}, None).unwrap();
    assert_eq!(context.state.token_balance(&ua.base_vault), Some(INITIAL_BALANCE + 100));
    assert_eq!(context.state.token_balance(&ua.quote_vault), Some(INITIAL_BALANCE - 100_010));
    assert_eq!(context.state.token_balance(&context.quote_vault), Some(30));

    context.sweep_fees(&SweepFees {}).unwrap();
    assert_eq!(context.state.market.unwrap().fees_accrued, 0);
    assert_eq!(context.state.token_balance(&context.quote_vault), Some(0));
    assert_eq!(
        context.state.token_balance(&context.collect_fee_admin_quote_vault),
        Some(30)
    );
}

#[test]
fn referrer_cannot_be_paid_from_fees_that_were_swept() {
    let mut context = fee_context(0, 200);
    let a = UserId::new(0);
    let b = UserId::new(1);
    let referrer = ReferrerId::new(2);
    context.place_order(&a, &fee_order(Side::Bid, 10000), None).unwrap();
    context.place_order(&b, &fee_order(Side::Ask, 10000), None).unwrap();
    // a sweep pays all the fees
    context.sweep_fees(&SweepFees {}).unwrap();
    assert_eq!(fees_of(&context), (0, 4));
    assert_eq!(
        context.state.token_balance(&context.collect_fee_admin_quote_vault),
        Some(20)
    );
    let before = fee_position(&context, 1);
    assert_eq!(
        context.settle_funds(&b, &SettleFunds {}, Some(&referrer)),
        Err(ProgramError::Match(MatchError::InsufficientFunds))
    );
    assert_eq!(fee_position(&context, 1), before);
    assert_eq!(fees_of(&context), (0, 4));
    let account = context.referrers[2].unwrap();
    assert_eq!(context.state.token_balance(&account), Some(0));
    // without a referrer the taker is paid
    context.settle_funds(&b, &SettleFunds {}, None).unwrap();
    assert_eq!(fee_position(&context, 1).quote_free_native, 0);
    assert_eq!(fees_of(&context), (0, 0));
}

#[test]
fn referrer_on_record_is_paid_again() {
    let mut context = fee_context(0, 200);
    let a = UserId::new(0);
    let b = UserId::new(1);
    let referrer = ReferrerId::new(2);
    context.place_order(&a, &fee_order(Side::Bid, 10000), None).unwrap();
    context.place_order(&b, &fee_order(Side::Ask, 10000), None).unwrap();
    context.settle_funds(&b, &SettleFunds {}, Some(&referrer)).unwrap();
    let account = context.referrers[2].unwrap();
    let tokens = context.state.tokens.len();
    context.consume_events(&vec![a], &ConsumeEvents { limit: 8 }).unwrap();
    context.place_order(&a, &fee_order(Side::Bid, 10000), None).unwrap();
    context.place_order(&b, &fee_order(Side::Ask, 10000), None).unwrap();
    context.settle_funds(&b, &SettleFunds {}, Some(&referrer)).unwrap();
    // the same account, and no new one was opened
    assert_eq!(context.referrers[2], Some(account));
    assert_eq!(context.state.tokens.len(), tokens);
    assert_eq!(context.state.token_balance(&account), Some(8));
    // a settlement right after moves nothing
    let balances: Vec<u64> = context.state.tokens.iter().map(|t| t.amount).collect();
    let position = fee_position(&context, 1);
    context.settle_funds(&b, &SettleFunds {}, Some(&referrer)).unwrap();
    assert_eq!(context.state.tokens.iter().map(|t| t.amount).collect::<Vec<u64>>(), balances);
    assert_eq!(fee_position(&context, 1), position);
}

#[test]
fn referrer_is_paid_a_fifth_of_the_taker_fee() {
    let mut context = fee_context(0, 200);
    let a = UserId::new(0);
    let b = UserId::new(1);
    let referrer = ReferrerId::new(3);
    context.place_order(&a, &fee_order(Side::Bid, 10000), None).unwrap();
    context.place_order(&b, &fee_order(Side::Ask, 10000), None).unwrap();
    assert_eq!(fee_position(&context, 1).referrer_rebates_available, 4);
    context.settle_funds(&b, &SettleFunds {}, Some(&referrer)).unwrap();
    let account = context.referrers[3].unwrap();
    assert_eq!(context.state.token_balance(&account), Some(4));
    // the referrer's fifth was taken out of the fees
    assert_eq!(fees_of(&context), (16, 0));
    assert_eq!(fee_position(&context, 1).referrer_rebates_available, 0);
    // settling again pays the referrer nothing more
    context.settle_funds(&b, &SettleFunds {}, Some(&referrer)).unwrap();
    assert_eq!(context.state.token_balance(&account), Some(4));
    assert_eq!(context.state.market.unwrap().fees_accrued, 16);
}
