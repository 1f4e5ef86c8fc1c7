use openbook_v2_fuzz::address::AccountRef;
use openbook_v2_fuzz::event_queue::{Event, EventQueue, FillEvent, OutEvent};
use openbook_v2_fuzz::market::Market;
use openbook_v2_fuzz::position::{find_account, OpenOrdersAccount, Position, TakerTotals};
use openbook_v2_fuzz::settlement::{consume_events, settle_funds, sweep_fees, TransferRequest};
use openbook_v2_fuzz::types::{MatchError, ProgramError, Side};

fn settler(n: u8) -> AccountRef {
    AccountRef { key: [n; 32] }
}

fn settle_market() -> Market {
    Market::new(100, 10, 100, 200, settler(99)).unwrap()
}

fn settle_accounts(n: u8) -> Vec<OpenOrdersAccount> {
    (0..n)
        .map(|i| OpenOrdersAccount {
            address: settler(i),
            owner: settler(100 + i),
            position: Position::new(),
        })
        .collect()
}

fn bid_fill(maker: u8, taker: u8, quantity: i64, seq_num: u64) -> Event {
    // one lot at 100 is 1000 native; the maker pays 1 bp, rounded up
    let quote_native = 1000 * quantity;
    Event::Fill(FillEvent {
        maker: settler(maker),
        taker: settler(taker),
        taker_side: Side::Ask,
        maker_out: false,
        maker_order_id: 0,
        price_lots: 100,
        quantity,
        quote_native,
        maker_fee: 1,
        taker_fee: 1,
        maker_base_free: 100 * quantity,
        maker_quote_free: 0,
        timestamp: 0,
        seq_num,
    })
}

fn ask_out(owner: u8, quantity: i64, seq_num: u64) -> Event {
    Event::Out(OutEvent {
        owner: settler(owner),
        side: Side::Ask,
        order_id: 0,
        quantity,
        base_free: 100 * quantity,
        quote_free: 0,
        timestamp: 0,
        seq_num,
    })
}

#[test]
fn settle_funds_pays_out_what_is_free() {
    let mut market = settle_market();
    market.fees_accrued = 50;
    let mut position = Position::new().deposit(300, 70).unwrap();
    position.bids_base_lots = 2;
    position.base_position_lots = -4;
    let r = settle_funds(&mut position, &mut market, false).unwrap();
    assert_eq!(r, TransferRequest { base_native: 300, quote_native: 70, referrer_native: 0 });
    assert_eq!(position.base_free_native, 0);
    assert_eq!(position.quote_free_native, 0);
    assert_eq!(position.bids_base_lots, 2);
    assert_eq!(position.base_position_lots, -4);
    assert_eq!(market.fees_accrued, 50);
}

#[test]
fn settling_twice_transfers_nothing_the_second_time() {
    let mut market = settle_market();
    market.fees_accrued = 50;
    market.referrer_rebates_accrued = 8;
    let mut position = Position::new().deposit(300, 70).unwrap();
    position.referrer_rebates_available = 8;
    let first = settle_funds(&mut position, &mut market, true).unwrap();
    assert_eq!(first, TransferRequest { base_native: 300, quote_native: 70, referrer_native: 8 });
    // the referrer's part is taken out of the fees
    assert_eq!(market.fees_accrued, 42);
    assert_eq!(market.referrer_rebates_accrued, 0);
    let after = position;
    let second = settle_funds(&mut position, &mut market, true).unwrap();
    assert_eq!(second, TransferRequest { base_native: 0, quote_native: 0, referrer_native: 0 });
    assert_eq!(position, after);
    assert_eq!(market.fees_accrued, 42);
    assert_eq!(market.referrer_rebates_accrued, 0);
}

#[test]
fn share_without_a_referrer_stays_with_the_fees() {
    let mut market = settle_market();
    market.fees_accrued = 5;
    market.referrer_rebates_accrued = 7;
    let mut position = Position::new().deposit(10, 20).unwrap();
    position.referrer_rebates_available = 3;
    let r = settle_funds(&mut position, &mut market, false).unwrap();
    // the owner is paid the same with and without a referrer
    assert_eq!(r, TransferRequest { base_native: 10, quote_native: 20, referrer_native: 0 });
    assert_eq!(market.fees_accrued, 5);
    assert_eq!(market.referrer_rebates_accrued, 4);
    assert_eq!(position.referrer_rebates_available, 0);
}

#[test]
fn settlement_that_the_market_cannot_cover_changes_nothing() {
    let mut market = settle_market();
    market.fees_accrued = 5;
    market.referrer_rebates_accrued = 2;
    let mut position = Position::new().deposit(10, 20).unwrap();
    position.referrer_rebates_available = 3;
    let before = position;
    // the account claims more than all accounts together may
    assert_eq!(settle_funds(&mut position, &mut market, true), Err(MatchError::ArithmeticOverflow));
    assert_eq!(position, before);
    assert_eq!((market.fees_accrued, market.referrer_rebates_accrued), (5, 2));
    // the fees were swept: they do not hold the referrer's part
    market.referrer_rebates_accrued = 3;
    market.fees_accrued = 2;
    assert_eq!(settle_funds(&mut position, &mut market, true), Err(MatchError::InsufficientFunds));
    assert_eq!(position, before);
    assert_eq!((market.fees_accrued, market.referrer_rebates_accrued), (2, 3));
    // without a referrer the settlement goes through
    let r = settle_funds(&mut position, &mut market, false).unwrap();
    assert_eq!(r.referrer_native, 0);
    assert_eq!((market.fees_accrued, market.referrer_rebates_accrued), (2, 0));
}

#[test]
fn sweep_is_for_the_fee_admin_only() {
    let mut market = settle_market();
    market.fees_accrued = 77;
    market.referrer_rebates_accrued = 5;
    assert_eq!(sweep_fees(&mut market, &settler(1)), Err(ProgramError::Unauthorized));
    assert_eq!(market.fees_accrued, 77);
    let r = sweep_fees(&mut market, &settler(99)).unwrap();
    assert_eq!(r, TransferRequest { base_native: 0, quote_native: 77, referrer_native: 0 });
    assert_eq!(market.fees_accrued, 0);
    assert_eq!(market.referrer_rebates_accrued, 5);
    // a second sweep right after moves nothing
    let r = sweep_fees(&mut market, &settler(99)).unwrap();
    assert_eq!(r.quote_native, 0);
    assert_eq!(market.fees_accrued, 0);
}

#[test]
fn events_are_applied_in_queue_order_for_the_accounts_supplied() {
    let mut market = settle_market();
    let mut accounts = settle_accounts(3);
    accounts[0].position.bids_base_lots = 5;
    accounts[1].position.asks_base_lots = 2;
    accounts[2].position.bids_base_lots = 1;
    let mut queue = EventQueue::new(8);
    queue.push(bid_fill(0, 9, 2, 0)).unwrap();
    queue.push(ask_out(1, 2, 1)).unwrap();
    queue.push(bid_fill(2, 9, 1, 2)).unwrap();
    queue.push(bid_fill(0, 9, 3, 3)).unwrap();
    let n = consume_events(
        &mut queue,
        &mut market,
        &mut accounts,
        &vec![settler(0), settler(1)],
        None,
        10,
    );
    assert_eq!(n, Ok(3));
    // the event of the account that was not supplied still waits
    assert_eq!(queue.len(), 1);
    assert_eq!(queue.peek_head().unwrap().seq_num(), 2);
    let p = accounts[0].position;
    assert_eq!(p.bids_base_lots, 0);
    assert_eq!(p.base_position_lots, 5);
    assert_eq!(p.quote_position_native, -5000 - 2);
    assert_eq!(p.base_free_native, 500);
    assert_eq!(accounts[1].position.asks_base_lots, 0);
    assert_eq!(accounts[1].position.base_free_native, 200);
    assert_eq!(accounts[2].position.bids_base_lots, 1);
    // the makers' fees accrue when their fills are applied
    assert_eq!(market.fees_accrued, 2);
}

#[test]
fn consumption_stops_at_its_limit() {
    let mut market = settle_market();
    let mut accounts = settle_accounts(1);
    accounts[0].position.bids_base_lots = 5;
    let mut queue = EventQueue::new(8);
    queue.push(bid_fill(0, 9, 2, 0)).unwrap();
    queue.push(bid_fill(0, 9, 3, 1)).unwrap();
    let n = consume_events(&mut queue, &mut market, &mut accounts, &vec![settler(0)], None, 1);
    assert_eq!(n, Ok(1));
    assert_eq!(queue.len(), 1);
    assert_eq!(accounts[0].position.bids_base_lots, 3);
    let n = consume_events(&mut queue, &mut market, &mut accounts, &vec![settler(0)], None, 0);
    assert_eq!(n, Ok(0));
    assert_eq!(queue.len(), 1);
}

#[test]
fn given_events_are_consumed_by_sequence_number() {
    let mut market = settle_market();
    let mut accounts = settle_accounts(2);
    accounts[0].position.bids_base_lots = 5;
    accounts[1].position.bids_base_lots = 5;
    let mut queue = EventQueue::new(8);
    queue.push(bid_fill(0, 9, 1, 10)).unwrap();
    queue.push(bid_fill(1, 9, 1, 11)).unwrap();
    queue.push(bid_fill(0, 9, 1, 12)).unwrap();
    let wanted = vec![12u64, 11];
    let n = consume_events(
        &mut queue,
        &mut market,
        &mut accounts,
        &vec![settler(0)],
        Some(&wanted),
        usize::MAX,
    );
    // 11 belongs to an account that was not supplied
    assert_eq!(n, Ok(1));
    assert_eq!(queue.len(), 2);
    assert_eq!(accounts[0].position.bids_base_lots, 4);
    assert_eq!(accounts[1].position.bids_base_lots, 5);
}

#[test]
fn events_of_unknown_accounts_wait() {
    let mut market = settle_market();
    let mut accounts = settle_accounts(1);
    let mut queue = EventQueue::new(8);
    queue.push(ask_out(7, 1, 0)).unwrap();
    let n = consume_events(&mut queue, &mut market, &mut accounts, &vec![settler(7)], None, 5);
    assert_eq!(n, Ok(0));
    assert_eq!(queue.len(), 1);
    assert_eq!(find_account(&accounts, &settler(7)), None);
    assert_eq!(find_account(&accounts, &settler(0)), Some(0));
}

#[test]
fn an_event_that_does_not_apply_fails_the_consumption_whole() {
    let mut market = settle_market();
    let mut accounts = settle_accounts(2);
    accounts[0].position.bids_base_lots = 2;
    // account 1 has no lots resting: the out event cannot be applied
    let mut queue = EventQueue::new(8);
    queue.push(bid_fill(0, 9, 2, 0)).unwrap();
    queue.push(ask_out(1, 1, 1)).unwrap();
    let before = accounts[0].position;
    let n = consume_events(
        &mut queue,
        &mut market,
        &mut accounts,
        &vec![settler(0), settler(1)],
        None,
        5,
    );
    assert_eq!(n, Err(MatchError::ArithmeticOverflow));
    assert_eq!(queue.len(), 2);
    assert_eq!(accounts[0].position, before);
    assert_eq!(market.fees_accrued, 0);
}

#[test]
fn supplied_accounts_have_their_taken_lots_folded() {
    let mut market = settle_market();
    let mut accounts = settle_accounts(2);
    accounts[0].position.taker_base_lots = -3;
    accounts[0].position.taker_quote_lots = 300;
    accounts[1].position.taker_base_lots = 3;
    let mut queue = EventQueue::new(8);
    let n = consume_events(&mut queue, &mut market, &mut accounts, &vec![settler(0)], None, 5);
    assert_eq!(n, Ok(0));
    assert_eq!(accounts[0].position.base_position_lots, -3);
    assert_eq!(accounts[0].position.quote_position_native, 3000);
    assert_eq!(accounts[0].position.taker_base_lots, 0);
    assert_eq!(accounts[0].position.taker_quote_lots, 0);
    assert_eq!(accounts[1].position.taker_base_lots, 3);
}

#[test]
fn free_balances_never_go_negative() {
    let p = Position::new();
    // an event that would take from a free balance is refused
    let out = OutEvent {
        owner: settler(0),
        side: Side::Bid,
        order_id: 0,
        quantity: 0,
        base_free: 0,
        quote_free: -5,
        timestamp: 0,
        seq_num: 0,
    };
    assert_eq!(p.apply_out(&out), None);
    assert_eq!(p.deposit(-1, 0), None);
    assert_eq!(p.deposit(0, -1), None);
    let totals = TakerTotals {
        base_lots: 1,
        quote_lots: 10,
        base_native: 100,
        quote_native: 100,
        taker_fees: 101,
        fees_to_market: 101,
    };
    // a fee above what was traded would leave a seller with less than nothing
    assert_eq!(p.apply_taker(Side::Ask, &totals, 0, 0), None);
    let fair = TakerTotals { taker_fees: 1, fees_to_market: 1, ..totals };
    let (q, deposit) = p.deposit(30, 0).unwrap().apply_taker(Side::Ask, &fair, 0, 0).unwrap();
    assert_eq!(deposit, 100);
    assert_eq!(q.base_free_native, 30);
    assert_eq!(q.quote_free_native, 99);
    assert!(q.base_free_native >= 0 && q.quote_free_native >= 0);
}
