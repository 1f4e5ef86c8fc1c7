use vstd::prelude::*;
use crate::address::AccountRef;
use crate::book_side::{seqs_under, BookSide};
use crate::event_queue::{Event, EventQueue};
use crate::instruction::CreateMarket;
use crate::market::Market;
use crate::oracle::{native_price_to_lot_spec, Decimal};
use crate::order::Order;
use crate::position::{
    accounts_ok, claims, find_account, first_account, lemma_claims_push, OpenOrdersAccount,
    Position,
};
use crate::settlement::copy_accounts;
use crate::tokens::{balance_spec, copy_tokens, find_token, TokenAccount};
use crate::types::{ProgramError, Side};

verus! {

/// All that the accounts of the exchange hold: the token accounts, the
/// open-orders accounts, the market with its book and its event queue, the
/// price that the stub oracle reports, and the clock.
#[derive(Debug)]
pub struct AccountsState {
    pub tokens: Vec<TokenAccount>,
    pub open_orders: Vec<OpenOrdersAccount>,
    pub market: Option<Market>,
    pub bids: BookSide,
    pub asks: BookSide,
    pub event_queue: EventQueue,
    pub oracle_price: Option<Decimal>,
    pub now_ts: u64,
}

/// What an `AccountsState` holds, as plain values.
pub struct StateView {
    pub tokens: Seq<TokenAccount>,
    pub open_orders: Seq<OpenOrdersAccount>,
    pub market: Option<Market>,
    /// The resting bids, best first.
    pub bids: Seq<Order>,
    /// The resting asks, best first.
    pub asks: Seq<Order>,
    /// Most orders that rest on one side.
    pub book_capacity: (usize, usize),
    /// The waiting events, oldest first.
    pub queue: Seq<Event>,
    /// Owners of the events that were evicted unapplied.
    pub flagged: Seq<AccountRef>,
    pub queue_capacity: usize,
    pub oracle_price: Option<Decimal>,
    pub now_ts: u64,
}

impl View for AccountsState {
    type V = StateView;

    open spec fn view(&self) -> StateView {
        StateView {
            tokens: self.tokens@,
            open_orders: self.open_orders@,
            market: self.market,
            bids: self.bids@,
            asks: self.asks@,
            book_capacity: (self.bids.capacity, self.asks.capacity),
            queue: self.event_queue@,
            flagged: self.event_queue.flagged@,
            queue_capacity: self.event_queue.capacity,
            oracle_price: self.oracle_price,
            now_ts: self.now_ts,
        }
    }
}

impl StateView {
    /// A state without any account, market or oracle price, at time zero.
    pub open spec fn empty() -> StateView {
        StateView {
            tokens: Seq::empty(),
            open_orders: Seq::empty(),
            market: None,
            bids: Seq::empty(),
            asks: Seq::empty(),
            book_capacity: (0, 0),
            queue: Seq::empty(),
            flagged: Seq::empty(),
            queue_capacity: 0,
            oracle_price: None,
            now_ts: 0,
        }
    }

    /// The oracle price in lots, where there is a market and an oracle
    /// price and the price in lots fits.
    pub open spec fn oracle_lots(self) -> Option<i64> {
        match (self.market, self.oracle_price) {
            (Some(m), Some(p)) => native_price_to_lot_spec(p, m.base_lot_size, m.quote_lot_size),
            _ => None,
        }
    }

    /// The state with one more token account.
    pub open spec fn with_token(self, account: TokenAccount) -> StateView {
        StateView { tokens: self.tokens.push(account), ..self }
    }

    /// The state with one more open-orders account, which holds nothing.
    pub open spec fn with_open_orders(self, address: AccountRef, owner: AccountRef) -> StateView {
        StateView {
            open_orders: self.open_orders.push(
                OpenOrdersAccount { address, owner, position: Position::zero() },
            ),
            ..self
        }
    }

    /// The state after the creation of a market, and the answer: refused,
    /// and nothing changed, where there is a market already or the
    /// parameters are not valid; else the market as given, with `admin` the
    /// one who may sweep its fees, no fees, nothing held for referrers, an
    /// empty book and an empty queue of the capacities given.
    pub open spec fn market_created(self, data: CreateMarket, admin: AccountRef) -> (
        StateView,
        Result<(), ProgramError>,
    ) {
        if self.market.is_some() {
            (self, Err(ProgramError::MarketAlreadyCreated))
        } else if !Market::params_valid(
            data.base_lot_size,
            data.quote_lot_size,
            data.maker_fee,
            data.taker_fee,
        ) {
            (self, Err(ProgramError::InvalidMarketParams))
        } else {
            (
                StateView {
                    market: Some(
                        Market {
                            base_lot_size: data.base_lot_size,
                            quote_lot_size: data.quote_lot_size,
                            maker_fee: data.maker_fee,
                            taker_fee: data.taker_fee,
                            collect_fee_admin: admin,
                            fees_accrued: 0,
                            referrer_rebates_accrued: 0,
                            seq_num: 0,
                        },
                    ),
                    bids: Seq::empty(),
                    asks: Seq::empty(),
                    book_capacity: (data.book_capacity, data.book_capacity),
                    queue: Seq::empty(),
                    flagged: Seq::empty(),
                    queue_capacity: data.event_capacity,
                    ..self
                },
                Ok(()),
            )
        }
    }
}

impl AccountsState {
    /// The book, the queue and the market are well-formed and belong
    /// together, and so is every position; what the market says the
    /// accounts may claim for referrers is the sum of their shares; without
    /// a market the book is empty and no account has a share.
    pub open spec fn wf(&self) -> bool {
        &&& self.bids.wf()
        &&& self.asks.wf()
        &&& self.bids.side == Side::Bid
        &&& self.asks.side == Side::Ask
        &&& self.event_queue.wf()
        &&& accounts_ok(self.open_orders@)
        &&& match self.market {
            Some(m) => m.wf() && seqs_under(self.bids@, m.seq_num) && seqs_under(
                self.asks@,
                m.seq_num,
            ) && m.referrer_rebates_accrued == claims(self.open_orders@),
            None => self.bids@.len() == 0 && self.asks@.len() == 0 && claims(self.open_orders@)
                == 0,
        }
    }

    /// A state without any account, market or oracle price, at time zero.
    pub fn new() -> (r: AccountsState)
        ensures
            r.wf(),
            r@ == StateView::empty(),
    {
        AccountsState {
            tokens: Vec::new(),
            open_orders: Vec::new(),
            market: None,
            bids: BookSide::new(Side::Bid, 0),
            asks: BookSide::new(Side::Ask, 0),
            event_queue: EventQueue::new(0),
            oracle_price: None,
            now_ts: 0,
        }
    }

    /// A copy of the state: what an instruction goes back to where a later
    /// step of it fails.
    pub fn duplicate(&self) -> (r: AccountsState)
        ensures
            r@ == self@,
            self.wf() ==> r.wf(),
    {
        AccountsState {
            tokens: copy_tokens(&self.tokens),
            open_orders: copy_accounts(&self.open_orders),
            market: self.market,
            bids: self.bids.duplicate(),
            asks: self.asks.duplicate(),
            event_queue: self.event_queue.duplicate(),
            oracle_price: self.oracle_price,
            now_ts: self.now_ts,
        }
    }

    /// Adds a token account of `owner` in `mint` that holds `amount`.
    pub fn add_token_account(
        &mut self,
        address: AccountRef,
        owner: AccountRef,
        mint: AccountRef,
        amount: u64,
    )
        requires
            old(self).wf(),
        ensures
            final(self).wf(),
            final(self)@ == old(self)@.with_token(TokenAccount { address, owner, mint, amount }),
    {
        self.tokens.push(TokenAccount { address, owner, mint, amount });
    }

    /// Adds an open-orders account of `owner` that holds nothing.
    pub fn add_open_orders(&mut self, address: AccountRef, owner: AccountRef)
        requires
            old(self).wf(),
        ensures
            final(self).wf(),
            final(self)@ == old(self)@.with_open_orders(address, owner),
    {
        proof {
            lemma_claims_push(
                self.open_orders@,
                OpenOrdersAccount { address, owner, position: Position::zero() },
            );
        }
        self.open_orders.push(OpenOrdersAccount { address, owner, position: Position::new() });
    }

    /// The balance of the token account at `address`.
    pub fn token_balance(&self, address: &AccountRef) -> (r: Option<u64>)
        ensures
            r == balance_spec(self.tokens@, *address),
    {
        match find_token(&self.tokens, address) {
            Some(i) => Some(self.tokens[i].amount),
            None => None,
        }
    }

    /// The position of the open-orders account at `address`.
    pub fn position(&self, address: &AccountRef) -> (r: Option<Position>)
        ensures
            r == (match first_account(self.open_orders@, *address) {
                Some(i) => Some(self.open_orders@[i as int].position),
                None => None,
            }),
    {
        match find_account(&self.open_orders, address) {
            Some(i) => Some(self.open_orders[i].position),
            None => None,
        }
    }

    /// Sets the price that the stub oracle reports.
    pub fn set_oracle_price(&mut self, price: Decimal)
        requires
            old(self).wf(),
        ensures
            final(self).wf(),
            final(self)@ == (StateView { oracle_price: Some(price), ..old(self)@ }),
    {
        self.oracle_price = Some(price);
    }

    /// Sets the clock.
    pub fn set_time(&mut self, now_ts: u64)
        requires
            old(self).wf(),
        ensures
            final(self).wf(),
            final(self)@ == (StateView { now_ts, ..old(self)@ }),
    {
        self.now_ts = now_ts;
    }

    /// The oracle price in lots.
    pub fn oracle_price_lots(&self) -> (r: Option<i64>)
        ensures
            r == self@.oracle_lots(),
    {
        match (self.market, self.oracle_price) {
            (Some(m), Some(p)) => m.native_price_to_lot(p),
            _ => None,
        }
    }

    /// Creates the market. Refused where there is a market already or the
    /// parameters are not valid; nothing changes then.
    pub fn create_market(&mut self, data: &CreateMarket, admin: AccountRef) -> (r: Result<
        (),
        ProgramError,
    >)
        requires
            old(self).wf(),
        ensures
            final(self).wf(),
            (final(self)@, r) == old(self)@.market_created(*data, admin),
    {
        if self.market.is_some() {
            return Err(ProgramError::MarketAlreadyCreated);
        }
        let m = match Market::new(
            data.base_lot_size,
            data.quote_lot_size,
            data.maker_fee,
            data.taker_fee,
            admin,
        ) {
            Some(m) => m,
            None => {
                return Err(ProgramError::InvalidMarketParams);
            },
        };
        self.market = Some(m);
        self.bids = BookSide::new(Side::Bid, data.book_capacity);
        self.asks = BookSide::new(Side::Ask, data.book_capacity);
        self.event_queue = EventQueue::new(data.event_capacity);
        Ok(())
    }
}

} // verus!
