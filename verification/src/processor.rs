use vstd::prelude::*;
use crate::address::AccountRef;
use crate::cancel::{
    cancel_upto, lemma_cancel_keeps_share, locate_client_order, locate_order, released_spec,
};
use crate::event_queue::{pushed_upto, seqs_view};
use crate::market::Market;
use crate::matching::IncomingOrder;
use crate::order::Order;
use crate::placement::{place_spec, Placement, PlacementOutcome};
use crate::placement_laws::{lemma_deposit, lemma_placement};
use crate::position::{find_account, first_account, lemma_claims_update, OpenOrdersAccount};
use crate::settlement::{
    consume_spec, lemma_consume_keeps_claims, settle_market, settle_transfer, TransferRequest,
};
use crate::state::{AccountsState, StateView};
use crate::tokens::{
    copy_tokens, find_token, first_token, movable, movable_amount, move_tokens, moved, try_move,
    try_moved, TokenAccount,
};
use crate::types::{MatchError, ProgramError, Side};

verus! {

/// `x` as a signed amount, where it is one.
pub open spec fn signed_amount(x: u64) -> Option<i64> {
    if x <= i64::MAX {
        Some(x as i64)
    } else {
        None
    }
}

/// What a placement can be paid in: what can be moved from the payer's
/// account to the vault, as far as that is a signed amount.
pub open spec fn funds_spec(s: Seq<TokenAccount>, from: int, to: int) -> i64 {
    if movable(s, from, to) <= i64::MAX {
        movable(s, from, to) as i64
    } else {
        i64::MAX
    }
}

impl StateView {
    /// The state with another position for the open-orders account number
    /// `k`.
    pub open spec fn with_position(self, k: int, position: crate::position::Position) -> StateView {
        StateView {
            open_orders: self.open_orders.update(
                k,
                OpenOrdersAccount { position, ..self.open_orders[k] },
            ),
            ..self
        }
    }

    /// The state after a deposit, and the answer. The amounts move from
    /// the user's token accounts to the vaults and are added to the free
    /// balances of the open-orders account. Refused, and nothing changed,
    /// where there is no market or one of the accounts does not exist,
    /// where a token account cannot pay, and where an amount does not fit.
    pub open spec fn deposited(
        self,
        open_orders: AccountRef,
        user_base: AccountRef,
        user_quote: AccountRef,
        vault_base: AccountRef,
        vault_quote: AccountRef,
        base_amount: u64,
        quote_amount: u64,
    ) -> (StateView, Result<(), ProgramError>) {
        if self.market.is_none() {
            (self, Err(ProgramError::MarketNotCreated))
        } else {
            match (
                first_account(self.open_orders, open_orders),
                signed_amount(base_amount),
                signed_amount(quote_amount),
            ) {
                (None, _, _) => (self, Err(ProgramError::AccountNotFound)),
                (Some(k), Some(base), Some(quote)) => match try_moved(
                    self.tokens,
                    user_base,
                    vault_base,
                    base,
                ) {
                    Err(e) => (self, Err(e)),
                    Ok(t1) => match try_moved(t1, user_quote, vault_quote, quote) {
                        Err(e) => (self, Err(e)),
                        Ok(t2) => match self.open_orders[k as int].position.deposit_spec(
                            base,
                            quote,
                        ) {
                            None => (
                                self,
                                Err(ProgramError::Match(MatchError::ArithmeticOverflow)),
                            ),
                            Some(p) => (
                                StateView { tokens: t2, ..self.with_position(k as int, p) },
                                Ok(()),
                            ),
                        },
                    },
                },
                _ => (self, Err(ProgramError::Match(MatchError::ArithmeticOverflow))),
            }
        }
    }

    /// The engine's placement of `order` for the position of the
    /// open-orders account number `k`, with `funds` to pay it in, at the
    /// oracle price in lots and the time of the state.
    pub open spec fn placement(self, order: IncomingOrder, k: int, funds: i64) -> Result<
        Placement,
        MatchError,
    > {
        place_spec(
            order,
            if order.side == Side::Bid {
                self.asks
            } else {
                self.bids
            },
            if order.side == Side::Bid {
                self.bids
            } else {
                self.asks
            },
            if order.side == Side::Bid {
                self.book_capacity.0
            } else {
                self.book_capacity.1
            },
            self.queue_capacity,
            self.market.unwrap(),
            self.open_orders[k].position,
            funds,
            self.oracle_lots(),
            self.now_ts,
        )
    }

    /// The state after `order` was placed for the open-orders account that
    /// it names as its owner, and the answer. The book, the queue, the
    /// market and the owner's position are as the engine's placement
    /// leaves them, and what the placement has to be paid in has moved
    /// from `payer` to `vault`. Refused, and nothing changed, where there
    /// is no market, where one of the accounts does not exist, and where
    /// the engine refuses.
    pub open spec fn placed(self, order: IncomingOrder, payer: AccountRef, vault: AccountRef) -> (
        StateView,
        Result<PlacementOutcome, ProgramError>,
    ) {
        if self.market.is_none() {
            (self, Err(ProgramError::MarketNotCreated))
        } else {
            match (
                first_account(self.open_orders, order.owner),
                first_token(self.tokens, payer),
                first_token(self.tokens, vault),
            ) {
                (Some(k), Some(i), Some(j)) => match self.placement(
                    order,
                    k as int,
                    funds_spec(self.tokens, i as int, j as int),
                ) {
                    Err(e) => (self, Err(ProgramError::Match(e))),
                    Ok(p) => {
                        let q = pushed_upto(
                            (self.queue, self.flagged),
                            self.queue_capacity,
                            p.events,
                            p.events.len() as int,
                        );
                        (
                            StateView {
                                tokens: moved(
                                    self.tokens,
                                    i as int,
                                    j as int,
                                    p.outcome.deposit_native as u64,
                                ),
                                market: Some(p.market),
                                bids: if order.side == Side::Bid {
                                    p.own
                                } else {
                                    p.opposite
                                },
                                asks: if order.side == Side::Bid {
                                    p.opposite
                                } else {
                                    p.own
                                },
                                queue: q.0,
                                flagged: q.1,
                                ..self.with_position(k as int, p.position)
                            },
                            Ok(p.outcome),
                        )
                    },
                },
                _ => (self, Err(ProgramError::AccountNotFound)),
            }
        }
    }

    /// The state after waiting events were applied to the accounts
    /// `supplied`, and the number applied; with `seqs`, only the events it
    /// names are. The queue, the open-orders accounts and the market's
    /// fees are as `consume_spec` says. Refused, and nothing changed, where
    /// there is no market and where an event does not apply.
    pub open spec fn consumed(self, supplied: Seq<AccountRef>, seqs: Option<Seq<u64>>, limit: int) -> (
        StateView,
        Result<usize, ProgramError>,
    ) {
        match self.market {
            None => (self, Err(ProgramError::MarketNotCreated)),
            Some(m) => match consume_spec(self.queue, m, self.open_orders, supplied, seqs, limit) {
                None => (self, Err(ProgramError::Match(MatchError::ArithmeticOverflow))),
                Some(c) => (
                    StateView {
                        queue: c.queue,
                        open_orders: c.accounts,
                        market: Some(Market { fees_accrued: c.fees_accrued, ..m }),
                        ..self
                    },
                    Ok(c.count),
                ),
            },
        }
    }

    /// The state after the open-orders account `owner` cancelled the
    /// order at `place`, and the answer. An order that is not found is no
    /// error and changes nothing; an order that is found leaves the book,
    /// and what it locked is free in the owner's position. Refused, and
    /// nothing changed, where there is no market or no such account, and
    /// where the position cannot take the cancellation.
    pub open spec fn cancelled(self, owner: AccountRef, place: Option<(Side, usize)>) -> (
        StateView,
        Result<Option<Order>, ProgramError>,
    ) {
        if self.market.is_none() {
            (self, Err(ProgramError::MarketNotCreated))
        } else {
            match (first_account(self.open_orders, owner), place) {
                (None, _) => (self, Err(ProgramError::AccountNotFound)),
                (Some(_), None) => (self, Ok(None)),
                (Some(k), Some((side, slot))) => {
                    let book = if side == Side::Bid {
                        self.bids
                    } else {
                        self.asks
                    };
                    match released_spec(
                        side,
                        book[slot as int],
                        self.open_orders[k as int].position,
                    ) {
                        None => (self, Err(ProgramError::Match(MatchError::ArithmeticOverflow))),
                        Some(p) => (
                            StateView {
                                bids: if side == Side::Bid {
                                    self.bids.remove(slot as int)
                                } else {
                                    self.bids
                                },
                                asks: if side == Side::Ask {
                                    self.asks.remove(slot as int)
                                } else {
                                    self.asks
                                },
                                ..self.with_position(k as int, p)
                            },
                            Ok(Some(book[slot as int])),
                        ),
                    }
                },
            }
        }
    }

    /// The state after the open-orders account `owner` cancelled up to
    /// `limit` of its orders, and their number: the orders are cancelled
    /// as `cancel_upto` says, first among the bids, then, with what is left
    /// of the limit, among the asks. Refused, and nothing changed, where
    /// there is no market or no such account, and where the position
    /// cannot take a cancellation.
    pub open spec fn cancelled_all(self, owner: AccountRef, limit: u8) -> (
        StateView,
        Result<usize, ProgramError>,
    ) {
        if self.market.is_none() {
            (self, Err(ProgramError::MarketNotCreated))
        } else {
            match first_account(self.open_orders, owner) {
                None => (self, Err(ProgramError::AccountNotFound)),
                Some(k) => {
                    let b = cancel_upto(
                        self.bids,
                        self.bids.len() as int,
                        Side::Bid,
                        owner,
                        limit as usize,
                        self.open_orders[k as int].position,
                    );
                    let a = cancel_upto(
                        self.asks,
                        self.asks.len() as int,
                        Side::Ask,
                        owner,
                        (limit - b.count) as usize,
                        b.position,
                    );
                    if b.failed || a.failed {
                        (self, Err(ProgramError::Match(MatchError::ArithmeticOverflow)))
                    } else {
                        (
                            StateView {
                                bids: b.kept,
                                asks: a.kept,
                                ..self.with_position(k as int, a.position)
                            },
                            Ok((b.count + a.count) as usize),
                        )
                    }
                },
            }
        }
    }

    /// The state after an open-orders account was settled, and what was
    /// transferred: the free balances go from the vaults to the user's
    /// token accounts and, where a referrer is named, the referrer's claim
    /// goes from the quote vault to the referrer's token account and
    /// leaves the market's fees. The account has nothing free left.
    /// Refused, and nothing changed, where there is no market or one of
    /// the accounts does not exist, where the market refuses the
    /// settlement, and where a vault cannot pay.
    pub open spec fn settled(
        self,
        open_orders: AccountRef,
        user_base: AccountRef,
        user_quote: AccountRef,
        vault_base: AccountRef,
        vault_quote: AccountRef,
        referrer: Option<AccountRef>,
    ) -> (StateView, Result<TransferRequest, ProgramError>) {
        match (self.market, first_account(self.open_orders, open_orders)) {
            (None, _) => (self, Err(ProgramError::MarketNotCreated)),
            (Some(_), None) => (self, Err(ProgramError::AccountNotFound)),
            (Some(m), Some(k)) => {
                let position = self.open_orders[k as int].position;
                let t = settle_transfer(position, referrer.is_some());
                match settle_market(position, m, referrer.is_some()) {
                    Err(e) => (self, Err(ProgramError::Match(e))),
                    Ok(settled) => {
                        let done = StateView {
                            market: Some(settled),
                            ..self.with_position(k as int, position.withdrawn())
                        };
                        match try_moved(self.tokens, vault_base, user_base, t.base_native) {
                            Err(e) => (self, Err(e)),
                            Ok(t1) => match try_moved(
                                t1,
                                vault_quote,
                                user_quote,
                                t.quote_native,
                            ) {
                                Err(e) => (self, Err(e)),
                                Ok(t2) => match referrer {
                                    None => (StateView { tokens: t2, ..done }, Ok(t)),
                                    Some(to) => match try_moved(
                                        t2,
                                        vault_quote,
                                        to,
                                        t.referrer_native,
                                    ) {
                                        Err(e) => (self, Err(e)),
                                        Ok(t3) => (StateView { tokens: t3, ..done }, Ok(t)),
                                    },
                                },
                            },
                        }
                    },
                }
            },
        }
    }

    /// The state after the market's fees were swept, and what was
    /// transferred: all the fees move from the quote vault to `receiver`
    /// and the market has none left. Refused, and nothing changed, where
    /// there is no market, where `caller` is not the fee admin, where an
    /// account does not exist and where the vault cannot pay.
    pub open spec fn swept(self, caller: AccountRef, receiver: AccountRef, vault_quote: AccountRef) -> (
        StateView,
        Result<TransferRequest, ProgramError>,
    ) {
        match self.market {
            None => (self, Err(ProgramError::MarketNotCreated)),
            Some(m) => if caller != m.collect_fee_admin {
                (self, Err(ProgramError::Unauthorized))
            } else {
                match try_moved(self.tokens, vault_quote, receiver, m.fees_accrued) {
                    Err(e) => (self, Err(e)),
                    Ok(t) => (
                        StateView {
                            tokens: t,
                            market: Some(Market { fees_accrued: 0, ..m }),
                            ..self
                        },
                        Ok(
                            TransferRequest {
                                base_native: 0,
                                quote_native: m.fees_accrued,
                                referrer_native: 0,
                            },
                        ),
                    ),
                }
            },
        }
    }
}

/// In a well-formed state no account claims more for a referrer than the
/// market says the accounts together may: a settlement without a referrer
/// is never refused by the market, and one with a referrer only where the
/// fees do not hold the account's share, which a sweep since the fee was
/// charged can bring about.
pub proof fn lemma_settlement_is_covered(state: &AccountsState, k: int)
    requires
        state.wf(),
        state.market.is_some(),
        0 <= k < state.open_orders@.len(),
    ensures
        state.open_orders@[k].position.referrer_rebates_available
            <= state.market.unwrap().referrer_rebates_accrued,
        settle_market(state.open_orders@[k].position, state.market.unwrap(), false).is_ok(),
        settle_market(state.open_orders@[k].position, state.market.unwrap(), true).is_ok() == (
        state.open_orders@[k].position.referrer_rebates_available
            <= state.market.unwrap().fees_accrued),
        settle_market(state.open_orders@[k].position, state.market.unwrap(), true) matches Err(e)
            ==> e == MatchError::InsufficientFunds,
{
    crate::position::lemma_claims_cover(state.open_orders@, k, state.open_orders@.len() as int);
}

impl AccountsState {
    /// Pays `base_amount` and `quote_amount` from the user's token accounts
    /// into the free balances of an open-orders account. On an error
    /// nothing changes.
    pub fn deposit(
        &mut self,
        open_orders: &AccountRef,
        user_base: &AccountRef,
        user_quote: &AccountRef,
        vault_base: &AccountRef,
        vault_quote: &AccountRef,
        base_amount: u64,
        quote_amount: u64,
    ) -> (r: Result<(), ProgramError>)
        requires
            old(self).wf(),
        ensures
            final(self).wf(),
            (final(self)@, r) == old(self)@.deposited(
                *open_orders,
                *user_base,
                *user_quote,
                *vault_base,
                *vault_quote,
                base_amount,
                quote_amount,
            ),
    {
        if self.market.is_none() {
            return Err(ProgramError::MarketNotCreated);
        }
        let k = match find_account(&self.open_orders, open_orders) {
            Some(k) => k,
            None => {
                return Err(ProgramError::AccountNotFound);
            },
        };
        if base_amount > i64::MAX as u64 || quote_amount > i64::MAX as u64 {
            return Err(ProgramError::Match(MatchError::ArithmeticOverflow));
        }
        let base = base_amount as i64;
        let quote = quote_amount as i64;
        let mut scratch = copy_tokens(&self.tokens);
        match try_move(&mut scratch, user_base, vault_base, base) {
            Ok(()) => {},
            Err(e) => {
                return Err(e);
            },
        }
        match try_move(&mut scratch, user_quote, vault_quote, quote) {
            Ok(()) => {},
            Err(e) => {
                return Err(e);
            },
        }
        let account = self.open_orders[k];
        let p = match account.position.deposit(base, quote) {
            Some(p) => p,
            None => {
                return Err(ProgramError::Match(MatchError::ArithmeticOverflow));
            },
        };
        proof {
            lemma_claims_update(
                self.open_orders@,
                k as int,
                OpenOrdersAccount { position: p, ..account },
                self.open_orders@.len() as int,
            );
        }
        self.tokens = scratch;
        self.open_orders.set(k, OpenOrdersAccount { position: p, ..account });
        Ok(())
    }

    /// Places `order` for the open-orders account that it names as its
    /// owner. What the placement has to be paid in moves from `payer` to
    /// `vault`. On an error nothing changes.
    pub fn place_order(&mut self, order: &IncomingOrder, payer: &AccountRef, vault: &AccountRef) -> (r:
        Result<PlacementOutcome, ProgramError>)
        requires
            old(self).wf(),
        ensures
            final(self).wf(),
            (final(self)@, r) == old(self)@.placed(*order, *payer, *vault),
    {
        let mut m = match self.market {
            Some(m) => m,
            None => {
                return Err(ProgramError::MarketNotCreated);
            },
        };
        let k = match find_account(&self.open_orders, &order.owner) {
            Some(k) => k,
            None => {
                return Err(ProgramError::AccountNotFound);
            },
        };
        let i = match find_token(&self.tokens, payer) {
            Some(i) => i,
            None => {
                return Err(ProgramError::AccountNotFound);
            },
        };
        let j = match find_token(&self.tokens, vault) {
            Some(j) => j,
            None => {
                return Err(ProgramError::AccountNotFound);
            },
        };
        let can_move = movable_amount(&self.tokens, i, j);
        let funds: i64 = if can_move <= i64::MAX as u64 {
            can_move as i64
        } else {
            i64::MAX
        };
        let oracle = self.oracle_price_lots();
        let account = self.open_orders[k];
        let mut position = account.position;
        let now_ts = self.now_ts;
        proof {
            lemma_placement(
                *order,
                if order.side == Side::Bid {
                    self.asks@
                } else {
                    self.bids@
                },
                if order.side == Side::Bid {
                    self.bids@
                } else {
                    self.asks@
                },
                if order.side == Side::Bid {
                    self.bids.capacity
                } else {
                    self.asks.capacity
                },
                self.event_queue.capacity,
                m,
                account.position,
                funds,
                oracle,
                now_ts,
            );
            lemma_deposit(
                *order,
                if order.side == Side::Bid {
                    self.asks@
                } else {
                    self.bids@
                },
                if order.side == Side::Bid {
                    self.bids@
                } else {
                    self.asks@
                },
                if order.side == Side::Bid {
                    self.bids.capacity
                } else {
                    self.asks.capacity
                },
                self.event_queue.capacity,
                m,
                account.position,
                funds,
                oracle,
                now_ts,
            );
        }
        match crate::placement::place_order(
            order,
            &mut self.bids,
            &mut self.asks,
            &mut self.event_queue,
            &mut m,
            &mut position,
            funds,
            oracle,
            now_ts,
        ) {
            Err(e) => Err(ProgramError::Match(e)),
            Ok(outcome) => {
                proof {
                    lemma_claims_update(
                        self.open_orders@,
                        k as int,
                        OpenOrdersAccount { position, ..account },
                        self.open_orders@.len() as int,
                    );
                }
                self.market = Some(m);
                self.open_orders.set(k, OpenOrdersAccount { position, ..account });
                move_tokens(&mut self.tokens, i, j, outcome.deposit_native as u64);
                Ok(outcome)
            },
        }
    }

    /// Applies waiting events to the accounts `supplied`; with `seqs`, only
    /// the events it names. On an error nothing changes.
    pub fn consume_events(&mut self, supplied: &Vec<AccountRef>, seqs: Option<&Vec<u64>>, limit: usize) -> (r:
        Result<usize, ProgramError>)
        requires
            old(self).wf(),
        ensures
            final(self).wf(),
            (final(self)@, r) == old(self)@.consumed(supplied@, seqs_view(seqs), limit as int),
    {
        let mut m = match self.market {
            Some(m) => m,
            None => {
                return Err(ProgramError::MarketNotCreated);
            },
        };
        let accounts = self.open_orders.len();
        proof {
            assert(self.open_orders@.len() == accounts);
            lemma_consume_keeps_claims(
                self.event_queue@,
                m,
                self.open_orders@,
                supplied@,
                seqs_view(seqs),
                limit as int,
            );
        }
        match crate::settlement::consume_events(
            &mut self.event_queue,
            &mut m,
            &mut self.open_orders,
            supplied,
            seqs,
            limit,
        ) {
            Ok(n) => {
                self.market = Some(m);
                Ok(n)
            },
            Err(e) => Err(ProgramError::Match(e)),
        }
    }

    /// Cancels the resting order of the open-orders account `owner` with
    /// the sequence number `order_id`. An order that is not found is no
    /// error. On an error nothing changes.
    pub fn cancel_order(&mut self, owner: &AccountRef, order_id: u64) -> (r: Result<
        Option<Order>,
        ProgramError,
    >)
        requires
            old(self).wf(),
        ensures
            final(self).wf(),
            (final(self)@, r) == old(self)@.cancelled(
                *owner,
                locate_order(old(self)@.bids, old(self)@.asks, *owner, order_id),
            ),
    {
        if self.market.is_none() {
            return Err(ProgramError::MarketNotCreated);
        }
        let k = match find_account(&self.open_orders, owner) {
            Some(k) => k,
            None => {
                return Err(ProgramError::AccountNotFound);
            },
        };
        let account = self.open_orders[k];
        let mut position = account.position;
        let r = crate::cancel::cancel_order(
            &mut self.bids,
            &mut self.asks,
            &mut position,
            owner,
            order_id,
        );
        proof {
            lemma_claims_update(
                self.open_orders@,
                k as int,
                OpenOrdersAccount { position, ..account },
                self.open_orders@.len() as int,
            );
        }
        self.open_orders.set(k, OpenOrdersAccount { position, ..account });
        proof {
            if position == account.position {
                assert(self.open_orders@ =~= old(self).open_orders@);
            }
        }
        match r {
            Ok(o) => Ok(o),
            Err(e) => Err(ProgramError::Match(e)),
        }
    }

    /// Cancels the first resting order that the open-orders account
    /// `owner` placed under `client_order_id`. An order that is not found
    /// is no error. On an error nothing changes.
    pub fn cancel_order_by_client_order_id(&mut self, owner: &AccountRef, client_order_id: u64) -> (r:
        Result<Option<Order>, ProgramError>)
        requires
            old(self).wf(),
        ensures
            final(self).wf(),
            (final(self)@, r) == old(self)@.cancelled(
                *owner,
                locate_client_order(old(self)@.bids, old(self)@.asks, *owner, client_order_id),
            ),
    {
        if self.market.is_none() {
            return Err(ProgramError::MarketNotCreated);
        }
        let k = match find_account(&self.open_orders, owner) {
            Some(k) => k,
            None => {
                return Err(ProgramError::AccountNotFound);
            },
        };
        let account = self.open_orders[k];
        let mut position = account.position;
        let r = crate::cancel::cancel_order_by_client_order_id(
            &mut self.bids,
            &mut self.asks,
            &mut position,
            owner,
            client_order_id,
        );
        proof {
            lemma_claims_update(
                self.open_orders@,
                k as int,
                OpenOrdersAccount { position, ..account },
                self.open_orders@.len() as int,
            );
        }
        self.open_orders.set(k, OpenOrdersAccount { position, ..account });
        proof {
            if position == account.position {
                assert(self.open_orders@ =~= old(self).open_orders@);
            }
        }
        match r {
            Ok(o) => Ok(o),
            Err(e) => Err(ProgramError::Match(e)),
        }
    }

    /// Cancels up to `limit` resting orders of the open-orders account
    /// `owner`, bids before asks, and says how many they were. On an error
    /// nothing changes.
    pub fn cancel_all_orders(&mut self, owner: &AccountRef, limit: u8) -> (r: Result<
        usize,
        ProgramError,
    >)
        requires
            old(self).wf(),
        ensures
            final(self).wf(),
            (final(self)@, r) == old(self)@.cancelled_all(*owner, limit),
    {
        if self.market.is_none() {
            return Err(ProgramError::MarketNotCreated);
        }
        let k = match find_account(&self.open_orders, owner) {
            Some(k) => k,
            None => {
                return Err(ProgramError::AccountNotFound);
            },
        };
        let account = self.open_orders[k];
        let mut position = account.position;
        let r = crate::cancel::cancel_all_orders(
            &mut self.bids,
            &mut self.asks,
            &mut position,
            owner,
            limit as usize,
        );
        proof {
            let b = cancel_upto(
                old(self).bids@,
                old(self).bids@.len() as int,
                Side::Bid,
                *owner,
                limit as usize,
                account.position,
            );
            lemma_cancel_keeps_share(
                old(self).bids@,
                old(self).bids@.len() as int,
                Side::Bid,
                *owner,
                limit as usize,
                account.position,
            );
            lemma_cancel_keeps_share(
                old(self).asks@,
                old(self).asks@.len() as int,
                Side::Ask,
                *owner,
                (limit - b.count) as usize,
                b.position,
            );
            lemma_claims_update(
                self.open_orders@,
                k as int,
                OpenOrdersAccount { position, ..account },
                self.open_orders@.len() as int,
            );
        }
        self.open_orders.set(k, OpenOrdersAccount { position, ..account });
        proof {
            if position == account.position {
                assert(self.open_orders@ =~= old(self).open_orders@);
            }
        }
        match r {
            Ok(n) => Ok(n),
            Err(e) => Err(ProgramError::Match(e)),
        }
    }

    /// Settles an open-orders account: pays its free balances out of the
    /// vaults to the user's token accounts and, where a referrer is named,
    /// the referrer's claim to the referrer's token account. On an error
    /// nothing changes.
    pub fn settle_funds(
        &mut self,
        open_orders: &AccountRef,
        user_base: &AccountRef,
        user_quote: &AccountRef,
        vault_base: &AccountRef,
        vault_quote: &AccountRef,
        referrer: Option<&AccountRef>,
    ) -> (r: Result<TransferRequest, ProgramError>)
        requires
            old(self).wf(),
        ensures
            final(self).wf(),
            (final(self)@, r) == old(self)@.settled(
                *open_orders,
                *user_base,
                *user_quote,
                *vault_base,
                *vault_quote,
                match referrer {
                    Some(a) => Some(*a),
                    None => None,
                },
            ),
    {
        let mut m = match self.market {
            Some(m) => m,
            None => {
                return Err(ProgramError::MarketNotCreated);
            },
        };
        let k = match find_account(&self.open_orders, open_orders) {
            Some(k) => k,
            None => {
                return Err(ProgramError::AccountNotFound);
            },
        };
        let account = self.open_orders[k];
        let mut position = account.position;
        let request = match crate::settlement::settle_funds(
            &mut position,
            &mut m,
            referrer.is_some(),
        ) {
            Ok(t) => t,
            Err(e) => {
                return Err(ProgramError::Match(e));
            },
        };
        let mut scratch = copy_tokens(&self.tokens);
        match try_move(&mut scratch, vault_base, user_base, request.base_native) {
            Ok(()) => {},
            Err(e) => {
                return Err(e);
            },
        }
        match try_move(&mut scratch, vault_quote, user_quote, request.quote_native) {
            Ok(()) => {},
            Err(e) => {
                return Err(e);
            },
        }
        match referrer {
            Some(to) => match try_move(&mut scratch, vault_quote, to, request.referrer_native) {
                Ok(()) => {},
                Err(e) => {
                    return Err(e);
                },
            },
            None => {},
        }
        proof {
            lemma_claims_update(
                self.open_orders@,
                k as int,
                OpenOrdersAccount { position, ..account },
                self.open_orders@.len() as int,
            );
        }
        self.tokens = scratch;
        self.market = Some(m);
        self.open_orders.set(k, OpenOrdersAccount { position, ..account });
        Ok(request)
    }

    /// Hands the market's fees to the fee admin: they move from the quote
    /// vault to `receiver`. On an error nothing changes.
    pub fn sweep_fees(&mut self, caller: &AccountRef, receiver: &AccountRef, vault_quote: &AccountRef) -> (r:
        Result<TransferRequest, ProgramError>)
        requires
            old(self).wf(),
        ensures
            final(self).wf(),
            (final(self)@, r) == old(self)@.swept(*caller, *receiver, *vault_quote),
    {
        let mut m = match self.market {
            Some(m) => m,
            None => {
                return Err(ProgramError::MarketNotCreated);
            },
        };
        let request = match crate::settlement::sweep_fees(&mut m, caller) {
            Ok(t) => t,
            Err(e) => {
                return Err(e);
            },
        };
        match try_move(&mut self.tokens, vault_quote, receiver, request.quote_native) {
            Ok(()) => {},
            Err(e) => {
                return Err(e);
            },
        }
        self.market = Some(m);
        Ok(request)
    }
}

} // verus!
