use vstd::prelude::*;
use crate::address::AccountRef;
use crate::cancel::{locate_client_order, locate_order};
use crate::instruction::{
    CancelAllOrders, CancelOrder, CancelOrderByClientOrderId, ConsumeEvents, ConsumeGivenEvents,
    CreateMarket, Deposit, PlaceOrder, PlaceOrderPegged, PlaceTakeOrder, SettleFunds,
    StubOracleSet, SweepFees,
};
use crate::keys::{
    associated_token_address, associated_token_program_bytes, associated_token_seeds, is_derived,
    market_address, market_seeds, open_orders_address, open_orders_seeds, oracle_address,
    oracle_seeds, program_address, program_id_bytes, unique_address,
};
use crate::matching::IncomingOrder;
use crate::oracle::{Decimal, DECIMAL_ONE};
use crate::placement::PlacementOutcome;
use crate::state::{AccountsState, StateView};
use crate::tokens::TokenAccount;
use crate::types::{OrderType, ProgramError, Side, INITIAL_BALANCE, NUM_USERS};

verus! {

/// Names one of the traders of a context.
#[derive(Debug, Clone, Copy, Eq, Hash, PartialEq, Structural)]
pub struct UserId(pub u8);

/// Names one of the referrers of a context.
#[derive(Debug, Clone, Copy, Eq, Hash, PartialEq, Structural)]
pub struct ReferrerId(pub u8);

impl UserId {
    /// The trader's number, under `NUM_USERS`.
    pub open spec fn index_spec(self) -> int {
        (self.0 % NUM_USERS) as int
    }

    /// The id of trader number `raw % NUM_USERS`.
    pub fn new(raw: u8) -> (r: UserId)
        ensures
            r.0 == raw % NUM_USERS,
            r.index_spec() == raw % NUM_USERS,
    {
        UserId(raw % NUM_USERS)
    }

    /// The trader's number.
    pub fn index(&self) -> (r: usize)
        ensures
            r == self.index_spec(),
            r < NUM_USERS,
    {
        (self.0 % NUM_USERS) as usize
    }
}

impl ReferrerId {
    /// The referrer's number, under `NUM_USERS`.
    pub open spec fn index_spec(self) -> int {
        (self.0 % NUM_USERS) as int
    }

    /// The id of referrer number `raw % NUM_USERS`.
    pub fn new(raw: u8) -> (r: ReferrerId)
        ensures
            r.0 == raw % NUM_USERS,
            r.index_spec() == raw % NUM_USERS,
    {
        ReferrerId(raw % NUM_USERS)
    }

    /// The referrer's number.
    pub fn index(&self) -> (r: usize)
        ensures
            r == self.index_spec(),
            r < NUM_USERS,
    {
        (self.0 % NUM_USERS) as usize
    }
}

/// The addresses of a trader's accounts.
#[derive(Clone, Copy, Debug)]
pub struct UserAccounts {
    /// The trader's wallet.
    pub owner: AccountRef,
    /// The trader's open-orders account in the market.
    pub open_orders: AccountRef,
    /// The trader's base token account.
    pub base_vault: AccountRef,
    /// The trader's quote token account.
    pub quote_vault: AccountRef,
}

/// The addresses of an exchange's own accounts as the host hands them out:
/// those that are drawn anew, and those that are derived from them, each
/// `None` where no address could be derived.
#[derive(Clone, Copy, Debug)]
pub struct ContextAddresses {
    pub payer: AccountRef,
    pub admin: AccountRef,
    pub base_mint: AccountRef,
    pub quote_mint: AccountRef,
    /// Derived from the payer and the market's index.
    pub market: Option<AccountRef>,
    /// Derived from the admin and the base mint.
    pub oracle: Option<AccountRef>,
    pub bids: AccountRef,
    pub asks: AccountRef,
    pub event_queue: AccountRef,
    /// The market's token account for the base mint.
    pub base_vault: Option<AccountRef>,
    /// The market's token account for the quote mint.
    pub quote_vault: Option<AccountRef>,
    pub collect_fee_admin: AccountRef,
    /// The fee admin's token account for the quote mint.
    pub collect_fee_admin_quote_vault: Option<AccountRef>,
}

impl ContextAddresses {
    /// Every derived address is there.
    pub open spec fn complete(self) -> bool {
        &&& self.market.is_some()
        &&& self.oracle.is_some()
        &&& self.base_vault.is_some()
        &&& self.quote_vault.is_some()
        &&& self.collect_fee_admin_quote_vault.is_some()
    }

    /// The derived addresses are those that the host derives for the
    /// market number `market_index`: the market from the payer and the
    /// index, the oracle from the admin and the base mint, the vaults from
    /// the market and the mints, the fee admin's token account from the fee
    /// admin and the quote mint. Without a market there are no vaults.
    pub open spec fn derived_for(self, market_index: u32) -> bool {
        &&& is_derived(self.market, market_seeds(self.payer, market_index), program_id_bytes())
        &&& is_derived(self.oracle, oracle_seeds(self.admin, self.base_mint), program_id_bytes())
        &&& match self.market {
            Some(m) => is_derived(
                self.base_vault,
                associated_token_seeds(m, self.base_mint),
                associated_token_program_bytes(),
            ) && is_derived(
                self.quote_vault,
                associated_token_seeds(m, self.quote_mint),
                associated_token_program_bytes(),
            ),
            None => self.base_vault.is_none() && self.quote_vault.is_none(),
        }
        &&& is_derived(
            self.collect_fee_admin_quote_vault,
            associated_token_seeds(self.collect_fee_admin, self.quote_mint),
            associated_token_program_bytes(),
        )
    }
}

/// One exchange with one market, its traders and its referrers: the
/// addresses of all the accounts, and what they hold.
#[derive(Debug)]
pub struct FuzzContext {
    pub payer: AccountRef,
    pub admin: AccountRef,
    pub base_mint: AccountRef,
    pub quote_mint: AccountRef,
    pub market: AccountRef,
    pub oracle: AccountRef,
    pub bids: AccountRef,
    pub asks: AccountRef,
    pub event_queue: AccountRef,
    pub base_vault: AccountRef,
    pub quote_vault: AccountRef,
    pub collect_fee_admin: AccountRef,
    pub collect_fee_admin_quote_vault: AccountRef,
    /// The traders that have accounts, by their number.
    pub users: Vec<Option<UserAccounts>>,
    /// The quote token accounts of the referrers that have one, by their
    /// number.
    pub referrers: Vec<Option<AccountRef>>,
    pub state: AccountsState,
}

/// As many empty places as there are trader numbers.
fn no_users() -> (r: Vec<Option<UserAccounts>>)
    ensures
        r@.len() == NUM_USERS,
        forall|i: int| 0 <= i < r@.len() ==> r@[i].is_none(),
{
    let mut out: Vec<Option<UserAccounts>> = Vec::new();
    let mut i: u8 = 0;
    while i < NUM_USERS
        invariant
            i <= NUM_USERS,
            out@.len() == i,
            forall|j: int| 0 <= j < out@.len() ==> out@[j].is_none(),
        decreases NUM_USERS - i,
    {
        out.push(None);
        i += 1;
    }
    out
}

/// As many empty places as there are referrer numbers.
fn no_referrers() -> (r: Vec<Option<AccountRef>>)
    ensures
        r@.len() == NUM_USERS,
        forall|i: int| 0 <= i < r@.len() ==> r@[i].is_none(),
{
    let mut out: Vec<Option<AccountRef>> = Vec::new();
    let mut i: u8 = 0;
    while i < NUM_USERS
        invariant
            i <= NUM_USERS,
            out@.len() == i,
            forall|j: int| 0 <= j < out@.len() ==> out@[j].is_none(),
        decreases NUM_USERS - i,
    {
        out.push(None);
        i += 1;
    }
    out
}

/// The open-orders accounts of the first `n` of `ids` that have accounts,
/// in that order, without the trader `skip`.
pub open spec fn refs_upto(
    users: Seq<Option<UserAccounts>>,
    ids: Seq<UserId>,
    skip: Option<UserId>,
    n: int,
) -> Seq<AccountRef>
    decreases n,
{
    if n <= 0 {
        Seq::empty()
    } else {
        let rest = refs_upto(users, ids, skip, n - 1);
        let id = ids[n - 1];
        let skipped = skip matches Some(t) && t.index_spec() == id.index_spec();
        match users[id.index_spec()] {
            Some(u) => if skipped {
                rest
            } else {
                rest.push(u.open_orders)
            },
            None => rest,
        }
    }
}

/// The open-orders accounts of those of `ids` that have accounts, without
/// the trader `skip`.
pub open spec fn refs_of(users: Seq<Option<UserAccounts>>, ids: Seq<UserId>, skip: Option<UserId>) -> Seq<
    AccountRef,
> {
    refs_upto(users, ids, skip, ids.len() as int)
}

/// The order that the trader `u` places with `data`.
pub open spec fn limit_order(u: UserAccounts, data: PlaceOrder) -> IncomingOrder {
    IncomingOrder {
        owner: u.open_orders,
        side: data.side,
        price_lots: data.price_lots,
        max_base_lots: data.max_base_lots,
        max_quote_lots_including_fees: data.max_quote_lots_including_fees,
        order_type: data.order_type,
        self_trade_behavior: data.self_trade_behavior,
        client_order_id: data.client_order_id,
        expiry_timestamp: data.expiry_timestamp,
        is_pegged: false,
        peg_offset: 0,
        peg_limit: 0,
    }
}

/// The pegged order that the trader `u` places with `data`.
pub open spec fn pegged_order(u: UserAccounts, data: PlaceOrderPegged) -> IncomingOrder {
    IncomingOrder {
        owner: u.open_orders,
        side: data.side,
        price_lots: data.peg_limit,
        max_base_lots: data.max_base_lots,
        max_quote_lots_including_fees: data.max_quote_lots_including_fees,
        order_type: data.order_type,
        self_trade_behavior: data.self_trade_behavior,
        client_order_id: data.client_order_id,
        expiry_timestamp: data.expiry_timestamp,
        is_pegged: true,
        peg_offset: data.price_offset_lots,
        peg_limit: data.peg_limit,
    }
}

/// The order that the trader `u` takes with: immediate-or-cancel, or
/// fill-or-kill where `data` says so.
pub open spec fn take_order(u: UserAccounts, data: PlaceTakeOrder) -> IncomingOrder {
    IncomingOrder {
        owner: u.open_orders,
        side: data.side,
        price_lots: data.price_lots,
        max_base_lots: data.max_base_lots,
        max_quote_lots_including_fees: data.max_quote_lots_including_fees,
        order_type: if data.fill_or_kill {
            OrderType::FillOrKill
        } else {
            OrderType::ImmediateOrCancel
        },
        self_trade_behavior: data.self_trade_behavior,
        client_order_id: 0,
        expiry_timestamp: 0,
        is_pegged: false,
        peg_offset: 0,
        peg_limit: 0,
    }
}

/// The result without what it carries.
pub open spec fn unit<T>(r: Result<T, ProgramError>) -> Result<(), ProgramError> {
    match r {
        Ok(_) => Ok(()),
        Err(e) => Err(e),
    }
}

/// No address can be derived for an open-orders account of the wallet
/// `owner` in `market`.
pub open spec fn underivable(market: AccountRef, owner: AccountRef) -> bool {
    program_address(open_orders_seeds(owner, market, 0), program_id_bytes()).is_none()
}

/// The referrer named, as a plain value.
pub open spec fn referrer_named(referrer_id: Option<&ReferrerId>) -> Option<ReferrerId> {
    match referrer_id {
        Some(x) => Some(*x),
        None => None,
    }
}

/// The referrer named, if any, has a token account on record among
/// `referrers`, or none is named.
pub open spec fn referrer_on_record(
    referrer_id: Option<&ReferrerId>,
    referrers: Seq<Option<AccountRef>>,
) -> bool {
    match referrer_id {
        Some(x) => referrers[x.index_spec()].is_some(),
        None => true,
    }
}

/// The token account of the referrer named, among `referrers`.
pub open spec fn referrer_account(
    referrer_id: Option<&ReferrerId>,
    referrers: Seq<Option<AccountRef>>,
) -> Option<AccountRef> {
    match referrer_id {
        Some(x) => referrers[x.index_spec()],
        None => None,
    }
}

/// The ids named, as a plain sequence.
pub open spec fn ids_view(ids: Option<&Vec<UserId>>) -> Option<Seq<UserId>> {
    match ids {
        Some(v) => Some(v@),
        None => None,
    }
}

impl FuzzContext {
    /// There is a place for every trader and every referrer number, and the
    /// state is well-formed.
    pub open spec fn wf(&self) -> bool {
        &&& self.users@.len() == NUM_USERS
        &&& self.referrers@.len() == NUM_USERS
        &&& self.state.wf()
    }

    /// The addresses of the exchange's own accounts are those of `other`.
    pub open spec fn same_addresses(&self, other: &FuzzContext) -> bool {
        &&& self.payer == other.payer
        &&& self.admin == other.admin
        &&& self.base_mint == other.base_mint
        &&& self.quote_mint == other.quote_mint
        &&& self.market == other.market
        &&& self.oracle == other.oracle
        &&& self.bids == other.bids
        &&& self.asks == other.asks
        &&& self.event_queue == other.event_queue
        &&& self.base_vault == other.base_vault
        &&& self.quote_vault == other.quote_vault
        &&& self.collect_fee_admin == other.collect_fee_admin
        &&& self.collect_fee_admin_quote_vault == other.collect_fee_admin_quote_vault
    }

    /// A context for the market that a new payer creates under
    /// `market_index`: new addresses for the payer, the admin, the two
    /// mints, the book, the queue and the fee admin; derived addresses for
    /// the market, the oracle and the vaults; no trader, no referrer, and
    /// a state that holds nothing. `None` where an address cannot be
    /// derived: whatever addresses the host hands out, the context is the
    /// one that `with_addresses` makes of them.
    pub fn new(market_index: u32) -> (r: Option<FuzzContext>)
        ensures
            exists|a: ContextAddresses| #[trigger]
                a.derived_for(market_index) && r.is_some() == a.complete() && (r matches Some(c)
                    ==> c.made_of(a)),
            r matches Some(c) ==> {
                &&& c.wf()
                &&& forall|i: int| 0 <= i < c.users@.len() ==> c.users@[i].is_none()
                &&& forall|i: int| 0 <= i < c.referrers@.len() ==> c.referrers@[i].is_none()
                &&& is_derived(
                    Some(c.market),
                    market_seeds(c.payer, market_index),
                    program_id_bytes(),
                )
                &&& is_derived(
                    Some(c.oracle),
                    oracle_seeds(c.admin, c.base_mint),
                    program_id_bytes(),
                )
                &&& is_derived(
                    Some(c.base_vault),
                    associated_token_seeds(c.market, c.base_mint),
                    associated_token_program_bytes(),
                )
                &&& is_derived(
                    Some(c.quote_vault),
                    associated_token_seeds(c.market, c.quote_mint),
                    associated_token_program_bytes(),
                )
                &&& is_derived(
                    Some(c.collect_fee_admin_quote_vault),
                    associated_token_seeds(c.collect_fee_admin, c.quote_mint),
                    associated_token_program_bytes(),
                )
                &&& c.state@ == StateView::empty()
            },
    {
        let payer = unique_address();
        let admin = unique_address();
        let base_mint = unique_address();
        let quote_mint = unique_address();
        let market = market_address(&payer, market_index);
        let oracle = oracle_address(&admin, &base_mint);
        let bids = unique_address();
        let asks = unique_address();
        let event_queue = unique_address();
        let (base_vault, quote_vault) = match market {
            Some(m) => (
                associated_token_address(&m, &base_mint),
                associated_token_address(&m, &quote_mint),
            ),
            None => (None, None),
        };
        let collect_fee_admin = unique_address();
        let collect_fee_admin_quote_vault = associated_token_address(
            &collect_fee_admin,
            &quote_mint,
        );
        let addresses = ContextAddresses {
            payer,
            admin,
            base_mint,
            quote_mint,
            market,
            oracle,
            bids,
            asks,
            event_queue,
            base_vault,
            quote_vault,
            collect_fee_admin,
            collect_fee_admin_quote_vault,
        };
        assert(addresses.derived_for(market_index));
        FuzzContext::with_addresses(addresses)
    }

    /// The context is made of the addresses `a`, has no trader and no
    /// referrer, and its state holds nothing.
    pub open spec fn made_of(&self, a: ContextAddresses) -> bool {
        &&& self.wf()
        &&& self.payer == a.payer
        &&& self.admin == a.admin
        &&& self.base_mint == a.base_mint
        &&& self.quote_mint == a.quote_mint
        &&& Some(self.market) == a.market
        &&& Some(self.oracle) == a.oracle
        &&& self.bids == a.bids
        &&& self.asks == a.asks
        &&& self.event_queue == a.event_queue
        &&& Some(self.base_vault) == a.base_vault
        &&& Some(self.quote_vault) == a.quote_vault
        &&& self.collect_fee_admin == a.collect_fee_admin
        &&& Some(self.collect_fee_admin_quote_vault) == a.collect_fee_admin_quote_vault
        &&& forall|i: int| 0 <= i < self.users@.len() ==> self.users@[i].is_none()
        &&& forall|i: int| 0 <= i < self.referrers@.len() ==> self.referrers@[i].is_none()
        &&& self.state@ == StateView::empty()
    }

    /// The context that is made of the addresses `a`: with no trader, no
    /// referrer and a state that holds nothing, where every derived address
    /// is there; `None` where one of them is missing.
    pub fn with_addresses(a: ContextAddresses) -> (r: Option<FuzzContext>)
        ensures
            r.is_some() == a.complete(),
            r matches Some(c) ==> c.made_of(a),
    {
        match (
            a.market,
            a.oracle,
            a.base_vault,
            a.quote_vault,
            a.collect_fee_admin_quote_vault,
        ) {
            (
                Some(market),
                Some(oracle),
                Some(base_vault),
                Some(quote_vault),
                Some(collect_fee_admin_quote_vault),
            ) => Some(
                FuzzContext {
                    payer: a.payer,
                    admin: a.admin,
                    base_mint: a.base_mint,
                    quote_mint: a.quote_mint,
                    market,
                    oracle,
                    bids: a.bids,
                    asks: a.asks,
                    event_queue: a.event_queue,
                    base_vault,
                    quote_vault,
                    collect_fee_admin: a.collect_fee_admin,
                    collect_fee_admin_quote_vault,
                    users: no_users(),
                    referrers: no_referrers(),
                    state: AccountsState::new(),
                },
            ),
            _ => None,
        }
    }

    /// The state once the exchange's own accounts are open: the two vaults
    /// of the market and the quote token account of the fee admin, each
    /// empty, and the stub oracle at the price 1.
    pub open spec fn opened(&self) -> StateView {
        StateView {
            oracle_price: Some(Decimal { bits: DECIMAL_ONE }),
            ..self.state@.with_token(
                TokenAccount {
                    address: self.base_vault,
                    owner: self.market,
                    mint: self.base_mint,
                    amount: 0,
                },
            ).with_token(
                TokenAccount {
                    address: self.quote_vault,
                    owner: self.market,
                    mint: self.quote_mint,
                    amount: 0,
                },
            ).with_token(
                TokenAccount {
                    address: self.collect_fee_admin_quote_vault,
                    owner: self.collect_fee_admin,
                    mint: self.quote_mint,
                    amount: 0,
                },
            )
        }
    }

    /// Opens the exchange's own accounts: the two vaults of the market and
    /// the quote token account of the fee admin, each empty, and the stub
    /// oracle, which reports the price 1. Hands the context back for the
    /// next call. The state holds token balances, open-orders accounts, the
    /// market and the oracle price only: the lamports of payer, admin and
    /// fee admin, the mints and the programs are the host's to keep and are
    /// not held here.
    pub fn initialize(&mut self) -> (r: &mut Self)
        requires
            old(self).wf(),
        ensures
            *final(self) == *final(r),
            r.wf(),
            r.same_addresses(old(self)),
            r.users@ == old(self).users@,
            r.referrers@ == old(self).referrers@,
            r.state@ == old(self).opened(),
    {
        self.state.add_token_account(self.base_vault, self.market, self.base_mint, 0);
        self.state.add_token_account(self.quote_vault, self.market, self.quote_mint, 0);
        self.state.add_token_account(
            self.collect_fee_admin_quote_vault,
            self.collect_fee_admin,
            self.quote_mint,
            0,
        );
        self.stub_oracle_create();
        self
    }

    fn stub_oracle_create(&mut self)
        requires
            old(self).wf(),
        ensures
            final(self).wf(),
            final(self).same_addresses(old(self)),
            final(self).users@ == old(self).users@,
            final(self).referrers@ == old(self).referrers@,
            final(self).state@ == (StateView {
                oracle_price: Some(Decimal { bits: DECIMAL_ONE }),
                ..old(self).state@
            }),
    {
        self.state.set_oracle_price(Decimal::one());
    }

    /// The token account that pays for an order of `side`: the trader's
    /// quote account for a bid, the base account for an ask.
    pub open spec fn payer_of(side: Side, u: UserAccounts) -> AccountRef {
        if side == Side::Bid {
            u.quote_vault
        } else {
            u.base_vault
        }
    }

    /// The vault that an order of `side` pays into.
    pub open spec fn vault_of(&self, side: Side) -> AccountRef {
        if side == Side::Bid {
            self.quote_vault
        } else {
            self.base_vault
        }
    }

    /// The state `s` with the accounts of the trader `u`: a base and a
    /// quote token account, each with the initial balance, and an
    /// open-orders account that holds nothing.
    pub open spec fn with_user(&self, s: StateView, u: UserAccounts) -> StateView {
        s.with_token(
            TokenAccount {
                address: u.base_vault,
                owner: u.owner,
                mint: self.base_mint,
                amount: INITIAL_BALANCE,
            },
        ).with_token(
            TokenAccount {
                address: u.quote_vault,
                owner: u.owner,
                mint: self.quote_mint,
                amount: INITIAL_BALANCE,
            },
        ).with_open_orders(u.open_orders, u.owner)
    }

    /// The state `s` once the trader number `idx` has accounts: as it is
    /// where the trader had them, with the accounts of `u` where not.
    pub open spec fn joined(&self, s: StateView, idx: int, u: UserAccounts) -> StateView {
        match self.users@[idx] {
            Some(_) => s,
            None => self.with_user(s, u),
        }
    }

    /// `u` are the accounts that the trader number `idx` had, or, where
    /// the trader had none, accounts whose open-orders address is the one
    /// derived for the trader's wallet in the market.
    pub open spec fn user_known(&self, idx: int, u: UserAccounts) -> bool {
        match self.users@[idx] {
            Some(v) => v == u,
            None => is_derived(
                Some(u.open_orders),
                open_orders_seeds(u.owner, self.market, 0),
                program_id_bytes(),
            ),
        }
    }

    /// The state `s` once the referrer number `idx` has a quote token
    /// account: as it is where the referrer had one, with an empty account
    /// of `owner` at `a` where not.
    pub open spec fn referred(&self, s: StateView, idx: int, a: AccountRef, owner: AccountRef) -> StateView {
        match self.referrers@[idx] {
            Some(_) => s,
            None => s.with_token(
                TokenAccount { address: a, owner, mint: self.quote_mint, amount: 0 },
            ),
        }
    }

    /// The referrers once the one named, if any, has the token account
    /// `a`.
    pub open spec fn referrers_with(&self, referrer: Option<ReferrerId>, a: Option<AccountRef>) -> Seq<
        Option<AccountRef>,
    > {
        match referrer {
            Some(id) => self.referrers@.update(id.index_spec(), a),
            None => self.referrers@,
        }
    }

    /// The state once the referrer named, if any, has a token account.
    pub open spec fn referred_by(
        &self,
        referrer: Option<ReferrerId>,
        a: Option<AccountRef>,
        owner: AccountRef,
    ) -> StateView {
        match (referrer, a) {
            (Some(id), Some(x)) => self.referred(self.state@, id.index_spec(), x, owner),
            _ => self.state@,
        }
    }

    /// The accounts of the trader `user_id`, which are opened if the
    /// trader has none yet. `None`, and no change, where no address can be
    /// derived for the trader's open-orders account; with it the wallet
    /// that was drawn for the trader.
    fn get_or_create_new_user(&mut self, user_id: &UserId) -> (found: (
        Option<UserAccounts>,
        Ghost<AccountRef>,
    ))
        requires
            old(self).wf(),
        ensures
            final(self).wf(),
            final(self).same_addresses(old(self)),
            final(self).referrers@ == old(self).referrers@,
            match found.0 {
                None => old(self).users@[user_id.index_spec()].is_none() && underivable(
                    old(self).market,
                    found.1@,
                ) && final(self).users@ == old(self).users@ && final(self).state@ == old(self).state@,
                Some(u) => final(self).users@ == old(self).users@.update(
                    user_id.index_spec(),
                    Some(u),
                ) && old(self).user_known(user_id.index_spec(), u) && final(self).state@ == old(self).joined(old(self).state@, user_id.index_spec(), u),
            },
    {
        let idx = user_id.index();
        match self.users[idx] {
            Some(u) => {
                assert(self.users@ =~= old(self).users@.update(idx as int, Some(u)));
                (Some(u), Ghost(u.owner))
            },
            None => {
                let owner = unique_address();
                let base_vault = unique_address();
                let quote_vault = unique_address();
                let open_orders = match open_orders_address(&owner, &self.market, 0) {
                    Some(a) => a,
                    None => {
                        return (None, Ghost(owner));
                    },
                };
                self.state.add_token_account(base_vault, owner, self.base_mint, INITIAL_BALANCE);
                self.state.add_token_account(quote_vault, owner, self.quote_mint, INITIAL_BALANCE);
                self.state.add_open_orders(open_orders, owner);
                let u = UserAccounts { owner, open_orders, base_vault, quote_vault };
                self.users.set(idx, Some(u));
                (Some(u), Ghost(owner))
            },
        }
    }

    /// The quote token account of the referrer `referrer_id`: the one on
    /// record, where the referrer has one, and nothing changes then; else
    /// one that is opened, empty, and put on record. With it the owner that
    /// a new account was given.
    fn get_or_create_new_referrer(&mut self, referrer_id: &ReferrerId) -> (r: (
        AccountRef,
        Ghost<AccountRef>,
    ))
        requires
            old(self).wf(),
        ensures
            final(self).wf(),
            final(self).same_addresses(old(self)),
            final(self).users@ == old(self).users@,
            final(self).referrers@ == old(self).referrers@.update(
                referrer_id.index_spec(),
                Some(r.0),
            ),
            old(self).referrers@[referrer_id.index_spec()] matches Some(x) ==> r.0 == x && final(self).referrers@ == old(self).referrers@,
            final(self).state@ == old(self).referred(
                old(self).state@,
                referrer_id.index_spec(),
                r.0,
                r.1@,
            ),
    {
        let idx = referrer_id.index();
        match self.referrers[idx] {
            Some(a) => {
                assert(self.referrers@ =~= old(self).referrers@.update(idx as int, Some(a)));
                (a, Ghost(a))
            },
            None => {
                let quote_vault = unique_address();
                let owner = unique_address();
                self.state.add_token_account(quote_vault, owner, self.quote_mint, 0);
                self.referrers.set(idx, Some(quote_vault));
                (quote_vault, Ghost(owner))
            },
        }
    }

    /// The open-orders accounts of those of `ids` that have accounts, in
    /// the order of `ids`, without the trader `skip`: the accounts that an
    /// instruction names beside the one it is for.
    pub fn maker_accounts(&self, ids: &Vec<UserId>, skip: Option<UserId>) -> (r: Vec<AccountRef>)
        requires
            self.users@.len() == NUM_USERS,
        ensures
            r@ == refs_of(self.users@, ids@, skip),
    {
        let mut out: Vec<AccountRef> = Vec::new();
        let mut i: usize = 0;
        while i < ids.len()
            invariant
                i <= ids@.len(),
                self.users@.len() == NUM_USERS,
                out@ == refs_upto(self.users@, ids@, skip, i as int),
            decreases ids@.len() - i,
        {
            let id = ids[i];
            let skipped = match skip {
                Some(t) => t.index() == id.index(),
                None => false,
            };
            match self.users[id.index()] {
                Some(u) => {
                    if !skipped {
                        out.push(u.open_orders);
                    }
                },
                None => {},
            }
            i += 1;
        }
        out
    }

    /// Creates the market with the fee admin of the context. Refused, and
    /// nothing changed, where there is a market already or the parameters
    /// are not valid.
    pub fn create_market(&mut self, data: CreateMarket) -> (r: Result<(), ProgramError>)
        requires
            old(self).wf(),
        ensures
            final(self).wf(),
            final(self).same_addresses(old(self)),
            final(self).users@ == old(self).users@,
            final(self).referrers@ == old(self).referrers@,
            (final(self).state@, r) == old(self).state@.market_created(
                data,
                old(self).collect_fee_admin,
            ),
    {
        self.state.create_market(&data, self.collect_fee_admin)
    }

    /// The state after a deposit for the trader `u`, number `idx`, and the
    /// answer: the trader's accounts are opened if there are none, and
    /// then the amounts are paid from the trader's token accounts into the
    /// free balances of the trader's open-orders account.
    pub open spec fn deposit_result(&self, idx: int, u: UserAccounts, data: Deposit) -> (
        StateView,
        Result<(), ProgramError>,
    ) {
        self.joined(self.state@, idx, u).deposited(
            u.open_orders,
            u.base_vault,
            u.quote_vault,
            self.base_vault,
            self.quote_vault,
            data.base_amount,
            data.quote_amount,
        )
    }

    /// Pays into the free balances of a trader's open-orders account, from
    /// the trader's token accounts. A trader without accounts gets them
    /// first; where they cannot be opened, because no address can be
    /// derived for the wallet that was drawn, nothing changes.
    pub fn deposit(&mut self, user_id: &UserId, data: &Deposit) -> (r: Result<(), ProgramError>)
        requires
            old(self).wf(),
        ensures
            final(self).wf(),
            final(self).same_addresses(old(self)),
            final(self).referrers@ == old(self).referrers@,
            match final(self).users@[user_id.index_spec()] {
                None => r == Err::<(), ProgramError>(ProgramError::AddressNotDerived) && old(self).unjoined(user_id.index_spec(), final(self)),
                Some(u) => final(self).users@ == old(self).users@.update(
                    user_id.index_spec(),
                    Some(u),
                ) && old(self).user_known(user_id.index_spec(), u) && (final(self).state@, r)
                    == old(self).deposit_result(user_id.index_spec(), u, *data),
            },
    {
        let (found, owner) = self.get_or_create_new_user(user_id);
        let user = match found {
            Some(u) => u,
            None => {
                assert(underivable(self.market, owner@));
                return Err(ProgramError::AddressNotDerived);
            },
        };
        self.state.deposit(
            &user.open_orders,
            &user.base_vault,
            &user.quote_vault,
            &self.base_vault,
            &self.quote_vault,
            data.base_amount,
            data.quote_amount,
        )
    }

    /// The trader number `idx` had no accounts and could not be given any:
    /// for the wallet that was drawn no open-orders address can be derived
    /// in the market. Traders and state are in `after` as they were.
    pub open spec fn unjoined(&self, idx: int, after: &FuzzContext) -> bool {
        &&& self.users@[idx].is_none()
        &&& exists|owner: AccountRef| #[trigger] underivable(self.market, owner)
        &&& after.users@ == self.users@
        &&& after.state@ == self.state@
    }

    /// The state after `order` was placed for the trader `u` on the state
    /// `s`, and the outcome: the order is paid from the trader's token
    /// account of its side; where the placement succeeds and makers are
    /// named, the waiting events of those among `users` that have
    /// accounts, but for the taker's own, are then applied as by a
    /// consumption without a limit. Where that consumption fails, the
    /// placement fails with its error and the state is `s` again.
    pub open spec fn place_result(
        &self,
        s: StateView,
        users: Seq<Option<UserAccounts>>,
        user_id: UserId,
        u: UserAccounts,
        order: IncomingOrder,
        makers: Option<Seq<UserId>>,
    ) -> (StateView, Result<PlacementOutcome, ProgramError>) {
        let (placed, outcome) = s.placed(
            order,
            FuzzContext::payer_of(order.side, u),
            self.vault_of(order.side),
        );
        match makers {
            Some(ids) => if outcome.is_ok() {
                let (consumed, count) = placed.consumed(
                    refs_of(users, ids, Some(user_id)),
                    None,
                    usize::MAX as int,
                );
                match count {
                    Ok(_) => (consumed, outcome),
                    Err(e) => (s, Err(e)),
                }
            } else {
                (placed, outcome)
            },
            None => (placed, outcome),
        }
    }

    /// Places `order` for the trader `user` and applies the waiting events
    /// of the makers named. On an error nothing changes.
    fn place_for(
        &mut self,
        user_id: &UserId,
        user: UserAccounts,
        order: &IncomingOrder,
        makers: Option<&Vec<UserId>>,
    ) -> (r: Result<PlacementOutcome, ProgramError>)
        requires
            old(self).wf(),
        ensures
            final(self).wf(),
            final(self).same_addresses(old(self)),
            final(self).referrers@ == old(self).referrers@,
            final(self).users@ == old(self).users@,
            (final(self).state@, r) == old(self).place_result(
                old(self).state@,
                old(self).users@,
                *user_id,
                user,
                *order,
                ids_view(makers),
            ),
    {
        let is_bid = match order.side {
            Side::Bid => true,
            Side::Ask => false,
        };
        match makers {
            None => if is_bid {
                self.state.place_order(order, &user.quote_vault, &self.quote_vault)
            } else {
                self.state.place_order(order, &user.base_vault, &self.base_vault)
            },
            Some(ids) => {
                let saved = self.state.duplicate();
                let r = if is_bid {
                    self.state.place_order(order, &user.quote_vault, &self.quote_vault)
                } else {
                    self.state.place_order(order, &user.base_vault, &self.base_vault)
                };
                if r.is_ok() {
                    let supplied = self.maker_accounts(ids, Some(*user_id));
                    match self.state.consume_events(&supplied, None, usize::MAX) {
                        Ok(_) => {},
                        Err(e) => {
                            self.state = saved;
                            return Err(e);
                        },
                    }
                }
                r
            },
        }
    }

    /// What holds of a placement for the trader `user_id`, with the order
    /// that `order_of` makes for the trader's accounts: where the trader's
    /// accounts cannot be opened, nothing has changed; else the trader has
    /// accounts, and state and answer are as `place_result` says of the
    /// state with those accounts.
    pub open spec fn place_post(
        &self,
        user_id: UserId,
        order_of: spec_fn(UserAccounts) -> IncomingOrder,
        makers: Option<Seq<UserId>>,
        r: Result<(), ProgramError>,
        after: &FuzzContext,
    ) -> bool {
        let idx = user_id.index_spec();
        match after.users@[idx] {
            None => r == Err::<(), ProgramError>(ProgramError::AddressNotDerived)
                && self.unjoined(idx, after),
            Some(u) => {
                let res = self.place_result(
                    self.joined(self.state@, idx, u),
                    after.users@,
                    user_id,
                    u,
                    order_of(u),
                    makers,
                );
                &&& after.users@ == self.users@.update(idx, Some(u))
                &&& self.user_known(idx, u)
                &&& after.state@ == res.0
                &&& r == unit(res.1)
            },
        }
    }

    /// Places an order at a fixed price for a trader, who gets accounts
    /// first where there are none. The events of the makers named, but for
    /// the trader's own, are applied right after the placement.
    pub fn place_order(&mut self, user_id: &UserId, data: &PlaceOrder, makers: Option<&Vec<UserId>>) -> (r:
        Result<(), ProgramError>)
        requires
            old(self).wf(),
        ensures
            final(self).wf(),
            final(self).same_addresses(old(self)),
            final(self).referrers@ == old(self).referrers@,
            old(self).place_post(
                *user_id,
                |u: UserAccounts| limit_order(u, *data),
                ids_view(makers),
                r,
                final(self),
            ),
    {
        let (found, owner) = self.get_or_create_new_user(user_id);
        let user = match found {
            Some(u) => u,
            None => {
                assert(underivable(self.market, owner@));
                return Err(ProgramError::AddressNotDerived);
            },
        };
        let order = IncomingOrder {
            owner: user.open_orders,
            side: data.side,
            price_lots: data.price_lots,
            max_base_lots: data.max_base_lots,
            max_quote_lots_including_fees: data.max_quote_lots_including_fees,
            order_type: data.order_type,
            self_trade_behavior: data.self_trade_behavior,
            client_order_id: data.client_order_id,
            expiry_timestamp: data.expiry_timestamp,
            is_pegged: false,
            peg_offset: 0,
            peg_limit: 0,
        };
        match self.place_for(user_id, user, &order, makers) {
            Ok(_) => Ok(()),
            Err(e) => Err(e),
        }
    }

    /// Places an order whose price follows the oracle for a trader, who
    /// gets accounts first where there are none. The events of the makers
    /// named, but for the trader's own, are applied right after the
    /// placement.
    pub fn place_order_pegged(
        &mut self,
        user_id: &UserId,
        data: &PlaceOrderPegged,
        makers: Option<&Vec<UserId>>,
    ) -> (r: Result<(), ProgramError>)
        requires
            old(self).wf(),
        ensures
            final(self).wf(),
            final(self).same_addresses(old(self)),
            final(self).referrers@ == old(self).referrers@,
            old(self).place_post(
                *user_id,
                |u: UserAccounts| pegged_order(u, *data),
                ids_view(makers),
                r,
                final(self),
            ),
    {
        let (found, owner) = self.get_or_create_new_user(user_id);
        let user = match found {
            Some(u) => u,
            None => {
                assert(underivable(self.market, owner@));
                return Err(ProgramError::AddressNotDerived);
            },
        };
        let order = IncomingOrder {
            owner: user.open_orders,
            side: data.side,
            price_lots: data.peg_limit,
            max_base_lots: data.max_base_lots,
            max_quote_lots_including_fees: data.max_quote_lots_including_fees,
            order_type: data.order_type,
            self_trade_behavior: data.self_trade_behavior,
            client_order_id: data.client_order_id,
            expiry_timestamp: data.expiry_timestamp,
            is_pegged: true,
            peg_offset: data.price_offset_lots,
            peg_limit: data.peg_limit,
        };
        match self.place_for(user_id, user, &order, makers) {
            Ok(_) => Ok(()),
            Err(e) => Err(e),
        }
    }

    /// Applies waiting events to the open-orders accounts of the traders
    /// named that have accounts, at most as many as `data` allows. On an
    /// error nothing changes.
    pub fn consume_events(&mut self, user_ids: &Vec<UserId>, data: &ConsumeEvents) -> (r: Result<
        (),
        ProgramError,
    >)
        requires
            old(self).wf(),
        ensures
            final(self).wf(),
            final(self).same_addresses(old(self)),
            final(self).users@ == old(self).users@,
            final(self).referrers@ == old(self).referrers@,
            ({
                let res = old(self).state@.consumed(
                    refs_of(old(self).users@, user_ids@, None),
                    None,
                    data.limit as int,
                );
                final(self).state@ == res.0 && r == unit(res.1)
            }),
    {
        let supplied = self.maker_accounts(user_ids, None);
        match self.state.consume_events(&supplied, None, data.limit) {
            Ok(_) => Ok(()),
            Err(e) => Err(e),
        }
    }

    /// Applies the waiting events that `data` names by their sequence
    /// numbers to the open-orders accounts of the traders named that have
    /// accounts. On an error nothing changes.
    pub fn consume_given_events(&mut self, user_ids: &Vec<UserId>, data: &ConsumeGivenEvents) -> (r:
        Result<(), ProgramError>)
        requires
            old(self).wf(),
        ensures
            final(self).wf(),
            final(self).same_addresses(old(self)),
            final(self).users@ == old(self).users@,
            final(self).referrers@ == old(self).referrers@,
            ({
                let res = old(self).state@.consumed(
                    refs_of(old(self).users@, user_ids@, None),
                    Some(data.seq_nums@),
                    usize::MAX as int,
                );
                final(self).state@ == res.0 && r == unit(res.1)
            }),
    {
        let supplied = self.maker_accounts(user_ids, None);
        match self.state.consume_events(&supplied, Some(&data.seq_nums), usize::MAX) {
            Ok(_) => Ok(()),
            Err(e) => Err(e),
        }
    }

    /// Cancels the resting order of a trader with the sequence number that
    /// `data` names. A trader without accounts has no orders: nothing
    /// changes. An order that is not found is no error either.
    pub fn cancel_order(&mut self, user_id: &UserId, data: &CancelOrder) -> (r: Result<
        (),
        ProgramError,
    >)
        requires
            old(self).wf(),
        ensures
            final(self).wf(),
            final(self).same_addresses(old(self)),
            final(self).users@ == old(self).users@,
            final(self).referrers@ == old(self).referrers@,
            match old(self).users@[user_id.index_spec()] {
                None => r.is_ok() && final(self).state@ == old(self).state@,
                Some(u) => {
                    let res = old(self).state@.cancelled(
                        u.open_orders,
                        locate_order(
                            old(self).state@.bids,
                            old(self).state@.asks,
                            u.open_orders,
                            data.order_id,
                        ),
                    );
                    final(self).state@ == res.0 && r == unit(res.1)
                },
            },
    {
        let user = match self.users[user_id.index()] {
            Some(u) => u,
            None => {
                return Ok(());
            },
        };
        match self.state.cancel_order(&user.open_orders, data.order_id) {
            Ok(_) => Ok(()),
            Err(e) => Err(e),
        }
    }

    /// Cancels the first resting order that a trader placed under the id
    /// that `data` names. A trader without accounts has no orders: nothing
    /// changes. An order that is not found is no error either.
    pub fn cancel_order_by_client_order_id(
        &mut self,
        user_id: &UserId,
        data: &CancelOrderByClientOrderId,
    ) -> (r: Result<(), ProgramError>)
        requires
            old(self).wf(),
        ensures
            final(self).wf(),
            final(self).same_addresses(old(self)),
            final(self).users@ == old(self).users@,
            final(self).referrers@ == old(self).referrers@,
            match old(self).users@[user_id.index_spec()] {
                None => r.is_ok() && final(self).state@ == old(self).state@,
                Some(u) => {
                    let res = old(self).state@.cancelled(
                        u.open_orders,
                        locate_client_order(
                            old(self).state@.bids,
                            old(self).state@.asks,
                            u.open_orders,
                            data.client_order_id,
                        ),
                    );
                    final(self).state@ == res.0 && r == unit(res.1)
                },
            },
    {
        let user = match self.users[user_id.index()] {
            Some(u) => u,
            None => {
                return Ok(());
            },
        };
        match self.state.cancel_order_by_client_order_id(
            &user.open_orders,
            data.client_order_id,
        ) {
            Ok(_) => Ok(()),
            Err(e) => Err(e),
        }
    }

    /// Cancels resting orders of a trader, at most as many as `data`
    /// allows, bids before asks. A trader without accounts has no orders:
    /// nothing changes.
    pub fn cancel_all_orders(&mut self, user_id: &UserId, data: &CancelAllOrders) -> (r: Result<
        (),
        ProgramError,
    >)
        requires
            old(self).wf(),
        ensures
            final(self).wf(),
            final(self).same_addresses(old(self)),
            final(self).users@ == old(self).users@,
            final(self).referrers@ == old(self).referrers@,
            match old(self).users@[user_id.index_spec()] {
                None => r.is_ok() && final(self).state@ == old(self).state@,
                Some(u) => {
                    let res = old(self).state@.cancelled_all(u.open_orders, data.limit);
                    final(self).state@ == res.0 && r == unit(res.1)
                },
            },
    {
        let user = match self.users[user_id.index()] {
            Some(u) => u,
            None => {
                return Ok(());
            },
        };
        match self.state.cancel_all_orders(&user.open_orders, data.limit) {
            Ok(_) => Ok(()),
            Err(e) => Err(e),
        }
    }

    /// The state after the settlement of the trader number `idx` on the
    /// state `s`, and the answer: a trader without accounts has nothing to
    /// settle and nothing changes; else the trader's open-orders account
    /// is settled, with the referrer's token account `referrer` where one
    /// is named.
    pub open spec fn settle_result(&self, s: StateView, idx: int, referrer: Option<AccountRef>) -> (
        StateView,
        Result<(), ProgramError>,
    ) {
        match self.users@[idx] {
            None => (s, Ok(())),
            Some(u) => {
                let res = s.settled(
                    u.open_orders,
                    u.base_vault,
                    u.quote_vault,
                    self.base_vault,
                    self.quote_vault,
                    referrer,
                );
                (res.0, unit(res.1))
            },
        }
    }

    /// What holds of a settlement for the trader number `idx`, where the
    /// token account of the referrer named, if any, is `a`, and a new one
    /// was given the owner `owner`: the referrer has a token account, and
    /// then state and answer are as `settle_result` says.
    pub open spec fn settle_post(
        &self,
        referrer: Option<ReferrerId>,
        a: Option<AccountRef>,
        owner: AccountRef,
        idx: int,
        r: Result<(), ProgramError>,
        after: StateView,
    ) -> bool {
        (after, r) == self.settle_result(self.referred_by(referrer, a, owner), idx, a)
    }

    /// Pays out what is free in a trader's open-orders account. A referrer
    /// that is named is paid the referrer's claim to the token account on
    /// record for it; where none is on record, one is opened first.
    pub fn settle_funds(
        &mut self,
        user_id: &UserId,
        data: &SettleFunds,
        referrer_id: Option<&ReferrerId>,
    ) -> (r: Result<(), ProgramError>)
        requires
            old(self).wf(),
        ensures
            final(self).wf(),
            final(self).same_addresses(old(self)),
            final(self).users@ == old(self).users@,
            referrer_id matches Some(x) ==> final(self).referrers@[x.index_spec()].is_some(),
            referrer_on_record(referrer_id, old(self).referrers@) ==> final(self).referrers@
                == old(self).referrers@,
            final(self).referrers@ == old(self).referrers_with(
                referrer_named(referrer_id),
                referrer_account(referrer_id, final(self).referrers@),
            ),
            exists|owner: AccountRef| #[trigger]
                old(self).settle_post(
                    referrer_named(referrer_id),
                    referrer_account(referrer_id, final(self).referrers@),
                    owner,
                    user_id.index_spec(),
                    r,
                    final(self).state@,
                ),
    {
        let mut referrer: Option<AccountRef> = None;
        let ghost mut owner: AccountRef = self.payer;
        match referrer_id {
            Some(id) => {
                let (a, o) = self.get_or_create_new_referrer(id);
                referrer = Some(a);
                proof {
                    owner = o@;
                }
            },
            None => {},
        }
        assert(referrer == referrer_account(referrer_id, self.referrers@));
        let r = match self.users[user_id.index()] {
            None => Ok(()),
            Some(user) => {
                let done = match referrer {
                    Some(a) => self.state.settle_funds(
                        &user.open_orders,
                        &user.base_vault,
                        &user.quote_vault,
                        &self.base_vault,
                        &self.quote_vault,
                        Some(&a),
                    ),
                    None => self.state.settle_funds(
                        &user.open_orders,
                        &user.base_vault,
                        &user.quote_vault,
                        &self.base_vault,
                        &self.quote_vault,
                        None,
                    ),
                };
                match done {
                    Ok(_) => Ok(()),
                    Err(e) => Err(e),
                }
            },
        };
        proof {
            assert(old(self).settle_post(
                referrer_named(referrer_id),
                referrer,
                owner,
                user_id.index_spec(),
                r,
                self.state@,
            ));
        }
        r
    }

    /// The state after the trader `u` took with `order` on the state `s`,
    /// and the answer: the order is placed as `place_result` says; where
    /// that succeeds, the trader's open-orders account is settled at once,
    /// with the referrer's token account `referrer` where one is named.
    /// Where the settlement is refused, the whole order fails with the
    /// settlement's error and the state is `s` again.
    pub open spec fn take_result(
        &self,
        s: StateView,
        users: Seq<Option<UserAccounts>>,
        user_id: UserId,
        u: UserAccounts,
        order: IncomingOrder,
        referrer: Option<AccountRef>,
        makers: Option<Seq<UserId>>,
    ) -> (StateView, Result<(), ProgramError>) {
        let (placed, outcome) = self.place_result(s, users, user_id, u, order, makers);
        if outcome.is_ok() {
            let (settled, paid) = placed.settled(
                u.open_orders,
                u.base_vault,
                u.quote_vault,
                self.base_vault,
                self.quote_vault,
                referrer,
            );
            match paid {
                Ok(_) => (settled, Ok(())),
                Err(e) => (s, Err(e)),
            }
        } else {
            (placed, unit(outcome))
        }
    }

    /// What holds of an order that only takes, placed for the trader
    /// `user_id`, where the token account of the referrer named, if any,
    /// is `a`, and a new one was given the owner `owner`: the referrer has
    /// a token account; where the trader's accounts cannot be opened,
    /// nothing else has changed; else the trader has accounts, and state
    /// and answer are as `take_result` says.
    pub open spec fn take_post(
        &self,
        user_id: UserId,
        data: PlaceTakeOrder,
        referrer: Option<ReferrerId>,
        a: Option<AccountRef>,
        owner: AccountRef,
        makers: Option<Seq<UserId>>,
        r: Result<(), ProgramError>,
        after: &FuzzContext,
    ) -> bool {
        let idx = user_id.index_spec();
        let s0 = self.referred_by(referrer, a, owner);
        match after.users@[idx] {
            None => {
                &&& r == Err::<(), ProgramError>(ProgramError::AddressNotDerived)
                &&& self.users@[idx].is_none()
                &&& exists|wallet: AccountRef| #[trigger] underivable(self.market, wallet)
                &&& after.users@ == self.users@
                &&& after.state@ == s0
            },
            Some(u) => {
                &&& after.users@ == self.users@.update(idx, Some(u))
                &&& self.user_known(idx, u)
                &&& (after.state@, r) == self.take_result(
                    self.joined(s0, idx, u),
                    after.users@,
                    user_id,
                    u,
                    take_order(u, data),
                    a,
                    makers,
                )
            },
        }
    }

    /// Places an order that only takes for a trader, and pays out at once
    /// what the trader has free. The trader gets accounts first where
    /// there are none, and so does a referrer that is named. The events of
    /// the makers named, but for the trader's own, are applied right after
    /// the placement. Where the placement, the consumption or the
    /// settlement fails, the order fails with that error and nothing that
    /// it did stands.
    #[verifier::rlimit(60)]
    pub fn place_take_order(
        &mut self,
        user_id: &UserId,
        data: &PlaceTakeOrder,
        referrer_id: Option<&ReferrerId>,
        makers: Option<&Vec<UserId>>,
    ) -> (r: Result<(), ProgramError>)
        requires
            old(self).wf(),
        ensures
            final(self).wf(),
            final(self).same_addresses(old(self)),
            referrer_id matches Some(x) ==> final(self).referrers@[x.index_spec()].is_some(),
            referrer_on_record(referrer_id, old(self).referrers@) ==> final(self).referrers@
                == old(self).referrers@,
            final(self).referrers@ == old(self).referrers_with(
                referrer_named(referrer_id),
                referrer_account(referrer_id, final(self).referrers@),
            ),
            exists|owner: AccountRef| #[trigger]
                old(self).take_post(
                    *user_id,
                    *data,
                    referrer_named(referrer_id),
                    referrer_account(referrer_id, final(self).referrers@),
                    owner,
                    ids_view(makers),
                    r,
                    final(self),
                ),
    {
        let mut referrer: Option<AccountRef> = None;
        let ghost mut owner: AccountRef = self.payer;
        match referrer_id {
            Some(id) => {
                let (a, o) = self.get_or_create_new_referrer(id);
                referrer = Some(a);
                proof {
                    owner = o@;
                }
            },
            None => {},
        }
        assert(referrer == referrer_account(referrer_id, self.referrers@));
        let ghost referred = *self;
        let (found, wallet) = self.get_or_create_new_user(user_id);
        let r = match found {
            None => {
                assert(underivable(self.market, wallet@));
                Err(ProgramError::AddressNotDerived)
            },
            Some(user) => {
                let saved = self.state.duplicate();
                let order = IncomingOrder {
                    owner: user.open_orders,
                    side: data.side,
                    price_lots: data.price_lots,
                    max_base_lots: data.max_base_lots,
                    max_quote_lots_including_fees: data.max_quote_lots_including_fees,
                    order_type: if data.fill_or_kill {
                        OrderType::FillOrKill
                    } else {
                        OrderType::ImmediateOrCancel
                    },
                    self_trade_behavior: data.self_trade_behavior,
                    client_order_id: 0,
                    expiry_timestamp: 0,
                    is_pegged: false,
                    peg_offset: 0,
                    peg_limit: 0,
                };
                match self.place_for(user_id, user, &order, makers) {
                    Ok(_) => {
                        let paid = match referrer {
                            Some(a) => self.state.settle_funds(
                                &user.open_orders,
                                &user.base_vault,
                                &user.quote_vault,
                                &self.base_vault,
                                &self.quote_vault,
                                Some(&a),
                            ),
                            None => self.state.settle_funds(
                                &user.open_orders,
                                &user.base_vault,
                                &user.quote_vault,
                                &self.base_vault,
                                &self.quote_vault,
                                None,
                            ),
                        };
                        match paid {
                            Ok(_) => Ok(()),
                            Err(e) => {
                                self.state = saved;
                                Err(e)
                            },
                        }
                    },
                    Err(e) => Err(e),
                }
            },
        };
        proof {
            assert(referred.users@ == old(self).users@);
            assert(old(self).take_post(
                *user_id,
                *data,
                referrer_named(referrer_id),
                referrer,
                owner,
                ids_view(makers),
                r,
                self,
            ));
        }
        r
    }

    /// Hands the market's fees to the fee admin of the context: they move
    /// from the market's quote vault to the fee admin's quote token
    /// account. On an error nothing changes.
    pub fn sweep_fees(&mut self, data: &SweepFees) -> (r: Result<(), ProgramError>)
        requires
            old(self).wf(),
        ensures
            final(self).wf(),
            final(self).same_addresses(old(self)),
            final(self).users@ == old(self).users@,
            final(self).referrers@ == old(self).referrers@,
            ({
                let res = old(self).state@.swept(
                    old(self).collect_fee_admin,
                    old(self).collect_fee_admin_quote_vault,
                    old(self).quote_vault,
                );
                final(self).state@ == res.0 && r == unit(res.1)
            }),
    {
        match self.state.sweep_fees(
            &self.collect_fee_admin,
            &self.collect_fee_admin_quote_vault,
            &self.quote_vault,
        ) {
            Ok(_) => Ok(()),
            Err(e) => Err(e),
        }
    }

    /// Sets the price that the stub oracle reports. Refused, and nothing
    /// changed, where the oracle was never opened.
    pub fn stub_oracle_set(&mut self, data: &StubOracleSet) -> (r: Result<(), ProgramError>)
        requires
            old(self).wf(),
        ensures
            final(self).wf(),
            final(self).same_addresses(old(self)),
            final(self).users@ == old(self).users@,
            final(self).referrers@ == old(self).referrers@,
            old(self).state@.oracle_price.is_none() ==> r == Err::<(), ProgramError>(
                ProgramError::AccountNotFound,
            ) && final(self).state@ == old(self).state@,
            old(self).state@.oracle_price.is_some() ==> r.is_ok() && final(self).state@ == (
            StateView { oracle_price: Some(data.price), ..old(self).state@ }),
    {
        if self.state.oracle_price.is_none() {
            return Err(ProgramError::AccountNotFound);
        }
        self.state.set_oracle_price(data.price);
        Ok(())
    }
}

} // verus!
