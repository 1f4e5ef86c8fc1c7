use vstd::prelude::*;
use crate::address::{contains_ref, AccountRef};
use crate::event_queue::{seqs_view, split_upto, Event, EventQueue, FillEvent};
use crate::lots::{checked_sum, fits_i64};
use crate::market::Market;
use crate::position::{accounts_ok, find_account, first_account, OpenOrdersAccount, Position};
use crate::types::{MatchError, ProgramError};

verus! {

/// Native amounts that the token-transfer collaborator is asked to move out
/// of the market's vaults.
#[derive(Clone, Copy, Debug, PartialEq, Eq, Structural)]
pub struct TransferRequest {
    /// Base units for the owner's base token account.
    pub base_native: i64,
    /// Quote units for the owner's quote token account, or, of a sweep, for
    /// the fee admin's.
    pub quote_native: i64,
    /// Quote units for the referrer's token account.
    pub referrer_native: i64,
}

/// What a referrer is paid by a settlement: all that the account has for
/// a referrer to claim; nothing where no referrer is named.
pub open spec fn referrer_claim(position: Position, has_referrer: bool) -> i64 {
    if has_referrer {
        position.referrer_rebates_available
    } else {
        0
    }
}

/// What a settlement asks to be transferred: all that is free, and the
/// referrer's claim.
pub open spec fn settle_transfer(position: Position, has_referrer: bool) -> TransferRequest {
    TransferRequest {
        base_native: position.base_free_native,
        quote_native: position.quote_free_native,
        referrer_native: referrer_claim(position, has_referrer),
    }
}

/// The market after a settlement. The account's share leaves what the
/// accounts may claim for referrers; where a referrer is named, it is paid
/// out of the market's fees. Refused with `ArithmeticOverflow` where the
/// account claims more than the accounts together may, and with
/// `InsufficientFunds` where a referrer is named and the fees do not hold
/// the share.
pub open spec fn settle_market(position: Position, market: Market, has_referrer: bool) -> Result<
    Market,
    MatchError,
> {
    let share = position.referrer_rebates_available;
    if share > market.referrer_rebates_accrued {
        Err(MatchError::ArithmeticOverflow)
    } else if has_referrer && share > market.fees_accrued {
        Err(MatchError::InsufficientFunds)
    } else {
        Ok(
            Market {
                fees_accrued: (market.fees_accrued - referrer_claim(position, has_referrer)) as i64,
                referrer_rebates_accrued: (market.referrer_rebates_accrued - share) as i64,
                ..market
            },
        )
    }
}

/// Settles an account: its free balances go to zero and are asked to be
/// transferred to the owner, the same with and without a referrer. A
/// referrer that is named is paid the account's share, all of it, out of
/// the market's fees; where none is named the share stays with the fees.
/// Either way the account has no share left. Refused, and nothing changed,
/// as `settle_market` says.
pub fn settle_funds(position: &mut Position, market: &mut Market, has_referrer: bool) -> (r:
    Result<TransferRequest, MatchError>)
    requires
        old(position).wf(),
        old(market).wf(),
    ensures
        final(position).wf(),
        final(market).wf(),
        match settle_market(*old(position), *old(market), has_referrer) {
            Err(e) => {
                &&& r == Err::<TransferRequest, MatchError>(e)
                &&& *final(position) == *old(position)
                &&& *final(market) == *old(market)
            },
            Ok(m) => {
                &&& r == Ok::<TransferRequest, MatchError>(
                    settle_transfer(*old(position), has_referrer),
                )
                &&& *final(position) == old(position).withdrawn()
                &&& *final(market) == m
            },
        },
        r matches Ok(t) ==> {
            &&& t.base_native == old(position).base_free_native
            &&& t.quote_native == old(position).quote_free_native
            &&& t.referrer_native == (if has_referrer {
                old(position).referrer_rebates_available
            } else {
                0
            })
            &&& t.base_native >= 0 && t.quote_native >= 0 && t.referrer_native >= 0
            &&& final(market).fees_accrued + t.referrer_native == old(market).fees_accrued
        },
{
    let share = position.referrer_rebates_available;
    if share > market.referrer_rebates_accrued {
        return Err(MatchError::ArithmeticOverflow);
    }
    if has_referrer && share > market.fees_accrued {
        return Err(MatchError::InsufficientFunds);
    }
    let paid = if has_referrer {
        share
    } else {
        0
    };
    let r = TransferRequest {
        base_native: position.base_free_native,
        quote_native: position.quote_free_native,
        referrer_native: paid,
    };
    position.base_free_native = 0;
    position.quote_free_native = 0;
    position.referrer_rebates_available = 0;
    market.fees_accrued = market.fees_accrued - paid;
    market.referrer_rebates_accrued = market.referrer_rebates_accrued - share;
    Ok(r)
}

/// Settlement is idempotent: a second settlement right after a first that
/// succeeded, with or without a referrer, succeeds, transfers nothing and
/// changes nothing.
pub proof fn lemma_settle_twice(position: Position, market: Market, first: bool, second: bool)
    requires
        position.wf(),
        market.wf(),
    ensures
        settle_market(position, market, first) matches Ok(m) ==> {
            &&& settle_market(position.withdrawn(), m, second) == Ok::<Market, MatchError>(m)
            &&& settle_transfer(position.withdrawn(), second) == (TransferRequest {
                base_native: 0,
                quote_native: 0,
                referrer_native: 0,
            })
            &&& position.withdrawn().withdrawn() == position.withdrawn()
        },
{
}

/// Hands the market's fees to the fee admin: the request names all of them
/// and the market is left with none. What the accounts may claim for
/// referrers stays as it is. Any caller but the admin is refused, and
/// nothing changes.
pub fn sweep_fees(market: &mut Market, caller: &AccountRef) -> (r: Result<
    TransferRequest,
    ProgramError,
>)
    requires
        old(market).wf(),
    ensures
        final(market).wf(),
        *caller == old(market).collect_fee_admin ==> r == Ok::<TransferRequest, ProgramError>(
            TransferRequest {
                base_native: 0,
                quote_native: old(market).fees_accrued,
                referrer_native: 0,
            },
        ) && *final(market) == (Market { fees_accrued: 0, ..*old(market) }),
        *caller != old(market).collect_fee_admin ==> r == Err::<TransferRequest, ProgramError>(
            ProgramError::Unauthorized,
        ) && *final(market) == *old(market),
{
    if *caller == market.collect_fee_admin {
        let r = TransferRequest {
            base_native: 0,
            quote_native: market.fees_accrued,
            referrer_native: 0,
        };
        market.fees_accrued = 0;
        Ok(r)
    } else {
        Err(ProgramError::Unauthorized)
    }
}

/// The accounts and the market's fees after `e` was applied to its owner's
/// account. `None` where no account has the owner's address or the event
/// does not apply to the position.
pub open spec fn apply_event_spec(accounts: Seq<OpenOrdersAccount>, fees: i64, e: Event) -> Option<
    (Seq<OpenOrdersAccount>, i64),
> {
    match first_account(accounts, e.owner_spec()) {
        None => None,
        Some(i) => match e {
            Event::Fill(f) => match accounts[i as int].position.maker_fill_spec(f) {
                Some(p) => if fits_i64(fees + f.fees_at_consume()) {
                    Some(
                        (
                            accounts.update(
                                i as int,
                                OpenOrdersAccount { position: p, ..accounts[i as int] },
                            ),
                            (fees + f.fees_at_consume()) as i64,
                        ),
                    )
                } else {
                    None
                },
                None => None,
            },
            Event::Out(o) => match accounts[i as int].position.out_spec(o) {
                Some(p) => Some(
                    (
                        accounts.update(
                            i as int,
                            OpenOrdersAccount { position: p, ..accounts[i as int] },
                        ),
                        fees,
                    ),
                ),
                None => None,
            },
        },
    }
}

/// Applying a fill settles the maker's side of the match: the maker's
/// position moves by exactly the maker's deltas of the fill, the market's
/// fees grow by exactly the maker's fee, where it is one, and no other
/// account changes.
pub proof fn lemma_fill_settles(accounts: Seq<OpenOrdersAccount>, fees: i64, f: FillEvent)
    requires
        accounts.len() <= usize::MAX,
    ensures
        apply_event_spec(accounts, fees, Event::Fill(f)) matches Some((after, fees_after)) ==> {
            let i = first_account(accounts, f.maker).unwrap() as int;
            &&& 0 <= i < accounts.len()
            &&& accounts[i].address == f.maker
            &&& after.len() == accounts.len()
            &&& after[i].position.base_position_lots == accounts[i].position.base_position_lots
                + f.maker_base_delta()
            &&& after[i].position.quote_position_native
                == accounts[i].position.quote_position_native + f.maker_quote_delta()
            &&& after[i].position.base_free_native == accounts[i].position.base_free_native
                + f.maker_base_free
            &&& after[i].position.quote_free_native == accounts[i].position.quote_free_native
                + f.maker_quote_free
            &&& fees_after == fees + f.fees_at_consume()
            &&& forall|j: int| 0 <= j < accounts.len() && j != i ==> after[j] == accounts[j]
        },
{
    if apply_event_spec(accounts, fees, Event::Fill(f)).is_some() {
        lemma_first_account(accounts, f.maker, 0);
    }
}

/// A match creates no value. Taken together, the match and the
/// consumption of its fill leave the two parties' base positions summing to
/// what they were, and their quote positions summing to less by exactly
/// what the market took: at the match the taker's fee less the maker's
/// rebate, at the consumption the maker's fee, neither of them negative in
/// a market that is well-formed. The taker's side of the fill is what the
/// placement does to the taker; the maker's side is what the consumption
/// does to the maker.
pub proof fn lemma_match_conserves(
    market: Market,
    accounts: Seq<OpenOrdersAccount>,
    fees: i64,
    f: FillEvent,
)
    requires
        accounts.len() <= usize::MAX,
        market.wf(),
        market.fill_amounts_spec(f.price_lots as int, f.quantity as int) matches Some(a)
            && a.quote_native == f.quote_native && a.taker_fee == f.taker_fee && a.maker_fee
            == f.maker_fee,
    ensures
        apply_event_spec(accounts, fees, Event::Fill(f)) matches Some((after, fees_after)) ==> {
            let i = first_account(accounts, f.maker).unwrap() as int;
            let maker_base = after[i].position.base_position_lots
                - accounts[i].position.base_position_lots;
            let maker_quote = after[i].position.quote_position_native
                - accounts[i].position.quote_position_native;
            &&& f.taker_base_delta() + maker_base == 0
            &&& f.taker_quote_delta() + maker_quote + f.fees_at_match() + (fees_after - fees) == 0
            &&& f.fees_at_match() >= 0
            &&& fees_after - fees >= 0
        },
{
    lemma_fill_settles(accounts, fees, f);
    f.lemma_value_conservation();
    market.lemma_fill_amounts(f.price_lots as int, f.quantity as int);
}

/// Applying an event only ever gives: no free balance of any account
/// shrinks, no free balance is negative afterwards, and the market's fees
/// do not shrink.
pub proof fn lemma_event_only_gives(accounts: Seq<OpenOrdersAccount>, fees: i64, e: Event)
    requires
        accounts.len() <= usize::MAX,
        accounts_ok(accounts),
    ensures
        apply_event_spec(accounts, fees, e) matches Some((after, fees_after)) ==> {
            &&& fees_after >= fees
            &&& after.len() == accounts.len()
            &&& accounts_ok(after)
            &&& forall|j: int|
                0 <= j < accounts.len() ==> (#[trigger] after[j]).position.base_free_native
                    >= accounts[j].position.base_free_native && after[j].position.quote_free_native
                    >= accounts[j].position.quote_free_native
        },
{
    if apply_event_spec(accounts, fees, e).is_some() {
        lemma_first_account(accounts, e.owner_spec(), 0);
    }
}

/// The first account found from `from` on has the address looked for.
pub proof fn lemma_first_account(s: Seq<OpenOrdersAccount>, address: AccountRef, from: int)
    requires
        0 <= from,
        s.len() <= usize::MAX,
    ensures
        crate::position::first_account_from(s, address, from) matches Some(i) ==> from <= i
            < s.len() && s[i as int].address == address,
    decreases s.len() - from,
{
    if from < s.len() && s[from].address != address {
        lemma_first_account(s, address, from + 1);
    }
}

/// The accounts and the market's fees after the first `n` of `events` were
/// applied, oldest first.
pub open spec fn applied_upto(
    accounts: Seq<OpenOrdersAccount>,
    fees: i64,
    events: Seq<Event>,
    n: int,
) -> Option<(Seq<OpenOrdersAccount>, i64)>
    decreases n,
{
    if n <= 0 {
        Some((accounts, fees))
    } else {
        match applied_upto(accounts, fees, events, n - 1) {
            None => None,
            Some((a, f)) => apply_event_spec(a, f, events[n - 1]),
        }
    }
}

/// The accounts after each of the first `n` that is one of `supplied` had
/// the lots it took folded into its position.
pub open spec fn folded_upto(
    accounts: Seq<OpenOrdersAccount>,
    supplied: Seq<AccountRef>,
    quote_lot_size: i64,
    n: int,
) -> Option<Seq<OpenOrdersAccount>>
    decreases n,
{
    if n <= 0 {
        Some(accounts)
    } else {
        match folded_upto(accounts, supplied, quote_lot_size, n - 1) {
            None => None,
            Some(a) => if supplied.contains(a[n - 1].address) {
                match a[n - 1].position.taker_settled_spec(quote_lot_size) {
                    Some(p) => Some(a.update(n - 1, OpenOrdersAccount { position: p, ..a[n - 1] })),
                    None => None,
                }
            } else {
                Some(a)
            },
        }
    }
}

/// The addresses of `supplied` that one of `accounts` has.
pub open spec fn present(accounts: Seq<OpenOrdersAccount>, supplied: Seq<AccountRef>) -> Seq<
    AccountRef,
> {
    supplied.filter(|a: AccountRef| first_account(accounts, a).is_some())
}

/// All that a consumption leaves behind.
pub struct Consumed {
    /// Number of events applied.
    pub count: usize,
    /// The events that still wait.
    pub queue: Seq<Event>,
    pub accounts: Seq<OpenOrdersAccount>,
    pub fees_accrued: i64,
}

/// What consuming events for the accounts `supplied` leaves behind. Taken
/// from the queue are, oldest first and at most `limit`, the events whose
/// owner is supplied and has an account, and, where `seqs` is given, whose
/// sequence number it names. They are applied in that order; then every
/// supplied account has the lots it took folded into its position. `None`
/// where an event does not apply or an amount does not fit.
pub open spec fn consume_spec(
    queue: Seq<Event>,
    market: Market,
    accounts: Seq<OpenOrdersAccount>,
    supplied: Seq<AccountRef>,
    seqs: Option<Seq<u64>>,
    limit: int,
) -> Option<Consumed> {
    let (taken, kept) = split_upto(
        queue,
        queue.len() as int,
        present(accounts, supplied),
        seqs,
        limit,
    );
    match applied_upto(accounts, market.fees_accrued, taken, taken.len() as int) {
        None => None,
        Some((a, fees)) => match folded_upto(a, supplied, market.quote_lot_size, a.len() as int) {
            None => None,
            Some(b) => Some(
                Consumed { count: taken.len() as usize, queue: kept, accounts: b, fees_accrued: fees },
            ),
        },
    }
}

/// The accounts have the same shares for referrers, one by one.
pub open spec fn same_shares(a: Seq<OpenOrdersAccount>, b: Seq<OpenOrdersAccount>) -> bool {
    &&& a.len() == b.len()
    &&& forall|i: int|
        0 <= i < a.len() ==> (#[trigger] a[i]).position.referrer_rebates_available
            == b[i].position.referrer_rebates_available
}

/// Applying events leaves every account's share for a referrer as it was.
pub proof fn lemma_applied_keeps_shares(
    accounts: Seq<OpenOrdersAccount>,
    fees: i64,
    events: Seq<Event>,
    n: int,
)
    requires
        accounts.len() <= usize::MAX,
        0 <= n,
    ensures
        applied_upto(accounts, fees, events, n) matches Some((after, _)) ==> same_shares(
            after,
            accounts,
        ),
    decreases n,
{
    if n > 0 {
        lemma_applied_keeps_shares(accounts, fees, events, n - 1);
        if let Some((a, f)) = applied_upto(accounts, fees, events, n - 1) {
            if apply_event_spec(a, f, events[n - 1]).is_some() {
                lemma_first_account(a, events[n - 1].owner_spec(), 0);
            }
        }
    }
}

/// Folding the lots taken leaves every account's share for a referrer as
/// it was.
pub proof fn lemma_folded_keeps_shares(
    accounts: Seq<OpenOrdersAccount>,
    supplied: Seq<AccountRef>,
    quote_lot_size: i64,
    n: int,
)
    requires
        0 <= n <= accounts.len(),
    ensures
        folded_upto(accounts, supplied, quote_lot_size, n) matches Some(after) ==> same_shares(
            after,
            accounts,
        ),
    decreases n,
{
    if n > 0 {
        lemma_folded_keeps_shares(accounts, supplied, quote_lot_size, n - 1);
    }
}

/// A consumption leaves every account's share for a referrer as it was,
/// and so what the accounts may together claim.
pub proof fn lemma_consume_keeps_claims(
    queue: Seq<Event>,
    market: Market,
    accounts: Seq<OpenOrdersAccount>,
    supplied: Seq<AccountRef>,
    seqs: Option<Seq<u64>>,
    limit: int,
)
    requires
        accounts.len() <= usize::MAX,
    ensures
        consume_spec(queue, market, accounts, supplied, seqs, limit) matches Some(c)
            ==> same_shares(c.accounts, accounts) && crate::position::claims(c.accounts)
            == crate::position::claims(accounts),
{
    if let Some(c) = consume_spec(queue, market, accounts, supplied, seqs, limit) {
        let (taken, kept) = split_upto(
            queue,
            queue.len() as int,
            present(accounts, supplied),
            seqs,
            limit,
        );
        lemma_applied_keeps_shares(accounts, market.fees_accrued, taken, taken.len() as int);
        let (a, fees) = applied_upto(accounts, market.fees_accrued, taken, taken.len() as int).unwrap();
        lemma_folded_keeps_shares(a, supplied, market.quote_lot_size, a.len() as int);
        crate::position::lemma_claims_same(c.accounts, accounts, accounts.len() as int);
    }
}

/// A copy of `accounts`.
pub fn copy_accounts(accounts: &Vec<OpenOrdersAccount>) -> (r: Vec<OpenOrdersAccount>)
    ensures
        r@ == accounts@,
{
    let mut out: Vec<OpenOrdersAccount> = Vec::new();
    let mut i: usize = 0;
    while i < accounts.len()
        invariant
            i <= accounts@.len(),
            out@ == accounts@.take(i as int),
        decreases accounts@.len() - i,
    {
        out.push(accounts[i]);
        proof {
            assert(accounts@.take(i + 1) =~= accounts@.take(i as int).push(accounts@[i as int]));
        }
        i += 1;
    }
    proof {
        assert(accounts@.take(accounts@.len() as int) =~= accounts@);
    }
    out
}

/// The addresses of `supplied` that one of `accounts` has.
fn present_accounts(accounts: &Vec<OpenOrdersAccount>, supplied: &Vec<AccountRef>) -> (r: Vec<
    AccountRef,
>)
    ensures
        r@ == present(accounts@, supplied@),
{
    let ghost pred = |a: AccountRef| first_account(accounts@, a).is_some();
    let mut out: Vec<AccountRef> = Vec::new();
    let mut i: usize = 0;
    proof {
        assert(supplied@.take(0) =~= Seq::<AccountRef>::empty());
        reveal(Seq::filter);
    }
    while i < supplied.len()
        invariant
            i <= supplied@.len(),
            pred == (|a: AccountRef| first_account(accounts@, a).is_some()),
            out@ == supplied@.take(i as int).filter(pred),
        decreases supplied@.len() - i,
    {
        let a = supplied[i];
        proof {
            assert(supplied@.take(i + 1) =~= supplied@.take(i as int).push(a));
            supplied@.take(i as int).lemma_filter_push(a, pred);
        }
        if find_account(accounts, &a).is_some() {
            out.push(a);
        }
        i += 1;
    }
    proof {
        assert(supplied@.take(supplied@.len() as int) =~= supplied@);
    }
    out
}

/// Applies `e` to its owner's account among `accounts`.
fn apply_event(accounts: &mut Vec<OpenOrdersAccount>, fees: &mut i64, e: &Event) -> (r: bool)
    requires
        accounts_ok(old(accounts)@),
    ensures
        r == apply_event_spec(old(accounts)@, *old(fees), *e).is_some(),
        r ==> apply_event_spec(old(accounts)@, *old(fees), *e) == Some(
            (final(accounts)@, *final(fees)),
        ),
        accounts_ok(final(accounts)@),
        final(accounts)@.len() == old(accounts)@.len(),
        *final(fees) >= *old(fees),
{
    let i = match find_account(accounts, &e.owner()) {
        Some(i) => i,
        None => {
            return false;
        },
    };
    let account = accounts[i];
    match e {
        Event::Fill(f) => {
            let p = match account.position.apply_maker_fill(f) {
                Some(p) => p,
                None => {
                    return false;
                },
            };
            let at_consume = if f.maker_fee > 0 {
                f.maker_fee
            } else {
                0
            };
            let next_fees = match checked_sum(*fees, at_consume) {
                Some(x) => x,
                None => {
                    return false;
                },
            };
            accounts.set(i, OpenOrdersAccount { position: p, ..account });
            *fees = next_fees;
            true
        },
        Event::Out(o) => {
            let p = match account.position.apply_out(o) {
                Some(p) => p,
                None => {
                    return false;
                },
            };
            accounts.set(i, OpenOrdersAccount { position: p, ..account });
            true
        },
    }
}

/// Consumes events for the accounts `supplied`; with `seqs`, only the
/// events it names. On an error nothing changes.
pub fn consume_events(
    queue: &mut EventQueue,
    market: &mut Market,
    accounts: &mut Vec<OpenOrdersAccount>,
    supplied: &Vec<AccountRef>,
    seqs: Option<&Vec<u64>>,
    limit: usize,
) -> (r: Result<usize, MatchError>)
    requires
        old(queue).wf(),
        old(market).wf(),
        accounts_ok(old(accounts)@),
    ensures
        final(queue).wf(),
        final(queue).capacity == old(queue).capacity,
        final(queue).flagged@ == old(queue).flagged@,
        final(market).wf(),
        accounts_ok(final(accounts)@),
        final(accounts)@.len() == old(accounts)@.len(),
        match consume_spec(
            old(queue)@,
            *old(market),
            old(accounts)@,
            supplied@,
            seqs_view(seqs),
            limit as int,
        ) {
            None => {
                &&& r == Err::<usize, MatchError>(MatchError::ArithmeticOverflow)
                &&& final(queue)@ == old(queue)@
                &&& *final(market) == *old(market)
                &&& final(accounts)@ == old(accounts)@
            },
            Some(c) => {
                &&& r == Ok::<usize, MatchError>(c.count)
                &&& final(queue)@ == c.queue
                &&& *final(market) == (Market { fees_accrued: c.fees_accrued, ..*old(market) })
                &&& final(accounts)@ == c.accounts
            },
        },
{
    let eligible = present_accounts(accounts, supplied);
    let (taken, kept) = queue.split_for(&eligible, seqs, limit);
    let mut scratch = copy_accounts(accounts);
    let mut fees = market.fees_accrued;
    let mut i: usize = 0;
    while i < taken.len()
        invariant
            i <= taken@.len(),
            *queue == *old(queue),
            *market == *old(market),
            accounts@ == old(accounts)@,
            queue.wf(),
            market.wf(),
            accounts_ok(accounts@),
            accounts_ok(scratch@),
            scratch@.len() == accounts@.len(),
            fees >= 0,
            (taken@, kept@) == split_upto(
                queue@,
                queue@.len() as int,
                present(accounts@, supplied@),
                seqs_view(seqs),
                limit as int,
            ),
            applied_upto(accounts@, market.fees_accrued, taken@, i as int) == Some((scratch@, fees)),
        decreases taken@.len() - i,
    {
        if !apply_event(&mut scratch, &mut fees, &taken[i]) {
            proof {
                lemma_applied_none(accounts@, market.fees_accrued, taken@, i + 1, taken@.len() as int);
            }
            return Err(MatchError::ArithmeticOverflow);
        }
        i += 1;
    }
    let ghost applied = scratch@;
    let mut j: usize = 0;
    while j < scratch.len()
        invariant
            j <= scratch@.len(),
            *queue == *old(queue),
            *market == *old(market),
            accounts@ == old(accounts)@,
            queue.wf(),
            market.wf(),
            accounts_ok(accounts@),
            fees >= 0,
            accounts_ok(scratch@),
            scratch@.len() == applied.len(),
            (taken@, kept@) == split_upto(
                queue@,
                queue@.len() as int,
                present(accounts@, supplied@),
                seqs_view(seqs),
                limit as int,
            ),
            taken@.len() + kept@.len() == queue@.len(),
            applied_upto(accounts@, market.fees_accrued, taken@, taken@.len() as int) == Some(
                (applied, fees),
            ),
            folded_upto(applied, supplied@, market.quote_lot_size, j as int) == Some(scratch@),
        decreases scratch@.len() - j,
    {
        let account = scratch[j];
        if contains_ref(supplied, &account.address) {
            match account.position.settle_taker_fills(market.quote_lot_size) {
                Some(p) => {
                    scratch.set(j, OpenOrdersAccount { position: p, ..account });
                },
                None => {
                    proof {
                        lemma_folded_none(
                            applied,
                            supplied@,
                            market.quote_lot_size,
                            j + 1,
                            applied.len() as int,
                        );
                    }
                    return Err(MatchError::ArithmeticOverflow);
                },
            }
        }
        j += 1;
    }
    queue.events = kept;
    market.fees_accrued = fees;
    *accounts = scratch;
    Ok(taken.len())
}

/// Once an event does not apply, none of the later ones does.
pub proof fn lemma_applied_none(
    accounts: Seq<OpenOrdersAccount>,
    fees: i64,
    events: Seq<Event>,
    n: int,
    m: int,
)
    requires
        0 <= n <= m,
        applied_upto(accounts, fees, events, n).is_none(),
    ensures
        applied_upto(accounts, fees, events, m).is_none(),
    decreases m,
{
    if m > n {
        lemma_applied_none(accounts, fees, events, n, m - 1);
    }
}

/// Once an account cannot be folded, the folding of all has failed.
pub proof fn lemma_folded_none(
    accounts: Seq<OpenOrdersAccount>,
    supplied: Seq<AccountRef>,
    quote_lot_size: i64,
    n: int,
    m: int,
)
    requires
        0 <= n <= m,
        folded_upto(accounts, supplied, quote_lot_size, n).is_none(),
    ensures
        folded_upto(accounts, supplied, quote_lot_size, m).is_none(),
    decreases m,
{
    if m > n {
        lemma_folded_none(accounts, supplied, quote_lot_size, n, m - 1);
    }
}

} // verus!
