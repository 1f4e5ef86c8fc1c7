use vstd::prelude::*;
use crate::address::AccountRef;
use crate::book_side::{
    book_ok, first_client_order, first_order, kept_before_rest, lemma_keep_next, seqs_under,
    BookSide,
};
use crate::event_queue::Event;
use crate::matching::{out_event, out_event_spec};
use crate::order::Order;
use crate::position::Position;
use crate::types::{MatchError, Side};

verus! {

/// The owner's position after the order `o` was taken off `side` untraded:
/// its lots no longer rest and what they locked is free. `None` where the
/// position does not hold the lots or an amount does not fit.
pub open spec fn released_spec(side: Side, o: Order, position: Position) -> Option<Position> {
    match out_event_spec(side, o, o.quantity, 0, 0) {
        Some(Event::Out(e)) => position.out_spec(e),
        _ => None,
    }
}

/// Computes the owner's position after `o` was taken off `side`.
pub fn release_order(side: Side, o: &Order, position: &Position) -> (r: Option<Position>)
    requires
        position.wf(),
    ensures
        r == released_spec(side, *o, *position),
        r matches Some(p) ==> p.wf(),
{
    match out_event(side, o, o.quantity, 0, 0) {
        Some(Event::Out(e)) => position.apply_out(&e),
        _ => None,
    }
}

/// The state of a pass that cancels orders of one owner.
pub struct CancelView {
    /// The orders that stay, in book order.
    pub kept: Seq<Order>,
    pub position: Position,
    /// Number of orders cancelled.
    pub count: usize,
    pub failed: bool,
}

/// The state after the first `n` orders of `book` were looked at: each
/// order of `owner` is cancelled, until `limit` are; every other order
/// stays. A cancellation that the position cannot take fails the pass.
pub open spec fn cancel_upto(
    book: Seq<Order>,
    n: int,
    side: Side,
    owner: AccountRef,
    limit: usize,
    position: Position,
) -> CancelView
    decreases n,
{
    if n <= 0 {
        CancelView { kept: Seq::empty(), position, count: 0, failed: false }
    } else {
        let v = cancel_upto(book, n - 1, side, owner, limit, position);
        let o = book[n - 1];
        if v.failed {
            v
        } else if v.count < limit && o.owner == owner {
            match released_spec(side, o, v.position) {
                Some(p) => CancelView { position: p, count: (v.count + 1) as usize, ..v },
                None => CancelView { failed: true, ..v },
            }
        } else {
            CancelView { kept: v.kept.push(o), ..v }
        }
    }
}

/// What a pass that cancels up to `limit` orders of `owner` leaves of one
/// side: the orders that stay, the owner's position, and the number
/// cancelled. `None` where the position cannot take a cancellation.
fn cancel_owned(book: &BookSide, position: &Position, owner: &AccountRef, limit: usize) -> (r:
    Option<(Vec<Order>, Position, usize)>)
    requires
        book.wf(),
        position.wf(),
    ensures
        ({
            let v = cancel_upto(book@, book@.len() as int, book.side, *owner, limit, *position);
            match r {
                None => v.failed,
                Some((kept, p, count)) => {
                    &&& !v.failed
                    &&& kept@ == v.kept
                    &&& p == v.position
                    &&& count == v.count
                    &&& p.wf()
                    &&& book_ok(book.side, kept@)
                    &&& kept@.len() <= book@.len()
                    &&& count <= limit
                    &&& forall|bound: u64| seqs_under(book@, bound) ==> seqs_under(kept@, bound)
                },
            }
        }),
{
    let mut kept: Vec<Order> = Vec::new();
    let mut p = *position;
    let mut count: usize = 0;
    let mut i: usize = 0;
    while i < book.orders.len()
        invariant
            i <= book@.len(),
            book.wf(),
            p.wf(),
            count <= limit,
            count <= i,
            kept@.len() <= i,
            book_ok(book.side, kept@),
            kept_before_rest(book.side, kept@, book@, i as int),
            forall|bound: u64| seqs_under(book@, bound) ==> seqs_under(kept@, bound),
            cancel_upto(book@, i as int, book.side, *owner, limit, *position) == (CancelView {
                kept: kept@,
                position: p,
                count,
                failed: false,
            }),
        decreases book@.len() - i,
    {
        let o = book.orders[i];
        proof {
            lemma_keep_next(book.side, kept@, book@, i as int, o);
        }
        if count < limit && o.owner == *owner {
            match release_order(book.side, &o, &p) {
                Some(next) => {
                    p = next;
                    count += 1;
                },
                None => {
                    proof {
                        lemma_cancel_failed(
                            book@,
                            i + 1,
                            book@.len() as int,
                            book.side,
                            *owner,
                            limit,
                            *position,
                        );
                    }
                    return None;
                },
            }
        } else {
            proof {
                assert forall|bound: u64| seqs_under(book@, bound) implies seqs_under(
                    kept@.push(o),
                    bound,
                ) by {
                    assert(book@[i as int].seq_num < bound);
                }
            }
            kept.push(o);
        }
        i += 1;
    }
    Some((kept, p, count))
}

/// Total quantity of the orders of `owner` among the first `n` of `book`.
pub open spec fn owned_quantity(book: Seq<Order>, n: int, owner: AccountRef) -> int
    decreases n,
{
    if n <= 0 {
        0
    } else {
        owned_quantity(book, n - 1, owner) + (if book[n - 1].owner == owner {
            book[n - 1].quantity as int
        } else {
            0
        })
    }
}

/// The lots that rest on `side`, as the position counts them.
pub open spec fn reserved_lots(side: Side, position: Position) -> i64 {
    match side {
        Side::Bid => position.bids_base_lots,
        Side::Ask => position.asks_base_lots,
    }
}

/// Cancelling all releases exactly what rests. A pass whose limit does not
/// bind and that does not fail keeps no order of the owner, and takes from
/// the lots that the position counts as resting on the side exactly the
/// lots of the owner's orders. So a position that counts as resting what
/// the owner has resting counts nothing afterwards. The count can be above
/// what rests only where fills or evictions of the owner's orders wait to
/// be applied, or were lost with an evicted event.
pub proof fn lemma_cancel_all_releases(
    book: Seq<Order>,
    n: int,
    side: Side,
    owner: AccountRef,
    limit: usize,
    position: Position,
)
    requires
        0 <= n <= book.len(),
        n <= limit,
        !cancel_upto(book, n, side, owner, limit, position).failed,
    ensures
        ({
            let v = cancel_upto(book, n, side, owner, limit, position);
            &&& reserved_lots(side, v.position) == reserved_lots(side, position) - owned_quantity(
                book,
                n,
                owner,
            )
            &&& reserved_lots(side.inverted(), v.position) == reserved_lots(
                side.inverted(),
                position,
            )
            &&& forall|k: int| 0 <= k < v.kept.len() ==> (#[trigger] v.kept[k]).owner != owner
            &&& v.count <= n
            &&& reserved_lots(side, position) == owned_quantity(book, n, owner) ==> reserved_lots(
                side,
                v.position,
            ) == 0
        }),
    decreases n,
{
    if n > 0 {
        let v0 = cancel_upto(book, n - 1, side, owner, limit, position);
        lemma_cancel_all_releases(book, n - 1, side, owner, limit, position);
        let v1 = cancel_upto(book, n, side, owner, limit, position);
        assert forall|k: int| 0 <= k < v1.kept.len() implies (#[trigger] v1.kept[k]).owner
            != owner by {
            if k < v0.kept.len() {
                assert(v1.kept[k] == v0.kept[k]);
            }
        }
    }
}

/// Cancelling leaves the position's share for a referrer as it was.
pub proof fn lemma_cancel_keeps_share(
    book: Seq<Order>,
    n: int,
    side: Side,
    owner: AccountRef,
    limit: usize,
    position: Position,
)
    requires
        0 <= n,
    ensures
        cancel_upto(book, n, side, owner, limit, position).position.referrer_rebates_available
            == position.referrer_rebates_available,
    decreases n,
{
    if n > 0 {
        lemma_cancel_keeps_share(book, n - 1, side, owner, limit, position);
    }
}

/// A pass that has failed stays failed.
pub proof fn lemma_cancel_failed(
    book: Seq<Order>,
    n: int,
    m: int,
    side: Side,
    owner: AccountRef,
    limit: usize,
    position: Position,
)
    requires
        0 <= n <= m,
        cancel_upto(book, n, side, owner, limit, position).failed,
    ensures
        cancel_upto(book, m, side, owner, limit, position).failed,
    decreases m,
{
    if m > n {
        lemma_cancel_failed(book, n, m - 1, side, owner, limit, position);
    }
}

/// Cancels up to `limit` resting orders of `owner`, bids before asks and
/// on each side the best first, and says how many they were. What the
/// orders locked is free at once; no event is made. On an error nothing
/// changes.
pub fn cancel_all_orders(
    bids: &mut BookSide,
    asks: &mut BookSide,
    position: &mut Position,
    owner: &AccountRef,
    limit: usize,
) -> (r: Result<usize, MatchError>)
    requires
        old(bids).wf(),
        old(asks).wf(),
        old(position).wf(),
    ensures
        final(bids).wf(),
        final(asks).wf(),
        final(position).wf(),
        final(bids).side == old(bids).side,
        final(asks).side == old(asks).side,
        final(bids).capacity == old(bids).capacity,
        final(asks).capacity == old(asks).capacity,
        forall|bound: u64| seqs_under(old(bids)@, bound) ==> seqs_under(final(bids)@, bound),
        forall|bound: u64| seqs_under(old(asks)@, bound) ==> seqs_under(final(asks)@, bound),
        ({
            let b = cancel_upto(
                old(bids)@,
                old(bids)@.len() as int,
                old(bids).side,
                *owner,
                limit,
                *old(position),
            );
            let a = cancel_upto(
                old(asks)@,
                old(asks)@.len() as int,
                old(asks).side,
                *owner,
                (limit - b.count) as usize,
                b.position,
            );
            if b.failed || a.failed {
                &&& r == Err::<usize, MatchError>(MatchError::ArithmeticOverflow)
                &&& final(bids)@ == old(bids)@
                &&& final(asks)@ == old(asks)@
                &&& *final(position) == *old(position)
            } else {
                &&& r == Ok::<usize, MatchError>((b.count + a.count) as usize)
                &&& final(bids)@ == b.kept
                &&& final(asks)@ == a.kept
                &&& *final(position) == a.position
            }
        }),
{
    let (bids_kept, p1, n1) = match cancel_owned(bids, position, owner, limit) {
        Some(x) => x,
        None => {
            return Err(MatchError::ArithmeticOverflow);
        },
    };
    let (asks_kept, p2, n2) = match cancel_owned(asks, &p1, owner, limit - n1) {
        Some(x) => x,
        None => {
            return Err(MatchError::ArithmeticOverflow);
        },
    };
    bids.orders = bids_kept;
    asks.orders = asks_kept;
    *position = p2;
    Ok(n1 + n2)
}

/// Cancels the order at `slot`: takes it off the side and frees what it
/// locked. On an error nothing changes.
pub fn cancel_slot(book: &mut BookSide, position: &mut Position, slot: usize) -> (r: Result<
    Order,
    MatchError,
>)
    requires
        old(book).wf(),
        old(position).wf(),
        slot < old(book)@.len(),
    ensures
        final(book).wf(),
        final(position).wf(),
        final(book).side == old(book).side,
        final(book).capacity == old(book).capacity,
        forall|bound: u64| seqs_under(old(book)@, bound) ==> seqs_under(final(book)@, bound),
        match released_spec(old(book).side, old(book)@[slot as int], *old(position)) {
            None => {
                &&& r == Err::<Order, MatchError>(MatchError::ArithmeticOverflow)
                &&& final(book)@ == old(book)@
                &&& *final(position) == *old(position)
            },
            Some(p) => {
                &&& r == Ok::<Order, MatchError>(old(book)@[slot as int])
                &&& final(book)@ == old(book)@.remove(slot as int)
                &&& *final(position) == p
            },
        },
{
    let o = book.orders[slot];
    match release_order(book.side, &o, position) {
        None => Err(MatchError::ArithmeticOverflow),
        Some(p) => {
            proof {
                let s = book@;
                s.remove_ensures(slot as int);
                assert forall|bound: u64| seqs_under(s, bound) implies seqs_under(
                    s.remove(slot as int),
                    bound,
                ) by {
                    assert forall|i: int| 0 <= i < s.remove(slot as int).len() implies (
                    #[trigger] s.remove(slot as int)[i]).seq_num < bound by {
                        if i < slot {
                            assert(s.remove(slot as int)[i] == s[i]);
                        } else {
                            assert(s.remove(slot as int)[i] == s[i + 1]);
                        }
                    }
                }
            }
            let removed = book.remove(slot);
            *position = p;
            Ok(removed)
        },
    }
}

/// Where the resting order is that `owner` cancels by its sequence number:
/// the side and the index, bids looked at first.
pub open spec fn locate_order(bids: Seq<Order>, asks: Seq<Order>, owner: AccountRef, order_id: u64) -> Option<
    (Side, usize),
> {
    match first_order(bids, owner, order_id, 0) {
        Some(i) => Some((Side::Bid, i)),
        None => match first_order(asks, owner, order_id, 0) {
            Some(i) => Some((Side::Ask, i)),
            None => None,
        },
    }
}

/// Where the resting order is that `owner` cancels by the id they chose:
/// the side and the index, bids looked at first.
pub open spec fn locate_client_order(
    bids: Seq<Order>,
    asks: Seq<Order>,
    owner: AccountRef,
    client_order_id: u64,
) -> Option<(Side, usize)> {
    match first_client_order(bids, owner, client_order_id, 0) {
        Some(i) => Some((Side::Bid, i)),
        None => match first_client_order(asks, owner, client_order_id, 0) {
            Some(i) => Some((Side::Ask, i)),
            None => None,
        },
    }
}

/// What cancelling the order at `place` leaves behind: `Ok(None)` and no
/// change where there is no such order; the order, the side without it and
/// the position with its lock freed where there is.
pub open spec fn cancel_outcome(
    place: Option<(Side, usize)>,
    old_bids: Seq<Order>,
    old_asks: Seq<Order>,
    old_position: Position,
    r: Result<Option<Order>, MatchError>,
    new_bids: Seq<Order>,
    new_asks: Seq<Order>,
    new_position: Position,
) -> bool {
    match place {
        None => {
            &&& r == Ok::<Option<Order>, MatchError>(None)
            &&& new_bids == old_bids
            &&& new_asks == old_asks
            &&& new_position == old_position
        },
        Some((side, slot)) => {
            let book = if side == Side::Bid {
                old_bids
            } else {
                old_asks
            };
            match released_spec(side, book[slot as int], old_position) {
                None => {
                    &&& r == Err::<Option<Order>, MatchError>(MatchError::ArithmeticOverflow)
                    &&& new_bids == old_bids
                    &&& new_asks == old_asks
                    &&& new_position == old_position
                },
                Some(p) => {
                    &&& r == Ok::<Option<Order>, MatchError>(Some(book[slot as int]))
                    &&& new_position == p
                    &&& new_bids == (if side == Side::Bid {
                        old_bids.remove(slot as int)
                    } else {
                        old_bids
                    })
                    &&& new_asks == (if side == Side::Ask {
                        old_asks.remove(slot as int)
                    } else {
                        old_asks
                    })
                },
            }
        },
    }
}

/// Cancels the resting order of `owner` with the sequence number
/// `order_id`. An order that is not found is no error: nothing changes and
/// `None` is handed back.
pub fn cancel_order(
    bids: &mut BookSide,
    asks: &mut BookSide,
    position: &mut Position,
    owner: &AccountRef,
    order_id: u64,
) -> (r: Result<Option<Order>, MatchError>)
    requires
        old(bids).wf(),
        old(asks).wf(),
        old(bids).side == Side::Bid,
        old(asks).side == Side::Ask,
        old(position).wf(),
    ensures
        final(bids).wf(),
        final(asks).wf(),
        final(position).wf(),
        final(bids).side == old(bids).side,
        final(asks).side == old(asks).side,
        final(bids).capacity == old(bids).capacity,
        final(asks).capacity == old(asks).capacity,
        forall|bound: u64| seqs_under(old(bids)@, bound) ==> seqs_under(final(bids)@, bound),
        forall|bound: u64| seqs_under(old(asks)@, bound) ==> seqs_under(final(asks)@, bound),
        cancel_outcome(
            locate_order(old(bids)@, old(asks)@, *owner, order_id),
            old(bids)@,
            old(asks)@,
            *old(position),
            r,
            final(bids)@,
            final(asks)@,
            *final(position),
        ),
{
    match bids.find_order(owner, order_id) {
        Some(slot) => match cancel_slot(bids, position, slot) {
            Ok(o) => Ok(Some(o)),
            Err(e) => Err(e),
        },
        None => match asks.find_order(owner, order_id) {
            Some(slot) => match cancel_slot(asks, position, slot) {
                Ok(o) => Ok(Some(o)),
                Err(e) => Err(e),
            },
            None => Ok(None),
        },
    }
}

/// Cancels the first resting order that `owner` placed under
/// `client_order_id`. An order that is not found is no error: nothing
/// changes and `None` is handed back.
pub fn cancel_order_by_client_order_id(
    bids: &mut BookSide,
    asks: &mut BookSide,
    position: &mut Position,
    owner: &AccountRef,
    client_order_id: u64,
) -> (r: Result<Option<Order>, MatchError>)
    requires
        old(bids).wf(),
        old(asks).wf(),
        old(bids).side == Side::Bid,
        old(asks).side == Side::Ask,
        old(position).wf(),
    ensures
        final(bids).wf(),
        final(asks).wf(),
        final(position).wf(),
        final(bids).side == old(bids).side,
        final(asks).side == old(asks).side,
        final(bids).capacity == old(bids).capacity,
        final(asks).capacity == old(asks).capacity,
        forall|bound: u64| seqs_under(old(bids)@, bound) ==> seqs_under(final(bids)@, bound),
        forall|bound: u64| seqs_under(old(asks)@, bound) ==> seqs_under(final(asks)@, bound),
        cancel_outcome(
            locate_client_order(old(bids)@, old(asks)@, *owner, client_order_id),
            old(bids)@,
            old(asks)@,
            *old(position),
            r,
            final(bids)@,
            final(asks)@,
            *final(position),
        ),
{
    match bids.find_client_order(owner, client_order_id) {
        Some(slot) => match cancel_slot(bids, position, slot) {
            Ok(o) => Ok(Some(o)),
            Err(e) => Err(e),
        },
        None => match asks.find_client_order(owner, client_order_id) {
            Some(slot) => match cancel_slot(asks, position, slot) {
                Ok(o) => Ok(Some(o)),
                Err(e) => Err(e),
            },
            None => Ok(None),
        },
    }
}

} // verus!
