use vstd::prelude::*;
use crate::address::AccountRef;
use crate::order::{better, price_better, price_crosses, Order};
use crate::types::{BookFull, Side};

verus! {

/// The resting orders of one side of a market, best first.
#[derive(Debug)]
pub struct BookSide {
    pub side: Side,
    /// Most orders the side holds.
    pub capacity: usize,
    pub orders: Vec<Order>,
}

/// Where an order went on insertion, and what had to leave for it.
#[derive(Clone, Copy, Debug)]
pub struct Inserted {
    /// Index of the new order, counted from the best.
    pub slot: usize,
    /// The worst order of the side, where it was evicted to make room.
    pub evicted: Option<Order>,
}

/// Every order goes before all that follow it.
pub open spec fn sorted(side: Side, s: Seq<Order>) -> bool {
    forall|i: int, j: int| 0 <= i < j < s.len() ==> #[trigger] better(side, s[i], s[j])
}

/// No two orders share a sequence number.
pub open spec fn distinct_seqs(s: Seq<Order>) -> bool {
    forall|i: int, j: int|
        0 <= i < j < s.len() ==> (#[trigger] s[i]).seq_num != (#[trigger] s[j]).seq_num
}

pub open spec fn all_valid(s: Seq<Order>) -> bool {
    forall|i: int| 0 <= i < s.len() ==> (#[trigger] s[i]).valid()
}

/// No order of `s` has the sequence number `seq_num`.
pub open spec fn seq_unused(s: Seq<Order>, seq_num: u64) -> bool {
    forall|i: int| 0 <= i < s.len() ==> (#[trigger] s[i]).seq_num != seq_num
}

/// A well-formed sequence of resting orders.
pub open spec fn book_ok(side: Side, s: Seq<Order>) -> bool {
    sorted(side, s) && distinct_seqs(s) && all_valid(s)
}

/// The orders of `s`, each as it stands at the given oracle price.
pub open spec fn reanchored_all(side: Side, s: Seq<Order>, oracle_price_lots: i64) -> Seq<Order> {
    Seq::new(s.len(), |i: int| s[i].reanchored(side, oracle_price_lots))
}

/// Index of the first order at or after `from` that `order` goes before; the
/// length of `s` where there is none.
pub open spec fn first_worse(side: Side, s: Seq<Order>, order: Order, from: int) -> int
    decreases s.len() - from,
{
    if from < 0 || from >= s.len() {
        s.len() as int
    } else if better(side, order, s[from]) {
        from
    } else {
        first_worse(side, s, order, from + 1)
    }
}

/// The place of `order` among `s`: the index of the first order it goes
/// before.
pub open spec fn slot_spec(side: Side, s: Seq<Order>, order: Order) -> int {
    first_worse(side, s, order, 0)
}

/// `s` with `order` at its place.
pub open spec fn insert_sorted(side: Side, s: Seq<Order>, order: Order) -> Seq<Order> {
    s.insert(slot_spec(side, s, order), order)
}

/// The first `n` orders of `s`, each as it stands at the given oracle price,
/// in price-time priority.
pub open spec fn resorted_upto(side: Side, s: Seq<Order>, n: int, oracle_price_lots: i64) -> Seq<
    Order,
>
    decreases n,
{
    if n <= 0 {
        Seq::empty()
    } else {
        insert_sorted(
            side,
            resorted_upto(side, s, n - 1, oracle_price_lots),
            s[n - 1].reanchored(side, oracle_price_lots),
        )
    }
}

/// The orders of `s`, each as it stands at the given oracle price, in
/// price-time priority.
pub open spec fn resorted(side: Side, s: Seq<Order>, oracle_price_lots: i64) -> Seq<Order> {
    resorted_upto(side, s, s.len() as int, oracle_price_lots)
}

/// Index of the first order at or after `from` that `owner` placed and that
/// has the sequence number `order_id`.
pub open spec fn first_order(s: Seq<Order>, owner: AccountRef, order_id: u64, from: int) -> Option<
    usize,
>
    decreases s.len() - from,
{
    if from < 0 || from >= s.len() {
        None
    } else if s[from].seq_num == order_id && s[from].owner == owner {
        Some(from as usize)
    } else {
        first_order(s, owner, order_id, from + 1)
    }
}

/// Index of the first order at or after `from` that `owner` placed under
/// `client_order_id`.
pub open spec fn first_client_order(
    s: Seq<Order>,
    owner: AccountRef,
    client_order_id: u64,
    from: int,
) -> Option<usize>
    decreases s.len() - from,
{
    if from < 0 || from >= s.len() {
        None
    } else if s[from].client_order_id == client_order_id && s[from].owner == owner {
        Some(from as usize)
    } else {
        first_client_order(s, owner, client_order_id, from + 1)
    }
}

/// Every order that was kept goes before every order of `book` from `n`
/// on, and shares no sequence number with one of them.
pub open spec fn kept_before_rest(side: Side, kept: Seq<Order>, book: Seq<Order>, n: int) -> bool {
    forall|k: int, j: int|
        0 <= k < kept.len() && n <= j < book.len() ==> better(side, #[trigger] kept[k], #[trigger] book[j])
            && kept[k].seq_num != book[j].seq_num
}

/// Going through a book in order and keeping an order, as it is or with
/// another quantity, keeps what was kept a well-formed book; so does passing
/// an order over.
pub proof fn lemma_keep_next(side: Side, kept: Seq<Order>, book: Seq<Order>, n: int, o: Order)
    requires
        book_ok(side, book),
        book_ok(side, kept),
        kept_before_rest(side, kept, book, n),
        0 <= n < book.len(),
        o.valid(),
        o.price_lots == book[n].price_lots,
        o.seq_num == book[n].seq_num,
    ensures
        book_ok(side, kept.push(o)),
        kept_before_rest(side, kept.push(o), book, n + 1),
        kept_before_rest(side, kept, book, n + 1),
        forall|bound: u64|
            seqs_under(kept, bound) && book[n].seq_num < bound ==> seqs_under(kept.push(o), bound),
{
    let t = kept.push(o);
    assert forall|i: int, j: int| 0 <= i < j < t.len() implies #[trigger] better(side, t[i], t[j]) by {
        if j < kept.len() {
            assert(better(side, kept[i], kept[j]));
        } else {
            assert(better(side, kept[i], book[n]));
        }
    }
    assert forall|i: int, j: int| 0 <= i < j < t.len() implies (#[trigger] t[i]).seq_num != (
    #[trigger] t[j]).seq_num by {
        if j < kept.len() {
            assert(kept[i].seq_num != kept[j].seq_num);
        } else {
            assert(better(side, kept[i], book[n]));
        }
    }
    assert forall|i: int| 0 <= i < t.len() implies (#[trigger] t[i]).valid() by {
        if i < kept.len() {
            assert(kept[i].valid());
        }
    }
    assert forall|k: int, j: int| 0 <= k < t.len() && n + 1 <= j < book.len() implies better(
        side,
        #[trigger] t[k],
        #[trigger] book[j],
    ) && t[k].seq_num != book[j].seq_num by {
        if k < kept.len() {
            assert(better(side, kept[k], book[j]));
        } else {
            assert(better(side, book[n], book[j]));
            assert(book[n].seq_num != book[j].seq_num);
        }
    }
    assert forall|k: int, j: int| 0 <= k < kept.len() && n + 1 <= j < book.len() implies better(
        side,
        #[trigger] kept[k],
        #[trigger] book[j],
    ) && kept[k].seq_num != book[j].seq_num by {
        assert(better(side, kept[k], book[j]));
    }
    assert forall|bound: u64|
        seqs_under(kept, bound) && book[n].seq_num < bound implies seqs_under(t, bound) by {
        assert forall|i: int| 0 <= i < t.len() implies (#[trigger] t[i]).seq_num < bound by {
            if i < kept.len() {
                assert(kept[i].seq_num < bound);
            }
        }
    }
}

/// Total quantity of the first `n` orders of `book`.
pub open spec fn total_quantity(book: Seq<Order>, n: int) -> int
    decreases n,
{
    if n <= 0 {
        0
    } else {
        total_quantity(book, n - 1) + book[n - 1].quantity
    }
}

/// The total quantity of the first `n` orders looks at those orders only.
pub proof fn lemma_total_prefix(a: Seq<Order>, b: Seq<Order>, n: int)
    requires
        0 <= n <= a.len(),
        n <= b.len(),
        forall|i: int| 0 <= i < n ==> a[i].quantity == b[i].quantity,
    ensures
        total_quantity(a, n) == total_quantity(b, n),
    decreases n,
{
    if n > 0 {
        lemma_total_prefix(a, b, n - 1);
    }
}

/// Inserting an order adds its quantity to the total.
pub proof fn lemma_total_insert(s: Seq<Order>, k: int, o: Order)
    requires
        0 <= k <= s.len(),
    ensures
        total_quantity(s.insert(k, o), s.len() as int + 1) == total_quantity(s, s.len() as int)
            + o.quantity,
    decreases s.len() - k,
{
    let n = s.len() as int;
    let t = s.insert(k, o);
    s.insert_ensures(k, o);
    if k == n {
        lemma_total_prefix(t, s, n);
    } else {
        let s1 = s.drop_last();
        let t1 = s1.insert(k, o);
        s1.insert_ensures(k, o);
        lemma_total_insert(s1, k, o);
        assert forall|i: int| 0 <= i < n implies t[i].quantity == t1[i].quantity by {
            if i < k {
                assert(t[i] == s[i]);
                assert(t1[i] == s1[i]);
            } else if i > k {
                assert(t[i] == s[i - 1]);
                assert(t1[i] == s1[i - 1]);
            }
        }
        lemma_total_prefix(t, t1, n);
        lemma_total_prefix(s1, s, n - 1);
        assert(t[n] == s[n - 1]);
    }
}

/// The place that `slot_spec` gives an order is the one where all before
/// it go before the order and the order goes before all from there on.
pub proof fn lemma_slot_spec(side: Side, s: Seq<Order>, o: Order)
    requires
        book_ok(side, s),
        seq_unused(s, o.seq_num),
    ensures
        0 <= slot_spec(side, s, o) <= s.len(),
        forall|i: int| 0 <= i < slot_spec(side, s, o) ==> better(side, #[trigger] s[i], o),
        forall|j: int| slot_spec(side, s, o) <= j < s.len() ==> better(side, o, #[trigger] s[j]),
{
    lemma_first_worse(side, s, o, 0);
    let k = slot_spec(side, s, o);
    assert forall|j: int| k <= j < s.len() implies better(side, o, #[trigger] s[j]) by {
        if j > k {
            assert(better(side, s[k], s[j]));
        }
    }
}

/// What `first_worse` finds from `from` on.
pub proof fn lemma_first_worse(side: Side, s: Seq<Order>, o: Order, from: int)
    requires
        seq_unused(s, o.seq_num),
        0 <= from <= s.len(),
    ensures
        from <= first_worse(side, s, o, from) <= s.len(),
        forall|i: int| from <= i < first_worse(side, s, o, from) ==> better(side, #[trigger] s[i], o),
        first_worse(side, s, o, from) < s.len() ==> better(
            side,
            o,
            s[first_worse(side, s, o, from)],
        ),
    decreases s.len() - from,
{
    if from < s.len() && !better(side, o, s[from]) {
        lemma_first_worse(side, s, o, from + 1);
        assert(s[from].seq_num != o.seq_num);
    }
}

/// Every order of `r` has the sequence number of one of the first `n`
/// orders of `s`.
pub open spec fn seqs_from(r: Seq<Order>, s: Seq<Order>, n: int) -> bool {
    forall|i: int|
        0 <= i < r.len() ==> exists|j: int| 0 <= j < n && (#[trigger] r[i]).seq_num == (#[trigger] s[j]).seq_num
}

/// Re-anchoring keeps a book a book: the orders are the same but for the
/// prices of the pegged ones, they are in price-time priority again, and
/// their total quantity is what it was.
pub proof fn lemma_resorted(side: Side, s: Seq<Order>, n: int, oracle_price_lots: i64)
    requires
        book_ok(side, s),
        0 <= n <= s.len(),
    ensures
        book_ok(side, resorted_upto(side, s, n, oracle_price_lots)),
        resorted_upto(side, s, n, oracle_price_lots).len() == n,
        seqs_from(resorted_upto(side, s, n, oracle_price_lots), s, n),
        forall|bound: u64|
            seqs_under(s, bound) ==> seqs_under(resorted_upto(side, s, n, oracle_price_lots), bound),
        total_quantity(resorted_upto(side, s, n, oracle_price_lots), n) == total_quantity(s, n),
    decreases n,
{
    if n > 0 {
        lemma_resorted(side, s, n - 1, oracle_price_lots);
        let r0 = resorted_upto(side, s, n - 1, oracle_price_lots);
        let o = s[n - 1].reanchored(side, oracle_price_lots);
        assert(s[n - 1].valid());
        assert(o.valid());
        assert forall|i: int| 0 <= i < r0.len() implies (#[trigger] r0[i]).seq_num
            != o.seq_num by {
            let j = choose|j: int| 0 <= j < n - 1 && r0[i].seq_num == (#[trigger] s[j]).seq_num;
            assert(s[j].seq_num != s[n - 1].seq_num);
        }
        lemma_slot_spec(side, r0, o);
        let k = slot_spec(side, r0, o);
        lemma_insert_keeps_book(side, r0, k, o);
        let r1 = r0.insert(k, o);
        r0.insert_ensures(k, o);
        assert forall|i: int| 0 <= i < r1.len() implies exists|j: int|
            0 <= j < n && (#[trigger] r1[i]).seq_num == (#[trigger] s[j]).seq_num by {
            if i < k {
                assert(r1[i] == r0[i]);
                let j = choose|j: int| 0 <= j < n - 1 && r0[i].seq_num == (#[trigger] s[j]).seq_num;
                assert(0 <= j < n && r1[i].seq_num == s[j].seq_num);
            } else if i == k {
                assert(r1[i].seq_num == s[n - 1].seq_num);
            } else {
                assert(r1[i] == r0[i - 1]);
                let j = choose|j: int|
                    0 <= j < n - 1 && r0[i - 1].seq_num == (#[trigger] s[j]).seq_num;
                assert(0 <= j < n && r1[i].seq_num == s[j].seq_num);
            }
        }
        assert forall|bound: u64| seqs_under(s, bound) implies seqs_under(r1, bound) by {
            assert(s[n - 1].seq_num < bound);
            assert forall|i: int| 0 <= i < r1.len() implies (#[trigger] r1[i]).seq_num < bound by {
                if i < k {
                    assert(r1[i] == r0[i]);
                } else if i > k {
                    assert(r1[i] == r0[i - 1]);
                }
            }
        }
        lemma_total_insert(r0, k, o);
    }
}

/// Re-anchoring changes no owner: where every order is `owner`'s, every
/// order still is.
pub proof fn lemma_resorted_owners(
    side: Side,
    s: Seq<Order>,
    n: int,
    oracle_price_lots: i64,
    owner: AccountRef,
)
    requires
        0 <= n <= s.len(),
        forall|i: int| 0 <= i < s.len() ==> (#[trigger] s[i]).owner == owner,
    ensures
        forall|i: int|
            0 <= i < resorted_upto(side, s, n, oracle_price_lots).len() ==> (
            #[trigger] resorted_upto(side, s, n, oracle_price_lots)[i]).owner == owner,
        resorted_upto(side, s, n, oracle_price_lots).len() == n,
    decreases n,
{
    if n > 0 {
        lemma_resorted_owners(side, s, n - 1, oracle_price_lots, owner);
        let r0 = resorted_upto(side, s, n - 1, oracle_price_lots);
        let o = s[n - 1].reanchored(side, oracle_price_lots);
        assert(s[n - 1].owner == owner);
        let k = slot_spec(side, r0, o);
        lemma_first_worse_in_range(side, r0, o, 0);
        r0.insert_ensures(k, o);
        let r1 = r0.insert(k, o);
        assert forall|i: int| 0 <= i < r1.len() implies (#[trigger] r1[i]).owner == owner by {
            if i < k {
                assert(r1[i] == r0[i]);
            } else if i > k {
                assert(r1[i] == r0[i - 1]);
            }
        }
    }
}

/// The place that `first_worse` finds is within the sequence.
pub proof fn lemma_first_worse_in_range(side: Side, s: Seq<Order>, o: Order, from: int)
    requires
        0 <= from <= s.len(),
    ensures
        from <= first_worse(side, s, o, from) <= s.len(),
    decreases s.len() - from,
{
    if from < s.len() && !better(side, o, s[from]) {
        lemma_first_worse_in_range(side, s, o, from + 1);
    }
}

/// Every order of `s` has a sequence number under `bound`.
pub open spec fn seqs_under(s: Seq<Order>, bound: u64) -> bool {
    forall|i: int| 0 <= i < s.len() ==> (#[trigger] s[i]).seq_num < bound
}

/// The live orders that an order from the other side with limit
/// `price_limit` may trade with.
pub open spec fn matchable_spec(side: Side, s: Seq<Order>, price_limit: i64, now_ts: u64) -> Seq<
    Order,
> {
    s.filter(|o: Order| !o.is_expired(now_ts) && price_crosses(side, o.price_lots, price_limit))
}

/// Inserting an element adds it to the multiset of the sequence.
pub proof fn lemma_insert_to_multiset(s: Seq<Order>, k: int, x: Order)
    requires
        0 <= k <= s.len(),
    ensures
        s.insert(k, x).to_multiset() =~= s.to_multiset().insert(x),
{
    let t = s.insert(k, x);
    s.insert_ensures(k, x);
    t.to_multiset_ensures();
    assert(t.remove(k) =~= s);
    assert(t[k] == x);
    assert(t.contains(x));
    assert(t.to_multiset().remove(x).insert(x) =~= t.to_multiset());
}

/// The place of `order` among `orders`: all before it go before the order,
/// the order goes before all from there on.
pub fn slot_for(side: Side, orders: &Vec<Order>, order: &Order) -> (k: usize)
    requires
        book_ok(side, orders@),
        seq_unused(orders@, order.seq_num),
    ensures
        k == slot_spec(side, orders@, *order),
        k <= orders@.len(),
        forall|i: int| 0 <= i < k ==> better(side, #[trigger] orders@[i], *order),
        forall|j: int| k <= j < orders@.len() ==> better(side, *order, #[trigger] orders@[j]),
{
    let mut k: usize = 0;
    while k < orders.len() && !order.goes_before(side, &orders[k])
        invariant
            k <= orders@.len(),
            book_ok(side, orders@),
            seq_unused(orders@, order.seq_num),
            forall|i: int| 0 <= i < k ==> better(side, #[trigger] orders@[i], *order),
            slot_spec(side, orders@, *order) == first_worse(side, orders@, *order, k as int),
        decreases orders@.len() - k,
    {
        k += 1;
    }
    proof {
        if k < orders@.len() {
            assert forall|j: int| k <= j < orders@.len() implies better(
                side,
                *order,
                #[trigger] orders@[j],
            ) by {
                if j > k {
                    assert(better(side, orders@[k as int], orders@[j]));
                }
            }
        }
    }
    k
}

/// Putting `order` at its place keeps a book well-formed.
pub proof fn lemma_insert_keeps_book(side: Side, s: Seq<Order>, k: int, order: Order)
    requires
        book_ok(side, s),
        order.valid(),
        seq_unused(s, order.seq_num),
        0 <= k <= s.len(),
        forall|i: int| 0 <= i < k ==> better(side, #[trigger] s[i], order),
        forall|j: int| k <= j < s.len() ==> better(side, order, #[trigger] s[j]),
    ensures
        book_ok(side, s.insert(k, order)),
{
    let t = s.insert(k, order);
    s.insert_ensures(k, order);
    assert forall|i: int, j: int| 0 <= i < j < t.len() implies #[trigger] better(
        side,
        t[i],
        t[j],
    ) by {
        if j < k {
            assert(better(side, s[i], s[j]));
        } else if j == k {
            assert(better(side, s[i], order));
        } else if i < k {
            assert(t[j] == s[j - 1]);
            if i < j - 1 {
                assert(better(side, s[i], s[j - 1]));
            }
        } else if i == k {
            assert(t[j] == s[j - 1]);
            assert(better(side, order, s[j - 1]));
        } else {
            assert(t[i] == s[i - 1]);
            assert(t[j] == s[j - 1]);
            assert(better(side, s[i - 1], s[j - 1]));
        }
    }
    assert forall|i: int, j: int| 0 <= i < j < t.len() implies (#[trigger] t[i]).seq_num != (
    #[trigger] t[j]).seq_num by {
        let a = if i < k {
            i
        } else {
            i - 1
        };
        let b = if j < k {
            j
        } else {
            j - 1
        };
        if i != k && j != k {
            assert(t[i] == s[a]);
            assert(t[j] == s[b]);
        } else if i == k {
            assert(t[j] == s[b]);
        } else {
            assert(t[i] == s[a]);
        }
    }
    assert forall|i: int| 0 <= i < t.len() implies (#[trigger] t[i]).valid() by {
        if i < k {
            assert(t[i] == s[i]);
        } else if i > k {
            assert(t[i] == s[i - 1]);
        }
    }
}

/// Taking an order out keeps a book well-formed.
pub proof fn lemma_remove_keeps_book(side: Side, s: Seq<Order>, k: int)
    requires
        book_ok(side, s),
        0 <= k < s.len(),
    ensures
        book_ok(side, s.remove(k)),
        forall|q: u64| seq_unused(s, q) ==> seq_unused(s.remove(k), q),
{
    let t = s.remove(k);
    s.remove_ensures(k);
    assert forall|i: int, j: int| 0 <= i < j < t.len() implies #[trigger] better(
        side,
        t[i],
        t[j],
    ) by {
        let a = if i < k {
            i
        } else {
            i + 1
        };
        let b = if j < k {
            j
        } else {
            j + 1
        };
        assert(t[i] == s[a]);
        assert(t[j] == s[b]);
        assert(better(side, s[a], s[b]));
    }
    assert forall|i: int, j: int| 0 <= i < j < t.len() implies (#[trigger] t[i]).seq_num != (
    #[trigger] t[j]).seq_num by {
        let a = if i < k {
            i
        } else {
            i + 1
        };
        let b = if j < k {
            j
        } else {
            j + 1
        };
        assert(t[i] == s[a]);
        assert(t[j] == s[b]);
    }
    assert forall|i: int| 0 <= i < t.len() implies (#[trigger] t[i]).valid() by {
        let a = if i < k {
            i
        } else {
            i + 1
        };
        assert(t[i] == s[a]);
    }
    assert forall|q: u64| seq_unused(s, q) implies seq_unused(t, q) by {
        assert forall|i: int| 0 <= i < t.len() implies (#[trigger] t[i]).seq_num != q by {
            let a = if i < k {
                i
            } else {
                i + 1
            };
            assert(t[i] == s[a]);
        }
    }
}

impl View for BookSide {
    type V = Seq<Order>;

    open spec fn view(&self) -> Seq<Order> {
        self.orders@
    }
}

impl BookSide {
    /// The orders are in price-time priority, no sequence number occurs
    /// twice, every order is valid and the side holds no more than its
    /// capacity.
    pub open spec fn wf(&self) -> bool {
        &&& self@.len() <= self.capacity
        &&& book_ok(self.side, self@)
    }

    /// An empty side that holds at most `capacity` orders.
    pub fn new(side: Side, capacity: usize) -> (r: BookSide)
        ensures
            r.wf(),
            r.side == side,
            r.capacity == capacity,
            r@ == Seq::<Order>::empty(),
    {
        BookSide { side, capacity, orders: Vec::new() }
    }

    /// A copy of the side.
    pub fn duplicate(&self) -> (r: BookSide)
        ensures
            r@ == self@,
            r.side == self.side,
            r.capacity == self.capacity,
            self.wf() ==> r.wf(),
    {
        let mut orders: Vec<Order> = Vec::new();
        let mut i: usize = 0;
        while i < self.orders.len()
            invariant
                i <= self@.len(),
                orders@ == self@.take(i as int),
            decreases self@.len() - i,
        {
            orders.push(self.orders[i]);
            proof {
                assert(self@.take(i + 1) =~= self@.take(i as int).push(self@[i as int]));
            }
            i += 1;
        }
        proof {
            assert(self@.take(self@.len() as int) =~= self@);
        }
        BookSide { side: self.side, capacity: self.capacity, orders }
    }

    /// Number of resting orders.
    pub fn len(&self) -> (r: usize)
        ensures
            r == self@.len(),
    {
        self.orders.len()
    }

    /// The order with the highest priority, if the side holds any.
    pub fn best(&self) -> (r: Option<&Order>)
        requires
            self.wf(),
        ensures
            self@.len() == 0 ==> r.is_none(),
            self@.len() > 0 ==> r == Some(&self@[0]),
            r matches Some(o) ==> forall|i: int|
                1 <= i < self@.len() ==> better(self.side, *o, #[trigger] self@[i]),
    {
        if self.orders.len() == 0 {
            None
        } else {
            Some(&self.orders[0])
        }
    }

    /// What `insert` answers and leaves behind: a side with room takes the
    /// order at its place; a full side evicts its worst order for one that
    /// is strictly better priced, and refuses any other.
    pub open spec fn insert_refused(&self, order: Order) -> bool {
        self@.len() >= self.capacity && (self@.len() == 0 || !price_better(
            self.side,
            order.price_lots,
            self@.last().price_lots,
        ))
    }

    /// Puts `order` on the side, at the place its price and sequence number
    /// give it.
    pub fn insert(&mut self, order: Order) -> (r: Result<Inserted, BookFull>)
        requires
            old(self).wf(),
            order.valid(),
            seq_unused(old(self)@, order.seq_num),
        ensures
            final(self).wf(),
            final(self).side == old(self).side,
            final(self).capacity == old(self).capacity,
            r.is_err() == old(self).insert_refused(order),
            r.is_err() ==> final(self)@ == old(self)@,
            r matches Ok(ins) ==> {
                let kept = if ins.evicted.is_some() {
                    old(self)@.drop_last()
                } else {
                    old(self)@
                };
                &&& ins.evicted.is_some() == (old(self)@.len() >= old(self).capacity)
                &&& ins.evicted matches Some(e) ==> e == old(self)@.last()
                &&& ins.slot <= kept.len()
                &&& ins.slot == slot_spec(old(self).side, kept, order)
                &&& final(self)@ == kept.insert(ins.slot as int, order)
                &&& forall|i: int|
                    0 <= i < ins.slot ==> better(old(self).side, #[trigger] kept[i], order)
                &&& forall|i: int|
                    ins.slot <= i < kept.len() ==> better(old(self).side, order, #[trigger] kept[i])
            },
    {
        let mut evicted: Option<Order> = None;
        if self.orders.len() >= self.capacity {
            let n = self.orders.len();
            if n == 0 {
                return Err(BookFull);
            }
            let worst = self.orders[n - 1];
            let strictly_better = match self.side {
                Side::Bid => order.price_lots > worst.price_lots,
                Side::Ask => order.price_lots < worst.price_lots,
            };
            if !strictly_better {
                return Err(BookFull);
            }
            proof {
                lemma_remove_keeps_book(self.side, self@, n - 1);
                assert(self@.remove(n - 1) =~= self@.drop_last());
            }
            self.orders.remove(n - 1);
            evicted = Some(worst);
        }
        let k = slot_for(self.side, &self.orders, &order);
        proof {
            lemma_insert_keeps_book(self.side, self@, k as int, order);
        }
        self.orders.insert(k, order);
        Ok(Inserted { slot: k, evicted })
    }

    /// Takes the order at `slot` off the side and hands it out.
    pub fn remove(&mut self, slot: usize) -> (r: Order)
        requires
            old(self).wf(),
            slot < old(self)@.len(),
        ensures
            final(self).wf(),
            final(self).side == old(self).side,
            final(self).capacity == old(self).capacity,
            r == old(self)@[slot as int],
            final(self)@ == old(self)@.remove(slot as int),
    {
        proof {
            lemma_remove_keeps_book(self.side, self@, slot as int);
        }
        self.orders.remove(slot)
    }

    /// Index of the order that `owner` placed and that has the sequence
    /// number `order_id`.
    pub fn find_order(&self, owner: &AccountRef, order_id: u64) -> (r: Option<usize>)
        ensures
            r == first_order(self@, *owner, order_id, 0),
            r matches Some(i) ==> i < self@.len() && self@[i as int].owner == *owner
                && self@[i as int].seq_num == order_id,
    {
        let mut i: usize = 0;
        while i < self.orders.len()
            invariant
                i <= self@.len(),
                first_order(self@, *owner, order_id, 0) == first_order(
                    self@,
                    *owner,
                    order_id,
                    i as int,
                ),
            decreases self@.len() - i,
        {
            if self.orders[i].seq_num == order_id && self.orders[i].owner == *owner {
                return Some(i);
            }
            i += 1;
        }
        None
    }

    /// Index of the first order that `owner` placed under `client_order_id`.
    pub fn find_client_order(&self, owner: &AccountRef, client_order_id: u64) -> (r: Option<usize>)
        ensures
            r == first_client_order(self@, *owner, client_order_id, 0),
            r matches Some(i) ==> i < self@.len() && self@[i as int].owner == *owner
                && self@[i as int].client_order_id == client_order_id,
    {
        let mut i: usize = 0;
        while i < self.orders.len()
            invariant
                i <= self@.len(),
                first_client_order(self@, *owner, client_order_id, 0) == first_client_order(
                    self@,
                    *owner,
                    client_order_id,
                    i as int,
                ),
            decreases self@.len() - i,
        {
            if self.orders[i].client_order_id == client_order_id && self.orders[i].owner
                == *owner {
                return Some(i);
            }
            i += 1;
        }
        None
    }

    /// The live orders within `price_limit`, best first. Each call walks the
    /// side anew.
    pub fn iterate_matchable(&self, price_limit: i64, now_ts: u64) -> (r: Vec<Order>)
        ensures
            r@ == matchable_spec(self.side, self@, price_limit, now_ts),
    {
        let ghost pred = |o: Order|
            !o.is_expired(now_ts) && price_crosses(self.side, o.price_lots, price_limit);
        let mut out: Vec<Order> = Vec::new();
        let mut i: usize = 0;
        proof {
            assert(self@.take(0) =~= Seq::<Order>::empty());
            reveal(Seq::filter);
        }
        while i < self.orders.len()
            invariant
                i <= self@.len(),
                pred == (|o: Order|
                    !o.is_expired(now_ts) && price_crosses(self.side, o.price_lots, price_limit)),
                out@ == self@.take(i as int).filter(pred),
            decreases self@.len() - i,
        {
            let o = self.orders[i];
            proof {
                assert(self@.take(i + 1) =~= self@.take(i as int).push(o));
                self@.take(i as int).lemma_filter_push(o, pred);
            }
            if !o.expired(now_ts) && o.crosses(self.side, price_limit) {
                out.push(o);
            }
            i += 1;
        }
        proof {
            assert(self@.take(self@.len() as int) =~= self@);
        }
        out
    }

    /// The orders of the side as they stand at the given oracle price: every
    /// pegged order at its new price, all in price-time priority. The side
    /// itself stays as it is.
    pub fn reanchored_orders(&self, oracle_price_lots: i64) -> (r: Vec<Order>)
        requires
            self.wf(),
        ensures
            r@ == resorted(self.side, self@, oracle_price_lots),
            r@.len() == self@.len(),
            book_ok(self.side, r@),
            r@.to_multiset() == reanchored_all(self.side, self@, oracle_price_lots).to_multiset(),
            forall|bound: u64| seqs_under(self@, bound) ==> seqs_under(r@, bound),
    {
        let ghost target = reanchored_all(self.side, self@, oracle_price_lots);
        let n = self.orders.len();
        let mut out: Vec<Order> = Vec::new();
        let mut i: usize = 0;
        proof {
            assert(target.take(0) =~= Seq::<Order>::empty());
        }
        while i < n
            invariant
                i <= n,
                n == self@.len(),
                self.wf(),
                target == reanchored_all(self.side, self@, oracle_price_lots),
                out@.len() == i,
                out@ == resorted_upto(self.side, self@, i as int, oracle_price_lots),
                book_ok(self.side, out@),
                out@.to_multiset() == target.take(i as int).to_multiset(),
                forall|bound: u64| seqs_under(self@, bound) ==> seqs_under(out@, bound),
            decreases n - i,
        {
            let o = self.orders[i].reanchor(self.side, oracle_price_lots);
            proof {
                assert(o == target[i as int]);
                assert forall|j: int| 0 <= j < out@.len() implies (#[trigger] out@[j]).seq_num
                    != o.seq_num by {
                    out@.to_multiset_ensures();
                    target.take(i as int).to_multiset_ensures();
                    assert(out@.contains(out@[j]));
                    assert(out@.to_multiset().count(out@[j]) > 0);
                    assert(target.take(i as int).to_multiset().count(out@[j]) > 0);
                    assert(target.take(i as int).contains(out@[j]));
                    let m = choose|m: int|
                        0 <= m < target.take(i as int).len() && target.take(i as int)[m] == out@[j];
                    assert(target[m].seq_num == self@[m].seq_num);
                    assert(self@[m].seq_num != self@[i as int].seq_num);
                }
            }
            let k = slot_for(self.side, &out, &o);
            proof {
                lemma_insert_keeps_book(self.side, out@, k as int, o);
                lemma_insert_to_multiset(out@, k as int, o);
                assert(target.take(i + 1) =~= target.take(i as int).push(o));
                target.take(i as int).to_multiset_ensures();
                let before = out@;
                let after = out@.insert(k as int, o);
                before.insert_ensures(k as int, o);
                assert forall|bound: u64| seqs_under(self@, bound) implies seqs_under(
                    after,
                    bound,
                ) by {
                    assert(self@[i as int].seq_num < bound);
                    assert forall|j: int| 0 <= j < after.len() implies (#[trigger] after[j]).seq_num
                        < bound by {
                        if j < k {
                            assert(after[j] == before[j]);
                        } else if j > k {
                            assert(after[j] == before[j - 1]);
                        }
                    }
                }
            }
            out.insert(k, o);
            i += 1;
        }
        proof {
            assert(target.take(n as int) =~= target);
        }
        out
    }

    /// Moves every pegged order to the price the oracle gives it and puts
    /// the side back in price-time priority.
    pub fn reanchor_pegged_orders(&mut self, oracle_price_lots: i64)
        requires
            old(self).wf(),
        ensures
            final(self).wf(),
            final(self).side == old(self).side,
            final(self).capacity == old(self).capacity,
            final(self)@ == resorted(old(self).side, old(self)@, oracle_price_lots),
            final(self)@.to_multiset() == reanchored_all(
                old(self).side,
                old(self)@,
                oracle_price_lots,
            ).to_multiset(),
    {
        let out = self.reanchored_orders(oracle_price_lots);
        self.orders = out;
    }
}

} // verus!
