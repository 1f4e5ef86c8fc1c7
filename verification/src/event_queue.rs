use vstd::prelude::*;
use std::collections::VecDeque;
use crate::address::{contains_ref, AccountRef};
use crate::types::{QueueFull, Side};

verus! {

/// A trade between a resting order and an incoming one, with what it owes
/// the maker.
#[derive(Clone, Copy, Debug)]
pub struct FillEvent {
    /// Owner of the resting order.
    pub maker: AccountRef,
    /// Owner of the incoming order.
    pub taker: AccountRef,
    pub taker_side: Side,
    /// Whether the trade used the resting order up.
    pub maker_out: bool,
    /// Sequence number of the resting order.
    pub maker_order_id: u64,
    pub price_lots: i64,
    /// Base lots traded.
    pub quantity: i64,
    /// Native quote units traded, before fees.
    pub quote_native: i64,
    /// Fee charged to the maker, in native quote units; negative for a rebate.
    pub maker_fee: i64,
    /// Fee charged to the taker, in native quote units.
    pub taker_fee: i64,
    /// Native base units the maker may withdraw once the event is applied.
    pub maker_base_free: i64,
    /// Native quote units the maker may withdraw once the event is applied.
    pub maker_quote_free: i64,
    pub timestamp: u64,
    pub seq_num: u64,
}

/// An order, or a part of one, that left the book without a trade: expired,
/// evicted or cancelled against its owner's own incoming order.
#[derive(Clone, Copy, Debug)]
pub struct OutEvent {
    pub owner: AccountRef,
    /// Side the order rested on.
    pub side: Side,
    /// Sequence number of the order.
    pub order_id: u64,
    /// Base lots that no longer rest.
    pub quantity: i64,
    /// Native base units unlocked.
    pub base_free: i64,
    /// Native quote units unlocked.
    pub quote_free: i64,
    pub timestamp: u64,
    pub seq_num: u64,
}

/// An entry of the event queue.
#[derive(Clone, Copy, Debug)]
pub enum Event {
    Fill(FillEvent),
    Out(OutEvent),
}

impl Event {
    /// The account whose position the event is applied to: the maker of a
    /// fill, the owner of an order that went out.
    pub open spec fn owner_spec(self) -> AccountRef {
        match self {
            Event::Fill(f) => f.maker,
            Event::Out(o) => o.owner,
        }
    }

    pub open spec fn seq_spec(self) -> u64 {
        match self {
            Event::Fill(f) => f.seq_num,
            Event::Out(o) => o.seq_num,
        }
    }

    /// The account whose position the event is applied to.
    pub fn owner(&self) -> (r: AccountRef)
        ensures
            r == self.owner_spec(),
    {
        match self {
            Event::Fill(f) => f.maker,
            Event::Out(o) => o.owner,
        }
    }

    /// The event's sequence number.
    pub fn seq_num(&self) -> (r: u64)
        ensures
            r == self.seq_spec(),
    {
        match self {
            Event::Fill(f) => f.seq_num,
            Event::Out(o) => o.seq_num,
        }
    }
}

/// True where `seqs` names no sequence numbers at all, or names `seq_num`.
pub open spec fn seq_wanted(seqs: Option<Seq<u64>>, seq_num: u64) -> bool {
    match seqs {
        Some(s) => s.contains(seq_num),
        None => true,
    }
}

/// The first `n` events of `s` parted in two, each part in queue order: those
/// that are taken, which are the first `limit` events that are owned by one
/// of `accounts` and wanted by `seqs`, and those that are kept.
pub open spec fn split_upto(
    s: Seq<Event>,
    n: int,
    accounts: Seq<AccountRef>,
    seqs: Option<Seq<u64>>,
    limit: int,
) -> (Seq<Event>, Seq<Event>)
    decreases n,
{
    if n <= 0 {
        (Seq::empty(), Seq::empty())
    } else {
        let (taken, kept) = split_upto(s, n - 1, accounts, seqs, limit);
        let e = s[n - 1];
        if taken.len() < limit && accounts.contains(e.owner_spec()) && seq_wanted(
            seqs,
            e.seq_spec(),
        ) {
            (taken.push(e), kept)
        } else {
            (taken, kept.push(e))
        }
    }
}

/// True where `x` is one of `v`.
pub fn contains_seq(v: &Vec<u64>, x: u64) -> (r: bool)
    ensures
        r == v@.contains(x),
{
    let mut i: usize = 0;
    while i < v.len()
        invariant
            i <= v@.len(),
            forall|j: int| 0 <= j < i ==> v@[j] != x,
        decreases v@.len() - i,
    {
        if v[i] == x {
            return true;
        }
        i += 1;
    }
    false
}

/// The sequence numbers named, as a plain sequence.
pub open spec fn seqs_view(seqs: Option<&Vec<u64>>) -> Option<Seq<u64>> {
    match seqs {
        Some(v) => Some(v@),
        None => None,
    }
}

/// Number of events at the head of `s` whose sequence number is at most
/// `up_to_seq`.
pub open spec fn leading_upto(s: Seq<Event>, up_to_seq: u64) -> nat
    decreases s.len(),
{
    if s.len() > 0 && s[0].seq_spec() <= up_to_seq {
        1 + leading_upto(s.subrange(1, s.len() as int), up_to_seq)
    } else {
        0
    }
}

/// Every event is taken or kept, no event is both, and at most `limit` are
/// taken, all of them owned by one of `accounts`. Where the limit is no
/// bound and no sequence numbers are named, no event that is kept is owned
/// by one of `accounts`.
pub proof fn lemma_split_upto(
    s: Seq<Event>,
    n: int,
    accounts: Seq<AccountRef>,
    seqs: Option<Seq<u64>>,
    limit: int,
)
    requires
        0 <= n <= s.len(),
    ensures
        split_upto(s, n, accounts, seqs, limit).0.len() + split_upto(
            s,
            n,
            accounts,
            seqs,
            limit,
        ).1.len() == n,
        limit >= 0 ==> split_upto(s, n, accounts, seqs, limit).0.len() <= limit,
        forall|i: int|
            0 <= i < split_upto(s, n, accounts, seqs, limit).0.len() ==> accounts.contains(
                (#[trigger] split_upto(s, n, accounts, seqs, limit).0[i]).owner_spec(),
            ),
        limit >= n && seqs.is_none() ==> forall|i: int|
            0 <= i < split_upto(s, n, accounts, seqs, limit).1.len() ==> !accounts.contains(
                (#[trigger] split_upto(s, n, accounts, seqs, limit).1[i]).owner_spec(),
            ),
    decreases n,
{
    if n > 0 {
        lemma_split_upto(s, n - 1, accounts, seqs, limit);
    }
}

/// A queue and its flags after `e` was pushed: appended where there is room;
/// in place of the oldest event, whose owner is flagged, where the queue is
/// full; refused where the queue has no capacity at all.
pub open spec fn pushed(q: (Seq<Event>, Seq<AccountRef>), capacity: usize, e: Event) -> (
    Seq<Event>,
    Seq<AccountRef>,
) {
    if q.0.len() < capacity {
        (q.0.push(e), q.1)
    } else if capacity == 0 || q.0.len() == 0 {
        q
    } else {
        (q.0.subrange(1, q.0.len() as int).push(e), q.1.push(q.0[0].owner_spec()))
    }
}

/// A queue and its flags after the first `n` of `events` were pushed, one
/// after the other.
pub open spec fn pushed_upto(
    q: (Seq<Event>, Seq<AccountRef>),
    capacity: usize,
    events: Seq<Event>,
    n: int,
) -> (Seq<Event>, Seq<AccountRef>)
    decreases n,
{
    if n <= 0 {
        q
    } else {
        pushed(pushed_upto(q, capacity, events, n - 1), capacity, events[n - 1])
    }
}

/// The bounded log of what matching produced and settlement has not yet
/// applied, oldest first.
#[derive(Debug)]
pub struct EventQueue {
    /// Most events the queue holds.
    pub capacity: usize,
    pub events: VecDeque<Event>,
    /// Owners of the events that were evicted unapplied; their accounts have
    /// to be reconciled by other means.
    pub flagged: Vec<AccountRef>,
}

impl View for EventQueue {
    type V = Seq<Event>;

    open spec fn view(&self) -> Seq<Event> {
        self.events@
    }
}

impl EventQueue {
    pub open spec fn wf(&self) -> bool {
        self@.len() <= self.capacity
    }

    /// An empty queue that holds at most `capacity` events.
    pub fn new(capacity: usize) -> (r: EventQueue)
        ensures
            r.wf(),
            r.capacity == capacity,
            r@ == Seq::<Event>::empty(),
            r.flagged@ == Seq::<AccountRef>::empty(),
    {
        EventQueue { capacity, events: VecDeque::new(), flagged: Vec::new() }
    }

    /// A copy of the queue and its flags.
    pub fn duplicate(&self) -> (r: EventQueue)
        ensures
            r@ == self@,
            r.flagged@ == self.flagged@,
            r.capacity == self.capacity,
            self.wf() ==> r.wf(),
    {
        let mut events: VecDeque<Event> = VecDeque::new();
        let mut i: usize = 0;
        while i < self.events.len()
            invariant
                i <= self@.len(),
                events@ == self@.take(i as int),
            decreases self@.len() - i,
        {
            events.push_back(self.events[i]);
            proof {
                assert(self@.take(i + 1) =~= self@.take(i as int).push(self@[i as int]));
            }
            i += 1;
        }
        let mut flagged: Vec<AccountRef> = Vec::new();
        let mut j: usize = 0;
        while j < self.flagged.len()
            invariant
                j <= self.flagged@.len(),
                flagged@ == self.flagged@.take(j as int),
                events@ == self@.take(self@.len() as int),
            decreases self.flagged@.len() - j,
        {
            flagged.push(self.flagged[j]);
            proof {
                assert(self.flagged@.take(j + 1) =~= self.flagged@.take(j as int).push(
                    self.flagged@[j as int],
                ));
            }
            j += 1;
        }
        proof {
            assert(self@.take(self@.len() as int) =~= self@);
            assert(self.flagged@.take(self.flagged@.len() as int) =~= self.flagged@);
        }
        EventQueue { capacity: self.capacity, events, flagged }
    }

    /// Number of events that wait.
    pub fn len(&self) -> (r: usize)
        ensures
            r == self@.len(),
    {
        self.events.len()
    }

    /// True where an event of `owner` was evicted unapplied.
    pub fn is_flagged(&self, owner: &AccountRef) -> (r: bool)
        ensures
            r == self.flagged@.contains(*owner),
    {
        contains_ref(&self.flagged, owner)
    }

    /// Hands out the owners that were flagged and forgets them: from here on
    /// it is the caller who has their accounts reconciled.
    pub fn take_flagged(&mut self) -> (r: Vec<AccountRef>)
        ensures
            r@ == old(self).flagged@,
            final(self).flagged@ == Seq::<AccountRef>::empty(),
            final(self)@ == old(self)@,
            final(self).capacity == old(self).capacity,
    {
        let mut out: Vec<AccountRef> = Vec::new();
        core::mem::swap(&mut self.flagged, &mut out);
        out
    }

    /// The oldest event, if any waits.
    pub fn peek_head(&self) -> (r: Option<&Event>)
        ensures
            self@.len() == 0 ==> r.is_none(),
            self@.len() > 0 ==> r == Some(&self@[0]),
    {
        if self.events.len() == 0 {
            None
        } else {
            Some(&self.events[0])
        }
    }

    /// Appends `event`. A full queue first evicts its oldest event and
    /// flags that event's owner. Only a queue without any capacity refuses.
    pub fn push(&mut self, event: Event) -> (r: Result<(), QueueFull>)
        requires
            old(self).wf(),
        ensures
            final(self).wf(),
            final(self).capacity == old(self).capacity,
            r.is_err() == (old(self).capacity == 0),
            (final(self)@, final(self).flagged@) == pushed(
                (old(self)@, old(self).flagged@),
                old(self).capacity,
                event,
            ),
            r.is_err() ==> final(self)@ == old(self)@ && final(self).flagged@ == old(self).flagged@,
            r.is_ok() && old(self)@.len() < old(self).capacity ==> final(self)@ == old(self)@.push(
                event,
            ) && final(self).flagged@ == old(self).flagged@,
            r.is_ok() && old(self)@.len() == old(self).capacity ==> final(self)@ == old(
                self,
            )@.subrange(1, old(self)@.len() as int).push(event) && final(self).flagged@ == old(
                self,
            ).flagged@.push(old(self)@[0].owner_spec()),
    {
        if self.capacity == 0 {
            return Err(QueueFull);
        }
        if self.events.len() >= self.capacity {
            match self.events.pop_front() {
                Some(oldest) => {
                    self.flagged.push(oldest.owner());
                },
                None => {},
            }
        }
        self.events.push_back(event);
        Ok(())
    }

    /// Appends `events`, oldest first, each as `push` does.
    pub fn push_all(&mut self, events: &Vec<Event>)
        requires
            old(self).wf(),
            old(self).capacity > 0 || events@.len() == 0,
        ensures
            final(self).wf(),
            final(self).capacity == old(self).capacity,
            (final(self)@, final(self).flagged@) == pushed_upto(
                (old(self)@, old(self).flagged@),
                old(self).capacity,
                events@,
                events@.len() as int,
            ),
    {
        let mut i: usize = 0;
        while i < events.len()
            invariant
                i <= events@.len(),
                self.wf(),
                self.capacity == old(self).capacity,
                self.capacity > 0 || events@.len() == 0,
                (self@, self.flagged@) == pushed_upto(
                    (old(self)@, old(self).flagged@),
                    old(self).capacity,
                    events@,
                    i as int,
                ),
            decreases events@.len() - i,
        {
            let _ = self.push(events[i]);
            i += 1;
        }
    }

    /// Drops the events at the head whose sequence number is at most
    /// `up_to_seq` and says how many they were.
    pub fn consume(&mut self, up_to_seq: u64) -> (r: usize)
        ensures
            r == leading_upto(old(self)@, up_to_seq),
            final(self)@ == old(self)@.subrange(r as int, old(self)@.len() as int),
            final(self).capacity == old(self).capacity,
            final(self).flagged@ == old(self).flagged@,
            old(self).wf() ==> final(self).wf(),
    {
        let mut n: usize = 0;
        let total = self.events.len();
        proof {
            assert(self@.subrange(0, self@.len() as int) =~= self@);
        }
        while self.events.len() > 0 && self.events[0].seq_num() <= up_to_seq
            invariant
                n <= old(self)@.len(),
                total == old(self)@.len(),
                self@ == old(self)@.subrange(n as int, old(self)@.len() as int),
                n + leading_upto(self@, up_to_seq) == leading_upto(old(self)@, up_to_seq),
                self.capacity == old(self).capacity,
                self.flagged@ == old(self).flagged@,
            decreases self@.len(),
        {
            assert(self@.len() == old(self)@.len() - n);
            self.events.pop_front();
            proof {
                assert(self@ =~= old(self)@.subrange(n + 1, old(self)@.len() as int));
            }
            n += 1;
        }
        n
    }

    /// Parts the queue, without changing it: the first `limit` events that
    /// are owned by one of `accounts` and, where `seqs` is given, have one of
    /// its sequence numbers; and the others. Both parts are in queue order.
    pub fn split_for(&self, accounts: &Vec<AccountRef>, seqs: Option<&Vec<u64>>, limit: usize) -> (r:
        (Vec<Event>, VecDeque<Event>))
        ensures
            (r.0@, r.1@) == split_upto(
                self@,
                self@.len() as int,
                accounts@,
                seqs_view(seqs),
                limit as int,
            ),
            r.0@.len() + r.1@.len() == self@.len(),
            r.0@.len() <= limit,
    {
        let mut taken: Vec<Event> = Vec::new();
        let mut kept: VecDeque<Event> = VecDeque::new();
        let mut i: usize = 0;
        while i < self.events.len()
            invariant
                i <= self@.len(),
                (taken@, kept@) == split_upto(
                    self@,
                    i as int,
                    accounts@,
                    seqs_view(seqs),
                    limit as int,
                ),
                taken@.len() + kept@.len() == i,
                taken@.len() <= limit,
            decreases self@.len() - i,
        {
            let e = self.events[i];
            let wanted = match seqs {
                Some(v) => contains_seq(v, e.seq_num()),
                None => true,
            };
            if taken.len() < limit && contains_ref(accounts, &e.owner()) && wanted {
                taken.push(e);
            } else {
                kept.push_back(e);
            }
            i += 1;
        }
        (taken, kept)
    }

    /// Takes out, in queue order, every event owned by one of `accounts`; the
    /// others stay as they were.
    pub fn drain_for(&mut self, accounts: &Vec<AccountRef>) -> (r: Vec<Event>)
        ensures
            (r@, final(self)@) == split_upto(
                old(self)@,
                old(self)@.len() as int,
                accounts@,
                None,
                old(self)@.len() as int,
            ),
            r@.len() + final(self)@.len() == old(self)@.len(),
            forall|i: int| 0 <= i < r@.len() ==> accounts@.contains((#[trigger] r@[i]).owner_spec()),
            forall|i: int|
                0 <= i < final(self)@.len() ==> !accounts@.contains(
                    (#[trigger] final(self)@[i]).owner_spec(),
                ),
            final(self).capacity == old(self).capacity,
            final(self).flagged@ == old(self).flagged@,
            old(self).wf() ==> final(self).wf(),
    {
        let n = self.events.len();
        proof {
            lemma_split_upto(self@, n as int, accounts@, None, n as int);
        }
        let (taken, kept) = self.split_for(accounts, None, n);
        self.events = kept;
        taken
    }
}

} // verus!
