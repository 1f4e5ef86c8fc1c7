use openbook_v2_fuzz::address::AccountRef;
use openbook_v2_fuzz::event_queue::{Event, EventQueue, FillEvent, OutEvent};
use openbook_v2_fuzz::types::{QueueFull, Side};

fn queue_owner(n: u8) -> AccountRef {
    AccountRef { key: [n; 32] }
}

fn queue_out(owner: u8, seq_num: u64) -> Event {
    Event::Out(OutEvent {
        owner: queue_owner(owner),
        side: Side::Bid,
        order_id: seq_num,
        quantity: 1,
        base_free: 0,
        quote_free: 10,
        timestamp: 0,
        seq_num,
    })
}

fn queue_fill(maker: u8, taker: u8, seq_num: u64) -> Event {
    Event::Fill(FillEvent {
        maker: queue_owner(maker),
        taker: queue_owner(taker),
        taker_side: Side::Bid,
        maker_out: true,
        maker_order_id: 0,
        price_lots: 10,
        quantity: 1,
        quote_native: 100,
        maker_fee: 0,
        taker_fee: 0,
        maker_base_free: 0,
        maker_quote_free: 100,
        timestamp: 0,
        seq_num,
    })
}

fn queue_seqs(q: &EventQueue) -> Vec<u64> {
    q.events.iter().map(|e| e.seq_num()).collect()
}

#[test]
fn events_wait_in_order_of_arrival() {
    let mut q = EventQueue::new(4);
    assert!(q.peek_head().is_none());
    q.push(queue_out(1, 0)).unwrap();
    q.push(queue_fill(2, 3, 1)).unwrap();
    assert_eq!(q.len(), 2);
    assert_eq!(q.peek_head().unwrap().seq_num(), 0);
    assert_eq!(q.peek_head().unwrap().owner(), queue_owner(1));
    assert_eq!(queue_seqs(&q), vec![0, 1]);
    // the owner of a fill is its maker
    assert_eq!(queue_fill(2, 3, 1).owner(), queue_owner(2));
}

#[test]
fn full_queue_evicts_its_oldest_event_and_flags_the_owner() {
    let n = 3;
    let mut q = EventQueue::new(n);
    for i in 0..n {
        q.push(queue_out(10 + i as u8, i as u64)).unwrap();
    }
    assert_eq!(q.len(), n);
    assert!(!q.is_flagged(&queue_owner(10)));
    // one more than the capacity, nothing consumed
    q.push(queue_out(20, 3)).unwrap();
    assert_eq!(q.len(), n);
    assert_eq!(queue_seqs(&q), vec![1, 2, 3]);
    assert!(q.is_flagged(&queue_owner(10)));
    assert!(!q.is_flagged(&queue_owner(11)));
    assert!(!q.is_flagged(&queue_owner(20)));
    // the flags are handed out once
    assert_eq!(q.take_flagged(), vec![queue_owner(10)]);
    assert!(!q.is_flagged(&queue_owner(10)));
    assert_eq!(q.take_flagged(), vec![]);
    assert_eq!(q.len(), n);
}

#[test]
fn queue_without_capacity_refuses() {
    let mut q = EventQueue::new(0);
    assert_eq!(q.push(queue_out(1, 0)), Err(QueueFull));
    assert_eq!(q.len(), 0);
    assert!(!q.is_flagged(&queue_owner(1)));
}

#[test]
fn consume_drops_the_head_up_to_a_sequence_number() {
    let mut q = EventQueue::new(8);
    for i in [3u64, 4, 7, 5] {
        q.push(queue_out(1, i)).unwrap();
    }
    assert_eq!(q.consume(2), 0);
    assert_eq!(q.consume(4), 2);
    assert_eq!(queue_seqs(&q), vec![7, 5]);
    // stops at the first event above the number
    assert_eq!(q.consume(6), 0);
    assert_eq!(q.consume(7), 2);
    assert_eq!(q.len(), 0);
}

#[test]
fn drain_takes_the_events_of_the_accounts_given() {
    let mut q = EventQueue::new(8);
    q.push(queue_out(1, 0)).unwrap();
    q.push(queue_fill(2, 1, 1)).unwrap();
    q.push(queue_out(3, 2)).unwrap();
    q.push(queue_out(1, 3)).unwrap();
    let taken = q.drain_for(&vec![queue_owner(1), queue_owner(3)]);
    let taken: Vec<u64> = taken.iter().map(|e| e.seq_num()).collect();
    assert_eq!(taken, vec![0, 2, 3]);
    assert_eq!(queue_seqs(&q), vec![1]);
    assert_eq!(q.drain_for(&vec![queue_owner(9)]).len(), 0);
    assert_eq!(q.len(), 1);
}

#[test]
fn split_respects_limit_and_sequence_numbers() {
    let mut q = EventQueue::new(8);
    for i in 0..5u64 {
        q.push(queue_out(1 + (i % 2) as u8, i)).unwrap();
    }
    let accounts = vec![queue_owner(1)];
    let (taken, kept) = q.split_for(&accounts, None, 2);
    assert_eq!(taken.iter().map(|e| e.seq_num()).collect::<Vec<_>>(), vec![0, 2]);
    assert_eq!(kept.iter().map(|e| e.seq_num()).collect::<Vec<_>>(), vec![1, 3, 4]);
    let wanted = vec![4u64, 1];
    let (taken, kept) = q.split_for(&accounts, Some(&wanted), 9);
    assert_eq!(taken.iter().map(|e| e.seq_num()).collect::<Vec<_>>(), vec![4]);
    assert_eq!(kept.len(), 4);
    // the queue itself is not changed
    assert_eq!(q.len(), 5);
}

#[test]
fn push_all_appends_each_event() {
    let mut q = EventQueue::new(2);
    q.push_all(&vec![queue_out(1, 0), queue_out(2, 1), queue_out(3, 2)]);
    assert_eq!(queue_seqs(&q), vec![1, 2]);
    assert!(q.is_flagged(&queue_owner(1)));
}
