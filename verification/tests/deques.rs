use lib::common::deque::{CacheRegion, Deque};
use lib::common::deques::Deques;
use lib::common::entry::{KeyDate, KeyHashDate, ValueEntry};
use std::sync::Arc;

fn kh(key: u32) -> KeyHashDate<u32> {
    KeyHashDate { key: Arc::new(key), hash: key as u64 * 31 }
}

fn front_keys(deq: &mut Deque<KeyHashDate<u32>>) -> Vec<u32> {
    let mut keys = Vec::new();
    while let Some(e) = deq.pop_front() {
        keys.push(*e.key);
    }
    keys
}

#[test]
fn push_back_ao_links_entry_into_its_region() {
    let mut deqs: Deques<u32> = Deques::default();
    let mut a: ValueEntry<u32, &str> = ValueEntry::new("a");
    deqs.push_back_ao(CacheRegion::MainProbation, kh(1), &mut a);
    let node = a.access_order_q_node().unwrap();
    assert_eq!(node.region, CacheRegion::MainProbation);
    assert!(deqs.probation.contains(&node));
    assert!(!deqs.window.contains(&node));
    assert!(!deqs.protected.contains(&node));
    assert_eq!(deqs.probation.len(), 1);
    assert_eq!(deqs.window.len(), 0);
    assert_eq!(a.write_order_q_node(), None);
    assert_eq!(*a.value(), "a");
}

#[test]
fn push_then_unlink_restores_the_queue() {
    let mut deqs: Deques<u32> = Deques::default();
    let mut a: ValueEntry<u32, u8> = ValueEntry::new(1);
    let mut b: ValueEntry<u32, u8> = ValueEntry::new(2);
    deqs.push_back_ao(CacheRegion::Window, kh(1), &mut a);
    deqs.push_back_ao(CacheRegion::Window, kh(2), &mut b);
    deqs.unlink_ao(&mut b);
    assert_eq!(b.access_order_q_node(), None);
    assert_eq!(deqs.window.len(), 1);
    assert_eq!(front_keys(&mut deqs.window), vec![1]);
}

#[test]
fn move_to_back_ao_reorders_and_keeps_entries() {
    let mut deqs: Deques<u32> = Deques::default();
    let mut es: Vec<ValueEntry<u32, u8>> = (0..3).map(|i| ValueEntry::new(i)).collect();
    for (i, e) in es.iter_mut().enumerate() {
        deqs.push_back_ao(CacheRegion::MainProtected, kh(i as u32), e);
    }
    deqs.move_to_back_ao(&es[0]);
    deqs.move_to_back_ao(&es[0]);
    assert_eq!(deqs.protected.len(), 3);
    assert_eq!(front_keys(&mut deqs.protected), vec![1, 2, 0]);
}

#[test]
fn move_to_back_ao_of_an_unlinked_entry_changes_nothing() {
    let mut deqs: Deques<u32> = Deques::default();
    let mut a: ValueEntry<u32, u8> = ValueEntry::new(1);
    let mut b: ValueEntry<u32, u8> = ValueEntry::new(2);
    deqs.push_back_ao(CacheRegion::Window, kh(1), &mut a);
    deqs.push_back_ao(CacheRegion::Window, kh(2), &mut b);
    let stale = a.access_order_q_node();
    deqs.unlink_ao(&mut a);
    a.set_access_order_q_node(stale);
    deqs.move_to_back_ao(&a);
    deqs.move_to_back_ao(&ValueEntry::<u32, u8>::new(9));
    assert_eq!(front_keys(&mut deqs.window), vec![2]);
}

#[test]
fn write_order_push_move_and_unlink() {
    let mut deqs: Deques<u32> = Deques::default();
    let mut a: ValueEntry<u32, u8> = ValueEntry::new(1);
    let mut b: ValueEntry<u32, u8> = ValueEntry::new(2);
    deqs.push_back_wo(KeyDate { key: Arc::new(10) }, &mut a);
    deqs.push_back_wo(KeyDate { key: Arc::new(20) }, &mut b);
    let na = a.write_order_q_node().unwrap();
    assert_eq!(na.region, CacheRegion::WriteOrder);
    assert!(deqs.write_order.contains(&na));
    deqs.move_to_back_wo(&a);
    assert_eq!(deqs.write_order.peek_front().map(|k| *k.key), Some(20));
    Deques::unlink_wo(&mut deqs.write_order, &mut b);
    assert_eq!(b.write_order_q_node(), None);
    assert_eq!(deqs.write_order.len(), 1);
    assert_eq!(deqs.write_order.peek_front().map(|k| *k.key), Some(10));
}

#[test]
fn unlink_ao_from_a_named_deque() {
    let mut deqs: Deques<u32> = Deques::default();
    let mut a: ValueEntry<u32, u8> = ValueEntry::new(1);
    deqs.push_back_ao(CacheRegion::MainProbation, kh(5), &mut a);
    let node = a.access_order_q_node().unwrap();
    Deques::unlink_ao_from_deque("probation", &mut deqs.probation, &mut a);
    assert!(deqs.probation.is_empty());
    assert!(!deqs.probation.contains(&node));
    let mut none: ValueEntry<u32, u8> = ValueEntry::new(2);
    Deques::unlink_ao_from_deque("probation", &mut deqs.probation, &mut none);
    assert!(deqs.probation.is_empty());
}

#[test]
fn ids_are_never_given_out_twice() {
    let mut deq: Deque<KeyHashDate<u32>> = Deque::new(CacheRegion::Window);
    let n1 = deq.push_back(kh(1));
    let _ = deq.pop_front();
    let n2 = deq.push_back(kh(2));
    assert_ne!(n1, n2);
    assert!(!deq.contains(&n1));
    assert!(deq.contains(&n2));
    assert_eq!(deq.region(), CacheRegion::Window);
}

#[test]
fn unlink_node_ao_by_region() {
    let mut deqs: Deques<u32> = Deques::default();
    let mut a: ValueEntry<u32, u8> = ValueEntry::new(1);
    deqs.push_back_ao(CacheRegion::MainProtected, kh(3), &mut a);
    let node = a.take_access_order_q_node().unwrap();
    deqs.unlink_node_ao(node);
    assert!(deqs.protected.is_empty());
    let mut deq: Deque<KeyDate<u32>> = Deque::new(CacheRegion::WriteOrder);
    let n = deq.push_back(KeyDate { key: Arc::new(1) });
    Deques::<u32>::unlink_node_wo(&mut deq, n);
    assert!(deq.is_empty());
}

#[test]
fn handle_stays_valid_after_move_to_back() {
    let mut deq: Deque<KeyHashDate<u32>> = Deque::new(CacheRegion::MainProbation);
    let a = deq.push_back(kh(1));
    let b = deq.push_back(kh(2));
    deq.move_to_back(&a);
    assert!(deq.contains(&a));
    assert!(deq.contains(&b));
    assert_eq!(deq.unlink(&b).key, Arc::new(2));
    assert!(!deq.contains(&b));
    assert!(deq.contains(&a));
    assert_eq!(deq.peek_front().map(|e| *e.key), Some(1));
}
