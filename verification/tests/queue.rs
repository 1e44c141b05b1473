use mpmcpq::{Message, Notify, PriorityQueue, Progress, Stash};

#[test]
fn smoke() {
    let mut queue: PriorityQueue<String> = PriorityQueue::new();
    let mut progress = Progress::new();
    let mut stash = Stash::<String>::new();
    queue.send(&mut progress, "test 1".to_string(), 1, &mut stash);
    queue.send(&mut progress, "test 3".to_string(), 3, &mut stash);
    queue.send(&mut progress, "test 2".to_string(), 2, &mut stash);
    let guard = queue.recv_guard();
    assert_eq!(guard.message(), &Message::Msg("test 1".to_string(), 1));
    queue.release_guard(&mut progress, guard);
    let guard = queue.recv_guard();
    assert_eq!(guard.message(), &Message::Msg("test 2".to_string(), 2));
    queue.release_guard(&mut progress, guard);
    let guard = queue.recv_guard();
    assert_eq!(guard.message(), &Message::Msg("test 3".to_string(), 3));
    queue.release_guard(&mut progress, guard);
    let guard = queue.recv_guard();
    assert_eq!(guard.message(), &Message::Drained);
    queue.release_guard(&mut progress, guard);
    assert!(queue.try_recv_guard().is_none());
}

#[test]
fn try_recv() {
    let mut queue: PriorityQueue<String> = PriorityQueue::new();
    let mut progress = Progress::new();
    let mut stash = Stash::<String>::new();
    queue.send(&mut progress, "test 1".to_string(), 1, &mut stash);
    queue.send(&mut progress, "test 3".to_string(), 3, &mut stash);
    queue.send(&mut progress, "test 2".to_string(), 2, &mut stash);
    for _ in 0..4 {
        let guard = queue.try_recv_guard();
        assert!(guard.is_some());
        queue.release_guard(&mut progress, guard.unwrap());
    }
    assert!(queue.try_recv_guard().is_none());
    assert!(queue.try_recv_guard().is_none());
}

#[test]
fn sequential_threads_scenario() {
    // A producer's and a consumer's exchange, run on one thread.
    let mut queue: PriorityQueue<String> = PriorityQueue::new();
    let mut progress = Progress::new();
    let mut stash1 = Stash::<String>::new();
    queue.send(&mut progress, "test 1".to_string(), 1, &mut stash1);
    queue.send(&mut progress, "test 3".to_string(), 3, &mut stash1);
    queue.send(&mut progress, "test 2".to_string(), 2, &mut stash1);
    let mut stash2 = Stash::<String>::new();
    for (text, prio) in [("test 1", 1u64), ("test 2", 2), ("test 3", 3)] {
        let guard = queue.recv_guard();
        assert_eq!(guard.message(), &Message::Msg(text.to_string(), prio));
        queue.release_guard(&mut progress, guard);
    }
    let guard = queue.recv_guard();
    assert!(guard.message().is_drained());
    queue.release_guard(&mut progress, guard);
    assert!(queue.try_recv_guard().is_none());
    queue.send(&mut progress, "test 4".to_string(), 4, &mut stash2);
    let guard = queue.recv_guard();
    assert_eq!(guard.message(), &Message::Msg("test 4".to_string(), 4));
    queue.release_guard(&mut progress, guard);
    let guard = queue.recv_guard();
    assert!(guard.message().is_drained());
    queue.release_guard(&mut progress, guard);
    assert!(queue.try_recv_guard().is_none());
}

#[test]
fn send_wakes_one_or_all() {
    let mut queue: PriorityQueue<u32> = PriorityQueue::new();
    let mut progress = Progress::new();
    let mut stash = Stash::<u32>::new();
    assert_eq!(queue.send(&mut progress, 10, 5, &mut stash), Notify::One);
    PriorityQueue::send_stash(&mut progress, 11, 6, &mut stash);
    assert_eq!(stash.len(), 1);
    assert_eq!(queue.send(&mut progress, 12, 7, &mut stash), Notify::All);
    assert!(stash.is_empty());
    assert_eq!(queue.len(), 3);
    assert_eq!(progress.in_progress(), 3);
    assert!(!progress.is_drained());
}

#[test]
fn sync_notify_by_count() {
    let mut queue: PriorityQueue<u32> = PriorityQueue::new();
    let mut progress = Progress::new();
    let mut stash = Stash::<u32>::new();
    assert_eq!(queue.sync(&mut stash), Notify::Nobody);
    PriorityQueue::send_stash(&mut progress, 1, 1, &mut stash);
    assert_eq!(queue.sync(&mut stash), Notify::One);
    assert!(stash.is_empty());
    PriorityQueue::send_stash(&mut progress, 2, 2, &mut stash);
    PriorityQueue::send_stash(&mut progress, 3, 3, &mut stash);
    assert_eq!(queue.sync(&mut stash), Notify::All);
    assert!(stash.is_empty());
    assert_eq!(queue.len(), 3);
    assert_eq!(progress.in_progress(), 3);
}

#[test]
fn send_sync_drains_stash_first() {
    let mut queue: PriorityQueue<u32> = PriorityQueue::new();
    let mut progress = Progress::new();
    let mut stash = Stash::<u32>::new();
    PriorityQueue::send_stash(&mut progress, 1, 9, &mut stash);
    assert_eq!(queue.send_sync(&mut progress, 2, 8, &mut stash), Notify::All);
    assert!(stash.is_empty());
    let (first, _) = queue.recv(&mut progress);
    assert_eq!(first.priority(), Some(&8));
    let (second, n) = queue.recv(&mut progress);
    assert_eq!(second.priority(), Some(&9));
    assert_eq!(n, Notify::One);
    let (third, n) = queue.recv(&mut progress);
    assert!(third.is_drained());
    assert_eq!(n, Notify::Nobody);
    assert_eq!(progress.in_progress(), 0);
    assert!(queue.is_empty());
}

#[test]
fn send_batched_collects_then_hands_back() {
    let mut progress = Progress::new();
    let mut stash = Stash::<u32>::new();
    assert_eq!(PriorityQueue::send_batched(&mut progress, 1, 1, 1, &mut stash), None);
    assert_eq!(PriorityQueue::send_batched(&mut progress, 2, 2, 1, &mut stash), None);
    assert_eq!(stash.len(), 2);
    assert_eq!(PriorityQueue::send_batched(&mut progress, 3, 3, 1, &mut stash), Some((3, 3)));
    assert_eq!(stash.len(), 2);
    assert_eq!(progress.in_progress(), 2);
}

#[test]
fn try_recv_on_empty_queue() {
    let mut queue: PriorityQueue<u32> = PriorityQueue::new();
    let mut progress = Progress::new();
    let (msg, n) = queue.try_recv(&mut progress);
    assert!(msg.is_none());
    assert_eq!(n, Notify::Nobody);
    assert_eq!(progress.in_progress(), 0);
    assert!(progress.is_drained());
}

#[test]
fn try_recv_takes_lowest_and_drains() {
    let mut queue: PriorityQueue<u32> = PriorityQueue::new();
    let mut progress = Progress::new();
    let mut stash = Stash::<u32>::new();
    queue.send(&mut progress, 30, 3, &mut stash);
    queue.send(&mut progress, 10, 1, &mut stash);
    let (msg, n) = queue.try_recv(&mut progress);
    assert_eq!(msg.as_ref().and_then(|m| m.message()), Some(&10));
    assert_eq!(n, Notify::Nobody);
    let (msg, n) = queue.try_recv(&mut progress);
    assert_eq!(msg.as_ref().and_then(|m| m.message()), Some(&30));
    assert_eq!(n, Notify::One);
    assert_eq!(queue.len(), 1);
    assert_eq!(progress.in_progress(), 1);
}

#[test]
fn drained_is_received_before_data() {
    let mut queue: PriorityQueue<u32> = PriorityQueue::new();
    let mut progress = Progress::new();
    let mut stash = Stash::<u32>::new();
    queue.send(&mut progress, 1, 0, &mut stash);
    let guard = queue.recv_guard();
    let (msg, n) = queue.release_guard(&mut progress, guard);
    assert_eq!(n, Notify::One);
    assert_eq!(msg.message(), Some(&1));
    queue.send(&mut progress, 2, 0, &mut stash);
    let guard = queue.recv_guard();
    assert!(guard.message().is_drained());
    let guard = queue.recv_guard();
    assert_eq!(guard.message().priority(), Some(&0));
}

#[test]
fn single_drained_notice() {
    let mut queue: PriorityQueue<u32> = PriorityQueue::new();
    let mut progress = Progress::new();
    let mut stash = Stash::<u32>::new();
    queue.send(&mut progress, 1, 1, &mut stash);
    queue.send(&mut progress, 2, 2, &mut stash);
    let a = queue.recv_guard();
    let b = queue.recv_guard();
    assert_eq!(queue.release_guard(&mut progress, b).1, Notify::Nobody);
    assert!(queue.is_empty());
    let (first, n) = queue.release_guard(&mut progress, a);
    assert_eq!(n, Notify::One);
    assert_eq!(first.priority(), Some(&1));
    assert_eq!(queue.len(), 1);
    let drained = queue.recv_guard();
    assert!(drained.message().is_drained());
    assert_eq!(queue.release_guard(&mut progress, drained).1, Notify::Nobody);
    assert!(queue.is_empty());
    assert_eq!(progress.in_progress(), 0);
}

#[test]
fn equal_priorities_all_come_out() {
    let mut queue: PriorityQueue<u32> = PriorityQueue::new();
    let mut progress = Progress::new();
    let mut stash = Stash::<u32>::new();
    for i in 0..5u32 {
        queue.send(&mut progress, i, 7, &mut stash);
    }
    queue.reserve(10);
    assert_eq!(queue.len(), 5);
    let mut seen = Vec::new();
    for _ in 0..5 {
        let (m, _) = queue.recv(&mut progress);
        assert_eq!(m.priority(), Some(&7));
        seen.push(*m.message().unwrap());
    }
    seen.sort();
    assert_eq!(seen, vec![0, 1, 2, 3, 4]);
}

#[test]
fn many_priorities_ascending() {
    let mut queue: PriorityQueue<u64> = PriorityQueue::new();
    let mut progress = Progress::new();
    let mut stash = Stash::<u64>::new();
    let prios = [5u64, 1, 9, 3, 7, 2, 8, 0, 6, 4];
    for p in prios {
        queue.send(&mut progress, p * 10, p, &mut stash);
    }
    for expected in 0..10u64 {
        let (m, _) = queue.recv(&mut progress);
        assert_eq!(m, Message::Msg(expected * 10, expected));
        assert_eq!(m.message(), Some(&(expected * 10)));
    }
    let (m, _) = queue.recv(&mut progress);
    assert!(m.is_drained());
}

#[test]
fn into_message_releases_the_guard() {
    let mut queue: PriorityQueue<u32> = PriorityQueue::new();
    let mut progress = Progress::new();
    let mut stash = Stash::<u32>::new();
    queue.send(&mut progress, 5, 1, &mut stash);
    queue.send(&mut progress, 6, 2, &mut stash);
    let guard = queue.recv_guard();
    let (msg, n) = guard.into_message(&mut queue, &mut progress);
    assert_eq!(msg, Message::Msg(5, 1));
    assert_eq!(n, Notify::Nobody);
    assert_eq!(progress.in_progress(), 1);
    let guard = queue.recv_guard();
    let (msg, n) = guard.into_message(&mut queue, &mut progress);
    assert_eq!(msg.message(), Some(&6));
    assert_eq!(n, Notify::One);
    let guard = queue.recv_guard();
    assert!(guard.message().is_drained());
}
