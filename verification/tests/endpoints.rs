use ebb::{
    Broadcaster, Fabric, Poll, Ports, Receiver, SendError, Sender,
};
use std::sync::{Arc, Mutex};
use std::task::{Wake, Waker};

struct Count(Mutex<usize>);

impl Wake for Count {
    fn wake(self: Arc<Self>) {
        *self.0.lock().unwrap() += 1;
    }
}

fn counting_waker() -> (Arc<Count>, Waker) {
    let count = Arc::new(Count(Mutex::new(0)));
    (count.clone(), Waker::from(count))
}

fn woken(count: &Arc<Count>) -> usize {
    *count.0.lock().unwrap()
}

fn idle() -> &'static Waker {
    Waker::noop()
}

fn drain(receiver: &Receiver, fabric: &mut Fabric) -> Vec<u64> {
    let mut seen = Vec::new();
    while let Poll::Ready(Some(item)) = receiver.poll_next(fabric, idle()) {
        seen.push(item);
    }
    seen
}

#[test]
fn create_opens_channels_and_inboxes_in_order() {
    let mut fabric = Fabric::new(4);
    assert_eq!(fabric.buffer_size(), 4);
    let first = Receiver::create(&mut fabric);
    let second = Receiver::create(&mut fabric);
    let sender = Sender::create(&mut fabric);
    let broadcaster = Broadcaster::create(&mut fabric);
    assert_eq!(first.channel(), 0);
    assert_eq!(second.channel(), 1);
    assert_eq!(sender.inbox(), 0);
    assert_eq!(sender.target(), None);
    assert_eq!(broadcaster.inbox(), 1);
    assert_eq!(broadcaster.target_count(), 0);
    assert_eq!(fabric.channel_count(), 2);
    assert_eq!(fabric.inbox_count(), 2);
}

#[test]
fn handles_mirror_their_endpoints() {
    let mut fabric = Fabric::new(4);
    let _other = Receiver::create(&mut fabric);
    let receiver = Receiver::create(&mut fabric);
    let _spare = Sender::create(&mut fabric);
    let sender = Sender::create(&mut fabric);
    let broadcaster = Broadcaster::create(&mut fabric);
    assert_eq!(receiver.handle().channel(), 1);
    assert_eq!(sender.handle().inbox(), 1);
    assert_eq!(broadcaster.handle().inbox(), 2);
}

#[test]
fn channels_get_the_buffer_size_of_the_fabric() {
    let mut fabric = Fabric::new(2);
    let receiver = Receiver::create(&mut fabric);
    let channel = fabric.channel_mut(receiver.channel());
    assert_eq!(channel.push(1), Ok(()));
    assert_eq!(channel.push(2), Ok(()));
    assert_eq!(channel.push(3), Err(SendError::Full(3)));
}

#[test]
fn the_unit_bundle_builds_nothing() {
    let mut fabric = Fabric::new(4);
    <() as Ports>::create(&mut fabric);
    ().handle();
    assert_eq!(fabric.channel_count(), 0);
    assert_eq!(fabric.inbox_count(), 0);
}

#[test]
fn receiver_yields_messages_then_waits() {
    let mut fabric = Fabric::new(4);
    let receiver = Receiver::create(&mut fabric);
    assert_eq!(receiver.poll_next(&mut fabric, idle()), Poll::Pending);
    assert_eq!(fabric.channel_mut(receiver.channel()).push(5), Ok(()));
    assert_eq!(fabric.channel_mut(receiver.channel()).push(6), Ok(()));
    assert_eq!(receiver.poll_next(&mut fabric, idle()), Poll::Ready(Some(5)));
    assert_eq!(receiver.poll_next(&mut fabric, idle()), Poll::Ready(Some(6)));
    assert_eq!(receiver.poll_next(&mut fabric, idle()), Poll::Pending);
}

#[test]
fn a_waiting_receiver_is_woken_by_a_flush() {
    let mut fabric = Fabric::new(4);
    let receiver = Receiver::create(&mut fabric);
    let mut sender = Sender::create(&mut fabric);
    sender.connect(&receiver.handle());
    let (count, waker) = counting_waker();
    assert_eq!(receiver.poll_next(&mut fabric, &waker), Poll::Pending);
    assert_eq!(sender.start_send(&mut fabric, 1), Ok(()));
    assert_eq!(woken(&count), 0);
    assert_eq!(sender.poll_flush(&mut fabric), Poll::Ready(Ok(())));
    assert_eq!(woken(&count), 1);
    assert_eq!(receiver.poll_next(&mut fabric, &waker), Poll::Ready(Some(1)));
}

#[test]
fn a_receiver_that_gets_a_message_does_not_register() {
    let mut fabric = Fabric::new(4);
    let receiver = Receiver::create(&mut fabric);
    let (count, waker) = counting_waker();
    assert_eq!(fabric.channel_mut(receiver.channel()).push(1), Ok(()));
    assert_eq!(receiver.poll_next(&mut fabric, &waker), Poll::Ready(Some(1)));
    fabric.channel_mut(receiver.channel()).wake_rx();
    assert_eq!(woken(&count), 0);
}

#[test]
fn taking_a_message_wakes_one_waiting_producer() {
    let mut fabric = Fabric::new(1);
    let receiver = Receiver::create(&mut fabric);
    let mut sender = Sender::create(&mut fabric);
    sender.connect(&receiver.handle());
    let (count, waker) = counting_waker();
    assert_eq!(sender.poll_ready(&mut fabric, &waker), Poll::Ready(Ok(())));
    assert_eq!(sender.start_send(&mut fabric, 1), Ok(()));
    assert_eq!(sender.poll_ready(&mut fabric, &waker), Poll::Pending);
    assert_eq!(woken(&count), 0);
    assert_eq!(receiver.poll_next(&mut fabric, idle()), Poll::Ready(Some(1)));
    assert_eq!(woken(&count), 1);
    assert_eq!(sender.poll_ready(&mut fabric, &waker), Poll::Ready(Ok(())));
}

#[test]
fn the_end_of_the_sequence_is_final() {
    let mut fabric = Fabric::new(4);
    let receiver = Receiver::create(&mut fabric);
    assert!(!receiver.is_terminated(&fabric));
    fabric.channel_mut(receiver.channel()).close();
    assert!(receiver.is_terminated(&fabric));
    for _ in 0..3 {
        assert_eq!(receiver.poll_next(&mut fabric, idle()), Poll::Ready(None));
    }
    let _ = fabric.channel_mut(receiver.channel()).push(1);
    fabric.channel_mut(receiver.channel()).wake_rx();
    assert_eq!(receiver.poll_next(&mut fabric, idle()), Poll::Ready(None));
    assert!(receiver.is_terminated(&fabric));
}

#[test]
fn a_closed_channel_ends_the_sequence_even_with_messages_left() {
    let mut fabric = Fabric::new(4);
    let receiver = Receiver::create(&mut fabric);
    assert_eq!(fabric.channel_mut(receiver.channel()).push(1), Ok(()));
    fabric.channel_mut(receiver.channel()).close();
    assert_eq!(receiver.poll_next(&mut fabric, idle()), Poll::Ready(None));
    assert_eq!(fabric.channel_mut(receiver.channel()).pop(), Some(1));
}

#[test]
fn giving_up_a_receiver_closes_its_channel() {
    let mut fabric = Fabric::new(4);
    let receiver = Receiver::create(&mut fabric);
    let handle = receiver.handle();
    let mut sender = Sender::create(&mut fabric);
    sender.connect(&handle);
    assert_eq!(sender.start_send(&mut fabric, 1), Ok(()));
    receiver.close(&mut fabric);
    assert!(fabric.channel(handle.channel()).is_closed());
    assert_eq!(sender.start_send(&mut fabric, 2), Err(SendError::Closed));
}

#[test]
fn an_unbound_sender_accepts_and_drops() {
    let mut fabric = Fabric::new(4);
    let receiver = Receiver::create(&mut fabric);
    let mut sender = Sender::create(&mut fabric);
    assert_eq!(sender.poll_ready(&mut fabric, idle()), Poll::Ready(Ok(())));
    assert_eq!(sender.start_send(&mut fabric, 1), Ok(()));
    assert_eq!(sender.poll_flush(&mut fabric), Poll::Ready(Ok(())));
    assert_eq!(sender.poll_close(&mut fabric), Poll::Ready(Ok(())));
    assert_eq!(sender.target(), None);
    assert_eq!(receiver.poll_next(&mut fabric, idle()), Poll::Pending);
}

#[test]
fn a_sender_bound_directly_feeds_the_channel() {
    let mut fabric = Fabric::new(4);
    let receiver = Receiver::create(&mut fabric);
    let mut sender = Sender::create(&mut fabric);
    sender.connect(&receiver.handle());
    assert_eq!(sender.target(), Some(receiver.channel()));
    for item in 0..3u64 {
        assert_eq!(sender.poll_ready(&mut fabric, idle()), Poll::Ready(Ok(())));
        assert_eq!(sender.start_send(&mut fabric, item), Ok(()));
    }
    assert_eq!(drain(&receiver, &mut fabric), vec![0, 1, 2]);
}

#[test]
fn a_connect_takes_effect_at_the_next_readiness_check() {
    let mut fabric = Fabric::new(4);
    let receiver = Receiver::create(&mut fabric);
    let mut sender = Sender::create(&mut fabric);
    sender.handle().connect(&receiver.handle(), &mut fabric);
    assert_eq!(fabric.pending_count(sender.inbox()), 1);
    assert_eq!(sender.target(), None);
    assert_eq!(sender.start_send(&mut fabric, 1), Ok(()));
    assert_eq!(sender.poll_ready(&mut fabric, idle()), Poll::Ready(Ok(())));
    assert_eq!(fabric.pending_count(sender.inbox()), 0);
    assert_eq!(sender.target(), Some(receiver.channel()));
    assert_eq!(sender.start_send(&mut fabric, 2), Ok(()));
    assert_eq!(drain(&receiver, &mut fabric), vec![2]);
}

#[test]
fn the_most_recent_connect_wins() {
    let mut fabric = Fabric::new(4);
    let first = Receiver::create(&mut fabric);
    let second = Receiver::create(&mut fabric);
    let mut sender = Sender::create(&mut fabric);
    let handle = sender.handle();
    handle.connect(&first.handle(), &mut fabric);
    handle.connect(&second.handle(), &mut fabric);
    assert_eq!(sender.poll_ready(&mut fabric, idle()), Poll::Ready(Ok(())));
    assert_eq!(sender.target(), Some(second.channel()));
    assert_eq!(sender.start_send(&mut fabric, 7), Ok(()));
    assert_eq!(sender.start_send(&mut fabric, 8), Ok(()));
    assert_eq!(drain(&first, &mut fabric), Vec::<u64>::new());
    assert_eq!(drain(&second, &mut fabric), vec![7, 8]);
}

#[test]
fn a_later_connect_replaces_the_target() {
    let mut fabric = Fabric::new(4);
    let first = Receiver::create(&mut fabric);
    let second = Receiver::create(&mut fabric);
    let mut sender = Sender::create(&mut fabric);
    let handle = sender.handle();
    handle.connect(&first.handle(), &mut fabric);
    assert_eq!(sender.poll_ready(&mut fabric, idle()), Poll::Ready(Ok(())));
    assert_eq!(sender.start_send(&mut fabric, 1), Ok(()));
    handle.connect(&second.handle(), &mut fabric);
    assert_eq!(sender.poll_ready(&mut fabric, idle()), Poll::Ready(Ok(())));
    assert_eq!(sender.start_send(&mut fabric, 2), Ok(()));
    assert_eq!(sender.poll_ready(&mut fabric, idle()), Poll::Ready(Ok(())));
    assert_eq!(sender.start_send(&mut fabric, 3), Ok(()));
    assert_eq!(drain(&first, &mut fabric), vec![1]);
    assert_eq!(drain(&second, &mut fabric), vec![2, 3]);
}

#[test]
fn late_connect_drops_the_head_and_keeps_the_tail_in_order() {
    let mut fabric = Fabric::new(8);
    let receiver = Receiver::create(&mut fabric);
    let mut sender = Sender::create(&mut fabric);
    let handle = sender.handle();
    for item in 0..5u64 {
        if item == 2 {
            handle.connect(&receiver.handle(), &mut fabric);
        }
        assert_eq!(sender.poll_ready(&mut fabric, idle()), Poll::Ready(Ok(())));
        assert_eq!(sender.start_send(&mut fabric, item), Ok(()));
        assert_eq!(sender.poll_flush(&mut fabric), Poll::Ready(Ok(())));
    }
    let seen = drain(&receiver, &mut fabric);
    assert!(seen.len() <= 3);
    assert_eq!(seen, vec![2, 3, 4]);
}

#[test]
fn a_full_target_makes_the_sender_wait() {
    let mut fabric = Fabric::new(2);
    let receiver = Receiver::create(&mut fabric);
    let mut sender = Sender::create(&mut fabric);
    sender.connect(&receiver.handle());
    assert_eq!(sender.start_send(&mut fabric, 1), Ok(()));
    assert_eq!(sender.start_send(&mut fabric, 2), Ok(()));
    assert_eq!(sender.poll_ready(&mut fabric, idle()), Poll::Pending);
    assert_eq!(sender.start_send(&mut fabric, 3), Err(SendError::Full(3)));
    assert_eq!(drain(&receiver, &mut fabric), vec![1, 2]);
}

#[test]
fn connecting_to_a_sender_that_is_gone_does_nothing() {
    let mut fabric = Fabric::new(4);
    let receiver = Receiver::create(&mut fabric);
    let sender = Sender::create(&mut fabric);
    let handle = sender.handle();
    handle.connect(&receiver.handle(), &mut fabric);
    assert!(fabric.is_live(handle.inbox()));
    sender.close(&mut fabric);
    assert!(!fabric.is_live(handle.inbox()));
    assert_eq!(fabric.pending_count(handle.inbox()), 0);
    handle.connect(&receiver.handle(), &mut fabric);
    assert_eq!(fabric.pending_count(handle.inbox()), 0);
}

#[test]
fn posted_channels_are_taken_oldest_first() {
    let mut fabric = Fabric::new(4);
    let first = Receiver::create(&mut fabric);
    let second = Receiver::create(&mut fabric);
    let sender = Sender::create(&mut fabric);
    fabric.post(sender.inbox(), second.channel());
    fabric.post(sender.inbox(), first.channel());
    assert_eq!(fabric.drain(sender.inbox()), vec![1, 0]);
    assert_eq!(fabric.drain(sender.inbox()), Vec::<usize>::new());
}

#[test]
fn every_receiver_sees_what_the_broadcaster_sent() {
    let mut fabric = Fabric::new(8);
    let receivers = [
        Receiver::create(&mut fabric),
        Receiver::create(&mut fabric),
        Receiver::create(&mut fabric),
    ];
    let mut broadcaster = Broadcaster::create(&mut fabric);
    let handle = broadcaster.handle();
    for receiver in &receivers {
        handle.connect(&receiver.handle(), &mut fabric);
    }
    for item in [10u64, 20, 30, 40] {
        assert_eq!(broadcaster.poll_ready(&mut fabric, idle()), Poll::Ready(Ok(())));
        assert_eq!(broadcaster.start_send(&mut fabric, item), Ok(()));
        assert_eq!(broadcaster.poll_flush(&mut fabric), Poll::Ready(Ok(())));
    }
    assert_eq!(broadcaster.target_count(), 3);
    for receiver in &receivers {
        assert_eq!(drain(receiver, &mut fabric), vec![10, 20, 30, 40]);
    }
}

#[test]
fn receivers_that_read_at_different_paces_see_the_same_sequence() {
    let mut fabric = Fabric::new(2);
    let eager = Receiver::create(&mut fabric);
    let lazy = Receiver::create(&mut fabric);
    let mut broadcaster = Broadcaster::create(&mut fabric);
    broadcaster.connect(&eager.handle());
    broadcaster.connect(&lazy.handle());
    let mut seen_eager = Vec::new();
    let mut seen_lazy = Vec::new();
    let mut next: u64 = 0;
    while next < 20 {
        match broadcaster.poll_ready(&mut fabric, idle()) {
            Poll::Ready(Ok(())) => {
                assert_eq!(broadcaster.start_send(&mut fabric, next), Ok(()));
                next += 1;
            }
            _ => {
                seen_lazy.push(lazy.poll_next(&mut fabric, idle()));
            }
        }
        if let Poll::Ready(Some(item)) = eager.poll_next(&mut fabric, idle()) {
            seen_eager.push(item);
        }
    }
    seen_eager.extend(drain(&eager, &mut fabric));
    let mut lazy_items: Vec<u64> = Vec::new();
    for poll in seen_lazy {
        if let Poll::Ready(Some(item)) = poll {
            lazy_items.push(item);
        }
    }
    lazy_items.extend(drain(&lazy, &mut fabric));
    let expected: Vec<u64> = (0..20).collect();
    assert_eq!(seen_eager, expected);
    assert_eq!(lazy_items, expected);
}

#[test]
fn connects_to_a_broadcaster_accumulate() {
    let mut fabric = Fabric::new(4);
    let first = Receiver::create(&mut fabric);
    let second = Receiver::create(&mut fabric);
    let mut broadcaster = Broadcaster::create(&mut fabric);
    let handle = broadcaster.handle();
    handle.connect(&first.handle(), &mut fabric);
    assert_eq!(broadcaster.poll_ready(&mut fabric, idle()), Poll::Ready(Ok(())));
    assert_eq!(broadcaster.target_count(), 1);
    assert_eq!(broadcaster.start_send(&mut fabric, 1), Ok(()));
    handle.connect(&second.handle(), &mut fabric);
    assert_eq!(broadcaster.poll_ready(&mut fabric, idle()), Poll::Ready(Ok(())));
    assert_eq!(broadcaster.target_count(), 2);
    assert_eq!(broadcaster.target(0), first.channel());
    assert_eq!(broadcaster.target(1), second.channel());
    assert_eq!(broadcaster.start_send(&mut fabric, 2), Ok(()));
    assert_eq!(drain(&first, &mut fabric), vec![1, 2]);
    assert_eq!(drain(&second, &mut fabric), vec![2]);
}

#[test]
fn a_broadcaster_without_targets_accepts_and_drops() {
    let mut fabric = Fabric::new(4);
    let mut broadcaster = Broadcaster::create(&mut fabric);
    assert_eq!(broadcaster.poll_ready(&mut fabric, idle()), Poll::Ready(Ok(())));
    assert_eq!(broadcaster.start_send(&mut fabric, 1), Ok(()));
    assert_eq!(broadcaster.poll_flush(&mut fabric), Poll::Ready(Ok(())));
    assert_eq!(broadcaster.poll_close(&mut fabric), Poll::Ready(Ok(())));
}

#[test]
fn a_broadcaster_waits_at_the_first_full_target() {
    let mut fabric = Fabric::new(1);
    let roomy = Receiver::create(&mut fabric);
    let full = Receiver::create(&mut fabric);
    let also_full = Receiver::create(&mut fabric);
    let mut broadcaster = Broadcaster::create(&mut fabric);
    broadcaster.connect(&roomy.handle());
    broadcaster.connect(&full.handle());
    broadcaster.connect(&also_full.handle());
    assert_eq!(fabric.channel_mut(full.channel()).push(1), Ok(()));
    assert_eq!(fabric.channel_mut(also_full.channel()).push(1), Ok(()));
    let (count, waker) = counting_waker();
    assert_eq!(broadcaster.poll_ready(&mut fabric, &waker), Poll::Pending);
    assert_eq!(also_full.poll_next(&mut fabric, idle()), Poll::Ready(Some(1)));
    assert_eq!(woken(&count), 0);
    assert_eq!(full.poll_next(&mut fabric, idle()), Poll::Ready(Some(1)));
    assert_eq!(woken(&count), 1);
    assert_eq!(broadcaster.poll_ready(&mut fabric, &waker), Poll::Ready(Ok(())));
}

#[test]
fn a_refusal_leaves_the_earlier_targets_with_the_message() {
    let mut fabric = Fabric::new(1);
    let first = Receiver::create(&mut fabric);
    let second = Receiver::create(&mut fabric);
    let third = Receiver::create(&mut fabric);
    let mut broadcaster = Broadcaster::create(&mut fabric);
    broadcaster.connect(&first.handle());
    broadcaster.connect(&second.handle());
    broadcaster.connect(&third.handle());
    assert_eq!(fabric.channel_mut(second.channel()).push(9), Ok(()));
    assert_eq!(broadcaster.start_send(&mut fabric, 5), Err(SendError::Full(5)));
    assert_eq!(drain(&first, &mut fabric), vec![5]);
    assert_eq!(drain(&second, &mut fabric), vec![9]);
    assert_eq!(drain(&third, &mut fabric), Vec::<u64>::new());
}

#[test]
fn a_closed_target_refuses_the_broadcast() {
    let mut fabric = Fabric::new(2);
    let first = Receiver::create(&mut fabric);
    let second = Receiver::create(&mut fabric);
    let second_handle = second.handle();
    let mut broadcaster = Broadcaster::create(&mut fabric);
    broadcaster.connect(&first.handle());
    broadcaster.connect(&second_handle);
    second.close(&mut fabric);
    assert_eq!(broadcaster.start_send(&mut fabric, 5), Err(SendError::Closed));
    assert_eq!(drain(&first, &mut fabric), vec![5]);
}

#[test]
fn a_target_wired_twice_gets_each_message_twice() {
    let mut fabric = Fabric::new(4);
    let receiver = Receiver::create(&mut fabric);
    let mut broadcaster = Broadcaster::create(&mut fabric);
    broadcaster.connect(&receiver.handle());
    broadcaster.connect(&receiver.handle());
    assert_eq!(broadcaster.start_send(&mut fabric, 3), Ok(()));
    assert_eq!(drain(&receiver, &mut fabric), vec![3, 3]);
}

#[test]
fn a_flush_wakes_every_waiting_consumer() {
    let mut fabric = Fabric::new(4);
    let first = Receiver::create(&mut fabric);
    let second = Receiver::create(&mut fabric);
    let aside = Receiver::create(&mut fabric);
    let mut broadcaster = Broadcaster::create(&mut fabric);
    broadcaster.connect(&first.handle());
    broadcaster.connect(&second.handle());
    let (first_count, first_waker) = counting_waker();
    let (second_count, second_waker) = counting_waker();
    let (aside_count, aside_waker) = counting_waker();
    assert_eq!(first.poll_next(&mut fabric, &first_waker), Poll::Pending);
    assert_eq!(second.poll_next(&mut fabric, &second_waker), Poll::Pending);
    assert_eq!(aside.poll_next(&mut fabric, &aside_waker), Poll::Pending);
    assert_eq!(broadcaster.poll_flush(&mut fabric), Poll::Ready(Ok(())));
    assert_eq!(woken(&first_count), 1);
    assert_eq!(woken(&second_count), 1);
    assert_eq!(woken(&aside_count), 0);
    assert_eq!(first.poll_next(&mut fabric, &first_waker), Poll::Pending);
    assert_eq!(broadcaster.poll_close(&mut fabric), Poll::Ready(Ok(())));
    assert_eq!(woken(&first_count), 2);
    assert_eq!(woken(&second_count), 1);
}

#[test]
fn connecting_to_a_broadcaster_that_is_gone_does_nothing() {
    let mut fabric = Fabric::new(4);
    let receiver = Receiver::create(&mut fabric);
    let broadcaster = Broadcaster::create(&mut fabric);
    let handle = broadcaster.handle();
    broadcaster.close(&mut fabric);
    handle.connect(&receiver.handle(), &mut fabric);
    assert_eq!(fabric.pending_count(handle.inbox()), 0);
    assert!(!fabric.is_live(handle.inbox()));
}

#[test]
fn a_slow_consumer_holds_the_producer_back() {
    let mut fabric = Fabric::new(4);
    let receiver = Receiver::create(&mut fabric);
    let mut sender = Sender::create(&mut fabric);
    sender.connect(&receiver.handle());
    let mut seen = Vec::new();
    let mut next: u64 = 0;
    let mut was_full = false;
    while seen.len() < 1000 {
        while next < 1000 {
            match sender.poll_ready(&mut fabric, idle()) {
                Poll::Ready(Ok(())) => {
                    assert_eq!(sender.start_send(&mut fabric, next), Ok(()));
                    next += 1;
                }
                _ => break,
            }
        }
        was_full = was_full || fabric.channel(receiver.channel()).is_full();
        if let Poll::Ready(Some(item)) = receiver.poll_next(&mut fabric, idle()) {
            seen.push(item);
        }
    }
    let expected: Vec<u64> = (0..1000).collect();
    assert!(was_full);
    assert_eq!(seen, expected);
}

#[test]
fn four_producers_feed_one_aggregator() {
    let mut fabric = Fabric::new(16);
    let aggregator = Receiver::create(&mut fabric);
    let mut producers = Vec::new();
    for _ in 0..4 {
        let mut sender = Sender::create(&mut fabric);
        sender.connect(&aggregator.handle());
        producers.push((sender, 0u64));
    }
    let mut seen: Vec<Vec<u64>> = vec![Vec::new(); 4];
    let mut total = 0;
    while total < 4000 {
        for (index, (sender, next)) in producers.iter_mut().enumerate() {
            if *next < 1000 {
                if let Poll::Ready(Ok(())) = sender.poll_ready(&mut fabric, idle()) {
                    let message = (index as u64) * 1000 + *next;
                    assert_eq!(sender.start_send(&mut fabric, message), Ok(()));
                    *next += 1;
                }
            }
        }
        while let Poll::Ready(Some(message)) = aggregator.poll_next(&mut fabric, idle()) {
            seen[(message / 1000) as usize].push(message % 1000);
            total += 1;
        }
    }
    let expected: Vec<u64> = (0..1000).collect();
    for own in &seen {
        assert_eq!(own, &expected);
    }
}
