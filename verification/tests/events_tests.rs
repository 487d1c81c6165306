use kernel::events::{Event, EventHandler};

#[test]
fn tokens_rise_and_handlers_are_called_in_their_order() {
    let mut event: Event<u32> = Event::new();
    assert_eq!(event.invoke(), Vec::<u32>::new());
    assert_eq!(event.subscribe(0xA), 0);
    assert_eq!(event.subscribe(0xB), 1);
    assert_eq!(event.subscribe(0xA), 2);
    assert_eq!(event.invoke(), vec![0xA, 0xB, 0xA]);
}

#[test]
fn unsubscribing_returns_the_handler_and_ends_the_subscription() {
    let mut event: Event<u32> = Event::new();
    let a = event.subscribe(10);
    let b = event.subscribe(20);
    let c = event.subscribe(30);
    assert_eq!(event.unsubscribe(b), Some(20));
    assert_eq!(event.invoke(), vec![10, 30]);
    assert_eq!(event.unsubscribe(b), None);
    assert_eq!(event.unsubscribe(99), None);
    assert_eq!(event.invoke(), vec![10, 30]);
    // A token is not handed out twice.
    let d = event.subscribe(40);
    assert_eq!(d, 3);
    assert_eq!(event.unsubscribe(a), Some(10));
    assert_eq!(event.unsubscribe(c), Some(30));
    assert_eq!(event.invoke(), vec![40]);
    assert_eq!(event.unsubscribe(d), Some(40));
    assert_eq!(event.invoke(), Vec::<u32>::new());
}

#[test]
fn handlers_are_called_by_token_whatever_was_taken_out() {
    let mut event: Event<u32> = Event::new();
    let tokens: Vec<usize> = (0..6).map(|n| event.subscribe(100 + n)).collect();
    assert_eq!(tokens, vec![0, 1, 2, 3, 4, 5]);
    assert_eq!(event.unsubscribe(3), Some(103));
    assert_eq!(event.unsubscribe(0), Some(100));
    assert_eq!(event.subscribe(999), 6);
    assert_eq!(event.invoke(), vec![101, 102, 104, 105, 999]);
    assert!(event.can_subscribe());
}
