use sync_primitives::safe::channel::Inner;
use sync_primitives::safe::channel::Received;

#[test]
fn ping_pong() {
    let mut shared = Inner::new();
    shared.send(42);
    assert_eq!(shared.recv(), Received::Item(42));
}

#[test]
fn closed() {
    let mut shared = Inner::<i32>::new();
    assert!(shared.drop_sender());
    assert_eq!(shared.recv(), Received::Closed);
}

#[test]
fn channel_hands_out_in_the_order_of_sending() {
    let mut shared = Inner::new();
    assert_eq!(shared.sender_count(), 1);
    assert_eq!(shared.recv(), Received::Wait);
    shared.send("a");
    shared.send("b");
    shared.add_sender();
    assert_eq!(shared.sender_count(), 2);
    assert!(!shared.drop_sender());
    shared.send("c");
    assert_eq!(shared.recv(), Received::Item("a"));
    assert!(shared.drop_sender());
    // the senders are gone, but what they sent is still handed out
    assert_eq!(shared.recv(), Received::Item("b"));
    assert_eq!(shared.recv(), Received::Item("c"));
    assert_eq!(shared.recv(), Received::Closed);
    assert_eq!(shared.recv(), Received::Closed);
}
