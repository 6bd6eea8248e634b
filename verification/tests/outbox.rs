use planning_poker::coordinator::Broadcast;
use planning_poker::models::ServerMessage;
use planning_poker::transport::Outbox;
use tokio::sync::mpsc;

#[test]
fn deliver_reaches_every_recipient_and_nobody_else() {
    let mut outbox = Outbox::new();
    let (tx1, mut rx1) = mpsc::unbounded_channel();
    let (tx2, mut rx2) = mpsc::unbounded_channel();
    let (tx3, mut rx3) = mpsc::unbounded_channel();
    outbox.attach(1, tx1);
    outbox.attach(2, tx2);
    outbox.attach(3, tx3);

    let broadcast = Broadcast { recipients: vec![1, 2], message: ServerMessage::VotingReset };
    outbox.deliver(&broadcast);

    assert_eq!(rx1.try_recv().unwrap(), ServerMessage::VotingReset);
    assert_eq!(rx2.try_recv().unwrap(), ServerMessage::VotingReset);
    assert!(rx3.try_recv().is_err());
}

#[test]
fn send_to_reports_whether_the_message_was_taken() {
    let mut outbox = Outbox::new();
    let (tx, mut rx) = mpsc::unbounded_channel();
    outbox.attach(7, tx);

    assert!(outbox.send_to(7, ServerMessage::VotingReset));
    assert_eq!(rx.try_recv().unwrap(), ServerMessage::VotingReset);

    // Nobody by that identity.
    assert!(!outbox.send_to(8, ServerMessage::VotingReset));

    // The reading half is gone: the enqueue fails, quietly.
    drop(rx);
    assert!(!outbox.send_to(7, ServerMessage::VotingReset));

    // Detached channels are forgotten.
    outbox.detach(7);
    assert!(!outbox.send_to(7, ServerMessage::VotingReset));
}

#[test]
fn attach_replaces_an_existing_channel() {
    let mut outbox = Outbox::new();
    let (tx1, mut rx1) = mpsc::unbounded_channel();
    let (tx2, mut rx2) = mpsc::unbounded_channel();
    outbox.attach(1, tx1);
    outbox.attach(1, tx2);

    assert!(outbox.send_to(1, ServerMessage::VotingReset));
    assert!(rx1.try_recv().is_err());
    assert_eq!(rx2.try_recv().unwrap(), ServerMessage::VotingReset);
}
