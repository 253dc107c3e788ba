use fastshare::error::TransferError;
use fastshare::relay::{
    sender_wait_step, RelayMessage, RelayOutcome, RelayRegistry,
};

#[test]
fn sender_gets_a_session_and_receiver_joins_it() {
    let mut relay = RelayRegistry::new();
    let outcome = relay.handle_init(&RelayMessage::sender_init(), "abc-123".to_string()).unwrap();
    match outcome {
        RelayOutcome::SenderRegistered { reply } => {
            assert_eq!(reply.message_type, "session_created");
            assert_eq!(reply.session_id, "abc-123");
            assert!(reply.data.is_empty());
        }
        other => panic!("unexpected {:?}", other),
    }
    let id = "abc-123".to_string();
    assert!(relay.has_session(&id));
    assert!(!relay.receiver_connected(&id));
    let joined = relay.handle_init(&RelayMessage::receiver_init(id.clone()), String::new()).unwrap();
    assert_eq!(joined, RelayOutcome::ReceiverJoined { session_id: id.clone() });
    assert!(relay.receiver_connected(&id));
}

#[test]
fn random_session_ids_differ() {
    let mut relay = RelayRegistry::new();
    let a = relay.accept_client(&RelayMessage::sender_init()).unwrap();
    let b = relay.accept_client(&RelayMessage::sender_init()).unwrap();
    match (a, b) {
        (
            RelayOutcome::SenderRegistered { reply: ra },
            RelayOutcome::SenderRegistered { reply: rb },
        ) => {
            assert_eq!(ra.session_id.len(), 36);
            assert_ne!(ra.session_id, rb.session_id);
            assert!(relay.has_session(&ra.session_id));
            assert!(relay.has_session(&rb.session_id));
        }
        _ => panic!("senders were not registered"),
    }
}

#[test]
fn unknown_session_is_refused() {
    let mut relay = RelayRegistry::new();
    let r = relay.accept_client(&RelayMessage::receiver_init("nope".to_string()));
    assert_eq!(r, Err(TransferError::SessionNotFound("nope".to_string())));
    assert!(!relay.has_session(&"nope".to_string()));
}

#[test]
fn unknown_message_type_is_refused() {
    let mut relay = RelayRegistry::new();
    let m = RelayMessage { message_type: "hello".to_string(), session_id: String::new(), data: vec![] };
    assert_eq!(relay.accept_client(&m), Err(TransferError::UnknownMessageType("hello".to_string())));
}

#[test]
fn joining_an_unknown_session_leaves_others_alone() {
    let mut relay = RelayRegistry::new();
    relay.register_sender("s1".to_string());
    assert!(!relay.mark_receiver_connected(&"s2".to_string()));
    assert!(!relay.receiver_connected(&"s1".to_string()));
    assert!(relay.mark_receiver_connected(&"s1".to_string()));
    assert!(relay.receiver_connected(&"s1".to_string()));
    relay.register_sender("s1".to_string());
    assert!(!relay.receiver_connected(&"s1".to_string()));
}

#[test]
fn init_messages() {
    let s = RelayMessage::sender_init();
    assert_eq!(s.message_type, "sender_init");
    assert_eq!(s.session_id, "");
    let r = RelayMessage::receiver_init("xyz".to_string());
    assert_eq!(r.message_type, "receiver_init");
    assert_eq!(r.session_id, "xyz");
}

#[test]
fn waiting_sender_times_out_after_five_minutes() {
    assert_eq!(sender_wait_step(0, false), Ok(false));
    assert_eq!(sender_wait_step(1_000, true), Ok(true));
    assert_eq!(sender_wait_step(300_000_000_000, false), Ok(false));
    assert_eq!(sender_wait_step(300_000_000_001, true), Err(TransferError::ReceiverTimeout));
}
