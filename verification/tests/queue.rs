use chat_bridge::queue::{InboundQueue, INBOUND_QUEUE_BOUND};
use chat_bridge::{ChatHandle, ChatMessage, ChatMessageText};

fn msg(text: &str) -> ChatMessage {
    ChatMessage {
        message: ChatMessageText(text.to_string()),
        handle: ChatHandle("tete".to_string()),
    }
}

#[test]
fn draining_an_empty_queue_returns_empty_at_once() {
    let mut q = InboundQueue::new(INBOUND_QUEUE_BOUND);
    assert!(q.drain().is_empty());
    assert_eq!(q.len(), 0);
}

#[test]
fn one_drain_observes_enqueue_order() {
    let mut q = InboundQueue::new(INBOUND_QUEUE_BOUND);
    q.push(msg("A")).unwrap();
    q.push(msg("B")).unwrap();
    q.push(msg("C")).unwrap();
    let texts: Vec<String> = q.drain().into_iter().map(|m| m.message.0).collect();
    assert_eq!(texts, ["A", "B", "C"]);
    assert_eq!(q.len(), 0);
}

#[test]
fn interleaved_drains_observe_the_same_order() {
    let mut q = InboundQueue::new(INBOUND_QUEUE_BOUND);
    let mut observed: Vec<String> = Vec::new();
    q.push(msg("A")).unwrap();
    observed.extend(q.drain().into_iter().map(|m| m.message.0));
    q.push(msg("B")).unwrap();
    q.push(msg("C")).unwrap();
    observed.extend(q.drain().into_iter().map(|m| m.message.0));
    observed.extend(q.drain().into_iter().map(|m| m.message.0));
    assert_eq!(observed, ["A", "B", "C"]);
}

#[test]
fn a_full_queue_hands_the_message_back() {
    let mut q = InboundQueue::new(2);
    q.push(msg("A")).unwrap();
    q.push(msg("B")).unwrap();
    let back = q.push(msg("C")).unwrap_err();
    assert_eq!(back.message.0, "C");
    assert_eq!(q.len(), 2);
    let texts: Vec<String> = q.drain().into_iter().map(|m| m.message.0).collect();
    assert_eq!(texts, ["A", "B"]);
    // After the drain there is room again.
    q.push(msg("C")).unwrap();
    assert_eq!(q.len(), 1);
}
