use immortalis::fanout::{ChangeEvent, SubscriberRegistry, is_recognized_channel};

fn event(channel: &str, payload: &str) -> ChangeEvent {
    ChangeEvent {
        channel: channel.to_string(),
        action: "INSERT".to_string(),
        payload: payload.to_string(),
    }
}

#[test]
fn channel_routing() {
    assert!(is_recognized_channel("scheduled_archivals"));
    assert!(is_recognized_channel("tracked_collections"));
    assert!(!is_recognized_channel("videos"));
    assert!(!is_recognized_channel(""));
}

#[test]
fn fanout_reaches_both_then_only_survivor() {
    // An event committed while exactly two subscribers are connected is
    // delivered to both, and to none of the departed after a disconnect.
    let mut registry = SubscriberRegistry::new();
    let first = registry.subscribe();
    let second = registry.subscribe();
    assert_ne!(first, second);

    let batch = vec![event("scheduled_archivals", "{\"id\":1}")];
    registry.deliver_batch(&batch);
    assert_eq!(registry.subscribers().len(), 2);
    assert_eq!(registry.subscribers()[0].outbox.len(), 1);
    assert_eq!(registry.subscribers()[1].outbox.len(), 1);
    assert_eq!(registry.subscribers()[0].outbox[0].payload, "{\"id\":1}");

    assert!(registry.unsubscribe(first));
    let batch2 = vec![event("tracked_collections", "{\"id\":2}")];
    registry.deliver_batch(&batch2);
    assert_eq!(registry.subscribers().len(), 1);
    assert_eq!(registry.subscribers()[0].id, second);
    assert_eq!(registry.subscribers()[0].outbox.len(), 2);
    assert_eq!(registry.subscribers()[0].outbox[1].payload, "{\"id\":2}");
}

#[test]
fn unrecognized_channels_are_dropped() {
    let mut registry = SubscriberRegistry::new();
    registry.subscribe();
    let batch = vec![
        event("scheduled_archivals", "a"),
        event("no_such_channel", "b"),
        event("tracked_collections", "c"),
    ];
    registry.deliver_batch(&batch);
    let outbox = &registry.subscribers()[0].outbox;
    // Order within the batch is kept; the unhandled channel is skipped.
    assert_eq!(outbox.len(), 2);
    assert_eq!(outbox[0].payload, "a");
    assert_eq!(outbox[1].payload, "c");
}

#[test]
fn disconnect_is_idempotent() {
    let mut registry = SubscriberRegistry::new();
    let id = registry.subscribe();
    assert!(registry.unsubscribe(id));
    assert!(!registry.unsubscribe(id));
    assert_eq!(registry.subscribers().len(), 0);
}
