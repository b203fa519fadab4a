use async_demos::replay_order::{ClientUpdate, ReplayBuffer};

#[test]
fn text_is_coalesced_until_a_non_streaming_update() {
    let mut buffer = ReplayBuffer::new();
    let mut emitted = Vec::new();
    emitted.extend(buffer.consume(ClientUpdate::Text("Hel".to_owned())));
    emitted.extend(buffer.consume(ClientUpdate::Text("lo".to_owned())));
    assert!(emitted.is_empty());
    emitted.extend(buffer.consume(ClientUpdate::ToolCall("read_file started".to_owned())));
    emitted.extend(buffer.consume(ClientUpdate::Text(" world".to_owned())));
    if let Some(pending) = buffer.flush() {
        emitted.push(pending);
    }
    emitted.push(ClientUpdate::TurnCompleted);
    assert_eq!(
        emitted,
        [
            ClientUpdate::Text("Hello".to_owned()),
            ClientUpdate::ToolCall("read_file started".to_owned()),
            ClientUpdate::Text(" world".to_owned()),
            ClientUpdate::TurnCompleted,
        ]
    );
}

#[test]
fn flush_of_an_empty_buffer_is_none() {
    let mut buffer = ReplayBuffer::new();
    assert_eq!(buffer.flush(), None);
    let ready = buffer.consume(ClientUpdate::TurnCompleted);
    assert_eq!(ready, [ClientUpdate::TurnCompleted]);
    assert!(buffer.pending_text.is_none());
}
