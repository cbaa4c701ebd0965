use deep_forge::stream::{next_stream_action, StreamAction, StreamEvent};

#[test]
fn ready_payload_is_sent() {
    assert_eq!(next_stream_action(StreamEvent::Payload), StreamAction::Send);
}

#[test]
fn skipped_frame_and_lag_keep_the_stream_open() {
    assert_eq!(next_stream_action(StreamEvent::NoPayload), StreamAction::Continue);
    assert_eq!(next_stream_action(StreamEvent::FeedLagged(7)), StreamAction::Continue);
    assert_eq!(next_stream_action(StreamEvent::ClientMessage), StreamAction::Continue);
}

#[test]
fn gone_client_or_feed_stops_the_stream() {
    assert_eq!(next_stream_action(StreamEvent::SendFailed), StreamAction::Stop);
    assert_eq!(next_stream_action(StreamEvent::FeedClosed), StreamAction::Stop);
    assert_eq!(next_stream_action(StreamEvent::ClientClosed), StreamAction::Stop);
    assert_eq!(next_stream_action(StreamEvent::ClientError), StreamAction::Stop);
}
