//! Decisions of the two WebSocket streams (video frames and frame metrics):
//! what the socket loop does after each thing that happens on it.

use vstd::prelude::*;

verus! {

/// Something that happened on a streaming socket.
#[derive(Debug, Clone, Copy, PartialEq, Eq, Structural)]
pub enum StreamEvent {
    /// A payload (an encoded video frame, or a metrics message from the
    /// feed) is ready for the client.
    Payload,
    /// Producing a video frame gave nothing; that frame is skipped.
    NoPayload,
    /// Sending to the client failed: the client is gone.
    SendFailed,
    /// The metrics feed dropped this many messages for this client.
    FeedLagged(u64),
    /// The metrics feed has no sender left.
    FeedClosed,
    /// The client sent a close frame, or its side of the socket ended.
    ClientClosed,
    /// Reading from the client failed.
    ClientError,
    /// The client sent another message, which the stream ignores.
    ClientMessage,
}

/// What the socket loop does next.
#[derive(Debug, Clone, Copy, PartialEq, Eq, Structural)]
pub enum StreamAction {
    /// Send the payload to the client, then wait for the next event.
    Send,
    /// Wait for the next event.
    Continue,
    /// Leave the loop and close the stream.
    Stop,
}

/// The events that end a stream: the client is gone or the feed is over.
pub open spec fn ends_stream(event: StreamEvent) -> bool {
    match event {
        StreamEvent::SendFailed | StreamEvent::FeedClosed | StreamEvent::ClientClosed
        | StreamEvent::ClientError => true,
        _ => false,
    }
}

/// The next action of a streaming socket loop after `event`: a ready payload
/// is sent, an event that ends the stream stops it, and anything else (a
/// skipped frame, a lagging feed, another client message) is waited past.
pub fn next_stream_action(event: StreamEvent) -> (a: StreamAction)
    ensures
        a == StreamAction::Send <==> event == StreamEvent::Payload,
        a == StreamAction::Stop <==> ends_stream(event),
        a == StreamAction::Continue <==> !ends_stream(event) && event != StreamEvent::Payload,
{
    match event {
        StreamEvent::Payload => StreamAction::Send,
        StreamEvent::SendFailed | StreamEvent::FeedClosed | StreamEvent::ClientClosed
        | StreamEvent::ClientError => StreamAction::Stop,
        StreamEvent::NoPayload | StreamEvent::FeedLagged(_) | StreamEvent::ClientMessage => StreamAction::Continue,
    }
}

} // verus!
