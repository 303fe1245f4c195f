//! How a message stream treats each WebSocket frame while it waits for the
//! next message: data frames carry a JSON message, a ping is answered with
//! a pong carrying the same bytes, a close ends the stream, and other
//! frames are passed over.
use vstd::prelude::*;

verus! {

/// A WebSocket frame, as the stream receives it.
pub enum WsFrame {
    Text(String),
    Binary(Vec<u8>),
    Ping(Vec<u8>),
    Pong(Vec<u8>),
    Close,
    /// A raw frame of another kind.
    Other,
}

/// What the stream does with a frame.
pub enum FrameStep {
    /// Decode this JSON text as the next message.
    DecodeText(String),
    /// Decode these JSON bytes as the next message.
    DecodeBytes(Vec<u8>),
    /// Answer with a pong carrying these bytes, then keep reading.
    SendPong(Vec<u8>),
    /// Keep reading.
    Skip,
    /// The peer closed the connection.
    Closed,
}

/// The stream's treatment of one frame.
pub fn frame_step(frame: WsFrame) -> (r: FrameStep)
    ensures
        match frame {
            WsFrame::Text(t) => r matches FrameStep::DecodeText(u) && u == t,
            WsFrame::Binary(b) => r matches FrameStep::DecodeBytes(c) && c == b,
            WsFrame::Ping(p) => r matches FrameStep::SendPong(q) && q == p,
            WsFrame::Pong(_) => r is Skip,
            WsFrame::Close => r is Closed,
            WsFrame::Other => r is Skip,
        },
{
    match frame {
        WsFrame::Text(t) => FrameStep::DecodeText(t),
        WsFrame::Binary(b) => FrameStep::DecodeBytes(b),
        WsFrame::Ping(p) => FrameStep::SendPong(p),
        WsFrame::Pong(_) => FrameStep::Skip,
        WsFrame::Close => FrameStep::Closed,
        WsFrame::Other => FrameStep::Skip,
    }
}

} // verus!
