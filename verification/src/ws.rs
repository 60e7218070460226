//! Inbound protocol frames, as plain values. The transport decodes the wire
//! into a `WsFrame` and hands it to a session; a frame it cannot decode
//! becomes `Invalid`.

use vstd::prelude::*;

verus! {

/// One inbound frame.
pub enum WsFrame {
    Ping(Vec<u8>),
    Pong(Vec<u8>),
    Text(String),
    Binary(Vec<u8>),
    Close,
    Continuation,
    Nop,
    /// A frame the transport could not decode: a protocol error.
    Invalid,
}

/// The mathematical image of a frame.
pub enum FrameModel {
    Ping(Seq<u8>),
    Pong(Seq<u8>),
    Text(Seq<char>),
    Binary(Seq<u8>),
    Close,
    Continuation,
    Nop,
    Invalid,
}

impl View for WsFrame {
    type V = FrameModel;

    open spec fn view(&self) -> FrameModel {
        match self {
            WsFrame::Ping(p) => FrameModel::Ping(p@),
            WsFrame::Pong(p) => FrameModel::Pong(p@),
            WsFrame::Text(t) => FrameModel::Text(t@),
            WsFrame::Binary(b) => FrameModel::Binary(b@),
            WsFrame::Close => FrameModel::Close,
            WsFrame::Continuation => FrameModel::Continuation,
            WsFrame::Nop => FrameModel::Nop,
            WsFrame::Invalid => FrameModel::Invalid,
        }
    }
}

} // verus!
