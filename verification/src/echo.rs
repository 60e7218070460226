//! A minimal echo session: pings are answered, text and binary frames are
//! echoed back, anything else ends the connection. It shares the heartbeat
//! discipline of the chat session.

use vstd::prelude::*;
use crate::ws::{WsFrame, FrameModel};
use crate::session::{HbAction, hb_expired};
use crate::CLIENT_TIMEOUT;

verus! {

/// An echo connection: only the last-activity stamp is state.
pub struct MyWebsocket {
    pub hb: u64,
}

/// Everything one frame makes the echo session do.
pub struct EchoOutput {
    pub pong: Option<Vec<u8>>,
    pub text: Option<String>,
    pub binary: Option<Vec<u8>>,
    pub stop: bool,
}

/// The mathematical image of the echo output.
pub struct EchoOutputModel {
    pub pong: Option<Seq<u8>>,
    pub text: Option<Seq<char>>,
    pub binary: Option<Seq<u8>>,
    pub stop: bool,
}

impl View for EchoOutput {
    type V = EchoOutputModel;

    open spec fn view(&self) -> EchoOutputModel {
        EchoOutputModel {
            pong: match self.pong {
                Option::Some(p) => Option::Some(p@),
                Option::None => Option::None,
            },
            text: match self.text {
                Option::Some(t) => Option::Some(t@),
                Option::None => Option::None,
            },
            binary: match self.binary {
                Option::Some(b) => Option::Some(b@),
                Option::None => Option::None,
            },
            stop: self.stop,
        }
    }
}

/// Echo output that does nothing.
pub open spec fn echo_quiet() -> EchoOutputModel {
    EchoOutputModel { pong: Option::None, text: Option::None, binary: Option::None, stop: false }
}

/// The echo machine: pings and pongs refresh the stamp, text and binary
/// come straight back, and every other frame stops the connection.
pub open spec fn model_echo(hb: u64, frame: FrameModel, now: u64) -> (u64, EchoOutputModel) {
    match frame {
        FrameModel::Ping(p) => (now, EchoOutputModel { pong: Option::Some(p), ..echo_quiet() }),
        FrameModel::Pong(_) => (now, echo_quiet()),
        FrameModel::Text(t) => (hb, EchoOutputModel { text: Option::Some(t), ..echo_quiet() }),
        FrameModel::Binary(b) => (hb, EchoOutputModel { binary: Option::Some(b), ..echo_quiet() }),
        _ => (hb, EchoOutputModel { stop: true, ..echo_quiet() }),
    }
}

impl MyWebsocket {
    /// An echo session for a connection accepted at time `now`.
    pub fn new(now: u64) -> (w: MyWebsocket)
        ensures
            w.hb == now,
    {
        MyWebsocket { hb: now }
    }

    /// One inbound frame at time `now`.
    pub fn handle(&mut self, frame: WsFrame, now: u64) -> (out: EchoOutput)
        ensures
            final(self).hb == model_echo(old(self).hb, frame@, now).0,
            out@ == model_echo(old(self).hb, frame@, now).1,
    {
        match frame {
            WsFrame::Ping(p) => {
                self.hb = now;
                EchoOutput { pong: Some(p), text: None, binary: None, stop: false }
            },
            WsFrame::Pong(_) => {
                self.hb = now;
                EchoOutput { pong: None, text: None, binary: None, stop: false }
            },
            WsFrame::Text(t) => EchoOutput { pong: None, text: Some(t), binary: None, stop: false },
            WsFrame::Binary(b) => EchoOutput {
                pong: None,
                text: None,
                binary: Some(b),
                stop: false,
            },
            WsFrame::Close => EchoOutput { pong: None, text: None, binary: None, stop: true },
            WsFrame::Continuation => EchoOutput {
                pong: None,
                text: None,
                binary: None,
                stop: true,
            },
            WsFrame::Nop => EchoOutput { pong: None, text: None, binary: None, stop: true },
            WsFrame::Invalid => EchoOutput { pong: None, text: None, binary: None, stop: true },
        }
    }

    /// One heartbeat tick at time `now` (monotonic clock): a peer silent
    /// past the timeout is dropped, otherwise it is pinged again.
    pub fn hb(&mut self, now: u64) -> (a: HbAction)
        requires
            now >= old(self).hb,
        ensures
            *final(self) == *old(self),
            a == (if hb_expired(now, old(self).hb) {
                HbAction::Evict
            } else {
                HbAction::SendPing
            }),
    {
        if now - self.hb > CLIENT_TIMEOUT {
            HbAction::Evict
        } else {
            HbAction::SendPing
        }
    }
}

} // verus!
