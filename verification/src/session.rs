//! The per-connection session state machine.
//!
//! A session moves `Connecting -> Active -> Closing -> Closed`. While it is
//! `Active` it turns inbound frames into hub requests and replies; the
//! transport performs the requests and writes the replies. The heartbeat
//! tick decides between pinging the peer and evicting a silent one.

use vstd::prelude::*;
use vstd::string::*;
use crate::parser::{Command, CommandModel, parse_spec, trim_spec, parse_command, trim};
use crate::ws::{WsFrame, FrameModel};
use crate::server::{ClientMessage, Join, ListRooms, Disconnect, main_room};
use crate::CLIENT_TIMEOUT;

verus! {

/// Where a session stands in its life.
#[derive(Clone, Copy, PartialEq, Eq, Structural, Debug)]
pub enum SessionState {
    Connecting,
    Active,
    Closing,
    Closed,
}

/// What a heartbeat tick decides.
#[derive(Clone, Copy, PartialEq, Eq, Structural, Debug)]
pub enum HbAction {
    SendPing,
    Evict,
}

/// One client connection's state: its hub id, last-activity stamp, current
/// room and optional display name.
pub struct WsChatSession {
    pub state: SessionState,
    pub id: usize,
    pub hb: u64,
    pub room: String,
    pub name: Option<String>,
}

/// The mathematical image of a session.
pub struct SessionModel {
    pub state: SessionState,
    pub id: usize,
    pub hb: u64,
    pub room: Seq<char>,
    pub name: Option<Seq<char>>,
}

impl View for WsChatSession {
    type V = SessionModel;

    open spec fn view(&self) -> SessionModel {
        SessionModel {
            state: self.state,
            id: self.id,
            hb: self.hb,
            room: self.room@,
            name: match self.name {
                Option::Some(n) => Option::Some(n@),
                Option::None => Option::None,
            },
        }
    }
}

/// A request the session asks the transport to send to the hub.
pub enum HubRequest {
    /// Fetch the room list; each name goes back to the client, one line each.
    List(ListRooms),
    Join(Join),
    Message(ClientMessage),
}

/// The mathematical image of a hub request.
pub enum ReqModel {
    List,
    Join { id: usize, room: Seq<char> },
    Message { id: usize, msg: Seq<char>, room: Seq<char> },
}

impl View for HubRequest {
    type V = ReqModel;

    open spec fn view(&self) -> ReqModel {
        match self {
            HubRequest::List(_) => ReqModel::List,
            HubRequest::Join(j) => ReqModel::Join { id: j.id, room: j.room@ },
            HubRequest::Message(m) => ReqModel::Message { id: m.id, msg: m.msg@, room: m.room@ },
        }
    }
}

/// Everything one frame makes the session do.
pub struct SessionOutput {
    /// Payload to answer with a pong, if the frame was a ping.
    pub pong: Option<Vec<u8>>,
    /// Lines to write straight back to this client only.
    pub texts: Vec<String>,
    /// A request for the hub, at most one per frame.
    pub request: Option<HubRequest>,
    /// Whether the connection must be torn down.
    pub stop: bool,
}

/// The mathematical image of a session's output.
pub struct OutputModel {
    pub pong: Option<Seq<u8>>,
    pub texts: Seq<Seq<char>>,
    pub request: Option<ReqModel>,
    pub stop: bool,
}

impl View for SessionOutput {
    type V = OutputModel;

    open spec fn view(&self) -> OutputModel {
        OutputModel {
            pong: match self.pong {
                Option::Some(p) => Option::Some(p@),
                Option::None => Option::None,
            },
            texts: self.texts@.map_values(|s: String| s@),
            request: match self.request {
                Option::Some(r) => Option::Some(r@),
                Option::None => Option::None,
            },
            stop: self.stop,
        }
    }
}

/// Output that does nothing.
pub open spec fn quiet_output() -> OutputModel {
    OutputModel { pong: Option::None, texts: Seq::empty(), request: Option::None, stop: false }
}

/// A broadcast carries the display name as a `name: ` prefix, if one is set.
pub open spec fn display_text(name: Option<Seq<char>>, text: Seq<char>) -> Seq<char> {
    match name {
        Option::Some(nm) => nm + ": "@ + text,
        Option::None => text,
    }
}

/// Entering `Closing`: the connection is to be torn down.
pub open spec fn close_transition(s: SessionModel) -> (SessionModel, OutputModel) {
    (
        SessionModel { state: SessionState::Closing, ..s },
        OutputModel { stop: true, ..quiet_output() },
    )
}

/// What one trimmed text line makes an active session do.
pub open spec fn model_text(s: SessionModel, line: Seq<char>) -> (SessionModel, OutputModel) {
    match parse_spec(line) {
        CommandModel::Broadcast(text) => (
            s,
            OutputModel {
                request: Option::Some(
                    ReqModel::Message { id: s.id, msg: display_text(s.name, text), room: s.room },
                ),
                ..quiet_output()
            },
        ),
        CommandModel::ListRooms => (
            s,
            OutputModel { request: Option::Some(ReqModel::List), ..quiet_output() },
        ),
        CommandModel::Join(r) => (
            SessionModel { room: r, ..s },
            OutputModel {
                request: Option::Some(ReqModel::Join { id: s.id, room: r }),
                texts: seq!["joined"@],
                ..quiet_output()
            },
        ),
        CommandModel::SetName(n) => (SessionModel { name: Option::Some(n), ..s }, quiet_output()),
        CommandModel::Invalid(m) => (
            s,
            OutputModel { texts: seq!["!!! "@ + m], ..quiet_output() },
        ),
    }
}

/// The session state machine: one inbound frame while `Active`. Ping and
/// pong refresh the activity stamp; text is trimmed, parsed and dispatched;
/// close, binary, continuation and undecodable frames start the teardown.
pub open spec fn model_handle(s: SessionModel, frame: FrameModel, now: u64) -> (
    SessionModel,
    OutputModel,
) {
    match frame {
        FrameModel::Ping(p) => (
            SessionModel { hb: now, ..s },
            OutputModel { pong: Option::Some(p), ..quiet_output() },
        ),
        FrameModel::Pong(_) => (SessionModel { hb: now, ..s }, quiet_output()),
        FrameModel::Text(t) => model_text(s, trim_spec(t)),
        FrameModel::Binary(_) => close_transition(s),
        FrameModel::Close => close_transition(s),
        FrameModel::Continuation => close_transition(s),
        FrameModel::Nop => (s, quiet_output()),
        FrameModel::Invalid => close_transition(s),
    }
}

/// Whether the peer has been silent longer than the timeout.
pub open spec fn hb_expired(now: u64, last: u64) -> bool {
    now - last > CLIENT_TIMEOUT
}

/// An output that does nothing.
fn quiet() -> (o: SessionOutput)
    ensures
        o@ == quiet_output(),
{
    let o = SessionOutput { pong: None, texts: Vec::new(), request: None, stop: false };
    proof {
        assert(o@.texts =~= quiet_output().texts);
    }
    o
}

impl WsChatSession {
    /// A session for a connection accepted at time `now`: not yet
    /// registered, bound for the main room, anonymous.
    pub fn new(now: u64) -> (s: WsChatSession)
        ensures
            s@ == (SessionModel {
                state: SessionState::Connecting,
                id: 0,
                hb: now,
                room: main_room(),
                name: Option::None,
            }),
    {
        WsChatSession {
            state: SessionState::Connecting,
            id: 0,
            hb: now,
            room: String::from_str("Main"),
            name: None,
        }
    }

    /// The hub's registration reply: the assigned id makes the session
    /// active.
    pub fn on_registered(&mut self, id: usize)
        requires
            old(self)@.state is Connecting,
        ensures
            final(self)@ == (SessionModel { state: SessionState::Active, id: id, ..old(self)@ }),
    {
        self.id = id;
        self.state = SessionState::Active;
    }

    /// One inbound frame while active, at time `now`.
    pub fn handle(&mut self, frame: WsFrame, now: u64) -> (out: SessionOutput)
        requires
            old(self)@.state is Active,
        ensures
            final(self)@ == model_handle(old(self)@, frame@, now).0,
            out@ == model_handle(old(self)@, frame@, now).1,
    {
        match frame {
            WsFrame::Ping(p) => {
                self.hb = now;
                let mut o = quiet();
                o.pong = Some(p);
                o
            },
            WsFrame::Pong(_) => {
                self.hb = now;
                quiet()
            },
            WsFrame::Text(t) => {
                let line = trim(t.as_str());
                let cmd = parse_command(line);
                match cmd {
                    Command::Broadcast(text) => {
                        let msg = match &self.name {
                            Some(nm) => {
                                let mut m = nm.clone();
                                m.append(": ");
                                m.append(text.as_str());
                                m
                            },
                            None => text,
                        };
                        let mut o = quiet();
                        o.request = Some(
                            HubRequest::Message(
                                ClientMessage { id: self.id, msg, room: self.room.clone() },
                            ),
                        );
                        o
                    },
                    Command::ListRooms => {
                        let mut o = quiet();
                        o.request = Some(HubRequest::List(ListRooms));
                        o
                    },
                    Command::Join(r) => {
                        let room2 = r.clone();
                        self.room = r;
                        let mut o = quiet();
                        o.request = Some(HubRequest::Join(Join { id: self.id, room: room2 }));
                        let mut ts: Vec<String> = Vec::new();
                        ts.push(String::from_str("joined"));
                        o.texts = ts;
                        proof {
                            assert(o@.texts =~= seq!["joined"@]);
                        }
                        o
                    },
                    Command::SetName(n) => {
                        self.name = Some(n);
                        quiet()
                    },
                    Command::Invalid(m) => {
                        let mut line_out = String::from_str("!!! ");
                        line_out.append(m.as_str());
                        let mut o = quiet();
                        let mut ts: Vec<String> = Vec::new();
                        ts.push(line_out);
                        o.texts = ts;
                        proof {
                            assert(o@.texts =~= seq!["!!! "@ + m@]);
                        }
                        o
                    },
                }
            },
            WsFrame::Binary(_) => self.close_now(),
            WsFrame::Close => self.close_now(),
            WsFrame::Continuation => self.close_now(),
            WsFrame::Nop => quiet(),
            WsFrame::Invalid => self.close_now(),
        }
    }

    /// Starts the teardown: the session is closing and the transport must
    /// stop the connection.
    fn close_now(&mut self) -> (o: SessionOutput)
        ensures
            final(self)@ == close_transition(old(self)@).0,
            o@ == close_transition(old(self)@).1,
    {
        self.state = SessionState::Closing;
        let mut o = quiet();
        o.stop = true;
        o
    }

    /// The teardown's last step: the deregistration command for the hub.
    /// After it the session is closed for good.
    pub fn stopping(&mut self) -> (d: Disconnect)
        requires
            old(self)@.state is Closing,
        ensures
            final(self)@ == (SessionModel { state: SessionState::Closed, ..old(self)@ }),
            d.id == old(self)@.id,
    {
        self.state = SessionState::Closed;
        Disconnect { id: self.id }
    }

    /// One heartbeat tick at time `now`. The clock is monotonic, so `now`
    /// never lies before the last recorded activity. A peer silent past the
    /// timeout is evicted (the session starts closing); otherwise it is
    /// pinged again.
    pub fn hb(&mut self, now: u64) -> (a: HbAction)
        requires
            old(self)@.state is Active,
            now >= old(self)@.hb,
        ensures
            hb_expired(now, old(self)@.hb) ==> a == HbAction::Evict && final(self)@
                == (SessionModel { state: SessionState::Closing, ..old(self)@ }),
            !hb_expired(now, old(self)@.hb) ==> a == HbAction::SendPing && final(self)@ == old(
                self,
            )@,
    {
        if now - self.hb > CLIENT_TIMEOUT {
            self.state = SessionState::Closing;
            HbAction::Evict
        } else {
            HbAction::SendPing
        }
    }
}

} // verus!
