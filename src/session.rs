//! The decisions of one peer session: send OPEN, then answer each whole
//! inbound message with a KEEPALIVE until the stream closes or a message
//! fails to decode. The caller performs each action and reports back.
use vstd::prelude::*;
use bytes::BytesMut;
use crate::buffer::{buffer_extend, buffer_new, buffered};
use crate::error::DecodeError;
use crate::message::{
    declared_len, decode_spec, keepalive_bytes, keepalive_message, open_bytes, open_message, Bgp,
    Message, MessageModel,
};

verus! {

#[derive(PartialEq, Eq, Structural, Clone, Copy, Debug)]
pub enum SessionState {
    Start,
    WaitMessage,
    Closed,
}

/// What the session's owner has to report.
pub enum SessionInput {
    /// The connection is up.
    Begin,
    /// Bytes read from the stream; none means the stream closed.
    Received(Vec<u8>),
    /// The last bytes handed out were written.
    Sent,
}

pub enum InputModel {
    Begin,
    Received(Seq<u8>),
    Sent,
}

impl View for SessionInput {
    type V = InputModel;

    open spec fn view(&self) -> InputModel {
        match self {
            SessionInput::Begin => InputModel::Begin,
            SessionInput::Received(d) => InputModel::Received(d@),
            SessionInput::Sent => InputModel::Sent,
        }
    }
}

/// What the session's owner has to do next.
pub enum SessionAction {
    /// Write these bytes, then report `Sent`.
    Send(Vec<u8>),
    /// Dispatch the message, write the reply, then report `Sent`.
    Reply(Message, Vec<u8>),
    /// Read from the stream and report `Received`.
    Read,
    /// The stream closed: end the session.
    Close,
    /// A message was malformed: end this session with the error.
    Fail(DecodeError),
}

pub enum ActionModel {
    Send(Seq<u8>),
    Reply(MessageModel, Seq<u8>),
    Read,
    Close,
    Fail(DecodeError),
}

impl View for SessionAction {
    type V = ActionModel;

    open spec fn view(&self) -> ActionModel {
        match self {
            SessionAction::Send(b) => ActionModel::Send(b@),
            SessionAction::Reply(m, b) => ActionModel::Reply(m@, b@),
            SessionAction::Read => ActionModel::Read,
            SessionAction::Close => ActionModel::Close,
            SessionAction::Fail(e) => ActionModel::Fail(*e),
        }
    }
}

/// The values this speaker announces in its OPEN message.
#[derive(Clone, Copy, Debug)]
pub struct SessionConfig {
    pub asn: u16,
    pub hold_time: u16,
    pub router_id: [u8; 4],
}

/// Next state, pending bytes and action after looking at the pending bytes.
pub open spec fn poll_spec(buf: Seq<u8>) -> (SessionState, Seq<u8>, ActionModel) {
    match decode_spec(buf) {
        Ok(Some(m)) => (
            SessionState::WaitMessage,
            buf.subrange(declared_len(buf), buf.len() as int),
            ActionModel::Reply(m, keepalive_bytes()),
        ),
        Ok(None) => (SessionState::WaitMessage, buf, ActionModel::Read),
        Err(e) => (SessionState::Closed, buf, ActionModel::Fail(e)),
    }
}

/// Next state, pending bytes and action for one input. An input that does
/// not fit the state (anything before `Begin`, anything after closing)
/// closes the session.
pub open spec fn step_spec(state: SessionState, buf: Seq<u8>, cfg: SessionConfig, input: InputModel) -> (
    SessionState,
    Seq<u8>,
    ActionModel,
) {
    match (state, input) {
        (SessionState::Start, InputModel::Begin) => (
            SessionState::WaitMessage,
            buf,
            ActionModel::Send(open_bytes(cfg.asn, cfg.hold_time, cfg.router_id@)),
        ),
        (SessionState::WaitMessage, InputModel::Received(d)) => if d.len() == 0 {
            (SessionState::Closed, buf, ActionModel::Close)
        } else {
            poll_spec(buf + d)
        },
        (SessionState::WaitMessage, InputModel::Sent) => poll_spec(buf),
        _ => (SessionState::Closed, buf, ActionModel::Close),
    }
}

pub struct Session {
    state: SessionState,
    config: SessionConfig,
    codec: Bgp,
    buf: BytesMut,
}

impl Session {
    pub closed spec fn state_of(&self) -> SessionState {
        self.state
    }

    /// The bytes read but not yet taken by a decoded message.
    pub closed spec fn pending(&self) -> Seq<u8> {
        buffered(self.buf)
    }

    pub closed spec fn config_of(&self) -> SessionConfig {
        self.config
    }

    pub fn new(config: SessionConfig) -> (r: Session)
        ensures
            r.state_of() == SessionState::Start,
            r.pending() == Seq::<u8>::empty(),
            r.config_of() == config,
    {
        Session { state: SessionState::Start, config, codec: Bgp {}, buf: buffer_new() }
    }

    pub fn state(&self) -> (r: SessionState)
        ensures
            r == self.state_of(),
    {
        self.state
    }

    fn poll(&mut self) -> (r: SessionAction)
        ensures
            (final(self).state_of(), final(self).pending(), r@) == poll_spec(old(self).pending()),
            final(self).config_of() == old(self).config_of(),
    {
        match self.codec.decode(&mut self.buf) {
            Ok(Some(m)) => {
                self.state = SessionState::WaitMessage;
                SessionAction::Reply(m, keepalive_message())
            },
            Ok(None) => {
                self.state = SessionState::WaitMessage;
                SessionAction::Read
            },
            Err(e) => {
                self.state = SessionState::Closed;
                SessionAction::Fail(e)
            },
        }
    }

    /// Takes one input and says what to do next.
    pub fn step(&mut self, input: SessionInput) -> (r: SessionAction)
        ensures
            (final(self).state_of(), final(self).pending(), r@) == step_spec(
                old(self).state_of(),
                old(self).pending(),
                old(self).config_of(),
                input@,
            ),
            final(self).config_of() == old(self).config_of(),
    {
        match (self.state, input) {
            (SessionState::Start, SessionInput::Begin) => {
                self.state = SessionState::WaitMessage;
                SessionAction::Send(
                    open_message(self.config.asn, self.config.hold_time, self.config.router_id),
                )
            },
            (SessionState::WaitMessage, SessionInput::Received(d)) => {
                if d.len() == 0 {
                    self.state = SessionState::Closed;
                    SessionAction::Close
                } else {
                    buffer_extend(&mut self.buf, d.as_slice());
                    self.poll()
                }
            },
            (SessionState::WaitMessage, SessionInput::Sent) => self.poll(),
            _ => {
                self.state = SessionState::Closed;
                SessionAction::Close
            },
        }
    }
}

} // verus!
