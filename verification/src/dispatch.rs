//! Routing of a session's first transport event: decode the handshake and
//! decide whether the session is rejected or relayed.

use vstd::prelude::*;
use crate::identity::Identifier;
use crate::relay::CloseReason;
use crate::vless::{spec_decode, Command, DecodeError, Request, RequestModel};

verus! {

/// The first event a session's transport delivers.
#[derive(Debug)]
pub enum FirstEvent {
    /// A binary message: the handshake bytes.
    Binary(Vec<u8>),
    /// A message that carried no binary contents.
    NonBinary,
    /// A close event: the client went away before sending anything.
    Closed,
}

/// Mathematical form of a [`FirstEvent`].
#[verifier::ext_equal]
pub enum FirstEventModel {
    Binary(Seq<u8>),
    NonBinary,
    Closed,
}

impl View for FirstEvent {
    type V = FirstEventModel;

    open spec fn view(&self) -> FirstEventModel {
        match self {
            FirstEvent::Binary(b) => FirstEventModel::Binary(b@),
            FirstEvent::NonBinary => FirstEventModel::NonBinary,
            FirstEvent::Closed => FirstEventModel::Closed,
        }
    }
}

/// Why a session ended at dispatch, before any relay ran.
#[derive(Clone, Copy, Debug, PartialEq, Eq, Structural)]
pub enum SessionError {
    /// The transport closed before any request arrived.
    NoRequest,
    /// The first message carried no bytes.
    EmptyFirstMessage,
    /// The handshake was rejected, with the decoder's error.
    Invalid(DecodeError),
    /// The handshake decoded, but named a command this endpoint does not
    /// run.
    Unsupported(Command),
}

/// What the host must do with a session after its first event.
#[derive(Debug)]
pub enum Dispatch {
    /// Fail the session: where a close reason is given, close the
    /// transport with it first (where none is, the transport is already
    /// closing), and surface the error.
    Reject(Option<CloseReason>, SessionError),
    /// Open a TCP connection to the request's destination, flush its
    /// inline payload, and run the relay loop.
    Connect(Request),
}

/// Mathematical form of a [`Dispatch`].
#[verifier::ext_equal]
pub enum DispatchModel {
    Reject(Option<CloseReason>, SessionError),
    Connect(RequestModel),
}

impl View for Dispatch {
    type V = DispatchModel;

    open spec fn view(&self) -> DispatchModel {
        match self {
            Dispatch::Reject(c, e) => DispatchModel::Reject(*c, *e),
            Dispatch::Connect(q) => DispatchModel::Connect(q@),
        }
    }
}

/// Where the first event leads: a close before any message fails the
/// session with no further transport action; a non-binary first message is
/// an empty handshake; binary bytes are decoded, and the result either
/// connects (a TCP command) or rejects with close code 1003.
pub open spec fn spec_dispatch(e: FirstEventModel, expected: Option<Seq<u8>>) -> DispatchModel {
    match e {
        FirstEventModel::Closed => DispatchModel::Reject(None, SessionError::NoRequest),
        FirstEventModel::NonBinary => DispatchModel::Reject(None, SessionError::EmptyFirstMessage),
        FirstEventModel::Binary(b) => match spec_decode(b, expected) {
            Err(err) => DispatchModel::Reject(
                Some(CloseReason::InvalidRequest),
                SessionError::Invalid(err),
            ),
            Ok(q) => if q.cmd is Tcp {
                DispatchModel::Connect(q)
            } else {
                DispatchModel::Reject(
                    Some(CloseReason::UnsupportedCommand),
                    SessionError::Unsupported(q.cmd),
                )
            },
        },
    }
}

/// Routes the first transport event, exactly as [`spec_dispatch`] states.
pub fn dispatch_first(event: FirstEvent, expected: &Identifier) -> (r: Dispatch)
    ensures
        r@ == spec_dispatch(event@, expected@),
{
    match event {
        FirstEvent::Closed => Dispatch::Reject(None, SessionError::NoRequest),
        FirstEvent::NonBinary => Dispatch::Reject(None, SessionError::EmptyFirstMessage),
        FirstEvent::Binary(b) => match Request::parse_from(b.as_slice(), expected) {
            Err(err) => Dispatch::Reject(
                Some(CloseReason::InvalidRequest),
                SessionError::Invalid(err),
            ),
            Ok(q) => match q.cmd {
                Command::Tcp => Dispatch::Connect(q),
                c => Dispatch::Reject(
                    Some(CloseReason::UnsupportedCommand),
                    SessionError::Unsupported(c),
                ),
            },
        },
    }
}

/// Every rejected handshake — too short, wrong version, wrong identity,
/// unknown command or address type, bad domain — is answered with the one
/// close code 1003: a client cannot tell garbage from a well-formed
/// handshake with the wrong identity by the close it observes. A wrong
/// identity stays distinct at the decoder itself; see
/// [`crate::vless::lemma_wrong_identity_fails`].
pub proof fn lemma_rejects_share_close_code(b: Seq<u8>, expected: Option<Seq<u8>>)
    requires
        spec_decode(b, expected) is Err,
    ensures
        spec_dispatch(FirstEventModel::Binary(b), expected) matches DispatchModel::Reject(
            Some(r),
            SessionError::Invalid(err),
        ) && r.spec_code() == 1003 && Err::<RequestModel, DecodeError>(err) == spec_decode(
            b,
            expected,
        ),
{
}

/// A decoded handshake whose command is not TCP never connects: it is
/// rejected with the same close code 1003, before any connection is made.
pub proof fn lemma_unsupported_command_rejected(b: Seq<u8>, expected: Option<Seq<u8>>)
    requires
        spec_decode(b, expected) matches Ok(q) && !(q.cmd is Tcp),
    ensures
        spec_dispatch(FirstEventModel::Binary(b), expected) matches DispatchModel::Reject(
            Some(r),
            SessionError::Unsupported(c),
        ) && r.spec_code() == 1003 && (spec_decode(b, expected) matches Ok(q) && c == q.cmd),
{
}

} // verus!
