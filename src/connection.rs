//! The per-connection protocol. The server side is a state machine: the
//! caller performs each action on the socket or the job queue and feeds back
//! what happened as the next event.
use vstd::prelude::*;
use vstd::string::StringExecFns;
use crate::message::{header_id, InternalRequest, Request, Response, ServerConfig};

verus! {

/// Where a server-side connection stands.
pub enum ConnState {
    /// Accepted; the identifier has not been sent yet.
    AwaitingHandshake,
    /// The identifier was sent; waiting for the client's echo.
    Handshaking,
    /// The echo matched; waiting for the session configuration.
    AwaitingConfig,
    /// Ready for the next request.
    Established { config: ServerConfig },
    /// A job is queued or running for this connection.
    WaitingForReply { config: ServerConfig },
    Closed,
}

/// What happened since the last action.
pub enum ConnEvent {
    /// The socket was accepted.
    Accepted,
    /// The client's 16 bytes after the identifier was sent.
    HeaderReceived(Vec<u8>),
    ConfigReceived(ServerConfig),
    RequestReceived(Request),
    /// The worker's reply to the job in flight.
    ReplyReceived(Response),
    /// A read, a write, the queue or the reply slot failed, or the peer left.
    StreamFailed,
}

/// What the caller is to do next.
pub enum ConnAction {
    /// Write the protocol identifier, then read 16 bytes.
    SendHeader,
    /// Read one framed session configuration.
    ReadConfig,
    /// Write the one-byte acknowledgement, then read one framed request.
    SendAck(u8),
    /// Queue this job and wait for its reply.
    Submit(InternalRequest),
    /// Write this response as a frame, flush, then read the next request.
    SendResponse(Response),
    /// Drop the connection without writing anything more.
    Close,
}

/// The next state and action of a server-side connection.
pub open spec fn conn_step_spec(s: ConnState, e: ConnEvent) -> (ConnState, ConnAction) {
    match (s, e) {
        (_, ConnEvent::StreamFailed) => (ConnState::Closed, ConnAction::Close),
        (ConnState::AwaitingHandshake, ConnEvent::Accepted) => (
            ConnState::Handshaking,
            ConnAction::SendHeader,
        ),
        (ConnState::Handshaking, ConnEvent::HeaderReceived(b)) => if b@ == header_id() {
            (ConnState::AwaitingConfig, ConnAction::ReadConfig)
        } else {
            (ConnState::Closed, ConnAction::Close)
        },
        (ConnState::AwaitingConfig, ConnEvent::ConfigReceived(c)) => (
            ConnState::Established { config: c },
            ConnAction::SendAck(1),
        ),
        (ConnState::Established { config }, ConnEvent::RequestReceived(request)) => (
            ConnState::WaitingForReply { config },
            ConnAction::Submit(InternalRequest { config, request }),
        ),
        (ConnState::WaitingForReply { config }, ConnEvent::ReplyReceived(r)) => (
            ConnState::Established { config },
            ConnAction::SendResponse(r),
        ),
        _ => (ConnState::Closed, ConnAction::Close),
    }
}

/// Whether `b` is exactly the protocol identifier.
pub fn is_header_id(b: &[u8]) -> (r: bool)
    ensures
        r == (b@ == header_id()),
{
    let expected = crate::message::header_id_bytes();
    if b.len() != 16 {
        return false;
    }
    let mut i: usize = 0;
    while i < 16
        invariant
            b@.len() == 16,
            expected@ == header_id(),
            i <= 16,
            forall|k: int| 0 <= k < i ==> b@[k] == header_id()[k],
        decreases 16 - i,
    {
        if b[i] != expected[i] {
            return false;
        }
        i = i + 1;
    }
    assert(b@ =~= header_id());
    true
}

/// Advances a server-side connection by one event.
pub fn conn_step(s: ConnState, e: ConnEvent) -> (r: (ConnState, ConnAction))
    ensures
        r == conn_step_spec(s, e),
{
    match (s, e) {
        (_, ConnEvent::StreamFailed) => (ConnState::Closed, ConnAction::Close),
        (ConnState::AwaitingHandshake, ConnEvent::Accepted) => (
            ConnState::Handshaking,
            ConnAction::SendHeader,
        ),
        (ConnState::Handshaking, ConnEvent::HeaderReceived(b)) => {
            if is_header_id(b.as_slice()) {
                (ConnState::AwaitingConfig, ConnAction::ReadConfig)
            } else {
                (ConnState::Closed, ConnAction::Close)
            }
        },
        (ConnState::AwaitingConfig, ConnEvent::ConfigReceived(c)) => (
            ConnState::Established { config: c },
            ConnAction::SendAck(1),
        ),
        (ConnState::Established { config }, ConnEvent::RequestReceived(request)) => {
            let kept = config.duplicate();
            (
                ConnState::WaitingForReply { config: kept },
                ConnAction::Submit(InternalRequest { config, request }),
            )
        },
        (ConnState::WaitingForReply { config }, ConnEvent::ReplyReceived(r)) => (
            ConnState::Established { config },
            ConnAction::SendResponse(r),
        ),
        _ => (ConnState::Closed, ConnAction::Close),
    }
}

/// A wrong identifier closes the connection before any acknowledgement is
/// sent, and a right one leads, once the configuration arrives, to the
/// acknowledgement `1` and a state that accepts requests.
pub proof fn lemma_handshake(echo: Vec<u8>, config: ServerConfig, request: Request)
    ensures
        ({
            let (s1, a1) = conn_step_spec(ConnState::AwaitingHandshake, ConnEvent::Accepted);
            let (s2, a2) = conn_step_spec(s1, ConnEvent::HeaderReceived(echo));
            &&& a1 is SendHeader
            &&& echo@ != header_id() ==> s2 is Closed && a2 is Close
            &&& echo@ == header_id() ==> {
                let (s3, a3) = conn_step_spec(s2, ConnEvent::ConfigReceived(config));
                let (s4, a4) = conn_step_spec(s3, ConnEvent::RequestReceived(request));
                &&& a2 is ReadConfig
                &&& a3 == ConnAction::SendAck(1)
                &&& s4 == ConnState::WaitingForReply { config }
                &&& a4 == ConnAction::Submit(InternalRequest { config, request })
            }
        }),
{
}

/// Every request of a session is submitted with the configuration that the
/// session began with, and each reply returns the connection to readiness.
pub proof fn lemma_session_config_kept(config: ServerConfig, request: Request, reply: Response)
    ensures
        ({
            let (s1, a1) = conn_step_spec(
                ConnState::Established { config },
                ConnEvent::RequestReceived(request),
            );
            let (s2, a2) = conn_step_spec(s1, ConnEvent::ReplyReceived(reply));
            &&& a1 == ConnAction::Submit(InternalRequest { config, request })
            &&& s2 == ConnState::Established { config }
            &&& a2 == ConnAction::SendResponse(reply)
        }),
{
}

/// The client's check of the server's 16-byte identifier.
pub fn check_header_echo(b: &[u8]) -> (r: Result<(), String>)
    ensures
        r is Ok <==> b@ == header_id(),
        r is Err ==> r->Err_0@ == "Invalid header ID"@,
{
    if is_header_id(b) {
        Ok(())
    } else {
        Err(String::from_str("Invalid header ID"))
    }
}

/// The client's check of the server's acknowledgement byte.
pub fn check_ack(b: u8) -> (r: Result<(), String>)
    ensures
        r is Ok <==> b == 1,
        r is Err ==> r->Err_0@ == "Invalid ACK"@,
{
    if b == 1 {
        Ok(())
    } else {
        Err(String::from_str("Invalid ACK"))
    }
}

} // verus!
