use arma_bench::connection::{
    check_ack, check_header_echo, conn_step, is_header_id, ConnAction, ConnEvent, ConnState,
};
use arma_bench::message::header_id_bytes;
use arma_bench::{Request, Response, ServerConfig, HEADER_ID};

#[test]
fn header_constant_matches() {
    assert_eq!(&HEADER_ID, b"ARMABENCH-VER010");
    assert_eq!(header_id_bytes(), b"ARMABENCH-VER010".to_vec());
    assert!(is_header_id(b"ARMABENCH-VER010"));
    assert!(!is_header_id(b"SENDINGBADHEADER"));
    assert!(!is_header_id(b"ARMABENCH"));
}

#[test]
fn good_handshake_reaches_established() {
    let (s, a) = conn_step(ConnState::AwaitingHandshake, ConnEvent::Accepted);
    assert!(matches!(a, ConnAction::SendHeader));
    let (s, a) = conn_step(s, ConnEvent::HeaderReceived(HEADER_ID.to_vec()));
    assert!(matches!(a, ConnAction::ReadConfig));
    let (s, a) = conn_step(s, ConnEvent::ConfigReceived(ServerConfig::default()));
    assert!(matches!(a, ConnAction::SendAck(1)));
    let (s, a) = conn_step(s, ConnEvent::RequestReceived(Request::Execute("1 + 2".to_string())));
    match a {
        ConnAction::Submit(job) => {
            assert_eq!(job.config.branch, "public");
            assert!(matches!(job.request, Request::Execute(ref c) if c == "1 + 2"));
        }
        _ => panic!("expected a job"),
    }
    let (s, a) = conn_step(s, ConnEvent::ReplyReceived(Response::Error("x".to_string())));
    assert!(matches!(a, ConnAction::SendResponse(Response::Error(ref e)) if e == "x"));
    match s {
        ConnState::Established { config } => assert_eq!(config.binary, "arma3server_x64"),
        _ => panic!("expected established"),
    }
}

#[test]
fn bad_header_closes_without_ack() {
    let (s, _) = conn_step(ConnState::AwaitingHandshake, ConnEvent::Accepted);
    let (s, a) = conn_step(s, ConnEvent::HeaderReceived(b"SENDINGBADHEADER".to_vec()));
    assert!(matches!(a, ConnAction::Close));
    assert!(matches!(s, ConnState::Closed));
}

#[test]
fn stream_failure_closes() {
    let (s, a) = conn_step(
        ConnState::Established { config: ServerConfig::default() },
        ConnEvent::StreamFailed,
    );
    assert!(matches!(a, ConnAction::Close));
    assert!(matches!(s, ConnState::Closed));
}

#[test]
fn out_of_order_event_closes() {
    let (s, a) = conn_step(ConnState::AwaitingConfig, ConnEvent::Accepted);
    assert!(matches!(a, ConnAction::Close));
    assert!(matches!(s, ConnState::Closed));
}

#[test]
fn client_side_checks() {
    assert!(check_header_echo(b"ARMABENCH-VER010").is_ok());
    assert_eq!(check_header_echo(b"SENDINGBADHEADER"), Err("Invalid header ID".to_string()));
    assert!(check_ack(1).is_ok());
    assert_eq!(check_ack(0), Err("Invalid ACK".to_string()));
    assert_eq!(check_ack(2), Err("Invalid ACK".to_string()));
}
