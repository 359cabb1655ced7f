use odarcon::protocol::{ClientMessage, ClientMessageType, PrintLevel};
use odarcon::session::{
    connection_request, connection_url, read_text_frame, Frame, LogLine, Session, SessionState,
};

fn open_session() -> Session {
    let mut s = Session::new();
    let line = s.handshake_succeeded();
    assert_eq!(
        line,
        Some(LogLine { text: "Connected to odamex server!\n".to_string(), level: None })
    );
    s
}

#[test]
fn connect_invalid_hostname() {
    let s = connection_request("example com", 11666);
    assert!(s.is_err())
}

#[test]
fn connection_request_asks_for_rcon_subprotocol() {
    let req = connection_request("127.0.0.1", 10666).unwrap();
    assert_eq!(req.uri().to_string(), "ws://127.0.0.1:10666/");
    let protocol = req.headers().get("Sec-WebSocket-Protocol").unwrap();
    assert_eq!(protocol.to_str().unwrap(), "odamex-rcon");
}

#[test]
fn connection_url_format() {
    assert_eq!(connection_url("example.com", 10666), "ws://example.com:10666");
    assert_eq!(connection_url("h", 0), "ws://h:0");
    assert_eq!(connection_url("h", 65535), "ws://h:65535");
}

#[test]
fn print_frame_delivers_text_and_level() {
    let mut s = open_session();
    let frame = r#"{"type":"print","id":2,"content":{"printlevel":"high","text":"Hello"}}"#;
    let line = s.receive(Frame::Text(frame.to_string()));
    assert_eq!(
        line,
        Some(LogLine { text: "Hello".to_string(), level: Some(PrintLevel::High) })
    );
    assert_eq!(s.state(), SessionState::Open);
}

#[test]
fn login_failure_frame_is_reported() {
    let mut s = open_session();
    let frame = r#"{"type":"login_failure","id":2,"content":"bad password"}"#;
    let line = s.receive(Frame::Text(frame.to_string())).unwrap();
    assert!(line.text.contains("bad password"), "{}", line.text);
    assert!(line.text.starts_with("Received: "));
    assert_eq!(line.level, None);
}

#[test]
fn invalid_frame_is_reported_and_session_goes_on() {
    let mut s = open_session();
    let line = s.receive(Frame::Text("{\"type\":\"nope\",\"id\":1}".to_string())).unwrap();
    assert_eq!(
        line.text,
        "Received invalid message: {\"type\":\"nope\",\"id\":1}\nunknown message type\n"
    );
    assert_eq!(line.level, None);
    assert_eq!(s.state(), SessionState::Open);
    let again = read_text_frame(r#"{"type":"maplist","id":9}"#);
    assert_eq!(again.level, None);
    assert!(again.text.starts_with("Received: {"));
}

#[test]
fn binary_and_control_frames_are_ignored() {
    let mut s = open_session();
    assert_eq!(s.receive(Frame::Binary), None);
    assert_eq!(s.receive(Frame::Control), None);
    assert_eq!(s.state(), SessionState::Open);
}

#[test]
fn close_frame_closes_the_session() {
    let mut s = open_session();
    let line = s.receive(Frame::Close);
    assert_eq!(
        line,
        Some(LogLine { text: "Connection to server has been closed\n".to_string(), level: None })
    );
    assert_eq!(s.state(), SessionState::Closed);
    assert_eq!(s.receive(Frame::Text("{}".to_string())), None);
    assert_eq!(s.handshake_succeeded(), None);
}

#[test]
fn frames_leave_in_send_order() {
    let mut s = Session::new();
    assert_eq!(s.send(ClientMessageType::Command("first".to_string())), None);
    assert_eq!(s.send(ClientMessageType::Command("second".to_string())), None);
    assert_eq!(s.next_frame(), None);
    s.handshake_succeeded();
    let a = ClientMessage::parse(&s.next_frame().unwrap()).unwrap();
    let b = ClientMessage::parse(&s.next_frame().unwrap()).unwrap();
    assert_eq!(a, ClientMessage { content: ClientMessageType::Command("first".to_string()), id: 0 });
    assert_eq!(b, ClientMessage { content: ClientMessageType::Command("second".to_string()), id: 1 });
    assert_eq!(s.next_frame(), None);
}

#[test]
fn send_on_closed_session_reports_failure() {
    let mut s = Session::new();
    let line = s.handshake_failed("refused");
    assert_eq!(
        line,
        Some(LogLine { text: "Failed to connect: refused\n".to_string(), level: None })
    );
    assert_eq!(s.state(), SessionState::Closed);
    let line = s.send(ClientMessageType::Maplist);
    assert_eq!(
        line,
        Some(LogLine { text: "Failed to send message: channel closed".to_string(), level: None })
    );
    assert_eq!(s.next_frame(), None);
}

#[test]
fn transmit_failure_line() {
    let s = open_session();
    let line = s.transmit_failed("broken pipe");
    assert_eq!(line.text, "Failed to send message: broken pipe");
    assert_eq!(line.level, None);
}

#[test]
fn stream_end_closes_the_session() {
    let mut s = open_session();
    s.send(ClientMessageType::Maplist);
    s.stream_ended();
    assert_eq!(s.state(), SessionState::Closed);
    assert_eq!(s.next_frame(), None);
}

#[test]
fn other_messages_are_reported_as_compact_json() {
    let line = read_text_frame("{ \"type\" : \"login_response\", \"id\" : 3, \"content\" : 42 }");
    assert_eq!(line.text, "Received: {\"content\":42,\"id\":3,\"type\":\"login_response\"}\n");
    assert_eq!(line.level, None);
}
