//! The decisions of a console session.
//!
//! A session opens one connection, then runs a writer path, which sends the
//! frames queued by `send` oldest first, and a reader path, which turns each
//! frame from the server into at most one log line. Whoever runs the
//! connection hands events to a `Session` and performs what it answers.
use vstd::prelude::*;

use std::collections::VecDeque;
use vstd::multiset::Multiset;
use tokio_tungstenite::tungstenite::client::IntoClientRequest;

use crate::json::{contains_text, escape_free, has_string_member, json_read, json_text, member_of, JsonValue};
use crate::protocol::{
    lemma_keys_distinct, ClientContent, ClientMessage, ClientMessageType, DecodeError, IdCounter, Message, MessageModel,
    PrintLevel, ServerContent, ServerMessage, ServerMessageType,
};
use crate::text::{decimal, push_decimal};

verus! {

#[verifier::external_type_specification]
#[verifier::external_body]
pub struct ExWsError(tokio_tungstenite::tungstenite::Error);

#[verifier::external_type_specification]
#[verifier::external_body]
#[verifier::reject_recursive_types(T)]
pub struct ExHttpRequest<T>(tokio_tungstenite::tungstenite::http::Request<T>);

/// Why no session could be opened.
#[derive(Debug)]
pub enum RCONError {
    WebsocketError(tokio_tungstenite::tungstenite::Error),
}

/// The target that tungstenite makes of a URL text for a handshake request,
/// or `None` where it makes no request of it.
pub uninterp spec fn ws_target(url: Seq<char>) -> Option<Seq<char>>;

/// The target URI of a handshake request.
pub uninterp spec fn request_target(req: tokio_tungstenite::tungstenite::http::Request<()>) -> Seq<
    char,
>;

/// The values of a request's `Sec-WebSocket-Protocol` headers.
pub uninterp spec fn requested_subprotocols(
    req: tokio_tungstenite::tungstenite::http::Request<()>,
) -> Multiset<Seq<char>>;

/// Relies on tungstenite's `IntoClientRequest` for `&str`: parses the text as
/// a URI and builds the websocket handshake request for it, or fails. The
/// request asks for no sub-protocol.
#[verifier::external_body]
fn client_request(url: &str) -> (r: Result<
    tokio_tungstenite::tungstenite::http::Request<()>,
    tokio_tungstenite::tungstenite::Error,
>)
    ensures
        r is Ok <==> ws_target(url@) is Some,
        r is Ok ==> request_target(r->Ok_0) == ws_target(url@)->Some_0,
        r is Ok ==> requested_subprotocols(r->Ok_0) == Multiset::<Seq<char>>::empty(),
{
    url.into_client_request()
}

/// Whether http takes a text as a header value: every character is a tab, or
/// at least a space and not DEL.
pub open spec fn header_value_ok(s: Seq<char>) -> bool {
    forall|i: int| 0 <= i < s.len() ==> #[trigger] s[i] == '\t' || (s[i] as int >= 32 && s[i] as int != 127)
}

/// Relies on http's `HeaderValue::from_str` and `HeaderMap::append`: adds a
/// `Sec-WebSocket-Protocol` header asking for `protocol`, where it is a valid
/// header value, and leaves the request as it is otherwise.
#[verifier::external_body]
fn request_subprotocol(req: &mut tokio_tungstenite::tungstenite::http::Request<()>, protocol: &str)
    ensures
        request_target(*final(req)) == request_target(*old(req)),
        header_value_ok(protocol@) ==> requested_subprotocols(*final(req)) == requested_subprotocols(
            *old(req),
        ).insert(protocol@),
        !header_value_ok(protocol@) ==> requested_subprotocols(*final(req)) == requested_subprotocols(
            *old(req),
        ),
{
    if let Ok(v) = tokio_tungstenite::tungstenite::http::HeaderValue::from_str(protocol) {
        req.headers_mut().append(tokio_tungstenite::tungstenite::http::header::SEC_WEBSOCKET_PROTOCOL, v);
    }
}

/// The address of a server's console: `ws://host:port`.
pub open spec fn url_spec(host: Seq<char>, port: u16) -> Seq<char> {
    "ws://"@ + host + ":"@ + decimal(port as nat)
}

pub fn connection_url(host: &str, port: u16) -> (r: String)
    ensures
        r@ == url_spec(host@, port),
{
    let mut url = String::new();
    url.append("ws://");
    url.append(host);
    url.append(":");
    push_decimal(&mut url, port as u64);
    url
}

/// The handshake request for a server's console: it targets `ws://host:port`
/// and asks for the `odamex-rcon` sub-protocol, and nothing else. It fails,
/// before any connection is tried, where host and port make no valid address.
pub fn connection_request(host: &str, port: u16) -> (r: Result<
    tokio_tungstenite::tungstenite::http::Request<()>,
    RCONError,
>)
    ensures
        r is Ok <==> ws_target(url_spec(host@, port)) is Some,
        r is Ok ==> request_target(r->Ok_0) == ws_target(url_spec(host@, port))->Some_0,
        r is Ok ==> requested_subprotocols(r->Ok_0) == Multiset::<Seq<char>>::empty().insert(
            "odamex-rcon"@,
        ),
{
    let url = connection_url(host, port);
    match client_request(url.as_str()) {
        Ok(mut req) => {
            proof {
                reveal_strlit("odamex-rcon");
                assert(header_value_ok("odamex-rcon"@));
            }
            request_subprotocol(&mut req, "odamex-rcon");
            Ok(req)
        },
        Err(e) => Err(RCONError::WebsocketError(e)),
    }
}

/// Where a session is in its life; it never goes back.
#[derive(Debug, Clone, Copy, PartialEq, Eq, Hash, Structural)]
pub enum SessionState {
    /// The handshake has not completed.
    Connecting,
    /// Both paths run.
    Open,
    /// The connection is over.
    Closed,
}

/// A frame that the connection delivers.
#[derive(Debug, Clone, PartialEq, Eq)]
pub enum Frame {
    Text(String),
    Binary,
    Close,
    /// A ping, a pong or a raw frame.
    Control,
}

/// A line for the log: text and, for a server print, its level.
#[derive(Debug, Clone, PartialEq, Eq)]
pub struct LogLine {
    pub text: String,
    pub level: Option<PrintLevel>,
}

/// What a `Session` stands for.
pub struct SessionView {
    pub state: SessionState,
    /// The identifier that the next message gets.
    pub next_id: nat,
    /// Serialised frames that wait for the writer, oldest first.
    pub outbox: Seq<Seq<char>>,
}

/// One connection's session: its state, the identifiers of its messages, and
/// the frames that wait for the writer path.
pub struct Session {
    state: SessionState,
    ids: IdCounter,
    outbox: VecDeque<String>,
}

impl View for Session {
    type V = SessionView;

    closed spec fn view(&self) -> SessionView {
        SessionView {
            state: self.state,
            next_id: self.ids@,
            outbox: self.outbox@.map_values(|f: String| f@),
        }
    }
}

pub open spec fn line_is(line: Option<LogLine>, text: Seq<char>, level: Option<PrintLevel>) -> bool {
    line matches Some(l) && l.text@ == text && l.level == level
}

/// A line that reports a message from the server: `Received: `, the message's
/// JSON text, and a line break.
pub open spec fn reports(line: Seq<char>, m: MessageModel<ServerContent>) -> bool {
    line == "Received: "@ + json_text(ServerMessage::document_of(m)) + "\n"@
}

/// A login failure's reason, where JSON writes it without escapes, stands
/// verbatim in the line that reports it.
pub open spec fn shows_failure_reason(line: Seq<char>, m: MessageModel<ServerContent>) -> bool {
    m.content is LoginFailure && escape_free(m.content->LoginFailure_0) ==> contains_text(
        line,
        m.content->LoginFailure_0,
    )
}

/// The line for a text frame that is no message.
pub open spec fn invalid_line(frame: Seq<char>, e: DecodeError) -> Seq<char> {
    "Received invalid message: "@ + frame + "\n"@ + e.description_spec() + "\n"@
}

pub open spec fn send_failure_line(reason: Seq<char>) -> Seq<char> {
    "Failed to send message: "@ + reason
}

/// What the reader path makes of a text frame: a print is delivered as its
/// text and level, another message is reported, and a text that is no message
/// is reported with the reason.
pub open spec fn text_frame_line(frame: Seq<char>, line: Option<LogLine>) -> bool {
    match ServerMessage::decode_document(json_read(frame)) {
        Ok(m) => match m.content {
            ServerContent::Print { printlevel, text } => line_is(line, text, Some(printlevel)),
            _ => line matches Some(l) && l.level is None && reports(l.text@, m)
                && shows_failure_reason(l.text@, m),
        },
        Err(e) => line_is(line, invalid_line(frame, e), None),
    }
}

/// `after` is `before` with `content` queued: in an envelope with the next
/// identifier, serialised, behind every frame already queued.
pub open spec fn sent(before: SessionView, after: SessionView, content: ClientContent) -> bool {
    &&& after.state == before.state
    &&& after.next_id == before.next_id + 1
    &&& after.outbox == before.outbox.push(
        json_text(ClientMessage::document_of(MessageModel { content, id: before.next_id })),
    )
}

/// The frames that the writer path takes in `n` turns from a session, first to last.
pub open spec fn taken_frames(s: SessionView, n: nat) -> Seq<Seq<char>>
    decreases n,
{
    if n == 0 || !(s.state is Open) || s.outbox.len() == 0 {
        Seq::empty()
    } else {
        seq![s.outbox[0]] + taken_frames(
            SessionView { outbox: s.outbox.drop_first(), ..s },
            (n - 1) as nat,
        )
    }
}

impl Session {
    pub fn new() -> (r: Session)
        ensures
            r@.state == SessionState::Connecting,
            r@.next_id == 0,
            r@.outbox.len() == 0,
    {
        Session { state: SessionState::Connecting, ids: IdCounter::new(), outbox: VecDeque::new() }
    }

    pub fn state(&self) -> (r: SessionState)
        ensures
            r == self@.state,
    {
        self.state
    }

    /// The handshake completed: a connecting session opens and says so.
    pub fn handshake_succeeded(&mut self) -> (r: Option<LogLine>)
        ensures
            old(self)@.state is Connecting ==> final(self)@ == (SessionView {
                state: SessionState::Open,
                ..old(self)@
            }) && line_is(r, "Connected to odamex server!\n"@, None),
            !(old(self)@.state is Connecting) ==> final(self)@ == old(self)@ && r is None,
    {
        if self.state == SessionState::Connecting {
            self.state = SessionState::Open;
            Some(LogLine { text: "Connected to odamex server!\n".to_owned(), level: None })
        } else {
            None
        }
    }

    /// The handshake failed: a connecting session closes and reports why.
    pub fn handshake_failed(&mut self, reason: &str) -> (r: Option<LogLine>)
        ensures
            old(self)@.state is Connecting ==> final(self)@ == (SessionView {
                state: SessionState::Closed,
                ..old(self)@
            }) && line_is(r, "Failed to connect: "@ + reason@ + "\n"@, None),
            !(old(self)@.state is Connecting) ==> final(self)@ == old(self)@ && r is None,
    {
        if self.state == SessionState::Connecting {
            self.state = SessionState::Closed;
            let mut text = String::new();
            text.append("Failed to connect: ");
            text.append(reason);
            text.append("\n");
            Some(LogLine { text, level: None })
        } else {
            None
        }
    }

    /// Queues content for the writer path in a new envelope. A closed session,
    /// or one out of identifiers, queues nothing and reports the failure.
    pub fn send(&mut self, content: ClientMessageType) -> (r: Option<LogLine>)
        ensures
            old(self)@.state is Closed ==> final(self)@ == old(self)@ && line_is(
                r,
                send_failure_line("channel closed"@),
                None,
            ),
            !(old(self)@.state is Closed) && old(self)@.next_id >= usize::MAX ==> final(self)@
                == old(self)@ && line_is(r, send_failure_line("no message identifier left"@), None),
            !(old(self)@.state is Closed) && old(self)@.next_id < usize::MAX ==> r is None && sent(
                old(self)@,
                final(self)@,
                content@,
            ),
    {
        if self.state == SessionState::Closed {
            let mut text = String::new();
            text.append("Failed to send message: ");
            text.append("channel closed");
            return Some(LogLine { text, level: None });
        }
        if !self.ids.can_take() {
            let mut text = String::new();
            text.append("Failed to send message: ");
            text.append("no message identifier left");
            return Some(LogLine { text, level: None });
        }
        let ghost old_view = self@;
        let ghost model = content@;
        let message = Message::new(content, &mut self.ids);
        let frame = message.serialize();
        let ghost frame_view = frame@;
        let ghost before = self.outbox@;
        self.outbox.push_back(frame);
        proof {
            assert(message@ == MessageModel { content: model, id: old_view.next_id });
            assert(self.outbox@.map_values(|f: String| f@) =~= before.map_values(|f: String| f@).push(
                frame_view,
            ));
        }
        None
    }

    /// The writer path's next frame: the oldest queued one, while the session
    /// is open.
    pub fn next_frame(&mut self) -> (r: Option<String>)
        ensures
            old(self)@.state is Open && old(self)@.outbox.len() > 0 ==> {
                &&& r is Some
                &&& r->Some_0@ == old(self)@.outbox[0]
                &&& final(self)@ == (SessionView { outbox: old(self)@.outbox.drop_first(), ..old(self)@ })
            },
            !(old(self)@.state is Open && old(self)@.outbox.len() > 0) ==> {
                &&& r is None
                &&& final(self)@ == old(self)@
            },
    {
        if self.state != SessionState::Open {
            return None;
        }
        let ghost before = self.outbox@;
        let r = self.outbox.pop_front();
        proof {
            if before.len() > 0 {
                assert(self.outbox@.map_values(|f: String| f@) =~= before.map_values(
                    |f: String| f@,
                ).drop_first());
            }
        }
        r
    }

    /// The writer path could not send a frame; it goes on with the next one.
    pub fn transmit_failed(&self, reason: &str) -> (r: LogLine)
        ensures
            r.text@ == send_failure_line(reason@),
            r.level is None,
    {
        let mut text = String::new();
        text.append("Failed to send message: ");
        text.append(reason);
        LogLine { text, level: None }
    }

    /// The reader path's turn on one frame of an open session. A close frame
    /// closes the session; binary and control frames are passed over.
    pub fn receive(&mut self, frame: Frame) -> (r: Option<LogLine>)
        ensures
            !(old(self)@.state is Open) ==> final(self)@ == old(self)@ && r is None,
            old(self)@.state is Open ==> match frame {
                Frame::Text(t) => final(self)@ == old(self)@ && text_frame_line(t@, r),
                Frame::Close => final(self)@ == (SessionView {
                    state: SessionState::Closed,
                    ..old(self)@
                }) && line_is(r, "Connection to server has been closed\n"@, None),
                _ => final(self)@ == old(self)@ && r is None,
            },
    {
        if self.state != SessionState::Open {
            return None;
        }
        match frame {
            Frame::Text(t) => Some(read_text_frame(t.as_str())),
            Frame::Close => {
                self.state = SessionState::Closed;
                Some(LogLine { text: "Connection to server has been closed\n".to_owned(), level: None })
            },
            _ => None,
        }
    }

    /// The stream ended without a close frame: the session is over.
    pub fn stream_ended(&mut self)
        ensures
            final(self)@ == (SessionView { state: SessionState::Closed, ..old(self)@ }),
    {
        self.state = SessionState::Closed;
    }
}

/// The log line for one text frame.
pub fn read_text_frame(frame: &str) -> (r: LogLine)
    ensures
        text_frame_line(frame@, Some(r)),
{
    match ServerMessage::parse(frame) {
        Ok(m) => {
            if let ServerMessageType::Print { printlevel, text } = &m.content {
                LogLine { text: text.clone(), level: Some(*printlevel) }
            } else {
                let json = m.serialize();
                let mut text = String::new();
                text.append("Received: ");
                text.append(json.as_str());
                text.append("\n");
                let ghost prefix = "Received: "@;
                assert(text@ == prefix + json@ + "\n"@);
                proof {
                    if let ServerContent::LoginFailure(reason) = m@.content {
                        if escape_free(reason) {
                            let doc = ServerMessage::document_of(m@);
                            lemma_keys_distinct();
                            assert(member_of(doc, "content"@) == Some(JsonValue::Str(reason)));
                            assert(has_string_member(doc, reason));
                            let i = choose|i: int|
                                0 <= i && i + reason.len() <= json@.len() && #[trigger] json@.subrange(
                                    i,
                                    i + reason.len(),
                                ) == reason;
                            let j = prefix.len() + i;
                            assert(text@.subrange(j, j + reason.len()) =~= reason);
                        }
                    }
                }
                LogLine { text, level: None }
            }
        },
        Err(e) => {
            let mut text = String::new();
            text.append("Received invalid message: ");
            text.append(frame);
            text.append("\n");
            text.append(e.description());
            text.append("\n");
            LogLine { text, level: None }
        },
    }
}

/// Frames leave in the order in which they were sent: when an open session
/// sends A and then B, its writer takes every frame queued before, then A's
/// frame with the next identifier, then B's frame with the one after.
pub proof fn lemma_send_order(
    s0: SessionView,
    s1: SessionView,
    s2: SessionView,
    a: ClientContent,
    b: ClientContent,
)
    requires
        s0.state is Open,
        sent(s0, s1, a),
        sent(s1, s2, b),
    ensures
        taken_frames(s2, s2.outbox.len()) == s0.outbox.push(
            json_text(ClientMessage::document_of(MessageModel { content: a, id: s0.next_id })),
        ).push(
            json_text(ClientMessage::document_of(MessageModel { content: b, id: s0.next_id + 1 })),
        ),
{
    lemma_taken_all(s2);
}

/// An open session's writer takes its whole outbox, oldest first.
pub proof fn lemma_taken_all(s: SessionView)
    requires
        s.state is Open,
    ensures
        taken_frames(s, s.outbox.len()) == s.outbox,
    decreases s.outbox.len(),
{
    if s.outbox.len() > 0 {
        let rest = SessionView { outbox: s.outbox.drop_first(), ..s };
        lemma_taken_all(rest);
        assert(seq![s.outbox[0]] + s.outbox.drop_first() =~= s.outbox);
    } else {
        assert(s.outbox =~= Seq::<Seq<char>>::empty());
    }
}

} // verus!
