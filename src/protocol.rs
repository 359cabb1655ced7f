//! The wire protocol: envelopes of tagged content, in JSON.
//!
//! An envelope is one JSON object with the members `type` (the content's tag),
//! `content` (its payload, left out where the content has none) and `id`.
use vstd::prelude::*;

use crate::json::{
    contains_text, distinct_keys, escape_free, has_string_member, json_model, json_number,
    json_object, json_read, json_string, json_text, member, member_of, members_map, model_of,
    owned_model_of, plain_within, read_json, write_json, JsonValue,
};
use crate::text::{
    byte_of_text, decimal, lemma_decimal_digits, lemma_split_extend, lemma_split_separator,
    push_decimal, same_text, split_on, split_text, views_of,
};

verus! {

/// Classification of a log line that the server sends.
#[derive(Debug, Clone, Copy, PartialEq, Eq, Hash, Structural)]
pub enum PrintLevel {
    Pickup,
    Obituary,
    High,
    Chat,
    TeamChat,
    ServerChat,
    Warning,
    Error,
}

impl PrintLevel {
    /// The lowercase name that stands for the level on the wire.
    pub open spec fn name_spec(self) -> Seq<char> {
        match self {
            PrintLevel::Pickup => "pickup"@,
            PrintLevel::Obituary => "obituary"@,
            PrintLevel::High => "high"@,
            PrintLevel::Chat => "chat"@,
            PrintLevel::TeamChat => "teamchat"@,
            PrintLevel::ServerChat => "serverchat"@,
            PrintLevel::Warning => "warning"@,
            PrintLevel::Error => "error"@,
        }
    }

    pub open spec fn from_name_spec(s: Seq<char>) -> Option<PrintLevel> {
        if s == "pickup"@ {
            Some(PrintLevel::Pickup)
        } else if s == "obituary"@ {
            Some(PrintLevel::Obituary)
        } else if s == "high"@ {
            Some(PrintLevel::High)
        } else if s == "chat"@ {
            Some(PrintLevel::Chat)
        } else if s == "teamchat"@ {
            Some(PrintLevel::TeamChat)
        } else if s == "serverchat"@ {
            Some(PrintLevel::ServerChat)
        } else if s == "warning"@ {
            Some(PrintLevel::Warning)
        } else if s == "error"@ {
            Some(PrintLevel::Error)
        } else {
            None
        }
    }

    pub fn name(&self) -> (r: &'static str)
        ensures
            r@ == self.name_spec(),
    {
        match self {
            PrintLevel::Pickup => "pickup",
            PrintLevel::Obituary => "obituary",
            PrintLevel::High => "high",
            PrintLevel::Chat => "chat",
            PrintLevel::TeamChat => "teamchat",
            PrintLevel::ServerChat => "serverchat",
            PrintLevel::Warning => "warning",
            PrintLevel::Error => "error",
        }
    }

    /// The level that a wire name stands for; `None` for any other text.
    pub fn from_name(s: &str) -> (r: Option<PrintLevel>)
        ensures
            r == Self::from_name_spec(s@),
    {
        if same_text(s, "pickup") {
            Some(PrintLevel::Pickup)
        } else if same_text(s, "obituary") {
            Some(PrintLevel::Obituary)
        } else if same_text(s, "high") {
            Some(PrintLevel::High)
        } else if same_text(s, "chat") {
            Some(PrintLevel::Chat)
        } else if same_text(s, "teamchat") {
            Some(PrintLevel::TeamChat)
        } else if same_text(s, "serverchat") {
            Some(PrintLevel::ServerChat)
        } else if same_text(s, "warning") {
            Some(PrintLevel::Warning)
        } else if same_text(s, "error") {
            Some(PrintLevel::Error)
        } else {
            None
        }
    }

    /// Every level reads back from its own name.
    pub proof fn lemma_name_round_trip(self)
        ensures
            Self::from_name_spec(self.name_spec()) == Some(self),
    {
        reveal_strlit("pickup");
        reveal_strlit("obituary");
        reveal_strlit("high");
        reveal_strlit("chat");
        reveal_strlit("teamchat");
        reveal_strlit("serverchat");
        reveal_strlit("warning");
        reveal_strlit("error");
        assert("pickup"@.len() == 6);
        assert("obituary"@.len() == 8);
        assert("high"@.len() == 4);
        assert("chat"@.len() == 4);
        assert("teamchat"@.len() == 8);
        assert("serverchat"@.len() == 10);
        assert("warning"@.len() == 7);
        assert("error"@.len() == 5);
        assert("high"@[0] != "chat"@[0]);
        assert("obituary"@[0] != "teamchat"@[0]);
    }
}

/// A protocol version `major.minor.revision`.
#[derive(Debug, Clone, Copy, PartialEq, Eq, Hash, Structural)]
pub struct ProtocolVersion {
    pub major: u8,
    pub minor: u8,
    pub revision: u8,
}

impl ProtocolVersion {
    /// The text `"major.minor.revision"`, each part in decimal.
    pub open spec fn text_spec(self) -> Seq<char> {
        decimal(self.major as nat) + seq!['.'] + decimal(self.minor as nat) + seq!['.'] + decimal(
            self.revision as nat,
        )
    }

    /// The version that a text spells: exactly three pieces between dots,
    /// each one or more digits worth at most 255.
    pub open spec fn decode_spec(s: Seq<char>) -> Option<ProtocolVersion> {
        let parts = split_on(s, '.');
        if parts.len() == 3 && byte_of_text(parts[0]) is Some && byte_of_text(parts[1]) is Some
            && byte_of_text(parts[2]) is Some {
            Some(
                ProtocolVersion {
                    major: byte_of_text(parts[0])->Some_0,
                    minor: byte_of_text(parts[1])->Some_0,
                    revision: byte_of_text(parts[2])->Some_0,
                },
            )
        } else {
            None
        }
    }

    /// The newest version of the protocol that this library speaks.
    pub fn latest() -> (r: ProtocolVersion)
        ensures
            r == (ProtocolVersion { major: 1, minor: 0, revision: 0 }),
    {
        ProtocolVersion { major: 1, minor: 0, revision: 0 }
    }

    pub fn encode(&self) -> (r: String)
        ensures
            r@ == self.text_spec(),
    {
        proof {
            reveal_strlit(".");
        }
        let mut out = String::new();
        push_decimal(&mut out, self.major as u64);
        out.append(".");
        push_decimal(&mut out, self.minor as u64);
        out.append(".");
        push_decimal(&mut out, self.revision as u64);
        out
    }

    /// Reads a version; `None` unless the text is exactly three dot-separated
    /// decimal bytes.
    pub fn decode(s: &str) -> (r: Option<ProtocolVersion>)
        ensures
            r == Self::decode_spec(s@),
    {
        let parts = split_text(s, '.');
        if parts.len() != 3 {
            return None;
        }
        assert(views_of(parts@)[0] == parts@[0]@);
        assert(views_of(parts@)[1] == parts@[1]@);
        assert(views_of(parts@)[2] == parts@[2]@);
        let major = match crate::text::parse_byte(parts[0]) {
            Some(b) => b,
            None => return None,
        };
        let minor = match crate::text::parse_byte(parts[1]) {
            Some(b) => b,
            None => return None,
        };
        let revision = match crate::text::parse_byte(parts[2]) {
            Some(b) => b,
            None => return None,
        };
        Some(ProtocolVersion { major, minor, revision })
    }

    /// Every version reads back from its own text.
    pub proof fn lemma_text_round_trip(self)
        ensures
            Self::decode_spec(self.text_spec()) == Some(self),
    {
        let a = decimal(self.major as nat);
        let b = decimal(self.minor as nat);
        let c = decimal(self.revision as nat);
        lemma_decimal_digits(self.major as nat);
        lemma_decimal_digits(self.minor as nat);
        lemma_decimal_digits(self.revision as nat);
        let e = Seq::<char>::empty();
        assert(split_on(e, '.') == seq![e]);
        lemma_split_extend(e, a, '.');
        assert(e + a =~= a);
        assert(split_on(a, '.') =~= seq![a]);
        lemma_split_separator(a, '.');
        let a1 = a.push('.');
        lemma_split_extend(a1, b, '.');
        assert(split_on(a1 + b, '.') =~= seq![a, b]);
        lemma_split_separator(a1 + b, '.');
        let b1 = (a1 + b).push('.');
        lemma_split_extend(b1, c, '.');
        assert(split_on(b1 + c, '.') =~= seq![a, b, c]);
        assert(self.text_spec() =~= b1 + c);
    }
}

/// A version text is refused unless it has exactly three pieces between dots,
/// each a decimal byte: digits only, worth at most 255.
pub proof fn lemma_version_refuses(s: Seq<char>)
    ensures
        split_on(s, '.').len() != 3 ==> ProtocolVersion::decode_spec(s) is None,
        split_on(s, '.').len() == 3 && (exists|i: int|
            0 <= i < 3 && #[trigger] byte_of_text(split_on(s, '.')[i]) is None)
            ==> ProtocolVersion::decode_spec(s) is None,
{
    let parts = split_on(s, '.');
    if parts.len() == 3 && exists|i: int| 0 <= i < 3 && #[trigger] byte_of_text(parts[i]) is None {
        let i = choose|i: int| 0 <= i < 3 && #[trigger] byte_of_text(parts[i]) is None;
        assert(i == 0 || i == 1 || i == 2);
    }
}

/// Why a text is no message.
#[derive(Debug, Clone, Copy, PartialEq, Eq, Hash, Structural)]
pub enum DecodeError {
    /// The text is not one JSON document.
    NotJson,
    /// The document is not an object.
    NotObject,
    /// The object has no `type` member.
    MissingTag,
    /// The `type` member names no known content.
    UnknownTag,
    /// The payload does not have the shape that the tag calls for.
    ContentMismatch,
    /// The object has no `id` member.
    MissingId,
    /// The `id` member is no non-negative integer that fits in `usize`.
    InvalidId,
}

impl DecodeError {
    pub open spec fn description_spec(self) -> Seq<char> {
        match self {
            DecodeError::NotJson => "text is not a JSON document"@,
            DecodeError::NotObject => "document is not an object"@,
            DecodeError::MissingTag => "missing field `type`"@,
            DecodeError::UnknownTag => "unknown message type"@,
            DecodeError::ContentMismatch => "content does not match the message type"@,
            DecodeError::MissingId => "missing field `id`"@,
            DecodeError::InvalidId => "field `id` is not a non-negative integer"@,
        }
    }

    pub fn description(&self) -> (r: &'static str)
        ensures
            r@ == self.description_spec(),
    {
        match self {
            DecodeError::NotJson => "text is not a JSON document",
            DecodeError::NotObject => "document is not an object",
            DecodeError::MissingTag => "missing field `type`",
            DecodeError::UnknownTag => "unknown message type",
            DecodeError::ContentMismatch => "content does not match the message type",
            DecodeError::MissingId => "missing field `id`",
            DecodeError::InvalidId => "field `id` is not a non-negative integer",
        }
    }
}

/// Hands out message identifiers: 0, 1, 2, ... and never one twice.
#[derive(Debug)]
pub struct IdCounter {
    next: usize,
}

impl View for IdCounter {
    type V = nat;

    /// The identifier that the counter hands out next.
    closed spec fn view(&self) -> nat {
        self.next as nat
    }
}

impl IdCounter {
    pub fn new() -> (r: IdCounter)
        ensures
            r@ == 0,
    {
        IdCounter { next: 0 }
    }

    /// Whether an identifier is left to hand out.
    pub fn can_take(&self) -> (r: bool)
        ensures
            r == (self@ < usize::MAX),
    {
        self.next < usize::MAX
    }

    pub fn take(&mut self) -> (id: usize)
        requires
            old(self)@ < usize::MAX,
        ensures
            id == old(self)@,
            final(self)@ == old(self)@ + 1,
    {
        let id = self.next;
        self.next = self.next + 1;
        id
    }
}

/// The `type`, `content` and `id` keys of an envelope, and the `printlevel`
/// and `text` keys of a print payload, are pairwise distinct.
pub proof fn lemma_keys_distinct()
    ensures
        "type"@ != "content"@,
        "type"@ != "id"@,
        "content"@ != "id"@,
        "printlevel"@ != "text"@,
{
    reveal_strlit("type");
    reveal_strlit("content");
    reveal_strlit("id");
    reveal_strlit("printlevel");
    reveal_strlit("text");
    assert("type"@.len() == 4);
    assert("content"@.len() == 7);
    assert("id"@.len() == 2);
    assert("printlevel"@.len() == 10);
    assert("text"@.len() == 4);
}

/// A payload that a content without payload accepts: none, or `null`.
pub open spec fn empty_payload(payload: Option<JsonValue>) -> bool {
    payload is None || payload == Some(JsonValue::Null)
}

fn is_empty_payload(payload: Option<&serde_json::Value>) -> (r: bool)
    ensures
        r == empty_payload(model_of(payload)),
{
    match payload {
        None => true,
        Some(v) => v.is_null(),
    }
}

/// Restricts which types can be the content of a message.
pub trait Sealed {
}

/// The content of a message in one direction: a closed set of tagged variants.
pub trait MessageContent: Sealed + View + Sized {
    /// The tag under `type`.
    spec fn tag_of(c: Self::V) -> Seq<char>;

    /// The payload under `content`; `None` where the variant has none.
    spec fn payload_of(c: Self::V) -> Option<JsonValue>;

    /// The content that the `type` and `content` members of an envelope make.
    spec fn decode_members(tag: Option<JsonValue>, payload: Option<JsonValue>) -> Result<
        Self::V,
        DecodeError,
    >;

    /// A content's own tag and payload decode back to it, and the payload is
    /// plain JSON nested at most one level.
    proof fn lemma_members_round_trip(c: Self::V)
        ensures
            Self::decode_members(Some(JsonValue::Str(Self::tag_of(c))), Self::payload_of(c))
                == Ok::<Self::V, DecodeError>(c),
            Self::payload_of(c) matches Some(p) ==> plain_within(p, 7),
    ;

    fn tag(&self) -> (r: &'static str)
        ensures
            r@ == Self::tag_of(self@),
    ;

    fn payload(&self) -> (r: Option<serde_json::Value>)
        ensures
            owned_model_of(r) == Self::payload_of(self@),
    ;

    fn decode(tag: Option<&serde_json::Value>, payload: Option<&serde_json::Value>) -> (r: Result<
        Self,
        DecodeError,
    >)
        ensures
            match r {
                Ok(c) => Self::decode_members(model_of(tag), model_of(payload)) == Ok::<
                    Self::V,
                    DecodeError,
                >(c@),
                Err(e) => Self::decode_members(model_of(tag), model_of(payload)) == Err::<
                    Self::V,
                    DecodeError,
                >(e),
            },
    ;
}

/// What the server sends.
#[derive(Debug, Clone, PartialEq, Eq, Hash)]
pub enum ServerMessageType {
    LoginResponse(u64),
    LoginFailure(String),
    LoginSuccess,
    Print { printlevel: PrintLevel, text: String },
    Maplist,
}

/// What a `ServerMessageType` stands for.
pub enum ServerContent {
    LoginResponse(u64),
    LoginFailure(Seq<char>),
    LoginSuccess,
    Print { printlevel: PrintLevel, text: Seq<char> },
    Maplist,
}

impl View for ServerMessageType {
    type V = ServerContent;

    open spec fn view(&self) -> ServerContent {
        match self {
            ServerMessageType::LoginResponse(n) => ServerContent::LoginResponse(*n),
            ServerMessageType::LoginFailure(s) => ServerContent::LoginFailure(s@),
            ServerMessageType::LoginSuccess => ServerContent::LoginSuccess,
            ServerMessageType::Print { printlevel, text } => ServerContent::Print {
                printlevel: *printlevel,
                text: text@,
            },
            ServerMessageType::Maplist => ServerContent::Maplist,
        }
    }
}

/// The payload of a print: an object with the level's name under
/// `printlevel` and the line under `text`.
pub open spec fn print_payload(printlevel: PrintLevel, text: Seq<char>) -> JsonValue {
    JsonValue::Object(
        Map::empty().insert("printlevel"@, JsonValue::Str(printlevel.name_spec())).insert(
            "text"@,
            JsonValue::Str(text),
        ),
    )
}

pub open spec fn decode_print(payload: Option<JsonValue>) -> Result<ServerContent, DecodeError> {
    match payload {
        Some(p) => match (member_of(p, "printlevel"@), member_of(p, "text"@)) {
            (Some(JsonValue::Str(level)), Some(JsonValue::Str(text))) => match PrintLevel::from_name_spec(level) {
                Some(printlevel) => Ok(ServerContent::Print { printlevel, text }),
                None => Err(DecodeError::ContentMismatch),
            },
            _ => Err(DecodeError::ContentMismatch),
        },
        None => Err(DecodeError::ContentMismatch),
    }
}

impl Sealed for ServerMessageType {
}

impl MessageContent for ServerMessageType {
    open spec fn tag_of(c: ServerContent) -> Seq<char> {
        match c {
            ServerContent::LoginResponse(_) => "login_response"@,
            ServerContent::LoginFailure(_) => "login_failure"@,
            ServerContent::LoginSuccess => "login_success"@,
            ServerContent::Print { .. } => "print"@,
            ServerContent::Maplist => "maplist"@,
        }
    }

    open spec fn payload_of(c: ServerContent) -> Option<JsonValue> {
        match c {
            ServerContent::LoginResponse(n) => Some(JsonValue::Int(n as int)),
            ServerContent::LoginFailure(s) => Some(JsonValue::Str(s)),
            ServerContent::Print { printlevel, text } => Some(print_payload(printlevel, text)),
            _ => None,
        }
    }

    open spec fn decode_members(tag: Option<JsonValue>, payload: Option<JsonValue>) -> Result<
        ServerContent,
        DecodeError,
    > {
        match tag {
            None => Err(DecodeError::MissingTag),
            Some(JsonValue::Str(t)) => if t == "login_response"@ {
                match payload {
                    Some(JsonValue::Int(n)) => if 0 <= n <= u64::MAX {
                        Ok(ServerContent::LoginResponse(n as u64))
                    } else {
                        Err(DecodeError::ContentMismatch)
                    },
                    _ => Err(DecodeError::ContentMismatch),
                }
            } else if t == "login_failure"@ {
                match payload {
                    Some(JsonValue::Str(s)) => Ok(ServerContent::LoginFailure(s)),
                    _ => Err(DecodeError::ContentMismatch),
                }
            } else if t == "login_success"@ {
                if empty_payload(payload) {
                    Ok(ServerContent::LoginSuccess)
                } else {
                    Err(DecodeError::ContentMismatch)
                }
            } else if t == "print"@ {
                decode_print(payload)
            } else if t == "maplist"@ {
                if empty_payload(payload) {
                    Ok(ServerContent::Maplist)
                } else {
                    Err(DecodeError::ContentMismatch)
                }
            } else {
                Err(DecodeError::UnknownTag)
            },
            Some(_) => Err(DecodeError::UnknownTag),
        }
    }

    proof fn lemma_members_round_trip(c: ServerContent) {
        reveal_strlit("login_response");
        reveal_strlit("login_failure");
        reveal_strlit("login_success");
        reveal_strlit("print");
        reveal_strlit("maplist");
        assert("login_response"@.len() == 14);
        assert("login_failure"@.len() == 13);
        assert("login_success"@.len() == 13);
        assert("print"@.len() == 5);
        assert("maplist"@.len() == 7);
        assert("login_failure"@[6] != "login_success"@[6]);
        if let ServerContent::Print { printlevel, text } = c {
            lemma_keys_distinct();
            printlevel.lemma_name_round_trip();
            let p = print_payload(printlevel, text);
            assert(member_of(p, "printlevel"@) == Some(JsonValue::Str(printlevel.name_spec())));
            assert(member_of(p, "text"@) == Some(JsonValue::Str(text)));
            assert(plain_within(JsonValue::Str(printlevel.name_spec()), 6));
            assert(plain_within(JsonValue::Str(text), 6));
        }
    }

    fn tag(&self) -> (r: &'static str) {
        match self {
            ServerMessageType::LoginResponse(_) => "login_response",
            ServerMessageType::LoginFailure(_) => "login_failure",
            ServerMessageType::LoginSuccess => "login_success",
            ServerMessageType::Print { .. } => "print",
            ServerMessageType::Maplist => "maplist",
        }
    }

    fn payload(&self) -> (r: Option<serde_json::Value>) {
        match self {
            ServerMessageType::LoginResponse(n) => Some(json_number(*n)),
            ServerMessageType::LoginFailure(s) => Some(json_string(s.clone())),
            ServerMessageType::Print { printlevel, text } => {
                let mut members: Vec<(String, serde_json::Value)> = Vec::new();
                members.push(("printlevel".to_owned(), json_string(printlevel.name().to_owned())));
                members.push(("text".to_owned(), json_string(text.clone())));
                proof {
                    lemma_keys_distinct();
                    let m = members@;
                    assert(m.drop_last().drop_last() =~= Seq::<(String, serde_json::Value)>::empty());
                    assert(members_map(m.drop_last().drop_last()) == Map::<Seq<char>, JsonValue>::empty());
                    assert(m.drop_last().last() == m[0]);
                    assert(members_map(m.drop_last()) == Map::<Seq<char>, JsonValue>::empty().insert(
                        m[0].0@,
                        json_model(m[0].1),
                    ));
                    assert(members_map(m) == members_map(m.drop_last()).insert(
                        m[1].0@,
                        json_model(m[1].1),
                    ));
                }
                Some(json_object(members))
            },
            _ => None,
        }
    }

    fn decode(tag: Option<&serde_json::Value>, payload: Option<&serde_json::Value>) -> (r: Result<
        ServerMessageType,
        DecodeError,
    >) {
        let t = match tag {
            None => return Err(DecodeError::MissingTag),
            Some(v) => match v.as_str() {
                Some(t) => t,
                None => return Err(DecodeError::UnknownTag),
            },
        };
        if same_text(t, "login_response") {
            match payload {
                Some(p) => match p.as_u64() {
                    Some(n) => Ok(ServerMessageType::LoginResponse(n)),
                    None => Err(DecodeError::ContentMismatch),
                },
                None => Err(DecodeError::ContentMismatch),
            }
        } else if same_text(t, "login_failure") {
            match payload {
                Some(p) => match p.as_str() {
                    Some(s) => Ok(ServerMessageType::LoginFailure(s.to_owned())),
                    None => Err(DecodeError::ContentMismatch),
                },
                None => Err(DecodeError::ContentMismatch),
            }
        } else if same_text(t, "login_success") {
            if is_empty_payload(payload) {
                Ok(ServerMessageType::LoginSuccess)
            } else {
                Err(DecodeError::ContentMismatch)
            }
        } else if same_text(t, "print") {
            let p = match payload {
                Some(p) => p,
                None => return Err(DecodeError::ContentMismatch),
            };
            let level = match member(p, "printlevel") {
                Some(l) => match l.as_str() {
                    Some(l) => l,
                    None => return Err(DecodeError::ContentMismatch),
                },
                None => return Err(DecodeError::ContentMismatch),
            };
            let text = match member(p, "text") {
                Some(x) => match x.as_str() {
                    Some(x) => x,
                    None => return Err(DecodeError::ContentMismatch),
                },
                None => return Err(DecodeError::ContentMismatch),
            };
            match PrintLevel::from_name(level) {
                Some(printlevel) => Ok(ServerMessageType::Print { printlevel, text: text.to_owned() }),
                None => Err(DecodeError::ContentMismatch),
            }
        } else if same_text(t, "maplist") {
            if is_empty_payload(payload) {
                Ok(ServerMessageType::Maplist)
            } else {
                Err(DecodeError::ContentMismatch)
            }
        } else {
            Err(DecodeError::UnknownTag)
        }
    }
}

/// What the client sends.
#[derive(Debug, Clone, PartialEq, Eq, Hash)]
pub enum ClientMessageType {
    LoginRequest(ProtocolVersion),
    LoginPassword(String),
    Command(String),
    Maplist,
}

/// What a `ClientMessageType` stands for.
pub enum ClientContent {
    LoginRequest(ProtocolVersion),
    LoginPassword(Seq<char>),
    Command(Seq<char>),
    Maplist,
}

impl View for ClientMessageType {
    type V = ClientContent;

    open spec fn view(&self) -> ClientContent {
        match self {
            ClientMessageType::LoginRequest(v) => ClientContent::LoginRequest(*v),
            ClientMessageType::LoginPassword(s) => ClientContent::LoginPassword(s@),
            ClientMessageType::Command(s) => ClientContent::Command(s@),
            ClientMessageType::Maplist => ClientContent::Maplist,
        }
    }
}

impl Sealed for ClientMessageType {
}

impl MessageContent for ClientMessageType {
    open spec fn tag_of(c: ClientContent) -> Seq<char> {
        match c {
            ClientContent::LoginRequest(_) => "login_request"@,
            ClientContent::LoginPassword(_) => "login_password"@,
            ClientContent::Command(_) => "command"@,
            ClientContent::Maplist => "maplist"@,
        }
    }

    open spec fn payload_of(c: ClientContent) -> Option<JsonValue> {
        match c {
            ClientContent::LoginRequest(v) => Some(JsonValue::Str(v.text_spec())),
            ClientContent::LoginPassword(s) => Some(JsonValue::Str(s)),
            ClientContent::Command(s) => Some(JsonValue::Str(s)),
            ClientContent::Maplist => None,
        }
    }

    open spec fn decode_members(tag: Option<JsonValue>, payload: Option<JsonValue>) -> Result<
        ClientContent,
        DecodeError,
    > {
        match tag {
            None => Err(DecodeError::MissingTag),
            Some(JsonValue::Str(t)) => if t == "login_request"@ {
                match payload {
                    Some(JsonValue::Str(s)) => match ProtocolVersion::decode_spec(s) {
                        Some(v) => Ok(ClientContent::LoginRequest(v)),
                        None => Err(DecodeError::ContentMismatch),
                    },
                    _ => Err(DecodeError::ContentMismatch),
                }
            } else if t == "login_password"@ {
                match payload {
                    Some(JsonValue::Str(s)) => Ok(ClientContent::LoginPassword(s)),
                    _ => Err(DecodeError::ContentMismatch),
                }
            } else if t == "command"@ {
                match payload {
                    Some(JsonValue::Str(s)) => Ok(ClientContent::Command(s)),
                    _ => Err(DecodeError::ContentMismatch),
                }
            } else if t == "maplist"@ {
                if empty_payload(payload) {
                    Ok(ClientContent::Maplist)
                } else {
                    Err(DecodeError::ContentMismatch)
                }
            } else {
                Err(DecodeError::UnknownTag)
            },
            Some(_) => Err(DecodeError::UnknownTag),
        }
    }

    proof fn lemma_members_round_trip(c: ClientContent) {
        reveal_strlit("login_request");
        reveal_strlit("login_password");
        reveal_strlit("command");
        reveal_strlit("maplist");
        assert("login_request"@.len() == 13);
        assert("login_password"@.len() == 14);
        assert("command"@.len() == 7);
        assert("maplist"@.len() == 7);
        assert("command"@[0] != "maplist"@[0]);
        if let ClientContent::LoginRequest(v) = c {
            v.lemma_text_round_trip();
        }
    }

    fn tag(&self) -> (r: &'static str) {
        match self {
            ClientMessageType::LoginRequest(_) => "login_request",
            ClientMessageType::LoginPassword(_) => "login_password",
            ClientMessageType::Command(_) => "command",
            ClientMessageType::Maplist => "maplist",
        }
    }

    fn payload(&self) -> (r: Option<serde_json::Value>) {
        match self {
            ClientMessageType::LoginRequest(v) => Some(json_string(v.encode())),
            ClientMessageType::LoginPassword(s) => Some(json_string(s.clone())),
            ClientMessageType::Command(s) => Some(json_string(s.clone())),
            ClientMessageType::Maplist => None,
        }
    }

    fn decode(tag: Option<&serde_json::Value>, payload: Option<&serde_json::Value>) -> (r: Result<
        ClientMessageType,
        DecodeError,
    >) {
        let t = match tag {
            None => return Err(DecodeError::MissingTag),
            Some(v) => match v.as_str() {
                Some(t) => t,
                None => return Err(DecodeError::UnknownTag),
            },
        };
        let is_request = same_text(t, "login_request");
        let is_password = same_text(t, "login_password");
        let is_command = same_text(t, "command");
        if !(is_request || is_password || is_command) {
            return if !same_text(t, "maplist") {
                Err(DecodeError::UnknownTag)
            } else if is_empty_payload(payload) {
                Ok(ClientMessageType::Maplist)
            } else {
                Err(DecodeError::ContentMismatch)
            };
        }
        let text = match payload {
            Some(p) => match p.as_str() {
                Some(x) => x,
                None => return Err(DecodeError::ContentMismatch),
            },
            None => return Err(DecodeError::ContentMismatch),
        };
        if is_request {
            match ProtocolVersion::decode(text) {
                Some(v) => Ok(ClientMessageType::LoginRequest(v)),
                None => Err(DecodeError::ContentMismatch),
            }
        } else if is_password {
            Ok(ClientMessageType::LoginPassword(text.to_owned()))
        } else {
            Ok(ClientMessageType::Command(text.to_owned()))
        }
    }
}

/// An envelope: content and an identifier.
#[derive(Debug, Clone, PartialEq, Eq, Hash)]
pub struct Message<T: MessageContent> {
    pub content: T,
    pub id: usize,
}

/// What a `Message` stands for: its content's model and its identifier.
pub struct MessageModel<C> {
    pub content: C,
    pub id: nat,
}

impl<T: MessageContent> View for Message<T> {
    type V = MessageModel<T::V>;

    open spec fn view(&self) -> MessageModel<T::V> {
        MessageModel { content: self.content@, id: self.id as nat }
    }
}

pub type ServerMessage = Message<ServerMessageType>;

pub type ClientMessage = Message<ClientMessageType>;

impl<T: MessageContent> Message<T> {
    /// The JSON object of an envelope: `type`, then `content` where the
    /// content has a payload, then `id`.
    pub open spec fn document_of(m: MessageModel<T::V>) -> JsonValue {
        let tagged = Map::<Seq<char>, JsonValue>::empty().insert(
            "type"@,
            JsonValue::Str(T::tag_of(m.content)),
        );
        let with_payload = match T::payload_of(m.content) {
            Some(p) => tagged.insert("content"@, p),
            None => tagged,
        };
        JsonValue::Object(with_payload.insert("id"@, JsonValue::Int(m.id as int)))
    }

    /// The message that a document makes, or why it makes none; `None` stands
    /// for a text that is no JSON document.
    pub open spec fn decode_document(doc: Option<JsonValue>) -> Result<
        MessageModel<T::V>,
        DecodeError,
    > {
        match doc {
            None => Err(DecodeError::NotJson),
            Some(d) => if !(d is Object) {
                Err(DecodeError::NotObject)
            } else {
                match T::decode_members(member_of(d, "type"@), member_of(d, "content"@)) {
                    Err(e) => Err(e),
                    Ok(content) => match member_of(d, "id"@) {
                        None => Err(DecodeError::MissingId),
                        Some(JsonValue::Int(i)) => if 0 <= i <= usize::MAX {
                            Ok(MessageModel { content, id: i as nat })
                        } else {
                            Err(DecodeError::InvalidId)
                        },
                        Some(_) => Err(DecodeError::InvalidId),
                    },
                }
            },
        }
    }

    /// Wraps content in an envelope with the counter's next identifier.
    pub fn new(content: T, ids: &mut IdCounter) -> (r: Self)
        requires
            old(ids)@ < usize::MAX,
        ensures
            r.content == content,
            r.id == old(ids)@,
            final(ids)@ == old(ids)@ + 1,
    {
        let id = ids.take();
        Message { content, id }
    }

    /// The envelope as compact JSON text.
    pub fn serialize(&self) -> (r: String)
        ensures
            r@ == json_text(Self::document_of(self@)),
            json_read(r@) == Some(Self::document_of(self@)),
            forall|s: Seq<char>|
                #[trigger] has_string_member(Self::document_of(self@), s) && escape_free(s)
                    ==> contains_text(r@, s),
    {
        let ghost m = self@;
        proof {
            T::lemma_members_round_trip(m.content);
            lemma_keys_distinct();
        }
        let mut members: Vec<(String, serde_json::Value)> = Vec::new();
        members.push(("type".to_owned(), json_string(self.content.tag().to_owned())));
        // the object's map, unfolded one member at a time
        let ghost tagged = members_map(members@);
        proof {
            assert(members@.drop_last() =~= Seq::<(String, serde_json::Value)>::empty());
            assert(members_map(members@.drop_last()) == Map::<Seq<char>, JsonValue>::empty());
        }
        match self.content.payload() {
            Some(p) => {
                let ghost before = members@;
                members.push(("content".to_owned(), p));
                assert(members@.drop_last() == before);
            },
            None => {},
        }
        let ghost with_payload = members_map(members@);
        let ghost before = members@;
        members.push(("id".to_owned(), json_number(self.id as u64)));
        proof {
            assert(members@.drop_last() == before);
            assert(distinct_keys(members@));
        }
        let v = json_object(members);
        proof {
            let d = json_model(v);
            assert(d == Self::document_of(m));
            if let JsonValue::Object(map) = d {
                assert forall|k: Seq<char>| map.contains_key(k) implies plain_within(
                    #[trigger] map[k],
                    7,
                ) by {
                    if k != "id"@ && k != "type"@ {
                        assert(k == "content"@);
                    }
                }
            }
        }
        write_json(&v)
    }

    /// Reads one envelope from a text.
    pub fn parse(text: &str) -> (r: Result<Self, DecodeError>)
        ensures
            match r {
                Ok(m) => Self::decode_document(json_read(text@)) == Ok::<
                    MessageModel<T::V>,
                    DecodeError,
                >(m@),
                Err(e) => Self::decode_document(json_read(text@)) == Err::<
                    MessageModel<T::V>,
                    DecodeError,
                >(e),
            },
    {
        let doc = match read_json(text) {
            Some(d) => d,
            None => return Err(DecodeError::NotJson),
        };
        if !doc.is_object() {
            return Err(DecodeError::NotObject);
        }
        let content = match T::decode(member(&doc, "type"), member(&doc, "content")) {
            Ok(c) => c,
            Err(e) => return Err(e),
        };
        let id = match member(&doc, "id") {
            None => return Err(DecodeError::MissingId),
            Some(v) => match v.as_u64() {
                Some(n) => if n <= usize::MAX as u64 {
                    n as usize
                } else {
                    return Err(DecodeError::InvalidId);
                },
                None => return Err(DecodeError::InvalidId),
            },
        };
        Ok(Message { content, id })
    }
}

impl<T: MessageContent> std::str::FromStr for Message<T> {
    type Err = DecodeError;

    fn from_str(s: &str) -> Result<Self, DecodeError> {
        Self::parse(s)
    }
}

/// Parsing what `serialize` writes gives the message back: any text that reads
/// as a message's document decodes to that message.
pub proof fn lemma_parse_serialize<T: MessageContent>(m: MessageModel<T::V>, text: Seq<char>)
    requires
        m.id <= usize::MAX,
        json_read(text) == Some(Message::<T>::document_of(m)),
    ensures
        Message::<T>::decode_document(json_read(text)) == Ok::<MessageModel<T::V>, DecodeError>(m),
{
    T::lemma_members_round_trip(m.content);
    lemma_keys_distinct();
    let d = Message::<T>::document_of(m);
    assert(member_of(d, "type"@) == Some(JsonValue::Str(T::tag_of(m.content))));
    assert(member_of(d, "content"@) == T::payload_of(m.content));
    assert(member_of(d, "id"@) == Some(JsonValue::Int(m.id as int)));
}

/// An object is refused when its tag or payload is refused, then when it has
/// no `id`, then when its `id` is no non-negative integer that fits in `usize`.
pub proof fn lemma_parse_refuses<T: MessageContent>(doc: JsonValue)
    requires
        doc is Object,
    ensures
        T::decode_members(member_of(doc, "type"@), member_of(doc, "content"@)) matches Err(e)
            ==> Message::<T>::decode_document(Some(doc)) == Err::<MessageModel<T::V>, DecodeError>(
            e,
        ),
        T::decode_members(member_of(doc, "type"@), member_of(doc, "content"@)) is Ok && member_of(
            doc,
            "id"@,
        ) is None ==> Message::<T>::decode_document(Some(doc)) == Err::<
            MessageModel<T::V>,
            DecodeError,
        >(DecodeError::MissingId),
        T::decode_members(member_of(doc, "type"@), member_of(doc, "content"@)) is Ok && member_of(
            doc,
            "id"@,
        ) is Some && !(member_of(doc, "id"@)->Some_0 is Int && 0 <= member_of(doc, "id"@)->Some_0->Int_0
            <= usize::MAX) ==> Message::<T>::decode_document(Some(doc)) == Err::<MessageModel<T::V>, DecodeError>(
            DecodeError::InvalidId,
        ),
{
}

/// The tags of the server's content.
pub open spec fn is_server_tag(t: Seq<char>) -> bool {
    t == "login_response"@ || t == "login_failure"@ || t == "login_success"@ || t == "print"@ || t
        == "maplist"@
}

/// The tags of the client's content.
pub open spec fn is_client_tag(t: Seq<char>) -> bool {
    t == "login_request"@ || t == "login_password"@ || t == "command"@ || t == "maplist"@
}

/// A tag that is no text, or no tag of the direction, is refused as unknown;
/// a payload that does not fit a known tag is refused as a mismatch.
pub proof fn lemma_tags_refused(tag: JsonValue, payload: Option<JsonValue>)
    ensures
        !(tag is Str) ==> ServerMessageType::decode_members(Some(tag), payload) == Err::<
            ServerContent,
            DecodeError,
        >(DecodeError::UnknownTag),
        !(tag is Str) ==> ClientMessageType::decode_members(Some(tag), payload) == Err::<
            ClientContent,
            DecodeError,
        >(DecodeError::UnknownTag),
        tag is Str && !is_server_tag(tag->Str_0) ==> ServerMessageType::decode_members(
            Some(tag),
            payload,
        ) == Err::<ServerContent, DecodeError>(DecodeError::UnknownTag),
        tag is Str && !is_client_tag(tag->Str_0) ==> ClientMessageType::decode_members(
            Some(tag),
            payload,
        ) == Err::<ClientContent, DecodeError>(DecodeError::UnknownTag),
        tag is Str && is_server_tag(tag->Str_0) && ServerMessageType::decode_members(
            Some(tag),
            payload,
        ) is Err ==> ServerMessageType::decode_members(Some(tag), payload) == Err::<
            ServerContent,
            DecodeError,
        >(DecodeError::ContentMismatch),
        tag is Str && is_client_tag(tag->Str_0) && ClientMessageType::decode_members(
            Some(tag),
            payload,
        ) is Err ==> ClientMessageType::decode_members(Some(tag), payload) == Err::<
            ClientContent,
            DecodeError,
        >(DecodeError::ContentMismatch),
{
}

} // verus!
