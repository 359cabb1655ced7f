use odarcon::protocol::{
    ClientMessage, ClientMessageType, DecodeError, IdCounter, Message, PrintLevel, ProtocolVersion,
    ServerMessage, ServerMessageType,
};
use serde_json::Value;

fn object(members: Vec<(&str, Value)>) -> Value {
    let mut map = serde_json::Map::new();
    for (key, value) in members {
        map.insert(key.to_string(), value);
    }
    Value::Object(map)
}

fn text(s: &str) -> Value {
    Value::String(s.to_string())
}

fn number(n: u64) -> Value {
    Value::from(n)
}

#[test]
fn deserialize_print() {
    let json = object(vec![
        ("type", text("print")),
        ("id", number(2)),
        ("content", object(vec![("printlevel", text("high")), ("text", text("Hello, world!"))])),
    ]);
    let parsed = ServerMessage::parse(&json.to_string()).unwrap();
    assert_eq!(
        parsed,
        ServerMessage {
            content: ServerMessageType::Print {
                printlevel: PrintLevel::High,
                text: "Hello, world!".to_string()
            },
            id: 2,
        }
    );
}

#[test]
fn deserialize_login_response() {
    let json = object(vec![
        ("type", text("login_response")),
        ("id", number(2)),
        ("content", number(2345234)),
    ]);
    let parsed = ServerMessage::parse(&json.to_string()).unwrap();
    assert_eq!(
        parsed,
        ServerMessage {
            content: ServerMessageType::LoginResponse(2345234),
            id: 2,
        }
    );
}

#[test]
fn deserialize_login_success() {
    let json = object(vec![
        ("type", text("login_success")),
        ("id", number(2)),
        ("content", Value::Null),
    ]);
    let parsed = ServerMessage::parse(&json.to_string()).unwrap();
    assert_eq!(
        parsed,
        ServerMessage {
            content: ServerMessageType::LoginSuccess,
            id: 2,
        }
    );
}

#[test]
fn deserialize_login_failure() {
    let json = object(vec![
        ("type", text("login_failure")),
        ("id", number(2)),
        ("content", text("wrong password dude")),
    ]);
    let parsed = ServerMessage::parse(&json.to_string()).unwrap();
    assert_eq!(
        parsed,
        ServerMessage {
            content: ServerMessageType::LoginFailure("wrong password dude".to_string()),
            id: 2,
        }
    );
}

#[test]
fn deserialize_print_string() {
    let json = r#"{
            "type": "print",
            "id": 2,
            "content": {
                "printlevel": "high",
                "text": "Hello, world!"
            }
        }"#;
    let parsed = json.parse::<ServerMessage>().unwrap();
    assert_eq!(
        parsed,
        ServerMessage {
            content: ServerMessageType::Print {
                printlevel: PrintLevel::High,
                text: "Hello, world!".to_string()
            },
            id: 2,
        }
    );
}

#[test]
fn deserialize_login_response_string() {
    let json = r#"{
            "type": "login_response",
            "id": 2,
            "content": 2345234
        }"#;
    let parsed = json.parse::<ServerMessage>().unwrap();
    assert_eq!(
        parsed,
        ServerMessage {
            content: ServerMessageType::LoginResponse(2345234),
            id: 2,
        }
    );
}

#[test]
fn deserialize_login_success_string() {
    let json = r#"{
            "type": "login_success",
            "id": 2,
            "content": null
        }"#;
    let parsed = json.parse::<ServerMessage>().unwrap();
    assert_eq!(
        parsed,
        ServerMessage {
            content: ServerMessageType::LoginSuccess,
            id: 2,
        }
    );
}

#[test]
fn deserialize_login_failure_string() {
    let json = r#"{
            "type": "login_failure",
            "id": 2,
            "content": "wrong password dude"
        }"#;
    let parsed = json.parse::<ServerMessage>().unwrap();
    assert_eq!(
        parsed,
        ServerMessage {
            content: ServerMessageType::LoginFailure("wrong password dude".to_string()),
            id: 2,
        }
    );
}

#[test]
fn serialize_command() {
    let message = ClientMessage {
        content: ClientMessageType::Command("echo hello".to_string()),
        id: 1,
    };
    let json: Value = serde_json::from_str(&message.serialize()).unwrap();
    assert_eq!(
        json,
        object(vec![
            ("type", text("command")),
            ("id", number(1)),
            ("content", text("echo hello")),
        ])
    );
}

#[test]
fn serialize_login_request() {
    let message = ClientMessage {
        content: ClientMessageType::LoginRequest(ProtocolVersion {
            major: 1,
            minor: 0,
            revision: 0,
        }),
        id: 5,
    };
    let json: Value = serde_json::from_str(&message.serialize()).unwrap();
    assert_eq!(
        json,
        object(vec![
            ("type", text("login_request")),
            ("id", number(5)),
            ("content", text("1.0.0")),
        ])
    );
}

#[test]
fn serialize_login_password() {
    let message = ClientMessage {
        content: ClientMessageType::LoginPassword("password".to_string()),
        id: 20,
    };
    let json: Value = serde_json::from_str(&message.serialize()).unwrap();
    assert_eq!(
        json,
        object(vec![
            ("type", text("login_password")),
            ("id", number(20)),
            ("content", text("password")),
        ])
    );
}

#[test]
fn serialize_maplist_leaves_out_content() {
    let message = ClientMessage {
        content: ClientMessageType::Maplist,
        id: 3,
    };
    let json: Value = serde_json::from_str(&message.serialize()).unwrap();
    assert_eq!(json, object(vec![("type", text("maplist")), ("id", number(3))]));
}

#[test]
fn serialize_print_payload() {
    let message = ServerMessage {
        content: ServerMessageType::Print {
            printlevel: PrintLevel::TeamChat,
            text: "go \"left\"\n".to_string(),
        },
        id: 7,
    };
    let json: Value = serde_json::from_str(&message.serialize()).unwrap();
    assert_eq!(
        json,
        object(vec![
            ("type", text("print")),
            ("id", number(7)),
            (
                "content",
                object(vec![("printlevel", text("teamchat")), ("text", text("go \"left\"\n"))])
            ),
        ])
    );
}

#[test]
fn round_trip_every_client_variant() {
    let contents = vec![
        ClientMessageType::LoginRequest(ProtocolVersion {
            major: 255,
            minor: 7,
            revision: 10,
        }),
        ClientMessageType::LoginPassword("pässword \u{1F600}".to_string()),
        ClientMessageType::Command("say \"hi\"\\n".to_string()),
        ClientMessageType::Command(String::new()),
        ClientMessageType::Maplist,
    ];
    for (i, content) in contents.into_iter().enumerate() {
        let message = ClientMessage { content, id: i * 1000 };
        assert_eq!(ClientMessage::parse(&message.serialize()), Ok(message.clone()));
    }
}

#[test]
fn round_trip_every_server_variant() {
    let mut contents = vec![
        ServerMessageType::LoginResponse(u64::MAX),
        ServerMessageType::LoginResponse(0),
        ServerMessageType::LoginFailure("bad password".to_string()),
        ServerMessageType::LoginSuccess,
        ServerMessageType::Maplist,
    ];
    let levels = [
        PrintLevel::Pickup,
        PrintLevel::Obituary,
        PrintLevel::High,
        PrintLevel::Chat,
        PrintLevel::TeamChat,
        PrintLevel::ServerChat,
        PrintLevel::Warning,
        PrintLevel::Error,
    ];
    for level in levels {
        contents.push(ServerMessageType::Print {
            printlevel: level,
            text: format!("{:?} line\t\u{7}", level),
        });
    }
    for content in contents {
        let message = ServerMessage { content, id: usize::MAX };
        assert_eq!(ServerMessage::parse(&message.serialize()), Ok(message.clone()));
    }
}

#[test]
fn print_level_names() {
    assert_eq!(PrintLevel::TeamChat.name(), "teamchat");
    assert_eq!(PrintLevel::ServerChat.name(), "serverchat");
    assert_eq!(PrintLevel::from_name("obituary"), Some(PrintLevel::Obituary));
    assert_eq!(PrintLevel::from_name("High"), None);
    assert_eq!(PrintLevel::from_name("team_chat"), None);
}

#[test]
fn parse_refuses_unknown_tag() {
    let r = ServerMessage::parse(r#"{"type":"teleport","id":1}"#);
    assert_eq!(r, Err(DecodeError::UnknownTag));
    let r = ClientMessage::parse(r#"{"type":"print","id":1,"content":"x"}"#);
    assert_eq!(r, Err(DecodeError::UnknownTag));
    let r = ServerMessage::parse(r#"{"type":3,"id":1}"#);
    assert_eq!(r, Err(DecodeError::UnknownTag));
    let r = ServerMessage::parse(r#"{"id":1}"#);
    assert_eq!(r, Err(DecodeError::MissingTag));
}

#[test]
fn parse_refuses_payload_of_wrong_shape() {
    let cases = [
        r#"{"type":"login_response","id":1,"content":"12"}"#,
        r#"{"type":"login_response","id":1,"content":-12}"#,
        r#"{"type":"login_response","id":1}"#,
        r#"{"type":"login_failure","id":1,"content":5}"#,
        r#"{"type":"login_success","id":1,"content":"x"}"#,
        r#"{"type":"print","id":1,"content":"Hello"}"#,
        r#"{"type":"print","id":1,"content":{"printlevel":"loud","text":"x"}}"#,
        r#"{"type":"print","id":1,"content":{"printlevel":"high"}}"#,
    ];
    for case in cases {
        assert_eq!(ServerMessage::parse(case), Err(DecodeError::ContentMismatch), "{}", case);
    }
    let r = ClientMessage::parse(r#"{"type":"login_request","id":1,"content":"1.0"}"#);
    assert_eq!(r, Err(DecodeError::ContentMismatch));
    let r = ClientMessage::parse(r#"{"type":"command","id":1,"content":null}"#);
    assert_eq!(r, Err(DecodeError::ContentMismatch));
}

#[test]
fn parse_refuses_missing_or_bad_id() {
    assert_eq!(
        ServerMessage::parse(r#"{"type":"login_success"}"#),
        Err(DecodeError::MissingId)
    );
    for id in ["1.5", "-1", "\"2\"", "null", "18446744073709551616", "2e0"] {
        let text = format!(r#"{{"type":"login_success","id":{}}}"#, id);
        assert_eq!(ServerMessage::parse(&text), Err(DecodeError::InvalidId), "{}", text);
    }
}

#[test]
fn parse_refuses_other_documents() {
    assert_eq!(ServerMessage::parse("not json"), Err(DecodeError::NotJson));
    assert_eq!(ServerMessage::parse(""), Err(DecodeError::NotJson));
    assert_eq!(
        ServerMessage::parse(r#"{"type":"maplist","id":1} trailing"#),
        Err(DecodeError::NotJson)
    );
    assert_eq!(ServerMessage::parse("[1,2]"), Err(DecodeError::NotObject));
    assert_eq!(ServerMessage::parse("\"print\""), Err(DecodeError::NotObject));
}

#[test]
fn parse_accepts_unit_content_left_out_and_extra_members() {
    assert_eq!(
        ServerMessage::parse(r#"{"type":"maplist","id":4,"extra":[1]}"#),
        Ok(ServerMessage { content: ServerMessageType::Maplist, id: 4 })
    );
}

#[test]
fn protocol_version_decode() {
    assert_eq!(
        ProtocolVersion::decode("1.0.0"),
        Some(ProtocolVersion { major: 1, minor: 0, revision: 0 })
    );
    assert_eq!(
        ProtocolVersion::decode("255.010.9"),
        Some(ProtocolVersion { major: 255, minor: 10, revision: 9 })
    );
    for bad in ["1.0", "1.0.0.0", "1.0.256", "a.0.0", "", "1..0", "+1.0.0", "1.0.-0", " 1.0.0", "1.0.0."] {
        assert_eq!(ProtocolVersion::decode(bad), None, "{}", bad);
    }
}

#[test]
fn protocol_version_encode() {
    let v = ProtocolVersion { major: 12, minor: 0, revision: 255 };
    assert_eq!(v.encode(), "12.0.255");
    assert_eq!(ProtocolVersion::decode(&v.encode()), Some(v));
    assert_eq!(ProtocolVersion::latest().encode(), "1.0.0");
}

#[test]
fn ids_count_up_from_zero() {
    let mut ids = IdCounter::new();
    let a = Message::new(ClientMessageType::Maplist, &mut ids);
    let b = Message::new(ClientMessageType::Command("x".to_string()), &mut ids);
    assert_eq!(a.id, 0);
    assert_eq!(b.id, 1);
    assert!(ids.can_take());
}

#[test]
fn decode_error_descriptions() {
    assert_eq!(DecodeError::MissingId.description(), "missing field `id`");
    assert_ne!(DecodeError::NotJson.description(), DecodeError::NotObject.description());
}
