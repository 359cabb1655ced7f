//! Server entries as the user keeps them.
use vstd::prelude::*;

use crate::protocol;
use crate::text::{digits_of, keep_digits, number_of_text, parse_number};

verus! {

/// The protocol version that a server entry asks for.
#[derive(Debug, Clone, Copy, PartialEq, Eq, Hash, Structural)]
pub enum ProtocolVersion {
    /// Whatever version this library speaks best.
    Latest,
    Custom { major: u8, minor: u8, revision: u8 },
}

impl ProtocolVersion {
    /// The version of the wire protocol that the choice stands for.
    pub open spec fn resolve_spec(self) -> protocol::ProtocolVersion {
        match self {
            ProtocolVersion::Latest => protocol::ProtocolVersion { major: 1, minor: 0, revision: 0 },
            ProtocolVersion::Custom { major, minor, revision } => protocol::ProtocolVersion {
                major,
                minor,
                revision,
            },
        }
    }

    /// The text kept in a settings file: `latest`, or `major.minor.revision`.
    pub open spec fn setting_spec(self) -> Seq<char> {
        match self {
            ProtocolVersion::Latest => "latest"@,
            ProtocolVersion::Custom { .. } => self.resolve_spec().text_spec(),
        }
    }

    pub open spec fn from_setting_spec(s: Seq<char>) -> Option<ProtocolVersion> {
        if s == "latest"@ {
            Some(ProtocolVersion::Latest)
        } else {
            match protocol::ProtocolVersion::decode_spec(s) {
                Some(v) => Some(
                    ProtocolVersion::Custom { major: v.major, minor: v.minor, revision: v.revision },
                ),
                None => None,
            }
        }
    }

    /// The text shown to the user: `latest (1.0.0)`, or `major.minor.revision`.
    pub open spec fn label_spec(self) -> Seq<char> {
        match self {
            ProtocolVersion::Latest => "latest ("@ + self.resolve_spec().text_spec() + ")"@,
            ProtocolVersion::Custom { .. } => self.resolve_spec().text_spec(),
        }
    }

    pub fn resolve(&self) -> (r: protocol::ProtocolVersion)
        ensures
            r == self.resolve_spec(),
    {
        match self {
            ProtocolVersion::Latest => protocol::ProtocolVersion::latest(),
            ProtocolVersion::Custom { major, minor, revision } => protocol::ProtocolVersion {
                major: *major,
                minor: *minor,
                revision: *revision,
            },
        }
    }

    pub fn to_setting(&self) -> (r: String)
        ensures
            r@ == self.setting_spec(),
    {
        match self {
            ProtocolVersion::Latest => "latest".to_owned(),
            ProtocolVersion::Custom { .. } => self.resolve().encode(),
        }
    }

    /// Reads the text kept in a settings file; `None` for anything but
    /// `latest` or a version `major.minor.revision`.
    pub fn from_setting(s: &str) -> (r: Option<ProtocolVersion>)
        ensures
            r == Self::from_setting_spec(s@),
    {
        if crate::text::same_text(s, "latest") {
            Some(ProtocolVersion::Latest)
        } else {
            match protocol::ProtocolVersion::decode(s) {
                Some(v) => Some(
                    ProtocolVersion::Custom { major: v.major, minor: v.minor, revision: v.revision },
                ),
                None => None,
            }
        }
    }

    pub fn label(&self) -> (r: String)
        ensures
            r@ == self.label_spec(),
    {
        let version = self.resolve().encode();
        match self {
            ProtocolVersion::Latest => {
                let mut text = String::new();
                text.append("latest (");
                text.append(version.as_str());
                text.append(")");
                text
            },
            ProtocolVersion::Custom { .. } => version,
        }
    }

    /// Every choice reads back from its own setting text.
    pub proof fn lemma_setting_round_trip(self)
        ensures
            Self::from_setting_spec(self.setting_spec()) == Some(self),
    {
        if let ProtocolVersion::Custom { major, minor, revision } = self {
            let v = self.resolve_spec();
            v.lemma_text_round_trip();
            crate::text::lemma_decimal_digits(major as nat);
            reveal_strlit("latest");
            assert(v.text_spec()[0] == crate::text::decimal(major as nat)[0]);
            assert(v.text_spec() != "latest"@);
        }
    }
}

impl From<ProtocolVersion> for protocol::ProtocolVersion {
    fn from(version: ProtocolVersion) -> (r: protocol::ProtocolVersion) {
        version.resolve()
    }
}

impl vstd::std_specs::convert::FromSpecImpl<ProtocolVersion> for protocol::ProtocolVersion {
    open spec fn obeys_from_spec() -> bool {
        true
    }

    open spec fn from_spec(version: ProtocolVersion) -> protocol::ProtocolVersion {
        version.resolve_spec()
    }
}

/// The port that a console listens on unless told otherwise.
pub const DEFAULT_PORT: u16 = 10666;

/// A server that the user can connect to.
#[derive(Debug, Clone, PartialEq)]
pub struct ServerConfig {
    pub name: String,
    pub host: String,
    pub port: u16,
    pub password: String,
    pub protoversion: ProtocolVersion,
}

impl Default for ServerConfig {
    fn default() -> (r: ServerConfig)
        ensures
            r.name@.len() == 0,
            r.host@.len() == 0,
            r.port == DEFAULT_PORT,
            r.password@.len() == 0,
            r.protoversion == ProtocolVersion::Latest,
    {
        ServerConfig {
            name: String::new(),
            host: String::new(),
            port: DEFAULT_PORT,
            password: String::new(),
            protoversion: ProtocolVersion::Latest,
        }
    }
}

/// What a port field may hold while the user types: its digits, at most five.
pub fn filter_port(content: &str) -> (r: String)
    ensures
        r@ == digits_of(content@).take(
            if digits_of(content@).len() < 5 {
                digits_of(content@).len() as int
            } else {
                5
            },
        ),
{
    keep_digits(content, 5)
}

/// The digits of a port field: the text without one leading `+`.
pub open spec fn port_digits(text: Seq<char>) -> Seq<char> {
    if text.len() > 0 && text[0] == '+' {
        text.drop_first()
    } else {
        text
    }
}

/// The port that a port field gives: the default for an empty field, else
/// its decimal value, after at most one leading `+`, which must be at most
/// 65535.
pub open spec fn port_spec(text: Seq<char>) -> Option<u16> {
    if text.len() == 0 {
        Some(DEFAULT_PORT)
    } else {
        match number_of_text(port_digits(text), 65535) {
            Some(n) => Some(n as u16),
            None => None,
        }
    }
}

pub fn verify_port(text: &str) -> (r: Option<u16>)
    ensures
        r == port_spec(text@),
{
    let len = text.unicode_len();
    if len == 0 {
        return Some(DEFAULT_PORT);
    }
    let digits = if text.get_char(0) == '+' {
        let rest = text.substring_char(1, len);
        assert(rest@ =~= text@.drop_first());
        rest
    } else {
        text
    };
    match parse_number(digits, 65535) {
        Some(n) => Some(n as u16),
        None => None,
    }
}

/// The server entry that an edit form describes; `None` where the port field
/// holds no port. An empty password field keeps the entry's previous password.
pub fn entry_from_form(
    name: &str,
    host: &str,
    port: &str,
    password: &str,
    previous_password: &str,
    protoversion: ProtocolVersion,
) -> (r: Option<ServerConfig>)
    ensures
        port_spec(port@) is None ==> r is None,
        port_spec(port@) is Some ==> {
            &&& r is Some
            &&& r->Some_0.name@ == name@
            &&& r->Some_0.host@ == host@
            &&& r->Some_0.port == port_spec(port@)->Some_0
            &&& r->Some_0.password@ == if password@.len() == 0 {
                previous_password@
            } else {
                password@
            }
            &&& r->Some_0.protoversion == protoversion
        },
{
    let port = match verify_port(port) {
        Some(p) => p,
        None => return None,
    };
    let password = if password.unicode_len() == 0 {
        previous_password.to_owned()
    } else {
        password.to_owned()
    };
    Some(ServerConfig { name: name.to_owned(), host: host.to_owned(), port, password, protoversion })
}

/// Saves an edited entry over the one at `index`, or adds a new entry at the
/// end where there is no index.
pub fn store_entry(servers: &mut Vec<ServerConfig>, index: Option<usize>, server: ServerConfig)
    requires
        index matches Some(i) ==> i < old(servers)@.len(),
    ensures
        index is Some ==> final(servers)@ == old(servers)@.update(index->Some_0 as int, server),
        index is None ==> final(servers)@ == old(servers)@.push(server),
{
    match index {
        Some(i) => {
            servers.set(i, server);
        },
        None => {
            servers.push(server);
        },
    }
}

} // verus!
