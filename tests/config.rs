use odarcon::config::{filter_port, verify_port, ProtocolVersion, ServerConfig, DEFAULT_PORT};
use odarcon::protocol;

#[test]
fn server_config_default() {
    let c = ServerConfig::default();
    assert_eq!(c.name, "");
    assert_eq!(c.host, "");
    assert_eq!(c.port, 10666);
    assert_eq!(c.password, "");
    assert_eq!(c.protoversion, ProtocolVersion::Latest);
}

#[test]
fn setting_text_of_versions() {
    assert_eq!(ProtocolVersion::from_setting("latest"), Some(ProtocolVersion::Latest));
    assert_eq!(
        ProtocolVersion::from_setting("1.0.0"),
        Some(ProtocolVersion::Custom { major: 1, minor: 0, revision: 0 })
    );
    assert_eq!(ProtocolVersion::from_setting("Latest"), None);
    assert_eq!(ProtocolVersion::from_setting("1.0"), None);
    let v = ProtocolVersion::Custom { major: 3, minor: 20, revision: 1 };
    assert_eq!(v.to_setting(), "3.20.1");
    assert_eq!(ProtocolVersion::Latest.to_setting(), "latest");
    assert_eq!(ProtocolVersion::from_setting(&v.to_setting()), Some(v));
}

#[test]
fn version_labels_and_resolution() {
    assert_eq!(ProtocolVersion::Latest.label(), "latest (1.0.0)");
    assert_eq!(ProtocolVersion::Custom { major: 2, minor: 1, revision: 0 }.label(), "2.1.0");
    let wire: protocol::ProtocolVersion = ProtocolVersion::Latest.into();
    assert_eq!(wire, protocol::ProtocolVersion { major: 1, minor: 0, revision: 0 });
    let wire = protocol::ProtocolVersion::from(ProtocolVersion::Custom { major: 4, minor: 5, revision: 6 });
    assert_eq!(wire, protocol::ProtocolVersion { major: 4, minor: 5, revision: 6 });
}

#[test]
fn port_field_keeps_five_digits() {
    assert_eq!(filter_port("1a2b3"), "123");
    assert_eq!(filter_port("1234567"), "12345");
    assert_eq!(filter_port(""), "");
    assert_eq!(filter_port("x-1.5"), "15");
}

#[test]
fn port_field_value() {
    assert_eq!(verify_port(""), Some(DEFAULT_PORT));
    assert_eq!(verify_port("10667"), Some(10667));
    assert_eq!(verify_port("0"), Some(0));
    assert_eq!(verify_port("65535"), Some(65535));
    assert_eq!(verify_port("65536"), None);
    assert_eq!(verify_port("99999"), None);
    assert_eq!(verify_port("+80"), Some(80));
    assert_eq!(verify_port("+"), None);
    assert_eq!(verify_port("++80"), None);
    assert_eq!(verify_port("-80"), None);
    assert_eq!(verify_port("+65536"), None);
}

#[test]
fn edit_form_makes_an_entry() {
    let entry = odarcon::config::entry_from_form(
        "A cool server",
        "1.2.3.4",
        "10667",
        "",
        "verysecure",
        ProtocolVersion::Latest,
    )
    .unwrap();
    assert_eq!(entry.name, "A cool server");
    assert_eq!(entry.host, "1.2.3.4");
    assert_eq!(entry.port, 10667);
    assert_eq!(entry.password, "verysecure");
    let entry = odarcon::config::entry_from_form("n", "h", "", "new", "old", ProtocolVersion::Latest).unwrap();
    assert_eq!(entry.port, 10666);
    assert_eq!(entry.password, "new");
    assert_eq!(
        odarcon::config::entry_from_form("n", "h", "70000", "", "", ProtocolVersion::Latest),
        None
    );
}

#[test]
fn edited_entry_replaces_or_appends() {
    let mut servers = vec![ServerConfig::default()];
    let mut edited = ServerConfig::default();
    edited.name = "renamed".to_string();
    odarcon::config::store_entry(&mut servers, Some(0), edited.clone());
    assert_eq!(servers, vec![edited.clone()]);
    odarcon::config::store_entry(&mut servers, None, ServerConfig::default());
    assert_eq!(servers.len(), 2);
    assert_eq!(servers[0], edited);
    assert_eq!(servers[1], ServerConfig::default());
}
