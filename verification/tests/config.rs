use recsync::config::{BackendConfig, Config, Settings};
use recsync::text::{contains_text, parse_u16, split_first};
use recsync::types::ServerKey;

fn settings(bind: Option<&str>, procs: Option<&str>, db_name: Option<&str>) -> Settings {
    Settings {
        bind: bind.map(|s| s.to_string()),
        procs: procs.map(|s| s.to_string()),
        db_name: db_name.map(|s| s.to_string()),
        cf_url: None,
        cf_user: None,
    }
}

#[test]
fn defaults_without_settings() {
    let c = Config::from_settings(&settings(None, None, None));
    assert_eq!(c.server_ip, "0.0.0.0");
    assert_eq!(c.server_port, 5051);
    assert_eq!(c.server_key, ServerKey(12345));
    assert!(matches!(c.backend, BackendConfig::Mock));
}

#[test]
fn sqlite_backend_from_procs() {
    let c = Config::from_settings(&settings(Some("127.0.0.1:6000"), Some("show, db"), Some("x.db")));
    assert_eq!(c.server_ip, "127.0.0.1");
    assert_eq!(c.server_port, 6000);
    match c.backend {
        BackendConfig::Sqlite { db_url } => assert_eq!(db_url, "sqlite://x.db"),
        _ => panic!("expected sqlite"),
    }
    let c = Config::from_settings(&settings(None, Some("db"), None));
    match c.backend {
        BackendConfig::Sqlite { db_url } => assert_eq!(db_url, "sqlite://recceiver.db"),
        _ => panic!("expected sqlite"),
    }
}

#[test]
fn channelfinder_backend_from_procs() {
    let c = Config::from_settings(&settings(None, Some("cf"), None));
    match c.backend {
        BackendConfig::ChannelFinder { base_url, username } => {
            assert_eq!(base_url, "http://localhost:8080/ChannelFinder");
            assert_eq!(username, "cfstore");
        }
        _ => panic!("expected channelfinder"),
    }
    let mut s = settings(None, Some("cf"), None);
    s.cf_url = Some("http://cf:9000".to_string());
    s.cf_user = Some("admin".to_string());
    match Config::from_settings(&s).backend {
        BackendConfig::ChannelFinder { base_url, username } => {
            assert_eq!(base_url, "http://cf:9000");
            assert_eq!(username, "admin");
        }
        _ => panic!("expected channelfinder"),
    }
}

#[test]
fn other_procs_give_the_mock() {
    let c = Config::from_settings(&settings(None, Some("show"), None));
    assert!(matches!(c.backend, BackendConfig::Mock));
}

#[test]
fn bind_address_variants() {
    let c = Config::from_settings(&settings(Some("host"), None, None));
    assert_eq!(c.server_ip, "host");
    assert_eq!(c.server_port, 5051);
    let c = Config::from_settings(&settings(Some("h:abc"), None, None));
    assert_eq!(c.server_ip, "h");
    assert_eq!(c.server_port, 5051);
    let c = Config::from_settings(&settings(Some("h:+80"), None, None));
    assert_eq!(c.server_port, 80);
    let c = Config::from_settings(&settings(Some("h:70000"), None, None));
    assert_eq!(c.server_port, 5051);
    let c = Config::from_settings(&settings(Some("h:1:2"), None, None));
    assert_eq!(c.server_port, 1);
    let c = Config::from_settings(&settings(Some(":9"), None, None));
    assert_eq!(c.server_ip, "");
    assert_eq!(c.server_port, 9);
}

#[test]
fn parse_u16_matches_std() {
    for t in ["0", "65535", "65536", "", "+", "+1", "-1", "007", "12a", "99999999999", "٣"] {
        assert_eq!(parse_u16(t), t.parse::<u16>().ok(), "text {:?}", t);
    }
}

#[test]
fn split_and_contains() {
    assert_eq!(split_first("a:b:c", ':'), ("a", Some("b:c")));
    assert_eq!(split_first("abc", ':'), ("abc", None));
    assert_eq!(split_first(":", ':'), ("", Some("")));
    assert!(contains_text("xdbx", "db"));
    assert!(!contains_text("d b", "db"));
    assert!(contains_text("abc", ""));
    assert!(!contains_text("d", "db"));
}
