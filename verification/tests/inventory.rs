use recsync::channelfinder::cf_channels;
use recsync::inventory::{IpFamily, RecordUpdate, SourceAddress, TextMap, TextSet, Transaction, UpdateMap};
use recsync::storage::{sqlite_statements, DbStatement};
use recsync::types::WireId;

fn v4(ip: &str, port: u16) -> SourceAddress {
    SourceAddress { ip: ip.to_string(), port, family: IpFamily::V4 }
}

#[test]
fn text_map_read_after_write() {
    let mut m = TextMap::new();
    assert_eq!(m.insert("a".to_string(), "1".to_string()), None);
    assert_eq!(m.insert("b".to_string(), "2".to_string()), None);
    assert_eq!(m.insert("a".to_string(), "3".to_string()), Some("1".to_string()));
    assert_eq!(m.len(), 2);
    assert_eq!(m.get("a"), Some(&"3".to_string()));
    assert_eq!(m.get("b"), Some(&"2".to_string()));
    assert_eq!(m.get("c"), None);
    assert_eq!(m.entry(0), (&"a".to_string(), &"3".to_string()));
    let c = m.clone();
    assert_eq!(c.get("b"), Some(&"2".to_string()));
}

#[test]
fn text_set_keeps_one_of_each() {
    let mut s = TextSet::new();
    assert!(s.insert("x".to_string()));
    assert!(!s.insert("x".to_string()));
    assert!(s.insert("y".to_string()));
    assert_eq!(s.len(), 2);
    assert!(s.contains("y"));
    assert!(!s.contains("z"));
}

#[test]
fn update_map_replaces_in_place() {
    let mut m = UpdateMap::new();
    let mut u = RecordUpdate::default();
    u.name = Some("A".to_string());
    assert!(m.insert(WireId(1), u).is_none());
    assert!(m.insert(WireId(2), RecordUpdate::default()).is_none());
    let mut u2 = RecordUpdate::default();
    u2.name = Some("B".to_string());
    let old = m.insert(WireId(1), u2).unwrap();
    assert_eq!(old.name.as_deref(), Some("A"));
    assert_eq!(m.len(), 2);
    assert_eq!(m.entry(0).0, WireId(1));
    assert_eq!(m.get(WireId(1)).unwrap().name.as_deref(), Some("B"));
    assert!(m.get(WireId(3)).is_none());
}

#[test]
fn socket_address_texts() {
    assert_eq!(v4("127.0.0.1", 5050).to_text(), "127.0.0.1:5050");
    let a = SourceAddress { ip: "::1".to_string(), port: 80, family: IpFamily::V6 { scope_id: 0 } };
    assert_eq!(a.to_text(), "[::1]:80");
    let b = SourceAddress { ip: "fe80::1".to_string(), port: 7, family: IpFamily::V6 { scope_id: 3 } };
    assert_eq!(b.to_text(), "[fe80::1%3]:7");
}

fn names_and_values(c: &recsync::channelfinder::CFChannel) -> Vec<(String, String)> {
    c.properties.iter().map(|p| (p.name.clone(), p.value.clone())).collect()
}

#[test]
fn channelfinder_channels_for_a_record() {
    let mut tx = Transaction::new();
    tx.source_address = Some(v4("127.0.0.1", 5050));
    tx.client_infos.insert("HOSTNAME".to_string(), "localhost".to_string());
    tx.client_infos.insert("IOCNAME".to_string(), "test-ioc".to_string());
    let mut update = RecordUpdate::default();
    update.name = Some("TEST:PV".to_string());
    update.rtype = Some("ai".to_string());
    tx.updates.insert(WireId(10), update);

    let channels = cf_channels(&tx, "cfstore", "T").unwrap();
    assert_eq!(channels.len(), 1);
    assert_eq!(channels[0].name, "TEST:PV");
    assert_eq!(channels[0].owner, "cfstore");
    let expected: Vec<(String, String)> = [
        ("hostName", "localhost"),
        ("iocName", "test-ioc"),
        ("iocid", "127.0.0.1:5050"),
        ("iocIP", "127.0.0.1"),
        ("pvStatus", "Active"),
        ("time", "T"),
        ("recordType", "ai"),
    ]
    .iter()
    .map(|(a, b)| (a.to_string(), b.to_string()))
    .collect();
    assert_eq!(names_and_values(&channels[0]), expected);
    assert!(channels[0].properties.iter().all(|p| p.owner == "cfstore"));
}

#[test]
fn channelfinder_aliases_properties_and_deletions() {
    let mut tx = Transaction::new();
    tx.source_address = Some(v4("10.0.0.2", 40000));
    let mut update = RecordUpdate::default();
    update.name = Some("R".to_string());
    update.aliases = vec!["A1".to_string(), "A2".to_string()];
    update.properties.insert("desc".to_string(), "D".to_string());
    tx.updates.insert(WireId(1), update);
    tx.updates.insert(WireId(2), RecordUpdate::default());
    tx.records_to_delete.insert("OLD".to_string());

    let channels = cf_channels(&tx, "me", "now").unwrap();
    let names: Vec<&str> = channels.iter().map(|c| c.name.as_str()).collect();
    assert_eq!(names, vec!["A1", "A2", "R", "OLD"]);
    let alias_props = names_and_values(&channels[0]);
    assert_eq!(alias_props[0], ("hostName".to_string(), "10.0.0.2".to_string()));
    assert_eq!(alias_props[1], ("iocName".to_string(), "40000".to_string()));
    assert_eq!(alias_props.last().unwrap(), &("alias".to_string(), "R".to_string()));
    assert_eq!(alias_props.len(), 7);
    let record_props = names_and_values(&channels[2]);
    assert_eq!(record_props.last().unwrap(), &("desc".to_string(), "D".to_string()));
    assert_eq!(record_props.len(), 7);
    assert_eq!(
        names_and_values(&channels[3]),
        vec![("pvStatus".to_string(), "Inactive".to_string()), ("time".to_string(), "now".to_string())]
    );
}

#[test]
fn channelfinder_skips_transactions_without_address() {
    let tx = Transaction::new();
    assert!(cf_channels(&tx, "me", "now").is_none());
    assert!(sqlite_statements(&tx).is_none());
}

#[test]
fn sqlite_statements_in_order() {
    let mut tx = Transaction::new();
    tx.source_address = Some(v4("127.0.0.1", 12345));
    tx.client_infos.insert("os".to_string(), "linux".to_string());
    let mut update = RecordUpdate::default();
    update.name = Some("TEST:RECORD".to_string());
    update.rtype = Some("ai".to_string());
    update.aliases = vec!["TEST:ALIAS".to_string()];
    update.properties.insert("desc".to_string(), "Test Description".to_string());
    tx.updates.insert(WireId(100), update);
    let mut unnamed = RecordUpdate::default();
    unnamed.rtype = Some("bo".to_string());
    tx.updates.insert(WireId(101), unnamed);
    tx.records_to_delete.insert("GONE".to_string());

    let s = sqlite_statements(&tx).unwrap();
    assert_eq!(s.len(), 6);
    match &s[0] {
        DbStatement::UpsertIoc { name, address } => {
            assert_eq!(name, "127.0.0.1:12345");
            assert_eq!(address, "127.0.0.1:12345");
        }
        _ => panic!("expected the IOC first"),
    }
    assert!(matches!(&s[1], DbStatement::UpsertClientInfo { key, value } if key == "os" && value == "linux"));
    assert!(matches!(&s[2], DbStatement::DeleteRecord { name } if name == "GONE"));
    assert!(matches!(&s[3], DbStatement::UpsertRecord { name, rtype } if name == "TEST:RECORD" && rtype == "ai"));
    assert!(matches!(&s[4], DbStatement::UpsertProperty { key, value } if key == "desc" && value == "Test Description"));
    assert!(matches!(&s[5], DbStatement::InsertAlias { name } if name == "TEST:ALIAS"));
}

#[test]
fn sqlite_record_without_type_gets_empty_type() {
    let mut tx = Transaction::new();
    tx.source_address = Some(v4("1.2.3.4", 1));
    let mut update = RecordUpdate::default();
    update.name = Some("N".to_string());
    tx.updates.insert(WireId(1), update);
    let s = sqlite_statements(&tx).unwrap();
    assert!(matches!(&s[1], DbStatement::UpsertRecord { name, rtype } if name == "N" && rtype.is_empty()));
}
