use opendisplay::protocol::ASSUMED_WHEN_ABSENT;
use opendisplay::transport::net::{IpAddress, SocketAddress};
use opendisplay::transport::wifi::{
    discover, merge_discovered, parse_service_record, parse_u32, DiscoveredDevice, ServiceRecord, WifiBrowseSource,
};

fn addr() -> SocketAddress {
    SocketAddress { ip: IpAddress::V4([192, 168, 1, 42]), port: 9000 }
}

struct FakeBrowseSource(Vec<ServiceRecord>);

impl WifiBrowseSource for FakeBrowseSource {
    fn discovered(&mut self) -> Vec<ServiceRecord> {
        std::mem::take(&mut self.0)
    }
}

#[test]
fn txt_present_surfaces_id_name_address_and_parsed_pv() {
    let mut source = FakeBrowseSource(vec![ServiceRecord {
        name: "Jose's iPad".into(),
        address: addr(),
        txt: vec![("id".into(), "00008030-ABC".into()), ("pv".into(), "3".into())],
    }]);

    let devices = discover(&mut source);
    assert_eq!(devices.len(), 1);
    assert_eq!(devices[0].id.as_deref(), Some("00008030-ABC"));
    assert_eq!(devices[0].name, "Jose's iPad");
    assert_eq!(devices[0].address, addr());
    assert_eq!(devices[0].pv, 3);
}

#[test]
fn txt_absent_defaults_pv_to_assumed_when_absent_and_id_to_none() {
    let mut source = FakeBrowseSource(vec![ServiceRecord { name: "Old iPhone".into(), address: addr(), txt: vec![] }]);

    let devices = discover(&mut source);
    assert_eq!(devices.len(), 1);
    assert_eq!(devices[0].id, None);
    assert_eq!(devices[0].pv, ASSUMED_WHEN_ABSENT);
}

#[test]
fn malformed_pv_value_defaults_to_assumed_when_absent() {
    let mut source = FakeBrowseSource(vec![ServiceRecord {
        name: "Weird Device".into(),
        address: addr(),
        txt: vec![("pv".into(), "not-a-number".into())],
    }]);

    let devices = discover(&mut source);
    assert_eq!(devices[0].pv, ASSUMED_WHEN_ABSENT);
}

#[test]
fn pv_key_present_but_id_key_absent_yields_none_id() {
    let mut source = FakeBrowseSource(vec![ServiceRecord {
        name: "Partial TXT".into(),
        address: addr(),
        txt: vec![("pv".into(), "2".into())],
    }]);

    let devices = discover(&mut source);
    assert_eq!(devices[0].id, None);
    assert_eq!(devices[0].pv, 2);
}

#[test]
fn the_first_of_repeated_txt_keys_wins() {
    let record = ServiceRecord {
        name: "Dup".into(),
        address: addr(),
        txt: vec![("pv".into(), "7".into()), ("pv".into(), "9".into()), ("id".into(), "X".into())],
    };
    let d = parse_service_record(&record);
    assert_eq!(d.pv, 7);
    assert_eq!(d.id.as_deref(), Some("X"));
}

#[test]
fn pv_text_parses_as_a_decimal_u32() {
    assert_eq!(parse_u32("0"), Some(0));
    assert_eq!(parse_u32("+12"), Some(12));
    assert_eq!(parse_u32("4294967295"), Some(u32::MAX));
    assert_eq!(parse_u32("4294967296"), None);
    assert_eq!(parse_u32(""), None);
    assert_eq!(parse_u32("+"), None);
    assert_eq!(parse_u32("-1"), None);
    assert_eq!(parse_u32("3 "), None);
}

fn device(name: &str, id: &str, pv: u32) -> DiscoveredDevice {
    DiscoveredDevice { id: Some(id.into()), name: name.into(), address: addr(), pv }
}

#[test]
fn merging_replaces_a_device_of_the_same_name_and_appends_a_new_one() {
    let mut known = vec![device("iPad", "A", 2), device("iPhone", "B", 3)];
    merge_discovered(&mut known, vec![device("iPad", "A", 3), device("Mac", "C", 3)]);
    assert_eq!(known, vec![device("iPad", "A", 3), device("iPhone", "B", 3), device("Mac", "C", 3)]);
}

#[test]
fn merging_nothing_keeps_the_known_list() {
    let mut known = vec![device("iPad", "A", 2)];
    merge_discovered(&mut known, vec![]);
    assert_eq!(known, vec![device("iPad", "A", 2)]);
}
