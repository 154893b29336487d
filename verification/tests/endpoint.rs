use mdns_discovery::endpoint::{Endpoint, Fingerprint, Service};
use mdns_discovery::properties::Properties;
use mdns_discovery::record::{Record, RecordData};

fn list(values: &[&str]) -> Vec<String> {
    values.iter().map(|v| v.to_string()).collect()
}

fn record(owner: &str, data: RecordData) -> Record {
    Record { name: owner.to_string(), data }
}

fn a(owner: &str, ip: &str) -> Record {
    record(owner, RecordData::A(ip.to_string()))
}

fn txt(owner: &str, chunks: &[&[u8]]) -> Record {
    record(owner, RecordData::Txt(chunks.iter().map(|c| c.to_vec()).collect()))
}

fn fresh(address: &str) -> Endpoint {
    Endpoint::with_services(address, None, &Vec::new(), &Vec::new())
}

fn names(endpoint: &Endpoint) -> Vec<String> {
    endpoint.services().iter().map(|s| s.name.clone()).collect()
}

fn values(properties: &Properties, key: &str) -> Option<Vec<String>> {
    properties.get(key).cloned()
}

fn label(fingerprint: &Option<Fingerprint>) -> Option<(String, String)> {
    fingerprint.as_ref().map(|f| (f.vendor.clone(), f.kind.clone()))
}

fn service<'a>(endpoint: &'a Endpoint, name: &str) -> &'a Service {
    endpoint.services().iter().find(|s| s.name == name).unwrap()
}

#[test]
fn properties_of_an_ipv4_address() {
    let properties = Endpoint::parse_properties(&RecordData::A("192.168.1.20".to_string()));
    assert_eq!(properties.keys(), list(&["ipv4"]));
    assert_eq!(values(&properties, "ipv4"), Some(list(&["192.168.1.20"])));
}

#[test]
fn properties_of_an_ipv6_address() {
    let properties = Endpoint::parse_properties(&RecordData::Aaaa("fe80::1".to_string()));
    assert_eq!(properties.keys(), list(&["ipv6"]));
    assert_eq!(values(&properties, "ipv6"), Some(list(&["fe80::1"])));
}

#[test]
fn properties_of_a_pointer() {
    let properties = Endpoint::parse_properties(&RecordData::Ptr("tv._googlecast._tcp.local".to_string()));
    assert_eq!(properties.keys(), list(&["name"]));
    assert_eq!(values(&properties, "name"), Some(list(&["tv._googlecast._tcp.local"])));
}

#[test]
fn properties_of_a_service_record() {
    let data = RecordData::Srv { target: "printer.local".to_string(), port: 8080 };
    let properties = Endpoint::parse_properties(&data);
    assert_eq!(properties.keys(), list(&["server"]));
    assert_eq!(values(&properties, "server"), Some(list(&["printer.local:8080"])));
}

#[test]
fn properties_of_a_service_record_at_the_ends_of_the_port_range() {
    let low = Endpoint::parse_properties(&RecordData::Srv { target: "h.local".to_string(), port: 0 });
    assert_eq!(values(&low, "server"), Some(list(&["h.local:0"])));
    let high = Endpoint::parse_properties(&RecordData::Srv { target: "".to_string(), port: 65535 });
    assert_eq!(values(&high, "server"), Some(list(&[":65535"])));
}

#[test]
fn properties_of_text_chunks() {
    let data = RecordData::Txt(vec![b"a=1".to_vec(), b"b=2".to_vec(), b"a=1".to_vec()]);
    let properties = Endpoint::parse_properties(&data);
    assert_eq!(properties.keys(), list(&["text"]));
    assert_eq!(values(&properties, "text"), Some(list(&["a=1", "b=2"])));
}

#[test]
fn properties_of_text_chunks_skip_empty_chunks() {
    let data = RecordData::Txt(vec![Vec::new(), b"a=1".to_vec(), Vec::new()]);
    let properties = Endpoint::parse_properties(&data);
    assert_eq!(values(&properties, "text"), Some(list(&["a=1"])));
    let nothing = Endpoint::parse_properties(&RecordData::Txt(vec![Vec::new()]));
    assert!(nothing.keys().is_empty());
    let none = Endpoint::parse_properties(&RecordData::Txt(Vec::new()));
    assert!(none.keys().is_empty());
}

#[test]
fn properties_of_text_chunks_render_what_is_no_text() {
    let data = RecordData::Txt(vec![vec![0xff, 0xfe], "h\u{e9}".as_bytes().to_vec(), vec![0x80]]);
    let properties = Endpoint::parse_properties(&data);
    assert_eq!(values(&properties, "text"), Some(list(&["[255, 254]", "h\u{e9}", "[128]"])));
}

#[test]
fn properties_of_any_other_record() {
    let data = RecordData::Other { tag: "HINFO".to_string(), payload: "[1, 2]".to_string() };
    let properties = Endpoint::parse_properties(&data);
    assert_eq!(properties.keys(), list(&["HINFO"]));
    assert_eq!(values(&properties, "HINFO"), Some(list(&["[1, 2]"])));
}

#[test]
fn new_endpoint_starts_empty() {
    let endpoint = fresh("10.0.0.7");
    assert_eq!(endpoint.address(), "10.0.0.7");
    assert_eq!(endpoint.name(), &None);
    assert!(!endpoint.local());
    assert!(endpoint.services().is_empty());
    assert!(endpoint.fingerprint().is_none());
}

#[test]
fn resolved_name_is_kept_unless_it_is_the_address() {
    let named = Endpoint::with_services("10.0.0.7", Some("tv.lan".to_string()), &Vec::new(), &Vec::new());
    assert_eq!(named.name(), &Some("tv.lan".to_string()));
    let literal = Endpoint::with_services("10.0.0.7", Some("10.0.0.7".to_string()), &Vec::new(), &Vec::new());
    assert_eq!(literal.name(), &None);
    let failed = Endpoint::with_services("10.0.0.7", None, &Vec::new(), &Vec::new());
    assert_eq!(failed.name(), &None);
}

#[test]
fn endpoint_is_local_where_an_interface_has_its_address() {
    let interfaces = list(&["127.0.0.1", "10.0.0.7", "fe80::1"]);
    assert!(Endpoint::with_services("10.0.0.7", None, &interfaces, &Vec::new()).local());
    assert!(Endpoint::with_services("fe80::1", None, &interfaces, &Vec::new()).local());
    assert!(!Endpoint::with_services("10.0.0.70", None, &interfaces, &Vec::new()).local());
    assert!(!Endpoint::with_services("10.0.0.7", None, &Vec::new(), &Vec::new()).local());
}

#[test]
fn with_services_brings_the_records_in() {
    let records = vec![a("_http._tcp.local", "10.0.0.7"), txt("_http._tcp.local", &[b"path=/"])];
    let endpoint = Endpoint::with_services("10.0.0.7", None, &Vec::new(), &records);
    assert_eq!(names(&endpoint), list(&["_http._tcp.local"]));
    let http = service(&endpoint, "_http._tcp.local");
    assert_eq!(values(&http.properties, "ipv4"), Some(list(&["10.0.0.7"])));
    assert_eq!(values(&http.properties, "text"), Some(list(&["path=/"])));
    assert_eq!(endpoint.name(), &Some("_http._tcp.local".to_string()));
}

#[test]
fn name_adoption() {
    let mut endpoint = fresh("10.0.0.7");
    endpoint.add_services(&vec![a("_http._tcp.local", "10.0.0.7")]);
    endpoint.add_services(&vec![txt("_printer._tcp.local", &[b"note=x"])]);
    assert_eq!(endpoint.name(), &Some("_http._tcp.local".to_string()));
}

#[test]
fn name_is_taken_from_the_first_record_with_an_address() {
    let mut endpoint = fresh("10.0.0.7");
    endpoint.add_services(&vec![
        txt("_printer._tcp.local", &[b"note=x"]),
        record("_ipp._tcp.local", RecordData::Aaaa("fe80::1".to_string())),
        a("_http._tcp.local", "10.0.0.7"),
    ]);
    assert_eq!(endpoint.name(), &Some("_ipp._tcp.local".to_string()));
}

#[test]
fn resolved_name_is_never_overwritten() {
    let mut endpoint = Endpoint::with_services("10.0.0.7", Some("tv.lan".to_string()), &Vec::new(), &Vec::new());
    endpoint.add_services(&vec![a("_http._tcp.local", "10.0.0.7")]);
    assert_eq!(endpoint.name(), &Some("tv.lan".to_string()));
}

#[test]
fn records_without_an_address_give_no_name() {
    let mut endpoint = fresh("10.0.0.7");
    endpoint.add_services(&vec![
        txt("_printer._tcp.local", &[b"ipv4"]),
        record("_http._tcp.local", RecordData::Ptr("ipv4".to_string())),
    ]);
    assert_eq!(endpoint.name(), &None);
}

#[test]
fn enumeration_records_are_left_out() {
    let mut endpoint = fresh("10.0.0.7");
    endpoint.add_services(&vec![
        record("_services._dns-sd._udp.local", RecordData::Ptr("_googlecast._tcp.local".to_string())),
        a("_services._dns-sd._udp.local", "10.0.0.7"),
    ]);
    assert!(endpoint.services().is_empty());
    assert_eq!(endpoint.name(), &None);
    assert!(endpoint.fingerprint().is_none());
}

#[test]
fn services_stand_in_the_order_in_which_they_were_first_seen() {
    let mut endpoint = fresh("10.0.0.7");
    endpoint.add_services(&vec![
        txt("_ipp._tcp.local", &[b"a"]),
        txt("_http._tcp.local", &[b"b"]),
        txt("_ipp._tcp.local", &[b"c"]),
        txt("_smb._tcp.local", &[b"d"]),
    ]);
    assert_eq!(names(&endpoint), list(&["_ipp._tcp.local", "_http._tcp.local", "_smb._tcp.local"]));
}

#[test]
fn records_of_one_service_merge_their_properties() {
    let mut endpoint = fresh("10.0.0.7");
    endpoint.add_service(&txt("_ipp._tcp.local", &[b"a=1", b"b=2"]));
    endpoint.add_service(&txt("_ipp._tcp.local", &[b"b=2", b"c=3"]));
    endpoint.add_service(&record("_ipp._tcp.local", RecordData::Srv { target: "p.local".to_string(), port: 631 }));
    assert_eq!(names(&endpoint), list(&["_ipp._tcp.local"]));
    let ipp = service(&endpoint, "_ipp._tcp.local");
    assert_eq!(values(&ipp.properties, "text"), Some(list(&["a=1", "b=2", "c=3"])));
    assert_eq!(values(&ipp.properties, "server"), Some(list(&["p.local:631"])));
    assert_eq!(ipp.properties.keys(), list(&["text", "server"]));
}

#[test]
fn a_service_is_described_from_the_catalog() {
    let mut endpoint = fresh("10.0.0.7");
    endpoint.add_services(&vec![
        txt("Office._printer._tcp.local", &[b"a"]),
        txt("_unknown._tcp.local", &[b"b"]),
    ]);
    assert_eq!(
        service(&endpoint, "Office._printer._tcp.local").description,
        Some("Printers - Line Printer Daemon (LPD/LPR)".to_string())
    );
    assert_eq!(service(&endpoint, "_unknown._tcp.local").description, None);
}

#[test]
fn fingerprint_is_found_as_soon_as_a_service_gives_one() {
    let mut endpoint = fresh("10.0.0.7");
    endpoint.add_service(&txt("_http._tcp.local", &[b"a"]));
    assert_eq!(label(endpoint.fingerprint()), None);
    endpoint.add_service(&txt("_adisk._tcp.local", &[b"b"]));
    assert_eq!(label(endpoint.fingerprint()), Some(("".to_string(), "disk".to_string())));
}

#[test]
fn fingerprint_is_frozen_once_found() {
    let mut endpoint = fresh("10.0.0.7");
    endpoint.add_services(&vec![txt("_hue._tcp.local", &[b"a"])]);
    assert_eq!(label(endpoint.fingerprint()), Some(("philips".to_string(), "light".to_string())));
    endpoint.add_services(&vec![txt("_googlecast._tcp.local", &[b"b"])]);
    assert_eq!(label(endpoint.fingerprint()), Some(("philips".to_string(), "light".to_string())));
}

#[test]
fn fingerprint_goes_by_stored_order_within_one_batch() {
    let mut endpoint = fresh("10.0.0.7");
    endpoint.add_services(&vec![
        txt("_http._tcp.local", &[b"a"]),
        txt("_googlecast._tcp.local", &[b"b"]),
        txt("_hue._tcp.local", &[b"c"]),
    ]);
    assert_eq!(label(endpoint.fingerprint()), Some(("google".to_string(), "chromecast".to_string())));
}
