use mdns_discovery::question::Question;
use mdns_discovery::record::{Record, RecordData, DNS_ENUMERATION_SERVICE_NAME};

fn pointer(owner: &str, target: &str) -> Record {
    Record { name: owner.to_string(), data: RecordData::Ptr(target.to_string()) }
}

fn enumeration_query() -> Vec<u8> {
    let mut expected = vec![0u8, 0, 0, 0, 0, 1, 0, 0, 0, 0, 0, 0];
    expected.extend_from_slice(b"\x09_services\x07_dns-sd\x04_udp\x05local\x00");
    expected.extend_from_slice(&[0, 12, 0, 1]);
    expected
}

fn holds(hay: &[u8], needle: &[u8]) -> bool {
    hay.windows(needle.len()).any(|window| window == needle)
}

#[test]
fn enumeration_name_is_the_dns_sd_meta_service() {
    assert_eq!(DNS_ENUMERATION_SERVICE_NAME, "_services._dns-sd._udp.local");
}

#[test]
fn new_question_asks_for_the_enumeration_service_alone() {
    let question = Question::new();
    assert_eq!(question.len(), 1);
    assert_eq!(question.services(), &vec!["_services._dns-sd._udp.local".to_string()]);
    assert_eq!(question.query(), enumeration_query());
}

#[test]
fn enumeration_growth() {
    let mut question = Question::new();
    let records = vec![pointer("_services._dns-sd._udp.local", "_googlecast._tcp.local")];
    let query = question.add_services(&records).unwrap();
    assert!(!query.is_empty());
    assert!(holds(&query, b"\x0b_googlecast\x04_tcp\x05local\x00"));
    let mut expected = enumeration_query();
    expected[5] = 2;
    expected.extend_from_slice(b"\x0b_googlecast\x04_tcp\x05local\x00");
    expected.extend_from_slice(&[0, 12, 0, 1]);
    assert_eq!(query, expected);
    assert_eq!(question.query(), expected);
    assert_eq!(
        question.services(),
        &vec!["_services._dns-sd._udp.local".to_string(), "_googlecast._tcp.local".to_string()]
    );
    assert!(question.add_services(&records).is_none());
    assert_eq!(question.len(), 2);
}

#[test]
fn add_service_says_whether_the_question_grew() {
    let mut question = Question::new();
    let record = pointer("_services._dns-sd._udp.local", "_http._tcp.local");
    assert!(question.add_service(&record));
    assert!(!question.add_service(&record));
    assert_eq!(question.len(), 2);
}

#[test]
fn learns_each_service_type_once_and_in_order() {
    let mut question = Question::new();
    let records = vec![
        pointer("_services._dns-sd._udp.local", "_http._tcp.local"),
        pointer("_services._dns-sd._udp.local", "_ipp._tcp.local"),
        pointer("_services._dns-sd._udp.local", "_http._tcp.local"),
    ];
    assert!(question.add_services(&records).is_some());
    assert_eq!(
        question.services(),
        &vec![
            "_services._dns-sd._udp.local".to_string(),
            "_http._tcp.local".to_string(),
            "_ipp._tcp.local".to_string()
        ]
    );
}

#[test]
fn the_enumeration_service_itself_is_known_from_the_start() {
    let mut question = Question::new();
    let records = vec![pointer("_services._dns-sd._udp.local", "_services._dns-sd._udp.local")];
    assert!(question.add_services(&records).is_none());
    assert_eq!(question.len(), 1);
}

#[test]
fn pointers_under_other_names_teach_nothing() {
    let mut question = Question::new();
    let records = vec![
        pointer("_http._tcp.local", "printer._http._tcp.local"),
        pointer("_SERVICES._dns-sd._udp.local", "_ipp._tcp.local"),
    ];
    assert!(question.add_services(&records).is_none());
    assert_eq!(question.len(), 1);
}

#[test]
fn other_records_under_the_enumeration_name_teach_nothing() {
    let mut question = Question::new();
    let records = vec![
        Record {
            name: "_services._dns-sd._udp.local".to_string(),
            data: RecordData::A("10.0.0.1".to_string()),
        },
        Record {
            name: "_services._dns-sd._udp.local".to_string(),
            data: RecordData::Txt(vec![b"_http._tcp.local".to_vec()]),
        },
        Record {
            name: "_services._dns-sd._udp.local".to_string(),
            data: RecordData::Srv { target: "_http._tcp.local".to_string(), port: 80 },
        },
    ];
    assert!(question.add_services(&records).is_none());
    assert_eq!(question.len(), 1);
}

#[test]
fn no_records_teach_nothing() {
    let mut question = Question::new();
    assert!(question.add_services(&Vec::new()).is_none());
    assert_eq!(question.query(), enumeration_query());
}

#[test]
fn a_service_type_with_an_overlong_label_is_not_asked_for() {
    let mut question = Question::new();
    let long = format!("{}._tcp.local", "a".repeat(63));
    let fits = format!("{}._tcp.local", "a".repeat(62));
    let records = vec![
        pointer("_services._dns-sd._udp.local", &long),
        pointer("_services._dns-sd._udp.local", &fits),
    ];
    let query = question.add_services(&records).unwrap();
    assert_eq!(question.services(), &vec!["_services._dns-sd._udp.local".to_string(), fits]);
    assert_eq!(&query[4..6], &[0, 2]);
}
