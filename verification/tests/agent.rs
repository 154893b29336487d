use mdns_discovery::agent::{Agent, Outcome};
use mdns_discovery::record::{Message, Record, RecordData};

const SECOND: u64 = 1_000_000_000;
const RESPONSE: u16 = 0x8400;

fn name_bytes(name: &str) -> Vec<u8> {
    let mut out = Vec::new();
    for label in name.split('.') {
        out.push(label.len() as u8);
        out.extend_from_slice(label.as_bytes());
    }
    out.push(0);
    out
}

fn record_bytes(owner: &str, kind: u16, rdata: &[u8]) -> Vec<u8> {
    let mut out = name_bytes(owner);
    out.extend_from_slice(&kind.to_be_bytes());
    out.extend_from_slice(&[0, 1, 0, 0, 0, 120]);
    out.extend_from_slice(&(rdata.len() as u16).to_be_bytes());
    out.extend_from_slice(rdata);
    out
}

fn packet_bytes(flags: u16, answers: &[Vec<u8>]) -> Vec<u8> {
    let mut out = vec![0, 0];
    out.extend_from_slice(&flags.to_be_bytes());
    out.extend_from_slice(&[0, 0]);
    out.extend_from_slice(&(answers.len() as u16).to_be_bytes());
    out.extend_from_slice(&[0, 0, 0, 0]);
    for record in answers {
        out.extend_from_slice(record);
    }
    out
}

fn http_response() -> Vec<u8> {
    packet_bytes(RESPONSE, &[record_bytes("_http._tcp.local", 1, &[10, 0, 0, 5])])
}

fn message(records: Vec<Record>) -> Message {
    Message { query: false, records }
}

fn a(owner: &str, ip: &str) -> Record {
    Record { name: owner.to_string(), data: RecordData::A(ip.to_string()) }
}

fn addresses(agent: &Agent) -> Vec<String> {
    agent.endpoints().iter().map(|e| e.address().clone()).collect()
}

fn unknown(outcome: Outcome) -> Message {
    match outcome {
        Outcome::Unknown(message) => message,
        _ => panic!("the source should be unknown"),
    }
}

#[test]
fn new_agent_has_an_empty_registry() {
    let agent = Agent::new(5, false, None);
    assert!(agent.endpoints().is_empty());
    assert!(!agent.channel().passive());
    assert!(agent.send_query_if_needed(0).is_some());
    let passive = Agent::new(5, true, None);
    assert!(passive.channel().passive());
    assert!(passive.send_query_if_needed(0).is_none());
}

#[test]
fn agent_schedules_its_queries() {
    let mut agent = Agent::new(2, false, None);
    agent.query_sent(SECOND);
    assert!(agent.send_query_if_needed(2 * SECOND).is_none());
    assert!(agent.send_query_if_needed(3 * SECOND).is_some());
}

#[test]
fn filtering() {
    let mut agent = Agent::new(5, false, Some("10.0.0.5".to_string()));
    assert!(matches!(agent.read_packet("10.0.0.9", &http_response()), Outcome::Discarded));
    assert!(agent.endpoints().is_empty());
    let found = unknown(agent.read_packet("10.0.0.5", &http_response()));
    agent.register("10.0.0.5", None, &Vec::new(), &found);
    assert_eq!(addresses(&agent), vec!["10.0.0.5".to_string()]);
    assert!(matches!(agent.read_packet("10.0.0.9", &http_response()), Outcome::Discarded));
    assert!(matches!(agent.read_packet("10.0.0.5", &http_response()), Outcome::Updated));
    assert_eq!(addresses(&agent), vec!["10.0.0.5".to_string()]);
}

#[test]
fn filter_compares_the_whole_text() {
    let mut agent = Agent::new(5, false, Some("10.0.0.5".to_string()));
    assert!(matches!(agent.route("10.0.0.50", Some(message(vec![a("x.local", "1.1.1.1")]))), Outcome::Discarded));
    assert!(matches!(agent.route("0.0.0.5", Some(message(vec![a("x.local", "1.1.1.1")]))), Outcome::Discarded));
    assert!(matches!(agent.route("10.0.0.5", Some(message(vec![a("x.local", "1.1.1.1")]))), Outcome::Unknown(_)));
}

#[test]
fn filtered_source_still_teaches_the_channel() {
    let mut agent = Agent::new(5, false, Some("10.0.0.5".to_string()));
    let datagram = packet_bytes(
        RESPONSE,
        &[record_bytes("_services._dns-sd._udp.local", 12, &name_bytes("_ipp._tcp.local"))],
    );
    assert!(matches!(agent.read_packet("10.0.0.9", &datagram), Outcome::Discarded));
    assert_eq!(agent.channel().question().len(), 2);
    assert!(agent.endpoints().is_empty());
}

#[test]
fn nothing_received_is_discarded() {
    let mut agent = Agent::new(5, false, None);
    assert!(matches!(agent.route("10.0.0.5", None), Outcome::Discarded));
    assert!(matches!(agent.read_packet("10.0.0.5", b"garbage"), Outcome::Discarded));
    assert!(agent.endpoints().is_empty());
}

#[test]
fn query_from_another_host_is_discarded() {
    let mut agent = Agent::new(5, false, None);
    let datagram = packet_bytes(0, &[record_bytes("_http._tcp.local", 1, &[10, 0, 0, 5])]);
    assert!(matches!(agent.read_packet("10.0.0.5", &datagram), Outcome::Discarded));
    assert!(agent.endpoints().is_empty());
}

#[test]
fn response_without_records_is_discarded() {
    let mut agent = Agent::new(5, false, None);
    assert!(matches!(agent.read_packet("10.0.0.5", &packet_bytes(RESPONSE, &[])), Outcome::Discarded));
    assert!(matches!(agent.route("10.0.0.5", Some(message(Vec::new()))), Outcome::Discarded));
    assert!(agent.endpoints().is_empty());
}

#[test]
fn unknown_source_is_handed_back_with_its_message() {
    let mut agent = Agent::new(5, false, None);
    let found = unknown(agent.read_packet("10.0.0.5", &http_response()));
    assert!(agent.endpoints().is_empty());
    assert_eq!(found.records.len(), 1);
    assert_eq!(found.records[0].name, "_http._tcp.local");
    match &found.records[0].data {
        RecordData::A(text) => assert_eq!(text, "10.0.0.5"),
        _ => panic!("not an A record"),
    }
}

#[test]
fn register_makes_the_endpoint_with_what_was_looked_up() {
    let mut agent = Agent::new(5, false, None);
    let found = unknown(agent.route("10.0.0.5", Some(message(vec![a("_http._tcp.local", "10.0.0.5")]))));
    agent.register("10.0.0.5", Some("tv.lan".to_string()), &vec!["10.0.0.5".to_string()], &found);
    assert_eq!(agent.endpoints().len(), 1);
    let endpoint = &agent.endpoints()[0];
    assert_eq!(endpoint.address(), "10.0.0.5");
    assert_eq!(endpoint.name(), &Some("tv.lan".to_string()));
    assert!(endpoint.local());
    assert_eq!(endpoint.services().len(), 1);
    assert_eq!(endpoint.services()[0].name, "_http._tcp.local");
}

#[test]
fn known_source_is_updated_in_place() {
    let mut agent = Agent::new(5, false, None);
    let first = unknown(agent.route("10.0.0.5", Some(message(vec![a("_http._tcp.local", "10.0.0.5")]))));
    agent.register("10.0.0.5", None, &Vec::new(), &first);
    let second = unknown(agent.route("10.0.0.6", Some(message(vec![a("_ipp._tcp.local", "10.0.0.6")]))));
    agent.register("10.0.0.6", None, &Vec::new(), &second);
    let outcome = agent.route("10.0.0.5", Some(message(vec![a("_smb._tcp.local", "10.0.0.5")])));
    assert!(matches!(outcome, Outcome::Updated));
    assert_eq!(addresses(&agent), vec!["10.0.0.5".to_string(), "10.0.0.6".to_string()]);
    let services: Vec<&str> = agent.endpoints()[0].services().iter().map(|s| s.name.as_str()).collect();
    assert_eq!(services, vec!["_http._tcp.local", "_smb._tcp.local"]);
    assert_eq!(agent.endpoints()[1].services().len(), 1);
    assert_eq!(agent.endpoints()[0].name(), &Some("_http._tcp.local".to_string()));
}

#[test]
fn endpoint_is_found_by_its_address() {
    let mut agent = Agent::new(5, false, None);
    agent.register("10.0.0.5", None, &Vec::new(), &message(vec![a("_http._tcp.local", "10.0.0.5")]));
    agent.register("10.0.0.6", None, &Vec::new(), &message(vec![a("_ipp._tcp.local", "10.0.0.6")]));
    assert_eq!(agent.endpoint("10.0.0.6").unwrap().services()[0].name, "_ipp._tcp.local");
    assert_eq!(agent.endpoint("10.0.0.5").unwrap().address(), "10.0.0.5");
    assert!(agent.endpoint("10.0.0.7").is_none());
    assert!(agent.endpoint("").is_none());
}

#[test]
fn empty_datagram_is_discarded() {
    let mut agent = Agent::new(5, false, None);
    assert!(matches!(agent.read_packet("10.0.0.5", &[]), Outcome::Discarded));
    assert!(agent.endpoints().is_empty());
}

#[test]
fn register_of_a_known_source_makes_no_second_endpoint() {
    let mut agent = Agent::new(5, false, None);
    let first = message(vec![a("_http._tcp.local", "10.0.0.5")]);
    agent.register("10.0.0.5", None, &Vec::new(), &first);
    let second = message(vec![a("_ipp._tcp.local", "10.0.0.5")]);
    agent.register("10.0.0.5", Some("late.lan".to_string()), &vec!["10.0.0.5".to_string()], &second);
    assert_eq!(agent.endpoints().len(), 1);
    let endpoint = &agent.endpoints()[0];
    assert_eq!(endpoint.services().len(), 2);
    assert_eq!(endpoint.name(), &Some("_http._tcp.local".to_string()));
    assert!(!endpoint.local());
}
