//! The DNS wire format, which the `dns_parser` crate reads and writes.
//!
//! Verus does not see into that crate. What this module says of it is
//! believed, not proved: each such item says in its comment which outside
//! function it stands for and what it claims of it.

use vstd::prelude::*;
use crate::properties::texts;
use crate::record::{
    records_view, Message, MessageView, Record, RecordData, RecordDataView, RecordView,
};
use crate::text::{bytes_text, render_bytes};
use vstd::pervasive::unreached;

verus! {

/// A parsed DNS packet of `dns_parser`, opaque to the verifier.
#[verifier::external_type_specification]
#[verifier::external_body]
pub struct ExPacket<'a>(dns_parser::Packet<'a>);

/// A parsed resource record of `dns_parser`, opaque to the verifier.
#[verifier::external_type_specification]
#[verifier::external_body]
pub struct ExResourceRecord<'a>(dns_parser::ResourceRecord<'a>);

/// The packet builder of `dns_parser`, opaque to the verifier.
#[verifier::external_type_specification]
#[verifier::external_body]
pub struct ExBuilder(dns_parser::Builder);

/// The question types of `dns_parser`.
#[verifier::external_type_specification]
pub struct ExQueryType(dns_parser::QueryType);

/// The question classes of `dns_parser`.
#[verifier::external_type_specification]
pub struct ExQueryClass(dns_parser::QueryClass);

/// The bytes that a builder has written so far.
pub uninterp spec fn builder_bytes(builder: dns_parser::Builder) -> Seq<u8>;

/// The number of questions that a builder has written so far.
pub uninterp spec fn builder_questions(builder: dns_parser::Builder) -> nat;

/// The bytes of a query that holds no question yet.
pub uninterp spec fn query_start(id: u16, recursion: bool) -> Seq<u8>;

/// The bytes of a packet after one more question was written to it.
pub uninterp spec fn question_added(
    bytes: Seq<u8>,
    qname: Seq<char>,
    prefer_unicast: bool,
    qtype: dns_parser::QueryType,
    qclass: dns_parser::QueryClass,
) -> Seq<u8>;

/// `dns_parser::Builder::new_query`: a builder that holds the header of a
/// query with the given id and recursion flag, and no question.
#[verifier::external_body]
fn new_query(id: u16, recursion: bool) -> (builder: dns_parser::Builder)
    ensures
        builder_bytes(builder) == query_start(id, recursion),
        builder_questions(builder) == 0,
{
    dns_parser::Builder::new_query(id, recursion)
}

/// A dot stands among the 63 bytes that begin at `start`.
pub open spec fn dot_within(bytes: Seq<u8>, start: int) -> bool {
    exists|at: int| start <= at < start + 63 && at < bytes.len() && #[trigger] bytes[at] == 0x2e
}

/// Every run of bytes between two dots is shorter than 63 bytes: each window
/// of 63 bytes holds a dot.
pub open spec fn labels_fit(bytes: Seq<u8>) -> bool {
    forall|start: int|
        0 <= start && start + 63 <= bytes.len() ==> #[trigger] dot_within(bytes, start)
}

/// `dns_parser::Builder::add_question`: writes one question behind those
/// written so far and counts it. The outside function panics on a name with a
/// label of 63 bytes or more and on the 65536th question, so the contract
/// leaves both out.
#[verifier::external_body]
fn add_question(
    builder: &mut dns_parser::Builder,
    qname: &str,
    prefer_unicast: bool,
    qtype: dns_parser::QueryType,
    qclass: dns_parser::QueryClass,
)
    requires
        labels_fit(vstd::utf8::encode_utf8(qname@)),
        builder_questions(*old(builder)) < 65535,
    ensures
        builder_bytes(*final(builder)) == question_added(
            builder_bytes(*old(builder)),
            qname@,
            prefer_unicast,
            qtype,
            qclass,
        ),
        builder_questions(*final(builder)) == builder_questions(*old(builder)) + 1,
{
    builder.add_question(qname, prefer_unicast, qtype, qclass);
}

/// The packet that a builder hands out for the bytes it has written: the
/// bytes themselves up to 512 of them; beyond that the same bytes with the
/// flags cut down to the truncation bit.
pub open spec fn packet_of(bytes: Seq<u8>) -> Seq<u8> {
    if bytes.len() <= 512 {
        bytes
    } else {
        bytes.update(2, bytes[2] & 0x02).update(3, 0)
    }
}

/// `dns_parser::Builder::build`: the finished packet, whether the outside
/// function calls it truncated or not.
#[verifier::external_body]
fn build(builder: dns_parser::Builder) -> (packet: Vec<u8>)
    ensures
        packet@ == packet_of(builder_bytes(builder)),
{
    match builder.build() {
        Ok(packet) => packet,
        Err(packet) => packet,
    }
}

/// The bytes of a packet that asks for the pointer records of each of
/// `names` in turn, after `asked` of them were written.
pub open spec fn questions_written(names: Seq<Seq<char>>, asked: int) -> Seq<u8>
    decreases asked,
{
    if asked <= 0 {
        query_start(0, false)
    } else {
        question_added(
            questions_written(names, asked - 1),
            names[asked - 1],
            false,
            dns_parser::QueryType::PTR,
            dns_parser::QueryClass::IN,
        )
    }
}

/// The query that asks for the pointer records of every one of `names`, in
/// class IN and without recursion.
pub open spec fn query_bytes(names: Seq<Seq<char>>) -> Seq<u8> {
    packet_of(questions_written(names, names.len() as int))
}

/// A name that can stand in a question.
pub open spec fn askable(name: Seq<char>) -> bool {
    labels_fit(vstd::utf8::encode_utf8(name))
}

/// Whether a name can stand in a question: whether each of its labels is
/// shorter than 63 bytes.
pub fn is_askable(name: &str) -> (r: bool)
    ensures
        r == askable(name@),
{
    let bytes = name.as_bytes();
    let mut run: usize = 0;
    let mut i: usize = 0;
    while i < bytes.len()
        invariant
            bytes@ == vstd::utf8::encode_utf8(name@),
            i <= bytes@.len(),
            run <= i,
            run < 63,
            forall|k: int| i - run <= k < i ==> bytes@[k] != 0x2e,
            run < i ==> bytes@[i - run - 1] == 0x2e,
            forall|start: int| 0 <= start && start + 63 <= i ==> #[trigger] dot_within(bytes@, start),
        decreases bytes@.len() - i,
    {
        if bytes[i] == 0x2e {
            run = 0;
        } else {
            run += 1;
            if run >= 63 {
                proof {
                    let start = i - 62;
                    assert(!dot_within(bytes@, start));
                }
                return false;
            }
        }
        proof {
            assert forall|start: int| 0 <= start && start + 63 <= i + 1 implies #[trigger] dot_within(
                bytes@,
                start,
            ) by {
                if start + 63 == i + 1 {
                    assert(bytes@[i - run] == 0x2e);
                }
            }
        }
        i += 1;
    }
    true
}

/// Builds the query that asks for the pointer records of every one of `names`.
pub fn build_query(names: &Vec<String>) -> (packet: Vec<u8>)
    requires
        names@.len() <= 65535,
        forall|i: int| 0 <= i < names@.len() ==> askable(#[trigger] names@[i]@),
    ensures
        packet@ == query_bytes(texts(names@)),
{
    let ghost asked = texts(names@);
    let mut builder = new_query(0, false);
    let mut i: usize = 0;
    while i < names.len()
        invariant
            i <= names@.len() <= 65535,
            asked == texts(names@),
            forall|k: int| 0 <= k < names@.len() ==> askable(#[trigger] names@[k]@),
            builder_questions(builder) == i,
            builder_bytes(builder) == questions_written(asked, i as int),
        decreases names@.len() - i,
    {
        add_question(
            &mut builder,
            names[i].as_str(),
            false,
            dns_parser::QueryType::PTR,
            dns_parser::QueryClass::IN,
        );
        i += 1;
    }
    build(builder)
}

/// How `dns_parser` classifies what a record carries: one variant for each
/// of its own.
pub enum RecordKind {
    A,
    Aaaa,
    Cname,
    Mx,
    Ns,
    Ptr,
    Soa,
    Srv,
    Txt,
    Unknown,
}

/// The packet that `dns_parser` reads from `bytes`, if it reads one.
pub uninterp spec fn parsed(bytes: Seq<u8>) -> Option<dns_parser::Packet<'static>>;

/// Whether a packet's header marks it as a query.
pub uninterp spec fn packet_is_query(packet: dns_parser::Packet) -> bool;

/// The records of a packet's answer section.
pub uninterp spec fn packet_answers(packet: dns_parser::Packet) -> Seq<
    dns_parser::ResourceRecord<'static>,
>;

/// The records of a packet's additional section.
pub uninterp spec fn packet_additional(packet: dns_parser::Packet) -> Seq<
    dns_parser::ResourceRecord<'static>,
>;

/// The owner name of a record, as a text.
pub uninterp spec fn record_owner(record: dns_parser::ResourceRecord) -> Seq<char>;

/// The variant of a record's data.
pub uninterp spec fn record_kind(record: dns_parser::ResourceRecord) -> RecordKind;

/// The address of an IPv4 address record, as a text.
pub uninterp spec fn record_ipv4(record: dns_parser::ResourceRecord) -> Seq<char>;

/// The address of an IPv6 address record, as a text.
pub uninterp spec fn record_ipv6(record: dns_parser::ResourceRecord) -> Seq<char>;

/// The target name of a pointer record, as a text.
pub uninterp spec fn record_pointer(record: dns_parser::ResourceRecord) -> Seq<char>;

/// The target name of a service record, as a text, and its port.
pub uninterp spec fn record_service(record: dns_parser::ResourceRecord) -> (Seq<char>, u16);

/// The chunks of a text record, in order.
pub uninterp spec fn record_chunks(record: dns_parser::ResourceRecord) -> Seq<Seq<u8>>;

/// The payload of a record that `dns_parser` does not interpret.
pub uninterp spec fn record_raw(record: dns_parser::ResourceRecord) -> Seq<u8>;

/// The debug rendering of a record's data.
pub uninterp spec fn record_rendering(record: dns_parser::ResourceRecord) -> Seq<char>;

/// `dns_parser::Packet::parse`: the packet read from `data`, or nothing where
/// the outside function reports an error.
#[verifier::external_body]
fn parse<'a>(data: &'a [u8]) -> (packet: Option<dns_parser::Packet<'a>>)
    ensures
        packet == parsed(data@),
{
    dns_parser::Packet::parse(data).ok()
}

/// The field `header.query` of a packet.
#[verifier::external_body]
fn is_query(packet: &dns_parser::Packet) -> (query: bool)
    ensures
        query == packet_is_query(*packet),
{
    packet.header.query
}

/// The field `answers` of a packet.
#[verifier::external_body]
fn answers_of<'a, 'b>(
    packet: &'b dns_parser::Packet<'a>,
) -> (records: &'b [dns_parser::ResourceRecord<'a>])
    ensures
        records@ == packet_answers(*packet),
{
    &packet.answers
}

/// The field `additional` of a packet.
#[verifier::external_body]
fn additional_of<'a, 'b>(
    packet: &'b dns_parser::Packet<'a>,
) -> (records: &'b [dns_parser::ResourceRecord<'a>])
    ensures
        records@ == packet_additional(*packet),
{
    &packet.additional
}

/// The field `name` of a record, through the `Display` of `dns_parser::Name`.
#[verifier::external_body]
fn owner_of(record: &dns_parser::ResourceRecord) -> (owner: String)
    ensures
        owner@ == record_owner(*record),
{
    record.name.to_string()
}

/// Which variant of `dns_parser::RData` the field `data` of a record is.
#[verifier::external_body]
fn kind_of(record: &dns_parser::ResourceRecord) -> (kind: RecordKind)
    ensures
        kind == record_kind(*record),
{
    match record.data {
        dns_parser::RData::A(_) => RecordKind::A,
        dns_parser::RData::AAAA(_) => RecordKind::Aaaa,
        dns_parser::RData::CNAME(_) => RecordKind::Cname,
        dns_parser::RData::MX(_) => RecordKind::Mx,
        dns_parser::RData::NS(_) => RecordKind::Ns,
        dns_parser::RData::PTR(_) => RecordKind::Ptr,
        dns_parser::RData::SOA(_) => RecordKind::Soa,
        dns_parser::RData::SRV(_) => RecordKind::Srv,
        dns_parser::RData::TXT(_) => RecordKind::Txt,
        dns_parser::RData::Unknown(_) => RecordKind::Unknown,
    }
}

/// The address that an `A` record holds, through std's `Display` of an IPv4
/// address; nothing for any other record.
#[verifier::external_body]
fn ipv4_of(record: &dns_parser::ResourceRecord) -> (address: Option<String>)
    ensures
        address is Some <==> record_kind(*record) is A,
        address matches Some(text) ==> text@ == record_ipv4(*record),
{
    match &record.data {
        dns_parser::RData::A(a) => Some(a.0.to_string()),
        _ => None,
    }
}

/// The address that an `AAAA` record holds, through std's `Display` of an
/// IPv6 address; nothing for any other record.
#[verifier::external_body]
fn ipv6_of(record: &dns_parser::ResourceRecord) -> (address: Option<String>)
    ensures
        address is Some <==> record_kind(*record) is Aaaa,
        address matches Some(text) ==> text@ == record_ipv6(*record),
{
    match &record.data {
        dns_parser::RData::AAAA(aaaa) => Some(aaaa.0.to_string()),
        _ => None,
    }
}

/// The name that a `PTR` record holds, through the `Display` of
/// `dns_parser::Name`; nothing for any other record.
#[verifier::external_body]
fn pointer_of(record: &dns_parser::ResourceRecord) -> (pointer: Option<String>)
    ensures
        pointer is Some <==> record_kind(*record) is Ptr,
        pointer matches Some(text) ==> text@ == record_pointer(*record),
{
    match &record.data {
        dns_parser::RData::PTR(ptr) => Some(ptr.0.to_string()),
        _ => None,
    }
}

/// The fields `target`, through the `Display` of `dns_parser::Name`, and
/// `port` of an `SRV` record; nothing for any other record.
#[verifier::external_body]
fn service_of(record: &dns_parser::ResourceRecord) -> (service: Option<(String, u16)>)
    ensures
        service is Some <==> record_kind(*record) is Srv,
        service matches Some(pair) ==> pair.0@ == record_service(*record).0 && pair.1
            == record_service(*record).1,
{
    match &record.data {
        dns_parser::RData::SRV(srv) => Some((srv.target.to_string(), srv.port)),
        _ => None,
    }
}

/// The chunks that the iterator of a `TXT` record hands out, each as a byte
/// string of its own; nothing for any other record.
#[verifier::external_body]
fn chunks_of(record: &dns_parser::ResourceRecord) -> (chunks: Option<Vec<Vec<u8>>>)
    ensures
        chunks is Some <==> record_kind(*record) is Txt,
        chunks matches Some(list) ==> crate::record::chunks_view(list@) == record_chunks(*record),
{
    match &record.data {
        dns_parser::RData::TXT(txt) => Some(txt.iter().map(|chunk| chunk.to_vec()).collect()),
        _ => None,
    }
}

/// The bytes that an `Unknown` record holds; nothing for any other record.
#[verifier::external_body]
fn raw_of(record: &dns_parser::ResourceRecord) -> (raw: Option<Vec<u8>>)
    ensures
        raw is Some <==> record_kind(*record) is Unknown,
        raw matches Some(bytes) ==> bytes@ == record_raw(*record),
{
    match &record.data {
        dns_parser::RData::Unknown(bytes) => Some(bytes.to_vec()),
        _ => None,
    }
}

/// The field `data` of a record, through the `Debug` that `dns_parser`
/// derives for `RData`.
#[verifier::external_body]
fn rendering_of(record: &dns_parser::ResourceRecord) -> (rendering: String)
    ensures
        rendering@ == record_rendering(*record),
{
    format!("{:?}", record.data)
}

/// The tag under which a record of a kind that discovery does not interpret
/// is filed: the name of its type, or `???` where the parser kept none.
pub open spec fn tag_of(kind: RecordKind) -> Seq<char> {
    match kind {
        RecordKind::Cname => "CNAME"@,
        RecordKind::Mx => "MX"@,
        RecordKind::Ns => "NS"@,
        RecordKind::Soa => "SOA"@,
        _ => "???"@,
    }
}

/// What a parsed record carries, as discovery reads it.
pub open spec fn data_of(record: dns_parser::ResourceRecord) -> RecordDataView {
    match record_kind(record) {
        RecordKind::A => RecordDataView::A(record_ipv4(record)),
        RecordKind::Aaaa => RecordDataView::Aaaa(record_ipv6(record)),
        RecordKind::Ptr => RecordDataView::Ptr(record_pointer(record)),
        RecordKind::Srv => RecordDataView::Srv {
            target: record_service(record).0,
            port: record_service(record).1,
        },
        RecordKind::Txt => RecordDataView::Txt(record_chunks(record)),
        RecordKind::Unknown => RecordDataView::Other {
            tag: tag_of(RecordKind::Unknown),
            payload: bytes_text(record_raw(record)),
        },
        kind => RecordDataView::Other { tag: tag_of(kind), payload: record_rendering(record) },
    }
}

/// A parsed record, as discovery reads it.
pub open spec fn record_of(record: dns_parser::ResourceRecord) -> RecordView {
    RecordView { name: record_owner(record), data: data_of(record) }
}

/// Parsed records, as discovery reads them.
pub open spec fn records_of(records: Seq<dns_parser::ResourceRecord>) -> Seq<RecordView> {
    Seq::new(records.len(), |i: int| record_of(records[i]))
}

/// A parsed packet, as discovery reads it: whether it is a query, and the
/// records of its answer section followed by those of its additional section.
pub open spec fn message_of(packet: dns_parser::Packet) -> MessageView {
    MessageView {
        query: packet_is_query(packet),
        records: records_of(packet_answers(packet)) + records_of(packet_additional(packet)),
    }
}

/// The message that a datagram holds, if it holds one.
pub open spec fn decoded(bytes: Seq<u8>) -> Option<MessageView> {
    match parsed(bytes) {
        Some(packet) => Some(message_of(packet)),
        None => None,
    }
}

fn tag_for(kind: &RecordKind) -> (tag: String)
    ensures
        tag@ == tag_of(*kind),
{
    match kind {
        RecordKind::Cname => String::from_str("CNAME"),
        RecordKind::Mx => String::from_str("MX"),
        RecordKind::Ns => String::from_str("NS"),
        RecordKind::Soa => String::from_str("SOA"),
        _ => String::from_str("???"),
    }
}

fn convert(record: &dns_parser::ResourceRecord) -> (out: Record)
    ensures
        out@ == record_of(*record),
{
    let name = owner_of(record);
    let kind = kind_of(record);
    let data = match kind {
        RecordKind::A => match ipv4_of(record) {
            Some(text) => RecordData::A(text),
            None => unreached(),
        },
        RecordKind::Aaaa => match ipv6_of(record) {
            Some(text) => RecordData::Aaaa(text),
            None => unreached(),
        },
        RecordKind::Ptr => match pointer_of(record) {
            Some(text) => RecordData::Ptr(text),
            None => unreached(),
        },
        RecordKind::Srv => match service_of(record) {
            Some(pair) => RecordData::Srv { target: pair.0, port: pair.1 },
            None => unreached(),
        },
        RecordKind::Txt => match chunks_of(record) {
            Some(chunks) => RecordData::Txt(chunks),
            None => unreached(),
        },
        RecordKind::Unknown => match raw_of(record) {
            Some(raw) => RecordData::Other {
                tag: tag_for(&kind),
                payload: render_bytes(raw.as_slice()),
            },
            None => unreached(),
        },
        _ => RecordData::Other { tag: tag_for(&kind), payload: rendering_of(record) },
    };
    Record { name, data }
}

fn convert_all(wire: &[dns_parser::ResourceRecord], records: &mut Vec<Record>)
    ensures
        records_view(final(records)@) == records_view(old(records)@) + records_of(wire@),
{
    let ghost before = records@;
    let mut i: usize = 0;
    while i < wire.len()
        invariant
            i <= wire@.len(),
            records@.len() == before.len() + i,
            forall|k: int| 0 <= k < before.len() ==> records@[k] == before[k],
            forall|k: int|
                0 <= k < i ==> (#[trigger] records@[before.len() + k])@ == record_of(wire@[k]),
        decreases wire@.len() - i,
    {
        records.push(convert(&wire[i]));
        i += 1;
    }
    proof {
        let now = records_view(records@);
        let want = records_view(before) + records_of(wire@);
        assert forall|k: int| 0 <= k < now.len() implies now[k] == want[k] by {
            if k >= before.len() {
                assert(records@[before.len() + (k - before.len())]@ == record_of(
                    wire@[k - before.len()],
                ));
            }
        }
        assert(now =~= want);
    }
}

/// Reads the message that a datagram holds; nothing where the datagram is no
/// well-formed DNS packet.
pub fn decode(data: &[u8]) -> (message: Option<Message>)
    ensures
        message is Some <==> decoded(data@) is Some,
        message matches Some(m) ==> decoded(data@) == Some(m@),
{
    match parse(data) {
        None => None,
        Some(packet) => {
            let query = is_query(&packet);
            let mut records: Vec<Record> = Vec::new();
            assert(records_view(records@) =~= Seq::<RecordView>::empty());
            convert_all(answers_of(&packet), &mut records);
            convert_all(additional_of(&packet), &mut records);
            let message = Message { query, records };
            assert(message@.records =~= message_of(packet).records);
            Some(message)
        },
    }
}

} // verus!
