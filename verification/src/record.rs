//! Resource records as plain values: what the discovery logic reads of a DNS
//! message once it has been taken off the wire.

use vstd::prelude::*;

verus! {

/// The well-known name under which DNS-SD lists the service types of a network.
pub const DNS_ENUMERATION_SERVICE_NAME: &'static str = "_services._dns-sd._udp.local";

/// The name under which DNS-SD lists service types, as a text.
pub open spec fn enumeration_name() -> Seq<char> {
    "_services._dns-sd._udp.local"@
}

/// What one resource record carries.
pub enum RecordData {
    /// An IPv4 address, in its textual form.
    A(String),
    /// An IPv6 address, in its textual form.
    Aaaa(String),
    /// A pointer to another name.
    Ptr(String),
    /// The host and port at which a service is offered.
    Srv { target: String, port: u16 },
    /// Free-form text attributes, chunk by chunk as they were sent.
    Txt(Vec<Vec<u8>>),
    /// Any other record: the tag of its type and a rendering of its payload.
    Other { tag: String, payload: String },
}

/// One resource record: its owner name and what it carries.
pub struct Record {
    pub name: String,
    pub data: RecordData,
}

/// A DNS message as far as discovery reads it: whether it is a query, and the
/// records of its answer section followed by those of its additional section.
pub struct Message {
    pub query: bool,
    pub records: Vec<Record>,
}

/// The model of `RecordData`.
pub enum RecordDataView {
    A(Seq<char>),
    Aaaa(Seq<char>),
    Ptr(Seq<char>),
    Srv { target: Seq<char>, port: u16 },
    Txt(Seq<Seq<u8>>),
    Other { tag: Seq<char>, payload: Seq<char> },
}

/// The model of `Record`.
pub struct RecordView {
    pub name: Seq<char>,
    pub data: RecordDataView,
}

/// The model of `Message`.
pub struct MessageView {
    pub query: bool,
    pub records: Seq<RecordView>,
}

/// The contents of a list of byte strings.
pub open spec fn chunks_view(chunks: Seq<Vec<u8>>) -> Seq<Seq<u8>> {
    Seq::new(chunks.len(), |i: int| chunks[i]@)
}

/// The models of a list of records.
pub open spec fn records_view(records: Seq<Record>) -> Seq<RecordView> {
    Seq::new(records.len(), |i: int| records[i]@)
}

impl View for RecordData {
    type V = RecordDataView;

    open spec fn view(&self) -> RecordDataView {
        match *self {
            RecordData::A(text) => RecordDataView::A(text@),
            RecordData::Aaaa(text) => RecordDataView::Aaaa(text@),
            RecordData::Ptr(target) => RecordDataView::Ptr(target@),
            RecordData::Srv { target, port } => RecordDataView::Srv { target: target@, port },
            RecordData::Txt(chunks) => RecordDataView::Txt(chunks_view(chunks@)),
            RecordData::Other { tag, payload } => RecordDataView::Other {
                tag: tag@,
                payload: payload@,
            },
        }
    }
}

impl View for Record {
    type V = RecordView;

    open spec fn view(&self) -> RecordView {
        RecordView { name: self.name@, data: self.data@ }
    }
}

impl View for Message {
    type V = MessageView;

    open spec fn view(&self) -> MessageView {
        MessageView { query: self.query, records: records_view(self.records@) }
    }
}

} // verus!
