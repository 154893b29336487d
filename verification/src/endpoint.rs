//! Endpoints and the services that they offer, built up record by record.

use vstd::prelude::*;
use vstd::utf8::{decode_utf8, valid_utf8};
use crate::catalog::{description_of, get_service_description};
use crate::fingerprint::{fingerprint_of, match_services};
use crate::properties::{added, holds_address, merged, texts, Properties, Store};
use crate::record::{
    enumeration_name, records_view, Record, RecordData, RecordDataView, RecordView,
    DNS_ENUMERATION_SERVICE_NAME,
};
use crate::text::{
    bytes_text, chars_of, decimal, push_decimal, render_bytes, same_text, string_of, utf8_text,
};

verus! {

/// One advertised capability of an endpoint.
pub struct Service {
    /// The DNS-SD name of the service type or instance.
    pub name: String,
    /// What the service is, where the catalog knows its type.
    pub description: Option<String>,
    /// What the endpoint has announced of the service.
    pub properties: Properties,
}

/// The model of `Service`.
pub struct ServiceView {
    pub name: Seq<char>,
    pub description: Option<Seq<char>>,
    pub properties: Store,
}

impl View for Service {
    type V = ServiceView;

    open spec fn view(&self) -> ServiceView {
        ServiceView {
            name: self.name@,
            description: option_text(self.description),
            properties: self.properties@,
        }
    }
}

/// A heuristic label for an endpoint.
pub struct Fingerprint {
    pub vendor: String,
    pub kind: String,
}

/// The model of `Fingerprint`.
pub struct FingerprintView {
    pub vendor: Seq<char>,
    pub kind: Seq<char>,
}

impl View for Fingerprint {
    type V = FingerprintView;

    open spec fn view(&self) -> FingerprintView {
        FingerprintView { vendor: self.vendor@, kind: self.kind@ }
    }
}

impl Clone for Fingerprint {
    fn clone(&self) -> (copy: Fingerprint)
        ensures
            copy@ == self@,
    {
        Fingerprint { vendor: self.vendor.clone(), kind: self.kind.clone() }
    }
}

impl Clone for Service {
    fn clone(&self) -> (copy: Service)
        ensures
            self.properties.wf() ==> copy.properties.wf() && copy@ == self@,
    {
        Service {
            name: self.name.clone(),
            description: copy_text(&self.description),
            properties: self.properties.clone(),
        }
    }
}

fn copy_text(text: &Option<String>) -> (copy: Option<String>)
    ensures
        option_text(copy) == option_text(*text),
{
    match text {
        Some(s) => Some(s.clone()),
        None => None,
    }
}

/// The text of an optional string.
pub open spec fn option_text(text: Option<String>) -> Option<Seq<char>> {
    match text {
        Some(s) => Some(s@),
        None => None,
    }
}

/// The model of an optional fingerprint.
pub open spec fn option_fingerprint(fingerprint: Option<Fingerprint>) -> Option<FingerprintView> {
    match fingerprint {
        Some(f) => Some(f@),
        None => None,
    }
}

/// The models of a list of services.
pub open spec fn services_view(services: Seq<Service>) -> Seq<ServiceView> {
    Seq::new(services.len(), |i: int| services[i]@)
}

/// A discovered network node, identified by its address.
pub struct Endpoint {
    name: Option<String>,
    address: String,
    local: bool,
    services: Vec<Service>,
    fingerprint: Option<Fingerprint>,
}

/// The model of `Endpoint`: its services stand in the order in which they
/// were first seen.
pub struct EndpointView {
    pub name: Option<Seq<char>>,
    pub address: Seq<char>,
    pub local: bool,
    pub services: Seq<ServiceView>,
    pub fingerprint: Option<FingerprintView>,
}

/// A store with one value under one key.
pub open spec fn single(key: Seq<char>, value: Seq<char>) -> Store {
    Store::empty().insert(key, seq![value])
}

/// The value that one chunk of a text record gives: the text that it encodes
/// in UTF-8 or, where it encodes none, the raw rendering of its bytes.
pub open spec fn chunk_text(chunk: Seq<u8>) -> Seq<char> {
    if valid_utf8(chunk) {
        decode_utf8(chunk)
    } else {
        bytes_text(chunk)
    }
}

/// The properties that the first `count` chunks of a text record give: one
/// value under `text` for each chunk that is not empty.
pub open spec fn text_properties(chunks: Seq<Seq<u8>>, count: int) -> Store
    decreases count,
{
    if count <= 0 {
        Store::empty()
    } else if chunks[count - 1].len() == 0 {
        text_properties(chunks, count - 1)
    } else {
        added(text_properties(chunks, count - 1), "text"@, chunk_text(chunks[count - 1]))
    }
}

/// The value under `server` for a service record: the target, a colon and
/// the port in decimal.
pub open spec fn server_text(target: Seq<char>, port: u16) -> Seq<char> {
    target + seq![':'] + decimal(port as nat)
}

/// The properties that one record gives, by the type of the record.
pub open spec fn properties_of(data: RecordDataView) -> Store {
    match data {
        RecordDataView::A(text) => single("ipv4"@, text),
        RecordDataView::Aaaa(text) => single("ipv6"@, text),
        RecordDataView::Ptr(target) => single("name"@, target),
        RecordDataView::Srv { target, port } => single("server"@, server_text(target, port)),
        RecordDataView::Txt(chunks) => text_properties(chunks, chunks.len() as int),
        RecordDataView::Other { tag, payload } => single(tag, payload),
    }
}

/// The service at position `i` has the name `name`.
pub open spec fn named_at(services: Seq<ServiceView>, name: Seq<char>, i: int) -> bool {
    0 <= i < services.len() && services[i].name == name
}

/// Some service has the name `name`.
pub open spec fn has_service(services: Seq<ServiceView>, name: Seq<char>) -> bool {
    exists|i: int| named_at(services, name, i)
}

/// The position of a service with the name `name`.
pub open spec fn service_slot(services: Seq<ServiceView>, name: Seq<char>) -> int {
    choose|i: int| named_at(services, name, i)
}

/// No two services have the same name.
pub open spec fn names_distinct(services: Seq<ServiceView>) -> bool {
    forall|i: int, j: int|
        0 <= i < services.len() && 0 <= j < services.len() && i != j ==> (#[trigger] services[i]).name
            != (#[trigger] services[j]).name
}

/// The services after properties came in under `name`: merged into the
/// service of that name where there is one, else in a new service at the end,
/// described from the catalog.
pub open spec fn upserted(services: Seq<ServiceView>, name: Seq<char>, properties: Store) -> Seq<
    ServiceView,
> {
    if has_service(services, name) {
        let at = service_slot(services, name);
        services.update(
            at,
            ServiceView {
                name: services[at].name,
                description: services[at].description,
                properties: merged(services[at].properties, properties),
            },
        )
    } else {
        services.push(ServiceView { name, description: description_of(name), properties })
    }
}

/// An endpoint after one record came in. A record under the enumeration name
/// changes nothing. Any other gives its properties to the service of its
/// owner name; an endpoint without a name takes the owner name of a record
/// that carries an address; and an endpoint without a fingerprint is
/// fingerprinted from the services that it then has.
pub open spec fn applied(endpoint: EndpointView, record: RecordView) -> EndpointView {
    if record.name == enumeration_name() {
        endpoint
    } else {
        let properties = properties_of(record.data);
        let services = upserted(endpoint.services, record.name, properties);
        EndpointView {
            name: if endpoint.name is None && holds_address(properties) {
                Some(record.name)
            } else {
                endpoint.name
            },
            address: endpoint.address,
            local: endpoint.local,
            services,
            fingerprint: if endpoint.fingerprint is None {
                fingerprint_of(services)
            } else {
                endpoint.fingerprint
            },
        }
    }
}

/// An endpoint after the first `count` of `records` came in, one after the
/// other.
pub open spec fn applied_all(endpoint: EndpointView, records: Seq<RecordView>, count: int) -> EndpointView
    decreases count,
{
    if count <= 0 {
        endpoint
    } else {
        applied(applied_all(endpoint, records, count - 1), records[count - 1])
    }
}

/// The name that a new endpoint starts with: what the reverse lookup gave,
/// unless it gave nothing or only the address's own text.
pub open spec fn resolved_name(address: Seq<char>, resolved: Option<Seq<char>>) -> Option<
    Seq<char>,
> {
    match resolved {
        Some(name) => if name == address {
            None
        } else {
            Some(name)
        },
        None => None,
    }
}

/// An endpoint as it is first made, before any record came in.
pub open spec fn created(
    address: Seq<char>,
    resolved: Option<Seq<char>>,
    interfaces: Seq<Seq<char>>,
) -> EndpointView {
    EndpointView {
        name: resolved_name(address, resolved),
        address,
        local: interfaces.contains(address),
        services: Seq::empty(),
        fingerprint: None,
    }
}

/// The services of a list that are the first of their name among the first
/// `count`, in the list's order.
pub open spec fn first_of_name(services: Seq<ServiceView>, count: int) -> Seq<ServiceView>
    decreases count,
{
    if count <= 0 {
        Seq::empty()
    } else {
        let before = first_of_name(services, count - 1);
        if has_service(before, services[count - 1].name) {
            before
        } else {
            before.push(services[count - 1])
        }
    }
}

impl View for Endpoint {
    type V = EndpointView;

    closed spec fn view(&self) -> EndpointView {
        EndpointView {
            name: option_text(self.name),
            address: self.address@,
            local: self.local,
            services: services_view(self.services@),
            fingerprint: option_fingerprint(self.fingerprint),
        }
    }
}

impl Clone for Endpoint {
    fn clone(&self) -> (copy: Endpoint)
        ensures
            self.wf() ==> copy.wf() && copy@ == self@,
    {
        let mut services: Vec<Service> = Vec::new();
        let mut i: usize = 0;
        while i < self.services.len()
            invariant
                i <= self.services@.len(),
                services@.len() == i,
                forall|k: int|
                    0 <= k < i && self.services@[k].properties.wf() ==> (
                    #[trigger] services@[k]).properties.wf() && services@[k]@
                        == self.services@[k]@,
            decreases self.services@.len() - i,
        {
            services.push(self.services[i].clone());
            i += 1;
        }
        proof {
            if self.wf() {
                assert(services_view(services@) =~= services_view(self.services@));
            }
        }
        Endpoint {
            name: copy_text(&self.name),
            address: self.address.clone(),
            local: self.local,
            services,
            fingerprint: match &self.fingerprint {
                Some(found) => Some(found.clone()),
                None => None,
            },
        }
    }
}

impl Endpoint {
    /// The endpoint's invariant: no two of its services have the same name,
    /// and the property store of each is well formed.
    pub closed spec fn wf(&self) -> bool {
        &&& names_distinct(services_view(self.services@))
        &&& forall|i: int|
            0 <= i < self.services@.len() ==> (#[trigger] self.services@[i]).properties.wf()
    }

    /// A well-formed endpoint has each service name once.
    pub proof fn lemma_names_distinct(&self)
        requires
            self.wf(),
        ensures
            names_distinct(self@.services),
    {
    }

    /// The resolved name, if the endpoint has one.
    pub fn name(&self) -> (name: &Option<String>)
        ensures
            option_text(*name) == self@.name,
    {
        &self.name
    }

    /// The address, in its textual form.
    pub fn address(&self) -> (address: &String)
        ensures
            address@ == self@.address,
    {
        &self.address
    }

    /// Whether the address is one of this host's own.
    pub fn local(&self) -> (local: bool)
        ensures
            local == self@.local,
    {
        self.local
    }

    /// The services, in the order in which they were first seen.
    pub fn services(&self) -> (services: &Vec<Service>)
        ensures
            services_view(services@) == self@.services,
            self.wf() ==> forall|i: int|
                0 <= i < services@.len() ==> (#[trigger] services@[i]).properties.wf(),
    {
        &self.services
    }

    /// The fingerprint, once one was found.
    pub fn fingerprint(&self) -> (fingerprint: &Option<Fingerprint>)
        ensures
            option_fingerprint(*fingerprint) == self@.fingerprint,
    {
        &self.fingerprint
    }

    /// Puts an endpoint together from its fields, as they were read from an
    /// endpoint before. Of services with the same name the first stays.
    pub fn from_parts(
        name: Option<String>,
        address: String,
        local: bool,
        services: Vec<Service>,
        fingerprint: Option<Fingerprint>,
    ) -> (endpoint: Endpoint)
        requires
            forall|i: int| 0 <= i < services@.len() ==> (#[trigger] services@[i]).properties.wf(),
        ensures
            endpoint.wf(),
            endpoint@ == (EndpointView {
                name: option_text(name),
                address: address@,
                local,
                services: first_of_name(services_view(services@), services@.len() as int),
                fingerprint: option_fingerprint(fingerprint),
            }),
    {
        let ghost given = services@;
        let ghost total = given.len() as int;
        let mut services = services;
        let mut reversed: Vec<Service> = Vec::new();
        while services.len() > 0
            invariant
                services@.len() + reversed@.len() == total,
                total == given.len(),
                forall|j: int| 0 <= j < services@.len() ==> services@[j] == given[j],
                forall|j: int| 0 <= j < reversed@.len() ==> reversed@[j] == given[total - 1 - j],
            decreases services@.len(),
        {
            match services.pop() {
                Some(last) => reversed.push(last),
                None => {},
            }
        }
        let mut kept: Vec<Service> = Vec::new();
        while reversed.len() > 0
            invariant
                reversed@.len() <= total,
                total == given.len(),
                forall|j: int| 0 <= j < reversed@.len() ==> reversed@[j] == given[total - 1 - j],
                forall|i: int| 0 <= i < given.len() ==> (#[trigger] given[i]).properties.wf(),
                services_view(kept@) == first_of_name(services_view(given), total - reversed@.len()),
                names_distinct(services_view(kept@)),
                forall|i: int| 0 <= i < kept@.len() ==> (#[trigger] kept@[i]).properties.wf(),
            decreases reversed@.len(),
        {
            let ghost done = total - reversed@.len();
            let ghost before = services_view(kept@);
            match reversed.pop() {
                Some(next) => {
                    assert(next == given[done]);
                    assert(services_view(given)[done] == next@);
                    if !holds_name(&kept, next.name.as_str()) {
                        kept.push(next);
                        proof {
                            let after = services_view(kept@);
                            assert(after =~= before.push(next@));
                            assert forall|a: int, b: int|
                                0 <= a < after.len() && 0 <= b < after.len() && a != b implies (
                            #[trigger] after[a]).name != (#[trigger] after[b]).name by {
                                if a < before.len() {
                                    assert(!named_at(before, next@.name, a));
                                }
                                if b < before.len() {
                                    assert(!named_at(before, next@.name, b));
                                }
                            }
                        }
                    }
                },
                None => {},
            }
        }
        Endpoint { name, address, local, services: kept, fingerprint }
    }

    /// Makes the endpoint for a newly seen address and brings `records` in.
    /// `resolved` is what the reverse lookup of the address gave, if it gave
    /// anything, and `interfaces` are the addresses bound to this host's
    /// network interfaces.
    pub fn with_services(
        address: &str,
        resolved: Option<String>,
        interfaces: &Vec<String>,
        records: &Vec<Record>,
    ) -> (endpoint: Endpoint)
        ensures
            endpoint.wf(),
            endpoint@ == applied_all(
                created(address@, option_text(resolved), texts(interfaces@)),
                records_view(records@),
                records@.len() as int,
            ),
    {
        let name = match resolved {
            Some(name) => {
                if same_text(name.as_str(), address) {
                    None
                } else {
                    Some(name)
                }
            },
            None => None,
        };
        let mut local = false;
        let mut i: usize = 0;
        while i < interfaces.len()
            invariant
                i <= interfaces@.len(),
                local == texts(interfaces@).take(i as int).contains(address@),
            decreases interfaces@.len() - i,
        {
            let ghost seen = texts(interfaces@).take(i as int);
            let ghost more = texts(interfaces@).take(i + 1);
            if same_text(interfaces[i].as_str(), address) {
                local = true;
                assert(more[i as int] == address@);
            } else {
                proof {
                    assert(more.drop_last() =~= seen);
                    if more.contains(address@) {
                        let at = choose|at: int| 0 <= at < more.len() && more[at] == address@;
                        assert(seen[at] == address@);
                    }
                    if seen.contains(address@) {
                        let at = choose|at: int| 0 <= at < seen.len() && seen[at] == address@;
                        assert(more[at] == address@);
                    }
                }
            }
            i += 1;
        }
        assert(texts(interfaces@).take(i as int) =~= texts(interfaces@));
        let mut endpoint = Endpoint {
            name,
            local,
            address: String::from_str(address),
            services: Vec::new(),
            fingerprint: None,
        };
        assert(endpoint@.services =~= Seq::<ServiceView>::empty());
        endpoint.add_services(records);
        endpoint
    }

    /// The properties that one record gives: by the type of the record, the
    /// key and the value or values that go under it.
    pub fn parse_properties(data: &RecordData) -> (properties: Properties)
        ensures
            properties.wf(),
            properties@ == properties_of(data@),
    {
        let mut properties = Properties::new();
        match data {
            RecordData::A(text) => {
                properties.add("ipv4", text.clone());
                assert(properties@ =~= single("ipv4"@, text@));
            },
            RecordData::Aaaa(text) => {
                properties.add("ipv6", text.clone());
                assert(properties@ =~= single("ipv6"@, text@));
            },
            RecordData::Ptr(target) => {
                properties.add("name", target.clone());
                assert(properties@ =~= single("name"@, target@));
            },
            RecordData::Srv { target, port } => {
                let mut server = chars_of(target.as_str());
                server.push(':');
                push_decimal(&mut server, *port as u64);
                assert(server@ =~= server_text(target@, *port));
                properties.add("server", string_of(&server));
                assert(properties@ =~= single("server"@, server_text(target@, *port)));
            },
            RecordData::Txt(chunks) => {
                let ghost all = crate::record::chunks_view(chunks@);
                let mut i: usize = 0;
                while i < chunks.len()
                    invariant
                        i <= chunks@.len(),
                        all == crate::record::chunks_view(chunks@),
                        properties.wf(),
                        properties@ == text_properties(all, i as int),
                    decreases chunks@.len() - i,
                {
                    let chunk = chunks[i].as_slice();
                    assert(chunk@ == all[i as int]);
                    if chunk.len() > 0 {
                        match utf8_text(chunk) {
                            Some(text) => properties.add("text", text),
                            None => properties.add("text", render_bytes(chunk)),
                        }
                    }
                    i += 1;
                }
            },
            RecordData::Other { tag, payload } => {
                properties.add(tag.as_str(), payload.clone());
                assert(properties@ =~= single(tag@, payload@));
            },
        }
        properties
    }

    fn position(&self, name: &str) -> (found: Option<usize>)
        ensures
            found matches Some(i) ==> named_at(self@.services, name@, i as int),
            found is None ==> !has_service(self@.services, name@),
    {
        position_of(&self.services, name)
    }

    /// Brings one record in.
    pub fn add_service(&mut self, record: &Record)
        requires
            old(self).wf(),
        ensures
            final(self).wf(),
            final(self)@ == applied(old(self)@, record@),
    {
        if same_text(record.name.as_str(), DNS_ENUMERATION_SERVICE_NAME) {
            return ;
        }
        let ghost before = self@;
        let properties = Endpoint::parse_properties(&record.data);
        if self.name.is_none() && properties.has_ip() {
            self.name = Some(record.name.clone());
        }
        match self.position(record.name.as_str()) {
            Some(i) => {
                let ghost at = service_slot(before.services, record.name@);
                proof {
                    assert(named_at(before.services, record.name@, i as int));
                    assert(named_at(before.services, record.name@, at));
                    assert(at == i);
                }
                self.services[i].properties.merge(&properties);
                assert(self@.services =~= upserted(before.services, record.name@, properties@));
                assert(names_distinct(self@.services)) by {
                    assert forall|a: int, b: int|
                        0 <= a < self@.services.len() && 0 <= b < self@.services.len() && a
                            != b implies (#[trigger] self@.services[a]).name != (
                    #[trigger] self@.services[b]).name by {
                        assert(self@.services[a].name == before.services[a].name);
                        assert(self@.services[b].name == before.services[b].name);
                    }
                }
            },
            None => {
                let description = get_service_description(record.name.as_str());
                let ghost count = self.services@.len() as int;
                self.services.push(Service { name: record.name.clone(), description, properties });
                assert(self@.services =~= upserted(before.services, record.name@, properties@));
                assert(names_distinct(self@.services)) by {
                    assert forall|a: int, b: int|
                        0 <= a < self@.services.len() && 0 <= b < self@.services.len() && a
                            != b implies (#[trigger] self@.services[a]).name != (
                    #[trigger] self@.services[b]).name by {
                        if a < count {
                            assert(self@.services[a] == before.services[a]);
                            assert(!named_at(before.services, record.name@, a));
                        }
                        if b < count {
                            assert(self@.services[b] == before.services[b]);
                            assert(!named_at(before.services, record.name@, b));
                        }
                    }
                }
            },
        }
        if self.fingerprint.is_none() {
            self.fingerprint = match_services(&self.services);
        }
    }

    /// Brings `records` in, one after the other.
    pub fn add_services(&mut self, records: &Vec<Record>)
        requires
            old(self).wf(),
        ensures
            final(self).wf(),
            final(self)@ == applied_all(old(self)@, records_view(records@), records@.len() as int),
    {
        let mut i: usize = 0;
        while i < records.len()
            invariant
                i <= records@.len(),
                self.wf(),
                self@ == applied_all(old(self)@, records_view(records@), i as int),
            decreases records@.len() - i,
        {
            self.add_service(&records[i]);
            i += 1;
        }
    }
}

fn position_of(services: &Vec<Service>, name: &str) -> (found: Option<usize>)
    ensures
        found matches Some(i) ==> named_at(services_view(services@), name@, i as int),
        found is None ==> !has_service(services_view(services@), name@),
{
    let mut i: usize = 0;
    while i < services.len()
        invariant
            i <= services@.len(),
            forall|k: int| 0 <= k < i ==> !named_at(services_view(services@), name@, k),
        decreases services@.len() - i,
    {
        if same_text(services[i].name.as_str(), name) {
            return Some(i);
        }
        i += 1;
    }
    None
}

fn holds_name(services: &Vec<Service>, name: &str) -> (found: bool)
    ensures
        found == has_service(services_view(services@), name@),
{
    position_of(services, name).is_some()
}

/// What an endpoint has settled stays: records change neither its address
/// nor whether it is local, nor a name or a fingerprint that it has.
pub proof fn lemma_settled_fields_stay(endpoint: EndpointView, records: Seq<RecordView>, count: int)
    ensures
        applied_all(endpoint, records, count).address == endpoint.address,
        applied_all(endpoint, records, count).local == endpoint.local,
        endpoint.name is Some ==> applied_all(endpoint, records, count).name == endpoint.name,
        endpoint.fingerprint is Some ==> applied_all(endpoint, records, count).fingerprint
            == endpoint.fingerprint,
    decreases count,
{
    if count > 0 {
        lemma_settled_fields_stay(endpoint, records, count - 1);
    }
}

/// Whether a record can give an endpoint its name: it stands under another
/// name than the enumeration name and carries an address.
pub open spec fn names_endpoint(record: RecordView) -> bool {
    record.name != enumeration_name() && holds_address(properties_of(record.data))
}

/// The first record that carries an address wins: an endpoint without a name
/// takes the owner name of the first such record, whatever comes after it.
pub proof fn lemma_name_adopted(
    endpoint: EndpointView,
    records: Seq<RecordView>,
    first: int,
    count: int,
)
    requires
        endpoint.name is None,
        0 <= first < count <= records.len(),
        names_endpoint(records[first]),
        forall|i: int| 0 <= i < first ==> !names_endpoint(#[trigger] records[i]),
    ensures
        applied_all(endpoint, records, count).name == Some(records[first].name),
    decreases count,
{
    if count - 1 > first {
        lemma_name_adopted(endpoint, records, first, count - 1);
    } else {
        lemma_name_waits(endpoint, records, first);
    }
}

proof fn lemma_name_waits(endpoint: EndpointView, records: Seq<RecordView>, count: int)
    requires
        endpoint.name is None,
        0 <= count <= records.len(),
        forall|i: int| 0 <= i < count ==> !names_endpoint(#[trigger] records[i]),
    ensures
        applied_all(endpoint, records, count).name is None,
    decreases count,
{
    if count > 0 {
        lemma_name_waits(endpoint, records, count - 1);
        assert(!names_endpoint(records[count - 1]));
    }
}

/// Where no two services have the same name, each is the first of its name.
pub proof fn lemma_first_of_name_distinct(services: Seq<ServiceView>, count: int)
    requires
        names_distinct(services),
        0 <= count <= services.len(),
    ensures
        first_of_name(services, count) == services.take(count),
    decreases count,
{
    if count > 0 {
        lemma_first_of_name_distinct(services, count - 1);
        let before = first_of_name(services, count - 1);
        let name = services[count - 1].name;
        if has_service(before, name) {
            let at = choose|at: int| named_at(before, name, at);
            assert(named_at(before, name, at));
            assert(before[at] == services[at]);
            assert(services[at].name != services[count - 1].name);
        }
        assert(before.push(services[count - 1]) =~= services.take(count));
    } else {
        assert(services.take(0) =~= Seq::<ServiceView>::empty());
    }
}

/// An endpoint that is taken apart and put together again is the endpoint
/// that it was: its fields, given to `from_parts`, give its model back.
pub proof fn lemma_parts_round_trip(endpoint: EndpointView)
    requires
        names_distinct(endpoint.services),
    ensures
        (EndpointView {
            services: first_of_name(endpoint.services, endpoint.services.len() as int),
            ..endpoint
        }) == endpoint,
{
    lemma_first_of_name_distinct(endpoint.services, endpoint.services.len() as int);
    assert(endpoint.services.take(endpoint.services.len() as int) =~= endpoint.services);
}

} // verus!
