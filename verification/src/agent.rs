//! The discovery agent: the channel, the registry of endpoints by address,
//! and what each incoming datagram does to them. The caller runs the loop: it
//! sends what is due, receives, looks a new address up, and tells its observer
//! when the registry has changed.

use vstd::prelude::*;
use crate::channel::{option_message, received, response_of, Channel, ChannelView};
use crate::endpoint::{
    applied_all, created, lemma_settled_fields_stay, option_text, Endpoint, EndpointView,
};
use crate::properties::texts;
use crate::record::{records_view, Message, MessageView, Record, RecordView};
use crate::text::same_text;
use crate::wire::decoded;

verus! {

/// The agent's state between two of its steps.
pub struct Agent {
    channel: Channel,
    endpoints: Vec<Endpoint>,
    filter_for: Option<String>,
}

/// The model of `Agent`.
pub struct AgentView {
    /// The channel.
    pub channel: ChannelView,
    /// The registry: the endpoints, in the order in which they were first seen.
    pub endpoints: Seq<EndpointView>,
    /// The one source address whose responses update the registry, if the
    /// agent is held to one.
    pub filter_for: Option<Seq<char>>,
}

/// What the caller does after a datagram.
pub enum Outcome {
    /// The registry is as it was: go on with the next cycle.
    Discarded,
    /// An endpoint of the registry took the records in: tell the observer.
    Updated,
    /// The source is not in the registry: look it up, then `register` it with
    /// this message.
    Unknown(Message),
}

/// The model of `Outcome`.
pub enum OutcomeView {
    Discarded,
    Updated,
    Unknown(MessageView),
}

impl View for Outcome {
    type V = OutcomeView;

    open spec fn view(&self) -> OutcomeView {
        match *self {
            Outcome::Discarded => OutcomeView::Discarded,
            Outcome::Updated => OutcomeView::Updated,
            Outcome::Unknown(message) => OutcomeView::Unknown(message@),
        }
    }
}

/// The models of a list of endpoints.
pub open spec fn endpoints_view(endpoints: Seq<Endpoint>) -> Seq<EndpointView> {
    Seq::new(endpoints.len(), |i: int| endpoints[i]@)
}

/// The endpoint at position `i` has the address `address`.
pub open spec fn at_address(endpoints: Seq<EndpointView>, address: Seq<char>, i: int) -> bool {
    0 <= i < endpoints.len() && endpoints[i].address == address
}

/// The registry holds an endpoint with the address `address`.
pub open spec fn knows(endpoints: Seq<EndpointView>, address: Seq<char>) -> bool {
    exists|i: int| at_address(endpoints, address, i)
}

/// The position of an endpoint with the address `address`.
pub open spec fn slot_of(endpoints: Seq<EndpointView>, address: Seq<char>) -> int {
    choose|i: int| at_address(endpoints, address, i)
}

/// No two endpoints have the same address.
pub open spec fn addresses_distinct(endpoints: Seq<EndpointView>) -> bool {
    forall|i: int, j: int|
        0 <= i < endpoints.len() && 0 <= j < endpoints.len() && i != j ==> (
        #[trigger] endpoints[i]).address != (#[trigger] endpoints[j]).address
}

/// Whether a source passes the filter: any source where there is no filter,
/// else the one whose text the filter is.
pub open spec fn passes(filter_for: Option<Seq<char>>, source: Seq<char>) -> bool {
    match filter_for {
        Some(address) => address == source,
        None => true,
    }
}

/// The message that is applied to the registry, if any: a response from a
/// source that passes the filter, with at least one record.
pub open spec fn applicable(
    filter_for: Option<Seq<char>>,
    source: Seq<char>,
    response: Option<MessageView>,
) -> Option<MessageView> {
    match response {
        Some(message) => if passes(filter_for, source) && message.records.len() > 0 {
            Some(message)
        } else {
            None
        },
        None => None,
    }
}

/// The registry after the endpoint at `source` took `records` in.
pub open spec fn updated(
    endpoints: Seq<EndpointView>,
    source: Seq<char>,
    records: Seq<RecordView>,
) -> Seq<EndpointView> {
    let at = slot_of(endpoints, source);
    endpoints.update(at, applied_all(endpoints[at], records, records.len() as int))
}

/// The registry after a response was routed: the endpoint at the source, if
/// there is one, takes the records of an applicable message in.
pub open spec fn routed(
    endpoints: Seq<EndpointView>,
    filter_for: Option<Seq<char>>,
    source: Seq<char>,
    response: Option<MessageView>,
) -> Seq<EndpointView> {
    match applicable(filter_for, source, response) {
        Some(message) => if knows(endpoints, source) {
            updated(endpoints, source, message.records)
        } else {
            endpoints
        },
        None => endpoints,
    }
}

/// What the caller is told after a response was routed.
pub open spec fn outcome_of(
    endpoints: Seq<EndpointView>,
    filter_for: Option<Seq<char>>,
    source: Seq<char>,
    response: Option<MessageView>,
) -> OutcomeView {
    match applicable(filter_for, source, response) {
        Some(message) => if knows(endpoints, source) {
            OutcomeView::Updated
        } else {
            OutcomeView::Unknown(message)
        },
        None => OutcomeView::Discarded,
    }
}

/// The registry after `records` from `source` were registered: the endpoint at
/// the source takes them in or, where there is none, a new endpoint is made
/// for the source, takes them in and goes to the end of the registry.
pub open spec fn registered(
    endpoints: Seq<EndpointView>,
    source: Seq<char>,
    resolved: Option<Seq<char>>,
    interfaces: Seq<Seq<char>>,
    records: Seq<RecordView>,
) -> Seq<EndpointView> {
    if knows(endpoints, source) {
        updated(endpoints, source, records)
    } else {
        endpoints.push(
            applied_all(created(source, resolved, interfaces), records, records.len() as int),
        )
    }
}

/// The response that a datagram holds, if it holds one.
pub open spec fn response_in(datagram: Seq<u8>) -> Option<MessageView> {
    match decoded(datagram) {
        Some(message) => response_of(message),
        None => None,
    }
}

impl View for Agent {
    type V = AgentView;

    closed spec fn view(&self) -> AgentView {
        AgentView {
            channel: self.channel@,
            endpoints: endpoints_view(self.endpoints@),
            filter_for: option_text(self.filter_for),
        }
    }
}

impl Agent {
    /// The agent's invariant: its channel and its endpoints are well formed,
    /// and the registry holds one endpoint for each address.
    pub closed spec fn wf(&self) -> bool {
        &&& self.channel.wf()
        &&& forall|i: int| 0 <= i < self.endpoints@.len() ==> (#[trigger] self.endpoints@[i]).wf()
        &&& addresses_distinct(endpoints_view(self.endpoints@))
    }

    /// A well-formed agent holds one endpoint for each address.
    pub proof fn lemma_addresses_distinct(&self)
        requires
            self.wf(),
        ensures
            addresses_distinct(self@.endpoints),
    {
    }

    /// An agent with an empty registry, whose channel asks every
    /// `query_time_secs` seconds unless it is passive, and which takes
    /// responses from `filter_for` alone where that is given.
    pub fn new(query_time_secs: u64, passive: bool, filter_for: Option<String>) -> (agent: Agent)
        ensures
            agent.wf(),
            agent@.channel == Channel::new_view(query_time_secs, passive),
            agent@.endpoints == Seq::<EndpointView>::empty(),
            agent@.filter_for == option_text(filter_for),
    {
        let channel = Channel::new(query_time_secs, passive);
        let agent = Agent { channel, endpoints: Vec::new(), filter_for };
        assert(agent@.endpoints =~= Seq::<EndpointView>::empty());
        agent
    }

    /// The channel.
    pub fn channel(&self) -> (channel: &Channel)
        ensures
            channel@ == self@.channel,
            self.wf() ==> channel.wf(),
    {
        &self.channel
    }

    /// The registry: the endpoints, in the order in which they were first
    /// seen.
    pub fn endpoints(&self) -> (endpoints: &Vec<Endpoint>)
        ensures
            endpoints_view(endpoints@) == self@.endpoints,
            self.wf() ==> forall|i: int|
                0 <= i < endpoints@.len() ==> (#[trigger] endpoints@[i]).wf(),
    {
        &self.endpoints
    }

    /// The endpoint with the address `address`, if the registry holds one.
    pub fn endpoint(&self, address: &str) -> (found: Option<&Endpoint>)
        ensures
            found is Some <==> knows(self@.endpoints, address@),
            found matches Some(endpoint) ==> endpoint@.address == address@
                && self@.endpoints.contains(endpoint@),
            found matches Some(endpoint) ==> (self.wf() ==> endpoint.wf()),
    {
        match self.position(address) {
            Some(at) => {
                assert(self@.endpoints[at as int] == self.endpoints@[at as int]@);
                Some(&self.endpoints[at])
            },
            None => None,
        }
    }

    /// The query to send at `now`, if one is due.
    pub fn send_query_if_needed(&self, now: u64) -> (query: Option<&Vec<u8>>)
        ensures
            query is Some <==> crate::channel::query_due(self@.channel, now),
            query matches Some(packet) ==> packet@ == self@.channel.query_data,
    {
        self.channel.send_query_if_needed(now)
    }

    /// Records that the query went out at `now`.
    pub fn query_sent(&mut self, now: u64)
        requires
            old(self).wf(),
        ensures
            final(self).wf(),
            final(self)@ == (AgentView {
                channel: ChannelView { last_query: Some(now), ..old(self)@.channel },
                ..old(self)@
            }),
    {
        self.channel.query_sent(now);
    }

    fn position(&self, address: &str) -> (found: Option<usize>)
        ensures
            found matches Some(i) ==> at_address(self@.endpoints, address@, i as int),
            found is None ==> !knows(self@.endpoints, address@),
    {
        let mut i: usize = 0;
        while i < self.endpoints.len()
            invariant
                i <= self.endpoints@.len(),
                forall|k: int| 0 <= k < i ==> !at_address(self@.endpoints, address@, k),
            decreases self.endpoints@.len() - i,
        {
            if same_text(self.endpoints[i].address().as_str(), address) {
                return Some(i);
            }
            i += 1;
        }
        None
    }

    fn update(&mut self, at: usize, records: &Vec<Record>)
        requires
            old(self).wf(),
            at < old(self)@.endpoints.len(),
        ensures
            final(self).wf(),
            final(self)@ == (AgentView {
                endpoints: updated(
                    old(self)@.endpoints,
                    old(self)@.endpoints[at as int].address,
                    records_view(records@),
                ),
                ..old(self)@
            }),
    {
        let ghost before = self@.endpoints;
        let ghost source = before[at as int].address;
        proof {
            assert(at_address(before, source, at as int));
            let chosen = slot_of(before, source);
            assert(at_address(before, source, chosen));
            assert(chosen == at);
        }
        self.endpoints[at].add_services(records);
        proof {
            let after = self@.endpoints;
            lemma_settled_fields_stay(
                before[at as int],
                records_view(records@),
                records@.len() as int,
            );
            assert(after =~= updated(before, source, records_view(records@)));
            assert forall|i: int, j: int|
                0 <= i < after.len() && 0 <= j < after.len() && i != j implies (
            #[trigger] after[i]).address != (#[trigger] after[j]).address by {
                assert(after[i].address == before[i].address);
                assert(after[j].address == before[j].address);
            }
        }
    }

    /// Routes what the channel made of a datagram from `source`. A response
    /// with at least one record, from a source that passes the filter, is
    /// applied: the endpoint at the source takes its records in, or the
    /// caller is asked to look the source up. Anything else is discarded.
    pub fn route(&mut self, source: &str, response: Option<Message>) -> (outcome: Outcome)
        requires
            old(self).wf(),
        ensures
            final(self).wf(),
            final(self)@ == (AgentView {
                endpoints: routed(
                    old(self)@.endpoints,
                    old(self)@.filter_for,
                    source@,
                    option_message(response),
                ),
                ..old(self)@
            }),
            outcome@ == outcome_of(
                old(self)@.endpoints,
                old(self)@.filter_for,
                source@,
                option_message(response),
            ),
    {
        let message = match response {
            Some(message) => message,
            None => {
                return Outcome::Discarded;
            },
        };
        match &self.filter_for {
            Some(address) => {
                if !same_text(source, address.as_str()) {
                    return Outcome::Discarded;
                }
            },
            None => {},
        }
        if message.records.len() == 0 {
            return Outcome::Discarded;
        }
        match self.position(source) {
            Some(at) => {
                self.update(at, &message.records);
                Outcome::Updated
            },
            None => Outcome::Unknown(message),
        }
    }

    /// Takes in a datagram from `source`: the channel reads it and learns
    /// from it, and the response in it, if there is one, is routed.
    pub fn read_packet(&mut self, source: &str, datagram: &[u8]) -> (outcome: Outcome)
        requires
            old(self).wf(),
        ensures
            final(self).wf(),
            final(self)@ == (AgentView {
                channel: received(old(self)@.channel, datagram@),
                endpoints: routed(
                    old(self)@.endpoints,
                    old(self)@.filter_for,
                    source@,
                    response_in(datagram@),
                ),
                filter_for: old(self)@.filter_for,
            }),
            outcome@ == outcome_of(
                old(self)@.endpoints,
                old(self)@.filter_for,
                source@,
                response_in(datagram@),
            ),
    {
        let response = self.channel.read_packet(datagram);
        self.route(source, response)
    }

    /// Registers the records of a message from `source`: into the endpoint at
    /// that address or, where the registry has none, into a new one, made
    /// with what the reverse lookup of the address gave and the addresses of
    /// this host's network interfaces.
    pub fn register(
        &mut self,
        source: &str,
        resolved: Option<String>,
        interfaces: &Vec<String>,
        message: &Message,
    )
        requires
            old(self).wf(),
        ensures
            final(self).wf(),
            final(self)@ == (AgentView {
                endpoints: registered(
                    old(self)@.endpoints,
                    source@,
                    option_text(resolved),
                    texts(interfaces@),
                    message@.records,
                ),
                ..old(self)@
            }),
    {
        let ghost before = self@.endpoints;
        match self.position(source) {
            Some(at) => {
                self.update(at, &message.records);
            },
            None => {
                let endpoint = Endpoint::with_services(
                    source,
                    resolved,
                    interfaces,
                    &message.records,
                );
                proof {
                    lemma_settled_fields_stay(
                        created(source@, option_text(resolved), texts(interfaces@)),
                        message@.records,
                        message@.records.len() as int,
                    );
                }
                self.endpoints.push(endpoint);
                proof {
                    let after = self@.endpoints;
                    assert(after =~= before.push(endpoint@));
                    assert forall|i: int, j: int|
                        0 <= i < after.len() && 0 <= j < after.len() && i != j implies (
                    #[trigger] after[i]).address != (#[trigger] after[j]).address by {
                        if i < before.len() {
                            assert(!at_address(before, source@, i));
                        }
                        if j < before.len() {
                            assert(!at_address(before, source@, j));
                        }
                    }
                }
            },
        }
    }
}

/// A datagram from a source that the filter does not name leaves the
/// registry as it was, whatever it holds.
pub proof fn lemma_filtered_out(
    endpoints: Seq<EndpointView>,
    filter_for: Seq<char>,
    source: Seq<char>,
    response: Option<MessageView>,
)
    requires
        source != filter_for,
    ensures
        routed(endpoints, Some(filter_for), source, response) == endpoints,
        outcome_of(endpoints, Some(filter_for), source, response) == OutcomeView::Discarded,
{
}

} // verus!
