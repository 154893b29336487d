//! The query scheduler of the multicast channel: when a query is due, what
//! it asks, and what an incoming datagram changes. The socket and the clock
//! belong to the caller, who reports the time as nanoseconds on a clock that
//! does not run backwards.

use vstd::prelude::*;
use crate::question::{observed_all, Question};
use crate::record::{Message, MessageView};
use crate::wire::{decode, decoded, query_bytes};

verus! {

/// The nanoseconds in a second.
pub const NANOS_PER_SECOND: u64 = 1_000_000_000;

/// The state of the channel between two of its steps.
pub struct Channel {
    passive: bool,
    query_time: u64,
    last_query: Option<u64>,
    question: Question,
    query_data: Vec<u8>,
}

/// The model of `Channel`.
pub struct ChannelView {
    /// Whether the channel only listens.
    pub passive: bool,
    /// The seconds between two queries.
    pub query_time: u64,
    /// When the last query went out, if one did since the question last grew.
    pub last_query: Option<u64>,
    /// The service types asked for.
    pub question: Seq<Seq<char>>,
    /// The query that goes out next.
    pub query_data: Seq<u8>,
}

/// The time that went by from `earlier` to `now`; none where the clock was
/// read out of order.
pub open spec fn elapsed(earlier: u64, now: u64) -> int {
    if now >= earlier {
        now - earlier
    } else {
        0
    }
}

/// Whether a query is due at `now`: never on a passive channel; else if none
/// went out yet, or the last one went out at least the query interval ago.
pub open spec fn query_due(channel: ChannelView, now: u64) -> bool {
    !channel.passive && match channel.last_query {
        None => true,
        Some(last) => elapsed(last, now) >= channel.query_time * NANOS_PER_SECOND,
    }
}

/// The channel after a message came in: where its records teach new service
/// types, the question grows, the query is rebuilt for it and is due at once.
pub open spec fn accepted(channel: ChannelView, message: MessageView) -> ChannelView {
    let question = observed_all(channel.question, message.records, message.records.len() as int);
    if question != channel.question {
        ChannelView {
            passive: channel.passive,
            query_time: channel.query_time,
            last_query: None,
            question,
            query_data: query_bytes(question),
        }
    } else {
        channel
    }
}

/// The channel after a datagram came in: unchanged where the datagram holds
/// no well-formed message.
pub open spec fn received(channel: ChannelView, datagram: Seq<u8>) -> ChannelView {
    match decoded(datagram) {
        Some(message) => accepted(channel, message),
        None => channel,
    }
}

/// What a message hands on to the caller: itself if it is a response,
/// nothing if it is a query.
pub open spec fn response_of(message: MessageView) -> Option<MessageView> {
    if message.query {
        None
    } else {
        Some(message)
    }
}

/// The model of an optional message.
pub open spec fn option_message(message: Option<Message>) -> Option<MessageView> {
    match message {
        Some(m) => Some(m@),
        None => None,
    }
}

impl View for Channel {
    type V = ChannelView;

    closed spec fn view(&self) -> ChannelView {
        ChannelView {
            passive: self.passive,
            query_time: self.query_time,
            last_query: self.last_query,
            question: self.question@,
            query_data: self.query_data@,
        }
    }
}

impl Channel {
    /// The channel's invariant: its question is well formed, and the query
    /// that goes out next is the one for that question.
    pub closed spec fn wf(&self) -> bool {
        &&& self.question.wf()
        &&& self.query_data@ == query_bytes(self.question@)
    }

    /// A well-formed channel holds the query for its question.
    pub proof fn lemma_query_current(&self)
        requires
            self.wf(),
        ensures
            self@.query_data == query_bytes(self@.question),
            crate::question::askable_set(self@.question),
    {
    }

    /// The model of a new channel: it knows the enumeration service alone
    /// and has sent nothing yet.
    pub open spec fn new_view(query_time_secs: u64, passive: bool) -> ChannelView {
        ChannelView {
            passive,
            query_time: query_time_secs,
            last_query: None,
            question: seq![crate::record::enumeration_name()],
            query_data: query_bytes(seq![crate::record::enumeration_name()]),
        }
    }

    /// A channel that asks every `query_time_secs` seconds, or never if it is
    /// passive. It starts with the question for the enumeration service and
    /// has sent nothing yet.
    pub fn new(query_time_secs: u64, passive: bool) -> (channel: Channel)
        ensures
            channel.wf(),
            channel@ == Channel::new_view(query_time_secs, passive),
    {
        let question = Question::new();
        let query_data = question.query();
        Channel { passive, query_time: query_time_secs, last_query: None, question, query_data }
    }

    /// Whether the channel only listens.
    pub fn passive(&self) -> (passive: bool)
        ensures
            passive == self@.passive,
    {
        self.passive
    }

    /// The question that the channel asks.
    pub fn question(&self) -> (question: &Question)
        ensures
            question@ == self@.question,
            self.wf() ==> question.wf(),
    {
        &self.question
    }

    /// The query to send at `now`, if one is due.
    pub fn send_query_if_needed(&self, now: u64) -> (query: Option<&Vec<u8>>)
        ensures
            query is Some <==> query_due(self@, now),
            query matches Some(packet) ==> packet@ == self@.query_data,
    {
        if self.passive {
            return None;
        }
        let due = match self.last_query {
            None => true,
            Some(last) => {
                let gone: u64 = if now >= last {
                    now - last
                } else {
                    0
                };
                gone as u128 >= self.query_time as u128 * NANOS_PER_SECOND as u128
            },
        };
        if due {
            Some(&self.query_data)
        } else {
            None
        }
    }

    /// Records that the query went out at `now`.
    pub fn query_sent(&mut self, now: u64)
        requires
            old(self).wf(),
        ensures
            final(self).wf(),
            final(self)@ == (ChannelView { last_query: Some(now), ..old(self)@ }),
    {
        self.last_query = Some(now);
    }

    /// Takes in a message: its records may teach the question new service
    /// types. Hands the message on if it is a response.
    pub fn accept(&mut self, message: Message) -> (response: Option<Message>)
        requires
            old(self).wf(),
        ensures
            final(self).wf(),
            final(self)@ == accepted(old(self)@, message@),
            option_message(response) == response_of(message@),
    {
        match self.question.add_services(&message.records) {
            Some(query) => {
                self.query_data = query;
                self.last_query = None;
            },
            None => {},
        }
        if !message.query {
            Some(message)
        } else {
            None
        }
    }

    /// Takes in a datagram: reads the message in it, lets its records teach
    /// the question new service types, and hands the message on if it is a
    /// response. A datagram that holds no well-formed message changes nothing
    /// and gives nothing.
    pub fn read_packet(&mut self, datagram: &[u8]) -> (response: Option<Message>)
        requires
            old(self).wf(),
        ensures
            final(self).wf(),
            final(self)@ == received(old(self)@, datagram@),
            option_message(response) == match decoded(datagram@) {
                Some(message) => response_of(message),
                None => None,
            },
    {
        match decode(datagram) {
            Some(message) => self.accept(message),
            None => None,
        }
    }
}

} // verus!
