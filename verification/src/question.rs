//! The service question: the growing set of service types that discovery
//! asks for, which starts with the DNS-SD enumeration service.

use vstd::prelude::*;
use crate::properties::texts;
use crate::record::{
    enumeration_name, records_view, Record, RecordData, RecordDataView, RecordView,
    DNS_ENUMERATION_SERVICE_NAME,
};
use crate::text::same_text;
use crate::wire::{askable, build_query, is_askable, query_bytes};

verus! {

/// The most service types that one question can hold.
pub const MAX_SERVICES: usize = 65535;

/// The service types asked for, in the order in which they were learned.
pub struct Question {
    services: Vec<String>,
}

/// The service type that a record teaches, if it teaches one: the target of
/// a pointer record under the enumeration name.
pub open spec fn announced(record: RecordView) -> Option<Seq<char>> {
    if record.name == enumeration_name() {
        match record.data {
            RecordDataView::Ptr(target) => Some(target),
            _ => None,
        }
    } else {
        None
    }
}

/// Whether a service type joins the known ones: it is not among them yet, it
/// can stand in a question, and there is room for it.
pub open spec fn admits(known: Seq<Seq<char>>, target: Seq<char>) -> bool {
    !known.contains(target) && askable(target) && known.len() < MAX_SERVICES
}

/// The known service types after one record was observed.
pub open spec fn observed(known: Seq<Seq<char>>, record: RecordView) -> Seq<Seq<char>> {
    match announced(record) {
        Some(target) => if admits(known, target) {
            known.push(target)
        } else {
            known
        },
        None => known,
    }
}

/// The known service types after the first `count` of `records` were
/// observed, one after the other.
pub open spec fn observed_all(known: Seq<Seq<char>>, records: Seq<RecordView>, count: int) -> Seq<
    Seq<char>,
>
    decreases count,
{
    if count <= 0 {
        known
    } else {
        observed(observed_all(known, records, count - 1), records[count - 1])
    }
}

/// What holds of the service types of every question: the enumeration
/// service comes first, none stands twice, each can stand in a question, and
/// there are no more of them than one question can hold.
pub open spec fn askable_set(known: Seq<Seq<char>>) -> bool {
    &&& 0 < known.len() <= MAX_SERVICES
    &&& known[0] == enumeration_name()
    &&& known.no_duplicates()
    &&& forall|i: int| 0 <= i < known.len() ==> askable(#[trigger] known[i])
}

impl View for Question {
    type V = Seq<Seq<char>>;

    closed spec fn view(&self) -> Seq<Seq<char>> {
        texts(self.services@)
    }
}

impl Question {
    /// The question's invariant, over its model.
    pub open spec fn wf(&self) -> bool {
        askable_set(self@)
    }

    /// The question that asks for the enumeration service alone.
    pub fn new() -> (question: Question)
        ensures
            question.wf(),
            question@ == seq![enumeration_name()],
    {
        let mut services: Vec<String> = Vec::new();
        services.push(String::from_str(DNS_ENUMERATION_SERVICE_NAME));
        let question = Question { services };
        proof {
            lemma_enumeration_name_askable();
            assert(question@ =~= seq![enumeration_name()]);
        }
        question
    }

    /// The number of service types asked for.
    pub fn len(&self) -> (count: usize)
        ensures
            count == self@.len(),
    {
        self.services.len()
    }

    /// The service types asked for, in the order in which they were learned.
    pub fn services(&self) -> (services: &Vec<String>)
        ensures
            texts(services@) == self@,
    {
        &self.services
    }

    /// The query that asks for the pointer records of every known service
    /// type: one question each, in class IN and without recursion.
    pub fn query(&self) -> (packet: Vec<u8>)
        requires
            self.wf(),
        ensures
            packet@ == query_bytes(self@),
    {
        proof {
            assert forall|i: int| 0 <= i < self.services@.len() implies askable(
                #[trigger] self.services@[i]@,
            ) by {
                assert(self@[i] == self.services@[i]@);
            }
        }
        build_query(&self.services)
    }

    fn knows(&self, target: &str) -> (known: bool)
        ensures
            known == self@.contains(target@),
    {
        let mut i: usize = 0;
        while i < self.services.len()
            invariant
                i <= self.services@.len(),
                forall|k: int| 0 <= k < i ==> self@[k] != target@,
            decreases self.services@.len() - i,
        {
            if same_text(self.services[i].as_str(), target) {
                assert(self@[i as int] == target@);
                return true;
            }
            i += 1;
        }
        false
    }

    /// Observes one record, and says whether it taught a new service type.
    pub fn add_service(&mut self, record: &Record) -> (grown: bool)
        requires
            old(self).wf(),
        ensures
            final(self).wf(),
            final(self)@ == observed(old(self)@, record@),
            grown <==> final(self)@ != old(self)@,
    {
        if !same_text(record.name.as_str(), DNS_ENUMERATION_SERVICE_NAME) {
            return false;
        }
        match &record.data {
            RecordData::Ptr(target) => {
                if !self.knows(target.as_str()) && is_askable(target.as_str())
                    && self.services.len() < MAX_SERVICES {
                    let ghost before = self@;
                    self.services.push(target.clone());
                    proof {
                        assert(self@ =~= before.push(target@));
                        assert(self@.len() != before.len());
                        assert forall|i: int| 0 <= i < self@.len() implies askable(
                            #[trigger] self@[i],
                        ) by {
                            if i < before.len() {
                                assert(self@[i] == before[i]);
                            }
                        }
                    }
                    true
                } else {
                    false
                }
            },
            _ => false,
        }
    }

    /// Observes `records`, one after the other. Where any of them taught a
    /// new service type, hands back the query for the grown set.
    pub fn add_services(&mut self, records: &Vec<Record>) -> (query: Option<Vec<u8>>)
        requires
            old(self).wf(),
        ensures
            final(self).wf(),
            final(self)@ == observed_all(old(self)@, records_view(records@), records@.len() as int),
            old(self)@.is_prefix_of(final(self)@),
            query is Some <==> final(self)@ != old(self)@,
            query matches Some(packet) ==> packet@ == query_bytes(final(self)@),
    {
        let mut changed = false;
        let mut i: usize = 0;
        while i < records.len()
            invariant
                i <= records@.len(),
                self.wf(),
                self@ == observed_all(old(self)@, records_view(records@), i as int),
                old(self)@.is_prefix_of(self@),
                changed <==> self@ != old(self)@,
            decreases records@.len() - i,
        {
            let ghost before = self@;
            let grown = self.add_service(&records[i]);
            proof {
                assert(before.is_prefix_of(self@));
                if grown {
                    assert(self@.len() > old(self)@.len());
                }
            }
            changed = changed || grown;
            i += 1;
        }
        if changed {
            Some(self.query())
        } else {
            None
        }
    }
}

/// The enumeration name can stand in a question.
pub proof fn lemma_enumeration_name_askable()
    ensures
        askable(enumeration_name()),
        askable_set(seq![enumeration_name()]),
{
    reveal_strlit("_services._dns-sd._udp.local");
    let name = enumeration_name();
    assert(name.len() == 28);
    assert(vstd::utf8::is_ascii_chars(name));
    vstd::utf8::is_ascii_chars_encode_utf8(name);
    assert(seq![name].no_duplicates());
}

/// Observing is idempotent: records that were observed once teach nothing
/// when they are observed again.
pub proof fn lemma_observed_twice(known: Seq<Seq<char>>, records: Seq<RecordView>)
    ensures
        observed_all(
            observed_all(known, records, records.len() as int),
            records,
            records.len() as int,
        ) == observed_all(known, records, records.len() as int),
{
    let once = observed_all(known, records, records.len() as int);
    lemma_observed_keeps(known, records, records.len() as int);
    lemma_observed_known(once, records, records.len() as int);
}

/// The known service types only grow: what was known stays, in its place.
pub proof fn lemma_observed_grows(known: Seq<Seq<char>>, records: Seq<RecordView>, count: int)
    ensures
        known.is_prefix_of(observed_all(known, records, count)),
    decreases count,
{
    if count > 0 {
        lemma_observed_grows(known, records, count - 1);
    }
}

proof fn lemma_observed_keeps(known: Seq<Seq<char>>, records: Seq<RecordView>, count: int)
    requires
        count <= records.len(),
    ensures
        forall|i: int|
            0 <= i < count ==> settled(
                observed_all(known, records, count),
                #[trigger] records[i],
            ),
    decreases count,
{
    if count > 0 {
        let before = observed_all(known, records, count - 1);
        let after = observed_all(known, records, count);
        lemma_observed_keeps(known, records, count - 1);
        assert forall|i: int| 0 <= i < count implies settled(after, #[trigger] records[i]) by {
            if i < count - 1 {
                assert(settled(before, records[i]));
                lemma_settled_stays(before, records[count - 1], records[i]);
            } else {
                match announced(records[i]) {
                    Some(target) => {
                        if admits(before, target) {
                            assert(after[before.len() as int] == target);
                        }
                    },
                    None => {},
                }
            }
        }
    }
}

/// A record is settled where observing it changes nothing, now and after
/// any growth: it teaches no service type, or one that is known, or one that
/// cannot be asked for, or the set is full.
spec fn settled(known: Seq<Seq<char>>, record: RecordView) -> bool {
    match announced(record) {
        Some(target) => known.contains(target) || !askable(target) || known.len() >= MAX_SERVICES,
        None => true,
    }
}

proof fn lemma_settled_stays(known: Seq<Seq<char>>, next: RecordView, record: RecordView)
    requires
        settled(known, record),
    ensures
        settled(observed(known, next), record),
{
    let after = observed(known, next);
    match announced(record) {
        Some(target) => {
            if known.contains(target) {
                let at = choose|at: int| 0 <= at < known.len() && known[at] == target;
                assert(after[at] == target);
            }
        },
        None => {},
    }
}

proof fn lemma_observed_known(known: Seq<Seq<char>>, records: Seq<RecordView>, count: int)
    requires
        count <= records.len(),
        forall|i: int| 0 <= i < count ==> settled(known, #[trigger] records[i]),
    ensures
        observed_all(known, records, count) == known,
    decreases count,
{
    if count > 0 {
        lemma_observed_known(known, records, count - 1);
        assert(settled(known, records[count - 1]));
    }
}

} // verus!
