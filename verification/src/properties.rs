//! The property store of a service: for each key the values seen under it,
//! every value once and in the order in which it first came.

use vstd::prelude::*;
use crate::text::same_text;

verus! {

/// The values held under one key.
pub type PropertyValues = Vec<String>;

/// The mathematical model of a property store.
pub type Store = Map<Seq<char>, Seq<Seq<char>>>;

/// The texts of a list of strings.
pub open spec fn texts(list: Seq<String>) -> Seq<Seq<char>> {
    Seq::new(list.len(), |i: int| list[i]@)
}

/// A value list after `value` came in: unchanged if it holds the value
/// already, else with the value at its end.
pub open spec fn with_value(values: Seq<Seq<char>>, value: Seq<char>) -> Seq<Seq<char>> {
    if values.contains(value) {
        values
    } else {
        values.push(value)
    }
}

/// A value list after each of `more` came in, first to last.
pub open spec fn with_values(values: Seq<Seq<char>>, more: Seq<Seq<char>>) -> Seq<Seq<char>>
    decreases more.len(),
{
    if more.len() == 0 {
        values
    } else {
        with_value(with_values(values, more.drop_last()), more.last())
    }
}

/// What a store holds under `key`; nothing where the key is absent.
pub open spec fn values_of(store: Store, key: Seq<char>) -> Seq<Seq<char>> {
    if store.dom().contains(key) {
        store[key]
    } else {
        Seq::empty()
    }
}

/// A store after `value` came in under `key`.
pub open spec fn added(store: Store, key: Seq<char>, value: Seq<char>) -> Store {
    store.insert(key, with_value(values_of(store, key), value))
}

/// A store after every entry of `other` came in: each key of `other` holds
/// what it held before, followed by those of `other`'s values that it lacked.
pub open spec fn merged(store: Store, other: Store) -> Store {
    Map::new(
        |key: Seq<char>| store.dom().contains(key) || other.dom().contains(key),
        |key: Seq<char>|
            if other.dom().contains(key) {
                with_values(values_of(store, key), other[key])
            } else {
                store[key]
            },
    )
}

/// Every key of the store holds at least one value and none twice.
pub open spec fn values_unique(store: Store) -> bool {
    forall|key: Seq<char>| #[trigger]
        store.dom().contains(key) ==> store[key].len() > 0 && store[key].no_duplicates()
}

struct Entry {
    key: String,
    values: Vec<String>,
}

/// An ordered, deduplicated multi-value mapping from text keys to text values.
pub struct Properties {
    entries: Vec<Entry>,
}

spec fn key_at(entries: Seq<Entry>, key: Seq<char>, i: int) -> bool {
    0 <= i < entries.len() && entries[i].key@ == key
}

spec fn slot_of(entries: Seq<Entry>, key: Seq<char>) -> int {
    choose|i: int| key_at(entries, key, i)
}

spec fn entries_wf(entries: Seq<Entry>) -> bool {
    &&& forall|i: int, j: int|
        0 <= i < entries.len() && 0 <= j < entries.len() && i != j ==> #[trigger] entries[i].key@
            != #[trigger] entries[j].key@
    &&& forall|i: int|
        0 <= i < entries.len() ==> (#[trigger] entries[i]).values@.len() > 0 && texts(
            entries[i].values@,
        ).no_duplicates()
}

spec fn entries_view(entries: Seq<Entry>) -> Store {
    Map::new(
        |key: Seq<char>| exists|i: int| key_at(entries, key, i),
        |key: Seq<char>| texts(entries[slot_of(entries, key)].values@),
    )
}

proof fn lemma_slot(entries: Seq<Entry>, i: int)
    requires
        entries_wf(entries),
        0 <= i < entries.len(),
    ensures
        entries_view(entries).dom().contains(entries[i].key@),
        entries_view(entries)[entries[i].key@] == texts(entries[i].values@),
        slot_of(entries, entries[i].key@) == i,
{
    let key = entries[i].key@;
    assert(key_at(entries, key, i));
    let s = slot_of(entries, key);
    assert(key_at(entries, key, s));
    if s != i {
        assert(entries[s].key@ != entries[i].key@);
    }
}

proof fn lemma_absent(entries: Seq<Entry>, key: Seq<char>)
    requires
        forall|i: int| 0 <= i < entries.len() ==> (#[trigger] entries[i]).key@ != key,
    ensures
        !entries_view(entries).dom().contains(key),
{
    if entries_view(entries).dom().contains(key) {
        let i = choose|i: int| key_at(entries, key, i);
        assert(key_at(entries, key, i));
        assert(entries[i].key@ != key);
    }
}

impl View for Properties {
    type V = Store;

    closed spec fn view(&self) -> Store {
        entries_view(self.entries@)
    }
}

impl Clone for Properties {
    fn clone(&self) -> (copy: Properties)
        ensures
            self.wf() ==> copy.wf() && copy@ == self@,
    {
        let mut entries: Vec<Entry> = Vec::new();
        let mut i: usize = 0;
        while i < self.entries.len()
            invariant
                i <= self.entries@.len(),
                entries@.len() == i,
                forall|k: int|
                    0 <= k < i ==> (#[trigger] entries@[k]).key@ == self.entries@[k].key@ && texts(
                        entries@[k].values@,
                    ) == texts(self.entries@[k].values@),
            decreases self.entries@.len() - i,
        {
            let entry = &self.entries[i];
            let mut values: Vec<String> = Vec::new();
            let mut t: usize = 0;
            while t < entry.values.len()
                invariant
                    t <= entry.values@.len(),
                    values@.len() == t,
                    forall|k: int| 0 <= k < t ==> (#[trigger] values@[k])@ == entry.values@[k]@,
                decreases entry.values@.len() - t,
            {
                values.push(entry.values[t].clone());
                t += 1;
            }
            assert(texts(values@) =~= texts(entry.values@));
            entries.push(Entry { key: entry.key.clone(), values });
            i += 1;
        }
        let copy = Properties { entries };
        proof {
            if self.wf() {
                lemma_same_entries(self.entries@, copy.entries@);
            }
        }
        copy
    }
}

impl Properties {
    /// The store's invariant: no key stands twice, and every key holds at
    /// least one value and none twice.
    pub closed spec fn wf(&self) -> bool {
        entries_wf(self.entries@)
    }

    /// A well-formed store holds every value once under its key.
    pub proof fn lemma_values_unique(&self)
        requires
            self.wf(),
        ensures
            values_unique(self@),
            self@.dom().finite(),
    {
        let entries = self.entries@;
        assert forall|key: Seq<char>| #[trigger]
            self@.dom().contains(key) implies self@[key].len() > 0
            && self@[key].no_duplicates() by {
            let i = slot_of(entries, key);
            assert(key_at(entries, key, i));
            lemma_slot(entries, i);
        }
        lemma_finite(entries);
    }

    /// The empty store.
    pub fn new() -> (store: Properties)
        ensures
            store.wf(),
            store@ == Store::empty(),
    {
        let store = Properties { entries: Vec::new() };
        assert(store@ =~= Store::empty()) by {
            assert forall|key: Seq<char>| !store@.dom().contains(key) by {
                lemma_absent(store.entries@, key);
            }
        }
        store
    }

    fn position(&self, key: &str) -> (r: Option<usize>)
        ensures
            r matches Some(i) ==> key_at(self.entries@, key@, i as int),
            r is None ==> forall|i: int|
                0 <= i < self.entries@.len() ==> (#[trigger] self.entries@[i]).key@ != key@,
    {
        let mut i: usize = 0;
        while i < self.entries.len()
            invariant
                i <= self.entries@.len(),
                forall|k: int| 0 <= k < i ==> (#[trigger] self.entries@[k]).key@ != key@,
            decreases self.entries@.len() - i,
        {
            if same_text(self.entries[i].key.as_str(), key) {
                return Some(i);
            }
            i += 1;
        }
        None
    }

    /// Records `value` under `key`: a value that the key holds already
    /// changes nothing, a new one goes to the end of the key's list, and a
    /// new key starts a list of its own.
    pub fn add(&mut self, key: &str, value: String)
        requires
            old(self).wf(),
        ensures
            final(self).wf(),
            final(self)@ == added(old(self)@, key@, value@),
    {
        let ghost before = self.entries@;
        match self.position(key) {
            Some(i) => {
                proof {
                    lemma_slot(before, i as int);
                }
                if !holds(&self.entries[i].values, value.as_str()) {
                    self.entries[i].values.push(value);
                    proof {
                        let after = self.entries@;
                        assert(texts(after[i as int].values@) =~= texts(
                            before[i as int].values@,
                        ).push(value@));
                        assert(entries_wf(after)) by {
                            assert forall|a: int, b: int|
                                0 <= a < after.len() && 0 <= b < after.len() && a != b implies
                                #[trigger] after[a].key@ != #[trigger] after[b].key@ by {
                                assert(after[a].key@ == before[a].key@);
                                assert(after[b].key@ == before[b].key@);
                            }
                            assert forall|a: int| 0 <= a < after.len() implies (
                            #[trigger] after[a]).values@.len() > 0 && texts(
                                after[a].values@,
                            ).no_duplicates() by {
                                if a != i {
                                    assert(after[a] == before[a]);
                                }
                            }
                        }
                        lemma_replaced(before, after, i as int);
                    }
                } else {
                    assert(self@ =~= added(old(self)@, key@, value@));
                }
            },
            None => {
                let mut values: Vec<String> = Vec::new();
                values.push(value);
                self.entries.push(Entry { key: String::from_str(key), values });
                proof {
                    let after = self.entries@;
                    let last = before.len() as int;
                    lemma_absent(before, key@);
                    assert(texts(after[last].values@) =~= seq![value@]);
                    assert(seq![value@].no_duplicates());
                    assert(entries_wf(after)) by {
                        assert forall|a: int, b: int|
                            0 <= a < after.len() && 0 <= b < after.len() && a != b implies
                            #[trigger] after[a].key@ != #[trigger] after[b].key@ by {
                            if a < last {
                                assert(after[a] == before[a]);
                            }
                            if b < last {
                                assert(after[b] == before[b]);
                            }
                        }
                        assert forall|a: int| 0 <= a < after.len() implies (
                        #[trigger] after[a]).values@.len() > 0 && texts(
                            after[a].values@,
                        ).no_duplicates() by {
                            if a < last {
                                assert(after[a] == before[a]);
                            }
                        }
                    }
                    lemma_appended(before, after);
                    assert(Seq::<Seq<char>>::empty().push(value@) =~= seq![value@]);
                }
            },
        }
    }

    /// Brings every entry of `props` into this store, value by value, as
    /// `add` would.
    pub fn merge(&mut self, props: &Properties)
        requires
            old(self).wf(),
            props.wf(),
        ensures
            final(self).wf(),
            final(self)@ == merged(old(self)@, props@),
    {
        let ghost start = self@;
        let ghost theirs = props.entries@;
        let mut i: usize = 0;
        while i < props.entries.len()
            invariant
                theirs == props.entries@,
                entries_wf(theirs),
                i <= theirs.len(),
                self.wf(),
                forall|key: Seq<char>|
                    self@.dom().contains(key) <==> (start.dom().contains(key) || exists|j: int|
                        0 <= j < i && key_at(theirs, key, j)),
                forall|j: int|
                    0 <= j < i ==> self@.dom().contains((#[trigger] theirs[j]).key@)
                        && self@[theirs[j].key@] == with_values(
                        values_of(start, theirs[j].key@),
                        texts(theirs[j].values@),
                    ),
                forall|key: Seq<char>|
                    start.dom().contains(key) && !(exists|j: int| 0 <= j < i && key_at(theirs, key, j))
                        ==> self@[key] == start[key],
            decreases theirs.len() - i,
        {
            let ghost outer = self@;
            let ghost key = theirs[i as int].key@;
            let ghost theirs_values = texts(theirs[i as int].values@);
            let ghost base = values_of(outer, key);
            proof {
                assert(key_at(theirs, key, i as int));
                assert(base == values_of(start, key)) by {
                    assert forall|j: int| 0 <= j < i implies !key_at(theirs, key, j) by {
                        if key_at(theirs, key, j) {
                            assert(theirs[j].key@ != theirs[i as int].key@);
                        }
                    }
                }
            }
            let entry = &props.entries[i];
            let mut t: usize = 0;
            while t < entry.values.len()
                invariant
                    theirs == props.entries@,
                    i < theirs.len(),
                    *entry == theirs[i as int],
                    key == entry.key@,
                    theirs_values == texts(entry.values@),
                    base == values_of(outer, key),
                    t <= entry.values@.len(),
                    self.wf(),
                    t == 0 ==> self@ == outer,
                    t > 0 ==> self@ == outer.insert(
                        key,
                        with_values(base, theirs_values.take(t as int)),
                    ),
                decreases entry.values@.len() - t,
            {
                let ghost inner = self@;
                self.add(entry.key.as_str(), entry.values[t].clone());
                proof {
                    let grown = theirs_values.take(t + 1);
                    assert(grown.drop_last() =~= theirs_values.take(t as int));
                    assert(grown.last() == entry.values@[t as int]@);
                    assert(with_values(base, grown) == with_value(
                        with_values(base, grown.drop_last()),
                        grown.last(),
                    ));
                    if t == 0 {
                        assert(with_values(base, theirs_values.take(0)) == base);
                    }
                    assert(self@ =~= outer.insert(key, with_values(base, grown)));
                }
                t += 1;
            }
            proof {
                assert(theirs_values.take(t as int) =~= theirs_values);
                let now = self@;
                assert forall|k: Seq<char>|
                    now.dom().contains(k) <==> (start.dom().contains(k) || exists|j: int|
                        0 <= j < i + 1 && key_at(theirs, k, j)) by {
                    if k == key {
                        assert(key_at(theirs, k, i as int));
                    } else {
                        if exists|j: int| 0 <= j < i + 1 && key_at(theirs, k, j) {
                            let j = choose|j: int| 0 <= j < i + 1 && key_at(theirs, k, j);
                            assert(0 <= j < i && key_at(theirs, k, j));
                        }
                    }
                }
                assert forall|j: int| 0 <= j < i + 1 implies now.dom().contains(
                    (#[trigger] theirs[j]).key@,
                ) && now[theirs[j].key@] == with_values(
                    values_of(start, theirs[j].key@),
                    texts(theirs[j].values@),
                ) by {
                    if j < i {
                        assert(theirs[j].key@ != theirs[i as int].key@);
                    }
                }
                assert forall|k: Seq<char>|
                    start.dom().contains(k) && !(exists|j: int|
                        0 <= j < i + 1 && key_at(theirs, k, j)) implies now[k] == start[k] by {
                    assert(!key_at(theirs, k, i as int));
                    assert(!(exists|j: int| 0 <= j < i && key_at(theirs, k, j))) by {
                        if exists|j: int| 0 <= j < i && key_at(theirs, k, j) {
                            let j = choose|j: int| 0 <= j < i && key_at(theirs, k, j);
                            assert(0 <= j < i + 1 && key_at(theirs, k, j));
                        }
                    }
                }
            }
            i += 1;
        }
        proof {
            let now = self@;
            let goal = merged(start, props@);
            assert forall|k: Seq<char>| now.dom().contains(k) <==> goal.dom().contains(k) by {
                if props@.dom().contains(k) {
                    let j = slot_of(theirs, k);
                    assert(key_at(theirs, k, j));
                }
                if exists|j: int| 0 <= j < i && key_at(theirs, k, j) {
                    let j = choose|j: int| 0 <= j < i && key_at(theirs, k, j);
                    lemma_slot(theirs, j);
                }
            }
            assert forall|k: Seq<char>| now.dom().contains(k) implies now[k] == goal[k] by {
                if props@.dom().contains(k) {
                    let j = slot_of(theirs, k);
                    assert(key_at(theirs, k, j));
                    lemma_slot(theirs, j);
                } else {
                    assert(!(exists|j: int| 0 <= j < i && key_at(theirs, k, j))) by {
                        if exists|j: int| 0 <= j < i && key_at(theirs, k, j) {
                            let j = choose|j: int| 0 <= j < i && key_at(theirs, k, j);
                            lemma_slot(theirs, j);
                        }
                    }
                }
            }
            assert(now =~= goal);
        }
    }

    /// The values held under `key`, if the store has the key.
    pub fn get(&self, key: &str) -> (values: Option<&PropertyValues>)
        requires
            self.wf(),
        ensures
            values is Some <==> self@.dom().contains(key@),
            values matches Some(list) ==> texts(list@) == self@[key@],
    {
        match self.position(key) {
            Some(i) => {
                proof {
                    lemma_slot(self.entries@, i as int);
                }
                Some(&self.entries[i].values)
            },
            None => {
                proof {
                    lemma_absent(self.entries@, key@);
                }
                None
            },
        }
    }

    /// The keys of the store, each once, in the order in which they first
    /// came.
    pub fn keys(&self) -> (keys: Vec<String>)
        requires
            self.wf(),
        ensures
            texts(keys@).no_duplicates(),
            forall|key: Seq<char>| texts(keys@).contains(key) <==> self@.dom().contains(key),
    {
        let mut keys: Vec<String> = Vec::new();
        let mut i: usize = 0;
        while i < self.entries.len()
            invariant
                i <= self.entries@.len(),
                keys@.len() == i,
                forall|k: int| 0 <= k < i ==> (#[trigger] keys@[k])@ == self.entries@[k].key@,
            decreases self.entries@.len() - i,
        {
            keys.push(self.entries[i].key.clone());
            i += 1;
        }
        proof {
            let entries = self.entries@;
            let listed = texts(keys@);
            assert forall|a: int, b: int|
                0 <= a < listed.len() && 0 <= b < listed.len() && a != b implies listed[a]
                != listed[b] by {
                assert(listed[a] == keys@[a]@);
                assert(listed[b] == keys@[b]@);
                assert(entries[a].key@ != entries[b].key@);
            }
            assert forall|key: Seq<char>| listed.contains(key) <==> self@.dom().contains(key) by {
                if listed.contains(key) {
                    let at = choose|at: int| 0 <= at < listed.len() && listed[at] == key;
                    assert(listed[at] == keys@[at]@);
                    assert(key_at(entries, key, at));
                }
                if self@.dom().contains(key) {
                    let at = choose|at: int| key_at(entries, key, at);
                    assert(listed[at] == keys@[at]@);
                }
            }
        }
        keys
    }

    /// Whether the store holds an address, under `ipv4` or under `ipv6`.
    pub fn has_ip(&self) -> (r: bool)
        requires
            self.wf(),
        ensures
            r == holds_address(self@),
    {
        self.get("ipv4").is_some() || self.get("ipv6").is_some()
    }
}

/// A store holds an address where it has the key `ipv4` or the key `ipv6`.
pub open spec fn holds_address(store: Store) -> bool {
    store.dom().contains("ipv4"@) || store.dom().contains("ipv6"@)
}

fn holds(values: &Vec<String>, value: &str) -> (r: bool)
    ensures
        r == texts(values@).contains(value@),
{
    let mut i: usize = 0;
    while i < values.len()
        invariant
            i <= values@.len(),
            forall|k: int| 0 <= k < i ==> texts(values@)[k] != value@,
        decreases values@.len() - i,
    {
        if same_text(values[i].as_str(), value) {
            assert(texts(values@)[i as int] == value@);
            return true;
        }
        i += 1;
    }
    false
}

proof fn lemma_same_entries(a: Seq<Entry>, b: Seq<Entry>)
    requires
        entries_wf(a),
        a.len() == b.len(),
        forall|k: int|
            0 <= k < a.len() ==> (#[trigger] b[k]).key@ == a[k].key@ && texts(b[k].values@) == texts(
                a[k].values@,
            ),
    ensures
        entries_wf(b),
        entries_view(b) == entries_view(a),
{
    assert forall|i: int, j: int|
        0 <= i < b.len() && 0 <= j < b.len() && i != j implies #[trigger] b[i].key@
        != #[trigger] b[j].key@ by {
        assert(b[i].key@ == a[i].key@);
        assert(b[j].key@ == a[j].key@);
    }
    assert forall|i: int| 0 <= i < b.len() implies (#[trigger] b[i]).values@.len() > 0 && texts(
        b[i].values@,
    ).no_duplicates() by {
        assert(texts(b[i].values@) == texts(a[i].values@));
        assert(texts(a[i].values@).len() == a[i].values@.len());
        assert(texts(b[i].values@).len() == b[i].values@.len());
    }
    let ours = entries_view(a);
    let theirs = entries_view(b);
    assert forall|key: Seq<char>| #[trigger] ours.dom().contains(key) implies theirs.dom().contains(
        key,
    ) && theirs[key] == ours[key] by {
        let i = slot_of(a, key);
        assert(key_at(a, key, i));
        assert(b[i].key@ == a[i].key@);
        assert(key_at(b, key, i));
        lemma_slot(a, i);
        lemma_slot(b, i);
    }
    assert forall|key: Seq<char>| #[trigger] theirs.dom().contains(key) implies ours.dom().contains(
        key,
    ) by {
        let i = choose|i: int| key_at(b, key, i);
        assert(b[i].key@ == a[i].key@);
        assert(key_at(a, key, i));
    }
    assert(theirs =~= ours);
}

proof fn lemma_finite(entries: Seq<Entry>)
    ensures
        entries_view(entries).dom().finite(),
    decreases entries.len(),
{
    let keys = Set::new(|key: Seq<char>| exists|i: int| key_at(entries, key, i));
    assert(entries_view(entries).dom() =~= keys);
    if entries.len() == 0 {
        assert(keys =~= Set::empty());
    } else {
        let front = entries.drop_last();
        lemma_finite(front);
        let fewer = entries_view(front).dom();
        assert(keys =~= fewer.insert(entries.last().key@)) by {
            assert forall|key: Seq<char>| keys.contains(key) <==> fewer.insert(
                entries.last().key@,
            ).contains(key) by {
                if keys.contains(key) {
                    let i = choose|i: int| key_at(entries, key, i);
                    if i < entries.len() - 1 {
                        assert(key_at(front, key, i));
                    }
                }
                if fewer.contains(key) {
                    let i = choose|i: int| key_at(front, key, i);
                    assert(key_at(entries, key, i));
                }
                if key == entries.last().key@ {
                    assert(key_at(entries, key, entries.len() - 1));
                }
            }
        }
    }
}

proof fn lemma_replaced(before: Seq<Entry>, after: Seq<Entry>, i: int)
    requires
        entries_wf(before),
        entries_wf(after),
        0 <= i < before.len(),
        after.len() == before.len(),
        forall|j: int| 0 <= j < before.len() ==> (#[trigger] after[j]).key@ == before[j].key@,
        forall|j: int| 0 <= j < before.len() && j != i ==> #[trigger] after[j] == before[j],
    ensures
        entries_view(after) == entries_view(before).insert(
            before[i].key@,
            texts(after[i].values@),
        ),
{
    let goal = entries_view(before).insert(before[i].key@, texts(after[i].values@));
    let now = entries_view(after);
    assert forall|key: Seq<char>| now.dom().contains(key) <==> goal.dom().contains(key) by {
        if now.dom().contains(key) {
            let j = choose|j: int| key_at(after, key, j);
            assert(key_at(before, key, j));
        }
        if entries_view(before).dom().contains(key) {
            let j = choose|j: int| key_at(before, key, j);
            assert(key_at(after, key, j));
        }
        if key == before[i].key@ {
            assert(key_at(after, key, i));
        }
    }
    assert forall|key: Seq<char>| now.dom().contains(key) implies now[key] == goal[key] by {
        let j = slot_of(after, key);
        assert(key_at(after, key, j));
        lemma_slot(after, j);
        lemma_slot(before, j);
    }
    assert(now =~= goal);
}

proof fn lemma_appended(before: Seq<Entry>, after: Seq<Entry>)
    requires
        entries_wf(after),
        after.len() == before.len() + 1,
        forall|j: int| 0 <= j < before.len() ==> #[trigger] after[j] == before[j],
    ensures
        entries_view(after) == entries_view(before).insert(
            after.last().key@,
            texts(after.last().values@),
        ),
{
    let goal = entries_view(before).insert(after.last().key@, texts(after.last().values@));
    let now = entries_view(after);
    assert(entries_wf(before)) by {
        assert forall|a: int, b: int|
            0 <= a < before.len() && 0 <= b < before.len() && a != b implies
            #[trigger] before[a].key@ != #[trigger] before[b].key@ by {
            assert(after[a] == before[a]);
            assert(after[b] == before[b]);
        }
        assert forall|a: int| 0 <= a < before.len() implies (#[trigger] before[a]).values@.len()
            > 0 && texts(before[a].values@).no_duplicates() by {
            assert(after[a] == before[a]);
        }
    }
    assert forall|key: Seq<char>| now.dom().contains(key) <==> goal.dom().contains(key) by {
        if now.dom().contains(key) {
            let j = choose|j: int| key_at(after, key, j);
            if j < before.len() {
                assert(key_at(before, key, j));
            }
        }
        if entries_view(before).dom().contains(key) {
            let j = choose|j: int| key_at(before, key, j);
            assert(after[j] == before[j]);
            assert(key_at(after, key, j));
        }
        if key == after.last().key@ {
            assert(key_at(after, key, after.len() - 1));
        }
    }
    assert forall|key: Seq<char>| now.dom().contains(key) implies now[key] == goal[key] by {
        let j = slot_of(after, key);
        assert(key_at(after, key, j));
        lemma_slot(after, j);
        if j < before.len() {
            assert(after[j] == before[j]);
            lemma_slot(before, j);
        }
    }
    assert(now =~= goal);
}

/// Every value of `more`, and every value that was there before, is in the
/// list after `more` came in.
pub proof fn lemma_with_values_holds(values: Seq<Seq<char>>, more: Seq<Seq<char>>)
    ensures
        forall|i: int| 0 <= i < more.len() ==> with_values(values, more).contains(#[trigger] more[i]),
        forall|i: int|
            0 <= i < values.len() ==> with_values(values, more).contains(#[trigger] values[i]),
    decreases more.len(),
{
    if more.len() > 0 {
        let front = with_values(values, more.drop_last());
        let all = with_values(values, more);
        lemma_with_values_holds(values, more.drop_last());
        assert forall|x: Seq<char>| front.contains(x) implies all.contains(x) by {
            let at = choose|at: int| 0 <= at < front.len() && front[at] == x;
            if !front.contains(more.last()) {
                assert(all[at] == x);
            }
        }
        assert(all.contains(more.last())) by {
            if !front.contains(more.last()) {
                assert(all[front.len() as int] == more.last());
            }
        }
        assert forall|i: int| 0 <= i < more.len() implies all.contains(#[trigger] more[i]) by {
            if i < more.len() - 1 {
                assert(more.drop_last()[i] == more[i]);
            }
        }
    }
}

/// Values that the list holds already change nothing when they come in again.
pub proof fn lemma_with_values_known(values: Seq<Seq<char>>, more: Seq<Seq<char>>)
    requires
        forall|i: int| 0 <= i < more.len() ==> values.contains(#[trigger] more[i]),
    ensures
        with_values(values, more) == values,
    decreases more.len(),
{
    if more.len() > 0 {
        assert forall|i: int| 0 <= i < more.drop_last().len() implies values.contains(
            #[trigger] more.drop_last()[i],
        ) by {
            assert(more.drop_last()[i] == more[i]);
        }
        lemma_with_values_known(values, more.drop_last());
        assert(values.contains(more[more.len() - 1]));
    }
}

/// Adding is idempotent: the same value under the same key a second time
/// changes nothing. After the first time the key holds what it held before,
/// in the same order, with the value once: where it stood, or else at the end.
pub proof fn lemma_add_idempotent(store: Store, key: Seq<char>, value: Seq<char>)
    requires
        values_unique(store),
    ensures
        added(added(store, key, value), key, value) == added(store, key, value),
        values_unique(added(store, key, value)),
        values_of(store, key).is_prefix_of(added(store, key, value)[key]),
        added(store, key, value)[key].contains(value),
        added(store, key, value)[key].len() <= values_of(store, key).len() + 1,
{
    let before = values_of(store, key);
    let once = added(store, key, value);
    assert(before.no_duplicates()) by {
        if store.dom().contains(key) {
        }
    }
    assert(once[key].contains(value)) by {
        if !before.contains(value) {
            assert(before.push(value)[before.len() as int] == value);
        }
    }
    assert(added(once, key, value) =~= once);
    assert forall|k: Seq<char>| #[trigger] once.dom().contains(k) implies once[k].len() > 0
        && once[k].no_duplicates() by {
        if k != key {
            assert(store.dom().contains(k));
        }
    }
}

/// Merging is closed: merging the same store in a second time gives what the
/// first merge gave.
pub proof fn lemma_merge_idempotent(store: Store, other: Store)
    ensures
        merged(merged(store, other), other) == merged(store, other),
{
    let once = merged(store, other);
    let twice = merged(once, other);
    assert forall|key: Seq<char>| once.dom().contains(key) implies #[trigger] twice[key]
        == once[key] by {
        if other.dom().contains(key) {
            lemma_with_values_holds(values_of(store, key), other[key]);
            lemma_with_values_known(once[key], other[key]);
        }
    }
    assert(twice =~= once);
}

} // verus!
