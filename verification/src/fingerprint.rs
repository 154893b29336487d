//! The fingerprint matcher: a vendor and a kind of device, guessed from the
//! names of the services that an endpoint offers.

use vstd::prelude::*;
use crate::endpoint::{services_view, Endpoint, Fingerprint, FingerprintView, Service, ServiceView};
use crate::text::{contains, first_within, is_infix};

verus! {

/// The rules, in the order in which they are tried: a fragment of a service
/// name, and the vendor and the kind of the endpoints that offer such a
/// service.
pub open spec fn fingerprint_rules() -> Seq<(Seq<char>, FingerprintView)> {
    seq![
        ("_googlecast."@, FingerprintView { vendor: "google"@, kind: "chromecast"@ }),
        ("_adisk."@, FingerprintView { vendor: ""@, kind: "disk"@ }),
        ("_hue."@, FingerprintView { vendor: "philips"@, kind: "light"@ }),
        ("_device-info."@, FingerprintView { vendor: "apple"@, kind: "osx"@ }),
        ("_apple"@, FingerprintView { vendor: "apple"@, kind: "apple"@ }),
    ]
}

/// The fragments of the rules, in the rules' order.
pub open spec fn rule_fragments() -> Seq<Seq<char>> {
    Seq::new(fingerprint_rules().len(), |i: int| fingerprint_rules()[i].0)
}

/// The fingerprint that one service name gives: that of the first rule whose
/// fragment stands in the name.
pub open spec fn rule_for(name: Seq<char>) -> Option<FingerprintView> {
    match first_within(rule_fragments(), name, 0) {
        Some(i) => Some(fingerprint_rules()[i].1),
        None => None,
    }
}

/// The fingerprint that the services from position `from` on give: that of
/// the first of them, in stored order, to which a rule applies.
pub open spec fn fingerprint_from(services: Seq<ServiceView>, from: int) -> Option<FingerprintView>
    decreases services.len() - from,
{
    if from < 0 || from >= services.len() {
        None
    } else {
        match rule_for(services[from].name) {
            Some(found) => Some(found),
            None => fingerprint_from(services, from + 1),
        }
    }
}

/// The fingerprint of a set of services, in their stored order.
pub open spec fn fingerprint_of(services: Seq<ServiceView>) -> Option<FingerprintView> {
    fingerprint_from(services, 0)
}

fn rules() -> (table: Vec<(&'static str, &'static str, &'static str)>)
    ensures
        table@.len() == fingerprint_rules().len(),
        forall|i: int|
            0 <= i < table@.len() ==> (#[trigger] table@[i]).0@ == fingerprint_rules()[i].0
                && table@[i].1@ == fingerprint_rules()[i].1.vendor && table@[i].2@
                == fingerprint_rules()[i].1.kind,
{
    vec![
        ("_googlecast.", "google", "chromecast"),
        ("_adisk.", "", "disk"),
        ("_hue.", "philips", "light"),
        ("_device-info.", "apple", "osx"),
        ("_apple", "apple", "apple"),
    ]
}

fn rule_of(name: &str) -> (found: Option<Fingerprint>)
    ensures
        found is Some <==> rule_for(name@) is Some,
        found matches Some(f) ==> rule_for(name@) == Some(f@),
{
    let table = rules();
    let mut i: usize = 0;
    while i < table.len()
        invariant
            i <= table@.len(),
            table@.len() == fingerprint_rules().len(),
            forall|k: int|
                0 <= k < table@.len() ==> (#[trigger] table@[k]).0@ == fingerprint_rules()[k].0
                    && table@[k].1@ == fingerprint_rules()[k].1.vendor && table@[k].2@
                    == fingerprint_rules()[k].1.kind,
            first_within(rule_fragments(), name@, 0) == first_within(
                rule_fragments(),
                name@,
                i as int,
            ),
        decreases table@.len() - i,
    {
        assert(rule_fragments()[i as int] == table@[i as int].0@);
        if contains(name, table[i].0) {
            return Some(
                Fingerprint {
                    vendor: String::from_str(table[i].1),
                    kind: String::from_str(table[i].2),
                },
            );
        }
        i += 1;
    }
    None
}

/// The fingerprint of a list of services, in their stored order.
pub fn match_services(services: &Vec<Service>) -> (found: Option<Fingerprint>)
    ensures
        found is Some <==> fingerprint_of(services_view(services@)) is Some,
        found matches Some(f) ==> fingerprint_of(services_view(services@)) == Some(f@),
{
    let ghost all = services_view(services@);
    let mut i: usize = 0;
    while i < services.len()
        invariant
            i <= services@.len(),
            all == services_view(services@),
            fingerprint_of(all) == fingerprint_from(all, i as int),
        decreases services@.len() - i,
    {
        assert(all[i as int].name == services@[i as int].name@);
        match rule_of(services[i].name.as_str()) {
            Some(found) => {
                return Some(found);
            },
            None => {},
        }
        i += 1;
    }
    None
}

/// The fingerprint of an endpoint: for its services in their stored order,
/// and for each the rules in theirs, that of the first rule whose fragment
/// stands in the service's name.
pub fn get(endpoint: &Endpoint) -> (found: Option<Fingerprint>)
    ensures
        found is Some <==> fingerprint_of(endpoint@.services) is Some,
        found matches Some(f) ==> fingerprint_of(endpoint@.services) == Some(f@),
{
    match_services(endpoint.services())
}

/// The first stored service to which a rule applies decides: where no rule
/// applies to any service before position `at`, the fingerprint is what the
/// service at `at` and those behind it give.
pub proof fn lemma_fingerprint_skips(services: Seq<ServiceView>, at: int)
    requires
        0 <= at <= services.len(),
        forall|j: int| 0 <= j < at ==> rule_for(#[trigger] services[j].name) is None,
    ensures
        fingerprint_of(services) == fingerprint_from(services, at),
    decreases at,
{
    if at > 0 {
        lemma_fingerprint_skips(services, at - 1);
    }
}

/// An endpoint whose first service to which any rule applies holds
/// `_googlecast.` in its name is a Chromecast of Google.
pub proof fn lemma_fingerprint_googlecast(services: Seq<ServiceView>, at: int)
    requires
        0 <= at < services.len(),
        is_infix("_googlecast."@, services[at].name),
        forall|j: int| 0 <= j < at ==> rule_for(#[trigger] services[j].name) is None,
    ensures
        fingerprint_of(services) == Some(
            FingerprintView { vendor: "google"@, kind: "chromecast"@ },
        ),
{
    lemma_fingerprint_skips(services, at);
    assert(rule_fragments()[0] == "_googlecast."@);
}

/// An endpoint whose first service to which any rule applies holds `_adisk.`
/// in its name, and not `_googlecast.`, is a disk of no known vendor.
pub proof fn lemma_fingerprint_adisk(services: Seq<ServiceView>, at: int)
    requires
        0 <= at < services.len(),
        is_infix("_adisk."@, services[at].name),
        !is_infix("_googlecast."@, services[at].name),
        forall|j: int| 0 <= j < at ==> rule_for(#[trigger] services[j].name) is None,
    ensures
        fingerprint_of(services) == Some(FingerprintView { vendor: ""@, kind: "disk"@ }),
{
    lemma_fingerprint_skips(services, at);
    assert(rule_fragments()[0] == "_googlecast."@);
    assert(rule_fragments()[1] == "_adisk."@);
    assert(first_within(rule_fragments(), services[at].name, 1) == Some(1int));
}

} // verus!
