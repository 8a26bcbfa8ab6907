//! What holds of the setup flow as a whole.  [`steps`] tells what each of its steps does.

pub mod steps;

use crate::host::Offer;
use crate::host::Step;
use crate::json::Json;
use crate::json::lookup;
use crate::json::text_at;
use crate::leap::zone_of;
use crate::setup::BRIDGE_ID;
use crate::setup::LapIdentity;
use crate::setup::bridge_offer;
use crate::setup::browsing;
use crate::setup::device_list;
use crate::setup::device_request;
use crate::setup::dimmable;
use crate::setup::dimmer_offer;
use crate::setup::dimmer_offers;
use crate::setup::field_of;
use crate::setup::first_zone;
use crate::setup::leap_request;
use crate::setup::may_discover;
use crate::setup::members;
use crate::setup::merged;
use crate::setup::pair_message;
use crate::setup::pair_request;
use crate::setup::pair_response;
use crate::setup::pairing_begun;
use crate::setup::response_of;
use crate::setup::set_field;
use crate::setup::signing_result;
use crate::setup::text_of;
use vstd::prelude::*;

verus! {

proof fn lemma_field_keys()
    ensures
        "stage"@ != "address"@,
        "stage"@ != "key_pem"@,
        "stage"@ != "csr_pem"@,
        "stage"@ != "cert_pem"@,
        "stage"@ != "ca_pem"@,
        "stage"@ != "browse"@,
        "address"@ != "key_pem"@,
        "address"@ != "csr_pem"@,
        "address"@ != "cert_pem"@,
        "address"@ != "ca_pem"@,
        "address"@ != "browse"@,
        "key_pem"@ != "csr_pem"@,
        "key_pem"@ != "cert_pem"@,
        "key_pem"@ != "ca_pem"@,
        "key_pem"@ != "browse"@,
        "csr_pem"@ != "cert_pem"@,
        "csr_pem"@ != "ca_pem"@,
        "csr_pem"@ != "browse"@,
        "cert_pem"@ != "ca_pem"@,
        "cert_pem"@ != "browse"@,
        "ca_pem"@ != "browse"@,
{
    reveal_strlit("stage");
    reveal_strlit("address");
    reveal_strlit("key_pem");
    reveal_strlit("csr_pem");
    reveal_strlit("cert_pem");
    reveal_strlit("ca_pem");
    reveal_strlit("browse");
    assert("stage"@[0] == 's' && "stage"@.len() == 5);
    assert("address"@[0] == 'a' && "address"@.len() == 7);
    assert("key_pem"@[0] == 'k' && "key_pem"@.len() == 7);
    assert("csr_pem"@[0] == 'c' && "csr_pem"@.len() == 7);
    assert("cert_pem"@[0] == 'c' && "cert_pem"@.len() == 8);
    assert("ca_pem"@[0] == 'c' && "ca_pem"@.len() == 6);
    assert("browse"@[0] == 'b' && "browse"@.len() == 6);
}

proof fn lemma_property_keys()
    ensures
        "Address"@ != "Client certificate"@,
        "Address"@ != "Client key"@,
        "Address"@ != "CA certificate"@,
        "Address"@ != "browse"@,
        "Client certificate"@ != "Client key"@,
        "Client certificate"@ != "CA certificate"@,
        "Client certificate"@ != "browse"@,
        "Client key"@ != "CA certificate"@,
        "Client key"@ != "browse"@,
        "CA certificate"@ != "browse"@,
        "address"@ != "Address"@,
        "address"@ != "Client certificate"@,
        "address"@ != "Client key"@,
        "address"@ != "CA certificate"@,
        "cert_pem"@ != "Address"@,
        "cert_pem"@ != "Client certificate"@,
        "cert_pem"@ != "Client key"@,
        "cert_pem"@ != "CA certificate"@,
        "key_pem"@ != "Address"@,
        "key_pem"@ != "Client certificate"@,
        "key_pem"@ != "Client key"@,
        "key_pem"@ != "CA certificate"@,
{
    reveal_strlit("Address");
    reveal_strlit("Client certificate");
    reveal_strlit("Client key");
    reveal_strlit("CA certificate");
    reveal_strlit("browse");
    reveal_strlit("address");
    reveal_strlit("cert_pem");
    reveal_strlit("key_pem");
    assert("Address"@[0] == 'A' && "Address"@.len() == 7);
    assert("Client certificate"@[0] == 'C' && "Client certificate"@.len() == 18);
    assert("Client key"@[0] == 'C' && "Client key"@.len() == 10);
    assert("CA certificate"@[0] == 'C' && "CA certificate"@.len() == 14);
    assert("browse"@[0] == 'b');
    assert("address"@[0] == 'a');
    assert("cert_pem"@[0] == 'c');
    assert("key_pem"@[0] == 'k');
}

// ---------------------------------------------------------------------------------------
// The state
// ---------------------------------------------------------------------------------------

/// Putting fields into the state keeps every field that is not among them.
pub proof fn law_other_fields_are_kept(
    base: Map<Seq<char>, Json>,
    updates: Seq<(&str, &str)>,
    key: Seq<char>,
)
    requires
        forall|i: int| 0 <= i < updates.len() ==> (#[trigger] updates[i]).0@ != key,
    ensures
        lookup(merged(base, updates), key) == lookup(base, key),
    decreases updates.len(),
{
    if updates.len() > 0 {
        law_other_fields_are_kept(base, updates.drop_last(), key);
        assert(updates.last() == updates[updates.len() - 1]);
    }
}

/// A field that was put into the state last is what the state then holds.
pub proof fn law_last_update_counts(base: Map<Seq<char>, Json>, updates: Seq<(&str, &str)>, i: int)
    requires
        0 <= i < updates.len(),
        forall|j: int| i < j < updates.len() ==> (#[trigger] updates[j]).0@ != updates[i].0@,
    ensures
        text_at(merged(base, updates), updates[i].0@) == Some(updates[i].1@),
    decreases updates.len(),
{
    if i < updates.len() - 1 {
        law_last_update_counts(base, updates.drop_last(), i);
        assert(updates.last() == updates[updates.len() - 1]);
    }
}

// ---------------------------------------------------------------------------------------
// Pairing
// ---------------------------------------------------------------------------------------

/// A dimmer is never set up on its own: for any driver but the bridge's, the flow is over
/// at once and offers nothing.
pub proof fn law_only_bridges_are_set_up(
    lap: LapIdentity,
    driver_id: Seq<char>,
    state: Json,
    input: Map<Seq<char>, Json>,
    step: Step,
    next: Json,
)
    requires
        driver_id != BRIDGE_ID@,
    ensures
        may_discover(lap, driver_id, state, input, step, next) <==> (step == (Step::Done {
            devices: Seq::empty(),
        }) && next == Json::Null),
{
}

/// A pairing attempt that came back with an error can be repeated: the flow then submits the
/// same signing request to the same address once more, and so on however often.
pub proof fn law_failed_pairing_can_be_retried(
    lap: LapIdentity,
    state: Json,
    input: Map<Seq<char>, Json>,
)
    requires
        text_at(input, "error"@) is Some,
    ensures
        ({
            let next = pair_response(state, input).1;
            &&& pair_response(state, input).0 is Instruct
            &&& field_of(next, "stage"@) == "ready_to_pair"@
            &&& browsing(next) == browsing(state)
            &&& pair_request(lap, next).0 == pair_request(lap, state).0
            &&& members(pair_request(lap, next).1) == members(set_field(state, "stage"@, "pairing"@))
        }),
{
    lemma_field_keys();
    let next = pair_response(state, input).1;
    assert(field_of(next, "address"@) == field_of(state, "address"@));
    assert(field_of(next, "csr_pem"@) == field_of(state, "csr_pem"@));
    assert(members(pair_request(lap, next).1) =~= members(set_field(state, "stage"@, "pairing"@)));
}

/// From the address to the adopted bridge: with a key generated and a certificate issued,
/// the flow goes through its stages in order, asks the bridge to sign the request that was
/// generated, lists the devices under the certificate that was issued and the key that was
/// generated, and offers the bridge with just these.
pub proof fn law_pairing_leads_to_the_bridge(
    lap: LapIdentity,
    start: Json,
    addr: Seq<char>,
    key_pem: Seq<char>,
    csr_pem: Seq<char>,
    answer: Map<Seq<char>, Json>,
    listing: Map<Seq<char>, Json>,
)
    requires
        !browsing(start),
        field_of(start, "Address"@).len() == 0,
        field_of(start, "Client certificate"@).len() == 0,
        field_of(start, "Client key"@).len() == 0,
        text_at(answer, "error"@) is None,
        signing_result(response_of(answer), "Certificate"@).len() > 0,
        signing_result(response_of(answer), "RootCertificate"@).len() > 0,
    ensures
        ({
            let cert = signing_result(response_of(answer), "Certificate"@);
            let ca = signing_result(response_of(answer), "RootCertificate"@);
            let ready = pairing_begun(start, addr, Ok((key_pem, csr_pem))).1;
            let (submit, pairing) = pair_request(lap, ready);
            let (list, listed) = pair_response(pairing, answer);
            let (done, end) = device_list(listed, listing, true);
            &&& !browsing(ready) && field_of(ready, "stage"@) == "ready_to_pair"@
            &&& submit == (Step::Fetch {
                request: leap_request(
                    "leaps://"@ + addr + ":8083/pair"@,
                    lap.cert_pem@,
                    lap.key_pem@,
                    pair_message(csr_pem),
                ),
                note: "pair"@,
            })
            &&& !browsing(pairing) && field_of(pairing, "stage"@) == "pairing"@
            &&& list == (Step::Fetch {
                request: leap_request(
                    "leaps://"@ + addr + ":8081/device"@,
                    cert,
                    key_pem,
                    crate::setup::device_message(),
                ),
                note: "list"@,
            })
            &&& !browsing(listed) && field_of(listed, "stage"@) == "listing"@
            &&& done is Done
            &&& done->devices.len() > 0
            &&& done->devices[0].driver_id == BRIDGE_ID@
            &&& done->devices[0].properties == Map::empty().insert(
                "Address"@,
                Json::Text(addr),
            ).insert("Client certificate"@, Json::Text(cert)).insert(
                "Client key"@,
                Json::Text(key_pem),
            ).insert("CA certificate"@, Json::Text(ca))
            &&& end == Json::Null
        }),
{
    lemma_field_keys();
    lemma_property_keys();
    lemma_stage_is_no_property();
    let ready = pairing_begun(start, addr, Ok((key_pem, csr_pem))).1;
    assert(field_of(ready, "address"@) == addr);
    assert(field_of(ready, "key_pem"@) == key_pem);
    assert(field_of(ready, "csr_pem"@) == csr_pem);
    assert(field_of(ready, "Address"@) == field_of(start, "Address"@));
    assert(field_of(ready, "Client certificate"@) == field_of(start, "Client certificate"@));
    assert(field_of(ready, "Client key"@) == field_of(start, "Client key"@));
    let pairing = pair_request(lap, ready).1;
    assert(field_of(pairing, "address"@) == addr);
    assert(field_of(pairing, "key_pem"@) == key_pem);
    let listed = pair_response(pairing, answer).1;
    assert(field_of(listed, "address"@) == addr);
    assert(field_of(listed, "key_pem"@) == key_pem);
    assert(field_of(listed, "cert_pem"@) == signing_result(response_of(answer), "Certificate"@));
    assert(field_of(listed, "ca_pem"@) == signing_result(response_of(answer), "RootCertificate"@));
    let done = device_list(listed, listing, true).0;
    assert(done->devices[0] == bridge_offer(listed));
}

proof fn lemma_stage_is_no_property()
    ensures
        "stage"@ != "Address"@,
        "stage"@ != "Client certificate"@,
        "stage"@ != "Client key"@,
        "csr_pem"@ != "Address"@,
        "csr_pem"@ != "Client certificate"@,
        "csr_pem"@ != "Client key"@,
        "ca_pem"@ != "Address"@,
        "ca_pem"@ != "Client certificate"@,
        "ca_pem"@ != "Client key"@,
{
    reveal_strlit("stage");
    reveal_strlit("csr_pem");
    reveal_strlit("ca_pem");
    reveal_strlit("Address");
    reveal_strlit("Client certificate");
    reveal_strlit("Client key");
    assert("stage"@[0] == 's');
    assert("csr_pem"@[0] == 'c');
    assert("ca_pem"@[0] == 'c');
    assert("Address"@[0] == 'A');
    assert("Client certificate"@[0] == 'C');
    assert("Client key"@[0] == 'C');
}

/// Browsing an adopted bridge, with its properties as the state, asks for the devices with
/// the address, the certificate and the key that the bridge was offered with.
pub proof fn law_browsing_uses_what_pairing_left(state: Json)
    ensures
        ({
            let adopted = Json::Object(
                bridge_offer(state).properties.insert("browse"@, Json::Bool(true)),
            );
            &&& browsing(adopted)
            &&& device_request(adopted).0 == (Step::Fetch {
                request: leap_request(
                    "leaps://"@ + field_of(state, "address"@) + ":8081/device"@,
                    field_of(state, "cert_pem"@),
                    field_of(state, "key_pem"@),
                    crate::setup::device_message(),
                ),
                note: "list"@,
            })
        }),
{
    lemma_field_keys();
    lemma_property_keys();
    let adopted = Json::Object(bridge_offer(state).properties.insert("browse"@, Json::Bool(true)));
    assert(field_of(adopted, "Address"@) == field_of(state, "address"@));
    assert(field_of(adopted, "Client certificate"@) == field_of(state, "cert_pem"@));
    assert(field_of(adopted, "Client key"@) == field_of(state, "key_pem"@));
    let empty = Seq::<char>::empty();
    assert(field_of(adopted, "address"@) == empty);
    assert(field_of(adopted, "cert_pem"@) == empty);
    assert(field_of(adopted, "key_pem"@) == empty);
    assert(field_of(state, "address"@).len() == 0 ==> field_of(state, "address"@) == empty);
    assert(field_of(state, "cert_pem"@).len() == 0 ==> field_of(state, "cert_pem"@) == empty);
    assert(field_of(state, "key_pem"@).len() == 0 ==> field_of(state, "key_pem"@) == empty);
}

// ---------------------------------------------------------------------------------------
// Offers
// ---------------------------------------------------------------------------------------

/// The offers of two lists of devices, one after the other, are the offers of the whole.
pub proof fn law_offers_add_up(first: Seq<Json>, second: Seq<Json>)
    ensures
        dimmer_offers(first + second) == dimmer_offers(first) + dimmer_offers(second),
    decreases second.len(),
{
    if second.len() == 0 {
        assert(first + second == first);
        assert(dimmer_offers(first) + Seq::<Offer>::empty() == dimmer_offers(first));
    } else {
        law_offers_add_up(first, second.drop_last());
        assert((first + second).drop_last() == first + second.drop_last());
        if let Some(offer) = dimmer_offer(second.last()) {
            assert((dimmer_offers(first) + dimmer_offers(second.drop_last())).push(offer)
                == dimmer_offers(first) + dimmer_offers(second.drop_last()).push(offer));
        }
    }
}

/// Only dimmable outputs with a zone are offered: every offer is that of a listed device
/// that can be dimmed, under its first zone.
pub proof fn law_only_dimmers_are_offered(devices: Seq<Json>, i: int)
    requires
        0 <= i < dimmer_offers(devices).len(),
    ensures
        exists|j: int|
            0 <= j < devices.len() && #[trigger] dimmer_offer(devices[j]) == Some(
                dimmer_offers(devices)[i],
            ) && (text_of(devices[j], "DeviceType"@) matches Some(device_type) && dimmable(
                device_type,
            )) && first_zone(devices[j]) == text_at(dimmer_offers(devices)[i].properties, "Zone"@),
    decreases devices.len(),
{
    let front = devices.drop_last();
    if i < dimmer_offers(front).len() {
        law_only_dimmers_are_offered(front, i);
        let j = choose|j: int|
            0 <= j < front.len() && #[trigger] dimmer_offer(front[j]) == Some(
                dimmer_offers(front)[i],
            ) && (text_of(front[j], "DeviceType"@) matches Some(device_type) && dimmable(
                device_type,
            )) && first_zone(front[j]) == text_at(dimmer_offers(front)[i].properties, "Zone"@);
        assert(front[j] == devices[j]);
        assert(dimmer_offer(devices[j]) == Some(dimmer_offers(devices)[i]));
    } else {
        let j = devices.len() - 1;
        assert(dimmer_offer(devices[j]) == Some(dimmer_offers(devices)[i]));
    }
}

/// Every listed device that can be dimmed and has a zone is offered.
pub proof fn law_every_dimmer_is_offered(devices: Seq<Json>, j: int)
    requires
        0 <= j < devices.len(),
        dimmer_offer(devices[j]) is Some,
    ensures
        dimmer_offers(devices).contains(dimmer_offer(devices[j]).unwrap()),
    decreases devices.len(),
{
    let offer = dimmer_offer(devices[j]).unwrap();
    let front = devices.drop_last();
    let all = dimmer_offers(devices);
    if j < front.len() {
        law_every_dimmer_is_offered(front, j);
        let i = choose|i: int| 0 <= i < dimmer_offers(front).len() && dimmer_offers(front)[i] == offer;
        assert(all[i] == offer);
    } else {
        assert(all[all.len() - 1] == offer);
    }
}

/// A dimmer adopted as it was offered has the zone that the bridge listed, unless that was
/// empty.
pub proof fn law_adopted_dimmer_has_its_zone(device: Json)
    requires
        dimmer_offer(device) is Some,
        first_zone(device).unwrap().len() > 0,
    ensures
        zone_of(dimmer_offer(device).unwrap().properties) == first_zone(device),
{
}

} // verus!
