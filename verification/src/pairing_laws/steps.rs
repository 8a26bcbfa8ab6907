//! What each step of the setup flow does, told by the members of the state and of the input,
//! and by what the installer and the bridge get to see.

use crate::csr::csr_outcome;
use crate::csr::in_pem;
use crate::csr::public_half;
use crate::csr::request_public_key;
use crate::csr::request_subject;
use crate::csr::request_verifies;
use crate::host::FormField;
use crate::host::Offer;
use crate::host::Request;
use crate::host::Step;
use crate::json::Json;
use crate::laws::commands::holds;
use crate::laws::data::law_positions_are_decimals;
use crate::laws::reports::member;
use crate::pairing_laws::lemma_field_keys;
use crate::serde::json_text;
use crate::setup::LapIdentity;
use crate::setup::bridge_list;
use crate::setup::browsing;
use crate::setup::dimmer_offer;
use crate::setup::dimmer_offers;
use crate::setup::field_of;
use crate::setup::first_zone;
use crate::setup::found_bridges;
use crate::setup::instruction;
use crate::setup::leap_request;
use crate::setup::may_discover;
use crate::setup::members;
use crate::setup::pairing_begun;
use crate::setup::post;
use crate::setup::sighting;
use crate::setup::sightings;
use crate::setup::text_of;
use crate::setup::uncertified;
use crate::text::decimal;
use crate::text::trimmed;
use vstd::prelude::*;
use vstd::string::to_string_from_display_ensures;

verus! {

// ---------------------------------------------------------------------------------------
// States and answers
// ---------------------------------------------------------------------------------------

/// The member of a document under a key, if it is an object that has one.
pub open spec fn inner(document: Option<Json>, key: Seq<char>) -> Option<Json> {
    match document {
        Some(Json::Object(table)) => if table.dom().contains(key) {
            Some(table[key])
        } else {
            None
        },
        _ => None,
    }
}

/// Whether a text is what stands at a place, or is empty where no text stands there.
pub open spec fn says(place: Option<Json>, text: Seq<char>) -> bool {
    match place {
        Some(Json::Text(t)) => text == t,
        _ => text.len() == 0,
    }
}

/// Whether a state has become another by setting some fields, each to a text: the fields are
/// set, and every other member stays.
pub open spec fn sets(
    state: Json,
    next: Json,
    fields: Map<Seq<char>, Seq<char>>,
) -> bool {
    &&& next is Object
    &&& forall|key: Seq<char>| #[trigger]
        fields.dom().contains(key) ==> member(next, key, Json::Text(fields[key]))
    &&& forall|key: Seq<char>|
        !(#[trigger] fields.dom().contains(key)) ==> inner(Some(next), key) == inner(
            Some(state),
            key,
        )
}

proof fn lemma_inner(document: Json, key: Seq<char>)
    requires
        key.len() > 0,
        !crate::text::is_digit(key[0]),
    ensures
        document.step(key) == inner(Some(document), key),
        document.get(key) == inner(Some(document), key),
{
}

proof fn lemma_keys_are_no_positions()
    ensures
        forall|key: Seq<char>|
            key == "Body"@ || key == "SigningResult"@ || key == "Certificate"@ || key
                == "RootCertificate"@ || key == "Devices"@ || key == "LocalZones"@ || key
                == "href"@ ==> (#[trigger] key.len()) > 0 && !crate::text::is_digit(key[0]),
{
    reveal_strlit("Body");
    reveal_strlit("SigningResult");
    reveal_strlit("Certificate");
    reveal_strlit("RootCertificate");
    reveal_strlit("Devices");
    reveal_strlit("LocalZones");
    reveal_strlit("href");
}

/// A field of the state is the text under its key, and empty where there is none.
pub proof fn law_fields_are_texts(state: Json, key: Seq<char>, text: Seq<char>)
    ensures
        says(inner(Some(state), key), text) <==> field_of(state, key) == text,
{
    assert(text.len() == 0 ==> text =~= Seq::<char>::empty());
}

/// The members of a state are those of the object that it is, and none where it is no object.
pub proof fn law_members_of_the_state(state: Json)
    ensures
        forall|key: Seq<char>|
            (#[trigger] members(state).dom().contains(key) <==> inner(Some(state), key) is Some)
                && (members(state).dom().contains(key) ==> inner(Some(state), key) == Some(
                members(state)[key],
            )),
{
}

/// A bridge is browsed just if the state holds `true` under `browse`.
pub proof fn law_browsing_is_a_member(state: Json)
    ensures
        browsing(state) <==> member(state, "browse"@, Json::Bool(true)),
{
}

/// Whether the flow is to ask for an address: it does not browse, and is at none of its stages.
pub open spec fn asking(state: Json) -> bool {
    &&& !member(state, "browse"@, Json::Bool(true))
    &&& !member(state, "stage"@, Json::Text("ready_to_pair"@))
    &&& !member(state, "stage"@, Json::Text("pairing"@))
    &&& !member(state, "stage"@, Json::Text("listing"@))
}

proof fn lemma_stages(state: Json)
    ensures
        field_of(state, "stage"@) == "ready_to_pair"@ <==> member(
            state,
            "stage"@,
            Json::Text("ready_to_pair"@),
        ),
        field_of(state, "stage"@) == "pairing"@ <==> member(
            state,
            "stage"@,
            Json::Text("pairing"@),
        ),
        field_of(state, "stage"@) == "listing"@ <==> member(
            state,
            "stage"@,
            Json::Text("listing"@),
        ),
        "ready_to_pair"@ != "pairing"@,
        "ready_to_pair"@ != "listing"@,
        "pairing"@ != "listing"@,
{
    reveal_strlit("ready_to_pair");
    reveal_strlit("pairing");
    reveal_strlit("listing");
    assert("ready_to_pair"@.len() == 13);
    assert("pairing"@.len() == 7 && "pairing"@[0] == 'p');
    assert("listing"@.len() == 7 && "listing"@[0] == 'l');
}

// ---------------------------------------------------------------------------------------
// The address
// ---------------------------------------------------------------------------------------

/// Whether the flow has begun to pair with an address: with a fresh key and a request for it in
/// the name of `juno` it shows what to do and remembers the address, the key and the request;
/// without one it fails.
pub open spec fn began(state: Json, addr: Seq<char>, step: Step, next: Json) -> bool {
    ||| exists|text: Seq<char>|
        step == (Step::Failed { reason: #[trigger] ("could not generate a pairing key: "@ + text) })
            && next == Json::Null
    ||| exists|key_pem: Seq<char>, csr_pem: Seq<char>|
        {
            &&& request_subject(csr_pem) == seq![(seq![2u64, 5, 4, 3], "juno"@)]
            &&& request_public_key(csr_pem) == public_half(key_pem)
            &&& #[trigger] request_verifies(csr_pem, public_half(key_pem))
            &&& step == (Step::Instruct {
                title: "Ready to pair"@,
                body:
                    "When you continue, this connects to the bridge and waits up to 30 seconds for it to confirm its button was pressed — so press and release the small button on top of the Caséta Smart Bridge right as you continue, not before."@,
                continue_label: "Continue"@,
            })
            &&& sets(
                state,
                next,
                Map::empty().insert("stage"@, "ready_to_pair"@).insert("address"@, addr).insert(
                    "key_pem"@,
                    key_pem,
                ).insert("csr_pem"@, csr_pem),
            )
        }
}

proof fn lemma_began(state: Json, addr: Seq<char>, step: Step, next: Json)
    requires
        crate::setup::may_begin(state, addr, step, next),
    ensures
        began(state, addr, step, next),
{
    lemma_field_keys();
    let outcome = choose|outcome: Result<(Seq<char>, Seq<char>), Seq<char>>| #[trigger]
        csr_outcome(outcome) && (step, next) == crate::setup::pairing_begun(state, addr, outcome);
    match outcome {
        Ok((key_pem, csr_pem)) => {
            assert(crate::csr::common_name_oid() == seq![2u64, 5, 4, 3]);
            assert(request_verifies(csr_pem, public_half(key_pem)));
        },
        Err(text) => {
            assert(step == (Step::Failed { reason: "could not generate a pairing key: "@ + text }));
        },
    }
}

/// What came of the key decides how pairing begins: with a key and a request both are
/// remembered, each under its own name; without, the flow fails and says why.
pub proof fn law_key_decides_how_pairing_begins(
    state: Json,
    addr: Seq<char>,
    key_pem: Seq<char>,
    csr_pem: Seq<char>,
    text: Seq<char>,
)
    ensures
        pairing_begun(state, addr, Err(text)) == (
            Step::Failed { reason: "could not generate a pairing key: "@ + text },
            Json::Null,
        ),
        sets(
            state,
            pairing_begun(state, addr, Ok((key_pem, csr_pem))).1,
            Map::empty().insert("stage"@, "ready_to_pair"@).insert("address"@, addr).insert(
                "key_pem"@,
                key_pem,
            ).insert("csr_pem"@, csr_pem),
        ),
        pairing_begun(state, addr, Ok((key_pem, csr_pem))).0 is Instruct,
        csr_outcome(Err(text)) ==> exists|error: rcgen::Error, message: String|
            message@ == text && #[trigger] to_string_from_display_ensures(&error, message),
        csr_outcome(Ok((key_pem, csr_pem))) ==> in_pem(key_pem, "PRIVATE KEY"@) && in_pem(
            csr_pem,
            "CERTIFICATE REQUEST"@,
        ) && request_subject(csr_pem) == seq![(seq![2u64, 5, 4, 3], "juno"@)]
            && request_public_key(csr_pem) == public_half(key_pem) && request_verifies(
            csr_pem,
            public_half(key_pem),
        ),
{
    lemma_field_keys();
    assert(crate::csr::common_name_oid() == seq![2u64, 5, 4, 3]);
}

/// What is shown is shown under its title, and a request carries its certificate, its key and
/// its text, each in its place.
pub proof fn law_parts_are_put_in_their_places(
    title: Seq<char>,
    body: Seq<char>,
    url: Seq<char>,
    cert: Seq<char>,
    key: Seq<char>,
    message: Json,
)
    ensures
        instruction(title, body) == (Step::Instruct {
            title: title,
            body: body,
            continue_label: "Continue"@,
        }),
        post(url, cert, key, body) == (Request {
            method: "POST"@,
            url: url,
            headers: seq![("x-client-cert"@, cert), ("x-client-key"@, key)],
            body: Some(body),
        }),
        leap_request(url, cert, key, message) == post(url, cert, key, json_text(message)),
        uncertified(body) == (Step::Failed {
            reason: "the bridge answered but sent no certificate: "@ + body,
        }),
{
}

/// An address that the installer typed is the one that the flow pairs with, without the white
/// space around it, whatever bridges were found and however many.
pub proof fn law_typed_address_is_paired_with(
    lap: LapIdentity,
    state: Json,
    input: Map<Seq<char>, Json>,
    typed: Seq<char>,
    step: Step,
    next: Json,
)
    requires
        asking(state),
        holds(input, "Bridge address"@, Json::Text(typed)),
        trimmed(typed).len() > 0,
        may_discover(lap, "lutron.caseta.leap_bridge"@, state, input, step, next),
    ensures
        began(state, trimmed(typed), step, next),
{
    lemma_stages(state);
    law_browsing_is_a_member(state);
    lemma_began(state, trimmed(typed), step, next);
}

/// Whether the installer typed nothing, or nothing but white space.
pub open spec fn nothing_typed(input: Map<Seq<char>, Json>) -> bool {
    input.dom().contains("Bridge address"@) ==> (input["Bridge address"@] matches Json::Text(text)
        ==> trimmed(text).len() == 0)
}

proof fn lemma_nothing_typed(input: Map<Seq<char>, Json>)
    requires
        nothing_typed(input),
    ensures
        crate::setup::typed_address(input).len() == 0,
{
    assert(trimmed(Seq::<char>::empty()) == Seq::<char>::empty());
}

/// Where nothing was typed and exactly one bridge was found, the flow pairs with that bridge.
pub proof fn law_only_bridge_is_paired_with(
    lap: LapIdentity,
    state: Json,
    input: Map<Seq<char>, Json>,
    name: Seq<char>,
    addr: Seq<char>,
    step: Step,
    next: Json,
)
    requires
        asking(state),
        nothing_typed(input),
        found_bridges(state) == seq![(name, addr)],
        may_discover(lap, "lutron.caseta.leap_bridge"@, state, input, step, next),
    ensures
        began(state, addr, step, next),
{
    lemma_stages(state);
    law_browsing_is_a_member(state);
    lemma_nothing_typed(input);
    lemma_began(state, addr, step, next);
}

/// Where nothing was typed and no bridge or more than one was found, the flow asks for the
/// address, names what was found, suggests the first, and keeps its state.
pub proof fn law_unclear_address_is_asked_for(
    lap: LapIdentity,
    state: Json,
    input: Map<Seq<char>, Json>,
    step: Step,
    next: Json,
)
    requires
        asking(state),
        nothing_typed(input),
        found_bridges(state).len() != 1,
        may_discover(lap, "lutron.caseta.leap_bridge"@, state, input, step, next),
    ensures
        next == state,
        step is Form,
        step->Form_title == "Pair a Caséta Smart Bridge"@,
        found_bridges(state).len() == 0 ==> step->Form_body
            == "Enter the bridge's IP address. You'll be asked to press the button on the bridge next."@,
        found_bridges(state).len() > 0 ==> step->Form_body == "Found "@ + bridge_list(
            found_bridges(state),
        )
            + " on the network — pick the right one, or type an address. You'll be asked to press the button on the bridge next."@,
        step->fields == seq![
            FormField {
                name: "Bridge address"@,
                label: "Bridge IP address"@,
                kind: "string"@,
                help: "e.g. 192.168.1.50"@,
                default: if found_bridges(state).len() > 0 {
                    Some(Json::Text(found_bridges(state)[0].1))
                } else {
                    None
                },
                options: Seq::empty(),
                required: true,
            },
        ],
{
    lemma_stages(state);
    law_browsing_is_a_member(state);
    lemma_nothing_typed(input);
}

/// The bridges that were found are those in the list under `mdns_candidates`, each with the
/// texts under `name` and `address`; what lacks either is left out, and the order is kept.
pub proof fn law_found_bridges_are_in_the_state(
    state: Json,
    list: Seq<Json>,
    found: Json,
    name: Seq<char>,
    addr: Seq<char>,
)
    ensures
        member(state, "mdns_candidates"@, Json::Array(list)) ==> found_bridges(state) == sightings(
            list,
        ),
        !(inner(Some(state), "mdns_candidates"@) matches Some(Json::Array(_))) ==> found_bridges(
            state,
        ).len() == 0,
        sightings(Seq::empty()).len() == 0,
        member(found, "name"@, Json::Text(name)) && member(found, "address"@, Json::Text(addr))
            ==> sightings(list.push(found)) == sightings(list) + seq![(name, addr)],
        !(inner(Some(found), "name"@) matches Some(Json::Text(_))) || !(inner(
            Some(found),
            "address"@,
        ) matches Some(Json::Text(_))) ==> sightings(list.push(found)) == sightings(list),
{
    assert(list.push(found).drop_last() =~= list);
    assert(sightings(list).push((name, addr)) =~= sightings(list) + seq![(name, addr)]);
    assert(sighting(found) matches Some(pair) ==> (inner(Some(found), "name"@) matches Some(
        Json::Text(_),
    )) && (inner(Some(found), "address"@) matches Some(Json::Text(_))));
}

/// Bridges are named to the installer in order, each as its name and its address in brackets,
/// with commas between them.
pub proof fn law_bridges_are_named_in_order(
    found: Seq<(Seq<char>, Seq<char>)>,
    name: Seq<char>,
    addr: Seq<char>,
)
    ensures
        bridge_list(seq![(name, addr)]) == name + " ("@ + addr + ")"@,
        found.len() > 0 ==> bridge_list(found.push((name, addr))) == bridge_list(found) + ", "@ + (
        name + " ("@ + addr + ")"@),
{
    assert(found.push((name, addr)).drop_last() =~= found);
}

// ---------------------------------------------------------------------------------------
// Pairing
// ---------------------------------------------------------------------------------------

/// The LEAP request that asks a bridge to sign a request.
pub open spec fn signing_request(csr: Seq<char>) -> Json {
    let header = Map::empty().insert("RequestType"@, Json::Text("Execute"@)).insert(
        "Url"@,
        Json::Text("/pair"@),
    ).insert("ClientTag"@, Json::Text("get-cert"@));
    let parameters = Map::empty().insert("CSR"@, Json::Text(csr)).insert(
        "DisplayName"@,
        Json::Text("Juno"@),
    ).insert("DeviceUID"@, Json::Text("000000000000"@)).insert("Role"@, Json::Text("Admin"@));
    let body = Map::empty().insert("CommandType"@, Json::Text("CSR"@)).insert(
        "Parameters"@,
        Json::Object(parameters),
    );
    Json::Object(
        Map::empty().insert("Header"@, Json::Object(header)).insert("Body"@, Json::Object(body)),
    )
}

/// When the installer is ready, the request in the state goes to the pairing port of the address
/// in the state, under the identity that every bridge knows.
pub proof fn law_ready_flow_submits_the_request(
    lap: LapIdentity,
    state: Json,
    input: Map<Seq<char>, Json>,
    addr: Seq<char>,
    csr: Seq<char>,
    step: Step,
    next: Json,
)
    requires
        !member(state, "browse"@, Json::Bool(true)),
        member(state, "stage"@, Json::Text("ready_to_pair"@)),
        says(inner(Some(state), "address"@), addr),
        says(inner(Some(state), "csr_pem"@), csr),
        may_discover(lap, "lutron.caseta.leap_bridge"@, state, input, step, next),
    ensures
        step == (Step::Fetch {
            request: Request {
                method: "POST"@,
                url: "leaps://"@ + addr + ":8083/pair"@,
                headers: seq![("x-client-cert"@, lap.cert_pem@), ("x-client-key"@, lap.key_pem@)],
                body: Some(json_text(signing_request(csr))),
            },
            note: "pair"@,
        }),
        sets(state, next, Map::empty().insert("stage"@, "pairing"@)),
{
    lemma_stages(state);
    law_browsing_is_a_member(state);
    law_fields_are_texts(state, "address"@, addr);
    law_fields_are_texts(state, "csr_pem"@, csr);
}

/// A step that asks a bridge for its devices.
pub open spec fn asks_for_devices(
    addr: Seq<char>,
    cert: Seq<char>,
    key: Seq<char>,
    step: Step,
) -> bool {
    step == (Step::Fetch {
        request: Request {
            method: "POST"@,
            url: "leaps://"@ + addr + ":8081/device"@,
            headers: seq![("x-client-cert"@, cert), ("x-client-key"@, key)],
            body: Some(
                json_text(
                    Json::Object(
                        Map::empty().insert("CommuniqueType"@, Json::Text("ReadRequest"@)).insert(
                            "Header"@,
                            Json::Object(Map::empty().insert("Url"@, Json::Text("/device"@))),
                        ),
                    ),
                ),
            ),
        },
        note: "list"@,
    })
}

/// Whether a text is that of one field of the state, or of another where the first is empty.
pub open spec fn says_either(
    state: Json,
    first: Seq<char>,
    other: Seq<char>,
    text: Seq<char>,
) -> bool {
    ||| text.len() > 0 && says(inner(Some(state), first), text)
    ||| says(inner(Some(state), first), Seq::empty()) && says(inner(Some(state), other), text)
}

proof fn lemma_says_either(state: Json, first: Seq<char>, other: Seq<char>, text: Seq<char>)
    requires
        says_either(state, first, other, text),
    ensures
        crate::setup::field_or(state, first, other) == text,
{
    law_fields_are_texts(state, first, text);
    law_fields_are_texts(state, first, Seq::empty());
    law_fields_are_texts(state, other, text);
}

/// When the bridge could not be asked, the installer is told why and how to go on, and the flow
/// is ready to pair once more.
pub proof fn law_pairing_error_is_shown(
    lap: LapIdentity,
    state: Json,
    input: Map<Seq<char>, Json>,
    error: Seq<char>,
    step: Step,
    next: Json,
)
    requires
        !member(state, "browse"@, Json::Bool(true)),
        member(state, "stage"@, Json::Text("pairing"@)),
        holds(input, "error"@, Json::Text(error)),
        may_discover(lap, "lutron.caseta.leap_bridge"@, state, input, step, next),
    ensures
        step == (Step::Instruct {
            title: "Not paired yet"@,
            body: error
                + " — press the button on the bridge right when you continue (the bridge only recognizes a press while a client is connected and waiting), then continue."@,
            continue_label: "Continue"@,
        }),
        sets(state, next, Map::empty().insert("stage"@, "ready_to_pair"@)),
{
    lemma_stages(state);
    law_browsing_is_a_member(state);
}

/// The place in the bridge's answer where a text of the signing result stands.
pub open spec fn signed(input: Map<Seq<char>, Json>, key: Seq<char>) -> Option<Json> {
    inner(
        inner(inner(inner(Some(Json::Object(input)), "response"@), "Body"@), "SigningResult"@),
        key,
    )
}

proof fn lemma_signed(input: Map<Seq<char>, Json>, key: Seq<char>, text: Seq<char>)
    requires
        key == "Certificate"@ || key == "RootCertificate"@,
        says(signed(input, key), text),
    ensures
        crate::setup::signing_result(crate::setup::response_of(input), key) == text,
{
    lemma_keys_are_no_positions();
    assert("Body"@.len() > 0 && "SigningResult"@.len() > 0 && key.len() > 0);
    let response = crate::setup::response_of(input);
    lemma_inner(response, "Body"@);
    if let Some(body) = response.step("Body"@) {
        lemma_inner(body, "SigningResult"@);
        if let Some(result) = body.step("SigningResult"@) {
            lemma_inner(result, key);
        }
    }
    assert(text.len() == 0 ==> text =~= Seq::<char>::empty());
}

/// Once the bridge has issued a certificate and its root, both are remembered, and the devices
/// are asked for under the new certificate.
pub proof fn law_issued_certificate_is_used(
    lap: LapIdentity,
    state: Json,
    input: Map<Seq<char>, Json>,
    cert: Seq<char>,
    ca: Seq<char>,
    addr: Seq<char>,
    listing_cert: Seq<char>,
    key: Seq<char>,
    step: Step,
    next: Json,
)
    requires
        !member(state, "browse"@, Json::Bool(true)),
        member(state, "stage"@, Json::Text("pairing"@)),
        !(inner(Some(Json::Object(input)), "error"@) matches Some(Json::Text(_))),
        signed(input, "Certificate"@) == Some(Json::Text(cert)) && cert.len() > 0,
        signed(input, "RootCertificate"@) == Some(Json::Text(ca)) && ca.len() > 0,
        may_discover(lap, "lutron.caseta.leap_bridge"@, state, input, step, next),
        says_either(next, "Address"@, "address"@, addr),
        says_either(next, "Client certificate"@, "cert_pem"@, listing_cert),
        says_either(next, "Client key"@, "key_pem"@, key),
    ensures
        sets(
            state,
            next,
            Map::empty().insert("stage"@, "listing"@).insert("cert_pem"@, cert).insert(
                "ca_pem"@,
                ca,
            ),
        ),
        asks_for_devices(addr, listing_cert, key, step),
{
    lemma_stages(state);
    lemma_field_keys();
    law_browsing_is_a_member(state);
    lemma_signed(input, "Certificate"@, cert);
    lemma_signed(input, "RootCertificate"@, ca);
    lemma_says_either(next, "Address"@, "address"@, addr);
    lemma_says_either(next, "Client certificate"@, "cert_pem"@, listing_cert);
    lemma_says_either(next, "Client key"@, "key_pem"@, key);
}

/// An answer that lacks the certificate or its root, or holds an empty one, ends the flow, and
/// the installer gets to see the answer.
pub proof fn law_missing_certificate_ends_the_flow(
    lap: LapIdentity,
    state: Json,
    input: Map<Seq<char>, Json>,
    cert: Seq<char>,
    ca: Seq<char>,
    step: Step,
    next: Json,
)
    requires
        !member(state, "browse"@, Json::Bool(true)),
        member(state, "stage"@, Json::Text("pairing"@)),
        !(inner(Some(Json::Object(input)), "error"@) matches Some(Json::Text(_))),
        says(signed(input, "Certificate"@), cert),
        says(signed(input, "RootCertificate"@), ca),
        cert.len() == 0 || ca.len() == 0,
        may_discover(lap, "lutron.caseta.leap_bridge"@, state, input, step, next),
    ensures
        step == (Step::Failed {
            reason: "the bridge answered but sent no certificate: "@ + json_text(
                match inner(Some(Json::Object(input)), "response"@) {
                    Some(response) => response,
                    None => Json::Null,
                },
            ),
        }),
        next == Json::Null,
{
    lemma_stages(state);
    law_browsing_is_a_member(state);
    lemma_signed(input, "Certificate"@, cert);
    lemma_signed(input, "RootCertificate"@, ca);
}

/// Browsing an adopted bridge asks it for its devices, until the host brings a response or an
/// error; the state is kept.
pub proof fn law_browsing_asks_for_devices(
    lap: LapIdentity,
    state: Json,
    input: Map<Seq<char>, Json>,
    addr: Seq<char>,
    cert: Seq<char>,
    key: Seq<char>,
    step: Step,
    next: Json,
)
    requires
        member(state, "browse"@, Json::Bool(true)),
        !input.dom().contains("response"@) && !input.dom().contains("error"@),
        says_either(state, "Address"@, "address"@, addr),
        says_either(state, "Client certificate"@, "cert_pem"@, cert),
        says_either(state, "Client key"@, "key_pem"@, key),
        may_discover(lap, "lutron.caseta.leap_bridge"@, state, input, step, next),
    ensures
        asks_for_devices(addr, cert, key, step),
        next == state,
{
    law_browsing_is_a_member(state);
    lemma_says_either(state, "Address"@, "address"@, addr);
    lemma_says_either(state, "Client certificate"@, "cert_pem"@, cert);
    lemma_says_either(state, "Client key"@, "key_pem"@, key);
}

/// The flow of any other driver is over at once and offers nothing.
pub proof fn law_other_drivers_find_nothing(
    lap: LapIdentity,
    driver_id: Seq<char>,
    state: Json,
    input: Map<Seq<char>, Json>,
    step: Step,
    next: Json,
)
    requires
        driver_id != "lutron.caseta.leap_bridge"@,
        may_discover(lap, driver_id, state, input, step, next),
    ensures
        step is Done,
        step->devices.len() == 0,
        next == Json::Null,
{
}

// ---------------------------------------------------------------------------------------
// Offers
// ---------------------------------------------------------------------------------------

/// Whether these are the devices that the host's response lists, none where it lists none.
pub open spec fn lists(input: Map<Seq<char>, Json>, devices: Seq<Json>) -> bool {
    match inner(inner(inner(Some(Json::Object(input)), "response"@), "Body"@), "Devices"@) {
        Some(Json::Array(items)) => devices == items,
        _ => devices.len() == 0,
    }
}

proof fn lemma_lists(input: Map<Seq<char>, Json>, devices: Seq<Json>)
    requires
        lists(input, devices),
    ensures
        crate::setup::listed_devices(crate::setup::response_of(input)) == devices,
{
    lemma_keys_are_no_positions();
    assert("Body"@.len() > 0 && "Devices"@.len() > 0);
    let response = crate::setup::response_of(input);
    lemma_inner(response, "Body"@);
    if let Some(body) = response.step("Body"@) {
        lemma_inner(body, "Devices"@);
    }
    assert(devices.len() == 0 ==> devices =~= Seq::<Json>::empty());
}

/// Browsing ends with the offers of the listed devices and nothing else.
pub proof fn law_browsing_offers_devices(
    lap: LapIdentity,
    state: Json,
    input: Map<Seq<char>, Json>,
    devices: Seq<Json>,
    step: Step,
    next: Json,
)
    requires
        member(state, "browse"@, Json::Bool(true)),
        input.dom().contains("response"@) || input.dom().contains("error"@),
        lists(input, devices),
        may_discover(lap, "lutron.caseta.leap_bridge"@, state, input, step, next),
    ensures
        step == (Step::Done { devices: dimmer_offers(devices) }),
        next == Json::Null,
{
    law_browsing_is_a_member(state);
    lemma_lists(input, devices);
}

/// Pairing ends with the offer of the bridge, with its address, certificate, key and root, and
/// after it the offers of the listed devices.
pub proof fn law_pairing_offers_bridge_and_devices(
    lap: LapIdentity,
    state: Json,
    input: Map<Seq<char>, Json>,
    devices: Seq<Json>,
    addr: Seq<char>,
    cert: Seq<char>,
    key: Seq<char>,
    ca: Seq<char>,
    step: Step,
    next: Json,
)
    requires
        !member(state, "browse"@, Json::Bool(true)),
        member(state, "stage"@, Json::Text("listing"@)),
        lists(input, devices),
        says(inner(Some(state), "address"@), addr),
        says(inner(Some(state), "cert_pem"@), cert),
        says(inner(Some(state), "key_pem"@), key),
        says(inner(Some(state), "ca_pem"@), ca),
        may_discover(lap, "lutron.caseta.leap_bridge"@, state, input, step, next),
    ensures
        step == (Step::Done {
            devices: seq![
                Offer {
                    label: "Caséta Smart Bridge ("@ + addr + ")"@,
                    kind: "bridge"@,
                    driver_id: "lutron.caseta.leap_bridge"@,
                    properties: Map::empty().insert("Address"@, Json::Text(addr)).insert(
                        "Client certificate"@,
                        Json::Text(cert),
                    ).insert("Client key"@, Json::Text(key)).insert(
                        "CA certificate"@,
                        Json::Text(ca),
                    ),
                    verified: "paired"@,
                },
            ] + dimmer_offers(devices),
        }),
        next == Json::Null,
{
    lemma_stages(state);
    law_browsing_is_a_member(state);
    lemma_lists(input, devices);
    law_fields_are_texts(state, "address"@, addr);
    law_fields_are_texts(state, "cert_pem"@, cert);
    law_fields_are_texts(state, "key_pem"@, key);
    law_fields_are_texts(state, "ca_pem"@, ca);
}

/// A list of devices is offered device by device, in order; what is not to be offered is left
/// out.
pub proof fn law_devices_are_offered_in_order(devices: Seq<Json>, device: Json)
    ensures
        dimmer_offers(Seq::empty()).len() == 0,
        dimmer_offer(device) is None ==> dimmer_offers(devices.push(device)) == dimmer_offers(
            devices,
        ),
        dimmer_offer(device) matches Some(offer) ==> dimmer_offers(devices.push(device))
            == dimmer_offers(devices) + seq![offer],
{
    assert(devices.push(device).drop_last() =~= devices);
    if let Some(offer) = dimmer_offer(device) {
        assert(dimmer_offers(devices).push(offer) =~= dimmer_offers(devices) + seq![offer]);
    }
}

/// Whether a device's first zone goes by a reference: that of the first of its `LocalZones`, or
/// of the one under `0` where they are an object.
pub open spec fn first_zone_is(device: Json, zone: Seq<char>) -> bool {
    match inner(Some(device), "LocalZones"@) {
        Some(Json::Array(zones)) => zones.len() > 0 && member(
            zones[0],
            "href"@,
            Json::Text(zone),
        ),
        Some(zones) => inner(inner(Some(zones), "0"@), "href"@) == Some(Json::Text(zone)),
        None => false,
    }
}

/// The first zone of a device is found by its members.
pub proof fn law_first_zone_is_found(device: Json, zone: Seq<char>)
    ensures
        first_zone(device) == Some(zone) <==> first_zone_is(device, zone),
{
    lemma_keys_are_no_positions();
    assert("LocalZones"@.len() > 0 && "href"@.len() > 0);
    reveal_strlit("0");
    assert("0"@ =~= decimal(0));
    law_positions_are_decimals("0"@, 0);
    lemma_inner(device, "LocalZones"@);
    if let Some(zones) = device.step("LocalZones"@) {
        if let Some(first) = zones.step("0"@) {
            lemma_inner(first, "href"@);
        }
    }
}

/// A device is offered just if its type is `WallDimmer`, `PlugInDimmer`, `InLineDimmer` or
/// `Dimmed` and it has a zone: as a light under its name, or a stand-in where it has none, with
/// that zone.
pub proof fn law_dimmers_are_offered_as_lights(
    device: Json,
    device_type: Seq<char>,
    zone: Seq<char>,
    name: Seq<char>,
)
    requires
        member(device, "DeviceType"@, Json::Text(device_type)),
        device_type == "WallDimmer"@ || device_type == "PlugInDimmer"@ || device_type
            == "InLineDimmer"@ || device_type == "Dimmed"@,
        first_zone_is(device, zone),
        inner(Some(device), "Name"@) == Some(Json::Text(name)) || !(inner(
            Some(device),
            "Name"@,
        ) matches Some(Json::Text(_))) && name == "Caséta Dimmer"@,
    ensures
        dimmer_offer(device) == Some(
            Offer {
                label: name,
                kind: "light"@,
                driver_id: "lutron.caseta.leap_dimmer"@,
                properties: Map::empty().insert("Zone"@, Json::Text(zone)),
                verified: "found on bridge"@,
            },
        ),
{
    law_first_zone_is_found(device, zone);
}

/// A device of any other type is not offered, whatever else it has; nor is one without a type,
/// or without a zone.
pub proof fn law_nothing_else_is_offered(device: Json)
    requires
        dimmer_offer(device) is Some,
    ensures
        member(device, "DeviceType"@, Json::Text("WallDimmer"@)) || member(
            device,
            "DeviceType"@,
            Json::Text("PlugInDimmer"@),
        ) || member(device, "DeviceType"@, Json::Text("InLineDimmer"@)) || member(
            device,
            "DeviceType"@,
            Json::Text("Dimmed"@),
        ),
        exists|zone: Seq<char>| first_zone_is(device, zone),
{
    law_first_zone_is_found(device, first_zone(device).unwrap());
}

/// The text of a member is the text under its key.
pub proof fn law_text_of_a_member(document: Json, key: Seq<char>, text: Seq<char>)
    ensures
        text_of(document, key) == Some(text) <==> member(document, key, Json::Text(text)),
{
}

} // verus!
