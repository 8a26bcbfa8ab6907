//! Pairing a bridge over LEAP, and listing what is behind it.
//!
//! Pairing goes to port 8083 with the identity that every bridge knows, waits for the
//! bridge's button, and submits a certificate signing request; the bridge answers with a
//! certificate for this installation.  With that certificate, port 8081 lists the devices
//! that are paired with the bridge.
//!
//! The state of the flow is a JSON object.  It goes through the installer's browser
//! between the steps, so a step keeps what it does not know.

use crate::csr::csr_outcome;
use crate::csr::generate_csr;
use crate::csr::outcome_view;
use crate::host::Args;
use crate::host::Candidate;
use crate::host::Field;
use crate::host::FormField;
use crate::host::HttpRequest;
use crate::host::Offer;
use crate::host::Request;
use crate::host::SetupStep;
use crate::host::Step;
use crate::host::offers;
use crate::json::Datum;
use crate::json::Json;
use crate::json::Object;
use crate::json::get_text;
use crate::json::lookup;
use crate::json::plain;
use crate::json::text_at;
use crate::json::text_datum;
use crate::json::trees;
use crate::serde::json_read;
use crate::serde::json_text;
use crate::serde::write_json;
use crate::text::same;
use crate::text::trim;
use crate::text::trimmed;
use vstd::prelude::*;
use vstd::string::StringExecFns;

verus! {

/// The id of the bridge's manifest.
pub const BRIDGE_ID: &'static str = "lutron.caseta.leap_bridge";

/// The id of the dimmer's manifest.
pub const DIMMER_ID: &'static str = "lutron.caseta.leap_dimmer";

/// The client identity that every bridge recognizes on its pairing port.  It is not a
/// secret: a client needs some certificate that the bridge trusts before the bridge can
/// issue it one of its own, and this one is good for that exchange only.
pub struct LapIdentity {
    pub cert_pem: String,
    pub key_pem: String,
}

/// The driver of a Smart Bridge and of the dimmers behind it.
pub struct CasetaLeap {
    pub lap: LapIdentity,
}

// ---------------------------------------------------------------------------------------
// The state of the flow
// ---------------------------------------------------------------------------------------

/// The text in a field of the state, empty where there is none.
pub open spec fn field_of(state: Json, key: Seq<char>) -> Seq<char> {
    match state.get(key) {
        Some(value) => match value.as_str() {
            Some(s) => s,
            None => Seq::empty(),
        },
        None => Seq::empty(),
    }
}

/// The members of the state, none where it is no object.
pub open spec fn members(state: Json) -> Map<Seq<char>, Json> {
    match state.as_object() {
        Some(table) => table,
        None => Map::empty(),
    }
}

/// A table with some texts put in, one after the other.
pub open spec fn merged(base: Map<Seq<char>, Json>, updates: Seq<(&str, &str)>) -> Map<
    Seq<char>,
    Json,
>
    decreases updates.len(),
{
    if updates.len() == 0 {
        base
    } else {
        merged(base, updates.drop_last()).insert(updates.last().0@, Json::Text(updates.last().1@))
    }
}

/// The state with one field set, and everything else as it was.
pub open spec fn set_field(state: Json, key: Seq<char>, text: Seq<char>) -> Json {
    Json::Object(members(state).insert(key, Json::Text(text)))
}

/// Reads a field of the state.
pub fn field(state: &Datum, key: &str) -> (text: String)
    ensures
        text@ == field_of(state@, key@),
{
    match state.get(key) {
        Some(value) => match value.as_str() {
            Some(s) => s.to_owned(),
            None => String::new(),
        },
        None => String::new(),
    }
}

/// Puts some fields into the state, keeping everything else.
pub fn with_fields(state: &Datum, updates: &[(&str, &str)]) -> (result: Datum)
    ensures
        result@ == Json::Object(merged(members(state@), updates@)),
{
    let mut table = match state.as_object() {
        Some(object) => object.clone(),
        None => Object::new(),
    };
    let mut i: usize = 0;
    while i < updates.len()
        invariant
            i <= updates.len(),
            table@ == merged(members(state@), updates@.take(i as int)),
        decreases updates.len() - i,
    {
        assert(updates@.take(i + 1).drop_last() == updates@.take(i as int));
        table.insert(updates[i].0.to_owned(), text_datum(updates[i].1));
        i = i + 1;
    }
    assert(updates@.take(i as int) == updates@);
    Datum::Object(table)
}

/// A step that shows something to do.
pub open spec fn instruction(title: Seq<char>, body: Seq<char>) -> Step {
    Step::Instruct { title: title, body: body, continue_label: "Continue"@ }
}

/// Makes a step that shows something to do.
pub fn instruct(title: &str, body: &str) -> (step: SetupStep)
    ensures
        step@ == instruction(title@, body@),
{
    SetupStep::Instruct {
        title: title.to_owned(),
        body: body.to_owned(),
        continue_label: "Continue".to_owned(),
    }
}

// ---------------------------------------------------------------------------------------
// Asking for the bridge's address
// ---------------------------------------------------------------------------------------

/// The name and the address of a bridge that a scan of the network found.
pub open spec fn sighting(found: Json) -> Option<(Seq<char>, Seq<char>)> {
    match (found.get("name"@), found.get("address"@)) {
        (Some(name), Some(address)) => match (name.as_str(), address.as_str()) {
            (Some(name), Some(address)) => Some((name, address)),
            _ => None,
        },
        _ => None,
    }
}

/// The sightings in a list, without what is none.
pub open spec fn sightings(list: Seq<Json>) -> Seq<(Seq<char>, Seq<char>)>
    decreases list.len(),
{
    if list.len() == 0 {
        Seq::empty()
    } else {
        let front = sightings(list.drop_last());
        match sighting(list.last()) {
            Some(pair) => front.push(pair),
            None => front,
        }
    }
}

/// The bridges that a scan of the network found before the flow began.
pub open spec fn found_bridges(state: Json) -> Seq<(Seq<char>, Seq<char>)> {
    match state.get("mdns_candidates"@) {
        Some(value) => match value.as_array() {
            Some(list) => sightings(list),
            None => Seq::empty(),
        },
        None => Seq::empty(),
    }
}

/// The texts in a list of pairs.
pub open spec fn pairs(list: Seq<(String, String)>) -> Seq<(Seq<char>, Seq<char>)> {
    Seq::new(list.len(), |i: int| (list[i].0@, list[i].1@))
}

/// The address that the installer typed, without the white space around it.
pub open spec fn typed_address(input: Map<Seq<char>, Json>) -> Seq<char> {
    trimmed(
        match text_at(input, "Bridge address"@) {
            Some(text) => text,
            None => Seq::empty(),
        },
    )
}

/// The address to pair with, if it is clear: the one that was typed, or else that of the
/// only bridge that was found.
pub open spec fn chosen_address(state: Json, input: Map<Seq<char>, Json>) -> Option<Seq<char>> {
    if typed_address(input).len() > 0 {
        Some(typed_address(input))
    } else if found_bridges(state).len() == 1 {
        Some(found_bridges(state)[0].1)
    } else {
        None
    }
}

/// The bridges by name and address, as the installer reads them.
pub open spec fn bridge_list(found: Seq<(Seq<char>, Seq<char>)>) -> Seq<char>
    decreases found.len(),
{
    if found.len() == 0 {
        Seq::empty()
    } else {
        let entry = found.last().0 + " ("@ + found.last().1 + ")"@;
        if found.len() == 1 {
            entry
        } else {
            bridge_list(found.drop_last()) + ", "@ + entry
        }
    }
}

/// The form that asks for the bridge's address.
pub open spec fn address_form(state: Json) -> Step {
    let found = found_bridges(state);
    Step::Form {
        title: "Pair a Caséta Smart Bridge"@,
        body: if found.len() == 0 {
            "Enter the bridge's IP address. You'll be asked to press the button on the bridge next."@
        } else {
            "Found "@ + bridge_list(found)
                + " on the network — pick the right one, or type an address. You'll be asked to press the button on the bridge next."@
        },
        fields: seq![
            FormField {
                name: "Bridge address"@,
                label: "Bridge IP address"@,
                kind: "string"@,
                help: "e.g. 192.168.1.50"@,
                default: if found.len() == 0 {
                    None
                } else {
                    Some(Json::Text(found[0].1))
                },
                options: Seq::empty(),
                required: true,
            },
        ],
    }
}

/// What the flow does once an address is known and a key has been generated, or could not
/// be.
pub open spec fn pairing_begun(
    state: Json,
    addr: Seq<char>,
    outcome: Result<(Seq<char>, Seq<char>), Seq<char>>,
) -> (Step, Json) {
    match outcome {
        Ok((key_pem, csr_pem)) => (
            instruction(
                "Ready to pair"@,
                "When you continue, this connects to the bridge and waits up to 30 seconds for it to confirm its button was pressed — so press and release the small button on top of the Caséta Smart Bridge right as you continue, not before."@,
            ),
            Json::Object(
                members(state).insert("stage"@, Json::Text("ready_to_pair"@)).insert(
                    "address"@,
                    Json::Text(addr),
                ).insert("key_pem"@, Json::Text(key_pem)).insert("csr_pem"@, Json::Text(csr_pem)),
            ),
        ),
        Err(text) => (
            Step::Failed { reason: "could not generate a pairing key: "@ + text },
            Json::Null,
        ),
    }
}

/// Whether the flow may have begun to pair with an address in this way.
pub open spec fn may_begin(state: Json, addr: Seq<char>, step: Step, next: Json) -> bool {
    exists|outcome: Result<(Seq<char>, Seq<char>), Seq<char>>| #[trigger]
        csr_outcome(outcome) && (step, next) == pairing_begun(state, addr, outcome)
}

/// Whether the flow may have taken the installer's answer to the address form in this way.
pub open spec fn may_ask(
    state: Json,
    input: Map<Seq<char>, Json>,
    step: Step,
    next: Json,
) -> bool {
    match chosen_address(state, input) {
        Some(addr) => may_begin(state, addr, step, next),
        None => step == address_form(state) && next == state,
    }
}

/// Reads the bridges that a scan of the network found.
pub fn mdns_candidates(state: &Datum) -> (found: Vec<(String, String)>)
    ensures
        pairs(found@) == found_bridges(state@),
{
    let mut found: Vec<(String, String)> = Vec::new();
    assert(pairs(found@) == Seq::<(Seq<char>, Seq<char>)>::empty());
    let list = match state.get("mdns_candidates") {
        Some(value) => match value.as_array() {
            Some(list) => list,
            None => return found,
        },
        None => return found,
    };
    let ghost all = trees(list@);
    let mut i: usize = 0;
    while i < list.len()
        invariant
            i <= list.len(),
            all == trees(list@),
            pairs(found@) == sightings(all.take(i as int)),
        decreases list.len() - i,
    {
        let ghost before = pairs(found@);
        assert(all.take(i + 1).drop_last() == all.take(i as int));
        assert(all.take(i + 1).last() == list@[i as int]@);
        if let (Some(name), Some(address)) = (list[i].get("name"), list[i].get("address")) {
            if let (Some(name), Some(address)) = (name.as_str(), address.as_str()) {
                found.push((name.to_owned(), address.to_owned()));
                assert(pairs(found@) == before.push((name@, address@)));
            }
        }
        i = i + 1;
    }
    assert(all.take(i as int) == all);
    found
}

/// Writes the bridges by name and address.
fn describe_bridges(found: &Vec<(String, String)>) -> (text: String)
    ensures
        text@ == bridge_list(pairs(found@)),
{
    let mut text = String::new();
    let ghost all = pairs(found@);
    let mut i: usize = 0;
    while i < found.len()
        invariant
            i <= found.len(),
            all == pairs(found@),
            text@ == bridge_list(all.take(i as int)),
        decreases found.len() - i,
    {
        assert(all.take(i + 1).drop_last() == all.take(i as int));
        let mut entry = found[i].0.clone();
        entry.append(" (");
        entry.append(found[i].1.as_str());
        entry.append(")");
        if i > 0 {
            text.append(", ");
            text.append(entry.as_str());
        } else {
            text = entry;
        }
        i = i + 1;
    }
    assert(all.take(i as int) == all);
    text
}

impl CasetaLeap {
    /// Takes the installer's answer to the address form: pairs with the address where it is
    /// clear, and asks for one where it is not.
    pub fn ask_address(state: &Datum, input: &Args) -> (result: (SetupStep, Datum))
        ensures
            may_ask(state@, input@, result.0@, result.1@),
    {
        let typed = match get_text(input, "Bridge address") {
            Some(text) => trim(text),
            None => trim(""),
        };
        proof {
            reveal_strlit("");
            assert(""@ == Seq::<char>::empty());
        }
        let found = mdns_candidates(state);
        assert(found@.len() == found_bridges(state@).len());
        // Exactly one bridge was found and nobody typed something else: that is the bridge,
        // and nobody has to confirm an address they never had to know.
        if typed.as_str().is_empty() && found.len() == 1 {
            assert(pairs(found@)[0].1 == found@[0].1@);
            return Self::begin_pairing(state, found[0].1.as_str());
        }
        if !typed.as_str().is_empty() {
            return Self::begin_pairing(state, typed.as_str());
        }
        let body = if found.len() == 0 {
            "Enter the bridge's IP address. You'll be asked to press the button on the bridge next.".to_owned()
        } else {
            let mut body = "Found ".to_owned();
            body.append(describe_bridges(&found).as_str());
            body.append(
                " on the network — pick the right one, or type an address. You'll be asked to press the button on the bridge next.",
            );
            body
        };
        let default = if found.len() == 0 {
            None
        } else {
            assert(pairs(found@)[0].1 == found@[0].1@);
            Some(text_datum(found[0].1.as_str()))
        };
        let address = Field {
            name: "Bridge address".to_owned(),
            label: "Bridge IP address".to_owned(),
            kind: "string".to_owned(),
            help: "e.g. 192.168.1.50".to_owned(),
            default,
            options: Vec::new(),
            required: true,
        };
        assert(address@.options == Seq::<Json>::empty());
        let step = SetupStep::Form {
            title: "Pair a Caséta Smart Bridge".to_owned(),
            body,
            fields: vec![address],
        };
        assert(step@->fields == address_form(state@)->fields);
        (step, state.clone())
    }

    /// Goes on once a key has been generated, or could not be.
    pub fn pair_with_key(
        state: &Datum,
        addr: &str,
        outcome: Result<(String, String), String>,
    ) -> (result: (SetupStep, Datum))
        ensures
            (result.0@, result.1@) == pairing_begun(state@, addr@, outcome_view(outcome)),
    {
        match outcome {
            Ok((key_pem, csr_pem)) => {
                let updates = vec![
                    ("stage", "ready_to_pair"),
                    ("address", addr),
                    ("key_pem", key_pem.as_str()),
                    ("csr_pem", csr_pem.as_str()),
                ];
                proof {
                    reveal_with_fuel(merged, 5);
                    assert(updates@.drop_last() == updates@.take(3));
                    assert(updates@.take(3).drop_last() == updates@.take(2));
                    assert(updates@.take(2).drop_last() == updates@.take(1));
                    assert(updates@.take(1).drop_last() == updates@.take(0));
                }
                (
                    instruct(
                        "Ready to pair",
                        "When you continue, this connects to the bridge and waits up to 30 seconds for it to confirm its button was pressed — so press and release the small button on top of the Caséta Smart Bridge right as you continue, not before.",
                    ),
                    with_fields(state, updates.as_slice()),
                )
            },
            Err(text) => {
                let mut reason = "could not generate a pairing key: ".to_owned();
                reason.append(text.as_str());
                (SetupStep::Failed { reason }, Datum::Null)
            },
        }
    }

    /// Generates a key and gets ready to pair with an address.
    pub fn begin_pairing(state: &Datum, addr: &str) -> (result: (SetupStep, Datum))
        ensures
            may_begin(state@, addr@, result.0@, result.1@),
    {
        let outcome = generate_csr();
        assert(csr_outcome(outcome_view(outcome)));
        Self::pair_with_key(state, addr, outcome)
    }
}

// ---------------------------------------------------------------------------------------
// Pairing
// ---------------------------------------------------------------------------------------

/// The message that asks the bridge to sign a request.
pub open spec fn pair_message(csr: Seq<char>) -> Json {
    Json::Object(
        Map::empty().insert(
            "Header"@,
            Json::Object(
                Map::empty().insert("RequestType"@, Json::Text("Execute"@)).insert(
                    "Url"@,
                    Json::Text("/pair"@),
                ).insert("ClientTag"@, Json::Text("get-cert"@)),
            ),
        ).insert(
            "Body"@,
            Json::Object(
                Map::empty().insert("CommandType"@, Json::Text("CSR"@)).insert(
                    "Parameters"@,
                    Json::Object(
                        Map::empty().insert("CSR"@, Json::Text(csr)).insert(
                            "DisplayName"@,
                            Json::Text("Juno"@),
                        ).insert("DeviceUID"@, Json::Text("000000000000"@)).insert(
                            "Role"@,
                            Json::Text("Admin"@),
                        ),
                    ),
                ),
            ),
        ),
    )
}

/// A request with a client certificate and a text to send along.
pub open spec fn post(url: Seq<char>, cert: Seq<char>, key: Seq<char>, body: Seq<char>) -> Request {
    Request {
        method: "POST"@,
        url: url,
        headers: seq![("x-client-cert"@, cert), ("x-client-key"@, key)],
        body: Some(body),
    }
}

/// A request over LEAP with a client certificate.
pub open spec fn leap_request(
    url: Seq<char>,
    cert: Seq<char>,
    key: Seq<char>,
    message: Json,
) -> Request {
    post(url, cert, key, json_text(message))
}

/// Whether a message reads back from the text in which it goes out.
pub open spec fn reads_back(message: Json) -> bool {
    json_read(json_text(message)) == Some(message)
}

/// The end of a flow in which the bridge's answer held no certificate.
pub open spec fn uncertified(answer: Seq<char>) -> Step {
    Step::Failed { reason: "the bridge answered but sent no certificate: "@ + answer }
}

/// What the flow does when the installer is ready: it submits the signing request to the
/// address in the state, under the identity that every bridge knows.
pub open spec fn pair_request(lap: LapIdentity, state: Json) -> (Step, Json) {
    (
        Step::Fetch {
            request: leap_request(
                "leaps://"@ + field_of(state, "address"@) + ":8083/pair"@,
                lap.cert_pem@,
                lap.key_pem@,
                pair_message(field_of(state, "csr_pem"@)),
            ),
            note: "pair"@,
        },
        set_field(state, "stage"@, "pairing"@),
    )
}

/// The response that the host brought, nothing where it brought none.
pub open spec fn response_of(input: Map<Seq<char>, Json>) -> Json {
    match lookup(input, "response"@) {
        Some(response) => response,
        None => Json::Null,
    }
}

/// A text in the bridge's answer to a signing request, empty where there is none.
pub open spec fn signing_result(response: Json, key: Seq<char>) -> Seq<char> {
    match response.pointer3("Body"@, "SigningResult"@, key) {
        Some(value) => match value.as_str() {
            Some(s) => s,
            None => Seq::empty(),
        },
        None => Seq::empty(),
    }
}

/// What the flow does with the bridge's answer to a signing request: on an error it gets
/// ready to try again; without a certificate it gives up; with one it asks for the devices.
pub open spec fn pair_response(state: Json, input: Map<Seq<char>, Json>) -> (Step, Json) {
    let response = response_of(input);
    let cert = signing_result(response, "Certificate"@);
    let ca = signing_result(response, "RootCertificate"@);
    match text_at(input, "error"@) {
        Some(error) => (
            instruction(
                "Not paired yet"@,
                error
                    + " — press the button on the bridge right when you continue (the bridge only recognizes a press while a client is connected and waiting), then continue."@,
            ),
            set_field(state, "stage"@, "ready_to_pair"@),
        ),
        None => if cert.len() == 0 || ca.len() == 0 {
            (uncertified(json_text(response)), Json::Null)
        } else {
            device_request(
                Json::Object(
                    members(state).insert("stage"@, Json::Text("listing"@)).insert(
                        "cert_pem"@,
                        Json::Text(cert),
                    ).insert("ca_pem"@, Json::Text(ca)),
                ),
            )
        },
    }
}

/// A field of the state, or another where the first is empty.
pub open spec fn field_or(state: Json, key: Seq<char>, other: Seq<char>) -> Seq<char> {
    if field_of(state, key).len() == 0 {
        field_of(state, other)
    } else {
        field_of(state, key)
    }
}

/// The message that asks the bridge for its devices.
pub open spec fn device_message() -> Json {
    Json::Object(
        Map::empty().insert("CommuniqueType"@, Json::Text("ReadRequest"@)).insert(
            "Header"@,
            Json::Object(Map::empty().insert("Url"@, Json::Text("/device"@))),
        ),
    )
}

/// What the flow does to list the devices of a paired bridge.  The address, the certificate
/// and the key are the properties of an adopted bridge, or else what pairing left.
pub open spec fn device_request(state: Json) -> (Step, Json) {
    (
        Step::Fetch {
            request: leap_request(
                "leaps://"@ + field_or(state, "Address"@, "address"@) + ":8081/device"@,
                field_or(state, "Client certificate"@, "cert_pem"@),
                field_or(state, "Client key"@, "key_pem"@),
                device_message(),
            ),
            note: "list"@,
        },
        state,
    )
}

/// Makes the message that asks the bridge to sign a request.
pub fn signing_message(csr: &str) -> (message: Datum)
    ensures
        message@ == pair_message(csr@),
        plain(message@, 127),
{
    proof {
        reveal_with_fuel(plain, 5);
    }
    let header = Object::new().with("RequestType", text_datum("Execute")).with(
        "Url",
        text_datum("/pair"),
    ).with("ClientTag", text_datum("get-cert"));
    let parameters = Object::new().with("CSR", text_datum(csr)).with(
        "DisplayName",
        text_datum("Juno"),
    ).with("DeviceUID", text_datum("000000000000")).with("Role", text_datum("Admin"));
    let body = Object::new().with("CommandType", text_datum("CSR")).with(
        "Parameters",
        Datum::Object(parameters),
    );
    Datum::Object(
        Object::new().with("Header", Datum::Object(header)).with("Body", Datum::Object(body)),
    )
}

/// Makes the message that asks the bridge for its devices.
pub fn listing_message() -> (message: Datum)
    ensures
        message@ == device_message(),
        plain(message@, 127),
{
    proof {
        reveal_with_fuel(plain, 4);
    }
    let header = Object::new().with("Url", text_datum("/device"));
    Datum::Object(
        Object::new().with("CommuniqueType", text_datum("ReadRequest")).with(
            "Header",
            Datum::Object(header),
        ),
    )
}

/// Makes a request with a client certificate and a text to send along.
pub fn post_text(url: String, cert: &str, key: &str, body: String) -> (request: HttpRequest)
    ensures
        request@ == post(url@, cert@, key@, body@),
{
    let request = HttpRequest::new("POST", url).header("x-client-cert", cert).header(
        "x-client-key",
        key,
    ).json(body);
    assert(request@.headers == seq![("x-client-cert"@, cert@), ("x-client-key"@, key@)]);
    request
}

/// Ends a flow in which the bridge's answer held no certificate.
pub fn fail_uncertified(answer: &str) -> (step: SetupStep)
    ensures
        step@ == uncertified(answer@),
{
    let mut reason = "the bridge answered but sent no certificate: ".to_owned();
    reason.append(answer);
    SetupStep::Failed { reason }
}

/// Reads a text in the bridge's answer to a signing request.
fn read_signing_result(response: &Datum, key: &str) -> (text: String)
    ensures
        text@ == signing_result(response@, key@),
{
    match response.pointer3("Body", "SigningResult", key) {
        Some(value) => match value.as_str() {
            Some(s) => s.to_owned(),
            None => String::new(),
        },
        None => String::new(),
    }
}

/// Takes the response out of the input.
fn read_response(input: &Args) -> (response: Datum)
    ensures
        response@ == response_of(input@),
{
    match input.get("response") {
        Some(response) => response.clone(),
        None => Datum::Null,
    }
}

/// Reads a field of the state, or another where the first is empty.
fn first_field(state: &Datum, key: &str, other: &str) -> (text: String)
    ensures
        text@ == field_or(state@, key@, other@),
{
    let text = field(state, key);
    if text.as_str().is_empty() {
        field(state, other)
    } else {
        text
    }
}

impl CasetaLeap {
    /// Submits the signing request.
    pub fn send_pair_request(&self, state: &Datum) -> (result: (SetupStep, Datum))
        ensures
            (result.0@, result.1@) == pair_request(self.lap, state@),
            reads_back(pair_message(field_of(state@, "csr_pem"@))),
    {
        let address = field(state, "address");
        let csr = field(state, "csr_pem");
        let message = signing_message(csr.as_str());
        let mut url = "leaps://".to_owned();
        url.append(address.as_str());
        url.append(":8083/pair");
        let request = post_text(
            url,
            self.lap.cert_pem.as_str(),
            self.lap.key_pem.as_str(),
            write_json(&message),
        );
        let updates = vec![("stage", "pairing")];
        proof {
            reveal_with_fuel(merged, 2);
            assert(updates@.drop_last() == updates@.take(0));
        }
        (SetupStep::Fetch { request, note: "pair".to_owned() }, with_fields(state, updates.as_slice()))
    }

    /// Takes the bridge's answer to the signing request.
    pub fn handle_pair_response(state: &Datum, input: &Args) -> (result: (SetupStep, Datum))
        ensures
            (result.0@, result.1@) == pair_response(state@, input@),
            result.0@ is Fetch ==> reads_back(device_message()),
    {
        if let Some(error) = get_text(input, "error") {
            let mut body = error.to_owned();
            body.append(
                " — press the button on the bridge right when you continue (the bridge only recognizes a press while a client is connected and waiting), then continue.",
            );
            let updates = vec![("stage", "ready_to_pair")];
            proof {
                reveal_with_fuel(merged, 2);
                assert(updates@.drop_last() == updates@.take(0));
            }
            return (instruct("Not paired yet", body.as_str()), with_fields(state, updates.as_slice()));
        }
        let response = read_response(input);
        let cert = read_signing_result(&response, "Certificate");
        let ca = read_signing_result(&response, "RootCertificate");
        if cert.as_str().is_empty() || ca.as_str().is_empty() {
            return (fail_uncertified(write_json(&response).as_str()), Datum::Null);
        }
        let updates = vec![
            ("stage", "listing"),
            ("cert_pem", cert.as_str()),
            ("ca_pem", ca.as_str()),
        ];
        proof {
            reveal_with_fuel(merged, 4);
            assert(updates@.drop_last() == updates@.take(2));
            assert(updates@.take(2).drop_last() == updates@.take(1));
            assert(updates@.take(1).drop_last() == updates@.take(0));
        }
        Self::request_device_list(&with_fields(state, updates.as_slice()))
    }

    /// Asks the bridge for its devices.
    pub fn request_device_list(state: &Datum) -> (result: (SetupStep, Datum))
        ensures
            (result.0@, result.1@) == device_request(state@),
            reads_back(device_message()),
    {
        let address = first_field(state, "Address", "address");
        let cert = first_field(state, "Client certificate", "cert_pem");
        let key = first_field(state, "Client key", "key_pem");
        let message = listing_message();
        let mut url = "leaps://".to_owned();
        url.append(address.as_str());
        url.append(":8081/device");
        let request = post_text(url, cert.as_str(), key.as_str(), write_json(&message));
        (SetupStep::Fetch { request, note: "list".to_owned() }, state.clone())
    }
}

// ---------------------------------------------------------------------------------------
// Listing the devices
// ---------------------------------------------------------------------------------------

/// The types of devices that the driver can dim.
pub open spec fn dimmable(device_type: Seq<char>) -> bool {
    ||| device_type == "WallDimmer"@
    ||| device_type == "PlugInDimmer"@
    ||| device_type == "InLineDimmer"@
    ||| device_type == "Dimmed"@
}

/// The text of a member of a document.
pub open spec fn text_of(document: Json, key: Seq<char>) -> Option<Seq<char>> {
    match document.get(key) {
        Some(value) => value.as_str(),
        None => None,
    }
}

/// The reference to a device's first zone.
pub open spec fn first_zone(device: Json) -> Option<Seq<char>> {
    match device.pointer3("LocalZones"@, "0"@, "href"@) {
        Some(value) => value.as_str(),
        None => None,
    }
}

/// The offer of a device that can be dimmed and has a zone to command.
pub open spec fn dimmer_offer(device: Json) -> Option<Offer> {
    match (text_of(device, "DeviceType"@), first_zone(device)) {
        (Some(device_type), Some(zone)) => if dimmable(device_type) {
            Some(
                Offer {
                    label: match text_of(device, "Name"@) {
                        Some(name) => name,
                        None => "Caséta Dimmer"@,
                    },
                    kind: "light"@,
                    driver_id: DIMMER_ID@,
                    properties: Map::empty().insert("Zone"@, Json::Text(zone)),
                    verified: "found on bridge"@,
                },
            )
        } else {
            None
        },
        _ => None,
    }
}

/// The offers of the devices in a list.
pub open spec fn dimmer_offers(devices: Seq<Json>) -> Seq<Offer>
    decreases devices.len(),
{
    if devices.len() == 0 {
        Seq::empty()
    } else {
        let front = dimmer_offers(devices.drop_last());
        match dimmer_offer(devices.last()) {
            Some(offer) => front.push(offer),
            None => front,
        }
    }
}

/// The devices in the bridge's answer.
pub open spec fn listed_devices(response: Json) -> Seq<Json> {
    match response.pointer2("Body"@, "Devices"@) {
        Some(value) => match value.as_array() {
            Some(devices) => devices,
            None => Seq::empty(),
        },
        None => Seq::empty(),
    }
}

/// The offer of the bridge that was just paired.
pub open spec fn bridge_offer(state: Json) -> Offer {
    Offer {
        label: "Caséta Smart Bridge ("@ + field_of(state, "address"@) + ")"@,
        kind: "bridge"@,
        driver_id: BRIDGE_ID@,
        properties: Map::empty().insert(
            "Address"@,
            Json::Text(field_of(state, "address"@)),
        ).insert("Client certificate"@, Json::Text(field_of(state, "cert_pem"@))).insert(
            "Client key"@,
            Json::Text(field_of(state, "key_pem"@)),
        ).insert("CA certificate"@, Json::Text(field_of(state, "ca_pem"@))),
        verified: "paired"@,
    }
}

/// What the flow ends with: the bridge if it was just paired, then the dimmers behind it in
/// the order in which the bridge listed them.
pub open spec fn device_list(
    state: Json,
    input: Map<Seq<char>, Json>,
    include_bridge: bool,
) -> (Step, Json) {
    let dimmers = dimmer_offers(listed_devices(response_of(input)));
    (
        Step::Done {
            devices: if include_bridge {
                seq![bridge_offer(state)] + dimmers
            } else {
                dimmers
            },
        },
        Json::Null,
    )
}

/// Whether the driver can dim a type of device.
fn is_dimmable(device_type: &str) -> (result: bool)
    ensures
        result == dimmable(device_type@),
{
    same(device_type, "WallDimmer") || same(device_type, "PlugInDimmer") || same(
        device_type,
        "InLineDimmer",
    ) || same(device_type, "Dimmed")
}

/// Reads the text of a member of a document.
fn read_text<'a>(document: &'a Datum, key: &str) -> (text: Option<&'a str>)
    ensures
        crate::json::heard(text) == text_of(document@, key@),
{
    match document.get(key) {
        Some(value) => value.as_str(),
        None => None,
    }
}

/// Makes the offer of a device, if it is one to offer.
fn offer_dimmer(device: &Datum) -> (candidate: Option<Candidate>)
    ensures
        dimmer_offer(device@) == (match candidate {
            Some(c) => Some(c@),
            None => None,
        }),
{
    let device_type = match read_text(device, "DeviceType") {
        Some(device_type) => device_type,
        None => return None,
    };
    if !is_dimmable(device_type) {
        return None;
    }
    let zone = match device.pointer3("LocalZones", "0", "href") {
        Some(href) => match href.as_str() {
            Some(zone) => zone,
            None => return None,
        },
        None => return None,  // no zone means nothing to command
    };
    let name = match read_text(device, "Name") {
        Some(name) => name,
        None => "Caséta Dimmer",
    };
    Some(
        Candidate {
            label: name.to_owned(),
            kind: "light".to_owned(),
            driver_id: DIMMER_ID.to_owned(),
            properties: Object::new().with("Zone", text_datum(zone)),
            verified: "found on bridge".to_owned(),
        },
    )
}

impl CasetaLeap {
    /// Turns the bridge's list of devices into offers.  Only dimmable outputs are offered;
    /// a remote or a sensor on the same bridge is passed over.
    pub fn handle_device_list(
        state: &Datum,
        input: &Args,
        include_bridge: bool,
    ) -> (result: (SetupStep, Datum))
        ensures
            (result.0@, result.1@) == device_list(state@, input@, include_bridge),
    {
        let response = read_response(input);
        let mut out: Vec<Candidate> = Vec::new();
        if include_bridge {
            let mut label = "Caséta Smart Bridge (".to_owned();
            label.append(field(state, "address").as_str());
            label.append(")");
            let properties = Object::new().with(
                "Address",
                Datum::Text(field(state, "address")),
            ).with("Client certificate", Datum::Text(field(state, "cert_pem"))).with(
                "Client key",
                Datum::Text(field(state, "key_pem")),
            ).with("CA certificate", Datum::Text(field(state, "ca_pem")));
            out.push(
                Candidate {
                    label,
                    kind: "bridge".to_owned(),
                    driver_id: BRIDGE_ID.to_owned(),
                    properties,
                    verified: "paired".to_owned(),
                },
            );
        }
        let ghost head: Seq<Offer> = if include_bridge {
            seq![bridge_offer(state@)]
        } else {
            Seq::empty()
        };
        assert(offers(out@) == head);
        let empty: Vec<Datum> = Vec::new();
        assert(trees(empty@) == Seq::<Json>::empty());
        let devices = match response.pointer2("Body", "Devices") {
            Some(value) => match value.as_array() {
                Some(devices) => devices,
                None => &empty,
            },
            None => &empty,
        };
        let ghost all = listed_devices(response@);
        let mut i: usize = 0;
        assert(head + dimmer_offers(all.take(0)) == head);
        while i < devices.len()
            invariant
                i <= devices.len(),
                all == trees(devices@),
                offers(out@) == head + dimmer_offers(all.take(i as int)),
            decreases devices.len() - i,
        {
            let ghost before = offers(out@);
            let ghost front = dimmer_offers(all.take(i as int));
            assert(all.take(i + 1).drop_last() == all.take(i as int));
            assert(all.take(i + 1).last() == devices@[i as int]@);
            if let Some(candidate) = offer_dimmer(&devices[i]) {
                let ghost offer = candidate@;
                out.push(candidate);
                assert(offers(out@) == before.push(offer));
                assert(head + front.push(offer) == (head + front).push(offer));
            }
            i = i + 1;
        }
        assert(all.take(i as int) == all);
        let step = SetupStep::Done { devices: out };
        assert(step@->devices == device_list(state@, input@, include_bridge).0->devices);
        (step, Datum::Null)
    }
}

// ---------------------------------------------------------------------------------------
// The flow
// ---------------------------------------------------------------------------------------

/// Whether the state is that of a bridge that is paired already.
pub open spec fn browsing(state: Json) -> bool {
    match state.get("browse"@) {
        Some(value) => value.as_bool() == Some(true),
        None => false,
    }
}

/// Whether the flow may take one step in this way.
pub open spec fn may_discover(
    lap: LapIdentity,
    driver_id: Seq<char>,
    state: Json,
    input: Map<Seq<char>, Json>,
    step: Step,
    next: Json,
) -> bool {
    let stage = field_of(state, "stage"@);
    if driver_id != BRIDGE_ID@ {
        // Dimmers are found by browsing their bridge, never set up on their own.
        step == (Step::Done { devices: Seq::empty() }) && next == Json::Null
    } else if browsing(state) {
        (step, next) == if input.dom().contains("response"@) || input.dom().contains("error"@) {
            device_list(state, input, false)
        } else {
            device_request(state)
        }
    } else if stage == "ready_to_pair"@ {
        (step, next) == pair_request(lap, state)
    } else if stage == "pairing"@ {
        (step, next) == pair_response(state, input)
    } else if stage == "listing"@ {
        (step, next) == device_list(state, input, true)
    } else {
        may_ask(state, input, step, next)
    }
}

/// The message that goes out where a step of the flow fetches something.
pub open spec fn fetched_message(state: Json) -> Json {
    if !browsing(state) && field_of(state, "stage"@) == "ready_to_pair"@ {
        pair_message(field_of(state, "csr_pem"@))
    } else {
        device_message()
    }
}

impl CasetaLeap {
    /// Takes one step of the setup flow: what to do next, and the state to come back with.
    pub fn discover(&self, driver_id: &str, state: &Datum, input: &Args) -> (result: (
        SetupStep,
        Datum,
    ))
        ensures
            may_discover(self.lap, driver_id@, state@, input@, result.0@, result.1@),
            result.0@ is Fetch ==> reads_back(fetched_message(state@)),
    {
        if !same(driver_id, BRIDGE_ID) {
            let step = SetupStep::Done { devices: Vec::new() };
            assert(step@->devices == Seq::<Offer>::empty());
            return (step, Datum::Null);
        }
        let browse = match state.get("browse") {
            Some(value) => match value.as_bool() {
                Some(b) => b,
                None => false,
            },
            None => false,
        };
        if browse {
            if input.get("response").is_some() || input.get("error").is_some() {
                return Self::handle_device_list(state, input, false);
            }
            return Self::request_device_list(state);
        }
        let stage = field(state, "stage");
        if same(stage.as_str(), "ready_to_pair") {
            self.send_pair_request(state)
        } else if same(stage.as_str(), "pairing") {
            Self::handle_pair_response(state, input)
        } else if same(stage.as_str(), "listing") {
            Self::handle_device_list(state, input, true)
        } else {
            Self::ask_address(state, input)
        }
    }
}

} // verus!
