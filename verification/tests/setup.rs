use caseta::csr::generate_csr;
use caseta::host::{Args, Candidate, HttpRequest, SetupStep};
use caseta::json::{text_datum, Datum, Object};
use caseta::serde::{from_serde, read_json, to_serde, write_json};
use caseta::setup::{
    fail_uncertified, field, instruct, listing_message, mdns_candidates, post_text, signing_message,
    with_fields, CasetaLeap, LapIdentity, BRIDGE_ID, DIMMER_ID,
};
use rcgen::PublicKeyData;

fn driver() -> CasetaLeap {
    CasetaLeap { lap: LapIdentity { cert_pem: "lap cert".to_string(), key_pem: "lap key".to_string() } }
}

fn json(text: &str) -> Datum {
    read_json(text).unwrap()
}

fn serde(text: &str) -> serde_json::Value {
    serde_json::from_str(text).unwrap()
}

fn fetch(step: &SetupStep) -> (&HttpRequest, &str) {
    match step {
        SetupStep::Fetch { request, note } => (request, note),
        other => panic!("not a fetch: {other:?}"),
    }
}

fn devices(step: &SetupStep) -> &Vec<Candidate> {
    match step {
        SetupStep::Done { devices } => devices,
        other => panic!("not done: {other:?}"),
    }
}

fn properties(candidate: &Candidate) -> serde_json::Value {
    to_serde(&Datum::Object(candidate.properties.clone()))
}

fn header(request: &HttpRequest, name: &str) -> String {
    request.headers.iter().find(|(n, _)| n == name).unwrap().1.clone()
}

fn pem_bytes(pem: &str) -> Vec<u8> {
    let mut out = Vec::new();
    let (mut bits, mut count) = (0u32, 0u32);
    for c in pem.lines().filter(|l| !l.starts_with("-----")).flat_map(|l| l.trim().chars()) {
        let value = match c {
            'A'..='Z' => c as u32 - 'A' as u32,
            'a'..='z' => c as u32 - 'a' as u32 + 26,
            '0'..='9' => c as u32 - '0' as u32 + 52,
            '+' => 62,
            '/' => 63,
            _ => break,
        };
        bits = (bits << 6) | value;
        count += 6;
        if count >= 8 {
            count -= 8;
            out.push((bits >> count) as u8);
            bits &= (1 << count) - 1;
        }
    }
    out
}

const DEVICES: &str = r#"{"Body":{"Devices":[
    {"DeviceType":"SmartBridge","Name":"Bridge"},
    {"DeviceType":"WallDimmer","Name":"Kitchen","LocalZones":[{"href":"/zone/1"},{"href":"/zone/9"}]},
    {"DeviceType":"Pico3ButtonRaiseLower","Name":"Remote","LocalZones":[{"href":"/zone/2"}]},
    {"DeviceType":"PlugInDimmer","LocalZones":[{"href":"/zone/3"}]},
    {"DeviceType":"InLineDimmer","Name":"No zone","LocalZones":[]},
    {"DeviceType":"Dimmed","Name":"Keyed","LocalZones":{"0":{"href":"/zone/4"}}},
    {"Name":"No type","LocalZones":[{"href":"/zone/5"}]},
    {"DeviceType":"InLineDimmer","Name":7,"LocalZones":[{"href":"/zone/6"}]},
    "junk"
]}}"#;

/// The first element of a DER encoding: its tag, its contents, its whole and what follows.
fn element(der: &[u8]) -> (u8, &[u8], &[u8], &[u8]) {
    let (head, len) = match der[1] {
        n if n < 0x80 => (2, n as usize),
        n => {
            let count = (n & 0x7f) as usize;
            (2 + count, der[2..2 + count].iter().fold(0, |sum, b| (sum << 8) | *b as usize))
        }
    };
    (der[0], &der[head..head + len], &der[..head + len], &der[head + len..])
}

fn assert_pem(text: &str, label: &str) {
    let end = if text.contains("\r\n") { "\r\n" } else { "\n" };
    let body = text
        .strip_prefix(&format!("-----BEGIN {label}-----{end}"))
        .and_then(|rest| rest.strip_suffix(&format!("-----END {label}-----{end}")))
        .unwrap();
    assert!(!body.is_empty());
    assert!(body.chars().all(|c| c.is_ascii_alphanumeric() || "+/=\r\n".contains(c)));
}

#[test]
fn a_fresh_key_and_a_request_for_it_in_junos_name() {
    let (key_pem, csr_pem) = generate_csr().unwrap();
    assert_pem(&key_pem, "PRIVATE KEY");
    assert_pem(&csr_pem, "CERTIFICATE REQUEST");
    let der = pem_bytes(&csr_pem);
    let (_, parts, whole, after) = element(&der);
    assert_eq!((whole, after.len()), (der.as_slice(), 0));
    let (_, info, _, rest) = element(parts);
    let (_, _, version, info) = element(info);
    assert_eq!(version, b"\x02\x01\x00");
    let (_, _, subject, info) = element(info);
    // One set of one attribute: a common name (2.5.4.3) in UTF-8.
    assert_eq!(subject, b"\x30\x0f\x31\x0d\x30\x0b\x06\x03\x55\x04\x03\x0c\x04juno");
    let (_, _, public_key, _) = element(info);
    let key = rcgen::KeyPair::from_pem(&key_pem).unwrap();
    assert_eq!(public_key, key.subject_public_key_info());
    let (_, _, algorithm, rest) = element(rest);
    // ECDSA with SHA-256 (1.2.840.10045.4.3.2).
    assert_eq!(algorithm, b"\x30\x0a\x06\x08\x2a\x86\x48\xce\x3d\x04\x03\x02");
    let (tag, signature, _, rest) = element(rest);
    assert_eq!((tag, rest.len()), (3, 0));
    assert!(signature.len() > 60);
    assert_ne!(generate_csr().unwrap().0, key_pem);
}

#[test]
fn fields_of_the_state() {
    let state = json(r#"{"stage":"x","n":1,"keep":{"a":[1.5]}}"#);
    assert_eq!(field(&state, "stage"), "x");
    assert_eq!(field(&state, "n"), "");
    assert_eq!(field(&state, "absent"), "");
    assert_eq!(field(&Datum::Null, "stage"), "");
    let next = with_fields(&state, &vec![("stage", "y"), ("new", "z"), ("stage", "w")]);
    assert_eq!(to_serde(&next), serde(r#"{"stage":"w","n":1,"keep":{"a":[1.5]},"new":"z"}"#));
    assert_eq!(to_serde(&with_fields(&Datum::Null, &vec![("a", "b")])), serde(r#"{"a":"b"}"#));
}

#[test]
fn scan_results_without_a_name_or_an_address_are_dropped() {
    let state = json(
        r#"{"mdns_candidates":[{"name":"A","address":"10.0.0.1"},{"name":"B"},{"address":"10.0.0.3"},{"name":1,"address":"x"},7,{"name":"C","address":"10.0.0.4"}]}"#,
    );
    let expected = [("A".to_string(), "10.0.0.1".to_string()), ("C".to_string(), "10.0.0.4".to_string())];
    assert_eq!(mdns_candidates(&state), expected);
    assert!(mdns_candidates(&Datum::Null).is_empty());
    assert!(mdns_candidates(&json(r#"{"mdns_candidates":{}}"#)).is_empty());
}

#[test]
fn the_form_asks_for_an_address() {
    let (step, next) = driver().discover(BRIDGE_ID, &json(r#"{"x":1}"#), &Args::new());
    assert_eq!(to_serde(&next), serde(r#"{"x":1}"#));
    match &step {
        SetupStep::Form { title, body, fields } => {
            assert_eq!(title, "Pair a Caséta Smart Bridge");
            assert_eq!(
                body,
                "Enter the bridge's IP address. You'll be asked to press the button on the bridge next."
            );
            assert_eq!(fields.len(), 1);
            let address = &fields[0];
            assert_eq!(address.name, "Bridge address");
            assert_eq!(address.label, "Bridge IP address");
            assert_eq!(address.kind, "string");
            assert_eq!(address.help, "e.g. 192.168.1.50");
            assert!(address.default.is_none());
            assert!(address.options.is_empty());
            assert!(address.required);
        }
        other => panic!("not a form: {other:?}"),
    }
}

#[test]
fn several_bridges_are_listed_in_the_form() {
    let state = json(
        r#"{"mdns_candidates":[{"name":"A","address":"10.0.0.1"},{"name":"B","address":"10.0.0.2"}]}"#,
    );
    let input = Args::new().with("Bridge address", text_datum("  "));
    match CasetaLeap::ask_address(&state, &input) {
        (SetupStep::Form { body, fields, .. }, next) => {
            assert_eq!(
                body,
                "Found A (10.0.0.1), B (10.0.0.2) on the network — pick the right one, or type an address. You'll be asked to press the button on the bridge next."
            );
            assert_eq!(fields[0].default.as_ref().unwrap().as_str(), Some("10.0.0.1"));
            assert_eq!(to_serde(&next), to_serde(&state));
        }
        (other, _) => panic!("not a form: {other:?}"),
    }
}

#[test]
fn the_only_bridge_is_the_bridge_unless_another_was_typed() {
    let state = json(r#"{"mdns_candidates":[{"name":"A","address":"10.0.0.1"}]}"#);
    let (step, next) = CasetaLeap::ask_address(&state, &Args::new());
    assert!(matches!(step, SetupStep::Instruct { .. }));
    assert_eq!(field(&next, "address"), "10.0.0.1");
    let typed = Args::new().with("Bridge address", text_datum(" 10.0.0.9\n"));
    let (_, next) = CasetaLeap::ask_address(&state, &typed);
    assert_eq!(field(&next, "address"), "10.0.0.9");
    let (_, next) = CasetaLeap::ask_address(&Datum::Null, &typed);
    assert_eq!(field(&next, "address"), "10.0.0.9");
}

#[test]
fn a_key_that_could_not_be_generated_ends_the_flow() {
    let state = json(r#"{"x":1}"#);
    let (step, next) = CasetaLeap::pair_with_key(&state, "10.0.0.1", Err("no luck".to_string()));
    assert_eq!(to_serde(&next), serde("null"));
    match step {
        SetupStep::Failed { reason } => assert_eq!(reason, "could not generate a pairing key: no luck"),
        other => panic!("not failed: {other:?}"),
    }
    let outcome = Ok(("key".to_string(), "csr".to_string()));
    let (step, next) = CasetaLeap::pair_with_key(&state, "10.0.0.1", outcome);
    assert_eq!(
        to_serde(&next),
        serde(r#"{"x":1,"stage":"ready_to_pair","address":"10.0.0.1","key_pem":"key","csr_pem":"csr"}"#)
    );
    match step {
        SetupStep::Instruct { title, body, continue_label } => {
            assert_eq!(title, "Ready to pair");
            assert_eq!(
                body,
                "When you continue, this connects to the bridge and waits up to 30 seconds for it to confirm its button was pressed — so press and release the small button on top of the Caséta Smart Bridge right as you continue, not before."
            );
            assert_eq!(continue_label, "Continue");
        }
        other => panic!("not an instruction: {other:?}"),
    }
}

#[test]
fn pairing_from_the_address_to_the_bridge() {
    let driver = driver();
    let typed = Args::new().with("Bridge address", text_datum("10.0.0.5"));
    let (step, ready) = driver.discover(BRIDGE_ID, &Datum::Object(Object::new()), &typed);
    assert!(matches!(step, SetupStep::Instruct { .. }));
    let key = field(&ready, "key_pem");
    let csr = field(&ready, "csr_pem");

    let (step, pairing) = driver.discover(BRIDGE_ID, &ready, &Args::new());
    let (request, note) = fetch(&step);
    assert_eq!(note, "pair");
    assert_eq!(request.method, "POST");
    assert_eq!(request.url, "leaps://10.0.0.5:8083/pair");
    assert_eq!(header(request, "x-client-cert"), "lap cert");
    assert_eq!(header(request, "x-client-key"), "lap key");
    let expected = serde(
        r#"{"Header":{"RequestType":"Execute","Url":"/pair","ClientTag":"get-cert"},"Body":{"CommandType":"CSR","Parameters":{"DisplayName":"Juno","DeviceUID":"000000000000","Role":"Admin"}}}"#,
    );
    let mut sent = serde(request.body.as_ref().unwrap());
    assert_eq!(sent.pointer("/Body/Parameters/CSR").unwrap().as_str(), Some(csr.as_str()));
    sent.pointer_mut("/Body/Parameters").unwrap().as_object_mut().unwrap().remove("CSR");
    assert_eq!(sent, expected);

    let error = Args::new().with("error", text_datum("timed out"));
    let (step, again) = driver.discover(BRIDGE_ID, &pairing, &error);
    match step {
        SetupStep::Instruct { title, body, .. } => {
            assert_eq!(title, "Not paired yet");
            assert_eq!(
                body,
                "timed out — press the button on the bridge right when you continue (the bridge only recognizes a press while a client is connected and waiting), then continue."
            );
        }
        other => panic!("not an instruction: {other:?}"),
    }
    let (retry, pairing) = driver.discover(BRIDGE_ID, &again, &Args::new());
    assert_eq!(fetch(&retry).0.url, "leaps://10.0.0.5:8083/pair");
    assert_eq!(serde(fetch(&retry).0.body.as_ref().unwrap()).pointer("/Body/Parameters/CSR").unwrap(), &serde_json::Value::from(csr));

    let answer = Args::new().with(
        "response",
        json(r#"{"Body":{"SigningResult":{"Certificate":"cert","RootCertificate":"ca"}}}"#),
    );
    let (step, listing) = driver.discover(BRIDGE_ID, &pairing, &answer);
    let (request, note) = fetch(&step);
    assert_eq!(note, "list");
    assert_eq!(request.method, "POST");
    assert_eq!(request.url, "leaps://10.0.0.5:8081/device");
    assert_eq!(header(request, "x-client-cert"), "cert");
    assert_eq!(header(request, "x-client-key"), key);
    assert_eq!(
        request.body.as_deref(),
        Some(r#"{"CommuniqueType":"ReadRequest","Header":{"Url":"/device"}}"#)
    );

    let devices_input = Args::new().with("response", json(DEVICES));
    let (step, end) = driver.discover(BRIDGE_ID, &listing, &devices_input);
    assert_eq!(to_serde(&end), serde("null"));
    let offered = devices(&step);
    let labels: Vec<&str> = offered.iter().map(|c| c.label.as_str()).collect();
    assert_eq!(
        labels,
        ["Caséta Smart Bridge (10.0.0.5)", "Kitchen", "Caséta Dimmer", "Keyed", "Caséta Dimmer"]
    );
    let bridge = &offered[0];
    assert_eq!(bridge.kind, "bridge");
    assert_eq!(bridge.driver_id, BRIDGE_ID);
    assert_eq!(bridge.verified, "paired");
    let mut expected = serde(r#"{"Address":"10.0.0.5","Client certificate":"cert","CA certificate":"ca"}"#);
    expected["Client key"] = serde_json::Value::from(key.clone());
    assert_eq!(properties(bridge), expected);
    let zones: Vec<serde_json::Value> = offered[1..].iter().map(properties).collect();
    let expected: Vec<serde_json::Value> =
        [1, 3, 4, 6].iter().map(|n| serde(&format!("{{\"Zone\":\"/zone/{n}\"}}"))).collect();
    assert_eq!(zones, expected);
    for dimmer in &offered[1..] {
        assert_eq!(dimmer.kind, "light");
        assert_eq!(dimmer.driver_id, DIMMER_ID);
        assert_eq!(dimmer.verified, "found on bridge");
    }

    let adopted = Datum::Object(bridge.properties.clone().with("browse", Datum::Bool(true)));
    let (step, same_state) = driver.discover(BRIDGE_ID, &adopted, &Args::new());
    assert_eq!(to_serde(&same_state), to_serde(&adopted));
    let (request, _) = fetch(&step);
    assert_eq!(request.url, "leaps://10.0.0.5:8081/device");
    assert_eq!(header(request, "x-client-cert"), "cert");
    assert_eq!(header(request, "x-client-key"), key);
    let (step, _) = driver.discover(BRIDGE_ID, &adopted, &devices_input);
    assert_eq!(devices(&step).len(), 4);
    let (step, _) = driver.discover(BRIDGE_ID, &adopted, &Args::new().with("error", Datum::Null));
    assert!(devices(&step).is_empty());
}

#[test]
fn an_answer_without_certificates_ends_the_flow() {
    let answers = [
        r#"{"Body":{"SigningResult":{"Certificate":"cert","n":2.50}}}"#,
        r#"{"Body":{"SigningResult":{"Certificate":"","RootCertificate":"ca"}}}"#,
        r#"{"Header":{"StatusCode":"401"}}"#,
        "null",
    ];
    for answer in answers {
        let input = Args::new().with("response", json(answer));
        let (step, next) = CasetaLeap::handle_pair_response(&json("{}"), &input);
        assert_eq!(to_serde(&next), serde("null"));
        match step {
            SetupStep::Failed { reason } => assert_eq!(
                reason,
                format!("the bridge answered but sent no certificate: {}", serde(answer))
            ),
            other => panic!("not failed: {other:?}"),
        }
    }
    match fail_uncertified("{}") {
        SetupStep::Failed { reason } => {
            assert_eq!(reason, "the bridge answered but sent no certificate: {}")
        }
        other => panic!("not failed: {other:?}"),
    }
}

#[test]
fn dimmers_are_never_set_up_on_their_own() {
    let (step, next) = driver().discover(DIMMER_ID, &json(r#"{"browse":true}"#), &Args::new());
    assert!(devices(&step).is_empty());
    assert_eq!(to_serde(&next), serde("null"));
}

#[test]
fn properties_come_before_what_pairing_left() {
    let state = json(
        r#"{"Address":"","address":"a","Client certificate":"C","cert_pem":"c","Client key":"K","key_pem":"k"}"#,
    );
    let (step, _) = CasetaLeap::request_device_list(&state);
    let (request, _) = fetch(&step);
    assert_eq!(request.url, "leaps://a:8081/device");
    assert_eq!(header(request, "x-client-cert"), "C");
    assert_eq!(header(request, "x-client-key"), "K");
}

#[test]
fn a_list_without_devices_offers_none() {
    for answer in ["null", "{}", r#"{"Body":{"Devices":{}}}"#, r#"{"Body":{"Devices":[]}}"#] {
        let input = Args::new().with("response", json(answer));
        let (step, _) = CasetaLeap::handle_device_list(&json("{}"), &input, false);
        assert!(devices(&step).is_empty());
        let (step, _) = CasetaLeap::handle_device_list(&json("{}"), &input, true);
        assert_eq!(devices(&step).len(), 1);
    }
}

#[test]
fn parts_of_requests() {
    let request = post_text("u".to_string(), "c", "k", "b".to_string());
    assert_eq!(request.url, "u");
    assert_eq!(request.body.as_deref(), Some("b"));
    assert_eq!(request.headers.len(), 2);
    assert_eq!(signing_message("x").pointer3("Body", "Parameters", "CSR").unwrap().as_str(), Some("x"));
    assert_eq!(
        write_json(&listing_message()),
        r#"{"CommuniqueType":"ReadRequest","Header":{"Url":"/device"}}"#
    );
    assert!(matches!(instruct("t", "b"), SetupStep::Instruct { .. }));
    assert_eq!(to_serde(&from_serde(serde("[1]"))), serde("[1]"));
}
