use caseta::host::{Args, HostCall, Instance};
use caseta::json::{get_bool, get_u64, text_datum, Datum, Object};
use caseta::leap::{fade_time, go_to_level, message_level, report, send_line, subscribe, tx, zone};
use caseta::serde::{read_json, write_json};
use caseta::setup::{CasetaLeap, LapIdentity};

const ZONE: &str = "/zone/3";

fn driver() -> CasetaLeap {
    CasetaLeap { lap: LapIdentity { cert_pem: "lap cert".to_string(), key_pem: "lap key".to_string() } }
}

fn device() -> Instance {
    Instance { properties: Object::new().with("Zone", text_datum(ZONE)), scratch: Object::new() }
}

fn show(calls: &[HostCall]) -> Vec<String> {
    calls
        .iter()
        .map(|call| match call {
            HostCall::Tx { control, data } => {
                format!("tx {control} {}", String::from_utf8(data.clone()).unwrap())
            }
            HostCall::Notify { proxy, event, args } => {
                format!("notify {proxy} {event} {}", write_json(&Datum::Object(args.clone())))
            }
            HostCall::Warn { message } => format!("warn {message}"),
        })
        .collect()
}

fn goes_to(level: u8, fade: &str) -> Vec<String> {
    vec![
        format!(
            "tx 0 {{\"Body\":{{\"Command\":{{\"CommandType\":\"GoToDimmedLevel\",\"DimmedLevelParameters\":{{\"FadeTime\":\"{fade}\",\"Level\":{level}}}}}}},\"CommuniqueType\":\"CreateRequest\",\"Header\":{{\"Url\":\"/zone/3/commandprocessor\"}}}}\n"
        ),
        format!("notify 1 level_changed {{\"level\":{level}}}"),
    ]
}

fn command(inst: &mut Instance, cmd: &str, args: &Args) -> Vec<String> {
    show(&driver().on_command(inst, 1, cmd, args))
}

fn receive(inst: &mut Instance, data: &str) -> Vec<String> {
    let args = Args::new().with("data", text_datum(data));
    show(&driver().on_event(inst, 0, "rx", &args))
}

fn status(zone: &str, level: &str) -> String {
    format!("{{\"Body\":{{\"ZoneStatus\":{{\"Zone\":{{\"href\":\"{zone}\"}},\"Level\":{level}}}}}}}\r\n")
}

fn level(inst: &Instance) -> (Option<u64>, Option<bool>) {
    (get_u64(&inst.scratch, "level"), get_bool(&inst.scratch, "on"))
}

#[test]
fn fade_time_is_hours_minutes_seconds() {
    assert_eq!(fade_time(0), "00:00:00");
    assert_eq!(fade_time(59), "00:00:59");
    assert_eq!(fade_time(61), "00:01:01");
    assert_eq!(fade_time(3661), "01:01:01");
    assert_eq!(fade_time(360_000), "100:00:00");
}

#[test]
fn messages_on_the_wire() {
    assert_eq!(
        show(&[tx(&subscribe(ZONE))]),
        ["tx 0 {\"CommuniqueType\":\"SubscribeRequest\",\"Header\":{\"Url\":\"/zone/3/status\"}}\n"]
    );
    assert_eq!(show(&[tx(&go_to_level(ZONE, 42, 4)), report(42)]), goes_to(42, "00:00:04"));
    assert_eq!(show(&[send_line("{}".to_string())]), ["tx 0 {}\n"]);
}

#[test]
fn a_message_is_one_line_whatever_it_holds() {
    let call = tx(&text_datum("a\nb\u{2028}é"));
    match &call {
        HostCall::Tx { data, .. } => {
            assert_eq!(data.iter().filter(|b| **b == b'\n').count(), 1);
            assert_eq!(data.last(), Some(&b'\n'));
            assert_eq!(data.as_slice(), "\"a\\nb\u{2028}é\"\n".as_bytes());
        }
        _ => panic!("not a transmission"),
    }
}

#[test]
fn commands_set_levels() {
    let mut inst = device();
    assert_eq!(command(&mut inst, "on", &Args::new()), goes_to(100, "00:00:01"));
    let args = Args::new().with("level", Datum::Unsigned(40)).with("ramp_ms", Datum::Unsigned(61_000));
    assert_eq!(command(&mut inst, "set_level", &args), goes_to(40, "00:01:01"));
    assert_eq!(command(&mut inst, "off", &Args::new()), goes_to(0, "00:00:01"));
    assert_eq!(level(&inst), (Some(40), Some(false)));
    assert_eq!(command(&mut inst, "toggle", &Args::new()), goes_to(40, "00:00:01"));
    assert_eq!(level(&inst), (Some(40), Some(true)));
    assert_eq!(command(&mut inst, "toggle", &Args::new()), goes_to(0, "00:00:01"));
    inst.properties = inst.properties.with("Default fade", Datum::Unsigned(7));
    assert_eq!(command(&mut inst, "on", &Args::new()), goes_to(40, "00:00:07"));
}

#[test]
fn held_buttons_are_long_fades() {
    let mut inst = device();
    let up = Args::new().with("direction", text_datum("up"));
    assert_eq!(command(&mut inst, "ramp_start", &up), goes_to(100, "00:00:04"));
    assert_eq!(command(&mut inst, "ramp_start", &Args::new()), goes_to(1, "00:00:04"));
    assert_eq!(command(&mut inst, "ramp_stop", &Args::new()), goes_to(1, "00:00:00"));
    assert_eq!(level(&inst), (Some(1), Some(true)));
}

#[test]
fn what_leap_cannot_carry_out_leaves_a_warning() {
    let mut inst = device();
    assert_eq!(command(&mut inst, "dance", &Args::new()), ["warn caseta-leap: unhandled `dance`"]);
    inst.properties = Object::new().with("Zone", text_datum(""));
    assert_eq!(
        command(&mut inst, "dance", &Args::new()),
        ["warn caseta-leap: this device has no Zone — adopt it through the bridge's setup flow"]
    );
    assert_eq!(level(&inst), (None, None));
    assert_eq!(zone(&inst), None);
    assert_eq!(zone(&device()), Some(ZONE.to_string()));
}

#[test]
fn status_of_the_zone_is_taken_in() {
    let mut inst = device();
    let data = status(ZONE, "55");
    assert_eq!(receive(&mut inst, &data), ["notify 1 level_changed {\"level\":55}"]);
    assert_eq!(level(&inst), (Some(55), Some(true)));
    assert_eq!(receive(&mut inst, &data), Vec::<String>::new());
    let data = status(ZONE, "0") + "\n  \n" + &status(ZONE, "180");
    assert_eq!(
        receive(&mut inst, &data),
        ["notify 1 level_changed {\"level\":0}", "notify 1 level_changed {\"level\":100}"]
    );
    assert_eq!(level(&inst), (Some(100), Some(true)));
}

#[test]
fn a_wall_press_back_to_the_old_level_reaches_leap() {
    let mut inst = device();
    inst.scratch = Object::new().with("level", Datum::Unsigned(50)).with("on", Datum::Bool(true));
    assert_eq!(
        receive(&mut inst, &(status(ZONE, "0") + &status(ZONE, "50"))),
        ["notify 1 level_changed {\"level\":0}", "notify 1 level_changed {\"level\":50}"]
    );
    assert_eq!(level(&inst), (Some(50), Some(true)));
    assert_eq!(receive(&mut inst, &status(ZONE, "50")), Vec::<String>::new());
    receive(&mut inst, &status(ZONE, "0"));
    assert_eq!(receive(&mut inst, &status(ZONE, "0")), Vec::<String>::new());
    assert_eq!(level(&inst), (Some(50), Some(false)));
}

#[test]
fn one_leap_event_or_two_come_to_the_same() {
    let (a, b) = (status(ZONE, "5") + &status(ZONE, "0"), status(ZONE, "0") + &status(ZONE, "9"));
    let mut one = device();
    let mut two = device();
    let whole = receive(&mut one, &format!("{a}\n{b}"));
    let mut parts = receive(&mut two, &a);
    parts.extend(receive(&mut two, &b));
    assert_eq!(whole, parts);
    assert_eq!(whole.len(), 3);
    assert_eq!(level(&one), level(&two));
}

#[test]
fn messages_read_back_from_their_lines() {
    for message in [go_to_level("/zone/\n\"3\"", 42, 4), subscribe("é\u{2028}")] {
        match tx(&message) {
            HostCall::Tx { data, .. } => {
                let line = String::from_utf8(data).unwrap();
                let text = line.strip_suffix('\n').unwrap();
                assert_eq!(write_json(&read_json(text).unwrap()), write_json(&message));
            }
            _ => panic!("not a transmission"),
        }
    }
}

#[test]
fn other_messages_are_passed_over() {
    let mut inst = device();
    let data = status("/zone/4", "55")
        + "not json\n"
        + "{\"Body\":{}}\n"
        + "{\"Body\":{\"ZoneStatus\":{\"Level\":5}}}\n"
        + &status(ZONE, "50.0")
        + &status(ZONE, "-1")
        + &status(ZONE, "\"50\"");
    assert_eq!(receive(&mut inst, &data), Vec::<String>::new());
    assert_eq!(level(&inst), (None, None));
    let args = Args::new().with("data", text_datum(&status(ZONE, "5")));
    assert!(driver().on_event(&mut inst, 0, "connected", &args).is_empty());
    assert!(driver().on_event(&mut inst, 0, "rx", &Args::new()).is_empty());
    inst.properties = Object::new();
    assert!(driver().on_event(&mut inst, 0, "rx", &args).is_empty());
    assert_eq!(level(&inst), (None, None));
}

#[test]
fn messages_and_lines_one_by_one() {
    let message = read_json(&status(ZONE, "101")).unwrap();
    assert_eq!(message_level(&message, ZONE), Some(100));
    assert_eq!(message_level(&message, "/zone/4"), None);
    let args = Args::new().with("data", text_datum(" a \n\n\tb\r\n"));
    assert_eq!(CasetaLeap::received_lines("rx", &args), ["a", "b"]);
    let mut inst = device();
    let calls = CasetaLeap::record_messages(&mut inst, &vec![None, Some(message)]);
    assert_eq!(show(&calls), ["notify 1 level_changed {\"level\":100}"]);
}

#[test]
fn binding_subscribes_a_dimmer() {
    let mut inst = device();
    assert_eq!(
        show(&driver().on_bind(&mut inst)),
        [
            "notify 1 online_changed {\"online\":true}",
            "tx 0 {\"CommuniqueType\":\"SubscribeRequest\",\"Header\":{\"Url\":\"/zone/3/status\"}}\n"
        ]
    );
    inst.properties = Object::new();
    assert_eq!(show(&driver().on_bind(&mut inst)), ["notify 1 online_changed {\"online\":true}"]);
}

#[test]
fn the_last_line_may_go_without_a_break() {
    for end in ["\n", "\r\n", ""] {
        let mut inst = device();
        let text = format!("{}{end}", status(ZONE, "61").trim());
        assert_eq!(receive(&mut inst, &text), ["notify 1 level_changed {\"level\":61}"], "{end:?}");
    }
}
