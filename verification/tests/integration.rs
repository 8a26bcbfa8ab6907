use caseta::dimmer::{is_known, record};
use caseta::host::{Args, HostCall, Instance};
use caseta::integration::{fade, CasetaDimmer};
use caseta::json::{get_bool, get_u64, text_datum, Datum, Object};

fn percent(text: &str) -> Option<u8> {
    let level = text.parse::<f64>().ok()?;
    Some(level.round().clamp(0.0, 100.0) as u8)
}

fn device() -> Instance {
    Instance {
        properties: Object::new().with("Integration id", Datum::Unsigned(7)),
        scratch: Object::new(),
    }
}

fn show(calls: &[HostCall]) -> Vec<String> {
    calls
        .iter()
        .map(|call| match call {
            HostCall::Tx { control, data } => {
                format!("tx {control} {}", String::from_utf8(data.clone()).unwrap())
            }
            HostCall::Notify { proxy, event, args } => {
                format!("notify {proxy} {event} {}", caseta::serde::write_json(&Datum::Object(args.clone())))
            }
            HostCall::Warn { message } => format!("warn {message}"),
        })
        .collect()
}

fn command(inst: &mut Instance, cmd: &str, args: &Args) -> Vec<String> {
    show(&CasetaDimmer.on_command(inst, 1, cmd, args))
}

fn receive(inst: &mut Instance, data: &str) -> Vec<String> {
    let args = Args::new().with("data", text_datum(data));
    show(&CasetaDimmer.on_event(inst, 0, "rx", &args, percent))
}

fn level(inst: &Instance) -> (Option<u64>, Option<bool>) {
    (get_u64(&inst.scratch, "level"), get_bool(&inst.scratch, "on"))
}

#[test]
fn fade_is_seconds_or_minutes_and_seconds() {
    assert_eq!(fade(0), "0");
    assert_eq!(fade(5), "5");
    assert_eq!(fade(59), "59");
    assert_eq!(fade(60), "1:00");
    assert_eq!(fade(90), "1:30");
    assert_eq!(fade(3605), "60:05");
    assert_eq!(fade(u64::MAX), format!("{}:{:02}", u64::MAX / 60, u64::MAX % 60));
}

#[test]
fn integration_id_is_a_number_or_reads_as_one() {
    let with = |value: Datum| Instance {
        properties: Object::new().with("Integration id", value),
        scratch: Object::new(),
    };
    assert_eq!(CasetaDimmer::integration_id(&device()), Some(7));
    assert_eq!(CasetaDimmer::integration_id(&with(Datum::Negative(-3))), Some(-3));
    assert_eq!(CasetaDimmer::integration_id(&with(text_datum("12"))), Some(12));
    assert_eq!(CasetaDimmer::integration_id(&with(text_datum(" 12"))), None);
    assert_eq!(CasetaDimmer::integration_id(&with(Datum::Unsigned(u64::MAX))), None);
    assert_eq!(CasetaDimmer::integration_id(&with(Datum::Bool(true))), None);
    assert_eq!(CasetaDimmer::integration_id(&with(caseta::serde::read_json("7.0").unwrap())), None);
}

#[test]
fn on_and_off_send_levels_and_record_them() {
    let mut inst = device();
    let args = Args::new();
    assert_eq!(
        command(&mut inst, "on", &args),
        ["tx 0 #OUTPUT,7,1,100,1\r\n", "notify 1 level_changed {\"level\":100}"]
    );
    assert_eq!(level(&inst), (Some(100), Some(true)));
    let args = Args::new().with("level", Datum::Unsigned(40)).with("ramp_ms", Datum::Unsigned(90_500));
    assert_eq!(
        command(&mut inst, "set_level", &args),
        ["tx 0 #OUTPUT,7,1,40,1:30\r\n", "notify 1 level_changed {\"level\":40}"]
    );
    assert_eq!(
        command(&mut inst, "off", &Args::new()),
        ["tx 0 #OUTPUT,7,1,0,1\r\n", "notify 1 level_changed {\"level\":0}"]
    );
    assert_eq!(level(&inst), (Some(40), Some(false)));
    assert_eq!(
        command(&mut inst, "on", &Args::new()),
        ["tx 0 #OUTPUT,7,1,40,1\r\n", "notify 1 level_changed {\"level\":40}"]
    );
    assert_eq!(level(&inst), (Some(40), Some(true)));
}

#[test]
fn toggle_turns_over() {
    let mut inst = device();
    inst.scratch = Object::new().with("level", Datum::Unsigned(30)).with("on", Datum::Bool(true));
    command(&mut inst, "toggle", &Args::new());
    assert_eq!(level(&inst), (Some(30), Some(false)));
    command(&mut inst, "toggle", &Args::new());
    assert_eq!(level(&inst), (Some(30), Some(true)));
}

#[test]
fn a_recorded_zero_comes_on_full() {
    let mut inst = device();
    inst.scratch = Object::new().with("level", Datum::Unsigned(0));
    assert_eq!(command(&mut inst, "toggle", &Args::new())[0], "tx 0 #OUTPUT,7,1,100,1\r\n");
}

#[test]
fn levels_keep_their_low_byte() {
    let mut inst = device();
    let args = Args::new().with("level", Datum::Unsigned(300));
    assert_eq!(command(&mut inst, "set_level", &args)[0], "tx 0 #OUTPUT,7,1,44,1\r\n");
    let nothing = Args::new().with("level", text_datum("50"));
    assert_eq!(command(&mut inst, "set_level", &nothing)[0], "tx 0 #OUTPUT,7,1,0,1\r\n");
}

#[test]
fn default_fade_is_a_property() {
    let mut inst = device();
    inst.properties = inst.properties.with("Default fade", Datum::Unsigned(3));
    assert_eq!(command(&mut inst, "off", &Args::new())[0], "tx 0 #OUTPUT,7,1,0,3\r\n");
    let args = Args::new().with("ramp_ms", Datum::Unsigned(999));
    assert_eq!(command(&mut inst, "off", &args)[0], "tx 0 #OUTPUT,7,1,0,0\r\n");
}

#[test]
fn ramps_ask_where_they_ended() {
    let mut inst = device();
    inst.scratch = Object::new().with("level", Datum::Unsigned(30));
    let up = Args::new().with("direction", text_datum("up"));
    let down = Args::new().with("direction", text_datum("down"));
    let query = "tx 0 ?OUTPUT,7,1\r\n";
    assert_eq!(command(&mut inst, "ramp_start", &up), ["tx 0 #OUTPUT,7,2\r\n", query]);
    assert_eq!(command(&mut inst, "ramp_start", &down), ["tx 0 #OUTPUT,7,3\r\n", query]);
    assert_eq!(command(&mut inst, "ramp_stop", &down), ["tx 0 #OUTPUT,7,4\r\n", query]);
    assert_eq!(level(&inst), (Some(30), None));
}

#[test]
fn what_cannot_be_carried_out_leaves_a_warning() {
    let mut inst = device();
    assert_eq!(command(&mut inst, "dance", &Args::new()), ["warn caseta: unhandled `dance`"]);
    inst.properties = Object::new();
    assert_eq!(
        command(&mut inst, "on", &Args::new()),
        ["warn caseta: set the Integration id on this device first"]
    );
    assert_eq!(command(&mut inst, "dance", &Args::new()), ["warn caseta: unhandled `dance`"]);
    assert_eq!(level(&inst), (None, None));
    assert!(CasetaDimmer::send(&inst, "4").is_none());
}

#[test]
fn reports_of_the_device_are_taken_in() {
    let mut inst = device();
    assert_eq!(receive(&mut inst, "~OUTPUT,7,1,55.00\r\n"), ["notify 1 level_changed {\"level\":55}"]);
    assert_eq!(level(&inst), (Some(55), Some(true)));
    assert_eq!(receive(&mut inst, "~OUTPUT,7,1,55.00\r\n"), Vec::<String>::new());
    assert_eq!(
        receive(&mut inst, "~OUTPUT,7,1,0.00\r\n~OUTPUT,7,1,12.5\r\n~OUTPUT,7,1,250\r\n"),
        [
            "notify 1 level_changed {\"level\":0}",
            "notify 1 level_changed {\"level\":13}",
            "notify 1 level_changed {\"level\":100}"
        ]
    );
    assert_eq!(level(&inst), (Some(100), Some(true)));
}

#[test]
fn other_lines_are_passed_over() {
    let mut inst = device();
    let lines = "GNET> \r\n~OUTPUT,8,1,55\r\n~OUTPUT,7,2,55\r\n~DEVICE,7,1,55\r\n~OUTPUT,7,1\r\n~OUTPUT,7,1,bright\r\n~OUTPUT, 7,1,55\r\n";
    assert_eq!(receive(&mut inst, lines), Vec::<String>::new());
    assert_eq!(level(&inst), (None, None));
    assert_eq!(receive(&mut inst, "OUTPUT,+07,1, 20 ,x"), ["notify 1 level_changed {\"level\":20}"]);
    assert_eq!(receive(&mut inst, "~~OUTPUT,7,1,-5"), ["notify 1 level_changed {\"level\":0}"]);
    assert_eq!(level(&inst), (Some(20), Some(false)));
    assert_eq!(receive(&mut inst, "~OUTPUT,7,1,0"), Vec::<String>::new());
}

#[test]
fn a_wall_press_back_to_the_old_level_is_news() {
    let mut inst = device();
    inst.scratch = Object::new().with("level", Datum::Unsigned(50)).with("on", Datum::Bool(true));
    assert_eq!(
        receive(&mut inst, "~OUTPUT,7,1,0.00\r\n~OUTPUT,7,1,50.00\r\n"),
        ["notify 1 level_changed {\"level\":0}", "notify 1 level_changed {\"level\":50}"]
    );
    assert_eq!(level(&inst), (Some(50), Some(true)));
    assert_eq!(receive(&mut inst, "~OUTPUT,7,1,50"), Vec::<String>::new());
}

#[test]
fn what_is_known_makes_no_state_change() {
    let mut inst = device();
    inst.scratch = Object::new().with("level", Datum::Unsigned(50)).with("on", Datum::Bool(false));
    assert_eq!(receive(&mut inst, "~OUTPUT,7,1,0.00\r\n"), Vec::<String>::new());
    assert_eq!(level(&inst), (Some(50), Some(false)));
    command(&mut inst, "on", &Args::new());
    assert_eq!(receive(&mut inst, "~OUTPUT,7,1,50.00\r\n"), Vec::<String>::new());
    command(&mut inst, "off", &Args::new());
    assert_eq!(receive(&mut inst, "~OUTPUT,7,1,0.00\r\n"), Vec::<String>::new());
}

#[test]
fn a_dimmer_of_which_nothing_is_known_is_news() {
    let mut inst = device();
    assert_eq!(receive(&mut inst, "~OUTPUT,7,1,0"), ["notify 1 level_changed {\"level\":0}"]);
    assert_eq!(level(&inst), (None, Some(false)));
    inst.scratch = Object::new().with("level", Datum::Unsigned(50));
    assert_eq!(receive(&mut inst, "~OUTPUT,7,1,50"), ["notify 1 level_changed {\"level\":50}"]);
    assert!(is_known(&inst, 50));
    assert!(!is_known(&inst, 0));
    assert!(!is_known(&inst, 49));
}

#[test]
fn readings_beyond_full_count_as_full() {
    let mut inst = device();
    let args = Args::new().with("data", text_datum("~OUTPUT,7,1,x\r\n"));
    let out = CasetaDimmer.on_event(&mut inst, 0, "rx", &args, |_: &str| Some(200));
    assert_eq!(show(&out), ["notify 1 level_changed {\"level\":100}"]);
    assert_eq!(level(&inst), (Some(100), Some(true)));
}

#[test]
fn one_event_or_two_come_to_the_same() {
    let (a, b) = ("~OUTPUT,7,1,5\r\n~OUTPUT,7,1,0", "~OUTPUT,7,1,0\r\n~OUTPUT,7,1,9");
    for separator in ["\r\n", "\r", "\n"] {
        let mut one = device();
        let mut two = device();
        let whole = receive(&mut one, &format!("{a}{separator}{b}"));
        let mut parts = receive(&mut two, a);
        parts.extend(receive(&mut two, b));
        assert_eq!(whole, parts);
        assert_eq!(whole.len(), 3);
        assert_eq!(level(&one), level(&two));
    }
}

#[test]
fn reported_levels_are_handed_out_as_written() {
    let inst = device();
    let args = Args::new().with("data", text_datum("~OUTPUT,7,1, 5.5 \r\n~OUTPUT,9,1,6\r\n~OUTPUT,7,1,x\r\n"));
    assert_eq!(CasetaDimmer::reported_levels(&inst, "rx", &args), ["5.5", "x"]);
    assert!(CasetaDimmer::reported_levels(&inst, "tx", &args).is_empty());
    assert!(CasetaDimmer::reported_levels(&inst, "rx", &Args::new()).is_empty());
}

#[test]
fn readings_add_up() {
    let mut one = device();
    let mut two = device();
    let whole = show(&record(&mut one, &vec![Some(5), None, Some(5), Some(0), Some(9)]));
    let mut parts = show(&record(&mut two, &vec![Some(5), None]));
    parts.extend(show(&record(&mut two, &vec![Some(5), Some(0), Some(9)])));
    assert_eq!(whole, parts);
    assert_eq!(whole.len(), 3);
    assert_eq!(level(&one), level(&two));
}

#[test]
fn binding_asks_where_the_dimmer_is() {
    let mut inst = device();
    assert_eq!(
        show(&CasetaDimmer.on_bind(&mut inst)),
        ["notify 1 online_changed {\"online\":true}", "tx 0 ?OUTPUT,7,1\r\n"]
    );
    inst.properties = Object::new();
    assert_eq!(show(&CasetaDimmer.on_bind(&mut inst)), ["notify 1 online_changed {\"online\":true}"]);
}

#[test]
fn a_report_is_the_level() {
    assert_eq!(show(&[CasetaDimmer::report(33)]), ["notify 1 level_changed {\"level\":33}"]);
}

#[test]
fn everything_sent_is_a_line_of_ascii() {
    let mut inst = device();
    inst.properties = Object::new().with("Integration id", Datum::Negative(-12));
    let mut out = CasetaDimmer.on_bind(&mut inst);
    for cmd in ["on", "off", "toggle", "set_level", "ramp_start", "ramp_stop", "é\r\n"] {
        let args = Args::new().with("ramp_ms", Datum::Unsigned(3_661_000));
        out.extend(CasetaDimmer.on_command(&mut inst, 1, cmd, &args));
    }
    let mut lines = 0;
    for call in &out {
        if let HostCall::Tx { data, .. } = call {
            let text = data.strip_suffix(b"\r\n").unwrap();
            assert!(text.iter().all(|b| (0x20..=0x7e).contains(b)));
            lines += 1;
        }
    }
    assert_eq!(lines, 9);
}

#[test]
fn lines_may_end_in_any_way_or_not_at_all() {
    for end in ["\r\n", "\r", "\n", ""] {
        let mut inst = device();
        let text = format!("~OUTPUT,7,1,61.00{end}");
        assert_eq!(receive(&mut inst, &text), ["notify 1 level_changed {\"level\":61}"], "{end:?}");
    }
}
