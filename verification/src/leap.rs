//! Caseta dimmers over LEAP, the API port of every Smart Bridge: the live connection.
//!
//! LEAP is one JSON object per line over a TLS socket.  A `CreateRequest` on a zone's
//! command processor sets its level; a `SubscribeRequest` on a zone's `/status` is how a
//! wall dimmer press reaches the driver without polling.

use crate::dimmer::absorbed;
use crate::dimmer::fade_length;
use crate::dimmer::fade_seconds;
use crate::dimmer::last_level;
use crate::dimmer::level_changed;
use crate::dimmer::online;
use crate::dimmer::ramps_up;
use crate::dimmer::record;
use crate::dimmer::remembered;
use crate::dimmer::report_online;
use crate::dimmer::reports;
use crate::dimmer::settle;
use crate::dimmer::settled;
use crate::dimmer::target;
use crate::dimmer::target_level;
use crate::dimmer::upward;
use crate::host::Args;
use crate::host::Call;
use crate::host::HostCall;
use crate::host::Instance;
use crate::host::LocalId;
use crate::host::calls;
use crate::json::Datum;
use crate::json::Json;
use crate::json::Object;
use crate::json::get_text;
use crate::json::plain;
use crate::json::text_at;
use crate::json::text_datum;
use crate::serde::json_read;
use crate::serde::json_text;
use crate::serde::read_json;
use crate::serde::write_json;
use crate::setup::CasetaLeap;
use crate::text::pieces;
use crate::text::same;
use crate::text::split;
use crate::text::texts;
use crate::text::trim;
use crate::text::trimmed;
use crate::text::two_digits;
use crate::text::write_two_digits;
use vstd::prelude::*;
use vstd::string::StrSliceExecFns;
use vstd::string::StringExecFns;
use vstd::utf8::encode_utf8;

verus! {

/// The driver's own network transport; the host owns the socket.
pub const NET: LocalId = 0;

// ---------------------------------------------------------------------------------------
// The protocol
// ---------------------------------------------------------------------------------------

/// The zone of a device, unless it has none or an empty one.
pub open spec fn zone_of(properties: Map<Seq<char>, Json>) -> Option<Seq<char>> {
    match text_at(properties, "Zone"@) {
        Some(zone) => if zone.len() > 0 {
            Some(zone)
        } else {
            None
        },
        None => None,
    }
}

/// A fade in the notation of LEAP: hours, minutes and seconds.
pub open spec fn fade_time_text(seconds: u64) -> Seq<char> {
    two_digits((seconds / 3600) as nat) + ":"@ + two_digits(((seconds % 3600) / 60) as nat) + ":"@
        + two_digits((seconds % 60) as nat)
}

/// The line in which a message travels.
pub open spec fn line_of(message: Json) -> Seq<char> {
    json_text(message) + "\n"@
}

/// Whether a text is one line: it ends in a line break and holds no other.
pub open spec fn one_line(text: Seq<char>) -> bool {
    &&& text.len() > 0
    &&& forall|i: int| 0 <= i < text.len() ==> (#[trigger] text[i] == '\n' <==> i == text.len() - 1)
}

/// Whether a message goes out as one line from which it reads back.
pub open spec fn one_message(message: Json) -> bool {
    &&& one_line(line_of(message))
    &&& json_read(json_text(message)) == Some(message)
}

/// Whether everything that some calls send to the bridge is one message per line.
pub open spec fn sends_messages(out: Seq<Call>) -> bool {
    forall|i: int|
        0 <= i < out.len() && (#[trigger] out[i]) is Tx ==> exists|message: Json|
            #[trigger] one_message(message) && out[i] == sent(message)
}

/// A message on its way to the bridge.
pub open spec fn sent(message: Json) -> Call {
    Call::Tx { control: NET, data: encode_utf8(line_of(message)) }
}

/// The message that sets a zone's level.
pub open spec fn level_message(zone: Seq<char>, level: u8, fade_secs: u64) -> Json {
    Json::Object(
        Map::empty().insert("CommuniqueType"@, Json::Text("CreateRequest"@)).insert(
            "Header"@,
            Json::Object(
                Map::empty().insert("Url"@, Json::Text(zone + "/commandprocessor"@)),
            ),
        ).insert(
            "Body"@,
            Json::Object(
                Map::empty().insert(
                    "Command"@,
                    Json::Object(
                        Map::empty().insert("CommandType"@, Json::Text("GoToDimmedLevel"@)).insert(
                            "DimmedLevelParameters"@,
                            Json::Object(
                                Map::empty().insert("Level"@, Json::Integer(level as int)).insert(
                                    "FadeTime"@,
                                    Json::Text(fade_time_text(fade_secs)),
                                ),
                            ),
                        ),
                    ),
                ),
            ),
        ),
    )
}

/// The message that subscribes to a zone's status.
pub open spec fn subscribe_message(zone: Seq<char>) -> Json {
    Json::Object(
        Map::empty().insert("CommuniqueType"@, Json::Text("SubscribeRequest"@)).insert(
            "Header"@,
            Json::Object(Map::empty().insert("Url"@, Json::Text(zone + "/status"@))),
        ),
    )
}

/// The level that a command asks for and the seconds it is to take, if the command is one
/// that the driver knows.  A held button is a long fade to the extreme, and its release a
/// return to the level on record.
pub open spec fn order(
    properties: Map<Seq<char>, Json>,
    scratch: Map<Seq<char>, Json>,
    cmd: Seq<char>,
    args: Map<Seq<char>, Json>,
) -> Option<(u8, u64)> {
    match target(cmd, scratch, args) {
        Some(level) => Some((level, fade_seconds(properties, args))),
        None => if cmd == "ramp_start"@ {
            Some(
                (
                    if upward(args) {
                        100u8
                    } else {
                        1u8
                    },
                    4,
                ),
            )
        } else if cmd == "ramp_stop"@ {
            Some((remembered(scratch), 0))
        } else {
            None
        },
    }
}

/// What the host is asked to do on a command.
pub open spec fn command_calls(
    properties: Map<Seq<char>, Json>,
    scratch: Map<Seq<char>, Json>,
    cmd: Seq<char>,
    args: Map<Seq<char>, Json>,
) -> Seq<Call> {
    match (zone_of(properties), order(properties, scratch, cmd, args)) {
        (None, _) => seq![
            Call::Warn {
                message:
                    "caseta-leap: this device has no Zone — adopt it through the bridge's setup flow"@,
            },
        ],
        (Some(_), None) => seq![Call::Warn { message: "caseta-leap: unhandled `"@ + cmd + "`"@ }],
        (Some(zone), Some((level, fade))) => seq![
            sent(level_message(zone, level, fade)),
            level_changed(level),
        ],
    }
}

/// The notes after a command: changed only where a level went out.
pub open spec fn command_notes(
    properties: Map<Seq<char>, Json>,
    scratch: Map<Seq<char>, Json>,
    cmd: Seq<char>,
    args: Map<Seq<char>, Json>,
) -> Map<Seq<char>, Json> {
    match (zone_of(properties), order(properties, scratch, cmd, args)) {
        (Some(_), Some((level, _))) => settled(scratch, level),
        _ => scratch,
    }
}

/// Whether the message that a command sends, if it sends one, goes out as one line from which
/// it reads back.
pub open spec fn order_reads_back(
    properties: Map<Seq<char>, Json>,
    scratch: Map<Seq<char>, Json>,
    cmd: Seq<char>,
    args: Map<Seq<char>, Json>,
) -> bool {
    match (zone_of(properties), order(properties, scratch, cmd, args)) {
        (Some(zone), Some((level, fade))) => one_message(level_message(zone, level, fade)),
        _ => true,
    }
}

/// The level from 0 to 100 that a message reports of a zone.
pub open spec fn status_level(message: Json, zone: Seq<char>) -> Option<u8> {
    match message.pointer2("Body"@, "ZoneStatus"@) {
        Some(status) => {
            let href = match status.pointer2("Zone"@, "href"@) {
                Some(inner) => inner.as_str(),
                None => None,
            };
            let level = match status.get("Level"@) {
                Some(inner) => inner.as_u64(),
                None => None,
            };
            match level {
                Some(n) => if href == Some(zone) {
                    Some(
                        if n <= 100 {
                            n as u8
                        } else {
                            100
                        },
                    )
                } else {
                    None
                },
                None => None,
            }
        },
        None => None,
    }
}

/// The lines among some that are more than white space, without the white space around
/// them.
pub open spec fn filled_lines(lines: Seq<Seq<char>>) -> Seq<Seq<char>>
    decreases lines.len(),
{
    if lines.len() == 0 {
        Seq::empty()
    } else {
        let front = filled_lines(lines.drop_last());
        if trimmed(lines.last()).len() > 0 {
            front.push(trimmed(lines.last()))
        } else {
            front
        }
    }
}

/// The lines that an event brings.
pub open spec fn event_lines(note: Seq<char>, args: Map<Seq<char>, Json>) -> Seq<Seq<char>> {
    if note != "rx"@ {
        Seq::empty()
    } else {
        match text_at(args, "data"@) {
            Some(text) => filled_lines(pieces(text, '\n', '\n')),
            None => Seq::empty(),
        }
    }
}

/// The levels that a run of messages reports of a device; a message that could not be read
/// reports none.
pub open spec fn status_levels(
    properties: Map<Seq<char>, Json>,
    messages: Seq<Option<Json>>,
) -> Seq<Option<u8>> {
    Seq::new(
        messages.len(),
        |i: int|
            match (zone_of(properties), messages[i]) {
                (Some(zone), Some(message)) => status_level(message, zone),
                _ => None,
            },
    )
}

/// The messages in some lines.
pub open spec fn messages_in(lines: Seq<Seq<char>>) -> Seq<Option<Json>> {
    Seq::new(lines.len(), |i: int| json_read(lines[i]))
}

/// The levels that an event reports of a device.
pub open spec fn event_levels(
    properties: Map<Seq<char>, Json>,
    note: Seq<char>,
    args: Map<Seq<char>, Json>,
) -> Seq<Option<u8>> {
    status_levels(properties, messages_in(event_lines(note, args)))
}

/// What the host is asked to do when a device is bound.  Only a dimmer has a zone to
/// subscribe to.
pub open spec fn bind_calls(properties: Map<Seq<char>, Json>) -> Seq<Call> {
    match zone_of(properties) {
        Some(zone) => seq![online(), sent(subscribe_message(zone))],
        None => seq![online()],
    }
}

/// The documents behind a list of messages.
pub open spec fn read_messages(messages: Seq<Option<Datum>>) -> Seq<Option<Json>> {
    Seq::new(
        messages.len(),
        |i: int|
            match messages[i] {
                Some(message) => Some(message@),
                None => None,
            },
    )
}

// ---------------------------------------------------------------------------------------
// Messages
// ---------------------------------------------------------------------------------------

/// Reads the zone of a device.
pub fn zone(inst: &Instance) -> (zone: Option<String>)
    ensures
        zone_of(inst.properties@) == (match zone {
            Some(z) => Some(z@),
            None => None,
        }),
{
    match get_text(&inst.properties, "Zone") {
        Some(s) => if s.is_empty() {
            None
        } else {
            Some(s.to_owned())
        },
        None => None,
    }
}

/// Writes a fade in the notation of LEAP.
pub fn fade_time(seconds: u64) -> (text: String)
    ensures
        text@ == fade_time_text(seconds),
{
    let mut text = write_two_digits(seconds / 3600);
    text.append(":");
    text.append(write_two_digits((seconds % 3600) / 60).as_str());
    text.append(":");
    text.append(write_two_digits(seconds % 60).as_str());
    text
}

/// A call that sends a text to the bridge, as a line.
pub fn send_line(text: String) -> (call: HostCall)
    ensures
        call@ == (Call::Tx { control: NET, data: encode_utf8(text@ + "\n"@) }),
{
    let mut line = text;
    line.append("\n");
    HostCall::Tx { control: NET, data: line.as_str().as_bytes_vec() }
}

/// A call that sends a message to the bridge, as one line.
pub fn tx(msg: &Datum) -> (call: HostCall)
    ensures
        call@ == sent(msg@),
        one_line(line_of(msg@)),
        plain(msg@, 127) ==> one_message(msg@),
{
    let text = write_json(msg);
    proof {
        reveal_strlit("\n");
        let line = line_of(msg@);
        assert forall|i: int| 0 <= i < line.len() implies (#[trigger] line[i] == '\n' <==> i
            == line.len() - 1) by {
            if i < text@.len() {
                assert(text@[i] == line[i]);
                assert(text@.contains(text@[i]));
            }
        }
    }
    send_line(text)
}

/// The message that sets a zone's level.
pub fn go_to_level(zone: &str, level: u8, fade_secs: u64) -> (message: Datum)
    ensures
        message@ == level_message(zone@, level, fade_secs),
        plain(message@, 127),
{
    proof {
        reveal_with_fuel(plain, 5);
    }
    let mut url = zone.to_owned();
    url.append("/commandprocessor");
    let parameters = Object::new().with("Level", Datum::Unsigned(level as u64)).with(
        "FadeTime",
        Datum::Text(fade_time(fade_secs)),
    );
    let command = Object::new().with("CommandType", text_datum("GoToDimmedLevel")).with(
        "DimmedLevelParameters",
        Datum::Object(parameters),
    );
    let header = Object::new().with("Url", Datum::Text(url));
    let body = Object::new().with("Command", Datum::Object(command));
    Datum::Object(
        Object::new().with("CommuniqueType", text_datum("CreateRequest")).with(
            "Header",
            Datum::Object(header),
        ).with("Body", Datum::Object(body)),
    )
}

/// The message that subscribes to a zone's status.
pub fn subscribe(zone: &str) -> (message: Datum)
    ensures
        message@ == subscribe_message(zone@),
        plain(message@, 127),
{
    proof {
        reveal_with_fuel(plain, 4);
    }
    let mut url = zone.to_owned();
    url.append("/status");
    let header = Object::new().with("Url", Datum::Text(url));
    Datum::Object(
        Object::new().with("CommuniqueType", text_datum("SubscribeRequest")).with(
            "Header",
            Datum::Object(header),
        ),
    )
}

/// The notice that the level has changed.
pub fn report(level: u8) -> (call: HostCall)
    ensures
        call@ == level_changed(level),
{
    crate::dimmer::report(level)
}

/// Reads the level that a message reports of a zone.
pub fn message_level(message: &Datum, zone: &str) -> (level: Option<u8>)
    ensures
        level == status_level(message@, zone@),
{
    let status = match message.pointer2("Body", "ZoneStatus") {
        Some(status) => status,
        None => return None,
    };
    let mine = match status.pointer2("Zone", "href") {
        Some(href) => match href.as_str() {
            Some(href) => same(href, zone),
            None => false,
        },
        None => false,
    };
    if !mine {
        return None;
    }
    match status.get("Level") {
        Some(level) => match level.as_u64() {
            Some(n) => if n <= 100 {
                Some(n as u8)
            } else {
                Some(100)
            },
            None => None,
        },
        None => None,
    }
}

// ---------------------------------------------------------------------------------------
// The driver
// ---------------------------------------------------------------------------------------

impl CasetaLeap {
    /// Carries out a command of a dimmer's light proxy.
    pub fn on_dimmer_command(inst: &mut Instance, cmd: &str, args: &Args) -> (out: Vec<HostCall>)
        ensures
            final(inst).properties@ == old(inst).properties@,
            final(inst).scratch@ == command_notes(
                old(inst).properties@,
                old(inst).scratch@,
                cmd@,
                args@,
            ),
            calls(out@) == command_calls(
                old(inst).properties@,
                old(inst).scratch@,
                cmd@,
                args@,
            ),
            sends_messages(calls(out@)),
            order_reads_back(old(inst).properties@, old(inst).scratch@, cmd@, args@),
    {
        let z = match zone(inst) {
            Some(z) => z,
            None => {
                let out = vec![
                    HostCall::warn(
                        "caseta-leap: this device has no Zone — adopt it through the bridge's setup flow",
                    ),
                ];
                assert(calls(out@) == seq![out@[0]@]);
                return out;
            },
        };
        let (level, fade): (u8, u64) = match target_level(inst, cmd, args) {
            Some(level) => (level, fade_length(inst, args)),
            None => if same(cmd, "ramp_start") {
                if ramps_up(args) {
                    (100, 4)
                } else {
                    (1, 4)
                }
            } else if same(cmd, "ramp_stop") {
                (last_level(inst), 0)
            } else {
                let mut message = "caseta-leap: unhandled `".to_owned();
                message.append(cmd);
                message.append("`");
                let out = vec![HostCall::warn(message.as_str())];
                assert(calls(out@) == seq![out@[0]@]);
                return out;
            },
        };
        settle(inst, level);
        let message = go_to_level(z.as_str(), level, fade);
        let out = vec![tx(&message), report(level)];
        assert(one_message(message@));
        assert(calls(out@) == seq![out@[0]@, out@[1]@]);
        out
    }

    /// Picks the lines that an event brings.
    pub fn received_lines(note: &str, args: &Args) -> (lines: Vec<String>)
        ensures
            texts(lines@) == event_lines(note@, args@),
    {
        let mut filled: Vec<String> = Vec::new();
        assert(texts(filled@) == Seq::<Seq<char>>::empty());
        if !same(note, "rx") {
            return filled;
        }
        let text = match get_text(args, "data") {
            Some(text) => text,
            None => return filled,
        };
        let lines = split(text, '\n', '\n');
        let ghost all = texts(lines@);
        let mut i: usize = 0;
        while i < lines.len()
            invariant
                i <= lines.len(),
                all == texts(lines@),
                texts(filled@) == filled_lines(all.take(i as int)),
            decreases lines.len() - i,
        {
            let ghost before = texts(filled@);
            assert(all.take(i + 1).drop_last() == all.take(i as int));
            let line = trim(lines[i].as_str());
            if !line.as_str().is_empty() {
                filled.push(line);
                assert(texts(filled@) == before.push(trimmed(all[i as int])));
            }
            i = i + 1;
        }
        assert(all.take(i as int) == all);
        filled
    }

    /// Takes in the messages that an event brought, `None` for a line that is no JSON.
    pub fn record_messages(inst: &mut Instance, messages: &Vec<Option<Datum>>) -> (out: Vec<
        HostCall,
    >)
        ensures
            final(inst).properties@ == old(inst).properties@,
            final(inst).scratch@ == absorbed(
                old(inst).scratch@,
                status_levels(old(inst).properties@, read_messages(messages@)),
            ).0,
            calls(out@) == reports(
                absorbed(
                    old(inst).scratch@,
                    status_levels(old(inst).properties@, read_messages(messages@)),
                ).1,
            ),
    {
        let mine = zone(inst);
        let mut readings: Vec<Option<u8>> = Vec::new();
        let ghost levels = status_levels(inst.properties@, read_messages(messages@));
        let mut i: usize = 0;
        while i < messages.len()
            invariant
                i <= messages.len(),
                readings@.len() == i,
                levels == status_levels(inst.properties@, read_messages(messages@)),
                zone_of(inst.properties@) == (match mine {
                    Some(z) => Some(z@),
                    None => None,
                }),
                forall|k: int| 0 <= k < i ==> readings@[k] == #[trigger] levels[k],
            decreases messages.len() - i,
        {
            let reading = match (&mine, &messages[i]) {
                (Some(zone), Some(message)) => message_level(message, zone.as_str()),
                _ => None,
            };
            assert(reading == levels[i as int]);
            readings.push(reading);
            i = i + 1;
        }
        assert(readings@ == levels);
        record(inst, &readings)
    }

    /// Takes in an event of a dimmer.
    pub fn on_dimmer_event(inst: &mut Instance, note: &str, args: &Args) -> (out: Vec<HostCall>)
        ensures
            final(inst).properties@ == old(inst).properties@,
            final(inst).scratch@ == absorbed(
                old(inst).scratch@,
                event_levels(old(inst).properties@, note@, args@),
            ).0,
            calls(out@) == reports(
                absorbed(
                    old(inst).scratch@,
                    event_levels(old(inst).properties@, note@, args@),
                ).1,
            ),
    {
        let lines = Self::received_lines(note, args);
        let mut messages: Vec<Option<Datum>> = Vec::new();
        let ghost documents = messages_in(texts(lines@));
        let mut i: usize = 0;
        while i < lines.len()
            invariant
                i <= lines.len(),
                documents == messages_in(texts(lines@)),
                messages@.len() == i,
                forall|k: int| 0 <= k < i ==> read_messages(messages@)[k] == #[trigger] documents[k],
            decreases lines.len() - i,
        {
            let ghost before = messages@;
            let message = read_json(lines[i].as_str());
            messages.push(message);
            assert(forall|k: int|
                0 <= k < i ==> read_messages(messages@)[k] == #[trigger] read_messages(before)[k]);
            assert(read_messages(messages@)[i as int] == documents[i as int]);
            i = i + 1;
        }
        assert(read_messages(messages@) == documents);
        Self::record_messages(inst, &messages)
    }

    /// Carries out a command.  The bridge's own proxy takes none, so it is for a dimmer's
    /// light proxy.
    pub fn on_command(
        &self,
        inst: &mut Instance,
        _proxy: LocalId,
        cmd: &str,
        args: &Args,
    ) -> (out: Vec<HostCall>)
        ensures
            final(inst).properties@ == old(inst).properties@,
            final(inst).scratch@ == command_notes(
                old(inst).properties@,
                old(inst).scratch@,
                cmd@,
                args@,
            ),
            calls(out@) == command_calls(
                old(inst).properties@,
                old(inst).scratch@,
                cmd@,
                args@,
            ),
            sends_messages(calls(out@)),
            order_reads_back(old(inst).properties@, old(inst).scratch@, cmd@, args@),
    {
        Self::on_dimmer_command(inst, cmd, args)
    }

    /// Takes in an event.
    pub fn on_event(
        &self,
        inst: &mut Instance,
        _control: LocalId,
        note: &str,
        args: &Args,
    ) -> (out: Vec<HostCall>)
        ensures
            final(inst).properties@ == old(inst).properties@,
            final(inst).scratch@ == absorbed(
                old(inst).scratch@,
                event_levels(old(inst).properties@, note@, args@),
            ).0,
            calls(out@) == reports(
                absorbed(
                    old(inst).scratch@,
                    event_levels(old(inst).properties@, note@, args@),
                ).1,
            ),
    {
        Self::on_dimmer_event(inst, note, args)
    }

    /// Greets a device that was just bound.
    pub fn on_bind(&self, inst: &mut Instance) -> (out: Vec<HostCall>)
        ensures
            final(inst).properties@ == old(inst).properties@,
            final(inst).scratch@ == old(inst).scratch@,
            calls(out@) == bind_calls(old(inst).properties@),
            sends_messages(calls(out@)),
            zone_of(old(inst).properties@) matches Some(zone) ==> one_message(
                subscribe_message(zone),
            ),
    {
        let mut out = vec![report_online()];
        match zone(inst) {
            Some(z) => {
                let message = subscribe(z.as_str());
                out.push(tx(&message));
                assert(one_message(message@));
                assert(calls(out@) == seq![out@[0]@, out@[1]@]);
            },
            None => {
                assert(calls(out@) == seq![out@[0]@]);
            },
        }
        out
    }
}

} // verus!
