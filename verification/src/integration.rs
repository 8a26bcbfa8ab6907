//! Caseta dimmers over the Smart Bridge PRO's integration port.
//!
//! The protocol is line-oriented ASCII on TCP 23:
//!
//! ```text
//!   #OUTPUT,<id>,1,<level>,<fade>    set level, fade as seconds or minutes:seconds
//!   #OUTPUT,<id>,2                   start raising
//!   #OUTPUT,<id>,3                   start lowering
//!   #OUTPUT,<id>,4                   stop
//!   ?OUTPUT,<id>,1                   query
//!   ~OUTPUT,<id>,1,<level>           unsolicited report: the bridge tells us about wall
//!                                    dimmer presses, which is how manual changes stay in
//!                                    sync
//! ```
//!
//! This needs the PRO bridge.  The standard bridge has no integration port at all.

use crate::dimmer::absorbed;
use crate::dimmer::at_most_full;
use crate::dimmer::fade_length;
use crate::dimmer::fade_seconds;
use crate::dimmer::law_news_is_what_was_read;
use crate::dimmer::level_changed;
use crate::dimmer::online;
use crate::dimmer::ramps_up;
use crate::dimmer::record;
use crate::dimmer::report_online;
use crate::dimmer::reports;
use crate::dimmer::reports_percentages;
use crate::dimmer::settle;
use crate::dimmer::settled;
use crate::dimmer::target;
use crate::dimmer::target_level;
use crate::dimmer::upward;
use crate::host::Args;
use crate::host::Call;
use crate::host::HostCall;
use crate::host::Instance;
use crate::host::LocalId;
use crate::host::calls;
use crate::json::Datum;
use crate::json::Json;
use crate::json::get_text;
use crate::json::lookup;
use crate::json::text_at;
use crate::text::decimal;
use crate::text::integer_i64;
use crate::text::pieces;
use crate::text::read_i64;
use crate::text::same;
use crate::text::signed_decimal;
use crate::text::split;
use crate::text::strip;
use crate::text::stripped;
use crate::text::texts;
use crate::text::trim;
use crate::text::trimmed;
use crate::text::two_digits;
use crate::text::write_decimal;
use crate::text::write_signed;
use crate::text::write_two_digits;
use vstd::prelude::*;
use vstd::string::StrSliceExecFns;
use vstd::string::StringExecFns;
use vstd::utf8::encode_utf8;

verus! {

/// The driver's own network transport; the host owns the socket.
pub const NET: LocalId = 0;

/// The driver of a dimmer behind the integration port.
#[derive(Default)]
pub struct CasetaDimmer;

// ---------------------------------------------------------------------------------------
// The protocol
// ---------------------------------------------------------------------------------------

/// A fade in the notation of the integration port: seconds, or minutes and two digits of
/// seconds.
pub open spec fn fade_text(seconds: u64) -> Seq<char> {
    if seconds >= 60 {
        decimal((seconds / 60) as nat) + ":"@ + two_digits((seconds % 60) as nat)
    } else {
        decimal(seconds as nat)
    }
}

/// The integration id of a device: a number, or a text that reads as one.
pub open spec fn device_id(properties: Map<Seq<char>, Json>) -> Option<i64> {
    match lookup(properties, "Integration id"@) {
        Some(Json::Integer(n)) => Json::Integer(n).as_i64(),
        Some(Json::Text(s)) => integer_i64(s),
        _ => None,
    }
}

/// A text on its way to the bridge.
pub open spec fn sent(text: Seq<char>) -> Call {
    Call::Tx { control: NET, data: encode_utf8(text) }
}

/// A line that orders something of an output.
pub open spec fn order_line(id: i64, tail: Seq<char>) -> Seq<char> {
    "#OUTPUT,"@ + signed_decimal(id as int) + ","@ + tail + "\r\n"@
}

/// A line that asks where an output is.
pub open spec fn query_line(id: i64) -> Seq<char> {
    "?OUTPUT,"@ + signed_decimal(id as int) + ",1\r\n"@
}

/// What a command orders, if it is one that the driver knows.
pub open spec fn order(
    properties: Map<Seq<char>, Json>,
    scratch: Map<Seq<char>, Json>,
    cmd: Seq<char>,
    args: Map<Seq<char>, Json>,
) -> Option<Seq<char>> {
    match target(cmd, scratch, args) {
        Some(level) => Some(
            "1,"@ + decimal(level as nat) + ","@ + fade_text(fade_seconds(properties, args)),
        ),
        None => if cmd == "ramp_start"@ {
            Some(
                if upward(args) {
                    "2"@
                } else {
                    "3"@
                },
            )
        } else if cmd == "ramp_stop"@ {
            Some("4"@)
        } else {
            None
        },
    }
}

/// What the host is asked to do on a command.  A level goes out with a notice of it; a
/// ramp's end is unknown until the bridge reports it, so a ramp goes out with a query.
pub open spec fn command_calls(
    properties: Map<Seq<char>, Json>,
    scratch: Map<Seq<char>, Json>,
    cmd: Seq<char>,
    args: Map<Seq<char>, Json>,
) -> Seq<Call> {
    match (order(properties, scratch, cmd, args), device_id(properties)) {
        (None, _) => seq![Call::Warn { message: "caseta: unhandled `"@ + cmd + "`"@ }],
        (Some(_), None) => seq![
            Call::Warn { message: "caseta: set the Integration id on this device first"@ },
        ],
        (Some(tail), Some(id)) => seq![
            sent(order_line(id, tail)),
            match target(cmd, scratch, args) {
                Some(level) => level_changed(level),
                None => sent(query_line(id)),
            },
        ],
    }
}

/// The notes after a command: changed only where a level went out.
pub open spec fn command_notes(
    properties: Map<Seq<char>, Json>,
    scratch: Map<Seq<char>, Json>,
    cmd: Seq<char>,
    args: Map<Seq<char>, Json>,
) -> Map<Seq<char>, Json> {
    match (target(cmd, scratch, args), device_id(properties)) {
        (Some(level), Some(_)) => settled(scratch, level),
        _ => scratch,
    }
}

/// The level, as written, that a line from the bridge reports of an output.
pub open spec fn line_level(line: Seq<char>, id: i64) -> Option<Seq<char>> {
    let parts = pieces(stripped(line, '~'), ',', ',');
    if parts.len() >= 4 && parts[0] == "OUTPUT"@ && parts[2] == "1"@ && integer_i64(parts[1])
        == Some(id) {
        Some(trimmed(parts[3]))
    } else {
        None
    }
}

/// The levels, as written, that some lines report of an output.
pub open spec fn line_levels(lines: Seq<Seq<char>>, id: i64) -> Seq<Seq<char>>
    decreases lines.len(),
{
    if lines.len() == 0 {
        Seq::empty()
    } else {
        let front = line_levels(lines.drop_last(), id);
        match line_level(lines.last(), id) {
            Some(level) => front.push(level),
            None => front,
        }
    }
}

/// The levels, as written, that an event reports of the device.
pub open spec fn event_levels(
    properties: Map<Seq<char>, Json>,
    note: Seq<char>,
    args: Map<Seq<char>, Json>,
) -> Seq<Seq<char>> {
    if note != "rx"@ {
        Seq::empty()
    } else {
        match (text_at(args, "data"@), device_id(properties)) {
            (Some(text), Some(id)) => line_levels(pieces(text, '\r', '\n'), id),
            _ => Seq::empty(),
        }
    }
}

/// A reading as a level from 0 to 100.
pub open spec fn capped(reading: Option<u8>) -> Option<u8> {
    match reading {
        Some(level) => Some(
            if level <= 100 {
                level
            } else {
                100
            },
        ),
        None => None,
    }
}

/// Whether a reader may turn a text into this level from 0 to 100.
pub open spec fn reads<F: Fn(&str) -> Option<u8>>(
    reading: F,
    text: Seq<char>,
    result: Option<u8>,
) -> bool {
    exists|s: &str, r: Option<u8>|
        s@ == text && #[trigger] call_ensures(reading, (s,), r) && result == capped(r)
}

/// Whether a reader may turn these texts into these levels from 0 to 100.
pub open spec fn read_by<F: Fn(&str) -> Option<u8>>(
    reading: F,
    levels: Seq<Seq<char>>,
    readings: Seq<Option<u8>>,
) -> bool {
    &&& readings.len() == levels.len()
    &&& forall|i: int| 0 <= i < levels.len() ==> reads(reading, levels[i], #[trigger] readings[i])
}

/// Whether a reader gives one answer per text.
pub open spec fn steady<F: Fn(&str) -> Option<u8>>(reading: F) -> bool {
    forall|text: Seq<char>, a: Option<u8>, b: Option<u8>|
        #[trigger] reads(reading, text, a) && #[trigger] reads(reading, text, b) ==> a == b
}

/// Whether an event may leave these notes behind and ask these calls of the host, its levels
/// read by the given reader.
pub open spec fn took_in<F: Fn(&str) -> Option<u8>>(
    reading: F,
    properties: Map<Seq<char>, Json>,
    scratch: Map<Seq<char>, Json>,
    note: Seq<char>,
    args: Map<Seq<char>, Json>,
    notes: Map<Seq<char>, Json>,
    out: Seq<Call>,
) -> bool {
    exists|readings: Seq<Option<u8>>|
        #[trigger] read_by(reading, event_levels(properties, note, args), readings) && notes
            == absorbed(scratch, readings).0 && out == reports(absorbed(scratch, readings).1)
}

/// What the host is asked to do when a device is bound: to note that it is online, and to
/// ask where the dimmer actually is rather than to take it for off.
pub open spec fn bind_calls(properties: Map<Seq<char>, Json>) -> Seq<Call> {
    match device_id(properties) {
        Some(id) => seq![online(), sent(query_line(id))],
        None => seq![online()],
    }
}

// ---------------------------------------------------------------------------------------
// The driver
// ---------------------------------------------------------------------------------------

/// Writes a fade in the notation of the integration port.
pub fn fade(seconds: u64) -> (text: String)
    ensures
        text@ == fade_text(seconds),
{
    if seconds >= 60 {
        let mut text = write_decimal(seconds / 60);
        text.append(":");
        text.append(write_two_digits(seconds % 60).as_str());
        text
    } else {
        write_decimal(seconds)
    }
}

/// A call that sends a text to the bridge.
fn transmit(text: String) -> (call: HostCall)
    ensures
        call@ == sent(text@),
{
    HostCall::Tx { control: NET, data: text.as_str().as_bytes_vec() }
}

/// A call that asks where an output is.
fn query(id: i64) -> (call: HostCall)
    ensures
        call@ == sent(query_line(id)),
{
    let mut line = "?OUTPUT,".to_owned();
    line.append(write_signed(id).as_str());
    line.append(",1\r\n");
    transmit(line)
}

impl CasetaDimmer {
    /// Reads the integration id of a device.
    pub fn integration_id(inst: &Instance) -> (id: Option<i64>)
        ensures
            id == device_id(inst.properties@),
    {
        match inst.property("Integration id") {
            Some(value) => match value {
                Datum::Unsigned(_) | Datum::Negative(_) => value.as_i64(),
                Datum::Text(s) => read_i64(s.as_str()),
                _ => None,
            },
            None => None,
        }
    }

    /// A call that orders something of the device, if it has an integration id.
    pub fn send(inst: &Instance, tail: &str) -> (call: Option<HostCall>)
        ensures
            match (call, device_id(inst.properties@)) {
                (Some(c), Some(id)) => c@ == sent(order_line(id, tail@)),
                (None, None) => true,
                _ => false,
            },
    {
        match Self::integration_id(inst) {
            Some(id) => {
                let mut line = "#OUTPUT,".to_owned();
                line.append(write_signed(id).as_str());
                line.append(",");
                line.append(tail);
                line.append("\r\n");
                Some(transmit(line))
            },
            None => None,
        }
    }

    /// The notice that the level has changed.
    pub fn report(level: u8) -> (call: HostCall)
        ensures
            call@ == level_changed(level),
    {
        crate::dimmer::report(level)
    }

    /// Carries out a command of the device's light proxy.
    pub fn on_command(
        &self,
        inst: &mut Instance,
        _proxy: LocalId,
        cmd: &str,
        args: &Args,
    ) -> (out: Vec<HostCall>)
        ensures
            final(inst).properties@ == old(inst).properties@,
            final(inst).scratch@ == command_notes(
                old(inst).properties@,
                old(inst).scratch@,
                cmd@,
                args@,
            ),
            calls(out@) == command_calls(
                old(inst).properties@,
                old(inst).scratch@,
                cmd@,
                args@,
            ),
    {
        let level = target_level(inst, cmd, args);
        let tail = match level {
            Some(l) => {
                let mut tail = "1,".to_owned();
                tail.append(write_decimal(l as u64).as_str());
                tail.append(",");
                tail.append(fade(fade_length(inst, args)).as_str());
                tail
            },
            None => if same(cmd, "ramp_start") {
                if ramps_up(args) {
                    "2".to_owned()
                } else {
                    "3".to_owned()
                }
            } else if same(cmd, "ramp_stop") {
                "4".to_owned()
            } else {
                let mut message = "caseta: unhandled `".to_owned();
                message.append(cmd);
                message.append("`");
                let out = vec![HostCall::warn(message.as_str())];
                assert(calls(out@) == seq![out@[0]@]);
                return out;
            },
        };
        let id = Self::integration_id(inst);
        let mut out: Vec<HostCall> = Vec::new();
        match (Self::send(inst, tail.as_str()), id) {
            (Some(order), Some(id)) => {
                out.push(order);
                match level {
                    Some(l) => {
                        settle(inst, l);
                        out.push(Self::report(l));
                    },
                    None => {
                        out.push(query(id));
                    },
                }
                assert(calls(out@) == seq![out@[0]@, out@[1]@]);
            },
            _ => {
                out.push(HostCall::warn("caseta: set the Integration id on this device first"));
                assert(calls(out@) == seq![out@[0]@]);
            },
        }
        out
    }

    /// Picks the levels, as written, that an event reports of the device.
    pub fn reported_levels(inst: &Instance, note: &str, args: &Args) -> (levels: Vec<String>)
        ensures
            texts(levels@) == event_levels(inst.properties@, note@, args@),
    {
        let mut levels: Vec<String> = Vec::new();
        assert(texts(levels@) == Seq::<Seq<char>>::empty());
        if !same(note, "rx") {
            return levels;
        }
        let text = match get_text(args, "data") {
            Some(text) => text,
            None => return levels,
        };
        let id = match Self::integration_id(inst) {
            Some(id) => id,
            None => return levels,
        };
        let lines = split(text, '\r', '\n');
        let ghost all = texts(lines@);
        let mut i: usize = 0;
        while i < lines.len()
            invariant
                i <= lines.len(),
                all == texts(lines@),
                texts(levels@) == line_levels(all.take(i as int), id),
            decreases lines.len() - i,
        {
            let ghost before = texts(levels@);
            assert(all.take(i + 1).drop_last() == all.take(i as int));
            let parts = split(strip(lines[i].as_str(), '~').as_str(), ',', ',');
            if parts.len() >= 4 && same(parts[0].as_str(), "OUTPUT") && same(parts[2].as_str(), "1")
                && read_i64(parts[1].as_str()) == Some(id) {
                levels.push(trim(parts[3].as_str()));
                assert(texts(levels@) == before.push(trimmed(texts(parts@)[3])));
            }
            i = i + 1;
        }
        assert(all.take(i as int) == all);
        levels
    }

    /// Takes in an event.  Bytes back from the bridge are how a wall dimmer press reaches
    /// the device's record; `reading` turns a level, as the bridge writes it, into a number,
    /// of which more than 100 counts as 100.
    pub fn on_event<F: Fn(&str) -> Option<u8>>(
        &self,
        inst: &mut Instance,
        _control: LocalId,
        note: &str,
        args: &Args,
        reading: F,
    ) -> (out: Vec<HostCall>)
        requires
            forall|text: &str| #[trigger] call_requires(reading, (text,)),
        ensures
            final(inst).properties@ == old(inst).properties@,
            took_in(
                reading,
                old(inst).properties@,
                old(inst).scratch@,
                note@,
                args@,
                final(inst).scratch@,
                calls(out@),
            ),
            reports_percentages(calls(out@)),
    {
        let levels = Self::reported_levels(inst, note, args);
        let mut readings: Vec<Option<u8>> = Vec::new();
        let mut i: usize = 0;
        while i < levels.len()
            invariant
                i <= levels.len(),
                forall|text: &str| #[trigger] call_requires(reading, (text,)),
                readings@.len() == i,
                at_most_full(readings@),
                forall|k: int|
                    0 <= k < i ==> reads(reading, levels@[k]@, #[trigger] readings@[k]),
            decreases levels.len() - i,
        {
            let text = levels[i].as_str();
            let r = reading(text);
            let level = match r {
                Some(n) => if n <= 100 {
                    Some(n)
                } else {
                    Some(100)
                },
                None => None,
            };
            assert(level == capped(r));
            assert(reads(reading, text@, level));
            readings.push(level);
            i = i + 1;
        }
        assert(read_by(reading, texts(levels@), readings@));
        proof {
            law_news_is_what_was_read(inst.scratch@, readings@);
        }
        record(inst, &readings)
    }

    /// Greets a device that was just bound.
    pub fn on_bind(&self, inst: &mut Instance) -> (out: Vec<HostCall>)
        ensures
            final(inst).properties@ == old(inst).properties@,
            final(inst).scratch@ == old(inst).scratch@,
            calls(out@) == bind_calls(old(inst).properties@),
    {
        let mut out = vec![report_online()];
        match Self::integration_id(inst) {
            Some(id) => {
                out.push(query(id));
                assert(calls(out@) == seq![out@[0]@, out@[1]@]);
            },
            None => {
                assert(calls(out@) == seq![out@[0]@]);
            },
        }
        out
    }
}

} // verus!
