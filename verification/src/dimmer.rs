//! What both drivers do with a dimmer's level: which level a command asks for, what is
//! noted down of it, and which reports from the bridge are news.
//!
//! A dimmer's scratch notes hold its last level above zero under `level`, and whether it
//! is on under `on`.

use crate::host::Args;
use crate::host::Call;
use crate::host::HostCall;
use crate::host::Instance;
use crate::host::calls;
use crate::json::Datum;
use crate::json::Json;
use crate::json::bool_at;
use crate::json::text_at;
use crate::json::get_bool;
use crate::json::get_text;
use crate::json::get_u64;
use crate::json::u64_at;
use crate::text::same;
use vstd::prelude::*;

verus! {

// ---------------------------------------------------------------------------------------
// Levels
// ---------------------------------------------------------------------------------------

/// The last eight bits of a number.
pub open spec fn low_byte(n: u64) -> u8 {
    (n % 256) as u8
}

/// The level on record, full where none is.
pub open spec fn remembered(scratch: Map<Seq<char>, Json>) -> u8 {
    match u64_at(scratch, "level"@) {
        Some(n) => low_byte(n),
        None => 100,
    }
}

/// The level at which a dimmer comes on again.
pub open spec fn restored(scratch: Map<Seq<char>, Json>) -> u8 {
    if remembered(scratch) == 0 {
        100
    } else {
        remembered(scratch)
    }
}

/// Whether the dimmer is on record as on.
pub open spec fn lit(scratch: Map<Seq<char>, Json>) -> bool {
    bool_at(scratch, "on"@) == Some(true)
}

/// The level that a command asks for, if it is one that asks for a level.
pub open spec fn target(
    cmd: Seq<char>,
    scratch: Map<Seq<char>, Json>,
    args: Map<Seq<char>, Json>,
) -> Option<u8> {
    if cmd == "on"@ {
        Some(restored(scratch))
    } else if cmd == "off"@ {
        Some(0)
    } else if cmd == "toggle"@ {
        Some(
            if lit(scratch) {
                0
            } else {
                restored(scratch)
            },
        )
    } else if cmd == "set_level"@ {
        Some(
            match u64_at(args, "level"@) {
                Some(n) => low_byte(n),
                None => 0,
            },
        )
    } else {
        None
    }
}

/// How many seconds a change of level is to take.
pub open spec fn fade_seconds(
    properties: Map<Seq<char>, Json>,
    args: Map<Seq<char>, Json>,
) -> u64 {
    match u64_at(args, "ramp_ms"@) {
        Some(ms) => ms / 1000,
        None => match u64_at(properties, "Default fade"@) {
            Some(seconds) => seconds,
            None => 1,
        },
    }
}

/// Whether a ramp is to go up.
pub open spec fn upward(args: Map<Seq<char>, Json>) -> bool {
    text_at(args, "direction"@) == Some("up"@)
}

/// The notes after a dimmer has gone to a level: the level itself unless it is zero, and
/// whether the dimmer is on.
pub open spec fn settled(scratch: Map<Seq<char>, Json>, level: u8) -> Map<Seq<char>, Json> {
    let noted = if level > 0 {
        scratch.insert("level"@, Json::Integer(level as int))
    } else {
        scratch
    };
    noted.insert("on"@, Json::Bool(level > 0))
}

/// Whether the notes already say that the dimmer is at a level: on and at it, or off where
/// the level is zero.
pub open spec fn known(scratch: Map<Seq<char>, Json>, level: u8) -> bool {
    if level > 0 {
        lit(scratch) && u64_at(scratch, "level"@) == Some(level as u64)
    } else {
        bool_at(scratch, "on"@) == Some(false)
    }
}

/// The notice that a dimmer's level has changed.
pub open spec fn level_changed(level: u8) -> Call {
    Call::Notify {
        proxy: 1,
        event: "level_changed"@,
        args: Map::empty().insert("level"@, Json::Integer(level as int)),
    }
}

/// The notice that a device is reachable.
pub open spec fn online() -> Call {
    Call::Notify {
        proxy: 1,
        event: "online_changed"@,
        args: Map::empty().insert("online"@, Json::Bool(true)),
    }
}

/// What a run of readings leaves behind: the notes, and the levels that were news.  A
/// reading that failed is passed over, and so is one that the notes agree with already.
pub open spec fn absorbed(scratch: Map<Seq<char>, Json>, readings: Seq<Option<u8>>) -> (
    Map<Seq<char>, Json>,
    Seq<u8>,
)
    decreases readings.len(),
{
    if readings.len() == 0 {
        (scratch, Seq::empty())
    } else {
        let (notes, news) = absorbed(scratch, readings.drop_last());
        match readings.last() {
            Some(level) => if known(notes, level) {
                (notes, news)
            } else {
                (settled(notes, level), news.push(level))
            },
            None => (notes, news),
        }
    }
}

/// The notices of a list of levels.
pub open spec fn reports(levels: Seq<u8>) -> Seq<Call> {
    Seq::new(levels.len(), |i: int| level_changed(levels[i]))
}

/// Whether the readings in a list are levels from 0 to 100.
pub open spec fn at_most_full(readings: Seq<Option<u8>>) -> bool {
    forall|i: int|
        0 <= i < readings.len() ==> (#[trigger] readings[i] matches Some(level) ==> level <= 100)
}

/// Whether some calls are notices of levels from 0 to 100.
pub open spec fn reports_percentages(out: Seq<Call>) -> bool {
    forall|i: int|
        0 <= i < out.len() ==> exists|level: u8|
            level <= 100 && #[trigger] out[i] == #[trigger] level_changed(level)
}

/// The news in readings from 0 to 100 is of levels from 0 to 100.
pub proof fn law_news_is_what_was_read(scratch: Map<Seq<char>, Json>, readings: Seq<Option<u8>>)
    requires
        at_most_full(readings),
    ensures
        reports_percentages(reports(absorbed(scratch, readings).1)),
    decreases readings.len(),
{
    if readings.len() > 0 {
        let front = readings.drop_last();
        assert(forall|i: int| 0 <= i < front.len() ==> front[i] == readings[i]);
        law_news_is_what_was_read(scratch, front);
        let (notes, news) = absorbed(scratch, front);
        assert(readings.last() == readings[readings.len() - 1]);
        if let Some(level) = readings.last() {
            assert(reports(news.push(level)) == reports(news).push(level_changed(level)));
            assert forall|i: int| 0 <= i < reports(news.push(level)).len() implies exists|l: u8|
                l <= 100 && #[trigger] reports(news.push(level))[i] == #[trigger] level_changed(
                    l,
                ) by {
                if i < reports(news).len() {
                    assert(reports(news)[i] == reports(news.push(level))[i]);
                } else {
                    assert(level <= 100);
                    assert(reports(news.push(level))[i] == level_changed(level));
                }
            }
        }
    }
}

/// Reads the level on record.
pub fn last_level(inst: &Instance) -> (level: u8)
    ensures
        level == remembered(inst.scratch@),
{
    match get_u64(&inst.scratch, "level") {
        Some(n) => (n % 256) as u8,
        None => 100,
    }
}

/// Decides which level a command asks for.
pub fn target_level(inst: &Instance, cmd: &str, args: &Args) -> (level: Option<u8>)
    ensures
        level == target(cmd@, inst.scratch@, args@),
{
    let last = last_level(inst);
    let back = if last == 0 {
        100u8
    } else {
        last
    };
    if same(cmd, "on") {
        Some(back)
    } else if same(cmd, "off") {
        Some(0)
    } else if same(cmd, "toggle") {
        match get_bool(&inst.scratch, "on") {
            Some(true) => Some(0),
            _ => Some(back),
        }
    } else if same(cmd, "set_level") {
        match get_u64(args, "level") {
            Some(n) => Some((n % 256) as u8),
            None => Some(0),
        }
    } else {
        None
    }
}

/// Works out how many seconds a change of level is to take.
pub fn fade_length(inst: &Instance, args: &Args) -> (seconds: u64)
    ensures
        seconds == fade_seconds(inst.properties@, args@),
{
    match get_u64(args, "ramp_ms") {
        Some(ms) => ms / 1000,
        None => match get_u64(&inst.properties, "Default fade") {
            Some(seconds) => seconds,
            None => 1,
        },
    }
}

/// Reads whether a ramp is to go up.
pub fn ramps_up(args: &Args) -> (up: bool)
    ensures
        up == upward(args@),
{
    match get_text(args, "direction") {
        Some(direction) => same(direction, "up"),
        None => false,
    }
}

/// Notes down that a dimmer has gone to a level.
pub fn settle(inst: &mut Instance, level: u8)
    ensures
        final(inst).properties@ == old(inst).properties@,
        final(inst).scratch@ == settled(old(inst).scratch@, level),
{
    if level > 0 {
        inst.scratch.insert("level".to_owned(), Datum::Unsigned(level as u64));
    }
    inst.scratch.insert("on".to_owned(), Datum::Bool(level > 0));
}

/// Reads whether the notes already say that the dimmer is at a level.
pub fn is_known(inst: &Instance, level: u8) -> (result: bool)
    ensures
        result == known(inst.scratch@, level),
{
    match get_bool(&inst.scratch, "on") {
        Some(on) => if level > 0 {
            on && (match get_u64(&inst.scratch, "level") {
                Some(n) => n == level as u64,
                None => false,
            })
        } else {
            !on
        },
        None => false,
    }
}

/// The notice that the level has changed.
pub fn report(level: u8) -> (call: HostCall)
    ensures
        call@ == level_changed(level),
{
    let mut args = Args::new();
    args.insert("level".to_owned(), Datum::Unsigned(level as u64));
    HostCall::notify(1, "level_changed", args)
}

/// The notice that the device is reachable.
pub fn report_online() -> (call: HostCall)
    ensures
        call@ == online(),
{
    let mut args = Args::new();
    args.insert("online".to_owned(), Datum::Bool(true));
    HostCall::notify(1, "online_changed", args)
}

/// Takes in what the bridge reported, one reading after the other.
pub fn record(inst: &mut Instance, readings: &Vec<Option<u8>>) -> (out: Vec<HostCall>)
    ensures
        final(inst).properties@ == old(inst).properties@,
        final(inst).scratch@ == absorbed(old(inst).scratch@, readings@).0,
        calls(out@) == reports(absorbed(old(inst).scratch@, readings@).1),
{
    let mut out: Vec<HostCall> = Vec::new();
    let mut i: usize = 0;
    assert(calls(out@) == reports(Seq::empty()));
    while i < readings.len()
        invariant
            i <= readings.len(),
            inst.properties@ == old(inst).properties@,
            inst.scratch@ == absorbed(old(inst).scratch@, readings@.take(i as int)).0,
            calls(out@) == reports(absorbed(old(inst).scratch@, readings@.take(i as int)).1),
        decreases readings.len() - i,
    {
        let ghost news = absorbed(old(inst).scratch@, readings@.take(i as int)).1;
        let ghost before = calls(out@);
        assert(readings@.take(i + 1).drop_last() == readings@.take(i as int));
        if let Some(level) = readings[i] {
            if !is_known(inst, level) {
                settle(inst, level);
                out.push(report(level));
                assert(calls(out@) == before.push(level_changed(level)));
                assert(reports(news.push(level)) == reports(news).push(level_changed(level)));
            }
        }
        i = i + 1;
    }
    assert(readings@.take(i as int) == readings@);
    out
}

} // verus!
