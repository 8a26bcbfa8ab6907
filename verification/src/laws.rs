//! What holds of the drivers as a whole, over any number of calls.
//!
//! [`commands`] and [`reports`] tell what commands and events come to by what is handed in and
//! out; [`data`] does so for the texts and documents that they are made of.

pub mod commands;
pub mod data;
pub mod reports;

use crate::dimmer::absorbed;
use crate::dimmer::fade_seconds;
use crate::dimmer::known;
use crate::dimmer::law_news_is_what_was_read;
use crate::dimmer::lit;
use crate::dimmer::remembered;
use crate::dimmer::reports;
use crate::dimmer::reports_percentages;
use crate::dimmer::restored;
use crate::dimmer::settled;
use crate::dimmer::target;
use crate::host::Call;
use crate::integration;
use crate::json::Json;
use crate::json::lookup;
use crate::json::text_at;
use crate::json::u64_at;
use crate::leap;
use crate::serde::json_read;
use crate::text::all_digits;
use crate::text::decimal;
use crate::text::digits_value;
use crate::text::integer;
use crate::text::is_digit;
use crate::text::law_decimals_read_back;
use crate::text::law_integers_read_back;
use crate::text::law_one_piece;
use crate::text::law_pieces_add_up;
use crate::text::law_two_digits;
use crate::text::law_two_digits_read_back;
use crate::text::pieces;
use crate::text::signed_decimal;
use crate::text::stripped;
use crate::text::trimmed;
use crate::text::two_digits;
use vstd::prelude::*;

verus! {

proof fn lemma_note_keys()
    ensures
        "level"@ != "on"@,
{
    reveal_strlit("level");
    reveal_strlit("on");
    assert("level"@.len() != "on"@.len());
}

// ---------------------------------------------------------------------------------------
// The record of a dimmer
// ---------------------------------------------------------------------------------------

/// Notes in which the level on record, if there is one, is above zero.
pub open spec fn above_zero(scratch: Map<Seq<char>, Json>) -> bool {
    u64_at(scratch, "level"@) != Some(0u64)
}

/// Once a dimmer has gone to a level, it is on record as on just if the level is above
/// zero; a level above zero is on record itself, and zero leaves the level on record.
/// Nothing else in the notes changes, and a report of the level from the bridge is no news.
pub proof fn law_settling_records_the_level(scratch: Map<Seq<char>, Json>, level: u8)
    ensures
        lit(settled(scratch, level)) == (level > 0),
        known(settled(scratch, level), level),
        level > 0 ==> remembered(settled(scratch, level)) == level,
        level > 0 ==> u64_at(settled(scratch, level), "level"@) == Some(level as u64),
        level == 0 ==> u64_at(settled(scratch, level), "level"@) == u64_at(scratch, "level"@),
        forall|key: Seq<char>|
            key != "level"@ && key != "on"@ ==> #[trigger] lookup(settled(scratch, level), key)
                == lookup(scratch, key),
{
    lemma_note_keys();
}

/// No command and no event of either driver ever puts a level of zero on record.
pub proof fn law_record_stays_above_zero(
    properties: Map<Seq<char>, Json>,
    scratch: Map<Seq<char>, Json>,
    cmd: Seq<char>,
    args: Map<Seq<char>, Json>,
    readings: Seq<Option<u8>>,
)
    requires
        above_zero(scratch),
    ensures
        above_zero(integration::command_notes(properties, scratch, cmd, args)),
        above_zero(leap::command_notes(properties, scratch, cmd, args)),
        above_zero(absorbed(scratch, readings).0),
    decreases readings.len(),
{
    lemma_note_keys();
    if readings.len() > 0 {
        law_record_stays_above_zero(properties, scratch, cmd, args, readings.drop_last());
    }
}

/// The level at which a dimmer comes on is never zero.
pub proof fn law_coming_on_is_visible(
    scratch: Map<Seq<char>, Json>,
    args: Map<Seq<char>, Json>,
)
    ensures
        target("on"@, scratch, args) == Some(restored(scratch)),
        restored(scratch) > 0,
{
}

/// A dimmer that was turned off comes on again at the level it would have come on at
/// before.
pub proof fn law_off_then_on_restores(
    scratch: Map<Seq<char>, Json>,
    args: Map<Seq<char>, Json>,
    later_args: Map<Seq<char>, Json>,
)
    ensures
        target("off"@, scratch, args) == Some(0u8),
        target("on"@, settled(scratch, 0), later_args) == target("on"@, scratch, args),
{
    lemma_note_keys();
    lemma_commands_differ();
}

/// A level that was set comes back after the dimmer was off, if it is above zero.
pub proof fn law_set_level_comes_back(
    scratch: Map<Seq<char>, Json>,
    args: Map<Seq<char>, Json>,
    later_args: Map<Seq<char>, Json>,
)
    requires
        target("set_level"@, scratch, args) != Some(0u8),
    ensures
        ({
            let level = target("set_level"@, scratch, args).unwrap();
            target("on"@, settled(settled(scratch, level), 0), later_args) == Some(level)
        }),
{
    lemma_note_keys();
    lemma_commands_differ();
}

/// Toggling turns a dimmer that is on off and one that is off on, and toggling again turns
/// it back.
pub proof fn law_toggle_turns_over(
    scratch: Map<Seq<char>, Json>,
    args: Map<Seq<char>, Json>,
    later_args: Map<Seq<char>, Json>,
)
    ensures
        ({
            let first = target("toggle"@, scratch, args).unwrap();
            let second = target("toggle"@, settled(scratch, first), later_args).unwrap();
            &&& (first == 0) == lit(scratch)
            &&& (second == 0) == !lit(scratch)
            &&& lit(settled(settled(scratch, first), second)) == lit(scratch)
            &&& restored(settled(settled(scratch, first), second)) == restored(scratch)
        }),
{
    lemma_note_keys();
    lemma_commands_differ();
}

proof fn lemma_commands_differ()
    ensures
        "on"@ != "off"@,
        "on"@ != "toggle"@,
        "off"@ != "toggle"@,
        "on"@ != "set_level"@,
        "off"@ != "set_level"@,
        "toggle"@ != "set_level"@,
        "ramp_start"@ != "on"@,
        "ramp_start"@ != "off"@,
        "ramp_start"@ != "toggle"@,
        "ramp_start"@ != "set_level"@,
        "ramp_stop"@ != "on"@,
        "ramp_stop"@ != "off"@,
        "ramp_stop"@ != "toggle"@,
        "ramp_stop"@ != "set_level"@,
        "ramp_stop"@ != "ramp_start"@,
{
    reveal_strlit("on");
    reveal_strlit("off");
    reveal_strlit("toggle");
    reveal_strlit("set_level");
    reveal_strlit("ramp_start");
    reveal_strlit("ramp_stop");
    assert("on"@.len() == 2);
    assert("off"@.len() == 3);
    assert("toggle"@.len() == 6);
    assert("set_level"@.len() == 9);
    assert("ramp_start"@.len() == 10);
    assert("ramp_stop"@.len() == 9);
    assert("set_level"@[0] == 's');
    assert("ramp_stop"@[0] == 'r');
}

/// Over the integration port a ramp leaves the record alone: its end is unknown until the
/// bridge reports it, so the bridge is asked.
pub proof fn law_ramp_asks_and_waits(
    properties: Map<Seq<char>, Json>,
    scratch: Map<Seq<char>, Json>,
    cmd: Seq<char>,
    args: Map<Seq<char>, Json>,
)
    requires
        cmd == "ramp_start"@ || cmd == "ramp_stop"@,
    ensures
        integration::command_notes(properties, scratch, cmd, args) == scratch,
        integration::device_id(properties) matches Some(id) ==> {
            &&& integration::command_calls(properties, scratch, cmd, args).len() == 2
            &&& integration::command_calls(properties, scratch, cmd, args)[1]
                == integration::sent(integration::query_line(id))
        },
{
    lemma_commands_differ();
}

/// A command that cannot be carried out leaves one warning and changes nothing; every other
/// command sends exactly one order and says what came of it.
pub proof fn law_refused_commands_change_nothing(
    properties: Map<Seq<char>, Json>,
    scratch: Map<Seq<char>, Json>,
    cmd: Seq<char>,
    args: Map<Seq<char>, Json>,
)
    ensures
        ({
            let out = integration::command_calls(properties, scratch, cmd, args);
            if integration::device_id(properties) is None || integration::order(
                properties,
                scratch,
                cmd,
                args,
            ) is None {
                &&& out.len() == 1
                &&& out[0] is Warn
                &&& integration::command_notes(properties, scratch, cmd, args) == scratch
            } else {
                out.len() == 2 && out[0] is Tx
            }
        }),
        ({
            let out = leap::command_calls(properties, scratch, cmd, args);
            if leap::zone_of(properties) is None || leap::order(properties, scratch, cmd, args)
                is None {
                &&& out.len() == 1
                &&& out[0] is Warn
                &&& leap::command_notes(properties, scratch, cmd, args) == scratch
            } else {
                out.len() == 2 && out[0] is Tx && out[1] is Notify
            }
        }),
{
}

// ---------------------------------------------------------------------------------------
// Reports from the bridge
// ---------------------------------------------------------------------------------------

/// It makes no difference whether readings come in one event or in two.
pub proof fn law_events_add_up(
    scratch: Map<Seq<char>, Json>,
    first: Seq<Option<u8>>,
    second: Seq<Option<u8>>,
)
    ensures
        ({
            let (notes, news) = absorbed(scratch, first);
            let (later_notes, later_news) = absorbed(notes, second);
            absorbed(scratch, first + second) == (later_notes, news + later_news)
        }),
    decreases second.len(),
{
    let (notes, news) = absorbed(scratch, first);
    if second.len() == 0 {
        assert(first + second == first);
        assert(news + Seq::<u8>::empty() == news);
    } else {
        law_events_add_up(scratch, first, second.drop_last());
        assert((first + second).drop_last() == first + second.drop_last());
        let (mid_notes, mid_news) = absorbed(notes, second.drop_last());
        if let Some(level) = second.last() {
            assert(news + mid_news.push(level) == (news + mid_news).push(level));
        }
    }
}

/// Readings that failed, or that are of other devices, change nothing and are no news.
pub proof fn law_nothing_read_nothing_changed(
    scratch: Map<Seq<char>, Json>,
    readings: Seq<Option<u8>>,
)
    requires
        forall|i: int| 0 <= i < readings.len() ==> readings[i] is None,
    ensures
        absorbed(scratch, readings) == (scratch, Seq::<u8>::empty()),
    decreases readings.len(),
{
    if readings.len() > 0 {
        law_nothing_read_nothing_changed(scratch, readings.drop_last());
    }
}

/// A reading that the record does not agree with is news, and the record then agrees with it.
pub proof fn law_news_brings_the_record_in_step(scratch: Map<Seq<char>, Json>, level: u8)
    requires
        !known(scratch, level),
    ensures
        ({
            let (notes, news) = absorbed(scratch, seq![Some(level)]);
            &&& news == seq![level]
            &&& known(notes, level)
            &&& lit(notes) == (level > 0)
            &&& level > 0 ==> remembered(notes) == level
        }),
{
    lemma_note_keys();
    reveal_with_fuel(absorbed, 2);
    assert(seq![Some(level)].drop_last() == Seq::<Option<u8>>::empty());
    assert(Seq::<u8>::empty().push(level) == seq![level]);
}

/// The record never goes stale: whatever was read before, after a reading the dimmer is on
/// record as on just if the reading is above zero, and then at that level.
pub proof fn law_record_follows_the_bridge(
    scratch: Map<Seq<char>, Json>,
    readings: Seq<Option<u8>>,
    level: u8,
)
    ensures
        ({
            let notes = absorbed(scratch, readings.push(Some(level))).0;
            &&& known(notes, level)
            &&& lit(notes) == (level > 0)
            &&& level > 0 ==> remembered(notes) == level
        }),
{
    lemma_note_keys();
    assert(readings.push(Some(level)).drop_last() == readings);
}

/// A reading that the record agrees with is no news and changes nothing.
pub proof fn law_known_readings_are_silent(scratch: Map<Seq<char>, Json>, level: u8)
    requires
        known(scratch, level),
    ensures
        absorbed(scratch, seq![Some(level)]) == (scratch, Seq::<u8>::empty()),
{
    reveal_with_fuel(absorbed, 2);
    assert(seq![Some(level)].drop_last() == Seq::<Option<u8>>::empty());
}

/// After a reading, the same reading once more is no news and changes nothing.
pub proof fn law_repeated_readings_are_silent(
    scratch: Map<Seq<char>, Json>,
    readings: Seq<Option<u8>>,
    level: u8,
)
    ensures
        ({
            let (notes, news) = absorbed(scratch, readings.push(Some(level)));
            absorbed(notes, seq![Some(level)]) == (notes, Seq::<u8>::empty())
        }),
{
    law_record_follows_the_bridge(scratch, readings, level);
    law_known_readings_are_silent(absorbed(scratch, readings.push(Some(level))).0, level);
}

/// A level that LEAP reports is at most 100, whatever the message says.
pub proof fn law_leap_levels_are_percentages(message: Json, zone: Seq<char>)
    ensures
        leap::status_level(message, zone) matches Some(level) ==> level <= 100,
{
}

/// Every level of which an event over LEAP brings notice is at most 100.
pub proof fn law_leap_reports_are_percentages(
    properties: Map<Seq<char>, Json>,
    scratch: Map<Seq<char>, Json>,
    note: Seq<char>,
    args: Map<Seq<char>, Json>,
)
    ensures
        reports_percentages(
            reports(absorbed(scratch, leap::event_levels(properties, note, args)).1),
        ),
{
    law_news_is_what_was_read(scratch, leap::event_levels(properties, note, args));
}

// ---------------------------------------------------------------------------------------
// The notations on the wire
// ---------------------------------------------------------------------------------------

proof fn lemma_digits_hold_no(s: Seq<char>, c: char)
    requires
        all_digits(s),
        !is_digit(c),
    ensures
        !s.contains(c),
{
    if s.contains(c) {
        let i = choose|i: int| 0 <= i < s.len() && s[i] == c;
        assert(is_digit(s[i]));
    }
}

/// A fade on the integration port says how long it takes: seconds below a minute, and from
/// a minute on minutes and seconds with two digits of seconds.
pub proof fn law_fade_says_its_length(seconds: u64)
    ensures
        seconds < 60 ==> integer(integration::fade_text(seconds)) == Some(seconds as int),
        seconds >= 60 ==> ({
            let parts = pieces(integration::fade_text(seconds), ':', ':');
            &&& parts.len() == 2
            &&& all_digits(parts[0])
            &&& all_digits(parts[1])
            &&& parts[1].len() == 2
            &&& digits_value(parts[1]) < 60
            &&& digits_value(parts[0]) * 60 + digits_value(parts[1]) == seconds
        }),
{
    if seconds < 60 {
        law_integers_read_back(seconds as int);
    } else {
        let minutes = decimal((seconds / 60) as nat);
        let rest = two_digits((seconds % 60) as nat);
        law_decimals_read_back((seconds / 60) as nat);
        law_two_digits((seconds % 60) as nat);
        lemma_digits_hold_no(minutes, ':');
        lemma_digits_hold_no(rest, ':');
        law_one_piece(minutes, ':', ':');
        law_one_piece(rest, ':', ':');
        law_pieces_add_up(minutes, ':', rest, ':', ':');
        reveal_strlit(":");
        assert(integration::fade_text(seconds) == minutes.push(':') + rest);
    }
}

/// A text without control characters, all of it ASCII.
pub open spec fn printable(s: Seq<char>) -> bool {
    forall|i: int| 0 <= i < s.len() ==> 0x20 <= (#[trigger] s[i]) as u32 <= 0x7e
}

/// A line of the integration port: printable ASCII, and a line end.
pub open spec fn ascii_line(s: Seq<char>) -> bool {
    exists|text: Seq<char>| #[trigger] printable(text) && s == text + "\r\n"@
}

proof fn lemma_digits_are_printable(s: Seq<char>)
    requires
        all_digits(s),
    ensures
        printable(s),
{
    assert forall|i: int| 0 <= i < s.len() implies 0x20 <= (#[trigger] s[i]) as u32 <= 0x7e by {
        assert(is_digit(s[i]));
    }
}

proof fn lemma_numbers_are_printable(n: int, seconds: u64)
    ensures
        printable(signed_decimal(n)),
        printable(integration::fade_text(seconds)),
{
    reveal_strlit(":");
    let magnitude: nat = if n < 0 {
        (-n) as nat
    } else {
        n as nat
    };
    law_decimals_read_back(magnitude);
    lemma_digits_are_printable(decimal(magnitude));
    law_decimals_read_back(seconds as nat);
    lemma_digits_are_printable(decimal(seconds as nat));
    law_decimals_read_back((seconds / 60) as nat);
    lemma_digits_are_printable(decimal((seconds / 60) as nat));
    law_two_digits((seconds % 60) as nat);
    lemma_digits_are_printable(two_digits((seconds % 60) as nat));
}

proof fn lemma_order_line_is_ascii(id: i64, tail: Seq<char>)
    requires
        printable(tail),
    ensures
        ascii_line(integration::order_line(id, tail)),
{
    lemma_numbers_are_printable(id as int, 0);
    reveal_strlit("#OUTPUT,");
    reveal_strlit(",");
    assert(printable("#OUTPUT,"@ + signed_decimal(id as int) + ","@ + tail));
}

proof fn lemma_query_line_is_ascii(id: i64)
    ensures
        ascii_line(integration::query_line(id)),
{
    lemma_numbers_are_printable(id as int, 0);
    reveal_strlit("?OUTPUT,");
    reveal_strlit(",1");
    reveal_strlit(",1\r\n");
    reveal_strlit("\r\n");
    let text = "?OUTPUT,"@ + signed_decimal(id as int) + ",1"@;
    assert(printable(text));
    assert(integration::query_line(id) == text + "\r\n"@);
}

proof fn lemma_order_is_printable(
    properties: Map<Seq<char>, Json>,
    scratch: Map<Seq<char>, Json>,
    cmd: Seq<char>,
    args: Map<Seq<char>, Json>,
)
    ensures
        integration::order(properties, scratch, cmd, args) matches Some(tail) ==> printable(tail),
{
    reveal_strlit("1,");
    reveal_strlit(",");
    reveal_strlit("2");
    reveal_strlit("3");
    reveal_strlit("4");
    if let Some(level) = target(cmd, scratch, args) {
        let fade = fade_seconds(properties, args);
        lemma_numbers_are_printable(level as int, fade);
        assert(signed_decimal(level as int) == decimal(level as nat));
    }
}

/// Whatever the driver of the integration port sends, on a command or when a device is
/// bound, is a line of ASCII.
pub proof fn law_sent_lines_are_ascii(
    properties: Map<Seq<char>, Json>,
    scratch: Map<Seq<char>, Json>,
    cmd: Seq<char>,
    args: Map<Seq<char>, Json>,
    call: Call,
)
    requires
        call is Tx,
        integration::command_calls(properties, scratch, cmd, args).contains(call)
            || integration::bind_calls(properties).contains(call),
    ensures
        exists|line: Seq<char>| #[trigger] ascii_line(line) && call == integration::sent(line),
{
    lemma_order_is_printable(properties, scratch, cmd, args);
    if let Some(id) = integration::device_id(properties) {
        lemma_query_line_is_ascii(id);
        if let Some(tail) = integration::order(properties, scratch, cmd, args) {
            lemma_order_line_is_ascii(id, tail);
        }
    }
}

/// A fade over LEAP says how long it takes: hours with at least two digits, minutes and
/// seconds with exactly two.
pub proof fn law_fade_time_says_its_length(seconds: u64)
    ensures
        ({
            let parts = pieces(leap::fade_time_text(seconds), ':', ':');
            &&& parts.len() == 3
            &&& forall|i: int| 0 <= i < 3 ==> all_digits(#[trigger] parts[i])
            &&& parts[0].len() >= 2
            &&& parts[1].len() == 2
            &&& parts[2].len() == 2
            &&& digits_value(parts[1]) < 60
            &&& digits_value(parts[2]) < 60
            &&& digits_value(parts[0]) * 3600 + digits_value(parts[1]) * 60 + digits_value(
                parts[2],
            ) == seconds
        }),
{
    let h = two_digits((seconds / 3600) as nat);
    let m = two_digits(((seconds % 3600) / 60) as nat);
    let s = two_digits((seconds % 60) as nat);
    law_two_digits_read_back((seconds / 3600) as nat);
    law_two_digits(((seconds % 3600) / 60) as nat);
    law_two_digits((seconds % 60) as nat);
    lemma_digits_hold_no(h, ':');
    lemma_digits_hold_no(m, ':');
    lemma_digits_hold_no(s, ':');
    law_one_piece(h, ':', ':');
    law_one_piece(m, ':', ':');
    law_one_piece(s, ':', ':');
    law_pieces_add_up(m, ':', s, ':', ':');
    law_pieces_add_up(h, ':', m.push(':') + s, ':', ':');
    reveal_strlit(":");
    assert(leap::fade_time_text(seconds) == h.push(':') + (m.push(':') + s));
    let parts = pieces(leap::fade_time_text(seconds), ':', ':');
    assert(parts == seq![h, m, s]);
    assert((seconds % 3600) % 60 == seconds % 60);
}

/// A line end in the bytes from the integration port.
pub open spec fn line_end(separator: Seq<char>) -> bool {
    separator == "\r\n"@ || separator == "\r"@ || separator == "\n"@
}

/// A line `~OUTPUT,<id>,1,<level>` from the bridge reports the level, as written, of the
/// device with that integration id, and of no other.  The line may end in any of the line
/// ends, or be the last one and end in none.
pub proof fn law_report_line_is_read(
    properties: Map<Seq<char>, Json>,
    args: Map<Seq<char>, Json>,
    mine: i64,
    id: i64,
    level: Seq<char>,
    end: Seq<char>,
)
    requires
        integration::device_id(properties) == Some(mine),
        text_at(args, "data"@) == Some(
            "~OUTPUT,"@ + signed_decimal(id as int) + ",1,"@ + level + end,
        ),
        line_end(end) || end.len() == 0,
        !level.contains(','),
        !level.contains('\r'),
        !level.contains('\n'),
    ensures
        integration::event_levels(properties, "rx"@, args) == if id == mine {
            seq![trimmed(level)]
        } else {
            Seq::empty()
        },
{
    let number = signed_decimal(id as int);
    let empty = Seq::<char>::empty();
    reveal_strlit("~OUTPUT,");
    reveal_strlit("OUTPUT");
    reveal_strlit(",1,");
    reveal_strlit("1");
    reveal_strlit("\r\n");
    reveal_strlit("\r");
    reveal_strlit("\n");
    lemma_signed_decimal_chars(id as int);
    law_integers_read_back(id as int);
    let fields = "OUTPUT"@.push(',') + (number.push(',') + ("1"@.push(',') + level));
    let line = seq!['~'] + fields;
    let text = "~OUTPUT,"@ + number + ",1,"@ + level + end;
    assert(text == line + end);
    assert forall|i: int| 0 <= i < line.len() implies line[i] != '\r' && line[i] != '\n' by {
        if line[i] == '\r' || line[i] == '\n' {
            let k = i - 8;
            if 0 <= k < number.len() {
                assert(line[i] == number[k]);
            } else if k >= number.len() + 3 {
                assert(line[i] == level[k - number.len() - 3]);
                assert(level.contains(line[i]));
            }
        }
    }
    law_one_piece(line, '\r', '\n');
    law_one_piece(empty, '\r', '\n');
    let lines = if end.len() == 0 {
        seq![line]
    } else if end == "\r\n"@ {
        seq![line, empty, empty]
    } else {
        seq![line, empty]
    };
    if end.len() == 0 {
        assert(text == line);
    } else if end == "\r\n"@ {
        assert(text == line.push('\r') + (empty.push('\n') + empty));
        law_pieces_add_up(empty, '\n', empty, '\r', '\n');
        law_pieces_add_up(line, '\r', empty.push('\n') + empty, '\r', '\n');
    } else {
        assert(text == line.push(end[0]) + empty);
        law_pieces_add_up(line, end[0], empty, '\r', '\n');
    }
    assert(pieces(text, '\r', '\n') == lines);
    reveal_with_fuel(crate::text::stripped, 2);
    assert(line.drop_first() == fields);
    assert(stripped(line, '~') == fields);
    assert(!"OUTPUT"@.contains(','));
    assert(!"1"@.contains(','));
    law_one_piece("OUTPUT"@, ',', ',');
    law_one_piece(number, ',', ',');
    law_one_piece("1"@, ',', ',');
    law_one_piece(level, ',', ',');
    law_pieces_add_up("1"@, ',', level, ',', ',');
    law_pieces_add_up(number, ',', "1"@.push(',') + level, ',', ',');
    law_pieces_add_up("OUTPUT"@, ',', number.push(',') + ("1"@.push(',') + level), ',', ',');
    assert(pieces(fields, ',', ',') == seq!["OUTPUT"@, number, "1"@, level]);
    let expected = if id == mine {
        seq![trimmed(level)]
    } else {
        Seq::empty()
    };
    assert(integration::line_level(line, id) == Some(trimmed(level)));
    assert(id != mine ==> integration::line_level(line, mine) is None);
    assert(stripped(empty, '~') == empty);
    law_one_piece(empty, ',', ',');
    assert(integration::line_level(empty, mine) is None);
    reveal_with_fuel(integration::line_levels, 4);
    assert(seq![line, empty, empty].drop_last() == seq![line, empty]);
    assert(seq![line, empty].drop_last() == seq![line]);
    assert(seq![line].drop_last() == Seq::<Seq<char>>::empty());
    assert(integration::line_levels(lines, mine) == expected);
}

proof fn lemma_signed_decimal_chars(n: int)
    ensures
        !signed_decimal(n).contains(','),
        forall|i: int|
            0 <= i < signed_decimal(n).len() ==> (#[trigger] signed_decimal(n)[i]) != '\r'
                && signed_decimal(n)[i] != '\n',
{
    let magnitude = if n < 0 {
        decimal((-n) as nat)
    } else {
        decimal(n as nat)
    };
    law_decimals_read_back(
        if n < 0 {
            (-n) as nat
        } else {
            n as nat
        },
    );
    assert forall|i: int| 0 <= i < signed_decimal(n).len() implies (#[trigger] signed_decimal(
        n,
    )[i]) != '\r' && signed_decimal(n)[i] != '\n' && signed_decimal(n)[i] != ',' by {
        let k = if n < 0 {
            i - 1
        } else {
            i
        };
        if k >= 0 {
            assert(is_digit(magnitude[k]));
        }
    }
}

/// A line from the bridge is one message, and reports the level of the device whose zone the
/// message names, and of no other.  The last line may go without a line break.
pub proof fn law_status_line_is_read(
    properties: Map<Seq<char>, Json>,
    args: Map<Seq<char>, Json>,
    line: Seq<char>,
    zone: Seq<char>,
)
    requires
        leap::zone_of(properties) == Some(zone),
        text_at(args, "data"@) == Some(line.push('\n')) || text_at(args, "data"@) == Some(line),
        !line.contains('\n'),
        trimmed(line).len() > 0,
    ensures
        leap::event_levels(properties, "rx"@, args) == seq![
            match json_read(trimmed(line)) {
                Some(message) => leap::status_level(message, zone),
                None => None,
            },
        ],
{
    let empty = Seq::<char>::empty();
    assert(line.push('\n') + empty == line.push('\n'));
    law_one_piece(line, '\n', '\n');
    law_one_piece(empty, '\n', '\n');
    law_pieces_add_up(line, '\n', empty, '\n', '\n');
    let lines = seq![line, empty];
    assert(pieces(line.push('\n'), '\n', '\n') == lines);
    reveal_with_fuel(leap::filled_lines, 3);
    assert(lines.drop_last() == seq![line]);
    assert(seq![line].drop_last() == Seq::<Seq<char>>::empty());
    assert(trimmed(empty) == empty);
    assert(leap::event_lines("rx"@, args) == seq![trimmed(line)]);
}

// ---------------------------------------------------------------------------------------
// Events in a row
// ---------------------------------------------------------------------------------------

proof fn lemma_line_levels_add_up(first: Seq<Seq<char>>, second: Seq<Seq<char>>, id: i64)
    ensures
        integration::line_levels(first + second, id) == integration::line_levels(first, id)
            + integration::line_levels(second, id),
    decreases second.len(),
{
    let front = integration::line_levels(first, id);
    if second.len() == 0 {
        assert(first + second == first);
        assert(front + Seq::<Seq<char>>::empty() == front);
    } else {
        lemma_line_levels_add_up(first, second.drop_last(), id);
        assert((first + second).drop_last() == first + second.drop_last());
        let mid = integration::line_levels(second.drop_last(), id);
        if let Some(level) = integration::line_level(second.last(), id) {
            assert(front + mid.push(level) == (front + mid).push(level));
        }
    }
}

proof fn lemma_reports_add_up(first: Seq<u8>, second: Seq<u8>)
    ensures
        reports(first + second) == reports(first) + reports(second),
{
    assert(reports(first + second) =~= reports(first) + reports(second));
}

/// The bytes of two events, with a line end between them, report what the two events report
/// one after the other.
pub proof fn law_report_texts_add_up(
    properties: Map<Seq<char>, Json>,
    note: Seq<char>,
    first: Map<Seq<char>, Json>,
    second: Map<Seq<char>, Json>,
    whole: Map<Seq<char>, Json>,
    a: Seq<char>,
    separator: Seq<char>,
    b: Seq<char>,
)
    requires
        text_at(first, "data"@) == Some(a),
        text_at(second, "data"@) == Some(b),
        text_at(whole, "data"@) == Some(a + separator + b),
        line_end(separator),
    ensures
        integration::event_levels(properties, note, whole) == integration::event_levels(
            properties,
            note,
            first,
        ) + integration::event_levels(properties, note, second),
{
    let empty = Seq::<char>::empty();
    reveal_strlit("\r\n");
    reveal_strlit("\r");
    reveal_strlit("\n");
    if let Some(id) = integration::device_id(properties) {
        let lines_a = pieces(a, '\r', '\n');
        let lines_b = pieces(b, '\r', '\n');
        lemma_line_levels_add_up(lines_a, lines_b, id);
        if separator == "\r\n"@ {
            let rest = empty.push('\n') + b;
            assert(a + separator + b == a.push('\r') + rest);
            law_one_piece(empty, '\r', '\n');
            law_pieces_add_up(empty, '\n', b, '\r', '\n');
            law_pieces_add_up(a, '\r', rest, '\r', '\n');
            assert(stripped(empty, '~') == empty);
            law_one_piece(empty, ',', ',');
            assert(integration::line_level(empty, id) is None);
            let blank = seq![empty];
            reveal_with_fuel(integration::line_levels, 2);
            assert(blank.drop_last() == Seq::<Seq<char>>::empty());
            assert(integration::line_levels(blank, id) == Seq::<Seq<char>>::empty());
            lemma_line_levels_add_up(blank, lines_b, id);
            lemma_line_levels_add_up(lines_a, blank + lines_b, id);
            let levels_b = integration::line_levels(lines_b, id);
            assert(Seq::<Seq<char>>::empty() + levels_b == levels_b);
        } else {
            let c = separator[0];
            assert(a + separator + b == a.push(c) + b);
            law_pieces_add_up(a, c, b, '\r', '\n');
        }
    }
    if note != "rx"@ || integration::device_id(properties) is None {
        let none = Seq::<Seq<char>>::empty();
        assert(none + none == none);
    }
}

/// On the integration port it makes no difference whether two texts come in one event, with a
/// line end between them, or in two events: the calls are the same and so are the notes.  The
/// reader of levels has to give one answer per text.
pub proof fn law_integration_events_add_up<F: Fn(&str) -> Option<u8>>(
    reading: F,
    properties: Map<Seq<char>, Json>,
    scratch: Map<Seq<char>, Json>,
    note: Seq<char>,
    first: Map<Seq<char>, Json>,
    second: Map<Seq<char>, Json>,
    whole: Map<Seq<char>, Json>,
    a: Seq<char>,
    separator: Seq<char>,
    b: Seq<char>,
    first_notes: Map<Seq<char>, Json>,
    first_out: Seq<Call>,
    second_notes: Map<Seq<char>, Json>,
    second_out: Seq<Call>,
    notes: Map<Seq<char>, Json>,
    out: Seq<Call>,
)
    requires
        integration::steady(reading),
        text_at(first, "data"@) == Some(a),
        text_at(second, "data"@) == Some(b),
        text_at(whole, "data"@) == Some(a + separator + b),
        line_end(separator),
        integration::took_in(
            reading,
            properties,
            scratch,
            note,
            first,
            first_notes,
            first_out,
        ),
        integration::took_in(
            reading,
            properties,
            first_notes,
            note,
            second,
            second_notes,
            second_out,
        ),
        integration::took_in(reading, properties, scratch, note, whole, notes, out),
    ensures
        notes == second_notes,
        out == first_out + second_out,
{
    let levels_a = integration::event_levels(properties, note, first);
    let levels_b = integration::event_levels(properties, note, second);
    let levels = integration::event_levels(properties, note, whole);
    law_report_texts_add_up(properties, note, first, second, whole, a, separator, b);
    let r_a = choose|r: Seq<Option<u8>>|
        #[trigger] integration::read_by(reading, levels_a, r) && first_notes == absorbed(
            scratch,
            r,
        ).0 && first_out == reports(absorbed(scratch, r).1);
    let r_b = choose|r: Seq<Option<u8>>|
        #[trigger] integration::read_by(reading, levels_b, r) && second_notes == absorbed(
            first_notes,
            r,
        ).0 && second_out == reports(absorbed(first_notes, r).1);
    let r = choose|r: Seq<Option<u8>>|
        #[trigger] integration::read_by(reading, levels, r) && notes == absorbed(scratch, r).0
            && out == reports(absorbed(scratch, r).1);
    assert forall|i: int| 0 <= i < r.len() implies r[i] == (r_a + r_b)[i] by {
        assert(integration::reads(reading, levels[i], r[i]));
        if i < r_a.len() {
            assert(integration::reads(reading, levels_a[i], r_a[i]));
        } else {
            assert(integration::reads(reading, levels_b[i - r_a.len()], r_b[i - r_a.len()]));
        }
    }
    assert(r == r_a + r_b);
    law_events_add_up(scratch, r_a, r_b);
    lemma_reports_add_up(absorbed(scratch, r_a).1, absorbed(first_notes, r_b).1);
}

proof fn lemma_filled_lines_add_up(first: Seq<Seq<char>>, second: Seq<Seq<char>>)
    ensures
        leap::filled_lines(first + second) == leap::filled_lines(first) + leap::filled_lines(
            second,
        ),
    decreases second.len(),
{
    let front = leap::filled_lines(first);
    if second.len() == 0 {
        assert(first + second == first);
        assert(front + Seq::<Seq<char>>::empty() == front);
    } else {
        lemma_filled_lines_add_up(first, second.drop_last());
        assert((first + second).drop_last() == first + second.drop_last());
        let mid = leap::filled_lines(second.drop_last());
        let line = trimmed(second.last());
        assert(front + mid.push(line) == (front + mid).push(line));
    }
}

/// Over LEAP it makes no difference whether two texts come in one event, with a line break
/// between them, or in two events: the notices are the same and so are the notes.
pub proof fn law_leap_events_add_up(
    properties: Map<Seq<char>, Json>,
    scratch: Map<Seq<char>, Json>,
    note: Seq<char>,
    first: Map<Seq<char>, Json>,
    second: Map<Seq<char>, Json>,
    whole: Map<Seq<char>, Json>,
    a: Seq<char>,
    b: Seq<char>,
)
    requires
        text_at(first, "data"@) == Some(a),
        text_at(second, "data"@) == Some(b),
        text_at(whole, "data"@) == Some(a + "\n"@ + b),
    ensures
        ({
            let (notes, news) = absorbed(scratch, leap::event_levels(properties, note, first));
            let (later_notes, later_news) = absorbed(
                notes,
                leap::event_levels(properties, note, second),
            );
            let (whole_notes, whole_news) = absorbed(
                scratch,
                leap::event_levels(properties, note, whole),
            );
            &&& whole_notes == later_notes
            &&& reports(whole_news) == reports(news) + reports(later_news)
        }),
{
    reveal_strlit("\n");
    assert(a + "\n"@ + b == a.push('\n') + b);
    law_pieces_add_up(a, '\n', b, '\n', '\n');
    lemma_filled_lines_add_up(pieces(a, '\n', '\n'), pieces(b, '\n', '\n'));
    let levels_a = leap::event_levels(properties, note, first);
    let levels_b = leap::event_levels(properties, note, second);
    assert(leap::event_lines(note, whole) == leap::event_lines(note, first) + leap::event_lines(
        note,
        second,
    ));
    assert(leap::event_levels(properties, note, whole) == levels_a + levels_b);
    law_events_add_up(scratch, levels_a, levels_b);
    let (notes, news) = absorbed(scratch, levels_a);
    lemma_reports_add_up(news, absorbed(notes, levels_b).1);
}

/// An event other than received bytes reports nothing to either driver.
pub proof fn law_other_events_report_nothing(
    properties: Map<Seq<char>, Json>,
    note: Seq<char>,
    args: Map<Seq<char>, Json>,
)
    requires
        note != "rx"@,
    ensures
        integration::event_levels(properties, note, args).len() == 0,
        leap::event_levels(properties, note, args).len() == 0,
{
}

} // verus!
