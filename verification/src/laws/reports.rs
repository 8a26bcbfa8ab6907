//! What reports from the bridge come to, told by the lines and messages that come in.

use crate::dimmer::absorbed;
use crate::dimmer::reports;
use crate::host::Call;
use crate::integration;
use crate::json::Json;
use crate::laws::commands::holds;
use crate::laws::commands::notice;
use crate::laws::commands::noted;
use crate::laws::data::law_stripping_cuts_one_character;
use crate::laws::law_nothing_read_nothing_changed;
use crate::laws::law_status_line_is_read;
use crate::laws::lemma_note_keys;
use crate::leap;
use crate::serde::json_read;
use crate::text::integer;
use crate::text::law_one_piece;
use crate::text::law_pieces_add_up;
use crate::text::pieces;
use crate::text::trimmed;
use vstd::prelude::*;

verus! {

// ---------------------------------------------------------------------------------------
// Readings
// ---------------------------------------------------------------------------------------

/// Whether a level from the bridge has been taken in: where the dimmer is on record at that
/// level already, or as off where the level is zero, nothing happens; otherwise the level is
/// noted and notice of it is given.
pub open spec fn taken_in(
    scratch: Map<Seq<char>, Json>,
    level: int,
    notes: Map<Seq<char>, Json>,
    out: Seq<Call>,
) -> bool {
    if holds(scratch, "on"@, Json::Bool(level > 0)) && (level > 0 ==> holds(
        scratch,
        "level"@,
        Json::Integer(level),
    )) {
        notes == scratch && out.len() == 0
    } else {
        noted(scratch, level, notes) && out == seq![notice(level)]
    }
}

/// One reading is taken in as the level that it is; a reading that failed, or none at all,
/// changes nothing and is no news.
pub proof fn law_one_reading_is_taken_in(scratch: Map<Seq<char>, Json>, level: u8)
    ensures
        absorbed(scratch, Seq::empty()) == (scratch, Seq::<u8>::empty()),
        absorbed(scratch, seq![None]) == (scratch, Seq::<u8>::empty()),
        taken_in(
            scratch,
            level as int,
            absorbed(scratch, seq![Some(level)]).0,
            reports(absorbed(scratch, seq![Some(level)]).1),
        ),
{
    lemma_note_keys();
    reveal_with_fuel(absorbed, 2);
    assert(seq![Some(level)].drop_last() == Seq::<Option<u8>>::empty());
    assert(seq![None::<u8>].drop_last() == Seq::<Option<u8>>::empty());
    let (notes, news) = absorbed(scratch, seq![Some(level)]);
    if news.len() > 0 {
        assert(reports(news) =~= seq![notice(level as int)]);
    } else {
        assert(reports(news).len() == 0);
    }
}

/// Each level that is news brings one notice of just that level, in order.
pub proof fn law_news_brings_notices(levels: Seq<u8>)
    ensures
        reports(levels).len() == levels.len(),
        forall|i: int|
            0 <= i < levels.len() ==> #[trigger] reports(levels)[i] == notice(levels[i] as int),
{
}

// ---------------------------------------------------------------------------------------
// Status messages over LEAP
// ---------------------------------------------------------------------------------------

/// Whether a document is an object with a member.
pub open spec fn member(document: Json, key: Seq<char>, value: Json) -> bool {
    document is Object && holds(document->Object_0, key, value)
}

proof fn lemma_members(document: Json, key: Seq<char>, value: Json)
    requires
        key == "Body"@ || key == "ZoneStatus"@ || key == "Zone"@ || key == "href"@ || key
            == "Level"@,
    ensures
        member(document, key, value) <==> document.step(key) == Some(value),
{
    reveal_strlit("Body");
    reveal_strlit("ZoneStatus");
    reveal_strlit("Zone");
    reveal_strlit("href");
    reveal_strlit("Level");
    assert(!crate::text::is_digit(key[0]));
}

/// A status message is read by its members: of the zone under `/Body/ZoneStatus/Zone/href`, the
/// integer under `/Body/ZoneStatus/Level`, of which more than 100 counts as 100.
pub proof fn law_status_is_of_its_zone(
    message: Json,
    body: Json,
    status: Json,
    named: Json,
    zone: Seq<char>,
    level: int,
)
    requires
        member(message, "Body"@, body),
        member(body, "ZoneStatus"@, status),
        member(status, "Zone"@, named),
        member(named, "href"@, Json::Text(zone)),
        member(status, "Level"@, Json::Integer(level)),
        0 <= level <= u64::MAX,
    ensures
        level <= 100 ==> leap::status_level(message, zone) == Some(level as u8),
        level > 100 ==> leap::status_level(message, zone) == Some(100u8),
{
    lemma_members(message, "Body"@, body);
    lemma_members(body, "ZoneStatus"@, status);
    lemma_members(status, "Zone"@, named);
    lemma_members(named, "href"@, Json::Text(zone));
}

/// A status message that names another zone says nothing of a device, however alike the two
/// zones may be.
pub proof fn law_status_of_another_zone_is_passed_over(
    message: Json,
    body: Json,
    status: Json,
    named: Json,
    zone: Seq<char>,
    other: Json,
)
    requires
        member(message, "Body"@, body),
        member(body, "ZoneStatus"@, status),
        member(status, "Zone"@, named),
        member(named, "href"@, other),
        other != Json::Text(zone),
    ensures
        leap::status_level(message, zone) is None,
{
    lemma_members(message, "Body"@, body);
    lemma_members(body, "ZoneStatus"@, status);
    lemma_members(status, "Zone"@, named);
    lemma_members(named, "href"@, other);
}

/// Only a message that names the zone and holds a level for it says anything of a device.
pub proof fn law_only_status_is_read(message: Json, zone: Seq<char>)
    requires
        leap::status_level(message, zone) is Some,
    ensures
        exists|body: Json, status: Json, named: Json, level: int|
            #![trigger member(message, "Body"@, body), member(body, "ZoneStatus"@, status), member(status, "Zone"@, named), member(status, "Level"@, Json::Integer(level))]
            {
                &&& member(message, "Body"@, body)
                &&& member(body, "ZoneStatus"@, status)
                &&& member(status, "Zone"@, named)
                &&& member(named, "href"@, Json::Text(zone))
                &&& member(status, "Level"@, Json::Integer(level))
                &&& 0 <= level <= u64::MAX
            },
{
    let body = message.step("Body"@).unwrap();
    let status = body.step("ZoneStatus"@).unwrap();
    let named = status.step("Zone"@).unwrap();
    let href = named.step("href"@).unwrap();
    let level = status.get("Level"@).unwrap();
    lemma_members(message, "Body"@, body);
    lemma_members(body, "ZoneStatus"@, status);
    lemma_members(status, "Zone"@, named);
    lemma_members(named, "href"@, href);
    assert(member(status, "Level"@, Json::Integer(level->Integer_0)));
}

/// The messages of an event are read one by one, each for the zone of the device; without a
/// zone, and from a line that is no message, nothing is read.
pub proof fn law_messages_are_read_one_by_one(
    properties: Map<Seq<char>, Json>,
    messages: Seq<Option<Json>>,
    i: int,
)
    requires
        0 <= i < messages.len(),
    ensures
        leap::status_levels(properties, messages).len() == messages.len(),
        messages[i] is None ==> leap::status_levels(properties, messages)[i] is None,
        leap::zone_of(properties) is None ==> leap::status_levels(properties, messages)[i] is None,
        leap::zone_of(properties) matches Some(zone) ==> messages[i] matches Some(message)
            ==> leap::status_levels(properties, messages)[i] == leap::status_level(message, zone),
{
}

/// A line over LEAP that is a status of the device's zone is taken in as the level it holds,
/// more than 100 as 100; one that names another zone changes nothing and brings no notice.
pub proof fn law_status_line_is_taken_in(
    properties: Map<Seq<char>, Json>,
    scratch: Map<Seq<char>, Json>,
    args: Map<Seq<char>, Json>,
    line: Seq<char>,
    zone: Seq<char>,
    message: Json,
    body: Json,
    status: Json,
    named: Json,
    href: Seq<char>,
    level: int,
)
    requires
        leap::zone_of(properties) == Some(zone),
        holds(args, "data"@, Json::Text(line.push('\n'))),
        !line.contains('\n'),
        trimmed(line).len() > 0,
        member(message, "Body"@, body),
        member(body, "ZoneStatus"@, status),
        member(status, "Zone"@, named),
        member(named, "href"@, Json::Text(href)),
        member(status, "Level"@, Json::Integer(level)),
        0 <= level <= u64::MAX,
    ensures
        json_read(trimmed(line)) == Some(message) ==> ({
            let (notes, news) = absorbed(scratch, leap::event_levels(properties, "rx"@, args));
            &&& href != zone ==> notes == scratch && reports(news).len() == 0
            &&& href == zone ==> taken_in(
                scratch,
                if level <= 100 {
                    level
                } else {
                    100
                },
                notes,
                reports(news),
            )
        }),
{
    law_status_line_is_read(properties, args, line, zone);
    if json_read(trimmed(line)) == Some(message) {
        if href == zone {
            law_status_is_of_its_zone(message, body, status, named, zone, level);
            law_one_reading_is_taken_in(
                scratch,
                (if level <= 100 {
                    level
                } else {
                    100
                }) as u8,
            );
        } else {
            law_status_of_another_zone_is_passed_over(
                message,
                body,
                status,
                named,
                zone,
                Json::Text(href),
            );
            law_one_reading_is_taken_in(scratch, 0);
        }
    }
}

/// An event over LEAP is passed over where it is not of received bytes, brings no text, or is
/// of a device without a zone.
pub proof fn law_leap_passes_over_the_rest(
    properties: Map<Seq<char>, Json>,
    scratch: Map<Seq<char>, Json>,
    note: Seq<char>,
    args: Map<Seq<char>, Json>,
)
    requires
        note != "rx"@ || leap::zone_of(properties) is None || !args.dom().contains("data"@) || !(
        args["data"@] is Text),
    ensures
        absorbed(scratch, leap::event_levels(properties, note, args)) == (
            scratch,
            Seq::<u8>::empty(),
        ),
{
    law_nothing_read_nothing_changed(scratch, leap::event_levels(properties, note, args));
}

/// Lines of nothing but white space are passed over.
pub proof fn law_blank_lines_are_passed_over(
    properties: Map<Seq<char>, Json>,
    scratch: Map<Seq<char>, Json>,
    args: Map<Seq<char>, Json>,
    line: Seq<char>,
)
    requires
        holds(args, "data"@, Json::Text(line)),
        !line.contains('\n'),
        trimmed(line).len() == 0,
    ensures
        absorbed(scratch, leap::event_levels(properties, "rx"@, args)) == (
            scratch,
            Seq::<u8>::empty(),
        ),
{
    law_one_piece(line, '\n', '\n');
    reveal_with_fuel(leap::filled_lines, 2);
    assert(seq![line].drop_last() == Seq::<Seq<char>>::empty());
    assert(leap::event_lines("rx"@, args).len() == 0);
}

// ---------------------------------------------------------------------------------------
// Lines of the integration port
// ---------------------------------------------------------------------------------------

/// A line of four fields or more, after any number of tildes, reports the fourth field without
/// the white space around it, of the output that the second names, where the first is
/// `OUTPUT` and the third `1`; any other reports nothing.  What follows the fourth field is
/// passed over.
pub proof fn law_report_lines_are_read_by_fields(
    tildes: Seq<char>,
    kind: Seq<char>,
    output: Seq<char>,
    action: Seq<char>,
    level: Seq<char>,
    rest: Option<Seq<char>>,
    id: i64,
)
    requires
        forall|i: int| 0 <= i < tildes.len() ==> tildes[i] == '~',
        kind.len() == 0 || kind[0] != '~',
        !kind.contains(',') && !output.contains(',') && !action.contains(',') && !level.contains(
            ',',
        ),
    ensures
        ({
            let fields = kind + seq![','] + output + seq![','] + action + seq![','] + level;
            let line = tildes + match rest {
                Some(more) => fields + seq![','] + more,
                None => fields,
            };
            integration::line_level(line, id) == if kind == "OUTPUT"@ && action == "1"@ && integer(
                output,
            ) == Some(id as int) {
                Some(trimmed(level))
            } else {
                None
            }
        }),
{
    let end = match rest {
        Some(more) => level.push(',') + more,
        None => level,
    };
    let tail = action.push(',') + end;
    let middle = output.push(',') + tail;
    let whole = kind.push(',') + middle;
    let fields = kind + seq![','] + output + seq![','] + action + seq![','] + level;
    match rest {
        Some(more) => {
            assert(fields + seq![','] + more =~= whole);
            law_pieces_add_up(level, ',', more, ',', ',');
        },
        None => {
            assert(fields =~= whole);
        },
    }
    law_stripping_cuts_one_character(tildes, whole, '~');
    law_one_piece(kind, ',', ',');
    law_one_piece(output, ',', ',');
    law_one_piece(action, ',', ',');
    law_one_piece(level, ',', ',');
    law_pieces_add_up(action, ',', end, ',', ',');
    law_pieces_add_up(output, ',', tail, ',', ',');
    law_pieces_add_up(kind, ',', middle, ',', ',');
    let parts = pieces(whole, ',', ',');
    crate::text::law_pieces_are_some(end, ',', ',');
    assert(pieces(end, ',', ',')[0] == level);
    assert(parts[0] == kind && parts[1] == output && parts[2] == action && parts[3] == level);
    assert(parts.len() >= 4);
}

/// A line of fewer than four fields reports nothing.
pub proof fn law_short_lines_report_nothing(tildes: Seq<char>, fields: Seq<char>, id: i64)
    requires
        forall|i: int| 0 <= i < tildes.len() ==> tildes[i] == '~',
        fields.len() == 0 || fields[0] != '~',
        pieces(fields, ',', ',').len() < 4,
    ensures
        integration::line_level(tildes + fields, id) is None,
{
    law_stripping_cuts_one_character(tildes, fields, '~');
}

/// An event of one line reports what the line does; one that is not of received bytes, brings
/// no text, or is of a device without an integration id reports nothing.
pub proof fn law_one_line_reports_for_itself(
    properties: Map<Seq<char>, Json>,
    note: Seq<char>,
    args: Map<Seq<char>, Json>,
    line: Seq<char>,
)
    requires
        !line.contains('\r') && !line.contains('\n'),
    ensures
        note != "rx"@ || integration::device_id(properties) is None || !args.dom().contains(
            "data"@,
        ) || !(args["data"@] is Text) ==> integration::event_levels(properties, note, args).len()
            == 0,
        integration::device_id(properties) matches Some(id) ==> note == "rx"@ && holds(
            args,
            "data"@,
            Json::Text(line),
        ) ==> integration::event_levels(properties, note, args) == match integration::line_level(
            line,
            id,
        ) {
            Some(level) => seq![level],
            None => Seq::empty(),
        },
{
    law_one_piece(line, '\r', '\n');
    reveal_with_fuel(integration::line_levels, 2);
    assert(seq![line].drop_last() == Seq::<Seq<char>>::empty());
    if let Some(id) = integration::device_id(properties) {
        if let Some(level) = integration::line_level(line, id) {
            assert(Seq::<Seq<char>>::empty().push(level) == seq![level]);
        }
    }
}

/// An event that reports one level is taken in as what the reader makes of it, more than 100
/// as 100; where the reader makes nothing of it, nothing happens.
pub proof fn law_one_report_is_taken_in<F: Fn(&str) -> Option<u8>>(
    reading: F,
    properties: Map<Seq<char>, Json>,
    scratch: Map<Seq<char>, Json>,
    note: Seq<char>,
    args: Map<Seq<char>, Json>,
    level: Seq<char>,
    notes: Map<Seq<char>, Json>,
    out: Seq<Call>,
)
    requires
        integration::event_levels(properties, note, args) == seq![level],
        integration::took_in(reading, properties, scratch, note, args, notes, out),
    ensures
        exists|text: &str, answer: Option<u8>|
            text@ == level && #[trigger] call_ensures(reading, (text,), answer) && match answer {
                Some(n) => taken_in(
                    scratch,
                    if n <= 100 {
                        n as int
                    } else {
                        100
                    },
                    notes,
                    out,
                ),
                None => notes == scratch && out.len() == 0,
            },
{
    let levels = integration::event_levels(properties, note, args);
    let r = choose|r: Seq<Option<u8>>|
        #[trigger] integration::read_by(reading, levels, r) && notes == absorbed(scratch, r).0
            && out == reports(absorbed(scratch, r).1);
    assert(integration::reads(reading, levels[0], r[0]));
    let (text, answer) = choose|text: &str, answer: Option<u8>|
        text@ == levels[0] && #[trigger] call_ensures(reading, (text,), answer) && r[0]
            == integration::capped(answer);
    assert(r =~= seq![r[0]]);
    match r[0] {
        Some(n) => {
            law_one_reading_is_taken_in(scratch, n);
        },
        None => {
            law_one_reading_is_taken_in(scratch, 0);
        },
    }
    assert(text@ == level);
}

/// An event that reports no level changes nothing and brings no notice.
pub proof fn law_no_report_nothing_changed<F: Fn(&str) -> Option<u8>>(
    reading: F,
    properties: Map<Seq<char>, Json>,
    scratch: Map<Seq<char>, Json>,
    note: Seq<char>,
    args: Map<Seq<char>, Json>,
    notes: Map<Seq<char>, Json>,
    out: Seq<Call>,
)
    requires
        integration::event_levels(properties, note, args).len() == 0,
        integration::took_in(reading, properties, scratch, note, args, notes, out),
    ensures
        notes == scratch,
        out.len() == 0,
{
}

} // verus!
