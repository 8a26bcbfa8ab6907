//! What each command does, told by the members of the device, of its notes and of the
//! arguments, and by what goes out.

use crate::host::Call;
use crate::integration;
use crate::json::Json;
use crate::laws::lemma_commands_differ;
use crate::laws::lemma_note_keys;
use crate::leap;
use crate::serde::json_text;
use crate::text::decimal;
use crate::text::signed_decimal;
use vstd::prelude::*;
use vstd::utf8::encode_utf8;

verus! {

/// Whether a table holds a value under a key.
pub open spec fn holds(table: Map<Seq<char>, Json>, key: Seq<char>, value: Json) -> bool {
    table.dom().contains(key) && table[key] == value
}

/// Whether a table holds an integer from 0 to 2^64 - 1 under a key.
pub open spec fn has_number(table: Map<Seq<char>, Json>, key: Seq<char>) -> bool {
    table.dom().contains(key) && table[key] is Integer && 0 <= table[key]->Integer_0 <= u64::MAX
}

/// The notice of a level.
pub open spec fn notice(level: int) -> Call {
    Call::Notify {
        proxy: 1,
        event: "level_changed"@,
        args: Map::empty().insert("level"@, Json::Integer(level)),
    }
}

/// Whether notes have become others by going to a level: a level above zero is noted, zero
/// keeps the level that was noted, and the rest stays.
pub open spec fn noted(
    scratch: Map<Seq<char>, Json>,
    level: int,
    notes: Map<Seq<char>, Json>,
) -> bool {
    &&& holds(notes, "on"@, Json::Bool(level > 0))
    &&& level > 0 ==> holds(notes, "level"@, Json::Integer(level))
    &&& forall|key: Seq<char>|
        key != "on"@ && (key != "level"@ || level == 0) ==> (#[trigger] notes.dom().contains(key)
            <==> scratch.dom().contains(key)) && (scratch.dom().contains(key) ==> notes[key]
            == scratch[key])
}

/// Whether a change of level is to take so many seconds: the whole seconds in `ramp_ms`, or
/// else the default of the device, or else one.
pub open spec fn takes(
    properties: Map<Seq<char>, Json>,
    args: Map<Seq<char>, Json>,
    seconds: u64,
) -> bool {
    &&& has_number(args, "ramp_ms"@) ==> seconds * 1000 <= args["ramp_ms"@]->Integer_0 < seconds
        * 1000 + 1000
    &&& !has_number(args, "ramp_ms"@) && has_number(properties, "Default fade"@) ==> seconds
        == properties["Default fade"@]->Integer_0
    &&& !has_number(args, "ramp_ms"@) && !has_number(properties, "Default fade"@) ==> seconds == 1
}

/// Whether a command sends a device behind the integration port to a level over so many
/// seconds, gives notice of that level and notes it.
pub open spec fn integration_goes_to(
    properties: Map<Seq<char>, Json>,
    scratch: Map<Seq<char>, Json>,
    cmd: Seq<char>,
    args: Map<Seq<char>, Json>,
    level: int,
    seconds: u64,
) -> bool {
    integration::device_id(properties) matches Some(id) ==> {
        let out = integration::command_calls(properties, scratch, cmd, args);
        &&& out.len() == 2
        &&& out[0] == (Call::Tx {
            control: 0,
            data: encode_utf8(
                "#OUTPUT,"@ + signed_decimal(id as int) + ",1,"@ + decimal(level as nat) + ","@
                    + integration::fade_text(seconds) + "\r\n"@,
            ),
        })
        &&& out[1] == notice(level)
        &&& noted(scratch, level, integration::command_notes(properties, scratch, cmd, args))
    }
}

/// Whether a command sends a zone to a level over so many seconds, gives notice of that level
/// and notes it.
pub open spec fn leap_goes_to(
    properties: Map<Seq<char>, Json>,
    scratch: Map<Seq<char>, Json>,
    cmd: Seq<char>,
    args: Map<Seq<char>, Json>,
    level: int,
    seconds: u64,
) -> bool {
    leap::zone_of(properties) matches Some(zone) ==> {
        let out = leap::command_calls(properties, scratch, cmd, args);
        &&& out.len() == 2
        &&& out[0] == (Call::Tx {
            control: 0,
            data: encode_utf8(json_text(level_request(zone, level, seconds)) + "\n"@),
        })
        &&& out[1] == notice(level)
        &&& noted(scratch, level, leap::command_notes(properties, scratch, cmd, args))
    }
}

/// A LEAP request that sets the level of a zone.
pub open spec fn level_request(zone: Seq<char>, level: int, seconds: u64) -> Json {
    let url = Map::empty().insert("Url"@, Json::Text(zone + "/commandprocessor"@));
    let parameters = Map::empty().insert("Level"@, Json::Integer(level)).insert(
        "FadeTime"@,
        Json::Text(leap::fade_time_text(seconds)),
    );
    let command = Map::empty().insert("CommandType"@, Json::Text("GoToDimmedLevel"@)).insert(
        "DimmedLevelParameters"@,
        Json::Object(parameters),
    );
    let body = Map::empty().insert("Command"@, Json::Object(command));
    Json::Object(
        Map::empty().insert("CommuniqueType"@, Json::Text("CreateRequest"@)).insert(
            "Header"@,
            Json::Object(url),
        ).insert("Body"@, Json::Object(body)),
    )
}

proof fn lemma_order_text(id: i64, level: u8, seconds: u64)
    ensures
        integration::order_line(
            id,
            "1,"@ + decimal(level as nat) + ","@ + integration::fade_text(seconds),
        ) == "#OUTPUT,"@ + signed_decimal(id as int) + ",1,"@ + decimal(level as nat) + ","@
            + integration::fade_text(seconds) + "\r\n"@,
{
    reveal_strlit("1,");
    reveal_strlit(",");
    reveal_strlit(",1,");
    assert(integration::order_line(
        id,
        "1,"@ + decimal(level as nat) + ","@ + integration::fade_text(seconds),
    ) =~= "#OUTPUT,"@ + signed_decimal(id as int) + ",1,"@ + decimal(level as nat) + ","@
        + integration::fade_text(seconds) + "\r\n"@);
}

proof fn lemma_goes_to(
    properties: Map<Seq<char>, Json>,
    scratch: Map<Seq<char>, Json>,
    cmd: Seq<char>,
    args: Map<Seq<char>, Json>,
    level: u8,
    seconds: u64,
)
    requires
        crate::dimmer::target(cmd, scratch, args) == Some(level),
        takes(properties, args, seconds),
    ensures
        integration_goes_to(properties, scratch, cmd, args, level as int, seconds),
        leap_goes_to(properties, scratch, cmd, args, level as int, seconds),
{
    lemma_note_keys();
    assert(seconds == crate::dimmer::fade_seconds(properties, args));
    if let Some(id) = integration::device_id(properties) {
        lemma_order_text(id, level, seconds);
    }
}

// ---------------------------------------------------------------------------------------
// Levels
// ---------------------------------------------------------------------------------------

/// `set_level` goes to exactly the level that was asked for.
pub proof fn law_set_level_is_obeyed(
    properties: Map<Seq<char>, Json>,
    scratch: Map<Seq<char>, Json>,
    args: Map<Seq<char>, Json>,
    level: int,
    seconds: u64,
)
    requires
        0 <= level <= 255,
        holds(args, "level"@, Json::Integer(level)),
        takes(properties, args, seconds),
    ensures
        crate::dimmer::target("set_level"@, scratch, args) == Some(level as u8),
        integration_goes_to(properties, scratch, "set_level"@, args, level, seconds),
        leap_goes_to(properties, scratch, "set_level"@, args, level, seconds),
{
    lemma_commands_differ();
    lemma_goes_to(properties, scratch, "set_level"@, args, level as u8, seconds);
}

/// Of a level beyond one byte, `set_level` goes to its last eight bits; without a level that
/// is an integer from zero on, it goes to zero.
pub proof fn law_set_level_otherwise(
    properties: Map<Seq<char>, Json>,
    scratch: Map<Seq<char>, Json>,
    args: Map<Seq<char>, Json>,
    level: int,
    seconds: u64,
)
    requires
        has_number(args, "level"@) ==> 0 <= level < 256 && (args["level"@]->Integer_0 - level) % 256
            == 0,
        !has_number(args, "level"@) ==> level == 0,
        takes(properties, args, seconds),
    ensures
        integration_goes_to(properties, scratch, "set_level"@, args, level, seconds),
        leap_goes_to(properties, scratch, "set_level"@, args, level, seconds),
{
    lemma_commands_differ();
    lemma_goes_to(properties, scratch, "set_level"@, args, level as u8, seconds);
}

/// `off` goes to zero, whatever else is known or asked.
pub proof fn law_off_goes_to_zero(
    properties: Map<Seq<char>, Json>,
    scratch: Map<Seq<char>, Json>,
    args: Map<Seq<char>, Json>,
    seconds: u64,
)
    requires
        takes(properties, args, seconds),
    ensures
        integration_goes_to(properties, scratch, "off"@, args, 0, seconds),
        leap_goes_to(properties, scratch, "off"@, args, 0, seconds),
{
    lemma_commands_differ();
    lemma_goes_to(properties, scratch, "off"@, args, 0, seconds);
}

/// `on` goes to the level on record, and so does `toggle` of a dimmer that is not on record as
/// on.
pub proof fn law_coming_on_goes_to_the_record(
    properties: Map<Seq<char>, Json>,
    scratch: Map<Seq<char>, Json>,
    cmd: Seq<char>,
    args: Map<Seq<char>, Json>,
    level: int,
    seconds: u64,
)
    requires
        cmd == "on"@ || cmd == "toggle"@ && !holds(scratch, "on"@, Json::Bool(true)),
        0 < level <= 255,
        holds(scratch, "level"@, Json::Integer(level)),
        takes(properties, args, seconds),
    ensures
        integration_goes_to(properties, scratch, cmd, args, level, seconds),
        leap_goes_to(properties, scratch, cmd, args, level, seconds),
{
    lemma_commands_differ();
    lemma_goes_to(properties, scratch, cmd, args, level as u8, seconds);
}

/// A dimmer comes on at full where no level is on record, or one that is zero or whose last
/// eight bits are; of another level beyond one byte the last eight bits count.
pub proof fn law_coming_on_otherwise(
    properties: Map<Seq<char>, Json>,
    scratch: Map<Seq<char>, Json>,
    cmd: Seq<char>,
    args: Map<Seq<char>, Json>,
    level: int,
    seconds: u64,
)
    requires
        cmd == "on"@ || cmd == "toggle"@ && !holds(scratch, "on"@, Json::Bool(true)),
        !has_number(scratch, "level"@) || scratch["level"@]->Integer_0 % 256 == 0 ==> level == 100,
        has_number(scratch, "level"@) && scratch["level"@]->Integer_0 % 256 != 0 ==> 0 < level < 256
            && (scratch["level"@]->Integer_0 - level) % 256 == 0,
        takes(properties, args, seconds),
    ensures
        integration_goes_to(properties, scratch, cmd, args, level, seconds),
        leap_goes_to(properties, scratch, cmd, args, level, seconds),
{
    lemma_commands_differ();
    lemma_goes_to(properties, scratch, cmd, args, level as u8, seconds);
}

/// `toggle` of a dimmer that is on record as on goes to zero.
pub proof fn law_toggle_of_a_lit_dimmer_goes_to_zero(
    properties: Map<Seq<char>, Json>,
    scratch: Map<Seq<char>, Json>,
    args: Map<Seq<char>, Json>,
    seconds: u64,
)
    requires
        holds(scratch, "on"@, Json::Bool(true)),
        takes(properties, args, seconds),
    ensures
        integration_goes_to(properties, scratch, "toggle"@, args, 0, seconds),
        leap_goes_to(properties, scratch, "toggle"@, args, 0, seconds),
{
    lemma_commands_differ();
    lemma_goes_to(properties, scratch, "toggle"@, args, 0, seconds);
}

// ---------------------------------------------------------------------------------------
// Ramps
// ---------------------------------------------------------------------------------------

/// Over LEAP a held button goes to full over four seconds where the direction is `up`, and to
/// one percent over four seconds where it is any other, or none.  `ramp_ms` and the default
/// fade have no say.
pub proof fn law_leap_ramps_follow_the_direction(
    properties: Map<Seq<char>, Json>,
    scratch: Map<Seq<char>, Json>,
    args: Map<Seq<char>, Json>,
)
    ensures
        holds(args, "direction"@, Json::Text("up"@)) ==> leap_goes_to(
            properties,
            scratch,
            "ramp_start"@,
            args,
            100,
            4,
        ),
        !holds(args, "direction"@, Json::Text("up"@)) ==> leap_goes_to(
            properties,
            scratch,
            "ramp_start"@,
            args,
            1,
            4,
        ),
{
    lemma_commands_differ();
    lemma_note_keys();
}

/// Over LEAP letting go of a button goes to the level on record at once, full where none is
/// on record; of a level beyond one byte the last eight bits count.
pub proof fn law_leap_ramps_stop_at_the_record(
    properties: Map<Seq<char>, Json>,
    scratch: Map<Seq<char>, Json>,
    args: Map<Seq<char>, Json>,
    level: int,
)
    requires
        has_number(scratch, "level"@) ==> 0 <= level < 256 && (scratch["level"@]->Integer_0 - level)
            % 256 == 0,
        !has_number(scratch, "level"@) ==> level == 100,
    ensures
        leap_goes_to(properties, scratch, "ramp_stop"@, args, level, 0),
{
    lemma_commands_differ();
    lemma_note_keys();
}

/// On the integration port a ramp orders 2 where the direction is `up`, 3 where it is any
/// other or none, and 4 to stop; each is followed by a query, and leaves the notes alone.
pub proof fn law_integration_ramps_follow_the_direction(
    properties: Map<Seq<char>, Json>,
    scratch: Map<Seq<char>, Json>,
    args: Map<Seq<char>, Json>,
    id: i64,
    cmd: Seq<char>,
    tail: Seq<char>,
)
    requires
        integration::device_id(properties) == Some(id),
        cmd == "ramp_start"@ && holds(args, "direction"@, Json::Text("up"@)) && tail == "2"@ || cmd
            == "ramp_start"@ && !holds(args, "direction"@, Json::Text("up"@)) && tail == "3"@ || cmd
            == "ramp_stop"@ && tail == "4"@,
    ensures
        integration::command_calls(properties, scratch, cmd, args) == seq![
            Call::Tx {
                control: 0,
                data: encode_utf8(
                    "#OUTPUT,"@ + signed_decimal(id as int) + ","@ + tail + "\r\n"@,
                ),
            },
            Call::Tx {
                control: 0,
                data: encode_utf8("?OUTPUT,"@ + signed_decimal(id as int) + ",1\r\n"@),
            },
        ],
        integration::command_notes(properties, scratch, cmd, args) == scratch,
{
    lemma_commands_differ();
}

// ---------------------------------------------------------------------------------------
// Commands that are not carried out
// ---------------------------------------------------------------------------------------

/// A command other than the six is answered by a warning that names it, and changes nothing.
pub proof fn law_other_commands_are_unhandled(
    properties: Map<Seq<char>, Json>,
    scratch: Map<Seq<char>, Json>,
    cmd: Seq<char>,
    args: Map<Seq<char>, Json>,
)
    requires
        cmd != "on"@ && cmd != "off"@ && cmd != "toggle"@ && cmd != "set_level"@,
        cmd != "ramp_start"@ && cmd != "ramp_stop"@,
    ensures
        integration::command_calls(properties, scratch, cmd, args) == seq![
            Call::Warn { message: "caseta: unhandled `"@ + cmd + "`"@ },
        ],
        integration::command_notes(properties, scratch, cmd, args) == scratch,
        leap::zone_of(properties) is Some ==> leap::command_calls(properties, scratch, cmd, args)
            == seq![Call::Warn { message: "caseta-leap: unhandled `"@ + cmd + "`"@ }],
        leap::command_notes(properties, scratch, cmd, args) == scratch,
{
}

/// A device that lacks its address, an integration id or a zone, answers the six commands by a
/// warning that says what to do, and nothing changes.
pub proof fn law_unaddressed_devices_say_so(
    properties: Map<Seq<char>, Json>,
    scratch: Map<Seq<char>, Json>,
    cmd: Seq<char>,
    args: Map<Seq<char>, Json>,
)
    requires
        cmd == "on"@ || cmd == "off"@ || cmd == "toggle"@ || cmd == "set_level"@ || cmd
            == "ramp_start"@ || cmd == "ramp_stop"@,
    ensures
        integration::device_id(properties) is None ==> integration::command_calls(
            properties,
            scratch,
            cmd,
            args,
        ) == seq![
            Call::Warn { message: "caseta: set the Integration id on this device first"@ },
        ],
        integration::device_id(properties) is None ==> integration::command_notes(
            properties,
            scratch,
            cmd,
            args,
        ) == scratch,
        leap::zone_of(properties) is None ==> leap::command_calls(properties, scratch, cmd, args)
            == seq![
            Call::Warn {
                message:
                    "caseta-leap: this device has no Zone — adopt it through the bridge's setup flow"@,
            },
        ],
        leap::zone_of(properties) is None ==> leap::command_notes(properties, scratch, cmd, args)
            == scratch,
{
}

// ---------------------------------------------------------------------------------------
// Devices
// ---------------------------------------------------------------------------------------

/// The zone of a device is the text under `Zone`, if it is not empty.
pub proof fn law_zone_is_a_property(properties: Map<Seq<char>, Json>, zone: Seq<char>)
    ensures
        leap::zone_of(properties) == Some(zone) <==> zone.len() > 0 && holds(
            properties,
            "Zone"@,
            Json::Text(zone),
        ),
{
}

/// The integration id of a device is the integer under `Integration id`, or the one that the
/// text there stands for; either has to fit 64 bits with a sign.
pub proof fn law_integration_id_is_a_property(properties: Map<Seq<char>, Json>, id: i64)
    ensures
        integration::device_id(properties) == Some(id) <==> properties.dom().contains(
            "Integration id"@,
        ) && (match properties["Integration id"@] {
            Json::Integer(n) => n == id,
            Json::Text(text) => crate::text::integer(text) == Some(id as int),
            _ => false,
        }),
{
}

/// A device that is bound is said to be online; one with an integration id is asked where it
/// is, and one with a zone is subscribed to.
pub proof fn law_binding_greets_the_device(properties: Map<Seq<char>, Json>)
    ensures
        ({
            let online = Call::Notify {
                proxy: 1,
                event: "online_changed"@,
                args: Map::empty().insert("online"@, Json::Bool(true)),
            };
            &&& integration::bind_calls(properties) == match integration::device_id(properties) {
                Some(id) => seq![
                    online,
                    Call::Tx {
                        control: 0,
                        data: encode_utf8("?OUTPUT,"@ + signed_decimal(id as int) + ",1\r\n"@),
                    },
                ],
                None => seq![online],
            }
            &&& leap::bind_calls(properties) == match leap::zone_of(properties) {
                Some(zone) => seq![
                    online,
                    Call::Tx {
                        control: 0,
                        data: encode_utf8(
                            json_text(
                                Json::Object(
                                    Map::empty().insert(
                                        "CommuniqueType"@,
                                        Json::Text("SubscribeRequest"@),
                                    ).insert(
                                        "Header"@,
                                        Json::Object(
                                            Map::empty().insert(
                                                "Url"@,
                                                Json::Text(zone + "/status"@),
                                            ),
                                        ),
                                    ),
                                ),
                            ) + "\n"@,
                        ),
                    },
                ],
                None => seq![online],
            }
        }),
{
}

} // verus!
