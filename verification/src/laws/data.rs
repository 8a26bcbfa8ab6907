//! What texts, numbers and documents are, told by their characters and members.

use crate::csr::outcome_view;
use crate::host::Call;
use crate::host::Candidate;
use crate::host::Field;
use crate::host::HostCall;
use crate::host::HttpRequest;
use crate::host::SetupStep;
use crate::host::Step;
use crate::host::calls;
use crate::host::offers;
use crate::integration;
use crate::json::Datum;
use crate::json::Json;
use crate::json::Object;
use crate::json::bool_at;
use crate::json::heard;
use crate::json::lookup;
use crate::json::seen;
use crate::json::table_of;
use crate::json::text_at;
use crate::json::tree_of;
use crate::json::trees;
use crate::json::u64_at;
use crate::laws::commands::holds;
use crate::leap;
use crate::serde::json_text;
use crate::setup::BRIDGE_ID;
use crate::setup::DIMMER_ID;
use crate::text::decimal;
use crate::text::digits_value;
use crate::text::integer;
use crate::text::integer_i64;
use crate::text::position;
use crate::text::signed_decimal;
use crate::text::stripped;
use crate::text::texts;
use crate::text::trimmed;
use crate::text::trimmed_end;
use crate::text::trimmed_start;
use crate::text::two_digits;
use crate::text::white_space;
use vstd::prelude::*;
use vstd::utf8::encode_utf8;

verus! {

// ---------------------------------------------------------------------------------------
// Numbers
// ---------------------------------------------------------------------------------------

/// A number below ten is one digit, and every other is the number without its last digit, and
/// that digit.
pub proof fn law_decimals_digit_by_digit(n: nat, d: nat)
    requires
        d < 10,
    ensures
        decimal(d).len() == 1,
        decimal(d)[0] as u32 == '0' as u32 + d,
        n > 0 ==> decimal(n * 10 + d) == decimal(n) + decimal(d),
        signed_decimal(n as int) == decimal(n),
        n > 0 ==> signed_decimal(-(n as int)) == seq!['-'] + decimal(n),
        two_digits(d) == seq!['0'] + decimal(d),
        n >= 10 ==> two_digits(n) == decimal(n),
{
    if n > 0 {
        let m = (n * 10 + d) as nat;
        assert(m / 10 == n && m % 10 == d);
        assert(decimal(m) =~= decimal(n) + decimal(d));
    }
}

/// The value of digits is ten times the value without the last, and the last.
pub proof fn law_digits_count_by_ten(s: Seq<char>, c: char)
    requires
        '0' as u32 <= c as u32 <= '9' as u32,
    ensures
        digits_value(Seq::empty()) == 0,
        digits_value(s.push(c)) == digits_value(s) * 10 + (c as u32 - '0' as u32),
{
    assert(s.push(c).drop_last() == s);
}

/// A text stands for an integer just if it is one digit or more, perhaps after one sign.
pub proof fn law_integers_are_digits_after_a_sign(s: Seq<char>)
    ensures
        ({
            let digits = s.len() > 0 && forall|i: int|
                0 <= i < s.len() ==> '0' as u32 <= (#[trigger] s[i]) as u32 <= '9' as u32;
            &&& digits ==> integer(s) == Some(digits_value(s) as int)
            &&& digits ==> integer(seq!['+'] + s) == Some(digits_value(s) as int)
            &&& digits ==> integer(seq!['-'] + s) == Some(-(digits_value(s) as int))
            &&& !digits ==> integer(seq!['+'] + s) is None
            &&& !digits ==> integer(seq!['-'] + s) is None
            &&& !digits && (s.len() == 0 || s[0] != '+' && s[0] != '-') ==> integer(s) is None
        }),
{
    let plus = seq!['+'] + s;
    let minus = seq!['-'] + s;
    assert(plus.drop_first() == s);
    assert(minus.drop_first() == s);
    if s.len() > 0 {
        assert(crate::text::is_digit(s[0]) ==> s[0] != '+' && s[0] != '-');
    }
    assert(crate::text::all_digits(s) <==> s.len() > 0 && forall|i: int|
        0 <= i < s.len() ==> '0' as u32 <= (#[trigger] s[i]) as u32 <= '9' as u32);
}

/// A text stands for an integer of 64 bits just if the integer that it stands for is one.
pub proof fn law_integers_fit_64_bits(s: Seq<char>, n: i64)
    ensures
        integer_i64(s) == Some(n) <==> integer(s) == Some(n as int),
{
}

proof fn lemma_digit_written_back(c: char)
    requires
        crate::text::is_digit(c),
    ensures
        decimal((c as u32 - 0x30) as nat) == seq![c],
        c != '0' ==> c as u32 > 0x30,
{
    assert(decimal((c as u32 - 0x30) as nat) =~= seq![c]);
}

proof fn lemma_leading_digit(s: Seq<char>)
    requires
        crate::text::all_digits(s),
        s[0] != '0',
    ensures
        digits_value(s) > 0,
    decreases s.len(),
{
    reveal_with_fuel(digits_value, 2);
    assert(crate::text::is_digit(s[0]));
    assert(crate::text::is_digit(s[s.len() - 1]));
    lemma_digit_written_back(s[0]);
    if s.len() > 1 {
        lemma_leading_digit(s.drop_last());
    } else {
        assert(s.drop_last() == Seq::<char>::empty());
        assert(s.last() == s[0]);
    }
}

proof fn lemma_digits_written_back(s: Seq<char>)
    requires
        crate::text::all_digits(s),
        s[0] != '0' || s.len() == 1,
    ensures
        decimal(digits_value(s)) == s,
    decreases s.len(),
{
    let front = s.drop_last();
    let c = s.last();
    assert(crate::text::is_digit(s[s.len() - 1]));
    let d = (c as u32 - 0x30) as nat;
    lemma_digit_written_back(c);
    if s.len() == 1 {
        assert(front == Seq::<char>::empty());
        assert(digits_value(front) == 0);
        assert(digits_value(s) == d);
        assert(decimal(d) =~= s);
    } else {
        assert(crate::text::all_digits(front));
        lemma_leading_digit(front);
        lemma_digits_written_back(front);
        law_decimals_digit_by_digit(digits_value(front), d);
        assert(decimal(d) =~= seq![c]);
        assert(front + seq![c] =~= s);
    }
}

/// A text names a position just if it is that position in decimal.
pub proof fn law_positions_are_decimals(token: Seq<char>, n: nat)
    ensures
        position(token) == Some(n) <==> token == decimal(n),
{
    crate::text::law_decimals_read_back(n);
    lemma_no_leading_zero(n);
    if position(token) == Some(n) {
        lemma_digits_written_back(token);
    }
}

proof fn lemma_no_leading_zero(n: nat)
    ensures
        decimal(n).len() > 0,
        decimal(n)[0] != '0' || decimal(n).len() == 1,
        n > 0 ==> decimal(n)[0] != '0',
    decreases n,
{
    if n >= 10 {
        lemma_no_leading_zero(n / 10);
    }
}

/// A fade on the integration port below a minute is its seconds; from a minute on it is its
/// minutes, a colon, and the seconds that are left with two digits.  A fade over LEAP is its
/// hours, minutes and seconds with two digits or more, colons between them.
pub proof fn law_fades_are_written(hours: nat, minutes: nat, seconds: nat)
    requires
        minutes < 60,
        seconds < 60,
        hours * 3600 + minutes * 60 + seconds <= u64::MAX,
    ensures
        integration::fade_text(seconds as u64) == decimal(seconds),
        hours * 60 + minutes > 0 ==> integration::fade_text(
            (hours * 3600 + minutes * 60 + seconds) as u64,
        ) == decimal(hours * 60 + minutes) + seq![':'] + two_digits(seconds),
        leap::fade_time_text((hours * 3600 + minutes * 60 + seconds) as u64) == two_digits(hours)
            + seq![':'] + two_digits(minutes) + seq![':'] + two_digits(seconds),
{
    reveal_strlit(":");
    assert(":"@ =~= seq![':']);
    let all = (hours * 3600 + minutes * 60 + seconds) as u64;
    assert(all / 60 == hours * 60 + minutes);
    assert(all % 60 == seconds);
    assert(all / 3600 == hours);
    assert((all % 3600) / 60 == minutes);
}

// ---------------------------------------------------------------------------------------
// Texts
// ---------------------------------------------------------------------------------------

proof fn lemma_trimmed_start(s: Seq<char>) -> (i: int)
    ensures
        0 <= i <= s.len(),
        trimmed_start(s) == s.subrange(i, s.len() as int),
        forall|k: int| 0 <= k < i ==> white_space(#[trigger] s[k]),
        i < s.len() ==> !white_space(s[i]),
    decreases s.len(),
{
    if s.len() > 0 && white_space(s[0]) {
        let rest = s.drop_first();
        let i = lemma_trimmed_start(rest);
        assert(rest.subrange(i, rest.len() as int) =~= s.subrange(i + 1, s.len() as int));
        assert forall|k: int| 0 <= k < i + 1 implies white_space(#[trigger] s[k]) by {
            if k > 0 {
                assert(rest[k - 1] == s[k]);
            }
        }
        if i < rest.len() {
            assert(rest[i] == s[i + 1]);
        }
        i + 1
    } else {
        assert(s.subrange(0, s.len() as int) =~= s);
        0
    }
}

proof fn lemma_trimmed_end(s: Seq<char>) -> (j: int)
    ensures
        0 <= j <= s.len(),
        trimmed_end(s) == s.subrange(0, j),
        forall|k: int| j <= k < s.len() ==> white_space(#[trigger] s[k]),
        j > 0 ==> !white_space(s[j - 1]),
    decreases s.len(),
{
    if s.len() > 0 && white_space(s.last()) {
        let rest = s.drop_last();
        let j = lemma_trimmed_end(rest);
        assert(rest.subrange(0, j) =~= s.subrange(0, j));
        assert forall|k: int| j <= k < s.len() implies white_space(#[trigger] s[k]) by {
            if k < rest.len() {
                assert(rest[k] == s[k]);
            }
        }
        j
    } else {
        assert(s.subrange(0, s.len() as int) =~= s);
        s.len() as int
    }
}

/// Trimming a text cuts white space off both ends, all of it, and nothing else.
pub proof fn law_trimming_cuts_white_space(s: Seq<char>) -> (ends: (int, int))
    ensures
        0 <= ends.0 <= ends.1 <= s.len(),
        trimmed(s) == s.subrange(ends.0, ends.1),
        forall|k: int| 0 <= k < ends.0 || ends.1 <= k < s.len() ==> white_space(#[trigger] s[k]),
        trimmed(s).len() > 0 ==> !white_space(trimmed(s)[0]) && !white_space(trimmed(s).last()),
{
    let i = lemma_trimmed_start(s);
    let mid = s.subrange(i, s.len() as int);
    let j = lemma_trimmed_end(mid);
    assert(mid.subrange(0, j) =~= s.subrange(i, i + j));
    assert forall|k: int| 0 <= k < i || i + j <= k < s.len() implies white_space(
        #[trigger] s[k],
    ) by {
        if k >= i {
            assert(mid[k - i] == s[k]);
        }
    }
    (i, i + j)
}

/// Stripping a character off a text cuts it off the start as often as it stands there.
pub proof fn law_stripping_cuts_one_character(front: Seq<char>, rest: Seq<char>, c: char)
    requires
        forall|i: int| 0 <= i < front.len() ==> front[i] == c,
        rest.len() == 0 || rest[0] != c,
    ensures
        stripped(front + rest, c) == rest,
    decreases front.len(),
{
    if front.len() == 0 {
        assert(front + rest == rest);
    } else {
        assert((front + rest).drop_first() == front.drop_first() + rest);
        law_stripping_cuts_one_character(front.drop_first(), rest, c);
    }
}

// ---------------------------------------------------------------------------------------
// Documents
// ---------------------------------------------------------------------------------------

/// A document is taken for what it is and for nothing else: a number is not read from a text,
/// nor a truth value from a number.
pub proof fn law_documents_are_what_they_are(
    document: Json,
    text: Seq<char>,
    unsigned: u64,
    signed: i64,
    truth: bool,
    items: Seq<Json>,
    table: Map<Seq<char>, Json>,
)
    ensures
        document.as_str() == Some(text) <==> document == Json::Text(text),
        document.as_u64() == Some(unsigned) <==> document == Json::Integer(unsigned as int),
        document.as_i64() == Some(signed) <==> document == Json::Integer(signed as int),
        document.as_bool() == Some(truth) <==> document == Json::Bool(truth),
        document.as_array() == Some(items) <==> document == Json::Array(items),
        document.as_object() == Some(table) <==> document == Json::Object(table),
{
}

/// What stands under a key is found under that key, and nothing else is.
pub proof fn law_members_stand_under_their_keys(
    table: Map<Seq<char>, Json>,
    key: Seq<char>,
    value: Json,
    text: Seq<char>,
    unsigned: u64,
    truth: bool,
)
    ensures
        lookup(table, key) == Some(value) <==> holds(table, key, value),
        Json::Object(table).get(key) == Some(value) <==> holds(table, key, value),
        text_at(table, key) == Some(text) <==> holds(table, key, Json::Text(text)),
        u64_at(table, key) == Some(unsigned) <==> holds(table, key, Json::Integer(unsigned as int)),
        bool_at(table, key) == Some(truth) <==> holds(table, key, Json::Bool(truth)),
{
}

/// A step of a JSON pointer leads into an object by key and into an array by position, the
/// position in decimal; more steps lead on from there.
pub proof fn law_pointers_step_by_step(
    document: Json,
    a: Seq<char>,
    b: Seq<char>,
    c: Seq<char>,
    value: Json,
    n: nat,
)
    ensures
        document matches Json::Object(table) ==> (document.step(a) == Some(value) <==> holds(
            table,
            a,
            value,
        )),
        document matches Json::Array(items) ==> n < items.len() && a == decimal(n)
            ==> document.step(a) == Some(items[n as int]),
        document matches Json::Array(items) ==> document.step(a) is Some ==> exists|i: nat|
            i < items.len() && a == #[trigger] decimal(i),
        !(document is Object) && !(document is Array) ==> document.step(a) is None,
        !(document is Object) ==> document.get(a) is None,
        document.pointer2(a, b) == Some(value) <==> (document.step(a) matches Some(inner)
            && inner.step(b) == Some(value)),
        document.pointer3(a, b, c) == Some(value) <==> (document.step(a) matches Some(inner)
            && inner.step(b) matches Some(innermost) && innermost.step(c) == Some(value)),
{
    law_positions_are_decimals(a, n);
    if let Some(i) = position(a) {
        law_positions_are_decimals(a, i);
    }
}

/// A value stands for the document of its own kind; an array for its items in order, and an
/// object for its entries, of which the later of two with one key counts.
pub proof fn law_values_stand_for_documents(
    truth: bool,
    unsigned: u64,
    signed: i64,
    text: String,
    items: Vec<Datum>,
    object: Object,
    entries: Seq<(String, Datum)>,
    entry: (String, Datum),
)
    ensures
        Datum::Null@ == Json::Null,
        Datum::Bool(truth)@ == Json::Bool(truth),
        Datum::Unsigned(unsigned)@ == Json::Integer(unsigned as int),
        Datum::Negative(signed)@ == Json::Integer(signed as int),
        Datum::Text(text)@ == Json::Text(text@),
        Datum::Array(items)@ == Json::Array(trees(items@)),
        trees(items@).len() == items@.len(),
        forall|i: int| 0 <= i < items@.len() ==> #[trigger] trees(items@)[i] == items@[i]@,
        Datum::Object(object)@ == Json::Object(object@),
        object@ == table_of(object.entries@),
        table_of(Seq::empty()) == Map::<Seq<char>, Json>::empty(),
        table_of(entries.push(entry)) == table_of(entries).insert(entry.0@, entry.1@),
{
    assert(tree_of(Datum::Array(items))->Array_0 =~= trees(items@));
    assert(entries.push(entry).drop_last() =~= entries);
}

// ---------------------------------------------------------------------------------------
// What a driver and its host hand each other
// ---------------------------------------------------------------------------------------

/// Contracts see all of a call, and of a list every call in order.
pub proof fn law_calls_are_seen_whole(call: HostCall, list: Seq<HostCall>)
    ensures
        call matches HostCall::Tx { control, data } ==> call@ == (Call::Tx {
            control: control,
            data: data@,
        }),
        call matches HostCall::Notify { proxy, event, args } ==> call@ == (Call::Notify {
            proxy: proxy,
            event: event@,
            args: args@,
        }),
        call matches HostCall::Warn { message } ==> call@ == (Call::Warn { message: message@ }),
        calls(list).len() == list.len(),
        forall|i: int| 0 <= i < list.len() ==> #[trigger] calls(list)[i] == list[i]@,
{
}

/// Contracts see all of a request.
pub proof fn law_requests_are_seen_whole(request: HttpRequest)
    ensures
        request@.method == request.method@,
        request@.url == request.url@,
        request@.headers.len() == request.headers@.len(),
        forall|i: int|
            0 <= i < request.headers@.len() ==> #[trigger] request@.headers[i] == (
                request.headers@[i].0@,
                request.headers@[i].1@,
            ),
        request.body is None <==> request@.body is None,
        request.body matches Some(text) ==> request@.body == Some(text@),
{
}

/// Contracts see all of a form's field.
pub proof fn law_fields_are_seen_whole(field: Field)
    ensures
        field@.name == field.name@ && field@.label == field.label@ && field@.kind == field.kind@,
        field@.help == field.help@ && field@.required == field.required,
        field.default is None <==> field@.default is None,
        field.default matches Some(value) ==> field@.default == Some(value@),
        field@.options.len() == field.options@.len(),
        forall|i: int|
            0 <= i < field.options@.len() ==> #[trigger] field@.options[i] == field.options@[i]@,
{
}

/// Contracts see all of a candidate, and of a list every candidate in order.
pub proof fn law_candidates_are_seen_whole(candidate: Candidate, list: Seq<Candidate>)
    ensures
        candidate@.label == candidate.label@ && candidate@.kind == candidate.kind@,
        candidate@.driver_id == candidate.driver_id@ && candidate@.verified == candidate.verified@,
        candidate@.properties == candidate.properties@,
        offers(list).len() == list.len(),
        forall|i: int| 0 <= i < list.len() ==> #[trigger] offers(list)[i] == list[i]@,
{
}

/// Contracts see all of a step.
pub proof fn law_steps_are_seen_whole(step: SetupStep)
    ensures
        step matches SetupStep::Instruct { title, body, continue_label } ==> step@
            == (Step::Instruct {
            title: title@,
            body: body@,
            continue_label: continue_label@,
        }),
        step matches SetupStep::Form { title, body, fields } ==> {
            &&& step@ is Form
            &&& step@->Form_title == title@
            &&& step@->Form_body == body@
            &&& step@->fields.len() == fields@.len()
            &&& forall|i: int|
                0 <= i < fields@.len() ==> #[trigger] step@->fields[i] == fields@[i]@
        },
        step matches SetupStep::Fetch { request, note } ==> step@ == (Step::Fetch {
            request: request@,
            note: note@,
        }),
        step matches SetupStep::Done { devices } ==> step@ == (Step::Done {
            devices: offers(devices@),
        }),
        step matches SetupStep::Failed { reason } ==> step@ == (Step::Failed { reason: reason@ }),
{
}

/// What is handed out, if anything is, is seen as what it is.
pub proof fn law_options_are_seen_whole(
    value: Option<&Datum>,
    text: Option<&str>,
    messages: Seq<Option<Datum>>,
    pairs: Seq<(String, String)>,
    outcome: Result<(String, String), String>,
)
    ensures
        value is None <==> seen(value) is None,
        value matches Some(v) ==> seen(value) == Some(v@),
        text is None <==> heard(text) is None,
        text matches Some(t) ==> heard(text) == Some(t@),
        leap::read_messages(messages).len() == messages.len(),
        forall|i: int|
            0 <= i < messages.len() ==> (messages[i] is None <==> (
            #[trigger] leap::read_messages(messages)[i]) is None),
        forall|i: int|
            0 <= i < messages.len() ==> (messages[i] matches Some(message) ==> (
            #[trigger] leap::read_messages(messages)[i]) == Some(message@)),
        crate::setup::pairs(pairs).len() == pairs.len(),
        forall|i: int|
            0 <= i < pairs.len() ==> #[trigger] crate::setup::pairs(pairs)[i] == (
                pairs[i].0@,
                pairs[i].1@,
            ),
        outcome matches Ok((key_pem, csr_pem)) ==> outcome_view(outcome) == Ok::<
            (Seq<char>, Seq<char>),
            Seq<char>,
        >((key_pem@, csr_pem@)),
        outcome matches Err(text) ==> outcome_view(outcome) == Err::<
            (Seq<char>, Seq<char>),
            Seq<char>,
        >(text@),
{
}

/// What goes out is the bytes of a line: on the integration port an order or a query of an
/// output, over LEAP a message.
pub proof fn law_lines_that_go_out(text: Seq<char>, id: i64, tail: Seq<char>, message: Json)
    ensures
        integration::sent(text) == (Call::Tx { control: 0, data: encode_utf8(text) }),
        integration::order_line(id, tail) == "#OUTPUT,"@ + signed_decimal(id as int) + ","@ + tail
            + "\r\n"@,
        integration::query_line(id) == "?OUTPUT,"@ + signed_decimal(id as int) + ",1\r\n"@,
        leap::sent(message) == (Call::Tx {
            control: 0,
            data: encode_utf8(json_text(message) + "\n"@),
        }),
{
}

/// A list of strings is the list of their texts.
pub proof fn law_texts_are_seen_whole(strings: Seq<String>)
    ensures
        texts(strings).len() == strings.len(),
        forall|i: int| 0 <= i < strings.len() ==> #[trigger] texts(strings)[i] == strings[i]@,
{
}

/// The manifests go by these ids, and both drivers send through control 0.
pub proof fn law_names_on_the_outside()
    ensures
        BRIDGE_ID@ == "lutron.caseta.leap_bridge"@,
        DIMMER_ID@ == "lutron.caseta.leap_dimmer"@,
        integration::NET == 0,
        leap::NET == 0,
{
}

} // verus!
