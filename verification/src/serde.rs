//! Reading and writing JSON text, which `serde_json` does.

use crate::json::Datum;
use crate::json::Json;
use crate::json::Object;
use crate::json::plain;
use crate::json::table_of;
use crate::json::tree_of;
use crate::text::same;
use vstd::prelude::*;

verus! {

// ---------------------------------------------------------------------------------------
// The outside types, and names for what they hold
// ---------------------------------------------------------------------------------------

/// `serde_json`'s tree of a JSON document.
#[verifier::external_type_specification]
#[verifier::external_body]
pub struct ExJsonValue(serde_json::Value);

/// `serde_json`'s JSON number.
#[verifier::external_type_specification]
#[verifier::external_body]
pub struct ExJsonNumber(serde_json::Number);

/// A JSON number that `serde_json` holds as neither a `u64` nor an `i64`, carried as it was
/// read: one with a fraction or an exponent, an integer beyond 64 bits, or a negative zero.
#[derive(Debug)]
pub struct Real {
    number: serde_json::Number,
}

impl Real {
    /// The number as it was read.
    pub closed spec fn spec_number(self) -> serde_json::Number {
        self.number
    }
}

impl Clone for Real {
    fn clone(&self) -> (result: Real)
        ensures
            result.spec_number() == self.spec_number(),
    {
        Real { number: clone_number(&self.number) }
    }
}

/// What a `serde_json::Value` holds.
pub uninterp spec fn contents(value: serde_json::Value) -> Json;

/// What `serde_json::from_str` makes of a text: a document, or nothing where it reports an
/// error.
pub uninterp spec fn json_read(text: Seq<char>) -> Option<Json>;

/// The text in which `serde_json` writes a document.
pub uninterp spec fn json_text(document: Json) -> Seq<char>;

/// One level of a document whose inner documents are `serde_json`'s.
pub enum Level {
    Null,
    Bool(bool),
    Unsigned(u64),
    Negative(i64),
    Real(Real),
    Text(String),
    Array(Vec<serde_json::Value>),
    Object(Vec<(String, serde_json::Value)>),
}

/// What a list of `serde_json` values holds.
pub open spec fn contents_list(values: Seq<serde_json::Value>) -> Seq<Json> {
    Seq::new(values.len(), |i: int| contents(values[i]))
}

/// What a list of entries with `serde_json` values holds; the later of two entries with one
/// key counts.
pub open spec fn contents_table(entries: Seq<(String, serde_json::Value)>) -> Map<Seq<char>, Json>
    decreases entries.len(),
{
    if entries.len() == 0 {
        Map::empty()
    } else {
        contents_table(entries.drop_last()).insert(
            entries.last().0@,
            contents(entries.last().1),
        )
    }
}

/// The document of which this is the outermost level.
pub open spec fn level_tree(level: Level) -> Json {
    match level {
        Level::Null => Json::Null,
        Level::Bool(b) => Json::Bool(b),
        Level::Unsigned(n) => Json::Integer(n as int),
        Level::Negative(n) => Json::Integer(n as int),
        Level::Real(r) => Json::Real(r.spec_number()),
        Level::Text(s) => Json::Text(s@),
        Level::Array(items) => Json::Array(contents_list(items@)),
        Level::Object(entries) => Json::Object(contents_table(entries@)),
    }
}

/// Whether no two entries have the same key.
pub open spec fn distinct_keys(entries: Seq<(String, serde_json::Value)>) -> bool {
    forall|i: int, j: int|
        0 <= i < j < entries.len() ==> (#[trigger] entries[i]).0@ != (#[trigger] entries[j]).0@
}

// ---------------------------------------------------------------------------------------
// Calls into `serde_json`
// ---------------------------------------------------------------------------------------

/// Calls `serde_json::from_str::<serde_json::Value>`.  What it makes of a text depends on
/// the text alone; which texts it accepts is left to the name `json_read`.
#[verifier::external_body]
fn parse(text: &str) -> (value: Option<serde_json::Value>)
    ensures
        json_read(text@) == (match value {
            Some(v) => Some(contents(v)),
            None => None,
        }),
{
    serde_json::from_str(text).ok()
}

/// Calls `serde_json::Value::to_string`, the compact form.  The text depends on what the
/// value holds alone (members are written in the order of their keys), and has no line
/// break: the compact form puts none between tokens, and line breaks inside strings are
/// written as escapes.  `serde_json::from_str` reads the value back from the text where the
/// only numbers in it are integers of 64 bits and it is nested at most 127 deep, which is as
/// deep as `from_str` goes; of other values this is not stated, since a number with a fraction
/// may come back as its neighbour.
#[verifier::external_body]
fn print(value: &serde_json::Value) -> (text: String)
    ensures
        text@ == json_text(contents(*value)),
        !text@.contains('\n'),
        plain(contents(*value), 127) ==> json_read(text@) == Some(contents(*value)),
{
    value.to_string()
}

/// Calls `serde_json::Number::clone`, which hands out the same number once more.
#[verifier::external_body]
fn clone_number(number: &serde_json::Number) -> (result: serde_json::Number)
    ensures
        result == *number,
{
    number.clone()
}

/// Takes a `serde_json::Value` apart by its variants, and a `serde_json::Number` by
/// `as_u64` and `as_i64`.  An object's members come out as entries with distinct keys.
#[verifier::external_body]
fn open_value(value: serde_json::Value) -> (level: Level)
    ensures
        level_tree(level) == contents(value),
        level matches Level::Object(entries) ==> distinct_keys(entries@),
{
    match value {
        serde_json::Value::Null => Level::Null,
        serde_json::Value::Bool(b) => Level::Bool(b),
        serde_json::Value::Number(n) => match (n.as_u64(), n.as_i64()) {
            (Some(u), _) => Level::Unsigned(u),
            (None, Some(i)) => Level::Negative(i),
            (None, None) => Level::Real(Real { number: n }),
        },
        serde_json::Value::String(s) => Level::Text(s),
        serde_json::Value::Array(items) => Level::Array(items),
        serde_json::Value::Object(map) => Level::Object(map.into_iter().collect()),
    }
}

/// Makes a `serde_json::Value` with its variants' constructors; an integer's through
/// `serde_json::Value::from`, an object's by collecting entries with distinct keys into a
/// `serde_json::Map`, which then holds just these.
#[verifier::external_body]
fn close_value(level: Level) -> (value: serde_json::Value)
    requires
        level matches Level::Object(entries) ==> distinct_keys(entries@),
    ensures
        contents(value) == level_tree(level),
{
    match level {
        Level::Null => serde_json::Value::Null,
        Level::Bool(b) => serde_json::Value::Bool(b),
        Level::Unsigned(n) => serde_json::Value::from(n),
        Level::Negative(n) => serde_json::Value::from(n),
        Level::Real(r) => serde_json::Value::Number(r.number),
        Level::Text(s) => serde_json::Value::String(s),
        Level::Array(items) => serde_json::Value::Array(items),
        Level::Object(entries) => serde_json::Value::Object(entries.into_iter().collect()),
    }
}

// ---------------------------------------------------------------------------------------
// Whole documents
// ---------------------------------------------------------------------------------------

proof fn lemma_contents_table(entries: Seq<(String, serde_json::Value)>, i: int)
    requires
        distinct_keys(entries),
        0 <= i < entries.len(),
    ensures
        contents_table(entries).dom().finite(),
        contents_table(entries).dom().contains(entries[i].0@),
        contents_table(entries)[entries[i].0@] == contents(entries[i].1),
    decreases entries.len(),
{
    let front = entries.drop_last();
    lemma_contents_table_finite(entries);
    if i < entries.len() - 1 {
        assert(forall|j: int| 0 <= j < front.len() ==> front[j] == entries[j]);
        lemma_contents_table(front, i);
        assert(entries.last() == entries[entries.len() - 1]);
    }
}

proof fn lemma_contents_table_finite(entries: Seq<(String, serde_json::Value)>)
    ensures
        contents_table(entries).dom().finite(),
    decreases entries.len(),
{
    if entries.len() > 0 {
        lemma_contents_table_finite(entries.drop_last());
    }
}

/// Turns a `serde_json` document into a value of this library.
pub fn from_serde(value: serde_json::Value) -> (result: Datum)
    ensures
        result@ == contents(value),
    decreases contents(value),
{
    match open_value(value) {
        Level::Null => Datum::Null,
        Level::Bool(b) => Datum::Bool(b),
        Level::Unsigned(n) => Datum::Unsigned(n),
        Level::Negative(n) => Datum::Negative(n),
        Level::Real(r) => Datum::Real(r),
        Level::Text(s) => Datum::Text(s),
        Level::Array(values) => {
            let mut items: Vec<Datum> = Vec::new();
            let ghost all = values@;
            for v in it: values
                invariant
                    it.seq() == all,
                    contents(value) == Json::Array(contents_list(all)),
                    items@.len() == it.index(),
                    forall|i: int| 0 <= i < items@.len() ==> (#[trigger] items@[i])@ == contents(
                        all[i],
                    ),
            {
                assert(contents(v) == contents_list(all)[it.index() as int]);
                assert(decreases_to!(contents(value) => contents(value)->Array_0));
                assert(decreases_to!(contents_list(all) => contents_list(all)[it.index() as int]));
                items.push(from_serde(v));
            }
            let result = Datum::Array(items);
            assert(tree_of(result)->Array_0 == contents_list(all));
            result
        },
        Level::Object(entries) => {
            let mut object = Object::new();
            let ghost all = entries@;
            for entry in it: entries
                invariant
                    it.seq() == all,
                    distinct_keys(all),
                    contents(value) == Json::Object(contents_table(all)),
                    object@ == contents_table(all.take(it.index() as int)),
            {
                let ghost k = it.index() as int;
                let (key, v) = entry;
                proof {
                    lemma_contents_table(all, k);
                    assert(decreases_to!(contents(value) => contents(value)->Object_0));
                    assert(decreases_to!(contents_table(all) => contents_table(all)[key@]));
                    assert(all.take(k + 1).drop_last() == all.take(k));
                }
                let inner = from_serde(v);
                object.insert(key, inner);
            }
            assert(all.take(all.len() as int) == all);
            Datum::Object(object)
        },
    }
}

proof fn lemma_member_replaced(
    entries: Seq<(String, serde_json::Value)>,
    i: int,
    entry: (String, serde_json::Value),
)
    requires
        distinct_keys(entries),
        0 <= i < entries.len(),
        entries[i].0@ == entry.0@,
    ensures
        contents_table(entries.update(i, entry)) == contents_table(entries).insert(
            entry.0@,
            contents(entry.1),
        ),
    decreases entries.len(),
{
    let front = entries.drop_last();
    let updated = entries.update(i, entry);
    assert(entries.last() == entries[entries.len() - 1]);
    if i == entries.len() - 1 {
        assert(updated.drop_last() == front);
    } else {
        assert(updated.drop_last() == front.update(i, entry));
        assert(forall|k: int| 0 <= k < front.len() ==> front[k] == entries[k]);
        lemma_member_replaced(front, i, entry);
    }
    assert(contents_table(updated) =~= contents_table(entries).insert(
        entry.0@,
        contents(entry.1),
    ));
}

/// Puts a member under a key, in place of the one that was there.
fn put_member(entries: &mut Vec<(String, serde_json::Value)>, key: String, value: serde_json::Value)
    requires
        distinct_keys(old(entries)@),
    ensures
        distinct_keys(final(entries)@),
        contents_table(final(entries)@) == contents_table(old(entries)@).insert(
            key@,
            contents(value),
        ),
{
    let mut i: usize = 0;
    while i < entries.len()
        invariant
            i <= entries.len(),
            entries@ == old(entries)@,
            distinct_keys(entries@),
            forall|k: int| 0 <= k < i ==> (#[trigger] entries@[k]).0@ != key@,
        decreases entries.len() - i,
    {
        if same(entries[i].0.as_str(), key.as_str()) {
            proof {
                lemma_member_replaced(entries@, i as int, (key, value));
            }
            entries.set(i, (key, value));
            return ;
        }
        i = i + 1;
    }
    entries.push((key, value));
    assert(entries@.drop_last() == old(entries)@);
}

/// Turns a value of this library into a `serde_json` document.
pub fn to_serde(value: &Datum) -> (result: serde_json::Value)
    ensures
        contents(result) == value@,
    decreases value,
{
    match value {
        Datum::Null => close_value(Level::Null),
        Datum::Bool(b) => close_value(Level::Bool(*b)),
        Datum::Unsigned(n) => close_value(Level::Unsigned(*n)),
        Datum::Negative(n) => close_value(Level::Negative(*n)),
        Datum::Real(r) => close_value(Level::Real(r.clone())),
        Datum::Text(s) => close_value(Level::Text(s.clone())),
        Datum::Array(items) => {
            let mut values: Vec<serde_json::Value> = Vec::new();
            let mut i: usize = 0;
            while i < items.len()
                invariant
                    i <= items.len(),
                    values@.len() == i,
                    value == Datum::Array(*items),
                    forall|k: int| 0 <= k < i ==> contents(#[trigger] values@[k]) == items@[k]@,
                decreases items.len() - i,
            {
                assert(decreases_to!(value => value->Array_0));
                assert(decreases_to!(items => items@));
                assert(decreases_to!(items@ => items@[i as int]));
                values.push(to_serde(&items[i]));
                i = i + 1;
            }
            assert(contents_list(values@) == tree_of(*value)->Array_0);
            close_value(Level::Array(values))
        },
        Datum::Object(object) => {
            let mut entries: Vec<(String, serde_json::Value)> = Vec::new();
            let mut i: usize = 0;
            while i < object.entries.len()
                invariant
                    i <= object.entries.len(),
                    value == Datum::Object(*object),
                    distinct_keys(entries@),
                    contents_table(entries@) == table_of(object.entries@.take(i as int)),
                decreases object.entries.len() - i,
            {
                assert(decreases_to!(value => value->Object_0));
                assert(decreases_to!(object => object.entries));
                assert(decreases_to!(object.entries => object.entries@));
                assert(decreases_to!(object.entries@ => object.entries@[i as int]));
                assert(decreases_to!(object.entries@[i as int] => object.entries@[i as int].1));
                assert(object.entries@.take(i + 1).drop_last() == object.entries@.take(i as int));
                let inner = to_serde(&object.entries[i].1);
                put_member(&mut entries, object.entries[i].0.clone(), inner);
                i = i + 1;
            }
            assert(object.entries@.take(i as int) == object.entries@);
            close_value(Level::Object(entries))
        },
    }
}

/// Reads a JSON document.
pub fn read_json(text: &str) -> (value: Option<Datum>)
    ensures
        json_read(text@) == (match value {
            Some(v) => Some(v@),
            None => None,
        }),
{
    match parse(text) {
        Some(v) => Some(from_serde(v)),
        None => None,
    }
}

/// Writes a JSON document in its compact form, on one line.  The document reads back from the
/// text, unless it is nested too deep or has numbers that are no integers of 64 bits.
pub fn write_json(value: &Datum) -> (text: String)
    ensures
        text@ == json_text(value@),
        !text@.contains('\n'),
        plain(value@, 127) ==> json_read(text@) == Some(value@),
{
    print(&to_serde(value))
}

} // verus!
