//! JSON documents: the mathematical trees that contracts speak of, and the values that
//! stand for them at run time.

use crate::serde::Real;
use crate::text::position;
use crate::text::read_position;
use crate::text::same;
use vstd::prelude::*;

verus! {

// ---------------------------------------------------------------------------------------
// Trees
// ---------------------------------------------------------------------------------------

/// A JSON document as a tree.
pub enum Json {
    Null,
    Bool(bool),
    Integer(int),
    /// A number that is no integer of 64 bits: one with a fraction or an exponent, an
    /// integer beyond 64 bits, or a negative zero.
    Real(serde_json::Number),
    Text(Seq<char>),
    Array(Seq<Json>),
    Object(Map<Seq<char>, Json>),
}

/// Whether a document has no number but integers of 64 bits, and arrays and objects in it are
/// nested at most so deep.
pub open spec fn plain(document: Json, depth: nat) -> bool
    decreases depth,
{
    match document {
        Json::Real(_) => false,
        Json::Array(items) => depth > 0 && forall|i: int|
            0 <= i < items.len() ==> plain(#[trigger] items[i], (depth - 1) as nat),
        Json::Object(table) => depth > 0 && forall|key: Seq<char>| #[trigger]
            table.dom().contains(key) ==> plain(table[key], (depth - 1) as nat),
        _ => true,
    }
}

/// What a table holds under a key, if anything.
pub open spec fn lookup(table: Map<Seq<char>, Json>, key: Seq<char>) -> Option<Json> {
    if table.dom().contains(key) {
        Some(table[key])
    } else {
        None
    }
}

impl Json {
    /// The text of a document that is a text.
    pub open spec fn as_str(self) -> Option<Seq<char>> {
        match self {
            Json::Text(s) => Some(s),
            _ => None,
        }
    }

    /// The number of a document that is an integer of 64 bits without a sign.
    pub open spec fn as_u64(self) -> Option<u64> {
        match self {
            Json::Integer(n) => if 0 <= n <= u64::MAX {
                Some(n as u64)
            } else {
                None
            },
            _ => None,
        }
    }

    /// The number of a document that is a signed integer of 64 bits.
    pub open spec fn as_i64(self) -> Option<i64> {
        match self {
            Json::Integer(n) => if i64::MIN <= n <= i64::MAX {
                Some(n as i64)
            } else {
                None
            },
            _ => None,
        }
    }

    /// The truth value of a document that is one.
    pub open spec fn as_bool(self) -> Option<bool> {
        match self {
            Json::Bool(b) => Some(b),
            _ => None,
        }
    }

    /// The items of a document that is an array.
    pub open spec fn as_array(self) -> Option<Seq<Json>> {
        match self {
            Json::Array(items) => Some(items),
            _ => None,
        }
    }

    /// The members of a document that is an object.
    pub open spec fn as_object(self) -> Option<Map<Seq<char>, Json>> {
        match self {
            Json::Object(table) => Some(table),
            _ => None,
        }
    }

    /// The member of an object under a key.
    pub open spec fn get(self, key: Seq<char>) -> Option<Json> {
        match self {
            Json::Object(table) => lookup(table, key),
            _ => None,
        }
    }

    /// One step of a JSON pointer: into an object by key, into an array by position.
    pub open spec fn step(self, token: Seq<char>) -> Option<Json> {
        match self {
            Json::Object(table) => lookup(table, token),
            Json::Array(items) => match position(token) {
                Some(n) => if n < items.len() {
                    Some(items[n as int])
                } else {
                    None
                },
                None => None,
            },
            _ => None,
        }
    }

    /// The document that a JSON pointer of two tokens leads to.
    pub open spec fn pointer2(self, a: Seq<char>, b: Seq<char>) -> Option<Json> {
        match self.step(a) {
            Some(inner) => inner.step(b),
            None => None,
        }
    }

    /// The document that a JSON pointer of three tokens leads to.
    pub open spec fn pointer3(self, a: Seq<char>, b: Seq<char>, c: Seq<char>) -> Option<Json> {
        match self.pointer2(a, b) {
            Some(inner) => inner.step(c),
            None => None,
        }
    }
}

/// The text under a key, if there is one.
pub open spec fn text_at(table: Map<Seq<char>, Json>, key: Seq<char>) -> Option<Seq<char>> {
    match lookup(table, key) {
        Some(value) => value.as_str(),
        None => None,
    }
}

/// The unsigned integer under a key, if there is one.
pub open spec fn u64_at(table: Map<Seq<char>, Json>, key: Seq<char>) -> Option<u64> {
    match lookup(table, key) {
        Some(value) => value.as_u64(),
        None => None,
    }
}

/// The truth value under a key, if there is one.
pub open spec fn bool_at(table: Map<Seq<char>, Json>, key: Seq<char>) -> Option<bool> {
    match lookup(table, key) {
        Some(value) => value.as_bool(),
        None => None,
    }
}

// ---------------------------------------------------------------------------------------
// Values
// ---------------------------------------------------------------------------------------

/// A JSON document.
#[derive(Debug)]
pub enum Datum {
    Null,
    Bool(bool),
    Unsigned(u64),
    Negative(i64),
    Real(Real),
    Text(String),
    Array(Vec<Datum>),
    Object(Object),
}

/// The members of a JSON object.  Where a key occurs twice, the later entry counts.
#[derive(Debug)]
pub struct Object {
    pub entries: Vec<(String, Datum)>,
}

/// The tree that a value stands for.
pub open spec fn tree_of(value: Datum) -> Json
    decreases value,
{
    match value {
        Datum::Null => Json::Null,
        Datum::Bool(b) => Json::Bool(b),
        Datum::Unsigned(n) => Json::Integer(n as int),
        Datum::Negative(n) => Json::Integer(n as int),
        Datum::Real(r) => Json::Real(r.spec_number()),
        Datum::Text(s) => Json::Text(s@),
        Datum::Array(items) => Json::Array(
            Seq::new(
                items@.len(),
                |i: int|
                    if 0 <= i < items@.len() {
                        tree_of(items@[i])
                    } else {
                        Json::Null
                    },
            ),
        ),
        Datum::Object(object) => Json::Object(table_of(object.entries@)),
    }
}

/// The table that a list of entries stands for.
pub open spec fn table_of(entries: Seq<(String, Datum)>) -> Map<Seq<char>, Json>
    decreases entries,
{
    if entries.len() == 0 {
        Map::empty()
    } else {
        table_of(entries.drop_last()).insert(entries.last().0@, tree_of(entries.last().1))
    }
}

impl View for Datum {
    type V = Json;

    open spec fn view(&self) -> Json {
        tree_of(*self)
    }
}

impl View for Object {
    type V = Map<Seq<char>, Json>;

    open spec fn view(&self) -> Map<Seq<char>, Json> {
        table_of(self.entries@)
    }
}

/// The tree behind an optional value.
pub open spec fn seen(value: Option<&Datum>) -> Option<Json> {
    match value {
        Some(v) => Some(v@),
        None => None,
    }
}

/// The text behind an optional string.
pub open spec fn heard(text: Option<&str>) -> Option<Seq<char>> {
    match text {
        Some(s) => Some(s@),
        None => None,
    }
}

/// The trees that a list of values stands for.
pub open spec fn trees(values: Seq<Datum>) -> Seq<Json> {
    Seq::new(values.len(), |i: int| values[i]@)
}

impl Object {
    /// An object without members.
    pub fn new() -> (object: Object)
        ensures
            object@ == Map::<Seq<char>, Json>::empty(),
    {
        Object { entries: Vec::new() }
    }

    /// The member under a key.
    pub fn get(&self, key: &str) -> (value: Option<&Datum>)
        ensures
            seen(value) == lookup(self@, key@),
    {
        let mut i: usize = self.entries.len();
        assert(self.entries@.take(i as int) == self.entries@);
        while i > 0
            invariant
                i <= self.entries.len(),
                lookup(self@, key@) == lookup(table_of(self.entries@.take(i as int)), key@),
            decreases i,
        {
            assert(self.entries@.take(i as int).drop_last() == self.entries@.take(i - 1));
            i = i - 1;
            if same(self.entries[i].0.as_str(), key) {
                return Some(&self.entries[i].1);
            }
        }
        None
    }

    /// Puts a member under a key, in place of the one that was there.
    pub fn insert(&mut self, key: String, value: Datum)
        ensures
            final(self)@ == old(self)@.insert(key@, value@),
    {
        let mut i: usize = self.entries.len();
        while i > 0
            invariant
                i <= self.entries.len(),
                self.entries@ == old(self).entries@,
                forall|j: int| i <= j < self.entries.len() ==> (#[trigger] self.entries@[j]).0@
                    != key@,
            decreases i,
        {
            i = i - 1;
            if same(self.entries[i].0.as_str(), key.as_str()) {
                proof {
                    lemma_entry_replaced(self.entries@, i as int, (key, value));
                }
                self.entries.set(i, (key, value));
                return ;
            }
        }
        self.entries.push((key, value));
        assert(self.entries@.drop_last() == old(self).entries@);
    }

    /// The object with one more member.
    pub fn with(self, key: &str, value: Datum) -> (object: Object)
        ensures
            object@ == self@.insert(key@, value@),
    {
        let mut object = self;
        object.insert(key.to_owned(), value);
        object
    }
}

/// A text as a value.
pub fn text_datum(text: &str) -> (value: Datum)
    ensures
        value@ == Json::Text(text@),
{
    Datum::Text(text.to_owned())
}

proof fn lemma_entry_replaced(entries: Seq<(String, Datum)>, i: int, entry: (String, Datum))
    requires
        0 <= i < entries.len(),
        entries[i].0@ == entry.0@,
        forall|j: int| i < j < entries.len() ==> (#[trigger] entries[j]).0@ != entry.0@,
    ensures
        table_of(entries.update(i, entry)) == table_of(entries).insert(entry.0@, tree_of(entry.1)),
    decreases entries.len(),
{
    let updated = entries.update(i, entry);
    if i == entries.len() - 1 {
        assert(updated.drop_last() == entries.drop_last());
    } else {
        assert(updated.drop_last() == entries.drop_last().update(i, entry));
        lemma_entry_replaced(entries.drop_last(), i, entry);
        assert(entries.last() == entries[entries.len() - 1]);
    }
    assert(table_of(updated) =~= table_of(entries).insert(entry.0@, tree_of(entry.1)));
}

impl Datum {
    /// The string of a value that is one.
    pub fn as_str(&self) -> (result: Option<&str>)
        ensures
            heard(result) == self@.as_str(),
    {
        match self {
            Datum::Text(s) => Some(s.as_str()),
            _ => None,
        }
    }

    /// The number of a value that is an unsigned integer.
    pub fn as_u64(&self) -> (result: Option<u64>)
        ensures
            result == self@.as_u64(),
    {
        match self {
            Datum::Unsigned(n) => Some(*n),
            Datum::Negative(n) => if *n >= 0 {
                Some(*n as u64)
            } else {
                None
            },
            _ => None,
        }
    }

    /// The number of a value that is a signed integer.
    pub fn as_i64(&self) -> (result: Option<i64>)
        ensures
            result == self@.as_i64(),
    {
        match self {
            Datum::Unsigned(n) => if *n <= i64::MAX as u64 {
                Some(*n as i64)
            } else {
                None
            },
            Datum::Negative(n) => Some(*n),
            _ => None,
        }
    }

    /// The truth value of a value that is one.
    pub fn as_bool(&self) -> (result: Option<bool>)
        ensures
            result == self@.as_bool(),
    {
        match self {
            Datum::Bool(b) => Some(*b),
            _ => None,
        }
    }

    /// The items of a value that is an array.
    pub fn as_array(&self) -> (result: Option<&Vec<Datum>>)
        ensures
            self@.as_array() == (match result {
                Some(items) => Some(trees(items@)),
                None => None,
            }),
    {
        match self {
            Datum::Array(items) => {
                assert(tree_of(*self)->Array_0 == trees(items@));
                Some(items)
            },
            _ => None,
        }
    }

    /// The members of a value that is an object.
    pub fn as_object(&self) -> (result: Option<&Object>)
        ensures
            self@.as_object() == (match result {
                Some(object) => Some(object@),
                None => None,
            }),
    {
        match self {
            Datum::Object(object) => Some(object),
            _ => None,
        }
    }

    /// The member of an object under a key.
    pub fn get(&self, key: &str) -> (result: Option<&Datum>)
        ensures
            seen(result) == self@.get(key@),
    {
        match self {
            Datum::Object(object) => object.get(key),
            _ => None,
        }
    }

    /// One step of a JSON pointer.
    pub fn step(&self, token: &str) -> (result: Option<&Datum>)
        ensures
            seen(result) == self@.step(token@),
    {
        match self {
            Datum::Object(object) => object.get(token),
            Datum::Array(items) => match read_position(token, items.len()) {
                Some(i) => Some(&items[i]),
                None => None,
            },
            _ => None,
        }
    }

    /// Follows a JSON pointer of two tokens.
    pub fn pointer2(&self, a: &str, b: &str) -> (result: Option<&Datum>)
        ensures
            seen(result) == self@.pointer2(a@, b@),
    {
        match self.step(a) {
            Some(inner) => inner.step(b),
            None => None,
        }
    }

    /// Follows a JSON pointer of three tokens.
    pub fn pointer3(&self, a: &str, b: &str, c: &str) -> (result: Option<&Datum>)
        ensures
            seen(result) == self@.pointer3(a@, b@, c@),
    {
        match self.pointer2(a, b) {
            Some(inner) => inner.step(c),
            None => None,
        }
    }
}

/// The unsigned integer under a key.
pub fn get_u64(object: &Object, key: &str) -> (result: Option<u64>)
    ensures
        result == u64_at(object@, key@),
{
    match object.get(key) {
        Some(value) => value.as_u64(),
        None => None,
    }
}

/// The truth value under a key.
pub fn get_bool(object: &Object, key: &str) -> (result: Option<bool>)
    ensures
        result == bool_at(object@, key@),
{
    match object.get(key) {
        Some(value) => value.as_bool(),
        None => None,
    }
}

/// The text under a key.
pub fn get_text<'a>(object: &'a Object, key: &str) -> (result: Option<&'a str>)
    ensures
        heard(result) == text_at(object@, key@),
{
    match object.get(key) {
        Some(value) => value.as_str(),
        None => None,
    }
}

impl Clone for Datum {
    fn clone(&self) -> (result: Datum)
        ensures
            result@ == self@,
        decreases self,
    {
        match self {
            Datum::Null => Datum::Null,
            Datum::Bool(b) => Datum::Bool(*b),
            Datum::Unsigned(n) => Datum::Unsigned(*n),
            Datum::Negative(n) => Datum::Negative(*n),
            Datum::Real(r) => Datum::Real(r.clone()),
            Datum::Text(s) => Datum::Text(s.clone()),
            Datum::Array(items) => {
                let mut copies: Vec<Datum> = Vec::new();
                let mut i: usize = 0;
                while i < items.len()
                    invariant
                        i <= items.len(),
                        self == Datum::Array(*items),
                        copies@.len() == i,
                        forall|k: int| 0 <= k < i ==> (#[trigger] copies@[k])@ == items@[k]@,
                    decreases items.len() - i,
                {
                    assert(decreases_to!(self => self->Array_0));
                    assert(decreases_to!(items => items@));
                    assert(decreases_to!(items@ => items@[i as int]));
                    copies.push(items[i].clone());
                    i = i + 1;
                }
                let result = Datum::Array(copies);
                assert(tree_of(result)->Array_0 == tree_of(*self)->Array_0);
                result
            },
            Datum::Object(object) => {
                assert(decreases_to!(self => self->Object_0));
                Datum::Object(object.clone())
            },
        }
    }
}

impl Clone for Object {
    fn clone(&self) -> (result: Object)
        ensures
            result@ == self@,
        decreases self,
    {
        let mut copies: Vec<(String, Datum)> = Vec::new();
        let mut i: usize = 0;
        while i < self.entries.len()
            invariant
                i <= self.entries.len(),
                table_of(copies@) == table_of(self.entries@.take(i as int)),
            decreases self.entries.len() - i,
        {
            assert(decreases_to!(self => self.entries));
            assert(decreases_to!(self.entries => self.entries@));
            assert(decreases_to!(self.entries@ => self.entries@[i as int]));
            assert(decreases_to!(self.entries@[i as int] => self.entries@[i as int].1));
            let ghost before = copies@;
            copies.push((self.entries[i].0.clone(), self.entries[i].1.clone()));
            assert(copies@.drop_last() == before);
            assert(self.entries@.take(i + 1).drop_last() == self.entries@.take(i as int));
            i = i + 1;
        }
        assert(self.entries@.take(i as int) == self.entries@);
        Object { entries: copies }
    }
}

} // verus!
