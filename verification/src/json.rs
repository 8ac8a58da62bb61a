//! JSON documents, read and printed by `serde_json`.
//!
//! A document is a [`JsonTree`]; the contracts of this module say what each
//! call of the outside crate does to that tree.

use serde_json::Value;
use vstd::prelude::*;
use vstd::string::*;

verus! {

/// What a JSON document says.
pub enum JsonTree {
    /// `null`.
    Null,
    /// `true` or `false`.
    Bool(bool),
    /// An integer from `i64::MIN` to `u64::MAX`.
    Int(i128),
    /// Any other number, by its printed text.
    Number(Seq<char>),
    /// A string.
    Str(Seq<char>),
    /// An array.
    Arr(Seq<JsonTree>),
    /// An object: its members in order, each name once.
    Obj(Seq<(Seq<char>, JsonTree)>),
}

/// The value of the member `key` of an object with these members.
pub open spec fn member(members: Seq<(Seq<char>, JsonTree)>, key: Seq<char>) -> Option<JsonTree>
    decreases members.len(),
{
    if members.len() == 0 {
        None
    } else if members.last().0 == key {
        Some(members.last().1)
    } else {
        member(members.drop_last(), key)
    }
}

/// Whether each name occurs once.
pub open spec fn names_distinct(members: Seq<(Seq<char>, JsonTree)>) -> bool {
    forall|i: int, j: int|
        0 <= i < j < members.len() ==> (#[trigger] members[i]).0 != (#[trigger] members[j]).0
}

/// With distinct names, each name leads to its own value.
pub proof fn lemma_member_at(members: Seq<(Seq<char>, JsonTree)>, i: int)
    requires
        names_distinct(members),
        0 <= i < members.len(),
    ensures
        member(members, members[i].0) == Some(members[i].1),
    decreases members.len(),
{
    let last = members.len() - 1;
    if i < last {
        assert(members[i].0 != members[last].0);
        let rest = members.drop_last();
        assert(names_distinct(rest)) by {
            assert forall|a: int, b: int| 0 <= a < b < rest.len() implies (#[trigger] rest[a]).0
                != (#[trigger] rest[b]).0 by {
                assert(rest[a] == members[a] && rest[b] == members[b]);
            }
        }
        lemma_member_at(rest, i);
        assert(rest[i] == members[i]);
    }
}

/// A name that no member has leads nowhere.
pub proof fn lemma_member_absent(members: Seq<(Seq<char>, JsonTree)>, key: Seq<char>)
    requires
        forall|i: int| 0 <= i < members.len() ==> (#[trigger] members[i]).0 != key,
    ensures
        member(members, key) is None,
    decreases members.len(),
{
    if members.len() > 0 {
        let rest = members.drop_last();
        assert forall|i: int| 0 <= i < rest.len() implies (#[trigger] rest[i]).0 != key by {
            assert(rest[i] == members[i]);
        }
        assert(members[members.len() - 1].0 != key);
        lemma_member_absent(rest, key);
    }
}

impl JsonTree {
    /// The member `key` of an object; nothing else has members.
    pub open spec fn get(self, key: Seq<char>) -> Option<JsonTree> {
        match self {
            JsonTree::Obj(members) => member(members, key),
            _ => None,
        }
    }

    /// Whether arrays and objects nest at most `n` deep, and every number is
    /// an integer.
    pub open spec fn plain_within(self, n: nat) -> bool
        decreases n,
    {
        match self {
            JsonTree::Number(_) => false,
            JsonTree::Arr(items) => n > 0 && forall|i: int|
                0 <= i < items.len() ==> (#[trigger] items[i]).plain_within((n - 1) as nat),
            JsonTree::Obj(members) => n > 0 && forall|i: int|
                0 <= i < members.len() ==> (#[trigger] members[i]).1.plain_within((n - 1) as nat),
            _ => true,
        }
    }
}

/// How deep a document that is printed may nest.
pub open spec fn max_depth() -> nat {
    16
}

/// What reading a text as JSON gives.
pub enum JsonReading {
    /// The document that the text is.
    Document(JsonTree),
    /// The text is no JSON; what the reader says of it.
    Failure(Seq<char>),
}

/// A JSON value of `serde_json`.
#[verifier::external_type_specification]
#[verifier::external_body]
pub struct ExValue(Value);

/// What a `serde_json::Value` holds.
pub uninterp spec fn json_tree(v: Value) -> JsonTree;

/// What `serde_json::from_str` makes of a text: the document, or the text of
/// its error.
pub uninterp spec fn json_parsed(text: Seq<char>) -> JsonReading;

/// What `serde_json::to_string` prints for a document.
pub uninterp spec fn json_text(tree: JsonTree) -> Seq<char>;

/// Calls `serde_json::from_str` for a `Value`. What it returns is a function
/// of the text alone.
#[verifier::external_body]
pub(crate) fn parse_json(text: &str) -> (r: Result<Value, String>)
    ensures
        match r {
            Ok(v) => json_parsed(text@) == JsonReading::Document(json_tree(v)),
            Err(m) => json_parsed(text@) == JsonReading::Failure(m@),
        },
{
    serde_json::from_str::<Value>(text).map_err(|e| e.to_string())
}

/// Calls `serde_json::to_string`. Printing a `Value` does not fail, the text
/// is a function of what the value holds, and `serde_json::from_str` reads
/// the text of a document without fractions back as the same document.
#[verifier::external_body]
pub(crate) fn print_json(v: &Value) -> (r: Result<String, String>)
    requires
        json_tree(*v).plain_within(max_depth()),
    ensures
        r is Ok,
        r->Ok_0@ == json_text(json_tree(*v)),
        json_parsed(r->Ok_0@) == JsonReading::Document(json_tree(*v)),
{
    serde_json::to_string(v).map_err(|e| e.to_string())
}

/// Calls `Value::get` with a string: the member of that name of an object,
/// `None` when there is none or the value is no object.
#[verifier::external_body]
pub(crate) fn json_get<'a>(v: &'a Value, key: &str) -> (r: Option<&'a Value>)
    ensures
        match r {
            Some(x) => json_tree(*v).get(key@) == Some(json_tree(*x)),
            None => json_tree(*v).get(key@) is None,
        },
{
    v.get(key)
}

/// `Value::as_str`: the text of a string, `None` for anything else.
pub assume_specification[ Value::as_str ](v: &Value) -> (r: Option<&str>)
    ensures
        match r {
            Some(s) => json_tree(*v) == JsonTree::Str(s@),
            None => !(json_tree(*v) is Str),
        },
;

/// `Value::as_i64`: an integer that fits `i64`, `None` for anything else.
pub assume_specification[ Value::as_i64 ](v: &Value) -> (r: Option<i64>)
    ensures
        match r {
            Some(n) => json_tree(*v) == JsonTree::Int(n as i128),
            None => !(json_tree(*v) matches JsonTree::Int(n) && i64::MIN <= n <= i64::MAX),
        },
;

/// `Value::as_u64`: an integer that fits `u64`, `None` for anything else.
pub assume_specification[ Value::as_u64 ](v: &Value) -> (r: Option<u64>)
    ensures
        match r {
            Some(n) => json_tree(*v) == JsonTree::Int(n as i128),
            None => !(json_tree(*v) matches JsonTree::Int(n) && 0 <= n <= u64::MAX),
        },
;

/// `Value::as_array`: the items of an array, `None` for anything else.
pub assume_specification[ Value::as_array ](v: &Value) -> (r: Option<&Vec<Value>>)
    ensures
        match r {
            Some(items) => json_tree(*v) == JsonTree::Arr(
                Seq::new(items@.len(), |i: int| json_tree(items@[i])),
            ),
            None => !(json_tree(*v) is Arr),
        },
;

/// `Value::is_object`: whether the value is an object.
pub assume_specification[ Value::is_object ](v: &Value) -> (r: bool)
    ensures
        r == (json_tree(*v) is Obj),
;

/// `Value::is_null`: whether the value is `null`.
pub assume_specification[ Value::is_null ](v: &Value) -> (r: bool)
    ensures
        r == (json_tree(*v) is Null),
;

/// Calls `Value::from(String)`: a JSON string of that text.
#[verifier::external_body]
pub(crate) fn json_string(s: String) -> (r: Value)
    ensures
        json_tree(r) == JsonTree::Str(s@),
{
    Value::from(s)
}

/// Calls `Value::from(i64)`: that integer.
#[verifier::external_body]
pub(crate) fn json_i64(n: i64) -> (r: Value)
    ensures
        json_tree(r) == JsonTree::Int(n as i128),
{
    Value::from(n)
}

/// Calls `Value::from(u64)`: that integer.
#[verifier::external_body]
pub(crate) fn json_u64(n: u64) -> (r: Value)
    ensures
        json_tree(r) == JsonTree::Int(n as i128),
{
    Value::from(n)
}

/// Calls `Value::from(())`: `null`.
#[verifier::external_body]
pub(crate) fn json_null() -> (r: Value)
    ensures
        json_tree(r) == JsonTree::Null,
{
    Value::from(())
}

/// Calls `Value::from(Vec<Value>)`: the array of these items.
#[verifier::external_body]
pub(crate) fn json_array(items: Vec<Value>) -> (r: Value)
    ensures
        json_tree(r) == JsonTree::Arr(Seq::new(items@.len(), |i: int| json_tree(items@[i]))),
{
    Value::from(items)
}

/// The members that a row of named values stands for.
pub open spec fn members_of(entries: Seq<(String, Value)>) -> Seq<(Seq<char>, JsonTree)> {
    Seq::new(entries.len(), |i: int| (entries[i].0@, json_tree(entries[i].1)))
}

/// Collects named values with `Value::from_iter`: the object of these
/// members, in this order. Of a repeated name nothing is claimed.
#[verifier::external_body]
pub(crate) fn json_object(entries: Vec<(String, Value)>) -> (r: Value)
    requires
        names_distinct(members_of(entries@)),
    ensures
        json_tree(r) == JsonTree::Obj(members_of(entries@)),
{
    Value::from_iter(entries)
}

/// A field of a record: the member `key` of an object, or item number `pos` of
/// an array that lists the fields in their order.
pub open spec fn field(t: JsonTree, key: Seq<char>, pos: int) -> Option<JsonTree> {
    match t {
        JsonTree::Arr(items) => if 0 <= pos < items.len() {
            Some(items[pos])
        } else {
            None
        },
        _ => t.get(key),
    }
}

/// Whether `t` can be a record of `fields` fields: an object, or an array that
/// lists at least the first `required` of them.
pub open spec fn is_record(t: JsonTree, required: int, fields: int) -> bool {
    match t {
        JsonTree::Obj(_) => true,
        JsonTree::Arr(items) => required <= items.len() <= fields,
        _ => false,
    }
}

/// The text of a field, when it is a string.
pub open spec fn str_at(t: JsonTree, key: Seq<char>, pos: int) -> Option<Seq<char>> {
    match field(t, key, pos) {
        Some(JsonTree::Str(s)) => Some(s),
        _ => None,
    }
}

/// The number of a field, when it is an integer that fits `i64`.
pub open spec fn i64_at(t: JsonTree, key: Seq<char>, pos: int) -> Option<i64> {
    match field(t, key, pos) {
        Some(JsonTree::Int(n)) => if i64::MIN <= n <= i64::MAX {
            Some(n as i64)
        } else {
            None
        },
        _ => None,
    }
}

/// Whether a field is absent, `null` or a string.
pub open spec fn optional_str_at(t: JsonTree, key: Seq<char>, pos: int) -> bool {
    match field(t, key, pos) {
        None => true,
        Some(v) => v is Null || v is Str,
    }
}

/// The number of a field, when it is an integer that fits `u64`.
pub open spec fn u64_at(t: JsonTree, key: Seq<char>, pos: int) -> Option<u64> {
    match field(t, key, pos) {
        Some(JsonTree::Int(n)) => if 0 <= n <= u64::MAX {
            Some(n as u64)
        } else {
            None
        },
        _ => None,
    }
}

/// A field of a record.
pub(crate) fn read_field<'a>(v: &'a Value, key: &str, pos: usize) -> (r: Option<&'a Value>)
    ensures
        match r {
            Some(x) => field(json_tree(*v), key@, pos as int) == Some(json_tree(*x)),
            None => field(json_tree(*v), key@, pos as int) is None,
        },
{
    match v.as_array() {
        Some(items) => {
            if pos < items.len() {
                Some(&items[pos])
            } else {
                None
            }
        },
        None => json_get(v, key),
    }
}

/// Whether a value can be a record of `fields` fields, the first `required` of
/// which an array has to list.
pub(crate) fn can_be_record(v: &Value, required: usize, fields: usize) -> (r: bool)
    ensures
        r == is_record(json_tree(*v), required as int, fields as int),
{
    match v.as_array() {
        Some(items) => required <= items.len() && items.len() <= fields,
        None => v.is_object(),
    }
}

/// The text of a field, when it is a string.
pub(crate) fn read_str(v: &Value, key: &str, pos: usize) -> (r: Option<String>)
    ensures
        match r {
            Some(s) => str_at(json_tree(*v), key@, pos as int) == Some(s@),
            None => str_at(json_tree(*v), key@, pos as int) is None,
        },
{
    match read_field(v, key, pos) {
        None => None,
        Some(x) => match x.as_str() {
            None => None,
            Some(s) => Some(s.to_owned()),
        },
    }
}

/// The number of a field, when it is an integer that fits `i64`.
pub(crate) fn read_i64(v: &Value, key: &str, pos: usize) -> (r: Option<i64>)
    ensures
        r == i64_at(json_tree(*v), key@, pos as int),
{
    match read_field(v, key, pos) {
        None => None,
        Some(x) => x.as_i64(),
    }
}

/// The number of a field, when it is an integer that fits `u64`.
pub(crate) fn read_u64(v: &Value, key: &str, pos: usize) -> (r: Option<u64>)
    ensures
        r == u64_at(json_tree(*v), key@, pos as int),
{
    match read_field(v, key, pos) {
        None => None,
        Some(x) => x.as_u64(),
    }
}

/// Of the members of an object the last one with a name counts, and a name
/// that no member has leads nowhere.
pub proof fn law_last_member_of_a_name_counts(
    members: Seq<(Seq<char>, JsonTree)>,
    name: Seq<char>,
    value: JsonTree,
    key: Seq<char>,
)
    ensures
        member(Seq::empty(), key) is None,
        member(members.push((name, value)), name) == Some(value),
        key != name ==> member(members.push((name, value)), key) == member(members, key),
        JsonTree::Obj(members).get(key) == member(members, key),
{
    assert(members.push((name, value)).drop_last() =~= members);
}

/// A record is an object or an array. A field of an object goes by its name,
/// one of an array by its place, and nothing else has fields.
pub proof fn law_fields_go_by_name_or_place(t: JsonTree, key: Seq<char>, pos: int)
    ensures
        t matches JsonTree::Obj(members) ==> field(t, key, pos) == member(members, key),
        t matches JsonTree::Arr(items) ==> (0 <= pos < items.len() ==> field(t, key, pos) == Some(
            items[pos],
        )) && (!(0 <= pos < items.len()) ==> field(t, key, pos) is None),
        !(t is Obj) && !(t is Arr) ==> field(t, key, pos) is None,
{
}

/// A record is an object, whatever its members, or an array with at least the
/// required fields and no more than there are; nothing else is.
pub proof fn law_records_are_objects_or_arrays(t: JsonTree, required: int, fields: int)
    ensures
        t is Obj ==> is_record(t, required, fields),
        t matches JsonTree::Arr(items) ==> (is_record(t, required, fields) <==> required
            <= items.len() <= fields),
        !(t is Obj) && !(t is Arr) ==> !is_record(t, required, fields),
{
}

/// A field is read as a text, a signed or an unsigned number exactly when it is
/// one that fits, and then as what it is.
pub proof fn law_fields_are_read_as_what_they_are(t: JsonTree, key: Seq<char>, pos: int)
    ensures
        field(t, key, pos) matches Some(JsonTree::Str(s)) ==> str_at(t, key, pos) == Some(s),
        str_at(t, key, pos) matches Some(s) ==> field(t, key, pos) == Some(JsonTree::Str(s)),
        field(t, key, pos) matches Some(JsonTree::Int(n)) ==> (i64::MIN <= n <= i64::MAX ==> i64_at(
            t,
            key,
            pos,
        ) == Some(n as i64)) && (0 <= n <= u64::MAX ==> u64_at(t, key, pos) == Some(n as u64)),
        i64_at(t, key, pos) matches Some(n) ==> field(t, key, pos) == Some(
            JsonTree::Int(n as i128),
        ),
        u64_at(t, key, pos) matches Some(n) ==> field(t, key, pos) == Some(
            JsonTree::Int(n as i128),
        ),
        optional_str_at(t, key, pos) <==> field(t, key, pos) is None || field(t, key, pos) == Some(
            JsonTree::Null,
        ) || str_at(t, key, pos) is Some,
{
}

/// Named values become members one for one and in order.
pub proof fn law_members_are_one_for_one(entries: Seq<(String, Value)>)
    ensures
        members_of(entries).len() == entries.len(),
        forall|i: int|
            0 <= i < entries.len() ==> (#[trigger] members_of(entries)[i]).0 == entries[i].0@
                && members_of(entries)[i].1 == json_tree(entries[i].1),
{
}

} // verus!
