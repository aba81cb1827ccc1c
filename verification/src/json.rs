//! Values of JSON, as `serde_json` reads and writes them.
use vstd::prelude::*;

use crate::text;

verus! {

/// A value of JSON.
#[verifier::external_type_specification]
#[verifier::external_body]
pub struct ExValue(serde_json::Value);

/// An object of JSON.
#[verifier::external_type_specification]
#[verifier::external_body]
#[verifier::reject_recursive_types(K)]
#[verifier::reject_recursive_types(V)]
pub struct ExObject<K, V>(serde_json::Map<K, V>);

/// Why a text is no JSON.
#[verifier::external_type_specification]
#[verifier::external_body]
pub struct ExError(serde_json::Error);

/// What a value of JSON holds. A number goes by its text, an object by its members in order.
pub enum JsonText {
    Null,
    Bool(bool),
    Number(Seq<char>),
    Text(Seq<char>),
    Array(Seq<JsonText>),
    Object(Seq<(Seq<char>, JsonText)>),
}

/// What a value of JSON holds.
pub uninterp spec fn held(value: serde_json::Value) -> JsonText;

/// The members of an object of JSON, in order.
pub uninterp spec fn members(object: serde_json::Map<String, serde_json::Value>) -> Seq<
    (Seq<char>, JsonText),
>;

/// What `serde_json::from_str` reads from a text, where it is JSON.
pub uninterp spec fn parsed(text: Seq<char>) -> Option<JsonText>;

/// The text of a value, as `serde_json::to_string_pretty` lays it out.
pub uninterp spec fn pretty(value: JsonText) -> Seq<char>;

/// What values of JSON hold, in order.
pub open spec fn all_held(values: Seq<serde_json::Value>) -> Seq<JsonText> {
    values.map_values(|v: serde_json::Value| held(v))
}

/// The position of the member of this name: the number of members where there is none.
pub open spec fn member_position(members: Seq<(Seq<char>, JsonText)>, name: Seq<char>) -> int
    decreases members.len(),
{
    if members.len() == 0 || members[0].0 == name {
        0
    } else {
        1 + member_position(members.skip(1), name)
    }
}

/// The member of this name, where the value is an object that has one.
pub open spec fn member(value: JsonText, name: Seq<char>) -> Option<JsonText> {
    match value {
        JsonText::Object(members) => {
            let p = member_position(members, name);
            if 0 <= p < members.len() {
                Some(members[p].1)
            } else {
                None
            }
        },
        _ => None,
    }
}

/// The value with another member of this name in the place of the one it has.
pub open spec fn with_member(value: JsonText, name: Seq<char>, new: JsonText) -> JsonText {
    match value {
        JsonText::Object(members) => {
            let p = member_position(members, name);
            if 0 <= p < members.len() {
                JsonText::Object(members.update(p, (members[p].0, new)))
            } else {
                value
            }
        },
        _ => value,
    }
}

/// The members with this one in the place of the one of its name, or behind all.
pub open spec fn put(
    members: Seq<(Seq<char>, JsonText)>,
    name: Seq<char>,
    new: JsonText,
) -> Seq<(Seq<char>, JsonText)> {
    let p = member_position(members, name);
    if 0 <= p < members.len() {
        members.update(p, (members[p].0, new))
    } else {
        members.push((name, new))
    }
}

/// The elements of the member of this name, where it is an array.
pub open spec fn array_member(value: JsonText, name: Seq<char>) -> Option<Seq<JsonText>> {
    match member(value, name) {
        Some(JsonText::Array(elements)) => Some(elements),
        _ => None,
    }
}

/// The text of the member of this name, where it is a string.
pub open spec fn text_member(value: JsonText, name: Seq<char>) -> Option<Seq<char>> {
    match member(value, name) {
        Some(JsonText::Text(s)) => Some(s),
        _ => None,
    }
}

/// `serde_json::Map::new`: an object without members.
pub assume_specification[ serde_json::Map::<String, serde_json::Value>::new ]() -> (r:
    serde_json::Map<String, serde_json::Value>)
    ensures
        members(r) == Seq::<(Seq<char>, JsonText)>::empty(),
;

/// `serde_json::Map::insert`: the member goes into the place of the one of its name, whose
/// value comes back, or behind all others.
pub assume_specification[ serde_json::Map::<String, serde_json::Value>::insert ](
    object: &mut serde_json::Map<String, serde_json::Value>,
    name: String,
    value: serde_json::Value,
) -> (r: Option<serde_json::Value>)
    ensures
        members(*final(object)) == put(members(*old(object)), name@, held(value)),
        match r {
            Some(was) => member(JsonText::Object(members(*old(object))), name@) == Some(held(was)),
            None => member(JsonText::Object(members(*old(object))), name@) is None,
        },
;

/// `serde_json::Value::String`: the value that holds a text.
#[verifier::external_body]
pub(crate) fn text_value(s: &str) -> (r: serde_json::Value)
    ensures
        held(r) == JsonText::Text(s@),
{
    serde_json::Value::String(s.to_owned())
}

/// `serde_json::Value::Bool`: the value that holds a truth value.
#[verifier::external_body]
pub(crate) fn bool_value(b: bool) -> (r: serde_json::Value)
    ensures
        held(r) == JsonText::Bool(b),
{
    serde_json::Value::Bool(b)
}

/// `serde_json::Value::from` of a whole number: the value that holds it, with its decimal
/// digits for a text.
#[verifier::external_body]
pub(crate) fn number_value(n: i64) -> (r: serde_json::Value)
    ensures
        held(r) == JsonText::Number(text::signed_decimal(n as int)),
{
    serde_json::Value::from(n)
}

/// `serde_json::Value::Array`: the value that holds an array.
#[verifier::external_body]
pub(crate) fn array_value(list: Vec<serde_json::Value>) -> (r: serde_json::Value)
    ensures
        held(r) == JsonText::Array(all_held(list@)),
{
    serde_json::Value::Array(list)
}

/// `serde_json::Value::Object`: the value that holds an object.
#[verifier::external_body]
pub(crate) fn object_value(object: serde_json::Map<String, serde_json::Value>) -> (r:
    serde_json::Value)
    ensures
        held(r) == JsonText::Object(members(object)),
{
    serde_json::Value::Object(object)
}

/// `serde_json::from_str`: the value that a text holds, or an error where it is no JSON.
#[verifier::external_body]
pub(crate) fn parse(text: &str) -> (r: Result<serde_json::Value, serde_json::Error>)
    ensures
        match r {
            Ok(value) => parsed(text@) == Some(held(value)),
            Err(_) => parsed(text@) is None,
        },
{
    serde_json::from_str(text)
}

/// `serde_json::to_string_pretty`: the text of a value. A value has no members whose names are
/// not strings, so there is always a text.
#[verifier::external_body]
pub(crate) fn print(value: &serde_json::Value) -> (r: Result<String, serde_json::Error>)
    ensures
        r is Ok,
        r->Ok_0@ == pretty(held(*value)),
{
    serde_json::to_string_pretty(value)
}

/// `serde_json::Value::get` and `serde_json::Value::as_array`: the elements of the member of
/// this name, where the value is an object and the member an array.
#[verifier::external_body]
pub(crate) fn elements(value: &serde_json::Value, name: &str) -> (r: Option<
    Vec<serde_json::Value>,
>)
    ensures
        match r {
            Some(list) => array_member(held(*value), name@) == Some(all_held(list@)),
            None => array_member(held(*value), name@) is None,
        },
{
    value.get(name).and_then(serde_json::Value::as_array).cloned()
}

/// `serde_json::Value::get` and `serde_json::Value::as_str`: the text of the member of this
/// name, where the value is an object and the member a string.
#[verifier::external_body]
pub(crate) fn string(value: &serde_json::Value, name: &str) -> (r: Option<String>)
    ensures
        match r {
            Some(s) => text_member(held(*value), name@) == Some(s@),
            None => text_member(held(*value), name@) is None,
        },
{
    value.get(name).and_then(serde_json::Value::as_str).map(str::to_owned)
}

/// `serde_json::Value::index_mut`: puts an array in the place of the member of this name, which
/// is there.
#[verifier::external_body]
pub(crate) fn set_array(value: &mut serde_json::Value, name: &str, list: Vec<serde_json::Value>)
    requires
        member(held(*old(value)), name@) is Some,
    ensures
        held(*final(value)) == with_member(
            held(*old(value)),
            name@,
            JsonText::Array(all_held(list@)),
        ),
{
    value[name] = serde_json::Value::Array(list);
}

/// What the position of a member says.
pub proof fn member_position_facts(members: Seq<(Seq<char>, JsonText)>, name: Seq<char>)
    ensures
        0 <= member_position(members, name) <= members.len(),
        member_position(members, name) < members.len() ==> members[member_position(
            members,
            name,
        )].0 == name,
        forall|k: int|
            0 <= k < member_position(members, name) ==> (#[trigger] members[k]).0 != name,
    decreases members.len(),
{
    if members.len() > 0 && members[0].0 != name {
        let rest = members.skip(1);
        member_position_facts(rest, name);
        assert forall|k: int| 0 <= k < member_position(members, name) implies (
        #[trigger] members[k]).0 != name by {
            if k > 0 {
                assert(rest[k - 1] == members[k]);
            }
        }
    }
}

/// A member that has been replaced is the new one, to replace it twice is to replace it once,
/// and to replace it by itself changes nothing.
pub proof fn with_member_facts(value: JsonText, name: Seq<char>, new: JsonText, newer: JsonText)
    requires
        member(value, name) is Some,
    ensures
        member(with_member(value, name, new), name) == Some(new),
        with_member(with_member(value, name, new), name, newer) == with_member(value, name, newer),
        with_member(value, name, member(value, name)->0) == value,
{
    let members = value->Object_0;
    let once = with_member(value, name, new)->Object_0;
    let p = member_position(members, name);
    member_position_facts(members, name);
    member_position_facts(once, name);
    assert(once[p].0 == name);
    assert forall|k: int| 0 <= k < p implies (#[trigger] once[k]).0 != name by {
        assert(once[k] == members[k]);
    }
    assert(member_position(once, name) == p);
    assert(once.update(p, (once[p].0, newer)) =~= members.update(p, (members[p].0, newer)));
    assert(members.update(p, (members[p].0, members[p].1)) =~= members);
}

/// A member is found by its name: the first that has it, and none where no member has it.
pub proof fn member_law(members: Seq<(Seq<char>, JsonText)>, name: Seq<char>, i: int)
    ensures
        0 <= i < members.len() && members[i].0 == name && (forall|k: int|
            0 <= k < i ==> (#[trigger] members[k]).0 != name) ==> member(
            JsonText::Object(members),
            name,
        ) == Some(members[i].1),
        (forall|k: int| 0 <= k < members.len() ==> (#[trigger] members[k]).0 != name) ==> member(
            JsonText::Object(members),
            name,
        ) is None,
{
    member_position_facts(members, name);
    if 0 <= i < members.len() && members[i].0 == name && (forall|k: int|
        0 <= k < i ==> (#[trigger] members[k]).0 != name) {
        assert(member_position(members, name) == i);
    }
}

/// To replace a member leaves all others as they are.
pub proof fn other_members_law(value: JsonText, name: Seq<char>, new: JsonText, other: Seq<char>)
    requires
        other != name,
    ensures
        member(with_member(value, name, new), other) == member(value, other),
{
    match value {
        JsonText::Object(members) => {
            let p = member_position(members, name);
            member_position_facts(members, name);
            member_position_facts(members, other);
            if p < members.len() {
                let changed = members.update(p, (members[p].0, new));
                member_position_facts(changed, other);
                assert forall|k: int| 0 <= k < members.len() implies (#[trigger] changed[k]).0
                    == members[k].0 by {}
                let q = member_position(members, other);
                let r = member_position(changed, other);
                if q < r {
                    assert(changed[q].0 == members[q].0);
                }
                if r < q {
                    assert(changed[r].0 == members[r].0);
                }
                assert(q == r);
            }
        },
        _ => {},
    }
}

} // verus!
