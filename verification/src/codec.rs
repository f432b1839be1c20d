//! JSON text, read and written by `serde_json`.

use vstd::prelude::*;
use crate::json::{
    copy_number, items_view, lemma_array_view, lemma_object_view, members_map, number_view,
    object_view, pairs_view, Json, JsonView,
};
use crate::text;

verus! {

/// `serde_json::Value`: a JSON value as the reader and the writer hold it. Nothing
/// inside it is visible here; what one holds is [`value_view`].
#[verifier::external_type_specification]
#[verifier::external_body]
pub struct ExValue(serde_json::Value);

/// The JSON value that a `serde_json::Value` holds.
pub uninterp spec fn value_view(v: serde_json::Value) -> JsonView;

/// What `serde_json::from_slice` makes of JSON text: the value, or the text of its
/// error.
pub uninterp spec fn parsed(text: Seq<u8>) -> Result<JsonView, Seq<char>>;

/// Reading JSON text gives a value.
pub open spec fn reads_as(text: Seq<u8>, j: JsonView) -> bool {
    parsed(text) == Ok::<JsonView, Seq<char>>(j)
}

/// What `serde_json::to_vec` writes for a value.
pub uninterp spec fn printed(j: JsonView) -> Seq<u8>;

/// A value that JSON text keeps exactly: without floating-point numbers, and with arrays
/// and objects nested no deeper than so many levels.
pub open spec fn readable(j: JsonView, levels: nat) -> bool
    decreases j,
{
    match j {
        JsonView::Float(_) => false,
        JsonView::Array(items) => levels > 0 && forall|i: int|
            0 <= i < items.len() ==> readable(#[trigger] items[i], (levels - 1) as nat),
        JsonView::Object(members) => levels > 0 && forall|k: Seq<char>|
            members.contains_key(k) ==> readable(#[trigger] members[k], (levels - 1) as nat),
        _ => true,
    }
}

/// How many levels of arrays and objects `serde_json` reads, one inside the other.
pub open spec fn read_levels() -> nat {
    127
}

/// The JSON text of the empty object, `{}`.
pub open spec fn empty_object_text() -> Seq<u8> {
    seq![0x7bu8, 0x7du8]
}

/// One level of a `serde_json::Value`: the values inside are still such.
pub enum Node {
    Null,
    Bool(bool),
    Number(serde_json::Number),
    Str(String),
    Array(Vec<serde_json::Value>),
    Object(Vec<(String, serde_json::Value)>),
}

/// The values that a list of `serde_json::Value` holds.
pub open spec fn values_view(values: Seq<serde_json::Value>) -> Seq<JsonView> {
    values.map_values(|v: serde_json::Value| value_view(v))
}

/// The named values that a list of members holds.
pub open spec fn entries_view(members: Seq<(String, serde_json::Value)>) -> Seq<(Seq<char>, JsonView)> {
    members.map_values(|m: (String, serde_json::Value)| (m.0@, value_view(m.1)))
}

/// The JSON value that one level denotes.
pub open spec fn node_view(n: Node) -> JsonView {
    match n {
        Node::Null => JsonView::Null,
        Node::Bool(b) => JsonView::Bool(b),
        Node::Number(n) => number_view(n),
        Node::Str(s) => JsonView::Str(s@),
        Node::Array(items) => JsonView::Array(values_view(items@)),
        Node::Object(members) => JsonView::Object(members_map(entries_view(members@))),
    }
}

/// No two members have one name.
pub open spec fn names_differ(members: Seq<(String, serde_json::Value)>) -> bool {
    forall|i: int, k: int|
        0 <= i < k < members.len() ==> (#[trigger] members[i]).0@ != (#[trigger] members[k]).0@
}

/// The variants of `serde_json::Value`, told apart: what comes out denotes what went
/// in. The members of a `serde_json::Map` have different names.
#[verifier::external_body]
fn open_value(v: serde_json::Value) -> (r: Node)
    ensures
        node_view(r) == value_view(v),
        r matches Node::Object(members) ==> names_differ(members@),
{
    match v {
        serde_json::Value::Null => Node::Null,
        serde_json::Value::Bool(b) => Node::Bool(b),
        serde_json::Value::Number(n) => Node::Number(n),
        serde_json::Value::String(s) => Node::Str(s),
        serde_json::Value::Array(items) => Node::Array(items),
        serde_json::Value::Object(members) => Node::Object(members.into_iter().collect()),
    }
}

/// The variants of `serde_json::Value`, built: what comes out holds what went in. The
/// members that a `serde_json::Map` is collected from have different names, so that it
/// holds each of them.
#[verifier::external_body]
fn build_value(n: Node) -> (r: serde_json::Value)
    requires
        n matches Node::Object(members) ==> names_differ(members@),
    ensures
        value_view(r) == node_view(n),
{
    match n {
        Node::Null => serde_json::Value::Null,
        Node::Bool(b) => serde_json::Value::Bool(b),
        Node::Number(n) => serde_json::Value::Number(n),
        Node::Str(s) => serde_json::Value::String(s),
        Node::Array(items) => serde_json::Value::Array(items),
        Node::Object(members) => serde_json::Value::Object(members.into_iter().collect()),
    }
}

/// `serde_json::from_slice` for a `serde_json::Value`: what it reads, and the text of
/// its error, depend on the bytes alone. In `{}` it reads the empty object.
#[verifier::external_body]
fn read_value(text: &[u8]) -> (r: Result<serde_json::Value, String>)
    ensures
        match r {
            Ok(v) => parsed(text@) == Ok::<JsonView, Seq<char>>(value_view(v)),
            Err(e) => parsed(text@) == Err::<JsonView, Seq<char>>(e@),
        },
        text@ == empty_object_text() ==> r is Ok && value_view(r->Ok_0) == JsonView::Object(
            Map::empty(),
        ),
{
    serde_json::from_slice::<serde_json::Value>(text).map_err(|e| e.to_string())
}

/// `serde_json::to_vec` for a `serde_json::Value`: it succeeds, since such a value
/// refuses no serializer and its maps have text for names, and what it writes depends
/// on the value alone. For the empty object it writes `{}`. In what it writes
/// `serde_json::from_slice` reads the value again, where the value holds no
/// floating-point number and nests no deeper than the reader goes, which gives up at
/// the level after the last of [`read_levels`]; nothing is said of other values. On an
/// error, which does not come, this is the error's text.
#[verifier::external_body]
fn write_value(v: &serde_json::Value) -> (r: Result<Vec<u8>, String>)
    ensures
        r is Ok,
        r->Ok_0@ == printed(value_view(*v)),
        value_view(*v) == JsonView::Object(Map::empty()) ==> r->Ok_0@ == empty_object_text(),
        readable(value_view(*v), read_levels()) ==> reads_as(r->Ok_0@, value_view(*v)),
{
    serde_json::to_vec(v).map_err(|e| e.to_string())
}

/// A map holds under a name the last member with that name.
proof fn lemma_entry_found(members: Seq<(Seq<char>, JsonView)>, i: int)
    requires
        0 <= i < members.len(),
        forall|k: int| i < k < members.len() ==> (#[trigger] members[k]).0 != members[i].0,
    ensures
        members_map(members).contains_key(members[i].0),
        members_map(members)[members[i].0] == members[i].1,
    decreases members.len(),
{
    if i < members.len() - 1 {
        assert(members[members.len() - 1].0 != members[i].0);
        lemma_entry_found(members.drop_last(), i);
    }
}

/// A `serde_json::Value` as a [`Json`].
fn from_value(v: serde_json::Value) -> (r: Json)
    ensures
        r@ == value_view(v),
    decreases value_view(v),
{
    let ghost whole = value_view(v);
    match open_value(v) {
        Node::Null => Json::Null,
        Node::Bool(b) => Json::Bool(b),
        Node::Number(n) => Json::Number(n),
        Node::Str(s) => Json::Str(s),
        Node::Array(items) => {
            let mut list: Vec<Json> = Vec::new();
            for item in it: items
                invariant
                    it.seq() == items@,
                    whole == value_view(v),
                    whole == JsonView::Array(values_view(items@)),
                    list@.len() == it.index(),
                    forall|k: int|
                        0 <= k < list@.len() ==> (#[trigger] list@[k])@ == value_view(items@[k]),
            {
                proof {
                    let i = it.index() as int;
                    assert(decreases_to!(whole => whole->Array_0));
                    assert(decreases_to!(whole->Array_0 => whole->Array_0[i]));
                    assert(whole->Array_0[i] == value_view(item));
                }
                list.push(from_value(item));
            }
            proof {
                lemma_array_view(list);
                assert(items_view(list@) =~= values_view(items@));
            }
            Json::Array(list)
        },
        Node::Object(members) => {
            let mut list: Vec<(String, Json)> = Vec::new();
            for member in it: members
                invariant
                    it.seq() == members@,
                    whole == value_view(v),
                    whole == JsonView::Object(members_map(entries_view(members@))),
                    names_differ(members@),
                    list@.len() == it.index(),
                    forall|k: int|
                        0 <= k < list@.len() ==> (#[trigger] list@[k]).0@ == members@[k].0@
                            && list@[k].1@ == value_view(members@[k].1),
            {
                let (name, value) = member;
                proof {
                    let entries = entries_view(members@);
                    let i = it.index() as int;
                    assert(entries[i] == (name@, value_view(value)));
                    assert forall|k: int| i < k < entries.len() implies (#[trigger] entries[k]).0
                        != entries[i].0 by {
                        assert(members@[i].0@ != members@[k].0@);
                    }
                    lemma_entry_found(entries, i);
                    assert(decreases_to!(whole => whole->Object_0[name@]));
                }
                list.push((name, from_value(value)));
            }
            proof {
                lemma_object_view(list@);
                assert(pairs_view(list@) =~= entries_view(members@));
            }
            Json::Object(list)
        },
    }
}

/// Giving a member whose name no other has a new value puts that value into the map.
proof fn lemma_entry_replaced(members: Seq<(Seq<char>, JsonView)>, i: int, value: JsonView)
    requires
        0 <= i < members.len(),
        forall|k: int| i < k < members.len() ==> (#[trigger] members[k]).0 != members[i].0,
    ensures
        members_map(members.update(i, (members[i].0, value))) == members_map(members).insert(
            members[i].0,
            value,
        ),
    decreases members.len(),
{
    let updated = members.update(i, (members[i].0, value));
    let rest = members.drop_last();
    if i == members.len() - 1 {
        assert(updated.drop_last() =~= rest);
        assert(members_map(updated) =~= members_map(members).insert(members[i].0, value));
    } else {
        assert(members[members.len() - 1].0 != members[i].0);
        lemma_entry_replaced(rest, i, value);
        assert(updated.drop_last() =~= rest.update(i, (rest[i].0, value)));
        assert(members_map(updated) =~= members_map(members).insert(members[i].0, value));
    }
}

/// Puts a member into a list whose members have different names: in the place of the
/// one with its name, or at the end.
fn put_member(list: &mut Vec<(String, serde_json::Value)>, name: String, value: serde_json::Value)
    requires
        names_differ(old(list)@),
    ensures
        names_differ(final(list)@),
        members_map(entries_view(final(list)@)) == members_map(entries_view(old(list)@)).insert(
            name@,
            value_view(value),
        ),
{
    let ghost before = list@;
    let ghost entry = (name@, value_view(value));
    let mut i: usize = 0;
    while i < list.len()
        invariant
            i <= list.len(),
            list@ == before,
            before == old(list)@,
            entry == (name@, value_view(value)),
            names_differ(before),
            forall|k: int| 0 <= k < i ==> (#[trigger] before[k]).0@ != name@,
        decreases list.len() - i,
    {
        if text::same(list[i].0.as_str(), name.as_str()) {
            list.set(i, (name, value));
            proof {
                let entries = entries_view(before);
                assert forall|k: int| i < k < entries.len() implies (#[trigger] entries[k]).0
                    != entries[i as int].0 by {
                    assert(before[i as int].0@ != before[k].0@);
                }
                lemma_entry_replaced(entries, i as int, value_view(value));
                assert(entries_view(list@) =~= entries.update(i as int, entry));
                assert forall|a: int, b: int| 0 <= a < b < list@.len() implies (
                #[trigger] list@[a]).0@ != (#[trigger] list@[b]).0@ by {
                    assert(before[a].0@ != before[b].0@);
                }
            }
            return;
        }
        i += 1;
    }
    list.push((name, value));
    proof {
        assert(entries_view(list@).drop_last() =~= entries_view(before));
        assert forall|a: int, b: int| 0 <= a < b < list@.len() implies (#[trigger] list@[a]).0@
            != (#[trigger] list@[b]).0@ by {
            if b < before.len() {
                assert(before[a].0@ != before[b].0@);
            } else {
                assert(before[a].0@ != name@);
            }
        }
    }
}

/// A [`Json`] as a `serde_json::Value`. Of several members with one name the last is kept.
fn to_value(j: &Json) -> (r: serde_json::Value)
    ensures
        value_view(r) == j@,
    decreases *j,
{
    match j {
        Json::Null => build_value(Node::Null),
        Json::Bool(b) => build_value(Node::Bool(*b)),
        Json::Number(n) => build_value(Node::Number(copy_number(n))),
        Json::Str(s) => build_value(Node::Str(s.clone())),
        Json::Array(items) => {
            let mut list: Vec<serde_json::Value> = Vec::new();
            let mut i: usize = 0;
            while i < items.len()
                invariant
                    i <= items.len(),
                    *j == Json::Array(*items),
                    list@.len() == i,
                    forall|k: int| 0 <= k < i ==> value_view(#[trigger] list@[k]) == items@[k]@,
                decreases items.len() - i,
            {
                assert(decreases_to!(*j => j->Array_0));
                assert(decreases_to!(j->Array_0 => items@));
                list.push(to_value(&items[i]));
                i += 1;
            }
            proof {
                lemma_array_view(*items);
                assert(items_view(items@) =~= values_view(list@));
            }
            build_value(Node::Array(list))
        },
        Json::Object(members) => {
            let mut list: Vec<(String, serde_json::Value)> = Vec::new();
            let mut i: usize = 0;
            while i < members.len()
                invariant
                    i <= members.len(),
                    *j == Json::Object(*members),
                    names_differ(list@),
                    members_map(entries_view(list@)) == object_view(members@.take(i as int)),
                decreases members.len() - i,
            {
                assert(decreases_to!(*j => j->Object_0));
                assert(decreases_to!(j->Object_0 => members@));
                put_member(&mut list, members[i].0.clone(), to_value(&members[i].1));
                i += 1;
                assert(members@.take(i as int).drop_last() =~= members@.take(i - 1));
            }
            assert(members@.take(i as int) =~= members@);
            build_value(Node::Object(list))
        },
    }
}

/// Reads JSON text.
pub fn parse(text: &[u8]) -> (r: Result<Json, String>)
    ensures
        match r {
            Ok(j) => parsed(text@) == Ok::<JsonView, Seq<char>>(j@),
            Err(e) => parsed(text@) == Err::<JsonView, Seq<char>>(e@),
        },
        text@ == empty_object_text() ==> r is Ok && r->Ok_0@ == JsonView::Object(Map::empty()),
{
    match read_value(text) {
        Ok(v) => Ok(from_value(v)),
        Err(e) => Err(e),
    }
}

/// Writes JSON text. A value that JSON text keeps exactly is read in it again.
pub fn print(j: &Json) -> (r: Result<Vec<u8>, String>)
    ensures
        r is Ok,
        r->Ok_0@ == printed(j@),
        j@ == JsonView::Object(Map::empty()) ==> r->Ok_0@ == empty_object_text(),
        readable(j@, read_levels()) ==> reads_as(r->Ok_0@, j@),
{
    write_value(&to_value(j))
}

} // verus!
