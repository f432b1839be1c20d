//! JSON values.

use vstd::prelude::*;
use crate::text;

verus! {

/// `serde_json::Number`: a JSON number. Nothing inside it is visible here; the
/// integer that one holds is [`number_value`].
#[verifier::external_type_specification]
#[verifier::external_body]
pub struct ExNumber(serde_json::Number);

/// The integer that a `serde_json::Number` holds, or `None` where it holds a
/// floating-point number.
pub uninterp spec fn number_value(n: serde_json::Number) -> Option<int>;

/// A JSON value in the abstract. An object is a map: its members have no order. A
/// number that is no integer stands for itself.
pub enum JsonView {
    Null,
    Bool(bool),
    Int(int),
    Float(serde_json::Number),
    Str(Seq<char>),
    Array(Seq<JsonView>),
    Object(Map<Seq<char>, JsonView>),
}

/// A JSON value. The derived comparison goes by the list of an object's members, and so
/// by their order too.
#[derive(Debug, PartialEq)]
pub enum Json {
    Null,
    Bool(bool),
    Number(serde_json::Number),
    Str(String),
    Array(Vec<Json>),
    /// The members, by name. Where a name is repeated, the last member counts.
    Object(Vec<(String, Json)>),
}

/// The value of a number.
pub open spec fn number_view(n: serde_json::Number) -> JsonView {
    match number_value(n) {
        Some(i) => JsonView::Int(i),
        None => JsonView::Float(n),
    }
}

/// The map that a list of members denotes: of several with one name, the last counts.
pub open spec fn members_map(members: Seq<(Seq<char>, JsonView)>) -> Map<Seq<char>, JsonView>
    decreases members.len(),
{
    if members.len() == 0 {
        Map::empty()
    } else {
        members_map(members.drop_last()).insert(members.last().0, members.last().1)
    }
}

/// The value that a [`Json`] denotes.
pub open spec fn json_view(j: Json) -> JsonView
    decreases j,
{
    match j {
        Json::Null => JsonView::Null,
        Json::Bool(b) => JsonView::Bool(b),
        Json::Number(n) => number_view(n),
        Json::Str(s) => JsonView::Str(s@),
        Json::Array(items) => JsonView::Array(
            Seq::new(
                items@.len(),
                |i: int|
                    if 0 <= i < items@.len() {
                        json_view(items@[i])
                    } else {
                        JsonView::Null
                    },
            ),
        ),
        Json::Object(members) => JsonView::Object(object_view(members@)),
    }
}

/// The map that the members of a [`Json`] object denote.
pub open spec fn object_view(members: Seq<(String, Json)>) -> Map<Seq<char>, JsonView>
    decreases members,
{
    if members.len() == 0 {
        Map::empty()
    } else {
        object_view(members.drop_last()).insert(members.last().0@, json_view(members.last().1))
    }
}

impl View for Json {
    type V = JsonView;

    open spec fn view(&self) -> JsonView {
        json_view(*self)
    }
}

/// The values of a list.
pub open spec fn items_view(items: Seq<Json>) -> Seq<JsonView> {
    items.map_values(|j: Json| j@)
}

/// The values of a list of members, each with its name.
pub open spec fn pairs_view(members: Seq<(String, Json)>) -> Seq<(Seq<char>, JsonView)> {
    members.map_values(|m: (String, Json)| (m.0@, m.1@))
}

/// Texts as a JSON array.
pub open spec fn texts_view(texts: Seq<Seq<char>>) -> JsonView {
    JsonView::Array(texts.map_values(|t: Seq<char>| JsonView::Str(t)))
}

/// An array's value is the values of its items.
pub proof fn lemma_array_view(items: Vec<Json>)
    ensures
        Json::Array(items)@ == JsonView::Array(items_view(items@)),
{
    assert(Json::Array(items)@->Array_0 =~= items_view(items@));
}

/// An object's map is the map of its members' values.
pub proof fn lemma_object_view(members: Seq<(String, Json)>)
    ensures
        object_view(members) == members_map(pairs_view(members)),
    decreases members.len(),
{
    if members.len() > 0 {
        lemma_object_view(members.drop_last());
        assert(pairs_view(members).drop_last() =~= pairs_view(members.drop_last()));
    }
}

/// An object holds under a name the last member with that name.
pub proof fn lemma_member_found(members: Seq<(String, Json)>, i: int)
    requires
        0 <= i < members.len(),
        forall|k: int| i < k < members.len() ==> (#[trigger] members[k]).0@ != members[i].0@,
    ensures
        object_view(members).contains_key(members[i].0@),
        object_view(members)[members[i].0@] == members[i].1@,
    decreases members.len(),
{
    if i < members.len() - 1 {
        assert(members[members.len() - 1].0@ != members[i].0@);
        lemma_member_found(members.drop_last(), i);
    }
}

/// An object holds nothing under a name that no member has.
pub proof fn lemma_member_absent(members: Seq<(String, Json)>, name: Seq<char>)
    requires
        forall|k: int| 0 <= k < members.len() ==> (#[trigger] members[k]).0@ != name,
    ensures
        !object_view(members).contains_key(name),
    decreases members.len(),
{
    if members.len() > 0 {
        assert(members[members.len() - 1].0@ != name);
        lemma_member_absent(members.drop_last(), name);
    }
}

/// `serde_json::Number::from(u64)`: the result holds the argument.
#[verifier::external_body]
fn number_from_u64(n: u64) -> (r: serde_json::Number)
    ensures
        number_value(r) == Some(n as int),
{
    serde_json::Number::from(n)
}

/// `Clone` of `serde_json::Number`: the result is the same number.
#[verifier::external_body]
pub(crate) fn copy_number(n: &serde_json::Number) -> (r: serde_json::Number)
    ensures
        r == *n,
{
    n.clone()
}

impl Clone for Json {
    fn clone(&self) -> (r: Self)
        ensures
            r@ == self@,
        decreases *self,
    {
        match self {
            Json::Null => Json::Null,
            Json::Bool(b) => Json::Bool(*b),
            Json::Number(n) => Json::Number(copy_number(n)),
            Json::Str(s) => Json::Str(s.clone()),
            Json::Array(items) => {
                let mut copy: Vec<Json> = Vec::new();
                let mut i: usize = 0;
                while i < items.len()
                    invariant
                        i <= items.len(),
                        *self == Json::Array(*items),
                        copy@.len() == i,
                        forall|k: int| 0 <= k < i ==> (#[trigger] copy@[k])@ == items@[k]@,
                    decreases items.len() - i,
                {
                    assert(decreases_to!(*self => self->Array_0));
                    assert(decreases_to!(self->Array_0 => items@));
                    copy.push(items[i].clone());
                    i += 1;
                }
                proof {
                    assert(items_view(copy@) =~= items_view(items@));
                    lemma_array_view(copy);
                    lemma_array_view(*items);
                }
                Json::Array(copy)
            },
            Json::Object(members) => {
                let mut copy: Vec<(String, Json)> = Vec::new();
                let mut i: usize = 0;
                while i < members.len()
                    invariant
                        i <= members.len(),
                        *self == Json::Object(*members),
                        copy@.len() == i,
                        forall|k: int|
                            0 <= k < i ==> (#[trigger] copy@[k]).0@ == members@[k].0@ && copy@[k].1@
                                == members@[k].1@,
                    decreases members.len() - i,
                {
                    assert(decreases_to!(*self => self->Object_0));
                    assert(decreases_to!(self->Object_0 => members@));
                    copy.push((members[i].0.clone(), members[i].1.clone()));
                    i += 1;
                }
                proof {
                    assert(pairs_view(copy@) =~= pairs_view(members@));
                    lemma_object_view(copy@);
                    lemma_object_view(members@);
                }
                Json::Object(copy)
            },
        }
    }
}

/// What an object holds under a name; nothing where the value is no object.
pub open spec fn member_of(j: JsonView, name: Seq<char>) -> Option<JsonView> {
    match j {
        JsonView::Object(m) => if m.contains_key(name) {
            Some(m[name])
        } else {
            None
        },
        _ => None,
    }
}

impl Json {
    /// A text.
    pub fn text(s: &str) -> (r: Json)
        ensures
            r@ == JsonView::Str(s@),
    {
        Json::Str(s.to_owned())
    }

    /// A natural number.
    pub fn unsigned(n: u64) -> (r: Json)
        ensures
            r@ == JsonView::Int(n as int),
    {
        Json::Number(number_from_u64(n))
    }

    /// An array of texts.
    pub fn texts(items: &[String]) -> (r: Json)
        ensures
            r@ == texts_view(items.deep_view()),
    {
        let mut list: Vec<Json> = Vec::new();
        let mut i: usize = 0;
        while i < items.len()
            invariant
                i <= items.len(),
                list@.len() == i,
                forall|k: int| 0 <= k < i ==> (#[trigger] list@[k])@ == JsonView::Str(items@[k]@),
            decreases items.len() - i,
        {
            list.push(Json::Str(items[i].clone()));
            i += 1;
        }
        proof {
            lemma_array_view(list);
            assert(items_view(list@) =~= texts_view(items.deep_view())->Array_0);
        }
        Json::Array(list)
    }

    /// What an object holds under a name; `None` where there is no such member or the
    /// value is no object.
    pub fn get(&self, name: &str) -> (r: Option<&Json>)
        ensures
            r is Some <==> member_of(self@, name@) is Some,
            r is Some ==> r->0@ == member_of(self@, name@)->0,
    {
        match self {
            Json::Object(members) => {
                let mut i: usize = members.len();
                while i > 0
                    invariant
                        i <= members.len(),
                        *self == Json::Object(*members),
                        forall|k: int| i <= k < members.len() ==> (#[trigger] members@[k]).0@ != name@,
                    decreases i,
                {
                    i -= 1;
                    if text::same(members[i].0.as_str(), name) {
                        proof {
                            lemma_member_found(members@, i as int);
                        }
                        return Some(&members[i].1);
                    }
                }
                proof {
                    lemma_member_absent(members@, name@);
                }
                None
            },
            _ => None,
        }
    }

    /// The text that a value is, if it is one.
    pub fn as_str(&self) -> (r: Option<&str>)
        ensures
            r is Some <==> self@ is Str,
            r is Some ==> self@ == JsonView::Str(r->0@),
    {
        match self {
            Json::Str(s) => Some(s.as_str()),
            _ => None,
        }
    }
}

/// The members of an object that is being put together.
pub struct Members {
    list: Vec<(String, Json)>,
}

impl View for Members {
    type V = Map<Seq<char>, JsonView>;

    closed spec fn view(&self) -> Map<Seq<char>, JsonView> {
        object_view(self.list@)
    }
}

impl Members {
    /// No members.
    pub fn new() -> (r: Members)
        ensures
            r@ == Map::<Seq<char>, JsonView>::empty(),
    {
        Members { list: Vec::new() }
    }

    /// One member more; it takes the place of one with its name.
    pub fn with(self, name: &str, value: Json) -> (r: Members)
        ensures
            r@ == self@.insert(name@, value@),
    {
        let mut list = self.list;
        list.push((name.to_owned(), value));
        assert(list@.drop_last() =~= self.list@);
        Members { list }
    }

    /// The object with these members.
    pub fn object(self) -> (r: Json)
        ensures
            r@ == JsonView::Object(self@),
    {
        Json::Object(self.list)
    }
}

/// What each form of a value denotes.
pub proof fn law_json_views(b: bool, n: serde_json::Number, s: String, items: Vec<Json>)
    ensures
        Json::Null@ is Null,
        Json::Bool(b)@ == JsonView::Bool(b),
        number_value(n) matches Some(i) ==> Json::Number(n)@ == JsonView::Int(i),
        number_value(n) is None ==> Json::Number(n)@ == JsonView::Float(n),
        Json::Str(s)@ == JsonView::Str(s@),
        Json::Array(items)@ is Array,
        Json::Array(items)@->Array_0.len() == items@.len(),
        forall|i: int|
            0 <= i < items@.len() ==> #[trigger] Json::Array(items)@->Array_0[i] == items@[i]@,
{
}

/// An object denotes what its last member with a name denotes under that name, and
/// nothing under any other name.
pub proof fn law_object_members(members: Vec<(String, Json)>, i: int, name: Seq<char>)
    ensures
        Json::Object(members)@ is Object,
        0 <= i < members@.len() && members@[i].0@ == name && (forall|k: int|
            i < k < members@.len() ==> (#[trigger] members@[k]).0@ != name) ==> member_of(
            Json::Object(members)@,
            name,
        ) == Some(members@[i].1@),
        (forall|k: int| 0 <= k < members@.len() ==> (#[trigger] members@[k]).0@ != name)
            ==> member_of(Json::Object(members)@, name) is None,
{
    if 0 <= i < members@.len() && members@[i].0@ == name && (forall|k: int|
        i < k < members@.len() ==> (#[trigger] members@[k]).0@ != name) {
        lemma_member_found(members@, i);
    }
    if forall|k: int| 0 <= k < members@.len() ==> (#[trigger] members@[k]).0@ != name {
        lemma_member_absent(members@, name);
    }
}

/// Looking a name up in an object.
pub proof fn law_member_of(members: Map<Seq<char>, JsonView>, name: Seq<char>, j: JsonView)
    ensures
        members.contains_key(name) ==> member_of(JsonView::Object(members), name) == Some(
            members[name],
        ),
        !members.contains_key(name) ==> member_of(JsonView::Object(members), name) is None,
        !(j is Object) ==> member_of(j, name) is None,
{
}

/// Texts as an array: as many items, in the same order, each the text.
pub proof fn law_texts_view(texts: Seq<Seq<char>>)
    ensures
        texts_view(texts) is Array,
        texts_view(texts)->Array_0.len() == texts.len(),
        forall|i: int|
            0 <= i < texts.len() ==> #[trigger] texts_view(texts)->Array_0[i] == JsonView::Str(
                texts[i],
            ),
{
}

/// The values of a list and of named members: as many, and each in its place.
pub proof fn law_list_views(items: Seq<Json>, members: Seq<(String, Json)>)
    ensures
        items_view(items).len() == items.len(),
        forall|i: int| 0 <= i < items.len() ==> #[trigger] items_view(items)[i] == items[i]@,
        pairs_view(members).len() == members.len(),
        forall|i: int|
            0 <= i < members.len() ==> #[trigger] pairs_view(members)[i] == (
                members[i].0@,
                members[i].1@,
            ),
{
}

/// A member more takes the place of one with its name, and leaves the others.
pub proof fn law_one_member_more(members: Seq<(Seq<char>, JsonView)>, name: Seq<char>, value: JsonView)
    ensures
        members_map(Seq::empty()) == Map::<Seq<char>, JsonView>::empty(),
        members_map(members.push((name, value))) == members_map(members).insert(name, value),
{
    assert(members.push((name, value)).drop_last() =~= members);
}

} // verus!
