//! The directory's side: escaping what goes into a search filter, and turning what
//! comes out of a search into JSON.

use vstd::prelude::*;
use crate::json::{
    items_view, lemma_array_view, member_of, object_view, texts_view, Json, JsonView, Members,
};

verus! {

/// A character as it stands in the literal part of a search filter: `\`, `*`, `(`,
/// `)` and NUL as a backslash and two hexadecimal digits, every other as itself.
pub open spec fn escaped_char(c: char) -> Seq<char> {
    if c == '\\' {
        seq!['\\', '5', 'c']
    } else if c == '*' {
        seq!['\\', '2', 'a']
    } else if c == '(' {
        seq!['\\', '2', '8']
    } else if c == ')' {
        seq!['\\', '2', '9']
    } else if c == '\0' {
        seq!['\\', '0', '0']
    } else {
        seq![c]
    }
}

/// A text as it stands in the literal part of a search filter.
pub open spec fn escaped(s: Seq<char>) -> Seq<char>
    decreases s.len(),
{
    if s.len() == 0 {
        Seq::empty()
    } else {
        escaped(s.drop_last()) + escaped_char(s.last())
    }
}

/// A value with every text inside escaped. Names, numbers, booleans and nulls stay.
pub open spec fn escape_view(j: JsonView) -> JsonView
    decreases j,
{
    match j {
        JsonView::Str(s) => JsonView::Str(escaped(s)),
        JsonView::Array(items) => JsonView::Array(
            Seq::new(
                items.len(),
                |i: int|
                    if 0 <= i < items.len() {
                        escape_view(items[i])
                    } else {
                        JsonView::Null
                    },
            ),
        ),
        JsonView::Object(members) => JsonView::Object(
            Map::new(
                |k: Seq<char>| members.contains_key(k),
                |k: Seq<char>|
                    if members.contains_key(k) {
                        escape_view(members[k])
                    } else {
                        JsonView::Null
                    },
            ),
        ),
        _ => j,
    }
}

/// `ldap3::ldap_escape`: each of `\`, `*`, `(`, `)` and NUL becomes a backslash and the
/// two hexadecimal digits, small letters, of its code; the rest is copied.
#[verifier::external_body]
fn escape_literal(s: &str) -> (r: String)
    ensures
        r@ == escaped(s@),
{
    ldap3::ldap_escape(s).into_owned()
}

/// Escaping the members one by one is escaping the object.
proof fn lemma_escape_members(from: Seq<(String, Json)>, to: Seq<(String, Json)>)
    requires
        from.len() == to.len(),
        forall|k: int|
            0 <= k < from.len() ==> (#[trigger] to[k]).0@ == from[k].0@ && to[k].1@ == escape_view(
                from[k].1@,
            ),
    ensures
        JsonView::Object(object_view(to)) == escape_view(JsonView::Object(object_view(from))),
    decreases from.len(),
{
    let whole = escape_view(JsonView::Object(object_view(from)))->Object_0;
    if from.len() > 0 {
        lemma_escape_members(from.drop_last(), to.drop_last());
        let rest = escape_view(JsonView::Object(object_view(from.drop_last())))->Object_0;
        let last = from.len() - 1;
        assert(to[last].0@ == from[last].0@);
        assert(object_view(to.drop_last()) == rest);
        assert(object_view(to) =~= whole);
    } else {
        assert(object_view(to) =~= whole);
    }
}

/// The tool arguments with every text inside escaped, so that none of them can close,
/// open or widen a part of the search filter it is put into. Numbers, booleans and
/// nulls stay as they are, and so do the names of members.
pub fn escape_arguments(value: &Json) -> (r: Json)
    ensures
        r@ == escape_view(value@),
    decreases *value,
{
    match value {
        Json::Str(s) => Json::Str(escape_literal(s.as_str())),
        Json::Array(items) => {
            let mut list: Vec<Json> = Vec::new();
            let mut i: usize = 0;
            while i < items.len()
                invariant
                    i <= items.len(),
                    *value == Json::Array(*items),
                    list@.len() == i,
                    forall|k: int| 0 <= k < i ==> (#[trigger] list@[k])@ == escape_view(items@[k]@),
                decreases items.len() - i,
            {
                assert(decreases_to!(*value => value->Array_0));
                assert(decreases_to!(value->Array_0 => items@));
                list.push(escape_arguments(&items[i]));
                i += 1;
            }
            proof {
                lemma_array_view(*items);
                lemma_array_view(list);
                assert(items_view(list@) =~= escape_view(value@)->Array_0);
            }
            Json::Array(list)
        },
        Json::Object(members) => {
            let mut list: Vec<(String, Json)> = Vec::new();
            let mut i: usize = 0;
            while i < members.len()
                invariant
                    i <= members.len(),
                    *value == Json::Object(*members),
                    list@.len() == i,
                    forall|k: int|
                        0 <= k < i ==> (#[trigger] list@[k]).0@ == members@[k].0@ && list@[k].1@
                            == escape_view(members@[k].1@),
                decreases members.len() - i,
            {
                assert(decreases_to!(*value => value->Object_0));
                assert(decreases_to!(value->Object_0 => members@));
                list.push((members[i].0.clone(), escape_arguments(&members[i].1)));
                i += 1;
            }
            proof {
                lemma_escape_members(members@, list@);
            }
            Json::Object(list)
        },
        other => other.clone(),
    }
}

/// An entry that a search found: its distinguished name, and the values of each of its
/// attributes that are text. An attribute is named once.
#[derive(Debug, PartialEq)]
pub struct SearchEntry {
    pub dn: String,
    pub attrs: Vec<(String, Vec<String>)>,
}

#[verifier::ext_equal]
pub struct SearchEntryView {
    pub dn: Seq<char>,
    pub attrs: Map<Seq<char>, Seq<Seq<char>>>,
}

/// The values by attribute.
pub open spec fn attrs_view(attrs: Seq<(String, Vec<String>)>) -> Map<Seq<char>, Seq<Seq<char>>>
    decreases attrs.len(),
{
    if attrs.len() == 0 {
        Map::empty()
    } else {
        attrs_view(attrs.drop_last()).insert(attrs.last().0@, attrs.last().1.deep_view())
    }
}

impl View for SearchEntry {
    type V = SearchEntryView;

    open spec fn view(&self) -> SearchEntryView {
        SearchEntryView { dn: self.dn@, attrs: attrs_view(self.attrs@) }
    }
}

/// An entry as JSON. The values of an attribute are an array, also where there is one.
pub open spec fn entry_json(entry: SearchEntryView) -> JsonView {
    JsonView::Object(
        map![
            "dn"@ => JsonView::Str(entry.dn),
            "attributes"@ => JsonView::Object(
                entry.attrs.map_values(|values: Seq<Seq<char>>| texts_view(values)),
            ),
        ],
    )
}

/// An entry as JSON: `{ "dn": .., "attributes": { name: [values ..] } }`.
pub fn entry_to_json(entry: SearchEntry) -> (r: Json)
    ensures
        r@ == entry_json(entry@),
{
    let mut attributes = Members::new();
    let ghost to_json = |values: Seq<Seq<char>>| texts_view(values);
    let mut i: usize = 0;
    assert(attributes@ =~= attrs_view(entry.attrs@.take(0)).map_values(to_json));
    while i < entry.attrs.len()
        invariant
            i <= entry.attrs.len(),
            to_json == (|values: Seq<Seq<char>>| texts_view(values)),
            attributes@ == attrs_view(entry.attrs@.take(i as int)).map_values(to_json),
        decreases entry.attrs.len() - i,
    {
        attributes = attributes.with(
            entry.attrs[i].0.as_str(),
            Json::texts(entry.attrs[i].1.as_slice()),
        );
        i += 1;
        assert(entry.attrs@.take(i as int).drop_last() =~= entry.attrs@.take(i - 1));
        assert(attributes@ =~= attrs_view(entry.attrs@.take(i as int)).map_values(to_json));
    }
    assert(entry.attrs@.take(i as int) =~= entry.attrs@);
    Members::new().with("dn", Json::text(entry.dn.as_str())).with(
        "attributes",
        attributes.object(),
    ).object()
}

/// What a search found, as JSON.
#[derive(Debug, PartialEq)]
pub struct SearchOutcome {
    pub entries: Vec<Json>,
}

/// The entries that a search found.
pub open spec fn found_view(entries: Seq<SearchEntry>) -> Seq<SearchEntryView> {
    entries.map_values(|e: SearchEntry| e@)
}

/// How many of `found` entries a limit lets through.
pub open spec fn capped(found: nat, size_limit: nat) -> nat {
    if found <= size_limit {
        found
    } else {
        size_limit
    }
}

/// The first entries that a search found, no more than the limit, as JSON.
pub open spec fn first_entries(found: Seq<SearchEntryView>, size_limit: nat) -> Seq<JsonView> {
    found.take(capped(found.len(), size_limit) as int).map_values(|e: SearchEntryView| entry_json(e))
}

impl SearchOutcome {
    /// The first entries found, no more than `size_limit`.
    pub fn from_entries(found: Vec<SearchEntry>, size_limit: usize) -> (r: SearchOutcome)
        ensures
            items_view(r.entries@) == first_entries(found_view(found@), size_limit as nat),
    {
        let ghost limit = capped(found@.len(), size_limit as nat);
        let mut entries: Vec<Json> = Vec::new();
        for entry in it: found
            invariant
                it.seq() == found@,
                limit == capped(found@.len(), size_limit as nat),
                entries@.len() == capped(it.index() as nat, size_limit as nat),
                forall|k: int|
                    0 <= k < entries@.len() ==> (#[trigger] entries@[k])@ == entry_json(found@[k]@),
        {
            if entries.len() < size_limit {
                entries.push(entry_to_json(entry));
            }
        }
        assert(items_view(entries@) =~= first_entries(found_view(found@), size_limit as nat));
        SearchOutcome { entries }
    }
}

/// A hexadecimal digit, small letters.
pub open spec fn is_hex(c: char) -> bool {
    '0' <= c <= '9' || 'a' <= c <= 'f'
}

/// A text that a search filter takes for literal text wherever it is put: no
/// parenthesis, asterisk or NUL stands in it, and every backslash in it begins an
/// escape that is complete.
pub open spec fn inert(s: Seq<char>) -> bool {
    forall|i: int|
        0 <= i < s.len() ==> {
            let c = #[trigger] s[i];
            &&& c != '*' && c != '(' && c != ')' && c != '\0'
            &&& c == '\\' ==> i + 2 < s.len() && is_hex(s[i + 1]) && is_hex(s[i + 2])
        }
}

/// Every text inside a value is inert.
pub open spec fn all_inert(j: JsonView) -> bool
    decreases j,
{
    match j {
        JsonView::Str(s) => inert(s),
        JsonView::Array(items) => forall|i: int|
            0 <= i < items.len() ==> all_inert(#[trigger] items[i]),
        JsonView::Object(members) => forall|k: Seq<char>|
            members.contains_key(k) ==> all_inert(#[trigger] members[k]),
        _ => true,
    }
}

/// The number that a hexadecimal digit is.
pub open spec fn hex_value(c: char) -> int {
    if '0' <= c <= '9' {
        c as int - '0' as int
    } else {
        c as int - 'a' as int + 10
    }
}

/// What a directory reads in the literal part of a search filter: a backslash and two
/// hexadecimal digits are the character with that code, any other character is itself.
pub open spec fn unescaped(s: Seq<char>) -> Seq<char>
    decreases s.len(),
{
    if s.len() == 0 {
        Seq::empty()
    } else if s[0] == '\\' && s.len() >= 3 {
        seq![(16 * hex_value(s[1]) + hex_value(s[2])) as char] + unescaped(s.skip(3))
    } else {
        seq![s[0]] + unescaped(s.skip(1))
    }
}

/// One inert text after another is inert: escaped text can be joined with escaped text.
pub proof fn law_inert_texts_join(a: Seq<char>, b: Seq<char>)
    requires
        inert(a),
        inert(b),
    ensures
        inert(a + b),
{
    let s = a + b;
    assert forall|i: int| 0 <= i < s.len() implies ({
        let c = #[trigger] s[i];
        &&& c != '*' && c != '(' && c != ')' && c != '\0'
        &&& c == '\\' ==> i + 2 < s.len() && is_hex(s[i + 1]) && is_hex(s[i + 2])
    }) by {
        if i < a.len() {
            assert(s[i] == a[i]);
            if a[i] == '\\' {
                assert(s[i + 1] == a[i + 1] && s[i + 2] == a[i + 2]);
            }
        } else {
            assert(s[i] == b[i - a.len()]);
            if s[i] == '\\' {
                assert(s[i + 1] == b[i - a.len() + 1] && s[i + 2] == b[i - a.len() + 2]);
            }
        }
    }
}

/// Escaped text is inert, whatever the text was.
pub proof fn law_escaped_text_is_inert(s: Seq<char>)
    ensures
        inert(escaped(s)),
    decreases s.len(),
{
    if s.len() > 0 {
        law_escaped_text_is_inert(s.drop_last());
        assert(inert(escaped_char(s.last())));
        law_inert_texts_join(escaped(s.drop_last()), escaped_char(s.last()));
    }
}

/// Escaping two texts and joining them is escaping them joined.
pub proof fn law_escaping_joins(a: Seq<char>, b: Seq<char>)
    ensures
        escaped(a + b) == escaped(a) + escaped(b),
    decreases b.len(),
{
    if b.len() == 0 {
        assert(a + b =~= a);
        assert(escaped(a) + escaped(b) =~= escaped(a));
    } else {
        law_escaping_joins(a, b.drop_last());
        assert((a + b).drop_last() =~= a + b.drop_last());
        assert((a + b).last() == b.last());
        assert(escaped(a + b) =~= escaped(a) + escaped(b));
    }
}

/// A directory reads in escaped text the text that was escaped.
pub proof fn law_escaped_text_reads_back(s: Seq<char>)
    ensures
        unescaped(escaped(s)) == s,
    decreases s.len(),
{
    if s.len() > 0 {
        let head = seq![s[0]];
        let rest = s.skip(1);
        assert(s =~= head + rest);
        law_escaping_joins(head, rest);
        assert(escaped(head.drop_last()) =~= Seq::<char>::empty());
        assert(escaped(head) =~= escaped_char(s[0]));
        law_escaped_text_reads_back(rest);
        let e = escaped(s);
        assert(e =~= escaped_char(s[0]) + escaped(rest));
        if e[0] == '\\' {
            assert(e.skip(3) =~= escaped(rest));
        } else {
            assert(e.skip(1) =~= escaped(rest));
        }
        assert(unescaped(e) =~= s);
    }
}

/// No two texts are escaped alike.
pub proof fn law_escaping_loses_nothing(a: Seq<char>, b: Seq<char>)
    requires
        escaped(a) == escaped(b),
    ensures
        a == b,
{
    law_escaped_text_reads_back(a);
    law_escaped_text_reads_back(b);
}

/// Text without a character that means something in a filter is not changed.
pub proof fn law_plain_text_stays(s: Seq<char>)
    requires
        forall|i: int|
            0 <= i < s.len() ==> (#[trigger] s[i]) != '\\' && s[i] != '*' && s[i] != '(' && s[i]
                != ')' && s[i] != '\0',
    ensures
        escaped(s) == s,
    decreases s.len(),
{
    if s.len() > 0 {
        law_plain_text_stays(s.drop_last());
        assert(s[s.len() - 1] == s.last());
        assert(escaped(s) =~= s);
    } else {
        assert(escaped(s) =~= s);
    }
}

/// Every text inside escaped arguments is inert, however deep it lies.
pub proof fn law_escaped_arguments_are_inert(j: JsonView)
    ensures
        all_inert(escape_view(j)),
    decreases j,
{
    match j {
        JsonView::Str(s) => {
            law_escaped_text_is_inert(s);
        },
        JsonView::Array(items) => {
            let out = escape_view(j)->Array_0;
            assert forall|i: int| 0 <= i < out.len() implies all_inert(#[trigger] out[i]) by {
                law_escaped_arguments_are_inert(items[i]);
            }
        },
        JsonView::Object(members) => {
            let out = escape_view(j)->Object_0;
            assert forall|k: Seq<char>| out.contains_key(k) implies all_inert(
                #[trigger] out[k],
            ) by {
                law_escaped_arguments_are_inert(members[k]);
            }
        },
        _ => {},
    }
}

/// Escaping arguments changes texts alone: nulls, booleans and numbers stay, an array
/// keeps its length and an object its names, and what is inside is escaped in turn.
pub proof fn law_escaping_keeps_shape(j: JsonView)
    ensures
        !(j is Str) && !(j is Array) && !(j is Object) ==> escape_view(j) == j,
        j matches JsonView::Array(items) ==> {
            &&& escape_view(j) is Array
            &&& escape_view(j)->Array_0.len() == items.len()
            &&& forall|i: int|
                0 <= i < items.len() ==> #[trigger] escape_view(j)->Array_0[i] == escape_view(items[i])
        },
        j matches JsonView::Object(members) ==> {
            &&& escape_view(j) is Object
            &&& escape_view(j)->Object_0.dom() == members.dom()
            &&& forall|k: Seq<char>|
                members.contains_key(k) ==> #[trigger] escape_view(j)->Object_0[k] == escape_view(
                    members[k],
                )
        },
{
    if let JsonView::Object(members) = j {
        assert(escape_view(j)->Object_0.dom() =~= members.dom());
    }
}

/// A value with every text inside read as a directory reads it.
pub open spec fn unescape_view(j: JsonView) -> JsonView
    decreases j,
{
    match j {
        JsonView::Str(s) => JsonView::Str(unescaped(s)),
        JsonView::Array(items) => JsonView::Array(
            Seq::new(
                items.len(),
                |i: int|
                    if 0 <= i < items.len() {
                        unescape_view(items[i])
                    } else {
                        JsonView::Null
                    },
            ),
        ),
        JsonView::Object(members) => JsonView::Object(
            Map::new(
                |k: Seq<char>| members.contains_key(k),
                |k: Seq<char>|
                    if members.contains_key(k) {
                        unescape_view(members[k])
                    } else {
                        JsonView::Null
                    },
            ),
        ),
        _ => j,
    }
}

/// A directory reads in escaped arguments the arguments that were escaped.
pub proof fn law_escaped_arguments_read_back(j: JsonView)
    ensures
        unescape_view(escape_view(j)) == j,
    decreases j,
{
    let back = unescape_view(escape_view(j));
    match j {
        JsonView::Str(s) => {
            law_escaped_text_reads_back(s);
        },
        JsonView::Array(items) => {
            assert forall|i: int| 0 <= i < items.len() implies #[trigger] back->Array_0[i]
                == items[i] by {
                law_escaped_arguments_read_back(items[i]);
            }
            assert(back->Array_0 =~= items);
        },
        JsonView::Object(members) => {
            assert forall|k: Seq<char>| members.contains_key(k) implies #[trigger] back->Object_0[k]
                == members[k] by {
                law_escaped_arguments_read_back(members[k]);
            }
            assert(back->Object_0 =~= members);
        },
        _ => {},
    }
}

/// No two arguments are escaped alike.
pub proof fn law_escaping_arguments_loses_nothing(a: JsonView, b: JsonView)
    requires
        escape_view(a) == escape_view(b),
    ensures
        a == b,
{
    law_escaped_arguments_read_back(a);
    law_escaped_arguments_read_back(b);
}

/// A limit is kept: of what a search found the first entries are answered with, in the
/// order found, all of them unless they are more than the limit.
pub proof fn law_size_limit_is_kept(found: Seq<SearchEntryView>, size_limit: nat)
    ensures
        first_entries(found, size_limit).len() <= size_limit,
        first_entries(found, size_limit).len() == capped(found.len(), size_limit),
        forall|i: int|
            0 <= i < first_entries(found, size_limit).len() ==> #[trigger] first_entries(
                found,
                size_limit,
            )[i] == entry_json(found[i]),
{
}

/// Escaping goes character by character: the five that mean something in a filter become
/// a backslash and the two digits of their code, every other stays, whatever stands
/// around it.
pub proof fn law_escaping_by_character(a: Seq<char>, c: char, b: Seq<char>)
    ensures
        escaped(Seq::empty()) == Seq::<char>::empty(),
        escaped(a + seq![c] + b) == escaped(a) + (if c == '\\' {
            seq!['\\', '5', 'c']
        } else if c == '*' {
            seq!['\\', '2', 'a']
        } else if c == '(' {
            seq!['\\', '2', '8']
        } else if c == ')' {
            seq!['\\', '2', '9']
        } else if c as int == 0 {
            seq!['\\', '0', '0']
        } else {
            seq![c]
        }) + escaped(b),
{
    law_escaping_joins(a + seq![c], b);
    law_escaping_joins(a, seq![c]);
    assert(escaped(seq![c].drop_last()) =~= Seq::<char>::empty());
    assert(escaped(seq![c]) =~= escaped_char(seq![c].last()));
}

/// No parenthesis, asterisk or NUL is left in escaped text, and each backslash in it is
/// followed by two hexadecimal digits.
pub proof fn law_escaped_text_has_no_syntax(s: Seq<char>)
    ensures
        forall|i: int|
            0 <= i < escaped(s).len() ==> {
                let c = #[trigger] escaped(s)[i];
                &&& c != '*' && c != '(' && c != ')' && c as int != 0
                &&& c == '\\' ==> i + 2 < escaped(s).len() && ('0' <= escaped(s)[i + 1] <= '9' || 'a'
                    <= escaped(s)[i + 1] <= 'f') && ('0' <= escaped(s)[i + 2] <= '9' || 'a'
                    <= escaped(s)[i + 2] <= 'f')
            },
{
    law_escaped_text_is_inert(s);
}

/// A text among the arguments is escaped as text is.
pub proof fn law_escaping_a_text(s: Seq<char>)
    ensures
        escape_view(JsonView::Str(s)) == JsonView::Str(escaped(s)),
{
}

/// The values of an attribute, as an entry denotes them, are all of its values; of an
/// attribute that is named more than once, those named last.
proof fn lemma_attribute_found(attrs: Seq<(String, Vec<String>)>, i: int)
    requires
        0 <= i < attrs.len(),
        forall|k: int| i < k < attrs.len() ==> (#[trigger] attrs[k]).0@ != attrs[i].0@,
    ensures
        attrs_view(attrs).contains_key(attrs[i].0@),
        attrs_view(attrs)[attrs[i].0@] == attrs[i].1.deep_view(),
    decreases attrs.len(),
{
    if i < attrs.len() - 1 {
        assert(attrs[attrs.len() - 1].0@ != attrs[i].0@);
        lemma_attribute_found(attrs.drop_last(), i);
    }
}

proof fn lemma_attribute_absent(attrs: Seq<(String, Vec<String>)>, name: Seq<char>)
    requires
        forall|k: int| 0 <= k < attrs.len() ==> (#[trigger] attrs[k]).0@ != name,
    ensures
        !attrs_view(attrs).contains_key(name),
    decreases attrs.len(),
{
    if attrs.len() > 0 {
        assert(attrs[attrs.len() - 1].0@ != name);
        lemma_attribute_absent(attrs.drop_last(), name);
    }
}

proof fn lemma_entry_keys()
    ensures
        "dn"@ != "attributes"@,
{
    reveal_strlit("dn");
    reveal_strlit("attributes");
    assert("dn"@.len() != "attributes"@.len());
}

/// The name of an entry stands in its JSON, and beside it there are its attributes and
/// nothing else.
pub proof fn law_entry_name(entry: SearchEntry)
    ensures
        member_of(entry_json(entry@), "dn"@) == Some(JsonView::Str(entry.dn@)),
        member_of(entry_json(entry@), "attributes"@) matches Some(a) && a is Object,
        forall|name: Seq<char>|
            name != "dn"@ && name != "attributes"@ ==> (#[trigger] member_of(
                entry_json(entry@),
                name,
            )) is None,
{
    lemma_entry_keys();
}

/// Every value of an attribute of an entry stands in its JSON, under the attribute's
/// name, in an array, in the order of the values and as text.
pub proof fn law_entry_values(entry: SearchEntry, i: int)
    requires
        0 <= i < entry.attrs@.len(),
        forall|k: int| i < k < entry.attrs@.len() ==> (#[trigger] entry.attrs@[k]).0@
            != entry.attrs@[i].0@,
    ensures
        ({
            let values = entry.attrs@[i].1@;
            let attributes = member_of(entry_json(entry@), "attributes"@);
            &&& attributes is Some
            &&& member_of(attributes->0, entry.attrs@[i].0@) matches Some(JsonView::Array(items))
            &&& items.len() == values.len()
            &&& forall|k: int|
                0 <= k < values.len() ==> #[trigger] items[k] == JsonView::Str(values[k]@)
        }),
{
    lemma_entry_keys();
    lemma_attribute_found(entry.attrs@, i);
    let values = entry.attrs@[i].1;
    assert(values.deep_view().len() == values@.len());
    assert forall|k: int| 0 <= k < values@.len() implies #[trigger] texts_view(
        values.deep_view(),
    )->Array_0[k] == JsonView::Str(values@[k]@) by {
        assert(values.deep_view()[k] == values@[k]@);
    }
}

/// Under a name that no attribute of an entry has, nothing stands in its JSON.
pub proof fn law_entry_has_no_other_attributes(entry: SearchEntry, name: Seq<char>)
    requires
        forall|k: int| 0 <= k < entry.attrs@.len() ==> (#[trigger] entry.attrs@[k]).0@ != name,
    ensures
        ({
            let attributes = member_of(entry_json(entry@), "attributes"@);
            attributes is Some && member_of(attributes->0, name) is None
        }),
{
    lemma_entry_keys();
    lemma_attribute_absent(entry.attrs@, name);
}

/// Of what a search found, the entries up to the limit are answered with, each in its
/// place.
pub proof fn law_first_entries(found: Vec<SearchEntry>, size_limit: nat)
    ensures
        ({
            let answered = first_entries(found_view(found@), size_limit);
            &&& answered.len() <= found@.len() && answered.len() <= size_limit
            &&& answered.len() == found@.len() || answered.len() == size_limit
            &&& forall|i: int|
                0 <= i < answered.len() ==> #[trigger] answered[i] == entry_json(found@[i]@)
        }),
{
    let answered = first_entries(found_view(found@), size_limit);
    assert forall|i: int| 0 <= i < answered.len() implies #[trigger] answered[i] == entry_json(
        found@[i]@,
    ) by {
        assert(found_view(found@)[i] == found@[i]@);
    }
}

/// A limit lets through as many entries as there are, and no more than it allows.
pub proof fn law_limit(found: nat, size_limit: nat)
    ensures
        capped(found, size_limit) <= found,
        capped(found, size_limit) <= size_limit,
        capped(found, size_limit) == found || capped(found, size_limit) == size_limit,
{
}

} // verus!
