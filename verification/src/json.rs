//! JSON documents as the pool sends them.

use vstd::prelude::*;

use crate::text::same_text;

verus! {

/// `serde_json::Value`, a JSON document.
#[verifier::external_type_specification]
#[verifier::external_body]
pub struct ExValue(serde_json::Value);

/// `serde_json::Error`, the reason why a text is no JSON document.
#[verifier::external_type_specification]
#[verifier::external_body]
pub struct ExError(serde_json::Error);

/// A JSON document.
///
/// A number is held as its text, and beside it as an unsigned integer where it is one.
pub enum Json {
    Null,
    Bool(bool),
    Number(Option<u64>, String),
    Text(String),
    List(Vec<Json>),
    Object(Vec<(String, Json)>),
}

/// What a [`Json`] document says.
pub enum JsonView {
    Null,
    Bool(bool),
    Number(Option<u64>, Seq<char>),
    Text(Seq<char>),
    List(Seq<JsonView>),
    Object(Seq<(Seq<char>, JsonView)>),
}

/// A `serde_json::Value` of which the outermost layer is taken off.
enum Layer {
    Null,
    Bool(bool),
    Number(Option<u64>, String),
    Text(String),
    List(Vec<serde_json::Value>),
    Object(Vec<(String, serde_json::Value)>),
}

/// What a `serde_json::Value` holds.
pub uninterp spec fn value_view(value: serde_json::Value) -> JsonView;

/// What `serde_json::from_str` reads from a text, if the text is a JSON document.
pub uninterp spec fn parsed_json(text: Seq<char>) -> Option<JsonView>;

/// `serde_json::from_str`, into a `Value`: the same text always gives the same document, or
/// always none.
#[verifier::external_body]
fn parse_value(text: &str) -> (r: Result<serde_json::Value, serde_json::Error>)
    ensures
        match r {
            Ok(value) => parsed_json(text@) == Some(value_view(value)),
            Err(_) => parsed_json(text@) is None,
        },
{
    serde_json::from_str(text)
}

/// Tells the variants of `serde_json::Value` apart.
///
/// A number comes with `Number::as_u64` and with its text; the members of an object come in the
/// order in which `serde_json::Map` hands them out.
#[verifier::external_body]
fn take_layer(value: serde_json::Value) -> (layer: Layer)
    ensures
        layer.view() == value_view(value),
{
    match value {
        serde_json::Value::Null => Layer::Null,
        serde_json::Value::Bool(b) => Layer::Bool(b),
        serde_json::Value::Number(n) => Layer::Number(n.as_u64(), n.to_string()),
        serde_json::Value::String(s) => Layer::Text(s),
        serde_json::Value::Array(items) => Layer::List(items),
        serde_json::Value::Object(members) => Layer::Object(members.into_iter().collect()),
    }
}

/// What each of several `serde_json::Value`s holds.
pub open spec fn value_views(values: Seq<serde_json::Value>) -> Seq<JsonView> {
    values.map_values(|value: serde_json::Value| value_view(value))
}

/// What the members of an object hold.
pub open spec fn member_views(members: Seq<(String, serde_json::Value)>) -> Seq<
    (Seq<char>, JsonView),
> {
    members.map_values(|m: (String, serde_json::Value)| (m.0@, value_view(m.1)))
}

/// A layer says what its parts hold.
proof fn lemma_layer_says_what_it_holds(layer: Layer)
    ensures
        match layer {
            Layer::Null => layer.view() == JsonView::Null,
            Layer::Bool(b) => layer.view() == JsonView::Bool(b),
            Layer::Number(n, text) => layer.view() == JsonView::Number(n, text@),
            Layer::Text(text) => layer.view() == JsonView::Text(text@),
            Layer::List(items) => layer.view() matches JsonView::List(views) && views.len()
                == items@.len() && forall|i: int|
                0 <= i < views.len() ==> #[trigger] views[i] == value_view(items@[i]),
            Layer::Object(members) => layer.view() matches JsonView::Object(views) && views.len()
                == members@.len() && forall|i: int|
                0 <= i < views.len() ==> #[trigger] views[i] == (
                    members@[i].0@,
                    value_view(members@[i].1),
                ),
        },
{
}

impl Layer {
    /// What the value was.
    spec fn view(&self) -> JsonView {
        match self {
            Layer::Null => JsonView::Null,
            Layer::Bool(b) => JsonView::Bool(*b),
            Layer::Number(n, text) => JsonView::Number(*n, text@),
            Layer::Text(text) => JsonView::Text(text@),
            Layer::List(items) => JsonView::List(value_views(items@)),
            Layer::Object(members) => JsonView::Object(member_views(members@)),
        }
    }
}

impl Json {
    /// What the document says.
    pub open spec fn view(&self) -> JsonView
        decreases self,
    {
        match self {
            Json::Null => JsonView::Null,
            Json::Bool(b) => JsonView::Bool(*b),
            Json::Number(n, text) => JsonView::Number(*n, text@),
            Json::Text(text) => JsonView::Text(text@),
            Json::List(items) => JsonView::List(
                Seq::new(
                    items@.len(),
                    |i: int|
                        if 0 <= i < items@.len() {
                            items@[i].view()
                        } else {
                            JsonView::Null
                        },
                ),
            ),
            Json::Object(members) => JsonView::Object(
                Seq::new(
                    members@.len(),
                    |i: int|
                        if 0 <= i < members@.len() {
                            (members@[i].0@, members@[i].1.view())
                        } else {
                            (seq![], JsonView::Null)
                        },
                ),
            ),
        }
    }
}

impl JsonView {
    /// The member of an object with the given name: the first such, where there are several.
    /// What is no object has no members.
    pub open spec fn get(self, name: Seq<char>) -> Option<JsonView> {
        match self {
            JsonView::Object(members) => first_member(members, name),
            _ => None,
        }
    }

    /// The text of a JSON string; nothing for any other document.
    pub open spec fn as_text(self) -> Option<Seq<char>> {
        match self {
            JsonView::Text(text) => Some(text),
            _ => None,
        }
    }

    /// The value of an unsigned integer; nothing for any other document.
    pub open spec fn as_count(self) -> Option<u64> {
        match self {
            JsonView::Number(count, _) => count,
            _ => None,
        }
    }

    /// The numeral of a JSON number; nothing for any other document.
    pub open spec fn as_numeral(self) -> Option<Seq<char>> {
        match self {
            JsonView::Number(_, text) => Some(text),
            _ => None,
        }
    }
}

/// The first member with the given name.
pub open spec fn first_member(members: Seq<(Seq<char>, JsonView)>, name: Seq<char>) -> Option<
    JsonView,
>
    decreases members.len(),
{
    if members.len() == 0 {
        None
    } else if members.first().0 == name {
        Some(members.first().1)
    } else {
        first_member(members.drop_first(), name)
    }
}

impl Json {
    /// Looks a member of an object up.
    pub fn get(&self, name: &str) -> (r: Option<&Json>)
        ensures
            match r {
                Some(member) => self@.get(name@) == Some(member@),
                None => self@.get(name@) is None,
            },
    {
        match self {
            Json::Object(members) => {
                let ghost views = self@->Object_0;
                let mut i: usize = 0;
                proof {
                    assert(views.skip(0) == views);
                }
                while i < members.len()
                    invariant
                        i <= members@.len() == views.len(),
                        forall|j: int|
                            0 <= j < views.len() ==> #[trigger] views[j] == (
                                members@[j].0@,
                                members@[j].1@,
                            ),
                        self@.get(name@) == first_member(views.skip(i as int), name@),
                    decreases members@.len() - i,
                {
                    proof {
                        assert(views.skip(i as int).drop_first() == views.skip(i + 1));
                    }
                    if same_text(members[i].0.as_str(), name) {
                        return Some(&members[i].1);
                    }
                    i += 1;
                }
                None
            },
            _ => None,
        }
    }

    /// The text of a JSON string.
    pub fn as_text(&self) -> (r: Option<&str>)
        ensures
            match r {
                Some(text) => self@.as_text() == Some(text@),
                None => self@.as_text() is None,
            },
    {
        match self {
            Json::Text(text) => Some(text.as_str()),
            _ => None,
        }
    }

    /// The value of an unsigned integer.
    pub fn as_count(&self) -> (r: Option<u64>)
        ensures
            r == self@.as_count(),
    {
        match self {
            Json::Number(count, _) => *count,
            _ => None,
        }
    }

    /// The numeral of a JSON number.
    pub fn as_numeral(&self) -> (r: Option<&str>)
        ensures
            match r {
                Some(text) => self@.as_numeral() == Some(text@),
                None => self@.as_numeral() is None,
            },
    {
        match self {
            Json::Number(_, text) => Some(text.as_str()),
            _ => None,
        }
    }
}

/// Turns a `serde_json::Value` into a [`Json`] document, layer by layer.
fn json_of(value: serde_json::Value) -> (json: Json)
    ensures
        json@ == value_view(value),
    decreases value_view(value),
{
    let ghost seen = value_view(value);
    let layer = take_layer(value);
    proof {
        lemma_layer_says_what_it_holds(layer);
    }
    match layer {
        Layer::Null => Json::Null,
        Layer::Bool(b) => Json::Bool(b),
        Layer::Number(n, text) => Json::Number(n, text),
        Layer::Text(text) => Json::Text(text),
        Layer::List(items) => {
            proof {
                assert(decreases_to!(seen => seen->List_0));
            }
            let json = Json::List(json_list(items));
            proof {
                assert(json@->List_0 == seen->List_0);
            }
            json
        },
        Layer::Object(members) => {
            proof {
                assert(decreases_to!(seen => seen->Object_0));
            }
            let json = Json::Object(json_members(members));
            proof {
                assert(json@->Object_0 == seen->Object_0);
            }
            json
        },
    }
}

/// Turns each of the values into a [`Json`] document.
fn json_list(items: Vec<serde_json::Value>) -> (list: Vec<Json>)
    ensures
        list@.len() == items@.len(),
        forall|i: int| 0 <= i < list@.len() ==> (#[trigger] list@[i])@ == value_view(items@[i]),
    decreases value_views(items@),
{
    let mut list: Vec<Json> = Vec::new();
    for item in it: items
        invariant
            list@.len() == it.index(),
            it.seq() == items@,
            forall|i: int| 0 <= i < list@.len() ==> (#[trigger] list@[i])@ == value_view(items@[i]),
    {
        proof {
            let i = it.index();
            assert(decreases_to!(value_views(items@) => value_views(items@)[i]));
        }
        list.push(json_of(item));
    }
    list
}

/// Turns the value of each member into a [`Json`] document.
fn json_members(members: Vec<(String, serde_json::Value)>) -> (list: Vec<(String, Json)>)
    ensures
        list@.len() == members@.len(),
        forall|i: int|
            0 <= i < list@.len() ==> (#[trigger] list@[i]).0@ == members@[i].0@ && list@[i].1@
                == value_view(members@[i].1),
    decreases member_views(members@),
{
    let mut list: Vec<(String, Json)> = Vec::new();
    for member in it: members
        invariant
            list@.len() == it.index(),
            it.seq() == members@,
            forall|i: int|
                0 <= i < list@.len() ==> (#[trigger] list@[i]).0@ == members@[i].0@ && list@[i].1@
                    == value_view(members@[i].1),
    {
        let (name, value) = member;
        proof {
            let i = it.index();
            let views = member_views(members@);
            assert(decreases_to!(views[i] => views[i].1));
        }
        list.push((name, json_of(value)));
    }
    list
}

/// Reads a JSON document.
pub fn parse_json(text: &str) -> (r: Option<Json>)
    ensures
        match r {
            Some(json) => parsed_json(text@) == Some(json@),
            None => parsed_json(text@) is None,
        },
{
    match parse_value(text) {
        Ok(value) => Some(json_of(value)),
        Err(_) => None,
    }
}

/// A document says what its parts say: a text its characters, a number its numeral and its value,
/// a list its documents and an object its members, each in its place.
pub proof fn law_documents_say_what_they_hold(json: Json)
    ensures
        match json {
            Json::Null => json@ == JsonView::Null,
            Json::Bool(b) => json@ == JsonView::Bool(b),
            Json::Number(n, text) => json@ == JsonView::Number(n, text@),
            Json::Text(text) => json@ == JsonView::Text(text@),
            Json::List(items) => json@ matches JsonView::List(views) && views.len() == items@.len()
                && forall|i: int| 0 <= i < views.len() ==> #[trigger] views[i] == items@[i]@,
            Json::Object(members) => json@ matches JsonView::Object(views) && views.len()
                == members@.len() && forall|i: int|
                0 <= i < views.len() ==> #[trigger] views[i] == (members@[i].0@, members@[i].1@),
        },
{
}

proof fn lemma_first_member(members: Seq<(Seq<char>, JsonView)>, name: Seq<char>, i: int)
    requires
        0 <= i < members.len(),
        members[i].0 == name,
        forall|j: int| 0 <= j < i ==> (#[trigger] members[j]).0 != name,
    ensures
        first_member(members, name) == Some(members[i].1),
    decreases members.len(),
{
    if i > 0 {
        assert(members[0].0 != name);
        let rest = members.drop_first();
        assert forall|j: int| 0 <= j < i - 1 implies (#[trigger] rest[j]).0 != name by {
            assert(members[j + 1].0 != name);
        }
        lemma_first_member(rest, name, i - 1);
    }
}

proof fn lemma_no_member(members: Seq<(Seq<char>, JsonView)>, name: Seq<char>)
    requires
        forall|j: int| 0 <= j < members.len() ==> (#[trigger] members[j]).0 != name,
    ensures
        first_member(members, name) is None,
    decreases members.len(),
{
    if members.len() > 0 {
        assert(members[0].0 != name);
        let rest = members.drop_first();
        assert forall|j: int| 0 <= j < rest.len() implies (#[trigger] rest[j]).0 != name by {
            assert(members[j + 1].0 != name);
        }
        lemma_no_member(rest, name);
    }
}

/// An object has a member of a name where one of its members is called so, and it is the first of
/// these, wherever it stands; what is no object has none.
pub proof fn law_members_are_found(document: JsonView, name: Seq<char>)
    ensures
        match document {
            JsonView::Object(members) => {
                &&& forall|i: int|
                    0 <= i < members.len() && (#[trigger] members[i]).0 == name && (forall|j: int|
                        0 <= j < i ==> (#[trigger] members[j]).0 != name) ==> document.get(name)
                        == Some(members[i].1)
                &&& (forall|j: int| 0 <= j < members.len() ==> (#[trigger] members[j]).0 != name)
                    ==> document.get(name) is None
            },
            _ => document.get(name) is None,
        },
{
    if let JsonView::Object(members) = document {
        assert forall|i: int|
            0 <= i < members.len() && (#[trigger] members[i]).0 == name && (forall|j: int|
                0 <= j < i ==> (#[trigger] members[j]).0 != name) implies document.get(name) == Some(
            members[i].1,
        ) by {
            lemma_first_member(members, name, i);
        }
        if forall|j: int| 0 <= j < members.len() ==> (#[trigger] members[j]).0 != name {
            lemma_no_member(members, name);
        }
    }
}

/// Only a JSON string has a text, and only a JSON number a numeral and a value: their own.
pub proof fn law_documents_are_read_by_their_kind(document: JsonView)
    ensures
        document.as_text() == (match document {
            JsonView::Text(text) => Some(text),
            _ => None,
        }),
        document.as_count() == (match document {
            JsonView::Number(Some(n), _) => Some(n),
            _ => None,
        }),
        document.as_numeral() == (match document {
            JsonView::Number(_, numeral) => Some(numeral),
            _ => None,
        }),
{
}

} // verus!
