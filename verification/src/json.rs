//! JSON values
//!
//! Reading and writing JSON text is up to `serde_json`. The logic works on [`Json`],
//! which holds what a JSON value is made of.

use vstd::prelude::*;
use vstd::string::*;

use crate::text::same;

verus! {

/// A JSON value. An object lists its members in order; a number that is no integer
/// is `Number(None)`.
#[derive(Debug)]
pub enum Json {
    Null,
    Bool(bool),
    Number(Option<i128>),
    Text(String),
    List(Vec<Json>),
    Object(Vec<(String, Json)>),
}

/// A JSON value by view.
pub enum JsonView {
    Null,
    Bool(bool),
    Number(Option<i128>),
    Text(Seq<char>),
    List(Seq<JsonView>),
    Object(Seq<(Seq<char>, JsonView)>),
}

/// The view of a JSON value.
pub open spec fn json_view(j: Json) -> JsonView
    decreases j,
{
    match j {
        Json::Null => JsonView::Null,
        Json::Bool(b) => JsonView::Bool(b),
        Json::Number(n) => JsonView::Number(n),
        Json::Text(s) => JsonView::Text(s@),
        Json::List(items) => JsonView::List(
            Seq::new(
                items@.len(),
                |i: int|
                    if 0 <= i < items@.len() {
                        json_view(items@[i])
                    } else {
                        JsonView::Null
                    },
            ),
        ),
        Json::Object(members) => JsonView::Object(
            Seq::new(
                members@.len(),
                |i: int|
                    if 0 <= i < members@.len() {
                        (members@[i].0@, json_view(members@[i].1))
                    } else {
                        (Seq::empty(), JsonView::Null)
                    },
            ),
        ),
    }
}

impl View for Json {
    type V = JsonView;

    open spec fn view(&self) -> JsonView {
        json_view(*self)
    }
}

/// The members of an object by view.
pub open spec fn members_view(members: Seq<(String, Json)>) -> Seq<(Seq<char>, JsonView)> {
    members.map_values(|m: (String, Json)| (m.0@, m.1@))
}

/// The items of a list by view.
pub open spec fn items_view(items: Seq<Json>) -> Seq<JsonView> {
    items.map_values(|j: Json| j@)
}

/// The view of a list and of an object, in terms of the views of their parts.
pub proof fn lemma_parts(j: Json)
    ensures
        j matches Json::List(items) ==> j@ == JsonView::List(items_view(items@)),
        j matches Json::Object(members) ==> j@ == JsonView::Object(members_view(members@)),
{
    match j {
        Json::List(items) => {
            assert(j@->List_0 =~= items_view(items@));
        },
        Json::Object(members) => {
            assert(j@->Object_0 =~= members_view(members@));
        },
        _ => {},
    }
}

/// No name occurs twice among the members.
pub open spec fn distinct_names(members: Seq<(Seq<char>, JsonView)>) -> bool {
    forall|i: int, j: int|
        #![trigger members[i], members[j]]
        0 <= i < j < members.len() ==> members[i].0 != members[j].0
}

/// Every number in the value is an integer of 64 bits, and no object names a member
/// twice.
pub open spec fn plain(json: JsonView) -> bool
    decreases json,
{
    match json {
        JsonView::Null => true,
        JsonView::Bool(_) => true,
        JsonView::Text(_) => true,
        JsonView::Number(n) => n is Some && i64::MIN <= n->0 <= u64::MAX,
        JsonView::List(items) => forall|i: int| 0 <= i < items.len() ==> plain(#[trigger] items[i]),
        JsonView::Object(members) => {
            &&& forall|i: int| 0 <= i < members.len() ==> plain((#[trigger] members[i]).1)
            &&& distinct_names(members)
        },
    }
}

/// The members of an object under construction.
pub struct Members {
    pub members: Vec<(String, Json)>,
}

impl View for Members {
    type V = Seq<(Seq<char>, JsonView)>;

    open spec fn view(&self) -> Seq<(Seq<char>, JsonView)> {
        members_view(self.members@)
    }
}

impl Members {
    pub fn new() -> (m: Self)
        ensures
            m@ == Seq::<(Seq<char>, JsonView)>::empty(),
    {
        let m = Members { members: Vec::new() };
        assert(m@ =~= Seq::<(Seq<char>, JsonView)>::empty());
        m
    }

    /// Adds a member.
    pub fn put(&mut self, name: &str, value: Json)
        ensures
            final(self)@ == old(self)@.push((name@, value@)),
    {
        self.members.push((name.to_owned(), value));
        assert(self@ =~= old(self)@.push((name@, value@)));
    }

    /// Adds a member, if there is a value for it.
    pub fn put_opt(&mut self, name: &str, value: Option<Json>)
        ensures
            final(self)@ == old(self)@ + opt_member(name@, opt_json(value)),
    {
        let ghost before = self@;
        match value {
            Some(j) => {
                self.put(name, j);
                assert(self@ =~= before + opt_member(name@, opt_json(value)));
            },
            None => {
                assert(self@ =~= before + opt_member(name@, opt_json(value)));
            },
        }
    }

    /// The object.
    pub fn finish(self) -> (j: Json)
        ensures
            j@ == JsonView::Object(self@),
    {
        let j = Json::Object(self.members);
        proof {
            lemma_parts(j);
        }
        j
    }
}

/// One member, if there is a value for it.
pub open spec fn opt_member(name: Seq<char>, value: Option<JsonView>) -> Seq<(Seq<char>, JsonView)> {
    match value {
        Some(v) => seq![(name, v)],
        None => Seq::empty(),
    }
}

/// A value by view, if there is one.
pub open spec fn opt_json(value: Option<Json>) -> Option<JsonView> {
    match value {
        Some(j) => Some(j@),
        None => None,
    }
}

/// A text as a value, if there is one.
pub open spec fn opt_text_of(value: Option<Seq<char>>) -> Option<JsonView> {
    match value {
        Some(s) => Some(JsonView::Text(s)),
        None => None,
    }
}

/// A text as a value, if there is one.
pub fn opt_text(value: &Option<String>) -> (r: Option<Json>)
    ensures
        opt_json(r) == opt_text_of(value.deep_view()),
{
    match value {
        Some(s) => Some(Json::Text(s.clone())),
        None => None,
    }
}

/// No member has the name `name`.
pub open spec fn unnamed(members: Seq<(Seq<char>, JsonView)>, name: Seq<char>) -> bool {
    forall|i: int| 0 <= i < members.len() ==> (#[trigger] members[i]).0 != name
}

/// An object stays plain when a plain member with a new name is added.
pub proof fn lemma_put(members: Seq<(Seq<char>, JsonView)>, name: Seq<char>, value: Option<JsonView>)
    requires
        plain(JsonView::Object(members)),
        unnamed(members, name),
        value matches Some(v) ==> plain(v),
    ensures
        plain(JsonView::Object(members + opt_member(name, value))),
        forall|other: Seq<char>|
            unnamed(members, other) && other != name ==> #[trigger] unnamed(
                members + opt_member(name, value),
                other,
            ),
{
    let all = members + opt_member(name, value);
    match value {
        Some(v) => {
            assert forall|i: int| 0 <= i < all.len() implies plain((#[trigger] all[i]).1) by {
                if i < members.len() {
                    assert(all[i] == members[i]);
                }
            }
        },
        None => {
            assert(all =~= members);
        },
    }
    assert forall|other: Seq<char>| unnamed(members, other) && other != name implies #[trigger] unnamed(
        all,
        other,
    ) by {
        assert forall|i: int| 0 <= i < all.len() implies (#[trigger] all[i]).0 != other by {
            if i < members.len() {
                assert(all[i] == members[i]);
            }
        }
    }
}

/// A list of texts.
pub open spec fn texts_of(list: Seq<Seq<char>>) -> JsonView {
    JsonView::List(list.map_values(|s: Seq<char>| JsonView::Text(s)))
}

/// A list of texts is plain.
pub proof fn lemma_texts_plain(list: Seq<Seq<char>>)
    ensures
        plain(texts_of(list)),
{
    let items = list.map_values(|s: Seq<char>| JsonView::Text(s));
    assert forall|i: int| 0 <= i < items.len() implies plain(#[trigger] items[i]) by {
        assert(items[i] == JsonView::Text(list[i]));
    }
}

/// A list of texts.
pub fn text_list(list: &Vec<String>) -> (j: Json)
    ensures
        j@ == texts_of(list.deep_view()),
{
    let mut items: Vec<Json> = Vec::new();
    let mut i: usize = 0;
    while i < list.len()
        invariant
            i <= list@.len(),
            items@.len() == i,
            forall|k: int| 0 <= k < i ==> #[trigger] items@[k]@ == JsonView::Text(list@[k]@),
        decreases list.len() - i,
    {
        items.push(Json::Text(list[i].clone()));
        i = i + 1;
    }
    let ghost seen = items@;
    let j = Json::List(items);
    proof {
        lemma_parts(j);
        assert(items_view(seen) =~= list.deep_view().map_values(|s: Seq<char>| JsonView::Text(s)));
    }
    j
}

/// `serde_json::Value`, a parsed JSON text.
#[verifier::external_type_specification]
#[verifier::external_body]
pub struct ExValue(serde_json::Value);

/// What a `serde_json::Value` holds.
pub uninterp spec fn json_in(value: serde_json::Value) -> JsonView;

/// What `serde_json::from_str` makes of a text: a JSON value, or the text of the error.
pub uninterp spec fn json_of(text: Seq<char>) -> Result<JsonView, Seq<char>>;

/// The text that `serde_json::to_string_pretty` makes of a JSON value.
pub uninterp spec fn pretty_of(json: JsonView) -> Seq<char>;

/// What a `serde_json::StreamDeserializer` passes over as the first value of a text, the white
/// space before it included, or the text of the error; nothing where there is only white space.
pub uninterp spec fn front_of(text: Seq<char>) -> Option<Result<Seq<char>, Seq<char>>>;

/// `serde_json::from_str`, which reads a text as a `Value`. The result depends on the
/// text alone.
#[verifier::external_body]
fn parse_value(text: &str) -> (r: Result<serde_json::Value, String>)
    ensures
        match r {
            Ok(v) => json_of(text@) == Ok::<JsonView, Seq<char>>(json_in(v)),
            Err(e) => json_of(text@) == Err::<JsonView, Seq<char>>(e@),
        },
{
    serde_json::from_str::<serde_json::Value>(text).map_err(|e| e.to_string())
}

/// The first item of a `serde_json::StreamDeserializer` over `serde::de::IgnoredAny`, which passes
/// over one value without looking into it, and `byte_offset`, where that value ends. Gives the
/// text up to there, which is not empty, and the text behind it. The result depends on the text
/// alone.
#[verifier::external_body]
pub(crate) fn read_front(text: &str) -> (r: Option<Result<(String, String), String>>)
    ensures
        match r {
            None => front_of(text@) is None,
            Some(Err(e)) => front_of(text@) == Some(Err::<Seq<char>, Seq<char>>(e@)),
            Some(Ok(parts)) => {
                &&& front_of(text@) == Some(Ok::<Seq<char>, Seq<char>>(parts.0@))
                &&& text@ == parts.0@ + parts.1@
                &&& parts.0@.len() > 0
            },
        },
{
    let mut values = serde_json::Deserializer::from_str(text).into_iter::<serde::de::IgnoredAny>();
    let first = values.next()?;
    let end = values.byte_offset();
    Some(first.map(|_| (text[..end].to_string(), text[end..].to_string())).map_err(|e| e.to_string()))
}

/// Takes a `serde_json::Value` apart, member by member. An integer is read with
/// `Number::as_i128`, which gives nothing for other numbers.
#[verifier::external_body]
fn from_value(value: serde_json::Value) -> (r: Json)
    ensures
        r@ == json_in(value),
{
    match value {
        serde_json::Value::Null => Json::Null,
        serde_json::Value::Bool(b) => Json::Bool(b),
        serde_json::Value::Number(n) => Json::Number(n.as_i128()),
        serde_json::Value::String(s) => Json::Text(s),
        serde_json::Value::Array(a) => Json::List(a.into_iter().map(from_value).collect()),
        serde_json::Value::Object(m) => Json::Object(m.into_iter().map(|(k, v)| (k, from_value(v))).collect()),
    }
}

/// Puts a `serde_json::Value` together, member by member, with the members of an object
/// in their order. An integer of 64 bits comes back unchanged from `Number::from_i128`;
/// what becomes of other numbers, and of an object that names a member twice, is not
/// said here.
#[verifier::external_body]
fn to_value(json: &Json) -> (r: serde_json::Value)
    ensures
        plain(json@) ==> json_in(r) == json@,
{
    match json {
        Json::Null => serde_json::Value::Null,
        Json::Bool(b) => serde_json::Value::Bool(*b),
        Json::Number(n) => n.and_then(serde_json::Number::from_i128).into(),
        Json::Text(s) => serde_json::Value::String(s.clone()),
        Json::List(items) => items.iter().map(to_value).collect(),
        Json::Object(members) => members.iter().map(|(k, v)| (k.clone(), to_value(v))).collect(),
    }
}

/// `serde_json::to_string_pretty`, which writes a `Value` as text. It fails for no
/// `Value`: the names in an object are texts, and writing a `Value` has no errors of
/// its own. The text depends on what the value holds alone, where that is plain.
#[verifier::external_body]
fn print_value(value: &serde_json::Value) -> (r: Result<String, String>)
    requires
        plain(json_in(*value)),
    ensures
        r is Ok,
        r->Ok_0@ == pretty_of(json_in(*value)),
{
    serde_json::to_string_pretty(value).map_err(|e| e.to_string())
}

/// Reads a JSON text.
pub fn parse(text: &str) -> (r: Result<Json, String>)
    ensures
        match r {
            Ok(j) => json_of(text@) == Ok::<JsonView, Seq<char>>(j@),
            Err(e) => json_of(text@) == Err::<JsonView, Seq<char>>(e@),
        },
{
    match parse_value(text) {
        Ok(v) => Ok(from_value(v)),
        Err(e) => Err(e),
    }
}

/// Writes a JSON value as text, one member to a line.
pub fn print(json: &Json) -> (r: Result<String, String>)
    requires
        plain(json@),
    ensures
        r is Ok,
        r->Ok_0@ == pretty_of(json@),
{
    let value = to_value(json);
    print_value(&value)
}

/// The value of the first member of `members` from position `i` on with the name `key`.
pub open spec fn member_from(members: Seq<(Seq<char>, JsonView)>, key: Seq<char>, i: int) -> Option<JsonView>
    decreases members.len() - i,
{
    if i < 0 || i >= members.len() {
        None
    } else if members[i].0 == key {
        Some(members[i].1)
    } else {
        member_from(members, key, i + 1)
    }
}

impl JsonView {
    /// The member of an object with the name `key`.
    pub open spec fn member(self, key: Seq<char>) -> Option<JsonView> {
        match self {
            JsonView::Object(members) => member_from(members, key, 0),
            _ => None,
        }
    }
}

impl Json {
    /// The member of an object with the name `key`.
    pub fn get(&self, key: &str) -> (r: Option<&Json>)
        ensures
            match r {
                Some(j) => self@.member(key@) == Some(j@),
                None => self@.member(key@) is None,
            },
    {
        proof {
            lemma_parts(*self);
        }
        match self {
            Json::Object(members) => {
                let ghost seen = members_view(members@);
                let mut i: usize = 0;
                while i < members.len()
                    invariant
                        i <= members@.len(),
                        seen == members_view(members@),
                        self@ == JsonView::Object(seen),
                        member_from(seen, key@, i as int) == self@.member(key@),
                    decreases members.len() - i,
                {
                    assert(seen[i as int] == (members@[i as int].0@, members@[i as int].1@));
                    if same(members[i].0.as_str(), key) {
                        return Some(&members[i].1);
                    }
                    i = i + 1;
                }
                None
            },
            _ => None,
        }
    }
}

} // verus!
