//! JSON documents and the questions the gateway asks of them.
//!
//! A document is held as plain data. Its rendering as text is left to `serde_json`: the
//! trusted items at the end of this file build a `serde_json::Value` node by node and hand
//! it over.

use vstd::prelude::*;

verus! {

/// A JSON document.
///
/// Where an object lists a key twice, the later entry is the one that counts.
#[derive(Debug, PartialEq)]
pub enum Json {
    Null,
    Bool(bool),
    /// A whole number that a `u64` can hold.
    Unsigned(u64),
    /// Any other number, carried through as `serde_json` holds it.
    Number(serde_json::Number),
    Text(String),
    Array(Vec<Json>),
    Object(Vec<(String, Json)>),
}

/// What a JSON document says: an object is a map from keys to documents.
pub enum JsonView {
    Null,
    Bool(bool),
    Unsigned(u64),
    Number(serde_json::Number),
    Text(Seq<char>),
    Array(Seq<JsonView>),
    Object(Map<Seq<char>, JsonView>),
}

/// What a document in memory says.
pub open spec fn json_view(json: Json) -> JsonView
    decreases json,
{
    match json {
        Json::Null => JsonView::Null,
        Json::Bool(b) => JsonView::Bool(b),
        Json::Unsigned(n) => JsonView::Unsigned(n),
        Json::Number(n) => match number_u64(n) {
            Some(u) => JsonView::Unsigned(u),
            None => JsonView::Number(n),
        },
        Json::Text(s) => JsonView::Text(s@),
        Json::Array(items) => JsonView::Array(items_view(items@)),
        Json::Object(members) => JsonView::Object(members_view(members@)),
    }
}

/// What a list of documents says, one by one.
pub open spec fn items_view(items: Seq<Json>) -> Seq<JsonView>
    decreases items,
{
    if items.len() == 0 {
        Seq::empty()
    } else {
        items_view(items.drop_last()).push(json_view(items.last()))
    }
}

/// What a list of object members says: a later entry overrides an earlier one.
pub open spec fn members_view(members: Seq<(String, Json)>) -> Map<Seq<char>, JsonView>
    decreases members,
{
    if members.len() == 0 {
        Map::empty()
    } else {
        members_view(members.drop_last()).insert(members.last().0@, json_view(members.last().1))
    }
}

impl View for Json {
    type V = JsonView;

    open spec fn view(&self) -> JsonView {
        json_view(*self)
    }
}

/// What an optional document says.
pub open spec fn opt_view(json: Option<&Json>) -> Option<JsonView> {
    match json {
        Some(j) => Some(j@),
        None => None,
    }
}

/// What an optional document says.
pub open spec fn owned_view(json: Option<Json>) -> Option<JsonView> {
    match json {
        Some(j) => Some(j@),
        None => None,
    }
}

impl JsonView {
    /// The member `key` of an object; nothing for any other document.
    pub open spec fn member(self, key: Seq<char>) -> Option<JsonView> {
        match self {
            JsonView::Object(members) => if members.contains_key(key) {
                Some(members[key])
            } else {
                None
            },
            _ => None,
        }
    }

    /// The element at `index` of an array; nothing for any other document.
    pub open spec fn element(self, index: int) -> Option<JsonView> {
        match self {
            JsonView::Array(items) => if 0 <= index < items.len() {
                Some(items[index])
            } else {
                None
            },
            _ => None,
        }
    }

    /// The text of a string; nothing for any other document.
    pub open spec fn text(self) -> Option<Seq<char>> {
        match self {
            JsonView::Text(s) => Some(s),
            _ => None,
        }
    }

    /// The value of a whole number that a `u64` can hold; nothing for any other document.
    pub open spec fn unsigned(self) -> Option<u64> {
        match self {
            JsonView::Unsigned(n) => Some(n),
            _ => None,
        }
    }

    /// The value of a boolean; nothing for any other document.
    pub open spec fn flag(self) -> Option<bool> {
        match self {
            JsonView::Bool(b) => Some(b),
            _ => None,
        }
    }

    /// The elements of an array; nothing for any other document.
    pub open spec fn items(self) -> Option<Seq<JsonView>> {
        match self {
            JsonView::Array(items) => Some(items),
            _ => None,
        }
    }

    /// A null or an object takes a member; no other document does.
    pub open spec fn takes_members(self) -> bool {
        self is Null || self is Object
    }

    /// The document with `key` set to `value`; a null turns into an object of that one member.
    pub open spec fn with_member(self, key: Seq<char>, value: JsonView) -> JsonView {
        match self {
            JsonView::Object(members) => JsonView::Object(members.insert(key, value)),
            _ => JsonView::Object(Map::empty().insert(key, value)),
        }
    }

    /// The document with `key` set, where there is a value for it.
    pub open spec fn with_optional(self, key: Seq<char>, value: Option<JsonView>) -> JsonView {
        match value {
            Some(v) => self.with_member(key, v),
            None => self,
        }
    }
}

/// The object without members.
pub open spec fn empty_object() -> JsonView {
    JsonView::Object(Map::empty())
}

/// The document of an optional count.
pub open spec fn count_document(count: Option<u64>) -> Option<JsonView> {
    match count {
        Some(n) => Some(JsonView::Unsigned(n)),
        None => None,
    }
}

/// The object whose one member `key` is `value`.
pub open spec fn singleton(key: Seq<char>, value: JsonView) -> JsonView {
    JsonView::Object(Map::empty().insert(key, value))
}

/// `JsonView::member` of a document that may be absent.
pub open spec fn member_of(json: Option<JsonView>, key: Seq<char>) -> Option<JsonView> {
    match json {
        Some(j) => j.member(key),
        None => None,
    }
}

/// `JsonView::element` of a document that may be absent.
pub open spec fn element_of(json: Option<JsonView>, index: int) -> Option<JsonView> {
    match json {
        Some(j) => j.element(index),
        None => None,
    }
}

/// `JsonView::text` of a document that may be absent.
pub open spec fn text_of(json: Option<JsonView>) -> Option<Seq<char>> {
    match json {
        Some(j) => j.text(),
        None => None,
    }
}

/// `JsonView::unsigned` of a document that may be absent.
pub open spec fn unsigned_of(json: Option<JsonView>) -> Option<u64> {
    match json {
        Some(j) => j.unsigned(),
        None => None,
    }
}

/// `JsonView::flag` of a document that may be absent.
pub open spec fn flag_of(json: Option<JsonView>) -> Option<bool> {
    match json {
        Some(j) => j.flag(),
        None => None,
    }
}

/// `JsonView::items` of a document that may be absent.
pub open spec fn items_of(json: Option<JsonView>) -> Option<Seq<JsonView>> {
    match json {
        Some(j) => j.items(),
        None => None,
    }
}

/// The documents of a list are what its elements say.
pub proof fn lemma_items_view(items: Seq<Json>)
    ensures
        items_view(items).len() == items.len(),
        forall|i: int| 0 <= i < items.len() ==> #[trigger] items_view(items)[i] == items[i]@,
    decreases items,
{
    if items.len() > 0 {
        lemma_items_view(items.drop_last());
        assert forall|i: int| 0 <= i < items.len() implies #[trigger] items_view(items)[i]
            == items[i]@ by {
            if i < items.len() - 1 {
                assert(items_view(items)[i] == items_view(items.drop_last())[i]);
                assert(items[i] == items.drop_last()[i]);
            }
        }
    }
}

impl Clone for Json {
    fn clone(&self) -> (res: Self)
        ensures
            res@ == self@,
        decreases self,
    {
        match self {
            Json::Null => Json::Null,
            Json::Bool(b) => Json::Bool(*b),
            Json::Unsigned(n) => Json::Unsigned(*n),
            Json::Number(n) => Json::Number(n.clone()),
            Json::Text(s) => Json::Text(s.clone()),
            Json::Array(items) => {
                let mut copies: Vec<Json> = Vec::new();
                for i in 0..items.len()
                    invariant
                        items_view(copies@) == items_view(items@.take(i as int)),
                        *self == Json::Array(*items),
                {
                    let ghost before = copies@;
                    proof {
                        assert(decreases_to!(*self => self->Array_0));
                        assert(decreases_to!(*items => items@));
                        assert(decreases_to!(items@ => items@[i as int]));
                    }
                    copies.push(items[i].clone());
                    assert(items@.take(i + 1).drop_last() == items@.take(i as int));
                    assert(copies@.drop_last() == before);
                }
                assert(items@.take(items@.len() as int) == items@);
                Json::Array(copies)
            },
            Json::Object(members) => {
                let mut copies: Vec<(String, Json)> = Vec::new();
                for i in 0..members.len()
                    invariant
                        members_view(copies@) == members_view(members@.take(i as int)),
                        *self == Json::Object(*members),
                {
                    let ghost before = copies@;
                    proof {
                        assert(decreases_to!(*self => self->Object_0));
                        assert(decreases_to!(*members => members@));
                        assert(decreases_to!(members@ => members@[i as int]));
                        assert(decreases_to!(members@[i as int] => members@[i as int].1));
                    }
                    copies.push((members[i].0.clone(), members[i].1.clone()));
                    assert(members@.take(i + 1).drop_last() == members@.take(i as int));
                    assert(copies@.drop_last() == before);
                }
                assert(members@.take(members@.len() as int) == members@);
                Json::Object(copies)
            },
        }
    }
}

impl Json {
    /// The member `key`, where this is an object that has it.
    pub fn get(&self, key: &str) -> (res: Option<&Json>)
        ensures
            opt_view(res) == self@.member(key@),
    {
        match self {
            Json::Object(members) => {
                let wanted: String = key.to_owned();
                let mut i: usize = members.len();
                assert(members@.take(i as int) == members@);
                while i > 0
                    invariant
                        i <= members.len(),
                        wanted@ == key@,
                        *self == Json::Object(*members),
                        JsonView::Object(members_view(members@)).member(key@) == JsonView::Object(
                            members_view(members@.take(i as int)),
                        ).member(key@),
                    decreases i,
                {
                    assert(members@.take(i as int).drop_last() == members@.take(i - 1));
                    if members[i - 1].0 == wanted {
                        return Some(&members[i - 1].1);
                    }
                    i = i - 1;
                }
                None
            },
            _ => None,
        }
    }

    /// The element at `index`, where this is an array that long.
    pub fn at(&self, index: usize) -> (res: Option<&Json>)
        ensures
            opt_view(res) == self@.element(index as int),
    {
        match self {
            Json::Array(items) => {
                proof {
                    lemma_items_view(items@);
                }
                if index < items.len() {
                    Some(&items[index])
                } else {
                    None
                }
            },
            _ => None,
        }
    }

    /// The text, where this is a string.
    pub fn as_str(&self) -> (res: Option<&str>)
        ensures
            match res {
                Some(s) => self@.text() == Some(s@),
                None => self@.text() is None,
            },
    {
        match self {
            Json::Text(s) => Some(s.as_str()),
            _ => None,
        }
    }

    /// The value, where this is a whole number that a `u64` can hold.
    pub fn as_u64(&self) -> (res: Option<u64>)
        ensures
            res == self@.unsigned(),
    {
        match self {
            Json::Unsigned(n) => Some(*n),
            Json::Number(n) => n.as_u64(),
            _ => None,
        }
    }

    /// The value, where this is a boolean.
    pub fn as_bool(&self) -> (res: Option<bool>)
        ensures
            res == self@.flag(),
    {
        match self {
            Json::Bool(b) => Some(*b),
            _ => None,
        }
    }

    /// The elements, where this is an array.
    pub fn as_array(&self) -> (res: Option<&Vec<Json>>)
        ensures
            match res {
                Some(items) => self@.items() == Some(items_view(items@)),
                None => self@.items() is None,
            },
    {
        match self {
            Json::Array(items) => Some(items),
            _ => None,
        }
    }

    /// Whether this is an object.
    pub fn is_object(&self) -> (res: bool)
        ensures
            res == (self@ is Object),
    {
        match self {
            Json::Object(_) => true,
            _ => false,
        }
    }

    /// Whether a member can be set: this is a null or an object.
    pub fn takes_members(&self) -> (res: bool)
        ensures
            res == self@.takes_members(),
    {
        match self {
            Json::Null => true,
            Json::Object(_) => true,
            _ => false,
        }
    }

    /// Sets the member `key`; a null turns into an object of that one member.
    pub fn set(&mut self, key: &str, value: Json)
        requires
            old(self)@.takes_members(),
        ensures
            final(self)@ == old(self)@.with_member(key@, value@),
    {
        let mut whole: Json = Json::Null;
        std::mem::swap(self, &mut whole);
        let mut members: Vec<(String, Json)> = match whole {
            Json::Object(present) => present,
            _ => Vec::new(),
        };
        let ghost before = members@;
        members.push((key.to_owned(), value));
        assert(members@.drop_last() == before);
        assert(members_view(members@) == members_view(before).insert(key@, value@));
        assert(old(self)@.with_member(key@, value@) == JsonView::Object(members_view(before).insert(key@, value@)));
        *self = Json::Object(members);
    }

    /// Sets the member `key`, where there is a value for it.
    pub fn set_optional(&mut self, key: &str, value: Option<Json>)
        requires
            old(self)@.takes_members(),
        ensures
            final(self)@ == old(self)@.with_optional(key@, owned_view(value)),
    {
        if let Some(v) = value {
            self.set(key, v);
        }
    }

    /// The document as compact JSON text.
    pub fn encode(&self) -> (res: String)
        ensures
            res@ == json_text(self@),
    {
        let value = to_value(self);
        value_text(&value)
    }
}

/// The document of an optional count.
pub fn count_json(count: Option<u64>) -> (res: Option<Json>)
    ensures
        owned_view(res) == count_document(count),
{
    match count {
        Some(n) => Some(Json::Unsigned(n)),
        None => None,
    }
}

/// The object without members.
pub fn no_members() -> (res: Json)
    ensures
        res@ == empty_object(),
{
    Json::Object(Vec::new())
}

/// The object whose one member `key` is `value`.
pub fn object_of(key: &str, value: Json) -> (res: Json)
    ensures
        res@ == singleton(key@, value@),
{
    let mut object = Json::Null;
    object.set(key, value);
    object
}

/// The member `key` of a document that may be absent.
pub fn get_member<'a>(json: Option<&'a Json>, key: &str) -> (res: Option<&'a Json>)
    ensures
        opt_view(res) == member_of(opt_view(json), key@),
{
    match json {
        Some(j) => j.get(key),
        None => None,
    }
}

/// The element at `index` of a document that may be absent.
pub fn get_element<'a>(json: Option<&'a Json>, index: usize) -> (res: Option<&'a Json>)
    ensures
        opt_view(res) == element_of(opt_view(json), index as int),
{
    match json {
        Some(j) => j.at(index),
        None => None,
    }
}

/// The text of a document that may be absent.
pub fn get_str<'a>(json: Option<&'a Json>) -> (res: Option<&'a str>)
    ensures
        match res {
            Some(s) => text_of(opt_view(json)) == Some(s@),
            None => text_of(opt_view(json)) is None,
        },
{
    match json {
        Some(j) => j.as_str(),
        None => None,
    }
}

/// The value of a document that may be absent, where it is a whole number that a `u64` can
/// hold.
pub fn get_u64(json: Option<&Json>) -> (res: Option<u64>)
    ensures
        res == unsigned_of(opt_view(json)),
{
    match json {
        Some(j) => j.as_u64(),
        None => None,
    }
}

/// The value of a document that may be absent, where it is a boolean.
pub fn get_bool(json: Option<&Json>) -> (res: Option<bool>)
    ensures
        res == flag_of(opt_view(json)),
{
    match json {
        Some(j) => j.as_bool(),
        None => None,
    }
}

/// The `serde_json` value that says what `json` says.
fn to_value(json: &Json) -> (res: serde_json::Value)
    ensures
        value_document(res) == json@,
    decreases json,
{
    match json {
        Json::Null => null_value(),
        Json::Bool(b) => bool_value(*b),
        Json::Unsigned(n) => unsigned_value(*n),
        Json::Number(n) => match n.as_u64() {
            Some(u) => unsigned_value(u),
            None => number_value(n.clone()),
        },
        Json::Text(s) => text_value(s.clone()),
        Json::Array(items) => {
            let mut values: Vec<serde_json::Value> = Vec::new();
            for i in 0..items.len()
                invariant
                    values.len() == i,
                    forall|j: int| 0 <= j < i ==> value_document(#[trigger] values@[j]) == items@[j]@,
                    *json == Json::Array(*items),
            {
                proof {
                    assert(decreases_to!(*json => json->Array_0));
                    assert(decreases_to!(*items => items@));
                    assert(decreases_to!(items@ => items@[i as int]));
                }
                values.push(to_value(&items[i]));
            }
            proof {
                lemma_items_view(items@);
                assert(items_view(items@) =~= values@.map_values(
                    |v: serde_json::Value| value_document(v),
                ));
            }
            array_value(values)
        },
        Json::Object(members) => {
            let mut object = new_object();
            for i in 0..members.len()
                invariant
                    object_members(object) == members_view(members@.take(i as int)),
                    *json == Json::Object(*members),
            {
                proof {
                    assert(decreases_to!(*json => json->Object_0));
                    assert(decreases_to!(*members => members@));
                    assert(decreases_to!(members@ => members@[i as int]));
                    assert(decreases_to!(members@[i as int] => members@[i as int].1));
                }
                insert_member(&mut object, members[i].0.clone(), to_value(&members[i].1));
                assert(members@.take(i + 1).drop_last() == members@.take(i as int));
            }
            assert(members@.take(members@.len() as int) == members@);
            object_value(object)
        },
    }
}

/// A `serde_json` number, carried through as it is.
#[verifier::external_type_specification]
#[verifier::external_body]
pub struct ExNumber(serde_json::Number);

/// A `serde_json` document.
#[verifier::external_type_specification]
#[verifier::external_body]
pub struct ExValue(serde_json::Value);

/// The members of a `serde_json` object.
#[verifier::external_type_specification]
#[verifier::external_body]
#[verifier::reject_recursive_types(K)]
#[verifier::reject_recursive_types(V)]
pub struct ExObject<K, V>(serde_json::Map<K, V>);

/// The members of a `serde_json` document that is an object.
pub type JsonObject = serde_json::Map<String, serde_json::Value>;

/// What `serde_json::Number::as_u64` gives for a number.
pub uninterp spec fn number_u64(number: serde_json::Number) -> Option<u64>;

/// What a `serde_json` value holds.
pub uninterp spec fn value_document(value: serde_json::Value) -> JsonView;

/// What the members of a `serde_json` object hold.
pub uninterp spec fn object_members(
    object: JsonObject,
) -> Map<Seq<char>, JsonView>;

/// The text that `serde_json::to_string` gives for a document.
pub uninterp spec fn json_text(document: JsonView) -> Seq<char>;

/// `serde_json::Number::clone` gives an equal number.
pub assume_specification[ <serde_json::Number as Clone>::clone ](
    number: &serde_json::Number,
) -> (res: serde_json::Number)
    ensures
        res == *number,
;

/// `serde_json::Number::as_u64` gives the number's value where a `u64` can hold it.
pub assume_specification[ serde_json::Number::as_u64 ](number: &serde_json::Number) -> (res: Option<
    u64,
>)
    ensures
        res == number_u64(*number),
;

/// `serde_json::Value::Null` is the null document.
#[verifier::external_body]
fn null_value() -> (res: serde_json::Value)
    ensures
        value_document(res) == JsonView::Null,
{
    serde_json::Value::Null
}

/// `serde_json::Value::Bool` is a boolean.
#[verifier::external_body]
fn bool_value(b: bool) -> (res: serde_json::Value)
    ensures
        value_document(res) == JsonView::Bool(b),
{
    serde_json::Value::Bool(b)
}

/// `serde_json::Value::from` makes a number of a `u64`.
#[verifier::external_body]
fn unsigned_value(n: u64) -> (res: serde_json::Value)
    ensures
        value_document(res) == JsonView::Unsigned(n),
{
    serde_json::Value::from(n)
}

/// `serde_json::Value::Number` holds a number as it is.
#[verifier::external_body]
fn number_value(number: serde_json::Number) -> (res: serde_json::Value)
    requires
        number_u64(number) is None,
    ensures
        value_document(res) == JsonView::Number(number),
{
    serde_json::Value::Number(number)
}

/// `serde_json::Value::String` is a string.
#[verifier::external_body]
fn text_value(s: String) -> (res: serde_json::Value)
    ensures
        value_document(res) == JsonView::Text(s@),
{
    serde_json::Value::String(s)
}

/// `serde_json::Value::Array` is the list of its elements.
#[verifier::external_body]
fn array_value(values: Vec<serde_json::Value>) -> (res: serde_json::Value)
    ensures
        value_document(res) == JsonView::Array(
            values@.map_values(|v: serde_json::Value| value_document(v)),
        ),
{
    serde_json::Value::Array(values)
}

/// `serde_json::Map::new` has no members.
#[verifier::external_body]
fn new_object() -> (res: JsonObject)
    ensures
        (object_members(res) == Map::<Seq<char>, JsonView>::empty()),
{
    serde_json::Map::new()
}

/// `serde_json::Map::insert` sets one member, in place of an earlier one of the same key.
#[verifier::external_body]
fn insert_member(
    object: &mut JsonObject,
    key: String,
    value: serde_json::Value,
)
    ensures
        object_members(*final(object)) == object_members(*old(object)).insert(
            key@,
            value_document(value),
        ),
{
    object.insert(key, value);
}

/// `serde_json::Value::Object` is the object of its members.
#[verifier::external_body]
fn object_value(object: JsonObject) -> (res: serde_json::Value)
    ensures
        value_document(res) == JsonView::Object(object_members(object)),
{
    serde_json::Value::Object(object)
}

/// `serde_json::to_string` renders a value; what it holds determines the text.
#[verifier::external_body]
fn value_text(value: &serde_json::Value) -> (res: String)
    ensures
        res@ == json_text(value_document(*value)),
{
    serde_json::to_string(value).unwrap_or_default()
}

} // verus!
