//! JSON values, and the text of a flat JSON object.

use vstd::prelude::*;

use crate::text::{same, views};

verus! {

// ---------------------------------------------------------------------------
// JSON values
// ---------------------------------------------------------------------------

/// A JSON value. A number is held as its text; the fields of an object have
/// distinct names.
#[derive(Debug)]
pub enum Json {
    Null,
    Bool(bool),
    Number(String),
    Text(String),
    Array(Vec<Json>),
    Object(Vec<(String, Json)>),
}

/// A JSON value as a value.
pub enum JsonValue {
    Null,
    Bool(bool),
    Number(Seq<char>),
    Text(Seq<char>),
    Array(Seq<JsonValue>),
    Object(Seq<(Seq<char>, JsonValue)>),
}

impl View for Json {
    type V = JsonValue;

    open spec fn view(&self) -> JsonValue {
        json_value(*self)
    }
}

/// The value of a JSON value.
pub open spec fn json_value(j: Json) -> JsonValue
    decreases j,
{
    match j {
        Json::Null => JsonValue::Null,
        Json::Bool(b) => JsonValue::Bool(b),
        Json::Number(n) => JsonValue::Number(n@),
        Json::Text(t) => JsonValue::Text(t@),
        Json::Array(items) => JsonValue::Array(
            Seq::new(
                items@.len(),
                |i: int|
                    if 0 <= i < items@.len() {
                        json_value(items@[i])
                    } else {
                        JsonValue::Null
                    },
            ),
        ),
        Json::Object(fields) => JsonValue::Object(
            Seq::new(
                fields@.len(),
                |i: int|
                    if 0 <= i < fields@.len() {
                        (fields@[i].0@, json_value(fields@[i].1))
                    } else {
                        (Seq::empty(), JsonValue::Null)
                    },
            ),
        ),
    }
}

/// The first of `fields` named `key`.
pub open spec fn field_named(fields: Seq<(Seq<char>, JsonValue)>, key: Seq<char>) -> Option<
    JsonValue,
>
    decreases fields.len(),
{
    if fields.len() == 0 {
        None
    } else if fields[0].0 == key {
        Some(fields[0].1)
    } else {
        field_named(fields.skip(1), key)
    }
}

impl JsonValue {
    /// The field named `key`, of an object.
    pub open spec fn field(self, key: Seq<char>) -> Option<JsonValue> {
        match self {
            JsonValue::Object(fields) => field_named(fields, key),
            _ => None,
        }
    }

    /// The text of a string.
    pub open spec fn text(self) -> Option<Seq<char>> {
        match self {
            JsonValue::Text(t) => Some(t),
            _ => None,
        }
    }
}

impl Json {
    /// The field named `key`, of an object.
    pub fn get(&self, key: &str) -> (r: Option<&Json>)
        ensures
            match r {
                Some(j) => self@.field(key@) == Some(j@),
                None => self@.field(key@) is None,
            },
    {
        match self {
            Json::Object(fields) => {
                let ghost all = self@->Object_0;
                let mut i: usize = 0;
                assert(all.skip(0) =~= all);
                while i < fields.len()
                    invariant
                        i <= fields.len(),
                        all.len() == fields.len(),
                        forall|j: int|
                            0 <= j < all.len() ==> #[trigger] all[j] == (
                                fields@[j].0@,
                                json_value(fields@[j].1),
                            ),
                        field_named(all, key@) == field_named(all.skip(i as int), key@),
                        self@ == JsonValue::Object(all),
                    decreases fields.len() - i,
                {
                    assert(all[i as int] == (fields@[i as int].0@, json_value(fields@[i as int].1)));
                    if same(fields[i].0.as_str(), key) {
                        return Some(&fields[i].1);
                    }
                    assert(all.skip(i as int).skip(1) =~= all.skip(i + 1));
                    i += 1;
                }
                None
            },
            _ => None,
        }
    }

    /// The text of a string.
    pub fn as_str(&self) -> (r: Option<&str>)
        ensures
            match r {
                Some(t) => self@.text() == Some(t@),
                None => self@.text() is None,
            },
    {
        match self {
            Json::Text(t) => Some(t.as_str()),
            _ => None,
        }
    }

    /// A string.
    pub fn text(t: &str) -> (r: Json)
        ensures
            r@ == JsonValue::Text(t@),
    {
        Json::Text(t.to_string())
    }
}

/// The values of a sequence of fields.
pub open spec fn field_values(fields: Seq<(String, Json)>) -> Seq<(Seq<char>, JsonValue)> {
    fields.map_values(|f: (String, Json)| (f.0@, f.1@))
}

/// The values of a sequence of items.
pub open spec fn item_values(items: Seq<Json>) -> Seq<JsonValue> {
    items.map_values(|j: Json| j@)
}

/// An object.
pub fn object(fields: Vec<(String, Json)>) -> (r: Json)
    ensures
        r@ == JsonValue::Object(field_values(fields@)),
{
    let r = Json::Object(fields);
    assert(r@->Object_0 =~= field_values(fields@));
    r
}

/// An array.
pub fn array(items: Vec<Json>) -> (r: Json)
    ensures
        r@ == JsonValue::Array(item_values(items@)),
{
    let r = Json::Array(items);
    assert(r@->Array_0 =~= item_values(items@));
    r
}

/// An object with one field.
pub fn object1(name: &str, value: Json) -> (r: Json)
    ensures
        r@ == JsonValue::Object(seq![(name@, value@)]),
{
    let mut fields: Vec<(String, Json)> = Vec::new();
    fields.push((name.to_string(), value));
    assert(field_values(fields@) =~= seq![(name@, value@)]);
    object(fields)
}

/// An object with two fields.
pub fn object2(name1: &str, value1: Json, name2: &str, value2: Json) -> (r: Json)
    ensures
        r@ == JsonValue::Object(seq![(name1@, value1@), (name2@, value2@)]),
{
    let mut fields: Vec<(String, Json)> = Vec::new();
    fields.push((name1.to_string(), value1));
    fields.push((name2.to_string(), value2));
    assert(field_values(fields@) =~= seq![(name1@, value1@), (name2@, value2@)]);
    object(fields)
}

/// An object with three fields.
pub fn object3(
    name1: &str,
    value1: Json,
    name2: &str,
    value2: Json,
    name3: &str,
    value3: Json,
) -> (r: Json)
    ensures
        r@ == JsonValue::Object(seq![(name1@, value1@), (name2@, value2@), (name3@, value3@)]),
{
    let mut fields: Vec<(String, Json)> = Vec::new();
    fields.push((name1.to_string(), value1));
    fields.push((name2.to_string(), value2));
    fields.push((name3.to_string(), value3));
    assert(field_values(fields@) =~= seq![(name1@, value1@), (name2@, value2@), (name3@, value3@)]);
    object(fields)
}

// ---------------------------------------------------------------------------
// The text of a flat object
// ---------------------------------------------------------------------------

/// A field of a flat JSON object: a string, or a list of strings.
pub enum Field {
    Text(String),
    List(Vec<String>),
}

/// A field as a value.
pub enum FieldValue {
    Text(Seq<char>),
    List(Seq<Seq<char>>),
}

impl View for Field {
    type V = FieldValue;

    open spec fn view(&self) -> FieldValue {
        match self {
            Field::Text(s) => FieldValue::Text(s@),
            Field::List(l) => FieldValue::List(views(l@)),
        }
    }
}

/// The keys and values of a flat object, in the order in which they were given.
pub open spec fn fields_of(fields: Seq<(String, Field)>) -> Seq<(Seq<char>, FieldValue)> {
    fields.map_values(|f: (String, Field)| (f.0@, f.1@))
}

/// The text that serde_json writes for the object made by inserting these keys
/// and values one after the other.
pub uninterp spec fn object_text(fields: Seq<(Seq<char>, FieldValue)>) -> Seq<char>;

/// The JSON text of an object: `serde_json::Map::insert` for each field, then the
/// `Display` of `serde_json::Value`. The text is a function of the keys and
/// values alone; how it spells them is not stated here.
#[verifier::external_body]
pub(crate) fn write_object(fields: &Vec<(String, Field)>) -> (r: String)
    ensures
        r@ == object_text(fields_of(fields@)),
{
    let mut map = serde_json::Map::new();
    for (key, field) in fields {
        let value = match field {
            Field::Text(s) => serde_json::Value::from(s.as_str()),
            Field::List(l) => serde_json::Value::from(l.clone()),
        };
        map.insert(key.clone(), value);
    }
    serde_json::Value::Object(map).to_string()
}

// ---------------------------------------------------------------------------
// Laws
// ---------------------------------------------------------------------------

/// A value is its content in full: text, number and truth value as they are, items
/// and fields one by one, in order.
pub proof fn law_value_is_the_content(j: Json)
    ensures
        match j {
            Json::Null => j@ == JsonValue::Null,
            Json::Bool(b) => j@ == JsonValue::Bool(b),
            Json::Number(n) => j@ == JsonValue::Number(n@),
            Json::Text(t) => j@ == JsonValue::Text(t@),
            Json::Array(items) => {
                &&& j@ matches JsonValue::Array(values)
                &&& values.len() == items@.len()
                &&& forall|i: int| 0 <= i < items@.len() ==> #[trigger] values[i] == items@[i]@
            },
            Json::Object(fields) => {
                &&& j@ matches JsonValue::Object(values)
                &&& values.len() == fields@.len()
                &&& forall|i: int|
                    0 <= i < fields@.len() ==> #[trigger] values[i] == (
                        fields@[i].0@,
                        fields@[i].1@,
                    )
            },
        },
{
}

/// A field is looked up by its name: the value is that of the first field of the
/// name, and there is none only if no field has it.
pub proof fn law_field_is_found_by_name(fields: Seq<(Seq<char>, JsonValue)>, key: Seq<char>)
    ensures
        match JsonValue::Object(fields).field(key) {
            Some(value) => exists|i: int|
                0 <= i < fields.len() && #[trigger] fields[i] == (key, value) && forall|j: int|
                    0 <= j < i ==> (#[trigger] fields[j]).0 != key,
            None => forall|i: int| 0 <= i < fields.len() ==> (#[trigger] fields[i]).0 != key,
        },
    decreases fields.len(),
{
    if fields.len() > 0 {
        let rest = fields.skip(1);
        law_field_is_found_by_name(rest, key);
        if fields[0].0 == key {
            assert(fields[0] == (key, fields[0].1));
        } else {
            match field_named(rest, key) {
                Some(value) => {
                    let i = choose|i: int|
                        0 <= i < rest.len() && #[trigger] rest[i] == (key, value) && forall|j: int|
                            0 <= j < i ==> (#[trigger] rest[j]).0 != key;
                    assert(fields[i + 1] == (key, value));
                    assert forall|j: int| 0 <= j < i + 1 implies (#[trigger] fields[j]).0
                        != key by {
                        if j > 0 {
                            assert(rest[j - 1].0 != key);
                        }
                    }
                },
                None => {
                    assert forall|i: int| 0 <= i < fields.len() implies (#[trigger] fields[i]).0
                        != key by {
                        if i > 0 {
                            assert(rest[i - 1].0 != key);
                        }
                    }
                },
            }
        }
    }
}

/// What is no object has no fields, and what is no string has no text; a string has
/// all of its text.
pub proof fn law_lookup_by_kind(j: JsonValue, key: Seq<char>, t: Seq<char>)
    ensures
        !(j is Object) ==> j.field(key) is None,
        !(j is Text) ==> j.text() is None,
        JsonValue::Text(t).text() == Some(t),
{
}

/// Fields and items keep their number, order and content.
pub proof fn law_fields_and_items(
    fields: Seq<(String, Json)>,
    items: Seq<Json>,
    flat: Seq<(String, Field)>,
)
    ensures
        field_values(fields).len() == fields.len(),
        forall|i: int|
            0 <= i < fields.len() ==> #[trigger] field_values(fields)[i] == (
                fields[i].0@,
                fields[i].1@,
            ),
        item_values(items).len() == items.len(),
        forall|i: int| 0 <= i < items.len() ==> #[trigger] item_values(items)[i] == items[i]@,
        fields_of(flat).len() == flat.len(),
        forall|i: int|
            0 <= i < flat.len() ==> #[trigger] fields_of(flat)[i] == (flat[i].0@, flat[i].1@),
{
}

/// A field of a flat object is its text, or its list of texts, in full.
pub proof fn law_field_is_the_content(text: String, list: Vec<String>)
    ensures
        Field::Text(text)@ == FieldValue::Text(text@),
        Field::List(list)@ matches FieldValue::List(texts) && texts.len() == list@.len() && forall|
            i: int,
        |
            0 <= i < list@.len() ==> #[trigger] texts[i] == list@[i]@,
{
}

} // verus!
