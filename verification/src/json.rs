//! JSON values and JSON objects, held by `serde_json`.

use vstd::prelude::*;
use crate::text::texts;

verus! {

/// A JSON value of `serde_json`.
#[verifier::external_type_specification]
#[verifier::external_body]
pub struct ExJsonValue(serde_json::Value);

/// The ordered object map of `serde_json`.
#[verifier::external_type_specification]
#[verifier::external_body]
#[verifier::reject_recursive_types(K)]
#[verifier::reject_recursive_types(V)]
pub struct ExJsonObject<K, V>(serde_json::Map<K, V>);

/// What a JSON value is. A number that is no integer is its compact text.
pub enum JsonModel {
    Null,
    Bool(bool),
    Integer(int),
    Number(Seq<char>),
    Text(Seq<char>),
    Array(Seq<JsonModel>),
    Object(Map<Seq<char>, JsonModel>),
}

/// What a `serde_json::Value` holds.
pub uninterp spec fn value_model(value: serde_json::Value) -> JsonModel;

/// What a `serde_json::Map` holds.
pub uninterp spec fn object_model(object: serde_json::Map<String, serde_json::Value>) -> Map<
    Seq<char>,
    JsonModel,
>;

/// The compact text that `serde_json` writes for a value.
pub uninterp spec fn json_text(model: JsonModel) -> Seq<char>;

/// The bytes that `serde_json::to_vec` writes for a value.
pub uninterp spec fn json_bytes(model: JsonModel) -> Seq<u8>;

/// A piece of JSON text: a character outside a string, a quote at the start or end of a string, or
/// a character within a string by its number.
pub enum JsonPiece {
    Mark(char),
    Quote,
    Unit(int),
}

/// Whether a character may stand in JSON text outside a string.
pub open spec fn json_mark(c: char) -> bool {
    ||| c == '{' || c == '}' || c == '[' || c == ']' || c == ':' || c == ','
    ||| c == ' ' || c == '\t' || c == '\n' || c == '\r'
    ||| c == '+' || c == '-' || c == '.'
    ||| '0' <= c <= '9'
    ||| 'a' <= c <= 'z'
    ||| 'A' <= c <= 'Z'
}

/// The number of the character that a backslash and one more character stand for.
pub open spec fn short_escape(c: char) -> Option<int> {
    if c == '"' || c == '\\' || c == '/' {
        Some(c as int)
    } else if c == 'b' {
        Some(8)
    } else if c == 't' {
        Some(9)
    } else if c == 'n' {
        Some(10)
    } else if c == 'f' {
        Some(12)
    } else if c == 'r' {
        Some(13)
    } else {
        None
    }
}

/// The value of a hexadecimal digit.
pub open spec fn digit_value(c: char) -> Option<int> {
    if '0' <= c <= '9' {
        Some(c as int - '0' as int)
    } else if 'a' <= c <= 'f' {
        Some(c as int - 'a' as int + 10)
    } else if 'A' <= c <= 'F' {
        Some(c as int - 'A' as int + 10)
    } else {
        None
    }
}

/// The number that the four digits of a long escape at the start of a text stand for.
pub open spec fn long_escape(text: Seq<char>) -> Option<int> {
    if text.len() >= 6 && text[1] == 'u' && digit_value(text[2]) is Some && digit_value(text[3])
        is Some && digit_value(text[4]) is Some && digit_value(text[5]) is Some {
        Some(
            4096 * digit_value(text[2])->0 + 256 * digit_value(text[3])->0 + 16 * digit_value(
                text[4],
            )->0 + digit_value(text[5])->0,
        )
    } else {
        None
    }
}

/// A piece before others.
pub open spec fn piece_before(piece: JsonPiece, rest: Option<Seq<JsonPiece>>) -> Option<
    Seq<JsonPiece>,
> {
    match rest {
        Some(pieces) => Some(seq![piece] + pieces),
        None => None,
    }
}

/// The pieces of JSON text, read outside a string or within one. Two texts with the same pieces
/// stand for the same value. There are none where the text breaks the lexical rules of JSON.
pub open spec fn json_pieces(text: Seq<char>, quoted: bool) -> Option<Seq<JsonPiece>>
    decreases text.len(),
{
    if text.len() == 0 {
        if quoted {
            None
        } else {
            Some(Seq::empty())
        }
    } else if text[0] == '"' {
        piece_before(JsonPiece::Quote, json_pieces(text.skip(1), !quoted))
    } else if !quoted {
        if json_mark(text[0]) {
            piece_before(JsonPiece::Mark(text[0]), json_pieces(text.skip(1), false))
        } else {
            None
        }
    } else if text[0] == '\\' {
        if text.len() >= 2 && short_escape(text[1]) is Some {
            piece_before(
                JsonPiece::Unit(short_escape(text[1])->0),
                json_pieces(text.skip(2), true),
            )
        } else if long_escape(text) is Some {
            piece_before(JsonPiece::Unit(long_escape(text)->0), json_pieces(text.skip(6), true))
        } else {
            None
        }
    } else if ' ' <= text[0] {
        piece_before(JsonPiece::Unit(text[0] as int), json_pieces(text.skip(1), true))
    } else {
        None
    }
}

/// The text of a number that is zero and no integer.
pub open spec fn zero_text(text: Seq<char>) -> bool {
    text == "0.0"@ || text == "-0.0"@
}

/// Two values are equal: they have the same contents, but for the sign of a zero that is no
/// integer, at any depth.
pub open spec fn json_equal(left: JsonModel, right: JsonModel) -> bool
    decreases left,
{
    match (left, right) {
        (JsonModel::Number(a), JsonModel::Number(b)) => a == b || (zero_text(a) && zero_text(b)),
        (JsonModel::Array(a), JsonModel::Array(b)) => a.len() == b.len() && forall|i: int|
            0 <= i < a.len() ==> json_equal(#[trigger] a[i], b[i]),
        (JsonModel::Object(a), JsonModel::Object(b)) => a.dom() == b.dom() && forall|key: Seq<char>|
            a.dom().finite() && #[trigger] a.dom().contains(key) ==> json_equal(a[key], b[key]),
        _ => left == right,
    }
}

/// A value is equal to itself.
pub proof fn json_equals_itself(value: JsonModel)
    ensures
        json_equal(value, value),
    decreases value,
{
    match value {
        JsonModel::Array(items) => {
            assert forall|i: int| 0 <= i < items.len() implies json_equal(
                #[trigger] items[i],
                items[i],
            ) by {
                json_equals_itself(items[i]);
            }
        },
        JsonModel::Object(members) => {
            assert forall|key: Seq<char>|
                members.dom().finite() && #[trigger] members.dom().contains(key) implies json_equal(
                members[key],
                members[key],
            ) by {
                json_equals_itself(members[key]);
            }
        },
        _ => {},
    }
}

/// The object without members.
pub open spec fn no_members() -> Map<Seq<char>, JsonModel> {
    Map::empty()
}

/// The models of a list of values.
pub open spec fn json_models(values: Seq<Json>) -> Seq<JsonModel> {
    values.map_values(|value: Json| value@)
}

/// `Value::Null`.
#[verifier::external_body]
fn value_null() -> (r: serde_json::Value)
    ensures
        value_model(r) == JsonModel::Null,
{
    serde_json::Value::Null
}

/// `Value::Bool` holds the given truth value.
#[verifier::external_body]
fn value_bool(value: bool) -> (r: serde_json::Value)
    ensures
        value_model(r) == JsonModel::Bool(value),
{
    serde_json::Value::Bool(value)
}

/// `Value::from` makes the integer of the given value.
#[verifier::external_body]
fn value_integer(value: i64) -> (r: serde_json::Value)
    ensures
        value_model(r) == JsonModel::Integer(value as int),
{
    serde_json::Value::from(value)
}

/// `Value::from` makes the integer of the given unsigned value.
#[verifier::external_body]
fn value_unsigned(value: u64) -> (r: serde_json::Value)
    ensures
        value_model(r) == JsonModel::Integer(value as int),
{
    serde_json::Value::from(value)
}

/// `Value::String` holds the given text.
#[verifier::external_body]
fn value_text(value: String) -> (r: serde_json::Value)
    ensures
        value_model(r) == JsonModel::Text(value@),
{
    serde_json::Value::String(value)
}

/// `Value::Array` holds the given values in their order.
#[verifier::external_body]
fn value_array(values: Vec<Json>) -> (r: serde_json::Value)
    ensures
        value_model(r) == JsonModel::Array(json_models(values@)),
{
    serde_json::Value::Array(values.into_iter().map(|item| item.value).collect())
}

/// `Value::Object` holds the members of the given object.
#[verifier::external_body]
fn value_object(object: serde_json::Map<String, serde_json::Value>) -> (r: serde_json::Value)
    ensures
        value_model(r) == JsonModel::Object(object_model(object)),
{
    serde_json::Value::Object(object)
}

/// `Value::clone` gives a value with the same contents.
#[verifier::external_body]
fn value_clone(value: &serde_json::Value) -> (r: serde_json::Value)
    ensures
        value_model(r) == value_model(*value),
{
    value.clone()
}

/// `==` on two values compares their contents by variant, integers and doubles apart, and doubles
/// as numbers: of two doubles with different texts only `0.0` and `-0.0` are equal.
#[verifier::external_body]
fn value_equal(left: &serde_json::Value, right: &serde_json::Value) -> (r: bool)
    ensures
        r == json_equal(value_model(*left), value_model(*right)),
{
    left == right
}

/// `Value::as_bool` gives the truth value of a boolean and nothing for any other value.
#[verifier::external_body]
fn value_as_bool(value: &serde_json::Value) -> (r: Option<bool>)
    ensures
        r == match value_model(*value) {
            JsonModel::Bool(b) => Some(b),
            _ => None,
        },
{
    value.as_bool()
}

/// `Value::as_object` gives the members of an object and nothing for any other value.
#[verifier::external_body]
fn value_as_object(value: &serde_json::Value) -> (r: Option<
    &serde_json::Map<String, serde_json::Value>,
>)
    ensures
        match value_model(*value) {
            JsonModel::Object(members) => r matches Some(object) && object_model(*object)
                == members,
            _ => r is None,
        },
{
    value.as_object()
}

/// `Value::to_string` writes the compact text of a value, which depends on its contents alone and
/// keeps to the lexical rules of JSON.
#[verifier::external_body]
fn value_to_string(value: &serde_json::Value) -> (r: String)
    ensures
        r@ == json_text(value_model(*value)),
        json_pieces(r@, false) is Some,
{
    value.to_string()
}

/// `serde_json::to_vec` writes the bytes of a value. It cannot fail: a value has text keys only,
/// and a `Vec` takes every byte. The bytes depend on the contents alone, and two values with
/// different contents have different bytes.
#[verifier::external_body]
fn value_to_vec(value: &serde_json::Value) -> (r: Result<Vec<u8>, String>)
    ensures
        r is Ok,
        r->Ok_0@ == json_bytes(value_model(*value)),
        forall|other: JsonModel| #[trigger] json_bytes(other) == r->Ok_0@ ==> other == value_model(*value),
{
    serde_json::to_vec(value).map_err(|error| error.to_string())
}

/// `Map::new` makes an object without members.
#[verifier::external_body]
fn object_new() -> (r: serde_json::Map<String, serde_json::Value>)
    ensures
        object_model(r) == no_members(),
{
    serde_json::Map::new()
}

/// `Map::clone` gives an object with the same members.
#[verifier::external_body]
fn object_clone(object: &serde_json::Map<String, serde_json::Value>) -> (r: serde_json::Map<
    String,
    serde_json::Value,
>)
    ensures
        object_model(r) == object_model(*object),
{
    object.clone()
}

/// `Map::insert` sets one member and leaves the others.
#[verifier::external_body]
fn object_insert(
    object: &mut serde_json::Map<String, serde_json::Value>,
    key: String,
    value: serde_json::Value,
)
    ensures
        object_model(*final(object)) == object_model(*old(object)).insert(key@, value_model(value)),
{
    object.insert(key, value);
}

/// `Map::get` gives the value of a member, where there is one.
#[verifier::external_body]
fn object_get<'a>(
    object: &'a serde_json::Map<String, serde_json::Value>,
    key: &str,
) -> (r: Option<&'a serde_json::Value>)
    ensures
        r is Some <==> object_model(*object).dom().contains(key@),
        r matches Some(value) ==> value_model(*value) == object_model(*object)[key@],
{
    object.get(key)
}

/// `Map::keys` gives the name of each member once.
#[verifier::external_body]
fn object_keys(object: &serde_json::Map<String, serde_json::Value>) -> (r: Vec<String>)
    ensures
        texts(r@).no_duplicates(),
        texts(r@).to_set() == object_model(*object).dom(),
{
    object.keys().cloned().collect()
}

/// A JSON value.
#[derive(Debug, PartialEq)]
pub struct Json {
    /// The value.
    pub value: serde_json::Value,
}

impl View for Json {
    type V = JsonModel;

    open spec fn view(&self) -> JsonModel {
        value_model(self.value)
    }
}

impl Clone for Json {
    fn clone(&self) -> (r: Self)
        ensures
            r@ == self@,
    {
        Json { value: value_clone(&self.value) }
    }
}

impl Json {
    /// The value `null`.
    pub fn null() -> (r: Json)
        ensures
            r@ == JsonModel::Null,
    {
        Json { value: value_null() }
    }

    /// A truth value.
    pub fn boolean(value: bool) -> (r: Json)
        ensures
            r@ == JsonModel::Bool(value),
    {
        Json { value: value_bool(value) }
    }

    /// An integer.
    pub fn integer(value: i64) -> (r: Json)
        ensures
            r@ == JsonModel::Integer(value as int),
    {
        Json { value: value_integer(value) }
    }

    /// An unsigned integer.
    pub fn unsigned(value: u64) -> (r: Json)
        ensures
            r@ == JsonModel::Integer(value as int),
    {
        Json { value: value_unsigned(value) }
    }

    /// A text.
    pub fn text(value: &str) -> (r: Json)
        ensures
            r@ == JsonModel::Text(value@),
    {
        Json { value: value_text(value.to_owned()) }
    }

    /// A list of values.
    pub fn array(values: Vec<Json>) -> (r: Json)
        ensures
            r@ == JsonModel::Array(json_models(values@)),
    {
        Json { value: value_array(values) }
    }

    /// An object.
    pub fn object(object: JsonObject) -> (r: Json)
        ensures
            r@ == JsonModel::Object(object@),
    {
        Json { value: value_object(object.members) }
    }

    /// Tells whether two values are equal.
    pub fn same(&self, other: &Json) -> (r: bool)
        ensures
            r == json_equal(self@, other@),
    {
        value_equal(&self.value, &other.value)
    }

    /// The truth value, where this is one.
    pub fn as_bool(&self) -> (r: Option<bool>)
        ensures
            r == match self@ {
                JsonModel::Bool(b) => Some(b),
                _ => None,
            },
    {
        value_as_bool(&self.value)
    }

    /// Tells whether this is an object.
    pub fn is_object(&self) -> (r: bool)
        ensures
            r == (self@ is Object),
    {
        value_as_object(&self.value).is_some()
    }

    /// The value of a member, where this is an object that has it.
    pub fn member(&self, key: &str) -> (r: Option<Json>)
        ensures
            match json_member(self@, key@) {
                Some(model) => r matches Some(value) && value@ == model,
                None => r is None,
            },
    {
        match value_as_object(&self.value) {
            Some(object) => match object_get(object, key) {
                Some(value) => Some(Json { value: value_clone(value) }),
                None => None,
            },
            None => None,
        }
    }

    /// The compact text of the value.
    pub fn to_text(&self) -> (r: String)
        ensures
            r@ == json_text(self@),
            json_pieces(r@, false) is Some,
    {
        value_to_string(&self.value)
    }

    /// The bytes of the value. Writing them does not fail.
    pub fn to_bytes(&self) -> (r: Result<Vec<u8>, String>)
        ensures
            r is Ok,
            r->Ok_0@ == json_bytes(self@),
            forall|other: JsonModel| #[trigger] json_bytes(other) == r->Ok_0@ ==> other == self@,
    {
        value_to_vec(&self.value)
    }
}

/// The member of an object under a name.
pub open spec fn json_member(model: JsonModel, key: Seq<char>) -> Option<JsonModel> {
    match model {
        JsonModel::Object(members) if members.dom().contains(key) => Some(members[key]),
        _ => None,
    }
}

/// A JSON object: values under distinct names.
#[derive(Debug, PartialEq)]
pub struct JsonObject {
    /// The members.
    pub members: serde_json::Map<String, serde_json::Value>,
}

impl View for JsonObject {
    type V = Map<Seq<char>, JsonModel>;

    open spec fn view(&self) -> Map<Seq<char>, JsonModel> {
        object_model(self.members)
    }
}

impl Clone for JsonObject {
    fn clone(&self) -> (r: Self)
        ensures
            r@ == self@,
    {
        JsonObject { members: object_clone(&self.members) }
    }
}

impl Default for JsonObject {
    fn default() -> (r: Self)
        ensures
            r@ == no_members(),
    {
        JsonObject { members: object_new() }
    }
}

impl JsonObject {
    /// An object without members.
    pub fn new() -> (r: JsonObject)
        ensures
            r@ == no_members(),
    {
        JsonObject { members: object_new() }
    }

    /// Sets one member.
    pub fn insert(&mut self, key: &str, value: Json)
        ensures
            final(self)@ == old(self)@.insert(key@, value@),
    {
        object_insert(&mut self.members, key.to_owned(), value.value);
    }

    /// The value of a member.
    pub fn get(&self, key: &str) -> (r: Option<Json>)
        ensures
            r is Some <==> self@.dom().contains(key@),
            r matches Some(value) ==> value@ == self@[key@],
    {
        match object_get(&self.members, key) {
            Some(value) => Some(Json { value: value_clone(value) }),
            None => None,
        }
    }

    /// The names of the members, each once.
    pub fn keys(&self) -> (r: Vec<String>)
        ensures
            texts(r@).no_duplicates(),
            texts(r@).to_set() == self@.dom(),
    {
        object_keys(&self.members)
    }

    /// Tells whether every member of `self` is in `other` with an equal value.
    pub fn contained_in(&self, other: &JsonObject) -> (r: bool)
        ensures
            r == object_contained(self@, other@),
    {
        let keys = self.keys();
        let mut i: usize = 0;
        while i < keys.len()
            invariant
                i <= keys@.len(),
                texts(keys@).to_set() == self@.dom(),
                forall|j: int|
                    0 <= j < i ==> other@.dom().contains(#[trigger] keys@[j]@) && json_equal(
                        self@[keys@[j]@],
                        other@[keys@[j]@],
                    ),
            decreases keys@.len() - i,
        {
            assert(texts(keys@)[i as int] == keys@[i as int]@);
            assert(texts(keys@).to_set().contains(keys@[i as int]@));
            let wanted = object_get(&self.members, keys[i].as_str());
            let found = object_get(&other.members, keys[i].as_str());
            match (wanted, found) {
                (Some(wanted), Some(found)) => {
                    if !value_equal(wanted, found) {
                        return false;
                    }
                },
                _ => {
                    return false;
                },
            }
            i += 1;
        }
        proof {
            assert forall|key: Seq<char>| #[trigger] self@.dom().contains(key) implies other@.dom().contains(key)
                && json_equal(self@[key], other@[key]) by {
                assert(texts(keys@).to_set().contains(key));
                let j = choose|j: int| 0 <= j < texts(keys@).len() && texts(keys@)[j] == key;
                assert(keys@[j]@ == key);
            }
        }
        true
    }
}

/// Every member of `wanted` is in `found` with an equal value.
pub open spec fn object_contained(
    wanted: Map<Seq<char>, JsonModel>,
    found: Map<Seq<char>, JsonModel>,
) -> bool {
    forall|key: Seq<char>| #[trigger]
        wanted.dom().contains(key) ==> found.dom().contains(key) && json_equal(
            wanted[key],
            found[key],
        )
}

/// A member of an object is found under its name, and no other value has members.
pub proof fn members_are_found_by_name(
    members: Map<Seq<char>, JsonModel>,
    other: JsonModel,
    key: Seq<char>,
    value: JsonModel,
)
    ensures
        json_member(JsonModel::Object(members.insert(key, value)), key) == Some(value),
        json_member(JsonModel::Object(members.remove(key)), key) is None,
        !(other is Object) ==> json_member(other, key) is None,
{
}

/// An object holds what it is asked for exactly where it has each of those names with an equal
/// value. Nothing is asked for by no members, and what is missing or different is not held.
pub proof fn containment_goes_by_member(
    wanted: Map<Seq<char>, JsonModel>,
    found: Map<Seq<char>, JsonModel>,
    key: Seq<char>,
    value: JsonModel,
)
    ensures
        object_contained(no_members(), found),
        !wanted.dom().contains(key) ==> object_contained(wanted.insert(key, value), found) == (
        object_contained(wanted, found) && found.dom().contains(key) && json_equal(
            value,
            found[key],
        )),
{
    if !wanted.dom().contains(key) {
        let more = wanted.insert(key, value);
        assert(more.dom().contains(key));
        if object_contained(more, found) {
            assert forall|k: Seq<char>| #[trigger] wanted.dom().contains(k) implies found.dom().contains(
                k,
            ) && json_equal(wanted[k], found[k]) by {
                assert(more.dom().contains(k));
            }
        }
    }
}

/// Values of different kinds are not equal, and texts, truth values and integers are equal only to
/// themselves.
pub proof fn plain_values_equal_themselves_only(
    text: Seq<char>,
    other: Seq<char>,
    left: int,
    right: int,
    value: JsonModel,
)
    ensures
        json_equal(JsonModel::Text(text), JsonModel::Text(other)) == (text == other),
        json_equal(JsonModel::Integer(left), JsonModel::Integer(right)) == (left == right),
        !json_equal(JsonModel::Bool(true), JsonModel::Bool(false)),
        !(value is Null) ==> !json_equal(JsonModel::Null, value),
        !(value is Text) ==> !json_equal(JsonModel::Text(text), value),
        !(value is Integer) ==> !json_equal(JsonModel::Integer(left), value),
{
}

/// Arrays are equal exactly where they have as many elements, each equal to the one in its place, and
/// objects where they have the same names with equal values. Other numbers are equal by their text,
/// but for the sign of zero.
pub proof fn compound_values_are_compared_in_full(
    left: Seq<JsonModel>,
    right: Seq<JsonModel>,
    members: Map<Seq<char>, JsonModel>,
    others: Map<Seq<char>, JsonModel>,
    number: Seq<char>,
    other: Seq<char>,
)
    requires
        members.dom().finite(),
    ensures
        json_equal(JsonModel::Array(left), JsonModel::Array(right)) <==> left.len() == right.len()
            && forall|i: int| 0 <= i < left.len() ==> json_equal(#[trigger] left[i], right[i]),
        json_equal(JsonModel::Object(members), JsonModel::Object(others)) <==> members.dom()
            == others.dom() && forall|key: Seq<char>| #[trigger]
            members.dom().contains(key) ==> json_equal(members[key], others[key]),
        json_equal(JsonModel::Number(number), JsonModel::Number(other)) <==> number == other || ((
        number == "0.0"@ || number == "-0.0"@) && (other == "0.0"@ || other == "-0.0"@)),
{
}

} // verus!
