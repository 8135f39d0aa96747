//! JSON documents: what they hold, how they are read and how they are built.
//!
//! A document is a `serde_json::Value`. Its contents are a [`JsonView`], and every function here
//! speaks of that view.

use vstd::prelude::*;

verus! {

/// What a JSON value holds.
pub enum JsonView {
    /// `null`
    Null,
    /// `true` or `false`
    Bool(bool),
    /// A number written without fraction or exponent, between `i64::MIN` and `u64::MAX`; but `-0`
    /// is none of these.
    Integer(int),
    /// Any other number, as the bits of the binary64 that stands for it.
    Real(u64),
    /// A string.
    Str(Seq<char>),
    /// An array.
    Array(Seq<JsonView>),
    /// An object.
    Object(Map<Seq<char>, JsonView>),
}

impl JsonView {
    /// The member of an object under a key; `null` where there is none.
    pub open spec fn member(self, key: Seq<char>) -> JsonView {
        match self {
            JsonView::Object(members) if members.dom().contains(key) => members[key],
            _ => JsonView::Null,
        }
    }

    /// The element of an array at a position; `null` where there is none.
    pub open spec fn element(self, i: int) -> JsonView {
        match self {
            JsonView::Array(items) if 0 <= i < items.len() => items[i],
            _ => JsonView::Null,
        }
    }

    /// The text of a string.
    pub open spec fn text(self) -> Option<Seq<char>> {
        match self {
            JsonView::Str(s) => Some(s),
            _ => None,
        }
    }

    /// The truth value of a boolean.
    pub open spec fn truth(self) -> Option<bool> {
        match self {
            JsonView::Bool(b) => Some(b),
            _ => None,
        }
    }

    /// The value of an integer that a `u64` can hold.
    pub open spec fn unsigned(self) -> Option<u64> {
        match self {
            JsonView::Integer(n) if 0 <= n <= u64::MAX => Some(n as u64),
            _ => None,
        }
    }

    /// No number in the value has a fraction or an exponent, no object has a key that serde_json
    /// keeps for itself, and arrays and objects are nested at most `depth` deep.
    pub open spec fn plain_within(self, depth: nat) -> bool
        decreases depth, 1nat,
    {
        match self {
            JsonView::Real(_) => false,
            JsonView::Array(items) => depth > 0 && (forall|i: int|
                0 <= i < items.len() ==> (#[trigger] items[i]).plain_within((depth - 1) as nat)),
            JsonView::Object(members) => depth > 0 && (forall|key: Seq<char>|
                members.dom().contains(key) ==> !reserved_key(key) && (
                #[trigger] members[key]).plain_within((depth - 1) as nat)),
            _ => true,
        }
    }
}

/// Whether serde_json keeps a key for itself: an object that begins with one may be read as what
/// the member under it stands for.
pub open spec fn reserved_key(key: Seq<char>) -> bool {
    key == "$serde_json::private::RawValue"@ || key == "$serde_json::private::Number"@
}

/// A key that is shorter than the reserved ones is not reserved.
pub(crate) proof fn lemma_short_key(key: Seq<char>)
    requires
        key.len() < 28,
    ensures
        !reserved_key(key),
{
    reveal_strlit("$serde_json::private::RawValue");
    reveal_strlit("$serde_json::private::Number");
}

/// The members of an object that is written as a list of pairs: a later pair replaces an earlier
/// one with the same key.
pub open spec fn members_of(pairs: Seq<(Seq<char>, JsonView)>) -> Map<Seq<char>, JsonView>
    decreases pairs.len(),
{
    if pairs.len() == 0 {
        Map::empty()
    } else {
        members_of(pairs.drop_last()).insert(pairs.last().0, pairs.last().1)
    }
}

/// A JSON value of serde_json.
#[verifier::external_type_specification]
#[verifier::external_body]
pub struct ExValue(serde_json::Value);

/// An error of serde_json.
#[verifier::external_type_specification]
#[verifier::external_body]
pub struct ExJsonError(serde_json::Error);

/// What a JSON value of serde_json holds.
pub uninterp spec fn json_tree(value: serde_json::Value) -> JsonView;

/// What `serde_json::from_str` makes of a text: the value it holds, or `None` where it is not
/// JSON.
pub uninterp spec fn parsed_text(text: Seq<char>) -> Option<JsonView>;

/// What `serde_json::from_slice` makes of some bytes: the value they hold, or `None` where they
/// are not JSON.
pub uninterp spec fn parsed_bytes(bytes: Seq<u8>) -> Option<JsonView>;

/// The text that `serde_json` writes for a value.
pub uninterp spec fn written_text(tree: JsonView) -> Seq<char>;

/// `serde_json::from_str`: the text is JSON, or it is refused.
#[verifier::external_body]
fn value_from_str(text: &str) -> (r: Result<serde_json::Value, serde_json::Error>)
    ensures
        match r {
            Ok(value) => parsed_text(text@) == Some(json_tree(value)),
            Err(_) => parsed_text(text@) is None,
        },
{
    serde_json::from_str(text)
}

/// `serde_json::from_slice`: the bytes are JSON, or they are refused.
#[verifier::external_body]
fn value_from_slice(bytes: &[u8]) -> (r: Result<serde_json::Value, serde_json::Error>)
    ensures
        match r {
            Ok(value) => parsed_bytes(bytes@) == Some(json_tree(value)),
            Err(_) => parsed_bytes(bytes@) is None,
        },
{
    serde_json::from_slice(bytes)
}

/// Indexing of a `serde_json::Value` by a string: the member of an object under that key, and
/// `null` for a missing key or for a value that is no object.
#[verifier::external_body]
pub(crate) fn member<'a>(value: &'a serde_json::Value, key: &str) -> (r: &'a serde_json::Value)
    ensures
        json_tree(*r) == json_tree(*value).member(key@),
{
    &value[key]
}

/// Indexing of a `serde_json::Value` by a number: the element of an array at that position, and
/// `null` past its end or for a value that is no array.
#[verifier::external_body]
pub(crate) fn element(value: &serde_json::Value, i: usize) -> (r: &serde_json::Value)
    ensures
        json_tree(*r) == json_tree(*value).element(i as int),
{
    &value[i]
}

/// `serde_json::Value::as_str`: the text of a string, and nothing for any other value.
#[verifier::external_body]
pub(crate) fn text_of(value: &serde_json::Value) -> (r: Option<&str>)
    ensures
        match r {
            Some(text) => json_tree(*value).text() == Some(text@),
            None => json_tree(*value).text() is None,
        },
{
    value.as_str()
}

/// `serde_json::Value::as_u64`: an integer from zero to `u64::MAX`, and nothing for any other
/// value.
#[verifier::external_body]
pub(crate) fn unsigned_of(value: &serde_json::Value) -> (r: Option<u64>)
    ensures
        r == json_tree(*value).unsigned(),
{
    value.as_u64()
}

/// `serde_json::Value::as_bool`: a boolean, and nothing for any other value.
#[verifier::external_body]
pub(crate) fn truth_of(value: &serde_json::Value) -> (r: Option<bool>)
    ensures
        r == json_tree(*value).truth(),
{
    value.as_bool()
}

/// Comparison of a `serde_json::Value` with a `str`: true of the string with that text only.
#[verifier::external_body]
pub(crate) fn is_text(value: &serde_json::Value, text: &str) -> (r: bool)
    ensures
        r == (json_tree(*value).text() == Some(text@)),
{
    *value == *text
}

/// `Clone` of a `serde_json::Value`: the copy holds the same.
#[verifier::external_body]
pub(crate) fn copy_of(value: &serde_json::Value) -> (r: serde_json::Value)
    ensures
        json_tree(r) == json_tree(*value),
{
    value.clone()
}

/// `Display` of a `serde_json::Value`: the compact text of the value, which depends on what it
/// holds alone. The text of a string stands between quotation marks, and `serde_json::from_str`
/// reads every value back that holds integers only, has no key that serde_json keeps for itself
/// and stays within the reader's limit on nesting. Of reading back other values nothing is said.
#[verifier::external_body]
pub(crate) fn text_for(value: &serde_json::Value) -> (r: String)
    ensures
        r@ == written_text(json_tree(*value)),
        json_tree(*value) is Str ==> r@.len() >= 2 && r@[0] == '"',
        json_tree(*value).plain_within(127) ==> parsed_text(r@) == Some(json_tree(*value)),
{
    value.to_string()
}

/// `serde_json::Value::Null`.
#[verifier::external_body]
fn null_value() -> (r: serde_json::Value)
    ensures
        json_tree(r) == JsonView::Null,
{
    serde_json::Value::Null
}

/// `From<String>` for `serde_json::Value`.
#[verifier::external_body]
fn string_value(text: String) -> (r: serde_json::Value)
    ensures
        json_tree(r) == JsonView::Str(text@),
{
    serde_json::Value::from(text)
}

/// `From<u64>` for `serde_json::Value`.
#[verifier::external_body]
fn unsigned_value(n: u64) -> (r: serde_json::Value)
    ensures
        json_tree(r) == JsonView::Integer(n as int),
{
    serde_json::Value::from(n)
}

/// `From<i64>` for `serde_json::Value`.
#[verifier::external_body]
fn signed_value(n: i64) -> (r: serde_json::Value)
    ensures
        json_tree(r) == JsonView::Integer(n as int),
{
    serde_json::Value::from(n)
}

/// `From<Vec<Value>>` for `serde_json::Value`: an array of the items in their order.
#[verifier::external_body]
fn array_value(items: Vec<serde_json::Value>) -> (r: serde_json::Value)
    ensures
        json_tree(r) == JsonView::Array(
            items@.map_values(|item: serde_json::Value| json_tree(item)),
        ),
{
    serde_json::Value::from(items)
}

/// `serde_json::Value::Object` with an empty `serde_json::Map`.
#[verifier::external_body]
fn empty_object() -> (r: serde_json::Value)
    ensures
        json_tree(r) == JsonView::Object(Map::empty()),
{
    serde_json::Value::Object(serde_json::Map::new())
}

/// Assignment to a `serde_json::Value` under a string: an object then has the member under that
/// key, and its other members are kept.
#[verifier::external_body]
fn set_member(object: &mut serde_json::Value, key: &str, value: serde_json::Value)
    requires
        json_tree(*old(object)) is Object,
    ensures
        json_tree(*final(object)) == JsonView::Object(
            json_tree(*old(object))->Object_0.insert(key@, json_tree(value)),
        ),
{
    object[key] = value;
}

/// The refusal of a text or of bytes that are not JSON.
#[derive(Debug, PartialEq, Eq, Structural)]
pub struct NotJson {}

/// A JSON document.
#[derive(Debug)]
pub struct Json {
    /// The value of the document.
    pub value: serde_json::Value,
}

impl View for Json {
    type V = JsonView;

    open spec fn view(&self) -> JsonView {
        json_tree(self.value)
    }
}

/// What a document holds, where there is one.
pub open spec fn content(document: Option<Json>) -> Option<JsonView> {
    match document {
        Some(json) => Some(json@),
        None => None,
    }
}

/// What documents hold, where there are any.
pub open spec fn contents(documents: Seq<Option<Json>>) -> Seq<Option<JsonView>> {
    documents.map_values(|document: Option<Json>| content(document))
}

/// The document that a text holds, if it is JSON.
pub fn read(text: &str) -> (r: Option<Json>)
    ensures
        content(r) == parsed_text(text@),
{
    match Json::parse(text) {
        Ok(json) => Some(json),
        Err(_) => None,
    }
}

impl Json {
    /// Reads a document from a text.
    pub fn parse(text: &str) -> (r: Result<Json, NotJson>)
        ensures
            match r {
                Ok(json) => parsed_text(text@) == Some(json@),
                Err(_) => parsed_text(text@) is None,
            },
    {
        match value_from_str(text) {
            Ok(value) => Ok(Json { value }),
            Err(_) => Err(NotJson {  }),
        }
    }

    /// Reads a document from bytes.
    pub fn parse_bytes(bytes: &[u8]) -> (r: Result<Json, NotJson>)
        ensures
            match r {
                Ok(json) => parsed_bytes(bytes@) == Some(json@),
                Err(_) => parsed_bytes(bytes@) is None,
            },
    {
        match value_from_slice(bytes) {
            Ok(value) => Ok(Json { value }),
            Err(_) => Err(NotJson {  }),
        }
    }

    /// The document `null`.
    pub fn null() -> (r: Json)
        ensures
            r@ == JsonView::Null,
    {
        Json { value: null_value() }
    }

    /// The document that is a string.
    pub fn string(text: &str) -> (r: Json)
        ensures
            r@ == JsonView::Str(text@),
    {
        Json { value: string_value(text.to_owned()) }
    }

    /// The document that is a non-negative integer.
    pub fn unsigned(n: u64) -> (r: Json)
        ensures
            r@ == JsonView::Integer(n as int),
    {
        Json { value: unsigned_value(n) }
    }

    /// The document that is an integer.
    pub fn signed(n: i64) -> (r: Json)
        ensures
            r@ == JsonView::Integer(n as int),
    {
        Json { value: signed_value(n) }
    }

    /// The document that is an array.
    pub fn array(items: Vec<Json>) -> (r: Json)
        ensures
            r@ == JsonView::Array(items@.map_values(|item: Json| item@)),
    {
        let mut values: Vec<serde_json::Value> = Vec::new();
        for item in it: items
            invariant
                it.seq() == items@,
                values@ == it.seq().take(it.index()).map_values(|item: Json| item.value),
        {
            values.push(item.value);
        }
        assert(values@.map_values(|item: serde_json::Value| json_tree(item)) =~= items@.map_values(
            |item: Json| item@,
        ));
        Json { value: array_value(values) }
    }

    /// The document that is an object; of two members with one key the later counts.
    pub fn object(members: Vec<(&str, Json)>) -> (r: Json)
        ensures
            r@ == JsonView::Object(
                members_of(members@.map_values(|pair: (&str, Json)| (pair.0@, pair.1@))),
            ),
    {
        let mut value = empty_object();
        let ghost pairs = members@.map_values(|pair: (&str, Json)| (pair.0@, pair.1@));
        for pair in it: members
            invariant
                it.seq() == members@,
                pairs == members@.map_values(|pair: (&str, Json)| (pair.0@, pair.1@)),
                json_tree(value) == JsonView::Object(members_of(pairs.take(it.index()))),
        {
            proof {
                assert(pairs.take(it.index() + 1).drop_last() =~= pairs.take(it.index()));
                assert(pairs[it.index()] == (pair.0@, pair.1@));
            }
            set_member(&mut value, pair.0, pair.1.value);
        }
        assert(pairs.take(pairs.len() as int) =~= pairs);
        Json { value }
    }

    /// The compact text of the document.
    pub fn to_text(&self) -> (r: String)
        ensures
            r@ == written_text(self@),
            self@ is Str ==> r@.len() >= 2 && r@[0] == '"',
            self@.plain_within(127) ==> parsed_text(r@) == Some(self@),
    {
        text_for(&self.value)
    }
}

} // verus!
