//! JSON documents as plain values.
//!
//! Decoding and printing are `serde_json`'s work; what this module adds is a
//! value that contracts can speak of, and the accessors that the rest of the
//! library reads documents with.

use vstd::prelude::*;

use crate::text::views;

verus! {

/// A JSON number. `Decimal` holds the shortest decimal text of a number that
/// is not a 64-bit integer.
#[derive(Debug, PartialEq, Eq)]
pub enum JsonNumber {
    Int(i64),
    UInt(u64),
    Decimal(String),
}

/// A JSON document.
#[derive(Debug, PartialEq, Eq)]
pub enum Json {
    Null,
    Bool(bool),
    Number(JsonNumber),
    Text(String),
    Array(Vec<Json>),
    Object(Vec<(String, Json)>),
}

/// Model of [`JsonNumber`].
pub enum NumberView {
    Int(int),
    Decimal(Seq<char>),
}

/// Model of [`Json`].
pub enum JsonView {
    Null,
    Bool(bool),
    Number(NumberView),
    Text(Seq<char>),
    Array(Seq<JsonView>),
    Object(Seq<(Seq<char>, JsonView)>),
}

impl View for JsonNumber {
    type V = NumberView;

    open spec fn view(&self) -> NumberView {
        match self {
            JsonNumber::Int(n) => NumberView::Int(*n as int),
            JsonNumber::UInt(n) => NumberView::Int(*n as int),
            JsonNumber::Decimal(text) => NumberView::Decimal(text@),
        }
    }
}

/// The model of a document.
pub open spec fn json_view(value: Json) -> JsonView
    decreases value,
{
    match value {
        Json::Null => JsonView::Null,
        Json::Bool(flag) => JsonView::Bool(flag),
        Json::Number(number) => JsonView::Number(number@),
        Json::Text(text) => JsonView::Text(text@),
        Json::Array(items) => JsonView::Array(
            Seq::new(
                items@.len(),
                |i: int|
                    if 0 <= i < items@.len() {
                        json_view(items@[i])
                    } else {
                        JsonView::Null
                    },
            ),
        ),
        Json::Object(fields) => JsonView::Object(
            Seq::new(
                fields@.len(),
                |i: int|
                    if 0 <= i < fields@.len() {
                        (fields@[i].0@, json_view(fields@[i].1))
                    } else {
                        (Seq::empty(), JsonView::Null)
                    },
            ),
        ),
    }
}

impl View for Json {
    type V = JsonView;

    open spec fn view(&self) -> JsonView {
        json_view(*self)
    }
}

/// The models of a sequence of documents.
pub open spec fn json_views(values: Seq<Json>) -> Seq<JsonView> {
    values.map_values(|value: Json| value@)
}

/// The model of an optional document.
pub open spec fn opt_json(value: Option<Json>) -> Option<JsonView> {
    match value {
        Some(value) => Some(value@),
        None => None,
    }
}

/// The model of an optional borrowed document.
pub open spec fn opt_ref_json(value: Option<&Json>) -> Option<JsonView> {
    match value {
        Some(value) => Some(value@),
        None => None,
    }
}

/// The model of an optional borrowed string.
pub open spec fn opt_ref_view(text: Option<&String>) -> Option<Seq<char>> {
    match text {
        Some(text) => Some(text@),
        None => None,
    }
}

// ---------------------------------------------------------------------------
// Reading
// ---------------------------------------------------------------------------

/// The value of the last field named `key`.
pub open spec fn last_field(fields: Seq<(Seq<char>, JsonView)>, key: Seq<char>) -> Option<JsonView>
    decreases fields.len(),
{
    if fields.len() == 0 {
        None
    } else if fields.last().0 == key {
        Some(fields.last().1)
    } else {
        last_field(fields.drop_last(), key)
    }
}

/// The field `key` of a document; `None` where the document is no object.
pub open spec fn field(value: JsonView, key: Seq<char>) -> Option<JsonView> {
    match value {
        JsonView::Object(fields) => last_field(fields, key),
        _ => None,
    }
}

/// The string that a document is.
pub open spec fn string_of(value: Option<JsonView>) -> Option<Seq<char>> {
    match value {
        Some(JsonView::Text(text)) => Some(text),
        _ => None,
    }
}

/// The truth value that a document is.
pub open spec fn bool_of(value: Option<JsonView>) -> Option<bool> {
    match value {
        Some(JsonView::Bool(flag)) => Some(flag),
        _ => None,
    }
}

/// The signed 64-bit integer that a document is.
pub open spec fn int_of(value: Option<JsonView>) -> Option<int> {
    match value {
        Some(JsonView::Number(NumberView::Int(n))) => if i64::MIN <= n <= i64::MAX {
            Some(n)
        } else {
            None
        },
        _ => None,
    }
}

/// The string in field `key`.
pub open spec fn string_field(value: JsonView, key: Seq<char>) -> Option<Seq<char>> {
    string_of(field(value, key))
}

/// The string in field `key`, or the empty string.
pub open spec fn string_field_or_empty(value: JsonView, key: Seq<char>) -> Seq<char> {
    match string_field(value, key) {
        Some(text) => text,
        None => Seq::empty(),
    }
}

/// The truth value in field `key`.
pub open spec fn bool_field(value: JsonView, key: Seq<char>) -> Option<bool> {
    bool_of(field(value, key))
}

impl Json {
    /// The field `key`, where this is an object that has it.
    pub fn get(&self, key: &str) -> (value: Option<&Json>)
        ensures
            opt_ref_json(value) == field(self@, key@),
    {
        match self {
            Json::Object(fields) => {
                let wanted = key.to_owned();
                let ghost all = self@->Object_0;
                let mut i: usize = fields.len();
                assert(all.take(i as int) =~= all);
                while i > 0
                    invariant
                        i <= fields@.len(),
                        self@ == JsonView::Object(all),
                        *self == Json::Object(*fields),
                        all.len() == fields@.len(),
                        wanted@ == key@,
                        last_field(all, key@) == last_field(all.take(i as int), key@),
                    decreases i,
                {
                    i = i - 1;
                    let ghost seen = all.take(i + 1);
                    assert(seen.last() == all[i as int]);
                    assert(all[i as int] == (fields@[i as int].0@, fields@[i as int].1@));
                    assert(seen.drop_last() =~= all.take(i as int));
                    if fields[i].0 == wanted {
                        return Some(&fields[i].1);
                    }
                }
                None
            },
            _ => None,
        }
    }

    /// The string that this is.
    pub fn as_str(&self) -> (text: Option<&String>)
        ensures
            opt_ref_view(text) == string_of(Some(self@)),
    {
        match self {
            Json::Text(text) => Some(text),
            _ => None,
        }
    }

    /// The truth value that this is.
    pub fn as_bool(&self) -> (flag: Option<bool>)
        ensures
            flag == bool_of(Some(self@)),
    {
        match self {
            Json::Bool(flag) => Some(*flag),
            _ => None,
        }
    }

    /// The signed 64-bit integer that this is.
    pub fn as_i64(&self) -> (number: Option<i64>)
        ensures
            match number {
                Some(n) => int_of(Some(self@)) == Some(n as int),
                None => int_of(Some(self@)) is None,
            },
    {
        match self {
            Json::Number(JsonNumber::Int(n)) => Some(*n),
            Json::Number(JsonNumber::UInt(n)) => if *n <= 0x7FFF_FFFF_FFFF_FFFF {
                Some(*n as i64)
            } else {
                None
            },
            _ => None,
        }
    }

    /// The items of the array that this is.
    pub fn as_array(&self) -> (items: Option<&Vec<Json>>)
        ensures
            match items {
                Some(items) => self@ == JsonView::Array(json_views(items@)),
                None => !(self@ is Array),
            },
    {
        match self {
            Json::Array(items) => {
                assert(self@->Array_0 =~= json_views(items@));
                Some(items)
            },
            _ => None,
        }
    }

    /// The string in field `key`.
    pub fn str_field(&self, key: &str) -> (text: Option<&String>)
        ensures
            opt_ref_view(text) == string_field(self@, key@),
    {
        match self.get(key) {
            Some(value) => value.as_str(),
            None => None,
        }
    }

    /// A copy of the string in field `key`, or the empty string.
    pub fn str_field_or_empty(&self, key: &str) -> (text: String)
        ensures
            text@ == string_field_or_empty(self@, key@),
    {
        match self.str_field(key) {
            Some(text) => text.clone(),
            None => String::new(),
        }
    }

    /// Whether field `key` is the string `wanted`.
    pub fn field_is(&self, key: &str, wanted: &str) -> (equal: bool)
        ensures
            equal == (string_field(self@, key@) == Some(wanted@)),
    {
        match self.str_field(key) {
            Some(text) => crate::text::same(text, wanted),
            None => false,
        }
    }

    /// The truth value in field `key`.
    pub fn flag_field(&self, key: &str) -> (flag: Option<bool>)
        ensures
            flag == bool_field(self@, key@),
    {
        match self.get(key) {
            Some(value) => value.as_bool(),
            None => None,
        }
    }

    /// A document with the same content.
    pub fn copy(&self) -> (value: Json)
        ensures
            value@ == self@,
        decreases self,
    {
        match self {
            Json::Null => Json::Null,
            Json::Bool(flag) => Json::Bool(*flag),
            Json::Number(JsonNumber::Int(n)) => Json::Number(JsonNumber::Int(*n)),
            Json::Number(JsonNumber::UInt(n)) => Json::Number(JsonNumber::UInt(*n)),
            Json::Number(JsonNumber::Decimal(text)) => Json::Number(
                JsonNumber::Decimal(text.clone()),
            ),
            Json::Text(text) => Json::Text(text.clone()),
            Json::Array(items) => {
                let mut copied: Vec<Json> = Vec::new();
                let mut i: usize = 0;
                while i < items.len()
                    invariant
                        i <= items@.len(),
                        copied@.len() == i,
                        *self == Json::Array(*items),
                        forall|k: int| 0 <= k < i ==> (#[trigger] copied@[k])@ == items@[k]@,
                    decreases items@.len() - i,
                {
                    proof {
                        assert(decreases_to!(*self => self->Array_0));
                        assert(decreases_to!(self->Array_0 => items@));
                        assert(decreases_to!(items@ => items@[i as int]));
                    }
                    let item = items[i].copy();
                    copied.push(item);
                    i = i + 1;
                }
                let value = Json::Array(copied);
                assert(value@->Array_0 =~= self@->Array_0);
                value
            },
            Json::Object(fields) => {
                let mut copied: Vec<(String, Json)> = Vec::new();
                let mut i: usize = 0;
                while i < fields.len()
                    invariant
                        i <= fields@.len(),
                        copied@.len() == i,
                        *self == Json::Object(*fields),
                        forall|k: int|
                            0 <= k < i ==> (#[trigger] copied@[k]).0@ == fields@[k].0@
                                && copied@[k].1@ == fields@[k].1@,
                    decreases fields@.len() - i,
                {
                    proof {
                        assert(decreases_to!(*self => self->Object_0));
                        assert(decreases_to!(self->Object_0 => fields@));
                        assert(decreases_to!(fields@ => fields@[i as int]));
                        assert(decreases_to!(fields@[i as int] => fields@[i as int].1));
                    }
                    let value = fields[i].1.copy();
                    copied.push((fields[i].0.clone(), value));
                    i = i + 1;
                }
                let value = Json::Object(copied);
                assert(value@->Object_0 =~= self@->Object_0);
                value
            },
        }
    }
}

impl Clone for Json {
    fn clone(&self) -> (value: Json)
        ensures
            value@ == self@,
    {
        self.copy()
    }
}

/// A copy of an optional document.
pub fn copy_opt(value: &Option<Json>) -> (copied: Option<Json>)
    ensures
        opt_json(copied) == opt_json(*value),
{
    match value {
        Some(value) => Some(value.copy()),
        None => None,
    }
}

/// Copies of values.
pub fn copy_all(values: &Vec<Json>) -> (copied: Vec<Json>)
    ensures
        json_views(copied@) == json_views(values@),
{
    let mut copied: Vec<Json> = Vec::new();
    let mut i: usize = 0;
    while i < values.len()
        invariant
            i <= values@.len(),
            copied@.len() == i,
            forall|k: int| 0 <= k < i ==> (#[trigger] copied@[k])@ == values@[k]@,
        decreases values@.len() - i,
    {
        copied.push(values[i].copy());
        i = i + 1;
    }
    assert(json_views(copied@) =~= json_views(values@));
    copied
}

// ---------------------------------------------------------------------------
// Decoding and printing
// ---------------------------------------------------------------------------

/// The model of a decoding outcome.
pub open spec fn outcome_view(outcome: Result<Json, String>) -> Result<JsonView, Seq<char>> {
    match outcome {
        Ok(value) => Ok(value@),
        Err(message) => Err(message@),
    }
}

/// The models of decoding outcomes.
pub open spec fn outcome_views(outcomes: Seq<Result<Json, String>>) -> Seq<
    Result<JsonView, Seq<char>>,
> {
    outcomes.map_values(|outcome: Result<Json, String>| outcome_view(outcome))
}

/// What decoding each of the lines gives.
pub open spec fn line_outcomes(lines: Seq<Seq<char>>) -> Seq<Result<JsonView, Seq<char>>> {
    lines.map_values(|line: Seq<char>| json_outcome(line))
}

/// What `serde_json::from_str` makes of a text: the document, or the message
/// of the error.
pub uninterp spec fn json_outcome(text: Seq<char>) -> Result<JsonView, Seq<char>>;

/// What `serde_json::to_string_pretty` prints for a document.
pub uninterp spec fn pretty_text(value: JsonView) -> Seq<char>;

/// What `serde_json` prints for a document on one line.
pub uninterp spec fn compact_text(value: JsonView) -> Seq<char>;

/// `serde_json::Value`, opaque.
#[verifier::external_type_specification]
#[verifier::external_body]
pub struct ExValue(serde_json::Value);

/// Converts a `serde_json::Value`, variant by variant.
#[verifier::external_body]
fn from_value(value: serde_json::Value) -> Json {
    match value {
        serde_json::Value::Null => Json::Null,
        serde_json::Value::Bool(flag) => Json::Bool(flag),
        serde_json::Value::Number(number) => Json::Number(match (number.as_i64(), number.as_u64()) {
            (Some(n), _) => JsonNumber::Int(n),
            (None, Some(n)) => JsonNumber::UInt(n),
            (None, None) => JsonNumber::Decimal(number.to_string()),
        }),
        serde_json::Value::String(text) => Json::Text(text),
        serde_json::Value::Array(items) => Json::Array(items.into_iter().map(from_value).collect()),
        serde_json::Value::Object(fields) =>
            Json::Object(fields.into_iter().map(|(key, value)| (key, from_value(value))).collect()),
    }
}

/// Converts to a `serde_json::Value`, variant by variant.
#[verifier::external_body]
fn to_value(value: &Json) -> serde_json::Value {
    match value {
        Json::Null => serde_json::Value::Null,
        Json::Bool(flag) => serde_json::Value::Bool(*flag),
        Json::Number(JsonNumber::Int(n)) => serde_json::Value::from(*n),
        Json::Number(JsonNumber::UInt(n)) => serde_json::Value::from(*n),
        Json::Number(JsonNumber::Decimal(text)) => serde_json::from_str(text).unwrap_or_default(),
        Json::Text(text) => serde_json::Value::from(text.as_str()),
        Json::Array(items) => items.iter().map(to_value).collect(),
        Json::Object(fields) => fields.iter().map(|(key, value)| (key.as_str(), to_value(value))).collect(),
    }
}

/// Decodes a document with `serde_json::from_str::<serde_json::Value>`. The
/// outcome depends on the text alone.
#[verifier::external_body]
pub(crate) fn parse_json(text: &str) -> (outcome: Result<Json, String>)
    ensures
        outcome_view(outcome) == json_outcome(text@),
{
    serde_json::from_str::<serde_json::Value>(text).map(from_value).map_err(|error| error.to_string())
}

/// Decodes each of the lines.
pub fn parse_lines(lines: &Vec<String>) -> (outcomes: Vec<Result<Json, String>>)
    ensures
        outcome_views(outcomes@) == line_outcomes(views(lines@)),
{
    let mut outcomes: Vec<Result<Json, String>> = Vec::new();
    let mut i: usize = 0;
    while i < lines.len()
        invariant
            i <= lines@.len(),
            outcomes@.len() == i,
            forall|k: int|
                0 <= k < i ==> outcome_view(#[trigger] outcomes@[k]) == json_outcome(lines@[k]@),
        decreases lines@.len() - i,
    {
        outcomes.push(parse_json(&lines[i]));
        i = i + 1;
    }
    assert(outcome_views(outcomes@) =~= line_outcomes(views(lines@)));
    outcomes
}

/// Prints a document with `serde_json::to_string_pretty`, or gives the empty
/// string where that fails. The text depends on the document alone.
#[verifier::external_body]
pub(crate) fn print_pretty(value: &Json) -> (text: String)
    ensures
        text@ == pretty_text(value@),
{
    serde_json::to_string_pretty(&to_value(value)).unwrap_or_default()
}

/// Prints a document on one line, as `serde_json::Value` displays itself. The
/// text depends on the document alone.
#[verifier::external_body]
pub(crate) fn print_compact(value: &Json) -> (text: String)
    ensures
        text@ == compact_text(value@),
{
    to_value(value).to_string()
}

/// The value of a field is the last that an object gives it. What an object does
/// not name, and what is no object, has no field.
pub proof fn law_last_field_counts(
    fields: Seq<(Seq<char>, JsonView)>,
    key: Seq<char>,
    other: Seq<char>,
    value: JsonView,
)
    ensures
        field(JsonView::Object(Seq::empty()), key) is None,
        field(JsonView::Object(fields.push((key, value))), key) == Some(value),
        other != key ==> field(JsonView::Object(fields.push((other, value))), key) == field(
            JsonView::Object(fields),
            key,
        ),
        !(value is Object) ==> field(value, key) is None,
{
    assert(fields.push((other, value)).drop_last() =~= fields);
}

/// A field is read as what it is: a string only where it is one, a truth value
/// only where it is one, and an integer only where it is one of 64 bits.
pub proof fn law_fields_are_read_as_what_they_are(value: JsonView, key: Seq<char>, n: int)
    ensures
        field(value, key) matches Some(JsonView::Text(text)) ==> string_field(value, key) == Some(
            text,
        ) && string_field_or_empty(value, key) == text,
        !(field(value, key) matches Some(JsonView::Text(_))) ==> string_field(value, key) is None
            && string_field_or_empty(value, key).len() == 0,
        field(value, key) matches Some(JsonView::Bool(flag)) ==> bool_field(value, key) == Some(
            flag,
        ),
        !(field(value, key) matches Some(JsonView::Bool(_))) ==> bool_field(value, key) is None,
        i64::MIN <= n <= i64::MAX ==> int_of(Some(JsonView::Number(NumberView::Int(n)))) == Some(n),
        n < i64::MIN || n > i64::MAX ==> int_of(Some(JsonView::Number(NumberView::Int(n)))) is None,
        int_of(None) is None,
        !(value is Number) ==> int_of(Some(value)) is None,
{
}

/// The model of a document is the document itself: its text, its number or its
/// truth value, each item of an array and each field of an object, in their order.
pub proof fn law_models_of_documents_are_whole(
    flag: bool,
    text: String,
    number: JsonNumber,
    items: Vec<Json>,
    fields: Vec<(String, Json)>,
    i: int,
)
    ensures
        Json::Null@ == JsonView::Null,
        Json::Bool(flag)@ == JsonView::Bool(flag),
        Json::Text(text)@ == JsonView::Text(text@),
        match number {
            JsonNumber::Int(n) => Json::Number(number)@ == JsonView::Number(
                NumberView::Int(n as int),
            ),
            JsonNumber::UInt(n) => Json::Number(number)@ == JsonView::Number(
                NumberView::Int(n as int),
            ),
            JsonNumber::Decimal(digits) => Json::Number(number)@ == JsonView::Number(
                NumberView::Decimal(digits@),
            ),
        },
        Json::Array(items)@ matches JsonView::Array(models) && models.len() == items@.len() && (0
            <= i < items@.len() ==> models[i] == items@[i]@),
        Json::Object(fields)@ matches JsonView::Object(models) && models.len() == fields@.len() && (
        0 <= i < fields@.len() ==> models[i] == (fields@[i].0@, fields@[i].1@)),
{
}

/// What decoding gave is modelled as it came, for one document and for many.
pub proof fn law_models_of_outcomes_are_whole(
    value: Json,
    message: String,
    values: Seq<Json>,
    outcomes: Seq<Result<Json, String>>,
    lines: Seq<Seq<char>>,
    i: int,
)
    ensures
        outcome_view(Ok(value)) == Ok::<JsonView, Seq<char>>(value@),
        outcome_view(Err(message)) == Err::<JsonView, Seq<char>>(message@),
        opt_json(Some(value)) == Some(value@),
        opt_json(None) is None,
        json_views(values).len() == values.len(),
        0 <= i < values.len() ==> json_views(values)[i] == values[i]@,
        outcome_views(outcomes).len() == outcomes.len(),
        0 <= i < outcomes.len() ==> outcome_views(outcomes)[i] == outcome_view(outcomes[i]),
        line_outcomes(lines).len() == lines.len(),
        0 <= i < lines.len() ==> line_outcomes(lines)[i] == json_outcome(lines[i]),
{
}

} // verus!
