//! JSON values.

use crate::text;
use crate::text::unsigned;
use serde_json::{Number, Value};
use vstd::prelude::*;

verus! {

/// A JSON value. A number is kept as text; the fields of an object keep their order.
#[derive(Debug, PartialEq)]
pub enum Json {
    Null,
    Bool(bool),
    Number(String),
    Text(String),
    List(Vec<Json>),
    Object(Vec<(String, Json)>),
}

/// A JSON value with its texts as characters.
pub ghost enum JsonView {
    Null,
    Bool(bool),
    Number(Seq<char>),
    Text(Seq<char>),
    List(Seq<JsonView>),
    Object(Seq<FieldView>),
}

/// A field of a JSON object.
pub ghost struct FieldView {
    pub name: Seq<char>,
    pub value: JsonView,
}

impl View for Json {
    type V = JsonView;

    open spec fn view(&self) -> JsonView
        decreases self,
    {
        match self {
            Json::Null => JsonView::Null,
            Json::Bool(b) => JsonView::Bool(*b),
            Json::Number(n) => JsonView::Number(n@),
            Json::Text(s) => JsonView::Text(s@),
            Json::List(items) => JsonView::List(
                Seq::new(
                    items@.len(),
                    |i: int|
                        if 0 <= i < items@.len() {
                            items@[i].view()
                        } else {
                            JsonView::Null
                        },
                ),
            ),
            Json::Object(fields) => JsonView::Object(
                Seq::new(
                    fields@.len(),
                    |i: int|
                        if 0 <= i < fields@.len() {
                            FieldView { name: fields@[i].0@, value: fields@[i].1.view() }
                        } else {
                            FieldView { name: Seq::empty(), value: JsonView::Null }
                        },
                ),
            ),
        }
    }
}

/// The views of the fields of an object.
pub open spec fn fields_view(fields: Seq<(String, Json)>) -> Seq<FieldView> {
    Seq::new(fields.len(), |i: int| FieldView { name: fields[i].0@, value: fields[i].1@ })
}

/// The views of the items of a list.
pub open spec fn items_view(items: Seq<Json>) -> Seq<JsonView> {
    Seq::new(items.len(), |i: int| items[i]@)
}

/// An object with the given fields.
pub fn object(fields: Vec<(String, Json)>) -> (r: Json)
    ensures
        r@ == JsonView::Object(fields_view(fields@)),
{
    let r = Json::Object(fields);
    assert(r@->Object_0 =~= fields_view(fields@));
    r
}

/// A list with the given items.
pub fn list(items: Vec<Json>) -> (r: Json)
    ensures
        r@ == JsonView::List(items_view(items@)),
{
    let r = Json::List(items);
    assert(r@->List_0 =~= items_view(items@));
    r
}

/// The position of the first field with the name `key`, from `i` on.
pub open spec fn field_from(fields: Seq<FieldView>, key: Seq<char>, i: int) -> Option<int>
    decreases fields.len() - i,
{
    if i < 0 || i >= fields.len() {
        None
    } else if fields[i].name == key {
        Some(i)
    } else {
        field_from(fields, key, i + 1)
    }
}

impl JsonView {
    /// The field `key` of an object.
    pub open spec fn field(self, key: Seq<char>) -> Option<JsonView> {
        match self {
            JsonView::Object(fields) => match field_from(fields, key, 0) {
                Some(i) => Some(fields[i].value),
                None => None,
            },
            _ => None,
        }
    }

    /// The text of a text value.
    pub open spec fn text(self) -> Option<Seq<char>> {
        match self {
            JsonView::Text(s) => Some(s),
            _ => None,
        }
    }

    /// The truth value of a Boolean.
    pub open spec fn truth(self) -> Option<bool> {
        match self {
            JsonView::Bool(b) => Some(b),
            _ => None,
        }
    }

    /// The items of a list.
    pub open spec fn items(self) -> Option<Seq<JsonView>> {
        match self {
            JsonView::List(items) => Some(items),
            _ => None,
        }
    }

    /// The value of a number without sign, fraction and exponent that fits 64 bits.
    pub open spec fn natural(self) -> Option<nat> {
        match self {
            JsonView::Number(s) => unsigned(s, u64::MAX as nat),
            _ => None,
        }
    }

    /// The text in the field `key` of an object.
    pub open spec fn text_field(self, key: Seq<char>) -> Option<Seq<char>> {
        match self.field(key) {
            Some(value) => value.text(),
            None => None,
        }
    }
}

impl Json {
    /// A copy of the value.
    pub fn duplicate(&self) -> (r: Json)
        ensures
            r@ == self@,
        decreases self,
    {
        match self {
            Json::Null => Json::Null,
            Json::Bool(b) => Json::Bool(*b),
            Json::Number(n) => Json::Number(n.clone()),
            Json::Text(s) => Json::Text(s.clone()),
            Json::List(items) => {
                let mut out: Vec<Json> = Vec::new();
                let mut i: usize = 0;
                while i < items.len()
                    invariant
                        i <= items@.len(),
                        *self == Json::List(*items),
                        out@.len() == i,
                        forall|k: int| 0 <= k < i ==> (#[trigger] out@[k])@ == items@[k]@,
                    decreases items@.len() - i,
                {
                    let item = &items[i];
                    assert(decreases_to!(self => self->List_0));
                    assert(decreases_to!(*items => items@));
                    assert(decreases_to!(items@ => items@[i as int]));
                    out.push(item.duplicate());
                    i += 1;
                }
                let r = Json::List(out);
                assert(r@->List_0 =~= self@->List_0);
                r
            },
            Json::Object(fields) => {
                let mut out: Vec<(String, Json)> = Vec::new();
                let mut i: usize = 0;
                while i < fields.len()
                    invariant
                        i <= fields@.len(),
                        *self == Json::Object(*fields),
                        out@.len() == i,
                        forall|k: int|
                            0 <= k < i ==> (#[trigger] out@[k]).0@ == fields@[k].0@ && out@[k].1@
                                == fields@[k].1@,
                    decreases fields@.len() - i,
                {
                    let field = &fields[i];
                    assert(decreases_to!(self => self->Object_0));
                    assert(decreases_to!(*fields => fields@));
                    assert(decreases_to!(fields@ => fields@[i as int]));
                    assert(decreases_to!(fields@[i as int] => fields@[i as int].1));
                    out.push((field.0.clone(), field.1.duplicate()));
                    i += 1;
                }
                let r = Json::Object(out);
                assert(r@->Object_0 =~= self@->Object_0);
                r
            },
        }
    }

    /// The field `key` of an object.
    pub fn get(&self, key: &str) -> (r: Option<&Json>)
        ensures
            match r {
                Some(value) => self@.field(key@) == Some(value@),
                None => self@.field(key@) is None,
            },
    {
        match self {
            Json::Object(fields) => {
                let ghost all = self@->Object_0;
                let mut i: usize = 0;
                while i < fields.len()
                    invariant
                        i <= fields@.len(),
                        self@ == JsonView::Object(all),
                        all.len() == fields@.len(),
                        forall|k: int|
                            0 <= k < fields@.len() ==> (#[trigger] all[k]).name == fields@[k].0@
                                && all[k].value == fields@[k].1@,
                        field_from(all, key@, 0) == field_from(all, key@, i as int),
                    decreases fields@.len() - i,
                {
                    assert(all[i as int].name == fields@[i as int].0@);
                    if text::same(fields[i].0.as_str(), key) {
                        return Some(&fields[i].1);
                    }
                    i += 1;
                }
                None
            },
            _ => None,
        }
    }

    /// The text of a text value.
    pub fn as_str(&self) -> (r: Option<&str>)
        ensures
            match r {
                Some(s) => self@.text() == Some(s@),
                None => self@.text() is None,
            },
    {
        match self {
            Json::Text(s) => Some(s.as_str()),
            _ => None,
        }
    }

    /// The truth value of a Boolean.
    pub fn as_bool(&self) -> (r: Option<bool>)
        ensures
            r == self@.truth(),
    {
        match self {
            Json::Bool(b) => Some(*b),
            _ => None,
        }
    }

    /// The value of a number without sign, fraction and exponent that fits 64 bits.
    pub fn as_u64(&self) -> (r: Option<u64>)
        ensures
            match r {
                Some(n) => self@.natural() == Some(n as nat),
                None => self@.natural() is None,
            },
    {
        match self {
            Json::Number(s) => text::parse_unsigned(text::chars_of(s.as_str()).as_slice(), u64::MAX),
            _ => None,
        }
    }

    /// The text in the field `key` of an object.
    pub fn get_str(&self, key: &str) -> (r: Option<String>)
        ensures
            match r {
                Some(s) => self@.text_field(key@) == Some(s@),
                None => self@.text_field(key@) is None,
            },
    {
        match self.get(key) {
            Some(value) => match value.as_str() {
                Some(s) => Some(s.to_owned()),
                None => None,
            },
            None => None,
        }
    }
}

#[verifier::external_type_specification]
#[verifier::external_body]
pub struct ExJsonValue(serde_json::Value);

/// Whether lists and objects stand in each other `depth` times at most.
pub open spec fn nested(value: JsonView, depth: nat) -> bool
    decreases value,
{
    match value {
        JsonView::List(items) => {
            &&& depth > 0
            &&& forall|i: int|
                0 <= i < items.len() ==> nested(#[trigger] items[i], (depth - 1) as nat)
        },
        JsonView::Object(fields) => {
            &&& depth > 0
            &&& forall|i: int|
                0 <= i < fields.len() ==> nested((#[trigger] fields[i]).value, (depth - 1) as nat)
        },
        _ => true,
    }
}

/// Whether a number is written with at most nineteen digits and signs, or with at most fifteen digits,
/// signs and points.
pub open spec fn is_short(n: Seq<char>) -> bool {
    ||| n.len() <= 19 && forall|i: int|
        0 <= i < n.len() ==> ('0' <= #[trigger] n[i] <= '9' || n[i] == '-')
    ||| n.len() <= 15 && forall|i: int|
        0 <= i < n.len() ==> ('0' <= #[trigger] n[i] <= '9' || n[i] == '-' || n[i] == '.')
}

/// Whether no two fields of an object have one name.
pub open spec fn distinct_names(value: JsonView) -> bool {
    value matches JsonView::Object(fields) ==> forall|i: int, j: int|
        0 <= i < j < fields.len() ==> (#[trigger] fields[i]).name != (#[trigger] fields[j]).name
}

/// Whether a value is a list of texts.
pub open spec fn is_text_list(value: JsonView) -> bool {
    value matches JsonView::List(items) && forall|i: int|
        0 <= i < items.len() ==> (#[trigger] items[i]) is Text
}

/// Whether an object has the same names as another, with the same lists of texts.
pub open spec fn same_lists(before: JsonView, after: JsonView) -> bool {
    before is Object ==> after is Object && forall|key: Seq<char>|
        match (before.field(key), #[trigger] after.field(key)) {
            (None, None) => true,
            (Some(one), Some(other)) => is_text_list(one) || is_text_list(other) ==> one == other,
            _ => false,
        }
}

/// The value that a JSON text stands for, or `None` where the text is not JSON.
pub uninterp spec fn json_parsed(text: Seq<char>) -> Option<JsonView>;

/// A JSON value as compact text.
pub uninterp spec fn json_printed(value: JsonView) -> Seq<char>;

/// `serde_json::from_str` reads a JSON text. What it gives depends on the text alone. It refuses lists
/// and objects that stand in each other more than 127 times, and of several fields with one name it
/// keeps one.
#[verifier::external_body]
pub(crate) fn parse_json(text: &str) -> (r: Option<Json>)
    ensures
        match r {
            Some(value) => {
                &&& json_parsed(text@) == Some(value@)
                &&& nested(value@, 127)
                &&& distinct_names(value@)
            },
            None => json_parsed(text@) is None,
        },
{
    match serde_json::from_str::<serde_json::Value>(text) {
        Ok(value) => Some(from_value(value)),
        Err(_) => None,
    }
}

/// `serde_json::Value::to_string` writes a value as compact text, which depends on the value alone. A
/// list of texts is read by `serde_json::from_str` as it was.
#[verifier::external_body]
pub(crate) fn print_json(value: &Json) -> (r: String)
    ensures
        r@ == json_printed(value@),
        is_text_list(value@) ==> json_parsed(r@) == Some(value@),
{
    to_value(value).to_string()
}

/// Whether a number is short, or is read as it is written.
pub open spec fn is_steady(n: Seq<char>) -> bool {
    is_short(n) || json_parsed(n) == Some(JsonView::Number(n))
}

/// Whether all numbers in a value are short, or are read as they are written.
pub open spec fn steady_numbers(value: JsonView) -> bool
    decreases value,
{
    match value {
        JsonView::Number(n) => is_steady(n),
        JsonView::List(items) => forall|i: int|
            0 <= i < items.len() ==> steady_numbers(#[trigger] items[i]),
        JsonView::Object(fields) => forall|i: int|
            0 <= i < fields.len() ==> steady_numbers((#[trigger] fields[i]).value),
        _ => true,
    }
}

/// A JSON value as text in several lines.
pub uninterp spec fn json_pretty(value: JsonView) -> Seq<char>;

/// Whether a text is read as a value with the same names and texts, if the value is not nested too
/// deeply, and whether that is written as the same text again, if each number in the value is short or
/// is read as it is written.
pub open spec fn reads_back(value: JsonView, text: Seq<char>) -> bool {
    nested(value, 127) && distinct_names(value) ==> {
        &&& json_parsed(text) is Some
        &&& same_lists(value, json_parsed(text)->0)
        &&& steady_numbers(value) ==> json_pretty(json_parsed(text)->0) == text
    }
}

/// `serde_json::to_string_pretty` writes a value in several lines, as text that depends on the value
/// alone. It does not fail on a value. What it writes, `serde_json::from_str` reads again, with the
/// same names and texts, unless it is nested too deeply: a number that is written is finite, and the
/// largest one, 1.7976931348623157e308, is read without overflow, as is each that is smaller. Where
/// every number comes back as it was written, the value is written as the same text again. A short
/// number does, since it is read exactly; of another, which may change in the last place when it is
/// read, only `serde_json::from_str` can tell.
#[verifier::external_body]
pub(crate) fn print_pretty(value: &Json) -> (r: String)
    ensures
        r@ == json_pretty(value@),
        reads_back(value@, r@),
{
    serde_json::to_string_pretty(&to_value(value)).unwrap_or_default()
}

/// A `serde_json::Value` as a value of this module, variant by variant.
#[verifier::external_body]
fn from_value(value: Value) -> Json {
    match value {
        Value::Null => Json::Null,
        Value::Bool(b) => Json::Bool(b),
        Value::Number(n) => Json::Number(n.to_string()),
        Value::String(s) => Json::Text(s),
        Value::Array(items) => Json::List(items.into_iter().map(from_value).collect()),
        Value::Object(fields) => Json::Object(
            fields.into_iter().map(|(key, value)| (key, from_value(value))).collect(),
        ),
    }
}

/// A value of this module as a `serde_json::Value`, variant by variant. A number is made from its text
/// by `str::parse`, as a whole number or else as a double, so that one which `from_value` gave is again
/// what it was; a text that is no number gives null.
#[verifier::external_body]
fn to_value(value: &Json) -> Value {
    match value {
        Json::Null => Value::Null,
        Json::Bool(b) => Value::Bool(*b),
        Json::Number(n) => n.parse::<u64>().map(Value::from)
            .or_else(|_| n.parse::<i64>().map(Value::from))
            .or_else(|_| n.parse().map(|x| Value::from(Number::from_f64(x))))
            .unwrap_or_default(),
        Json::Text(s) => Value::String(s.clone()),
        Json::List(items) => Value::Array(items.iter().map(to_value).collect()),
        Json::Object(fields) => Value::Object(
            fields.iter().map(|(key, value)| (key.clone(), to_value(value))).collect(),
        ),
    }
}

} // verus!
