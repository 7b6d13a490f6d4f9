//! JSON: what the exchanges, the bot and the settings files say.

use vstd::prelude::*;

use crate::text::{
    free_of, hex_digit, int_text, is_digit, joined, reading_undoes_writing, texts,
};

verus! {

/// A JSON value. A number is known by its text, and as an integer where it is one of 64 bits.
#[derive(Debug)]
pub enum Json {
    Null,
    Flag(bool),
    Number(Option<i64>, String),
    Text(String),
    Array(Vec<Json>),
    Object(Vec<(String, Json)>),
}

/// What a JSON value says.
pub enum JsonView {
    Null,
    Flag(bool),
    Number(Option<int>, Seq<char>),
    Text(Seq<char>),
    Array(Seq<JsonView>),
    Object(Seq<(Seq<char>, JsonView)>),
}

impl Json {
    /// What the value says.
    pub open spec fn view(self) -> JsonView
        decreases self,
    {
        match self {
            Json::Null => JsonView::Null,
            Json::Flag(b) => JsonView::Flag(b),
            Json::Number(n, text) => JsonView::Number(
                match n {
                    Some(i) => Some(i as int),
                    None => None,
                },
                text@,
            ),
            Json::Text(s) => JsonView::Text(s@),
            Json::Array(items) => JsonView::Array(
                Seq::new(
                    items@.len(),
                    |i: int|
                        if 0 <= i < items@.len() {
                            items@[i].view()
                        } else {
                            JsonView::Null
                        },
                ),
            ),
            Json::Object(fields) => JsonView::Object(
                Seq::new(
                    fields@.len(),
                    |i: int|
                        if 0 <= i < fields@.len() {
                            (fields@[i].0@, fields@[i].1.view())
                        } else {
                            (Seq::empty(), JsonView::Null)
                        },
                ),
            ),
        }
    }
}

/// The value of the first of `fields` that has the name `key`.
pub open spec fn lookup(fields: Seq<(Seq<char>, JsonView)>, key: Seq<char>) -> Option<JsonView>
    decreases fields.len(),
{
    if fields.len() == 0 {
        None
    } else if fields[0].0 == key {
        Some(fields[0].1)
    } else {
        lookup(fields.subrange(1, fields.len() as int), key)
    }
}

/// The value of the field `key` of an object. Nothing else has fields.
pub open spec fn field(v: JsonView, key: Seq<char>) -> Option<JsonView> {
    match v {
        JsonView::Object(fields) => lookup(fields, key),
        _ => None,
    }
}

/// The text that `v` is, if it is one.
pub open spec fn as_text(v: Option<JsonView>) -> Option<Seq<char>> {
    match v {
        Some(JsonView::Text(s)) => Some(s),
        _ => None,
    }
}

/// The 64-bit integer that `v` is, if it is one.
pub open spec fn as_int(v: Option<JsonView>) -> Option<int> {
    match v {
        Some(JsonView::Number(n, _)) => n,
        _ => None,
    }
}

/// The truth value that `v` is, if it is one.
pub open spec fn as_flag(v: Option<JsonView>) -> Option<bool> {
    match v {
        Some(JsonView::Flag(b)) => Some(b),
        _ => None,
    }
}

/// The field `inner` of the field `outer`.
pub open spec fn field_of_field(
    v: JsonView,
    outer: Seq<char>,
    inner: Seq<char>,
) -> Option<JsonView> {
    match field(v, outer) {
        Some(w) => field(w, inner),
        None => None,
    }
}

impl Json {
    /// The value of the field `key`, if this is an object that has it.
    pub fn get(&self, key: &str) -> (value: Option<&Json>)
        ensures
            value is Some <==> field(self@, key@) is Some,
            value matches Some(j) ==> field(self@, key@) == Some(j@),
    {
        match self {
            Json::Object(fields) => {
                let ghost said = self@->Object_0;
                assert(said.subrange(0, said.len() as int) =~= said);
                let mut i: usize = 0;
                while i < fields.len()
                    invariant
                        i <= fields@.len(),
                        said.len() == fields@.len(),
                        self@ == JsonView::Object(said),
                        forall|k: int|
                            0 <= k < fields@.len() ==> #[trigger] said[k] == (
                                fields@[k].0@,
                                fields@[k].1@,
                            ),
                        lookup(said, key@) == lookup(
                            said.subrange(i as int, said.len() as int),
                            key@,
                        ),
                    decreases fields@.len() - i,
                {
                    let ghost rest = said.subrange(i as int, said.len() as int);
                    assert(rest[0] == said[i as int]);
                    if *fields[i].0.as_str() == *key {
                        return Some(&fields[i].1);
                    }
                    assert(rest.subrange(1, rest.len() as int) =~= said.subrange(
                        i + 1,
                        said.len() as int,
                    ));
                    i += 1;
                }
                None
            },
            _ => None,
        }
    }

    /// The text of the field `key`, if that is a text.
    pub fn text_field(&self, key: &str) -> (value: Option<String>)
        ensures
            value is Some <==> as_text(field(self@, key@)) is Some,
            value matches Some(s) ==> as_text(field(self@, key@)) == Some(s@),
    {
        match self.get(key) {
            Some(Json::Text(s)) => Some(s.clone()),
            _ => None,
        }
    }

    /// The integer in the field `key`, if that is a 64-bit integer.
    pub fn int_field(&self, key: &str) -> (value: Option<i64>)
        ensures
            value is Some <==> as_int(field(self@, key@)) is Some,
            value matches Some(n) ==> as_int(field(self@, key@)) == Some(n as int),
    {
        match self.get(key) {
            Some(Json::Number(n, _)) => *n,
            _ => None,
        }
    }

    /// The truth value in the field `key`, if that is one.
    pub fn flag_field(&self, key: &str) -> (value: Option<bool>)
        ensures
            value == as_flag(field(self@, key@)),
    {
        match self.get(key) {
            Some(Json::Flag(b)) => Some(*b),
            _ => None,
        }
    }
}

/// Reads a JSON text.
pub fn parse_json(text: &str) -> (value: Option<Json>)
    ensures
        value is Some <==> json_parsed(text@) is Some,
        value matches Some(j) ==> json_parsed(text@) == Some(j@),
{
    match value_of_text(text) {
        Some(v) => Some(json_of(&v)),
        None => None,
    }
}

/// A value that a field of a settings file gets.
#[derive(Debug)]
pub enum FieldValue {
    Text(String),
    Number(i64),
    Flag(bool),
}

impl FieldValue {
    /// What the value says.
    pub open spec fn view(self) -> JsonView {
        match self {
            FieldValue::Text(s) => JsonView::Text(s@),
            FieldValue::Number(n) => JsonView::Number(Some(n as int), int_text(n as int)),
            FieldValue::Flag(b) => JsonView::Flag(b),
        }
    }
}

/// What the new fields of a settings file say.
pub open spec fn fields_view(fields: Seq<(String, FieldValue)>) -> Seq<(Seq<char>, JsonView)> {
    fields.map_values(|f: (String, FieldValue)| (f.0@, f.1@))
}

/// Whether an exponent in the text of a number, which starts with `e` and a sign, has at most
/// `count` digits.
pub open spec fn short_exponent(text: Seq<char>, count: nat) -> bool {
    forall|i: int| 0 <= i < text.len() && #[trigger] text[i] == 'e' ==> text.len() - i <= count + 2
}

/// Whether a number with the text `text` is read back as it was: it is an integer, or a decimal
/// with at most 15 digits and an exponent of at most one.
pub open spec fn plain_number(text: Seq<char>) -> bool {
    (free_of(text, '.') && free_of(text, 'e')) || (text.len() <= 16 && short_exponent(text, 1))
}

/// Whether every number in `v` is read back as it was.
pub open spec fn plain(v: JsonView) -> bool
    decreases v,
{
    match v {
        JsonView::Number(_, text) => plain_number(text),
        JsonView::Array(items) => forall|i: int|
            0 <= i < items.len() ==> plain(#[trigger] items[i]),
        JsonView::Object(fields) => forall|i: int|
            0 <= i < fields.len() ==> plain((#[trigger] fields[i]).1),
        _ => true,
    }
}

/// Whether no number in `v` is so large or small that its exponent has more than two digits.
pub open spec fn moderate(v: JsonView) -> bool
    decreases v,
{
    match v {
        JsonView::Number(_, text) => short_exponent(text, 2),
        JsonView::Array(items) => forall|i: int|
            0 <= i < items.len() ==> moderate(#[trigger] items[i]),
        JsonView::Object(fields) => forall|i: int|
            0 <= i < fields.len() ==> moderate((#[trigger] fields[i]).1),
        _ => true,
    }
}

/// The one name of a field that `serde_json` keeps to itself: an object that starts with it is read
/// as what its text says.
pub open spec fn private_name() -> Seq<char> {
    "$serde_json::private::RawValue"@
}

/// Whether no field of an object in `v` has the private name.
pub open spec fn ordinary(v: JsonView) -> bool
    decreases v,
{
    match v {
        JsonView::Array(items) => forall|i: int|
            0 <= i < items.len() ==> ordinary(#[trigger] items[i]),
        JsonView::Object(fields) => forall|i: int|
            0 <= i < fields.len() ==> (#[trigger] fields[i]).0 != private_name() && ordinary(
                fields[i].1,
            ),
        _ => true,
    }
}

/// Whether none of `fields` has the private name.
pub open spec fn ordinary_names(fields: Seq<(Seq<char>, JsonView)>) -> bool {
    forall|i: int| 0 <= i < fields.len() ==> (#[trigger] fields[i]).0 != private_name()
}

/// Whether arrays and objects are nested in `v` at most `n` deep.
pub open spec fn shallow(v: JsonView, n: nat) -> bool
    decreases v,
{
    match v {
        JsonView::Array(items) => n > 0 && forall|i: int|
            0 <= i < items.len() ==> shallow(#[trigger] items[i], (n - 1) as nat),
        JsonView::Object(fields) => n > 0 && forall|i: int|
            0 <= i < fields.len() ==> shallow((#[trigger] fields[i]).1, (n - 1) as nat),
        _ => true,
    }
}

/// Whether a text that is written for `v` can be read again: no field has the private name, no
/// number is too large or small, and nothing is nested deeper than a text that is read may be.
pub open spec fn readable(v: JsonView) -> bool {
    ordinary(v) && moderate(v) && shallow(v, 127)
}

/// Whether fields can be set in `v`: it is an object, or nothing yet.
pub open spec fn holds_fields(v: JsonView) -> bool {
    v is Object || v is Null
}

/// Whether `w` is `v` with `fields` set: these have their new values, and each other field of `v`
/// has the value that it had.
pub open spec fn has_set(
    w: JsonView,
    v: JsonView,
    fields: Seq<(Seq<char>, JsonView)>,
) -> bool {
    forall|key: Seq<char>| #[trigger]
        field(w, key) == (if lookup(fields, key) is Some {
            lookup(fields, key)
        } else {
            field(v, key)
        })
}

/// Whether the JSON text `text`, where it can be read, has each field of `v` whose numbers are
/// plain, and no field that `v` lacks.
pub open spec fn reads_back(text: Seq<char>, v: JsonView) -> bool {
    json_parsed(text) matches Some(w) ==> forall|key: Seq<char>|
        (field(v, key) matches Some(x) ==> plain(x)) ==> #[trigger] field(w, key) == field(v, key)
}

/// Whether `w` has each of `fields`, and each other field of `v` whose numbers are plain, and no
/// field besides that `v` lacks.
pub open spec fn keeps(w: JsonView, v: JsonView, fields: Seq<(Seq<char>, JsonView)>) -> bool {
    forall|key: Seq<char>|
        {
            &&& lookup(fields, key) is Some ==> #[trigger] field(w, key) == lookup(fields, key)
            &&& lookup(fields, key) is None && (field(v, key) matches Some(x) ==> plain(x))
                ==> field(w, key) == field(v, key)
        }
}

/// Whether `text` is written for a value that is `v` with `fields` set.
pub open spec fn written_for(
    text: Seq<char>,
    v: JsonView,
    fields: Seq<(Seq<char>, JsonView)>,
) -> bool {
    exists|w: serde_json::Value| #[trigger]
        json_pretty(w) == text && has_set(json_contents(w), v, fields) && (ordinary(v)
            && ordinary_names(fields) ==> reads_back(text, json_contents(w)))
}

/// Why fields cannot be set in a text.
#[derive(Clone, Copy, Debug, PartialEq, Eq, Structural)]
pub enum SetError {
    /// The text is no JSON.
    NoJson,
    /// The text says something that cannot have fields.
    NoObject,
}

fn put_fields(value: &mut serde_json::Value, fields: &Vec<(String, FieldValue)>)
    requires
        holds_fields(json_contents(*old(value))),
    ensures
        holds_fields(json_contents(*final(value))),
        ordinary_names(fields_view(fields@)) && ordinary(json_contents(*old(value))) ==> ordinary(
            json_contents(*final(value)),
        ),
        ordinary_names(fields_view(fields@)) && readable(json_contents(*old(value))) ==> readable(
            json_contents(*final(value)),
        ),
        has_set(
            json_contents(*final(value)),
            json_contents(*old(value)),
            fields_view(fields@),
        ),
{
    let ghost v = json_contents(*value);
    let ghost said = fields_view(fields@);
    let mut i: usize = fields.len();
    assert(said.subrange(said.len() as int, said.len() as int) =~= Seq::empty());
    while i > 0
        invariant
            i <= fields@.len(),
            said == fields_view(fields@),
            holds_fields(json_contents(*value)),
            ordinary_names(said) && ordinary(v) ==> ordinary(json_contents(*value)),
            ordinary_names(said) && readable(v) ==> readable(json_contents(*value)),
            has_set(json_contents(*value), v, said.subrange(i as int, said.len() as int)),
        decreases i,
    {
        i -= 1;
        let ghost rest = said.subrange(i as int, said.len() as int);
        assert(rest.subrange(1, rest.len() as int) =~= said.subrange(i + 1, said.len() as int));
        let ghost before = json_contents(*value);
        assert(said[i as int].0 == fields@[i as int].0@);
        put_field(value, fields[i].0.as_str(), &fields[i].1);
        assert forall|key: Seq<char>| #[trigger]
            field(json_contents(*value), key) == (if lookup(rest, key) is Some {
                lookup(rest, key)
            } else {
                field(v, key)
            }) by {
            assert(field(before, key) == (if lookup(
                said.subrange(i + 1, said.len() as int),
                key,
            ) is Some {
                lookup(said.subrange(i + 1, said.len() as int), key)
            } else {
                field(v, key)
            }));
        }
    }
    assert(said.subrange(0, said.len() as int) =~= said);
}

/// The JSON text `text` with `fields` set. Of two fields with one name, the first one counts.
pub fn with_fields(text: &str, fields: &Vec<(String, FieldValue)>) -> (new: Result<
    String,
    SetError,
>)
    ensures
        new == Err::<String, SetError>(SetError::NoJson) <==> json_parsed(text@) is None,
        new == Err::<String, SetError>(SetError::NoObject) <==> (json_parsed(text@) matches Some(v)
            && !holds_fields(v)),
        new matches Ok(t) ==> written_for(t@, json_parsed(text@)->0, fields_view(fields@)),
        new matches Ok(t) ==> readable(json_parsed(text@)->0) && ordinary_names(
            fields_view(fields@),
        ) ==> (json_parsed(t@) matches Some(w) && keeps(
            w,
            json_parsed(text@)->0,
            fields_view(fields@),
        )),
{
    match value_of_text(text) {
        None => Err(SetError::NoJson),
        Some(mut value) => {
            match json_of(&value) {
                Json::Object(_) | Json::Null => {},
                _ => {
                    return Err(SetError::NoObject);
                },
            }
            put_fields(&mut value, fields);
            match pretty(&value) {
                Some(t) => {
                    assert(json_pretty(value) == t@);
                    proof {
                        let (v, said) = (json_parsed(text@)->0, fields_view(fields@));
                        if readable(v) && ordinary_names(said) {
                            lemma_keeps(json_parsed(t@)->0, json_contents(value), v, fields@);
                        }
                    }
                    Ok(t)
                },
                None => Err(SetError::NoJson),
            }
        },
    }
}

/// The JSON text `text` with `fields` set, or these fields alone where `text` is no object. Of two
/// fields with one name, the first one counts.
pub fn with_fields_or_alone(text: Option<&str>, fields: &Vec<(String, FieldValue)>) -> (new: String)
    ensures
        written_for(new@, object_in(text), fields_view(fields@)),
        readable(object_in(text)) && ordinary_names(fields_view(fields@)) ==> (json_parsed(
            new@,
        ) matches Some(w) && keeps(w, object_in(text), fields_view(fields@))),
        (text matches Some(t) && json_object(t@) is Some) && ordinary(object_in(text))
            ==> json_parsed(text->0@) == Some(object_in(text)),
{
    let start = match text {
        Some(t) => object_of_text(t),
        None => None,
    };
    let mut value = match start {
        Some(value) => value,
        None => no_fields(),
    };
    assert(json_contents(value) == object_in(text));
    put_fields(&mut value, fields);
    match pretty(&value) {
        Some(t) => {
            assert(json_pretty(value) == t@);
            proof {
                let (v, said) = (object_in(text), fields_view(fields@));
                if readable(v) && ordinary_names(said) {
                    lemma_keeps(json_parsed(t@)->0, json_contents(value), v, fields@);
                }
            }
            t
        },
        None => String::new(),
    }
}

/// The object that a text says, and one without fields where it says none.
pub open spec fn object_in(text: Option<&str>) -> JsonView {
    match text {
        Some(t) => match json_object(t@) {
            Some(v) => v,
            None => JsonView::Object(Seq::empty()),
        },
        None => JsonView::Object(Seq::empty()),
    }
}

/// The text of an integer is that of a plain number.
pub proof fn integers_are_plain(n: i64)
    ensures
        plain_number(int_text(n as int)),
{
    reading_undoes_writing(n);
    let t = int_text(n as int);
    assert forall|i: int| 0 <= i < t.len() implies #[trigger] t[i] != 'e' && t[i] != '.' by {
        assert(is_digit(t[i]) || t[i] == '-');
    }
}

proof fn lemma_new_values_are_plain(fields: Seq<(String, FieldValue)>, key: Seq<char>)
    ensures
        lookup(fields_view(fields), key) matches Some(x) ==> plain(x),
    decreases fields.len(),
{
    let said = fields_view(fields);
    if fields.len() > 0 {
        assert(said.subrange(1, said.len() as int) =~= fields_view(
            fields.subrange(1, fields.len() as int),
        ));
        lemma_new_values_are_plain(fields.subrange(1, fields.len() as int), key);
        if let FieldValue::Number(n) = fields[0].1 {
            integers_are_plain(n);
        }
    }
}

proof fn lemma_keeps(
    read: JsonView,
    set: JsonView,
    v: JsonView,
    fields: Seq<(String, FieldValue)>,
)
    requires
        has_set(set, v, fields_view(fields)),
        forall|key: Seq<char>|
            (field(set, key) matches Some(x) ==> plain(x)) ==> #[trigger] field(read, key) == field(
                set,
                key,
            ),
    ensures
        keeps(read, v, fields_view(fields)),
{
    let said = fields_view(fields);
    assert forall|key: Seq<char>|
        {
            &&& lookup(said, key) is Some ==> #[trigger] field(read, key) == lookup(said, key)
            &&& lookup(said, key) is None && (field(v, key) matches Some(x) ==> plain(x)) ==> field(
                read,
                key,
            ) == field(v, key)
        } by {
        lemma_new_values_are_plain(fields, key);
        assert(field(set, key) == (if lookup(said, key) is Some {
            lookup(said, key)
        } else {
            field(v, key)
        }));
    }
}

/// A field that is set in a settings file, and whose numbers are plain, has its new value in the
/// new file, wherever that can be read and no field has the private name.
pub proof fn set_field_is_read_back(
    text: Seq<char>,
    v: JsonView,
    fields: Seq<(Seq<char>, JsonView)>,
    key: Seq<char>,
)
    requires
        written_for(text, v, fields),
        ordinary(v),
        ordinary_names(fields),
        json_parsed(text) is Some,
        lookup(fields, key) matches Some(x) && plain(x),
    ensures
        field(json_parsed(text)->0, key) == lookup(fields, key),
{
    let w = choose|w: serde_json::Value| #[trigger]
        json_pretty(w) == text && has_set(json_contents(w), v, fields) && (ordinary(v)
            && ordinary_names(fields) ==> reads_back(text, json_contents(w)));
    assert(field(json_contents(w), key) == lookup(fields, key));
    assert(field(json_parsed(text)->0, key) == field(json_contents(w), key));
}

/// A field of a settings file that is not set, and whose numbers are plain, keeps its value in the
/// new file, wherever that can be read and no field has the private name. One that was missing is
/// still missing.
pub proof fn other_field_is_kept(
    text: Seq<char>,
    v: JsonView,
    fields: Seq<(Seq<char>, JsonView)>,
    key: Seq<char>,
)
    requires
        written_for(text, v, fields),
        ordinary(v),
        ordinary_names(fields),
        json_parsed(text) is Some,
        lookup(fields, key) is None,
        field(v, key) matches Some(x) ==> plain(x),
    ensures
        field(json_parsed(text)->0, key) == field(v, key),
{
    let w = choose|w: serde_json::Value| #[trigger]
        json_pretty(w) == text && has_set(json_contents(w), v, fields) && (ordinary(v)
            && ordinary_names(fields) ==> reads_back(text, json_contents(w)));
    assert(field(json_contents(w), key) == field(v, key));
    assert(field(json_parsed(text)->0, key) == field(json_contents(w), key));
}

/// How one character stands in a JSON text: quotes, backslashes and control characters are
/// escaped.
pub open spec fn escaped(c: char) -> Seq<char> {
    let n = c as u32 as nat;
    if c == '"' || c == '\\' {
        seq!['\\', c]
    } else if n == 8 {
        seq!['\\', 'b']
    } else if n == 9 {
        seq!['\\', 't']
    } else if n == 10 {
        seq!['\\', 'n']
    } else if n == 12 {
        seq!['\\', 'f']
    } else if n == 13 {
        seq!['\\', 'r']
    } else if n < 32 {
        seq!['\\', 'u', '0', '0', hex_digit(n / 16), hex_digit(n % 16)]
    } else {
        seq![c]
    }
}

/// The characters of `text`, each as it stands in a JSON text.
pub open spec fn all_escaped(text: Seq<char>) -> Seq<char>
    decreases text.len(),
{
    if text.len() == 0 {
        Seq::empty()
    } else {
        all_escaped(text.drop_last()) + escaped(text.last())
    }
}

/// The JSON text for a text.
pub open spec fn json_quoted(text: Seq<char>) -> Seq<char> {
    seq!['"'] + all_escaped(text) + seq!['"']
}

/// The JSON text for a list of texts, each on a line of its own.
pub open spec fn list_text(list: Seq<Seq<char>>) -> Seq<char> {
    if list.len() == 0 {
        "[]"@
    } else {
        "[\n  "@ + joined(list.map_values(|s: Seq<char>| json_quoted(s)), ",\n  "@) + "\n]"@
    }
}

// What follows is called from `serde_json`.

/// A value as `serde_json` holds it.
#[verifier::external_type_specification]
#[verifier::external_body]
pub struct ExValue(serde_json::Value);

/// What a `serde_json::Value` holds. The fields of an object come in the order of their names.
pub uninterp spec fn json_contents(v: serde_json::Value) -> JsonView;

/// The value that `serde_json::from_str` reads.
pub uninterp spec fn json_parsed(text: Seq<char>) -> Option<JsonView>;

/// The object that `serde_json::from_str` reads as a `serde_json::Map`.
pub uninterp spec fn json_object(text: Seq<char>) -> Option<JsonView>;

/// The list that `serde_json::from_str` reads as a `Vec<String>`.
pub uninterp spec fn json_list(text: Seq<char>) -> Option<Seq<Seq<char>>>;

/// The text that `serde_json::to_string_pretty` writes for a `serde_json::Value`.
pub uninterp spec fn json_pretty(v: serde_json::Value) -> Seq<char>;

/// `serde_json::from_str`: whether the text is JSON, and what it says, is a function of the text.
#[verifier::external_body]
fn value_of_text(text: &str) -> (value: Option<serde_json::Value>)
    ensures
        value is Some <==> json_parsed(text@) is Some,
        value matches Some(v) ==> json_parsed(text@) == Some(json_contents(v)),
{
    serde_json::from_str(text).ok()
}

/// `serde_json::from_str` to a `serde_json::Map`: whether the text is an object, and what it says,
/// is a function of the text. Where no field has the private name, the text says the same when it
/// is read as a `serde_json::Value`.
#[verifier::external_body]
fn object_of_text(text: &str) -> (value: Option<serde_json::Value>)
    ensures
        value is Some <==> json_object(text@) is Some,
        value matches Some(v) ==> json_object(text@) == Some(json_contents(v)),
        value matches Some(v) ==> json_contents(v) is Object,
        value matches Some(v) ==> ordinary(json_contents(v)) ==> json_parsed(text@) == Some(
            json_contents(v),
        ),
{
    serde_json::from_str(text).ok().map(serde_json::Value::Object)
}

/// `serde_json::from_str` to a `Vec<String>`: whether the text is a list of texts, and which, is a
/// function of the text.
#[verifier::external_body]
pub(crate) fn list_of_text(text: &str) -> (list: Option<Vec<String>>)
    ensures
        list is Some <==> json_list(text@) is Some,
        list matches Some(l) ==> json_list(text@) == Some(texts(l@)),
{
    serde_json::from_str(text).ok()
}

/// The variants of `serde_json::Value`, and `as_i64` and the text of its numbers: the result says
/// what the value holds.
#[verifier::external_body]
fn json_of(value: &serde_json::Value) -> (json: Json)
    ensures
        json@ == json_contents(*value),
{
    match value {
        serde_json::Value::Null => Json::Null,
        serde_json::Value::Bool(b) => Json::Flag(*b),
        serde_json::Value::Number(n) => Json::Number(n.as_i64(), n.to_string()),
        serde_json::Value::String(s) => Json::Text(s.clone()),
        serde_json::Value::Array(items) => Json::Array(items.iter().map(json_of).collect()),
        serde_json::Value::Object(fields) => {
            Json::Object(fields.iter().map(|(k, v)| (k.clone(), json_of(v))).collect())
        },
    }
}

/// `to_string` on a `serde_json::Value` that is a text writes it between quotes, with quotes,
/// backslashes and control characters escaped.
#[verifier::external_body]
pub(crate) fn quoted(text: &str) -> (json: String)
    ensures
        json@ == json_quoted(text@),
{
    serde_json::Value::from(text).to_string()
}

/// `serde_json::Map::new`: an object without fields.
#[verifier::external_body]
fn no_fields() -> (value: serde_json::Value)
    ensures
        json_contents(value) == JsonView::Object(Seq::empty()),
{
    serde_json::Value::Object(serde_json::Map::new())
}

/// The assignment to a field of a `serde_json::Value` by its name: the field has the new value, and
/// each other field the value that it had. Nothing comes in that could not be read again but the
/// private name. On nothing it makes an object. On a value of another kind it panics.
#[verifier::external_body]
fn put_field(value: &mut serde_json::Value, name: &str, new: &FieldValue)
    requires
        holds_fields(json_contents(*old(value))),
    ensures
        json_contents(*final(value)) is Object,
        name@ != private_name() && ordinary(json_contents(*old(value))) ==> ordinary(
            json_contents(*final(value)),
        ),
        name@ != private_name() && readable(json_contents(*old(value))) ==> readable(
            json_contents(*final(value)),
        ),
        forall|key: Seq<char>| #[trigger]
            field(json_contents(*final(value)), key) == (if key == name@ {
                Some(new@)
            } else {
                field(json_contents(*old(value)), key)
            }),
{
    value[name] = match new {
        FieldValue::Text(s) => serde_json::Value::from(s.as_str()),
        FieldValue::Number(n) => serde_json::Value::from(*n),
        FieldValue::Flag(b) => serde_json::Value::from(*b),
    };
}

/// `serde_json::to_string_pretty`: each value has a text, which is a function of the value. Where no
/// field has the private name, `serde_json::from_str` reads each field whose numbers are plain as it
/// was and no field more, if it reads the text at all. It does so where, besides, no exponent has
/// more than two digits and nothing is nested too deep. What becomes of the digits of other numbers
/// is not said.
#[verifier::external_body]
fn pretty(value: &serde_json::Value) -> (text: Option<String>)
    ensures
        text is Some,
        text matches Some(t) ==> t@ == json_pretty(*value),
        text matches Some(t) ==> ordinary(json_contents(*value)) ==> reads_back(
            t@,
            json_contents(*value),
        ),
        text matches Some(t) ==> readable(json_contents(*value)) ==> json_parsed(t@) is Some,
{
    serde_json::to_string_pretty(value).ok()
}

/// `serde_json::to_string_pretty` on a list of texts: each stands on a line of its own, and the
/// whole is read back by `serde_json::from_str` as the same list.
#[verifier::external_body]
pub(crate) fn pretty_list(list: &Vec<String>) -> (text: Option<String>)
    ensures
        text is Some,
        text matches Some(t) ==> t@ == list_text(texts(list@)),
        text matches Some(t) ==> json_list(t@) == Some(texts(list@)),
{
    serde_json::to_string_pretty(list).ok()
}

} // verus!
