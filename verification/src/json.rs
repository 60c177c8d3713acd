//! JSON values, and the calls into `serde_json` that read and write them.
use vstd::prelude::*;
use serde_json::{Number, Value};
use crate::string_map::{entry_is_listed, keys_of, position, view_is_contents};
use crate::string_map::{Entry, StringMap};
use crate::text::same_text;

verus! {

broadcast use vstd::seq_lib::group_seq_properties;

// ---------------------------------------------------------------------------
// Values
// ---------------------------------------------------------------------------
/// A finite double-precision number, held as the text that `serde_json` writes
/// for it. The field is private: every `Double` is zero or comes out of
/// `serde_json`.
pub struct Double {
    text: String,
}

/// A JSON number.
pub enum JsonNumber {
    /// An integer that is not negative.
    PosInt(u64),
    /// A negative integer.
    NegInt(i64),
    /// Any other number.
    Float(Double),
}

/// A JSON value.
pub enum JsonValue {
    Null,
    Bool(bool),
    Number(JsonNumber),
    String(String),
    Array(Vec<JsonValue>),
    Object(StringMap<JsonValue>),
}

/// What a JSON number is: an integer, or the text of a finite double.
#[verifier::ext_equal]
pub enum Num {
    Int(int),
    Float(Seq<char>),
}

/// What a JSON value is.
#[verifier::ext_equal]
pub enum Json {
    Null,
    Bool(bool),
    Number(Num),
    String(Seq<char>),
    Array(Seq<Json>),
    Object(Map<Seq<char>, Json>),
}

impl View for Double {
    type V = Seq<char>;

    closed spec fn view(&self) -> Seq<char> {
        self.text@
    }
}

impl View for JsonNumber {
    type V = Num;

    open spec fn view(&self) -> Num {
        match *self {
            JsonNumber::PosInt(n) => Num::Int(n as int),
            JsonNumber::NegInt(n) => Num::Int(n as int),
            JsonNumber::Float(d) => Num::Float(d@),
        }
    }
}

/// What a JSON value is.
pub closed spec fn json_view(v: JsonValue) -> Json
    decreases v,
{
    match v {
        JsonValue::Null => Json::Null,
        JsonValue::Bool(b) => Json::Bool(b),
        JsonValue::Number(n) => Json::Number(n@),
        JsonValue::String(s) => Json::String(s@),
        JsonValue::Array(a) => Json::Array(
            Seq::new(
                a@.len(),
                |i: int|
                    if 0 <= i < a@.len() {
                        json_view(a@[i])
                    } else {
                        Json::Null
                    },
            ),
        ),
        JsonValue::Object(m) => Json::Object(
            Map::new(
                |k: Seq<char>| keys_of(m.entries@).contains(k),
                |k: Seq<char>|
                    {
                        let i = position(m.entries@, k);
                        if 0 <= i < m.entries@.len() {
                            json_view(m.entries@[i].value)
                        } else {
                            Json::Null
                        }
                    },
            ),
        ),
    }
}

impl View for JsonValue {
    type V = Json;

    open spec fn view(&self) -> Json {
        json_view(*self)
    }
}

/// What a map of JSON values holds.
pub open spec fn json_entries(m: Map<Seq<char>, JsonValue>) -> Map<Seq<char>, Json> {
    m.map_values(|v: JsonValue| v@)
}

/// What a sequence of JSON values holds.
pub open spec fn json_items(a: Seq<JsonValue>) -> Seq<Json> {
    a.map_values(|v: JsonValue| v@)
}

/// What each kind of JSON value is.
pub broadcast proof fn json_value_view(v: JsonValue)
    ensures
        #[trigger] v@ == match v {
            JsonValue::Null => Json::Null,
            JsonValue::Bool(b) => Json::Bool(b),
            JsonValue::Number(n) => Json::Number(n@),
            JsonValue::String(s) => Json::String(s@),
            JsonValue::Array(a) => Json::Array(json_items(a@)),
            JsonValue::Object(m) => Json::Object(json_entries(m@)),
        },
{
    match v {
        JsonValue::Array(a) => {
            assert(v@->Array_0 =~= json_items(a@));
        },
        JsonValue::Object(m) => {
            view_is_contents(m);
            assert forall|k: Seq<char>| keys_of(m.entries@).contains(k) implies 0 <= position(
                m.entries@,
                k,
            ) < m.entries@.len() by {
                assert(keys_of(m.entries@)[position(m.entries@, k)] == k);
            }
            assert(v@->Object_0 =~= json_entries(m@));
        },
        _ => {},
    }
}

// ---------------------------------------------------------------------------
// Reading parts of a value
// ---------------------------------------------------------------------------
/// The value of a field: of an object, what the name stands for.
pub open spec fn field_of(v: Json, name: Seq<char>) -> Option<Json> {
    match v {
        Json::Object(m) => if m.contains_key(name) {
            Some(m[name])
        } else {
            None
        },
        _ => None,
    }
}

/// The text of a field, where the field holds one.
pub open spec fn text_field(v: Json, name: Seq<char>) -> Option<Seq<char>> {
    match field_of(v, name) {
        Some(Json::String(s)) => Some(s),
        _ => None,
    }
}

/// The integer that a number is, where it fits in 64 bits with a sign.
pub open spec fn num_as_i64(n: Num) -> Option<int> {
    match n {
        Num::Int(i) => if i64::MIN <= i <= i64::MAX {
            Some(i)
        } else {
            None
        },
        Num::Float(_) => None,
    }
}

impl JsonValue {
    /// The value of a field: of an object, what the name stands for.
    pub fn get(&self, name: &str) -> (r: Option<&JsonValue>)
        ensures
            match r {
                Some(v) => field_of(self@, name@) == Some(v@),
                None => field_of(self@, name@) is None,
            },
    {
        broadcast use json_value_view;

        match self {
            JsonValue::Object(m) => m.get(name),
            _ => None,
        }
    }

    /// The text that the value is, if it is one.
    pub fn as_str(&self) -> (r: Option<&String>)
        ensures
            match r {
                Some(s) => self@ == Json::String(s@),
                None => !(self@ is String),
            },
    {
        broadcast use json_value_view;

        match self {
            JsonValue::String(s) => Some(s),
            _ => None,
        }
    }

    /// The text of a field, where the field holds one.
    pub fn get_str(&self, name: &str) -> (r: Option<&String>)
        ensures
            match r {
                Some(s) => text_field(self@, name@) == Some(s@),
                None => text_field(self@, name@) is None,
            },
    {
        match self.get(name) {
            Some(v) => v.as_str(),
            None => None,
        }
    }

    /// The integer that the value is, where it fits in 64 bits with a sign.
    pub fn as_i64(&self) -> (r: Option<i64>)
        ensures
            match r {
                Some(i) => self@ matches Json::Number(n) && num_as_i64(n) == Some(i as int),
                None => self@ matches Json::Number(n) ==> num_as_i64(n) is None,
            },
    {
        broadcast use json_value_view;

        match self {
            JsonValue::Number(JsonNumber::PosInt(n)) => {
                if *n <= 0x7fff_ffff_ffff_ffff {
                    Some(*n as i64)
                } else {
                    None
                }
            },
            JsonValue::Number(JsonNumber::NegInt(n)) => Some(*n),
            _ => None,
        }
    }

    /// The double nearest to the number that the value is, if it is a number.
    pub fn as_f64(&self) -> (r: Option<Double>)
        ensures
            match r {
                Some(d) => self@ matches Json::Number(n) && d@ == num_as_f64(n),
                None => !(self@ is Number),
            },
    {
        broadcast use json_value_view;

        match self {
            JsonValue::Number(n) => Some(n.as_f64()),
            _ => None,
        }
    }
}

// ---------------------------------------------------------------------------
// Doubles
// ---------------------------------------------------------------------------
/// The text of the double that `serde_json::Number::as_f64` gives for a number
/// made of the integer `n`.
pub uninterp spec fn integer_as_f64(n: i128) -> Seq<char>;

/// The text of the double nearest to a number.
pub open spec fn num_as_f64(n: Num) -> Seq<char> {
    match n {
        Num::Int(i) => integer_as_f64(i as i128),
        Num::Float(t) => t,
    }
}

/// `serde_json::Number::as_f64` on an integer that a `serde_json::Number` can hold:
/// the nearest double, which every such integer has, written by the `Display` of
/// `serde_json::Number`. What double an integer has is left to the name.
#[verifier::external_body]
fn integer_to_double(n: i128) -> (r: Double)
    requires
        i64::MIN <= n <= u64::MAX,
    ensures
        r@ == integer_as_f64(n),
{
    let double = Number::from_i128(n).and_then(|x| x.as_f64()).and_then(Number::from_f64);
    Double { text: double.map(|x| x.to_string()).unwrap_or_default() }
}

/// The text that the `Display` of the standard library writes for the double whose
/// text by `serde_json` is `t`.
pub uninterp spec fn double_shown(t: Seq<char>) -> Seq<char>;

/// The `Display` of a double: a function of the number alone. The number goes
/// through `serde_json::Number::from_f64` and `as_f64`, which keep it.
#[verifier::external_body]
fn show_double(d: &Double) -> (r: String)
    ensures
        r@ == double_shown(d@),
{
    let number = d.text.parse().ok().and_then(Number::from_f64);
    number.and_then(|n| n.as_f64()).map(|x| x.to_string()).unwrap_or_default()
}

/// The text of zero, and of the zero with a sign.
pub open spec fn is_zero_text(t: Seq<char>) -> bool {
    t == "0.0"@ || t == "-0.0"@
}

impl Double {
    /// Zero.
    pub fn zero() -> (r: Double)
        ensures
            r@ == "0.0"@,
    {
        Double { text: "0.0".to_owned() }
    }

    /// The text of the number.
    pub fn as_str(&self) -> (r: &str)
        ensures
            r@ == self@,
    {
        self.text.as_str()
    }

    /// Whether the number is zero, with a sign or without.
    pub fn is_zero(&self) -> (r: bool)
        ensures
            r == is_zero_text(self@),
    {
        same_text(self.text.as_str(), "0.0") || same_text(self.text.as_str(), "-0.0")
    }

    /// The number as it is shown.
    pub fn show(&self) -> (r: String)
        ensures
            r@ == double_shown(self@),
    {
        show_double(self)
    }

    /// The same number again.
    pub fn copy(&self) -> (r: Double)
        ensures
            r@ == self@,
    {
        Double { text: self.text.clone() }
    }
}

impl JsonNumber {
    /// The double nearest to the number.
    pub fn as_f64(&self) -> (r: Double)
        ensures
            r@ == num_as_f64(self@),
    {
        match self {
            JsonNumber::PosInt(n) => integer_to_double(*n as i128),
            JsonNumber::NegInt(n) => integer_to_double(*n as i128),
            JsonNumber::Float(d) => d.copy(),
        }
    }
}

// ---------------------------------------------------------------------------
// Reading and writing JSON text
// ---------------------------------------------------------------------------
#[verifier::external_type_specification]
#[verifier::external_body]
pub struct ExValue(Value);

/// What a `serde_json::Value` holds.
pub uninterp spec fn json_of(v: Value) -> Json;

/// What `serde_json::from_str` reads out of a text; `None` where it fails.
pub uninterp spec fn parsed_json(text: Seq<char>) -> Option<Json>;

/// The compact JSON text that the `Display` of `serde_json::Value` writes for a
/// value.
pub uninterp spec fn json_text(v: Json) -> Seq<char>;

/// `serde_json::from_str`: a function of the text alone.
#[verifier::external_body]
fn read_value(text: &str) -> (r: Option<Value>)
    ensures
        match r {
            Some(v) => parsed_json(text@) == Some(json_of(v)),
            None => parsed_json(text@) is None,
        },
{
    serde_json::from_str(text).ok()
}

/// The `Display` of `serde_json::Value`: a function of what the value holds. The
/// keys of an object are written in their order.
#[verifier::external_body]
fn write_value(v: &Value) -> (r: String)
    ensures
        r@ == json_text(json_of(*v)),
{
    v.to_string()
}

/// The parts of a `serde_json::Value`, one for one: what they hold is what the
/// value holds. A `serde_json::Map` hands its keys out in order, each once.
#[verifier::external_body]
fn import_value(v: &Value) -> (r: JsonValue)
    ensures
        r@ == json_of(*v),
{
    match v {
        Value::Null => JsonValue::Null,
        Value::Bool(b) => JsonValue::Bool(*b),
        Value::Number(n) => JsonValue::Number(n.as_u64().map(JsonNumber::PosInt)
            .or(n.as_i64().map(JsonNumber::NegInt))
            .unwrap_or_else(|| JsonNumber::Float(Double { text: n.to_string() }))),
        Value::String(s) => JsonValue::String(s.clone()),
        Value::Array(a) => JsonValue::Array(a.iter().map(import_value).collect()),
        Value::Object(m) => JsonValue::Object(StringMap {
            entries: m.iter().map(|(k, x)| Entry { key: k.clone(), value: import_value(x) }).collect(),
        }),
    }
}

/// The `serde_json::Value` with the same parts, one for one.
#[verifier::external_body]
fn export_value(v: &JsonValue) -> (r: Value)
    ensures
        json_of(r) == v@,
{
    match v {
        JsonValue::Null => Value::Null,
        JsonValue::Bool(b) => Value::from(*b),
        JsonValue::Number(JsonNumber::PosInt(n)) => Value::from(*n),
        JsonValue::Number(JsonNumber::NegInt(n)) => Value::from(*n),
        JsonValue::Number(JsonNumber::Float(d)) => Value::from(
            d.text.parse().ok().and_then(Number::from_f64)),
        JsonValue::String(s) => Value::from(s.clone()),
        JsonValue::Array(a) => a.iter().map(export_value).collect(),
        JsonValue::Object(m) => m.entries.iter()
            .map(|e| (e.key.clone(), export_value(&e.value))).collect(),
    }
}

impl JsonValue {
    /// The value that a `serde_json::Value` holds.
    pub fn from_value(v: &Value) -> (r: JsonValue)
        ensures
            r@ == json_of(*v),
    {
        import_value(v)
    }

    /// A `serde_json::Value` that holds the value.
    pub fn to_value(&self) -> (r: Value)
        ensures
            json_of(r) == self@,
    {
        export_value(self)
    }
}

/// The value that a JSON text spells, if it spells one.
pub fn parse_json(text: &str) -> (r: Option<JsonValue>)
    ensures
        match r {
            Some(v) => parsed_json(text@) == Some(v@),
            None => parsed_json(text@) is None,
        },
{
    match read_value(text) {
        Some(v) => Some(import_value(&v)),
        None => None,
    }
}

/// The compact JSON text of a value.
pub fn json_to_string(v: &JsonValue) -> (r: String)
    ensures
        r@ == json_text(v@),
{
    let exported = export_value(v);
    write_value(&exported)
}

/// The text that stands for a value inside a prompt: a text itself, and of any
/// other value its JSON text.
pub open spec fn plain_text(v: Json) -> Seq<char> {
    match v {
        Json::String(s) => s,
        _ => json_text(v),
    }
}

impl JsonValue {
    /// The text that stands for the value inside a prompt.
    pub fn to_plain_text(&self) -> (r: String)
        ensures
            r@ == plain_text(self@),
    {
        broadcast use json_value_view;

        match self {
            JsonValue::String(s) => s.clone(),
            _ => json_to_string(self),
        }
    }
}

// ---------------------------------------------------------------------------
// Copies
// ---------------------------------------------------------------------------
proof fn restrict_one_more(m: Map<Seq<char>, Json>, keys: Seq<Seq<char>>, i: int)
    requires
        0 <= i < keys.len(),
        m.contains_key(keys[i]),
    ensures
        m.restrict(keys.take(i + 1).to_set()) == m.restrict(keys.take(i).to_set()).insert(
            keys[i],
            m[keys[i]],
        ),
{
    assert(keys.take(i + 1) =~= keys.take(i).push(keys[i]));
    assert(keys.take(i + 1).to_set() =~= keys.take(i).to_set().insert(keys[i]));
    assert(m.restrict(keys.take(i + 1).to_set()) =~= m.restrict(keys.take(i).to_set()).insert(
        keys[i],
        m[keys[i]],
    ));
}

impl JsonValue {
    /// The same value again.
    pub fn copy(&self) -> (r: JsonValue)
        ensures
            r@ == self@,
        decreases self,
    {
        match self {
            JsonValue::Null => JsonValue::Null,
            JsonValue::Bool(b) => JsonValue::Bool(*b),
            JsonValue::Number(JsonNumber::PosInt(n)) => JsonValue::Number(JsonNumber::PosInt(*n)),
            JsonValue::Number(JsonNumber::NegInt(n)) => JsonValue::Number(JsonNumber::NegInt(*n)),
            JsonValue::Number(JsonNumber::Float(d)) => JsonValue::Number(
                JsonNumber::Float(d.copy()),
            ),
            JsonValue::String(s) => JsonValue::String(s.clone()),
            JsonValue::Array(a) => {
                let mut items: Vec<JsonValue> = Vec::new();
                for i in 0..a.len()
                    invariant
                        *self == JsonValue::Array(*a),
                        json_items(items@) == json_items(a@).take(i as int),
                {
                    let ghost before = items@;
                    assert(decreases_to!(*self => self->Array_0@[i as int]));
                    let item = a[i].copy();
                    items.push(item);
                    assert(json_items(items@) =~= json_items(before).push(item@));
                    assert(json_items(a@).take(i + 1) =~= json_items(a@).take(i as int).push(
                        a@[i as int]@,
                    ));
                }
                proof {
                    assert(json_items(a@).take(a@.len() as int) =~= json_items(a@));
                    json_value_view(*self);
                    json_value_view(JsonValue::Array(items));
                }
                JsonValue::Array(items)
            },
            JsonValue::Object(m) => {
                let entries = copy_entries(m);
                proof {
                    json_value_view(*self);
                    json_value_view(JsonValue::Object(entries));
                }
                JsonValue::Object(entries)
            },
        }
    }
}

/// The same map of values again.
pub fn copy_entries(m: &StringMap<JsonValue>) -> (r: StringMap<JsonValue>)
    ensures
        json_entries(r@) == json_entries(m@),
    decreases m,
{
    let mut entries: StringMap<JsonValue> = StringMap::new();
    let n: usize = m.len();
    let ghost keys = m.keys();
    assert(json_entries(entries@) =~= json_entries(m@).restrict(keys.take(0).to_set()));
    for i in 0..n
        invariant
            n == keys.len(),
            keys == m.keys(),
            json_entries(entries@) == json_entries(m@).restrict(keys.take(i as int).to_set()),
    {
        proof {
            use_type_invariant(m);
            entry_is_listed(*m, i as int);
        }
        let ghost before = entries@;
        assert(decreases_to!(*m => m.entries@[i as int].value));
        let value = m.entries[i].value.copy();
        let key = m.entries[i].key.clone();
        entries.insert(key, value);
        proof {
            assert(json_entries(entries@) =~= json_entries(before).insert(keys[i as int], value@));
            restrict_one_more(json_entries(m@), keys, i as int);
        }
    }
    proof {
        assert(keys.take(n as int) =~= keys);
        assert(json_entries(m@).restrict(keys.to_set()) =~= json_entries(m@)) by {
            assert forall|k: Seq<char>| json_entries(m@).contains_key(k) implies keys.to_set().contains(
                k,
            ) by {
                assert(keys.contains(k));
            }
        }
    }
    entries
}

// ---------------------------------------------------------------------------
// Laws
// ---------------------------------------------------------------------------
/// Of an object a field is what stands under its name, whatever else the object holds;
/// nothing else has fields. The text of a field is there only where it holds a text.
pub proof fn only_objects_have_fields(m: Map<Seq<char>, Json>, name: Seq<char>, v: Json, s: Seq<char>, other: Json)
    ensures
        field_of(Json::Object(m.insert(name, v)), name) == Some(v),
        field_of(Json::Object(m.remove(name)), name) is None,
        text_field(Json::Object(m.insert(name, Json::String(s))), name) == Some(s),
        !(v is String) ==> text_field(Json::Object(m.insert(name, v)), name) is None,
        text_field(Json::Object(m.remove(name)), name) is None,
        !(other is Object) ==> field_of(other, name) is None && text_field(other, name) is None,
{
}

/// A text stands for itself inside a prompt, whatever it holds, and any other value for
/// its JSON text.
pub proof fn texts_stand_for_themselves(s: Seq<char>, v: Json)
    ensures
        plain_text(Json::String(s)) == s,
        !(v is String) ==> plain_text(v) == json_text(v),
{
}

/// An integer of 64 bits with a sign is itself, and no other number is one; a double is
/// itself.
pub proof fn numbers_are_kept(i: int, t: Seq<char>)
    ensures
        -0x8000_0000_0000_0000 <= i <= 0x7fff_ffff_ffff_ffff ==> num_as_i64(Num::Int(i)) == Some(i),
        !(-0x8000_0000_0000_0000 <= i <= 0x7fff_ffff_ffff_ffff) ==> num_as_i64(Num::Int(i)) is None,
        num_as_i64(Num::Float(t)) is None,
        num_as_f64(Num::Float(t)) == t,
        num_as_f64(Num::Int(i)) == integer_as_f64(i as i128),
        is_zero_text(t) <==> t == "0.0"@ || t == "-0.0"@,
{
}

}
