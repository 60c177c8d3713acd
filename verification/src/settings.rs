//! Settings: their values, where they are looked up, and how they are read.
use vstd::prelude::*;
use crate::json::{json_entries, num_as_f64, Json, Num};
use crate::json::{Double, JsonNumber, JsonValue};
use crate::json::is_zero_text;
use crate::letters::to_lowercase;
use crate::letters::lowercase;
use crate::string_map::StringMap;
use crate::supply::ask;
use crate::supply::{may_give, takes_all};
use crate::text::{same_text, trimmed};
use crate::text::{is_blank, trim, trim_ignores_white_around};

verus! {

broadcast use {vstd::seq_lib::group_seq_properties, crate::json::json_value_view};

/// A double-precision number.
pub enum SettingNumber {
    Finite(Double),
    Infinity,
    NegInfinity,
    NaN,
}

/// What a double-precision number is: the text of a finite one, or what it is
/// in place of that.
#[verifier::ext_equal]
pub enum Real {
    Finite(Seq<char>),
    Infinity,
    NegInfinity,
    NaN,
}

/// The value of a setting.
pub enum SettingValue {
    String(String),
    Bool(bool),
    Number(SettingNumber),
    Null,
}

/// What the value of a setting is.
#[verifier::ext_equal]
pub enum Setting {
    String(Seq<char>),
    Bool(bool),
    Number(Real),
    Null,
}

impl View for SettingNumber {
    type V = Real;

    open spec fn view(&self) -> Real {
        match *self {
            SettingNumber::Finite(d) => Real::Finite(d@),
            SettingNumber::Infinity => Real::Infinity,
            SettingNumber::NegInfinity => Real::NegInfinity,
            SettingNumber::NaN => Real::NaN,
        }
    }
}

impl View for SettingValue {
    type V = Setting;

    open spec fn view(&self) -> Setting {
        match *self {
            SettingValue::String(s) => Setting::String(s@),
            SettingValue::Bool(b) => Setting::Bool(b),
            SettingValue::Number(n) => Setting::Number(n@),
            SettingValue::Null => Setting::Null,
        }
    }
}

/// What an optional setting is.
pub open spec fn optional_setting(v: Option<SettingValue>) -> Option<Setting> {
    match v {
        Some(s) => Some(s@),
        None => None,
    }
}

impl SettingNumber {
    /// The same number again.
    pub fn copy(&self) -> (r: SettingNumber)
        ensures
            r@ == self@,
    {
        match self {
            SettingNumber::Finite(d) => SettingNumber::Finite(d.copy()),
            SettingNumber::Infinity => SettingNumber::Infinity,
            SettingNumber::NegInfinity => SettingNumber::NegInfinity,
            SettingNumber::NaN => SettingNumber::NaN,
        }
    }
}

impl SettingValue {
    /// The same value again.
    pub fn copy(&self) -> (r: SettingValue)
        ensures
            r@ == self@,
    {
        match self {
            SettingValue::String(s) => SettingValue::String(s.clone()),
            SettingValue::Bool(b) => SettingValue::Bool(*b),
            SettingValue::Number(n) => SettingValue::Number(n.copy()),
            SettingValue::Null => SettingValue::Null,
        }
    }
}

// ---------------------------------------------------------------------------
// Settings and JSON
// ---------------------------------------------------------------------------
/// The setting that a JSON value stands for. Arrays and objects stand for none.
pub open spec fn setting_of_json(v: Json) -> Option<Setting> {
    match v {
        Json::String(s) => Some(Setting::String(s)),
        Json::Bool(b) => Some(Setting::Bool(b)),
        Json::Number(n) => Some(Setting::Number(Real::Finite(num_as_f64(n)))),
        Json::Null => Some(Setting::Null),
        Json::Array(_) => None,
        Json::Object(_) => None,
    }
}

/// The JSON value that stands for a setting. JSON has no numbers that are not
/// finite: null stands for them.
pub open spec fn json_of_setting(v: Setting) -> Json {
    match v {
        Setting::String(s) => Json::String(s),
        Setting::Bool(b) => Json::Bool(b),
        Setting::Number(Real::Finite(t)) => Json::Number(Num::Float(t)),
        Setting::Number(_) => Json::Null,
        Setting::Null => Json::Null,
    }
}

/// A setting comes back from JSON as it was, but a number that is not finite as
/// null.
pub proof fn setting_survives_json(v: Setting)
    ensures
        setting_of_json(json_of_setting(v)) == Some(
            if v is Number && !(v->Number_0 is Finite) {
                Setting::Null
            } else {
                v
            },
        ),
{
}

/// The setting that a JSON value stands for.
pub fn json_value_to_setting_value(value: &JsonValue) -> (r: Option<SettingValue>)
    ensures
        optional_setting(r) == setting_of_json(value@),
{
    match value {
        JsonValue::String(s) => Some(SettingValue::String(s.clone())),
        JsonValue::Bool(b) => Some(SettingValue::Bool(*b)),
        JsonValue::Number(n) => Some(SettingValue::Number(SettingNumber::Finite(n.as_f64()))),
        JsonValue::Null => Some(SettingValue::Null),
        JsonValue::Array(_) => None,
        JsonValue::Object(_) => None,
    }
}

/// The JSON value that stands for a setting.
pub fn setting_value_to_json_value(value: &SettingValue) -> (r: JsonValue)
    ensures
        r@ == json_of_setting(value@),
{
    match value {
        SettingValue::String(s) => JsonValue::String(s.clone()),
        SettingValue::Bool(b) => JsonValue::Bool(*b),
        SettingValue::Number(SettingNumber::Finite(d)) => JsonValue::Number(
            JsonNumber::Float(d.copy()),
        ),
        SettingValue::Number(_) => JsonValue::Null,
        SettingValue::Null => JsonValue::Null,
    }
}

// ---------------------------------------------------------------------------
// Reading a setting
// ---------------------------------------------------------------------------
/// What a decrypted text means: "true" and "false" are truth values.
pub open spec fn setting_of_text(plain: Seq<char>) -> Setting {
    if plain == "true"@ {
        Setting::Bool(true)
    } else if plain == "false"@ {
        Setting::Bool(false)
    } else {
        Setting::String(plain)
    }
}

/// `read` is what the stored setting may be read as: a text is decrypted first,
/// any other value is itself.
pub open spec fn reads_as<D: Fn(&String) -> String>(decrypt: D, stored: Setting, read: Setting) -> bool {
    if stored is String {
        exists|plain: Seq<char>| #[trigger]
            may_give(decrypt, stored->String_0, plain) && read == setting_of_text(plain)
    } else {
        read == stored
    }
}

/// What a decrypted text means.
pub fn setting_from_text(plain: String) -> (r: SettingValue)
    ensures
        r@ == setting_of_text(plain@),
{
    if same_text(plain.as_str(), "true") {
        SettingValue::Bool(true)
    } else if same_text(plain.as_str(), "false") {
        SettingValue::Bool(false)
    } else {
        SettingValue::String(plain)
    }
}

/// Reads a stored setting: a text is decrypted, and "true" and "false" become
/// truth values.
pub fn normalize_setting_value<D: Fn(&String) -> String>(value: SettingValue, decrypt: &D) -> (r: SettingValue)
    requires
        takes_all(*decrypt),
    ensures
        reads_as(*decrypt, value@, r@),
{
    match value {
        SettingValue::String(s) => {
            let plain = ask(decrypt, &s);
            assert(may_give(*decrypt, Setting::String(s@)->String_0, plain@));
            setting_from_text(plain)
        },
        other => other,
    }
}

/// Words that switch something on.
pub open spec fn is_truthy_word(s: Seq<char>) -> bool {
    s == "true"@ || s == "1"@ || s == "yes"@ || s == "on"@
}

/// A setting switches something on.
pub open spec fn is_truthy(v: Option<Setting>) -> bool {
    match v {
        Some(Setting::Bool(b)) => b,
        Some(Setting::String(s)) => is_truthy_word(lowercase(trim(s))),
        Some(Setting::Number(Real::Finite(t))) => !is_zero_text(t),
        Some(Setting::Number(_)) => true,
        Some(Setting::Null) => false,
        None => false,
    }
}

/// Whether a word switches something on.
pub fn check_truthy_word(word: &str) -> (r: bool)
    ensures
        r == is_truthy_word(word@),
{
    same_text(word, "true") || same_text(word, "1") || same_text(word, "yes") || same_text(word, "on")
}

/// Whether a setting switches something on.
pub fn parse_truthy_setting(v: Option<SettingValue>) -> (r: bool)
    ensures
        r == is_truthy(optional_setting(v)),
{
    match v {
        Some(SettingValue::Bool(b)) => b,
        Some(SettingValue::String(s)) => {
            let t = trimmed(s.as_str());
            let word = to_lowercase(t.as_str());
            check_truthy_word(word.as_str())
        },
        Some(SettingValue::Number(SettingNumber::Finite(d))) => !d.is_zero(),
        Some(SettingValue::Number(_)) => true,
        Some(SettingValue::Null) => false,
        None => false,
    }
}

// ---------------------------------------------------------------------------
// Looking a setting up
// ---------------------------------------------------------------------------
/// Settings of the runtime itself.
pub struct RuntimeSettings {
    pub values: StringMap<SettingValue>,
}

/// What a map of settings holds.
pub open spec fn setting_entries(m: Map<Seq<char>, SettingValue>) -> Map<Seq<char>, Setting> {
    m.map_values(|v: SettingValue| v@)
}

/// The setting under `key` in a map of JSON values, if there is one.
pub open spec fn setting_in(values: Map<Seq<char>, Json>, key: Seq<char>) -> Option<Setting> {
    if values.contains_key(key) {
        setting_of_json(values[key])
    } else {
        None
    }
}

/// The secrets inside a map of settings.
pub open spec fn nested_secrets(values: Map<Seq<char>, Json>) -> Map<Seq<char>, Json> {
    if values.contains_key("secrets"@) {
        match values["secrets"@] {
            Json::Object(m) => m,
            _ => Map::empty(),
        }
    } else {
        Map::empty()
    }
}

/// The stored setting under `key`: of the secrets, else of the settings, else of
/// the secrets inside the settings, else of the runtime.
pub open spec fn stored_setting(
    secrets: Option<Map<Seq<char>, Json>>,
    settings: Option<Map<Seq<char>, Json>>,
    runtime: Map<Seq<char>, Setting>,
    key: Seq<char>,
) -> Option<Setting> {
    let none = Map::<Seq<char>, Json>::empty();
    let of_secrets = setting_in(secrets.unwrap_or(none), key);
    let of_settings = setting_in(settings.unwrap_or(none), key);
    let of_nested = setting_in(nested_secrets(settings.unwrap_or(none)), key);
    if of_secrets is Some {
        of_secrets
    } else if of_settings is Some {
        of_settings
    } else if of_nested is Some {
        of_nested
    } else if runtime.contains_key(key) {
        Some(runtime[key])
    } else {
        None
    }
}

/// What an optional map of JSON values holds.
pub open spec fn optional_entries(m: Option<StringMap<JsonValue>>) -> Option<Map<Seq<char>, Json>> {
    match m {
        Some(values) => Some(json_entries(values@)),
        None => None,
    }
}

/// The setting under `key` in a map of JSON values.
fn find_in_values(values: &StringMap<JsonValue>, key: &str) -> (r: Option<SettingValue>)
    ensures
        optional_setting(r) == setting_in(json_entries(values@), key@),
{
    match values.get(key) {
        Some(v) => json_value_to_setting_value(v),
        None => None,
    }
}

/// The setting under `key` in the secrets inside a map of settings.
fn find_in_nested(values: &StringMap<JsonValue>, key: &str) -> (r: Option<SettingValue>)
    ensures
        optional_setting(r) == setting_in(nested_secrets(json_entries(values@)), key@),
{
    match values.get("secrets") {
        Some(JsonValue::Object(nested)) => find_in_values(nested, key),
        _ => None,
    }
}

/// The stored setting under `key`.
pub fn find_setting(
    secrets: &Option<StringMap<JsonValue>>,
    settings: &Option<StringMap<JsonValue>>,
    runtime: &RuntimeSettings,
    key: &str,
) -> (r: Option<SettingValue>)
    ensures
        optional_setting(r) == stored_setting(
            optional_entries(*secrets),
            optional_entries(*settings),
            setting_entries(runtime.values@),
            key@,
        ),
{
    if let Some(values) = secrets {
        let found = find_in_values(values, key);
        if found.is_some() {
            return found;
        }
    }
    if let Some(values) = settings {
        let found = find_in_values(values, key);
        if found.is_some() {
            return found;
        }
        let nested = find_in_nested(values, key);
        if nested.is_some() {
            return nested;
        }
    }
    match runtime.values.get(key) {
        Some(v) => Some(v.copy()),
        None => None,
    }
}

// ---------------------------------------------------------------------------
// Laws
// ---------------------------------------------------------------------------
/// A secret that was set is the one that is found.
pub proof fn set_secret_is_found(
    secrets: Option<Map<Seq<char>, Json>>,
    settings: Option<Map<Seq<char>, Json>>,
    runtime: Map<Seq<char>, Setting>,
    key: Seq<char>,
    value: Setting,
)
    ensures
        stored_setting(
            Some(secrets.unwrap_or(Map::empty()).insert(key, json_of_setting(value))),
            settings,
            runtime,
            key,
        ) == setting_of_json(json_of_setting(value)),
{
    setting_survives_json(value);
}

/// A setting that was set is the one that is found, unless a secret has its key.
pub proof fn set_setting_is_found(
    secrets: Option<Map<Seq<char>, Json>>,
    settings: Option<Map<Seq<char>, Json>>,
    runtime: Map<Seq<char>, Setting>,
    key: Seq<char>,
    value: Setting,
)
    requires
        setting_in(secrets.unwrap_or(Map::empty()), key) is None,
    ensures
        stored_setting(
            secrets,
            Some(settings.unwrap_or(Map::empty()).insert(key, json_of_setting(value))),
            runtime,
            key,
        ) == setting_of_json(json_of_setting(value)),
{
    setting_survives_json(value);
}

/// Setting a secret leaves what is found under every other key.
pub proof fn set_secret_keeps_others(
    secrets: Option<Map<Seq<char>, Json>>,
    settings: Option<Map<Seq<char>, Json>>,
    runtime: Map<Seq<char>, Setting>,
    key: Seq<char>,
    value: Setting,
    other: Seq<char>,
)
    requires
        other != key,
    ensures
        stored_setting(
            Some(secrets.unwrap_or(Map::empty()).insert(key, json_of_setting(value))),
            settings,
            runtime,
            other,
        ) == stored_setting(secrets, settings, runtime, other),
{
}

/// Setting a setting leaves what is found under every other key, unless it takes
/// the place of the secrets inside the settings.
pub proof fn set_setting_keeps_others(
    secrets: Option<Map<Seq<char>, Json>>,
    settings: Option<Map<Seq<char>, Json>>,
    runtime: Map<Seq<char>, Setting>,
    key: Seq<char>,
    value: Setting,
    other: Seq<char>,
)
    requires
        other != key,
        key != "secrets"@ || nested_secrets(settings.unwrap_or(Map::empty())) == Map::<
            Seq<char>,
            Json,
        >::empty(),
    ensures
        stored_setting(
            secrets,
            Some(settings.unwrap_or(Map::empty()).insert(key, json_of_setting(value))),
            runtime,
            other,
        ) == stored_setting(secrets, settings, runtime, other),
{
}

/// A text is read as exactly what it decrypts to, whatever it holds; only "true" and
/// "false", written just so, are truth values.
pub proof fn text_is_read_unchanged(plain: Seq<char>)
    ensures
        plain != "true"@ && plain != "false"@ ==> setting_of_text(plain) == Setting::String(plain),
        setting_of_text("true"@) == Setting::Bool(true),
        setting_of_text("false"@) == Setting::Bool(false),
{
    reveal_strlit("true");
    reveal_strlit("false");
    assert("true"@.len() != "false"@.len());
}

/// Different texts are read as different settings.
pub proof fn different_texts_are_read_differently(a: Seq<char>, b: Seq<char>)
    requires
        a != b,
    ensures
        setting_of_text(a) != setting_of_text(b),
{
    text_is_read_unchanged(a);
    text_is_read_unchanged(b);
}

/// A stored text is read as what its decryption gives and nothing else: where that can
/// only be one text, other than "true" and "false", as that text. Any other value is
/// read as itself.
pub proof fn stored_is_read<D: Fn(&String) -> String>(decrypt: D, text: Seq<char>, plain: Seq<char>, stored: Setting, read: Setting)
    requires
        reads_as(decrypt, stored, read),
    ensures
        stored == Setting::String(text) && (forall|other: Seq<char>| #[trigger]
            may_give(decrypt, text, other) ==> other == plain) && plain != "true"@ && plain != "false"@
            ==> read == Setting::String(plain),
        stored == Setting::String(text) ==> exists|given: Seq<char>| #[trigger]
            may_give(decrypt, text, given) && (read == Setting::String(given) || (read == Setting::Bool(
                true,
            ) && given == "true"@) || (read == Setting::Bool(false) && given == "false"@)),
        !(stored is String) ==> read == stored,
{
    if stored is String {
        let given = choose|given: Seq<char>| #[trigger]
            may_give(decrypt, stored->String_0, given) && read == setting_of_text(given);
        text_is_read_unchanged(given);
        assert(may_give(decrypt, stored->String_0, given));
    }
}

/// A setting is looked up among the secrets, then the settings, then the secrets inside
/// the settings, then those of the runtime: the first that has one under the key decides,
/// and what the later ones have makes no difference. One that has none there makes none
/// either.
pub proof fn first_place_decides(
    secrets: Map<Seq<char>, Json>,
    settings: Map<Seq<char>, Json>,
    nested: Map<Seq<char>, Json>,
    runtime: Map<Seq<char>, Setting>,
    key: Seq<char>,
)
    ensures
        secrets.contains_key(key) && setting_of_json(secrets[key]) is Some ==> stored_setting(
            Some(secrets),
            Some(settings),
            runtime,
            key,
        ) == setting_of_json(secrets[key]),
        !secrets.contains_key(key) || setting_of_json(secrets[key]) is None ==> stored_setting(
            Some(secrets),
            Some(settings),
            runtime,
            key,
        ) == stored_setting(None, Some(settings), runtime, key),
        settings.contains_key(key) && setting_of_json(settings[key]) is Some ==> stored_setting(
            None,
            Some(settings),
            runtime,
            key,
        ) == setting_of_json(settings[key]),
        settings.contains_key("secrets"@) && settings["secrets"@] == Json::Object(nested) && (
        !settings.contains_key(key) || setting_of_json(settings[key]) is None) ==> {
            &&& nested.contains_key(key) && setting_of_json(nested[key]) is Some ==> stored_setting(
                None,
                Some(settings),
                runtime,
                key,
            ) == setting_of_json(nested[key])
            &&& !nested.contains_key(key) || setting_of_json(nested[key]) is None ==> stored_setting(
                None,
                Some(settings),
                runtime,
                key,
            ) == stored_setting(None, None, runtime, key)
        },
        (!settings.contains_key("secrets"@) || !(settings["secrets"@] is Object)) && (
        !settings.contains_key(key) || setting_of_json(settings[key]) is None) ==> stored_setting(
            None,
            Some(settings),
            runtime,
            key,
        ) == stored_setting(None, None, runtime, key),
{
}

/// Where there are no secrets or no settings, it is as if they were empty.
pub proof fn missing_places_are_empty(
    secrets: Option<Map<Seq<char>, Json>>,
    settings: Option<Map<Seq<char>, Json>>,
    runtime: Map<Seq<char>, Setting>,
    key: Seq<char>,
)
    ensures
        stored_setting(None, settings, runtime, key) == stored_setting(
            Some(Map::empty()),
            settings,
            runtime,
            key,
        ),
        stored_setting(secrets, None, runtime, key) == stored_setting(
            secrets,
            Some(Map::empty()),
            runtime,
            key,
        ),
        stored_setting(None, None, runtime, key) == if runtime.contains_key(key) {
            Some(runtime[key])
        } else {
            None
        },
{
}

/// A place that holds an array or an object under a key has no setting there: the next
/// one decides.
pub proof fn arrays_and_objects_are_no_settings(
    secrets: Map<Seq<char>, Json>,
    settings: Option<Map<Seq<char>, Json>>,
    runtime: Map<Seq<char>, Setting>,
    key: Seq<char>,
    items: Seq<Json>,
    fields: Map<Seq<char>, Json>,
)
    ensures
        stored_setting(Some(secrets.insert(key, Json::Array(items))), settings, runtime, key)
            == stored_setting(Some(secrets.remove(key)), settings, runtime, key),
        stored_setting(Some(secrets.insert(key, Json::Object(fields))), settings, runtime, key)
            == stored_setting(Some(secrets.remove(key)), settings, runtime, key),
        setting_of_json(Json::Array(items)) is None,
        setting_of_json(Json::Object(fields)) is None,
{
}

/// A text, a truth value, null and a number are the settings that they look like; a
/// number is the double nearest to it.
pub proof fn plain_values_are_settings(s: Seq<char>, b: bool, n: Num)
    ensures
        setting_of_json(Json::String(s)) == Some(Setting::String(s)),
        setting_of_json(Json::Bool(b)) == Some(Setting::Bool(b)),
        setting_of_json(Json::Null) == Some(Setting::Null),
        setting_of_json(Json::Number(n)) == Some(Setting::Number(Real::Finite(num_as_f64(n)))),
        json_of_setting(Setting::String(s)) == Json::String(s),
        json_of_setting(Setting::Bool(b)) == Json::Bool(b),
        json_of_setting(Setting::Null) == Json::Null,
{
}

/// A text switches something on where it is one of four words, in any case and with
/// whitespace around it, and no other text does.
pub proof fn four_words_switch_on(s: Seq<char>, before: Seq<char>, behind: Seq<char>)
    requires
        is_blank(before),
        is_blank(behind),
    ensures
        is_truthy(Some(Setting::String(s))) <==> lowercase(trim(s)) == "true"@ || lowercase(trim(s))
            == "1"@ || lowercase(trim(s)) == "yes"@ || lowercase(trim(s)) == "on"@,
        is_truthy(Some(Setting::String(before + s + behind))) <==> is_truthy(Some(Setting::String(s))),
{
    trim_ignores_white_around(before, s, behind);
}

/// A truth value switches on what it says, a number all but zero, and nothing and null
/// nothing.
pub proof fn other_values_switch_on(b: bool, t: Seq<char>)
    ensures
        is_truthy(Some(Setting::Bool(b))) == b,
        is_truthy(Some(Setting::Number(Real::Finite(t)))) <==> t != "0.0"@ && t != "-0.0"@,
        is_truthy(Some(Setting::Number(Real::Infinity))),
        is_truthy(Some(Setting::Number(Real::NegInfinity))),
        is_truthy(Some(Setting::Number(Real::NaN))),
        !is_truthy(Some(Setting::Null)),
        !is_truthy(None),
{
}

}
