use elizaos::bootstrap::{write_setting, ModelType, OutputKind};
use elizaos::character::{is_feature_on, Character};
use elizaos::clock::{chrono_timestamp, get_current_timestamp, timestamp_of, utc_timestamp_of, UUID};
use elizaos::json::{json_to_string, parse_json, Double, JsonNumber, JsonValue};
use elizaos::letters::{eq_ignore_ascii_case, to_ascii_lower};
use elizaos::rewrite::{
    bytes_in, cut_head, cut_tail, decimal_of, glue, join, remove_char, replace_all,
    signed_decimal_of, take_chars,
};
use elizaos::runtime::{AgentRuntime, Handle, RuntimeOptions};
use elizaos::settings::{
    check_truthy_word, json_value_to_setting_value, parse_truthy_setting, setting_from_text,
    setting_value_to_json_value, RuntimeSettings, SettingNumber, SettingValue,
};
use elizaos::string_map::StringMap;
use elizaos::tasks::{check_tags, Task, TaskMetadata};
use elizaos::text::{chars_of, find_in, same_text, string_of, trimmed};

fn json(text: &str) -> JsonValue {
    parse_json(text).unwrap()
}

fn number(text: &str) -> Double {
    json(text).as_f64().unwrap()
}

#[test]
fn texts_are_searched_and_trimmed() {
    let s = chars_of("abcabc");
    let pat = chars_of("ca");
    assert_eq!(find_in(&s, &pat, 0), Some(2));
    assert_eq!(find_in(&s, &pat, 3), None);
    assert_eq!(string_of(&s), "abcabc");
    assert!(same_text("a", "a"));
    assert!(!same_text("a", "b"));
    assert_eq!(trimmed(" \u{a0}x y\u{2003}\n"), "x y");
}

#[test]
fn texts_are_rewritten() {
    assert_eq!(replace_all("aXbXX", "X", "--"), "a--b----");
    assert_eq!(remove_char("a_b__c", '_'), "abc");
    assert_eq!(join(&vec!["a".to_string(), "b".to_string()], ", "), "a, b");
    assert_eq!(glue(&vec!["a", "b", "c"]), "abc");
    assert_eq!(take_chars("aäö", 2), "aä");
    assert_eq!(bytes_in("aä"), 3);
    assert_eq!(cut_head("aäb", 3), "aä");
    assert_eq!(cut_tail("aäb", 3), "b");
    assert_eq!(decimal_of(0), "0");
    assert_eq!(decimal_of(1203), "1203");
    assert_eq!(signed_decimal_of(-907), "-907");
    assert_eq!(signed_decimal_of(i64::MIN), "-9223372036854775808");
    assert_eq!(to_ascii_lower('Q'), 'q');
    assert!(eq_ignore_ascii_case(&chars_of("AbC"), &chars_of("aBc")));
    assert!(!eq_ignore_ascii_case(&chars_of("ä"), &chars_of("Ä")));
}

#[test]
fn maps_hold_their_keys_in_order() {
    let mut m: StringMap<u32> = StringMap::new();
    assert!(m.is_empty());
    m.insert("b".to_string(), 1);
    m.insert("a".to_string(), 2);
    m.insert("ab".to_string(), 3);
    m.insert("b".to_string(), 4);
    assert_eq!(m.len(), 3);
    assert_eq!(m.key_at(0), "a");
    assert_eq!(m.key_at(1), "ab");
    assert_eq!(m.key_at(2), "b");
    assert_eq!(*m.value_at(2), 4);
    assert_eq!(m.remove("a"), Some(2));
    assert_eq!(m.remove("a"), None);
    assert!(!m.contains_key("a"));
    assert_eq!(m.get("ab"), Some(&3));
}

#[test]
fn json_texts_are_read_and_written() {
    let v = json(r#" {"b": [1, -2, 3.5, null, true], "a": "x\n"} "#);
    assert_eq!(json_to_string(&v), r#"{"a":"x\n","b":[1,-2,3.5,null,true]}"#);
    assert_eq!(json_to_string(&v.copy()), json_to_string(&v));
    assert_eq!(v.get_str("a").unwrap(), "x\n");
    assert!(v.get_str("b").is_none());
    assert!(v.get("c").is_none());
    assert!(parse_json("{").is_none());
    assert!(parse_json("").is_none());
    assert_eq!(json("7").as_i64(), Some(7));
    assert_eq!(json("18446744073709551615").as_i64(), None);
    assert_eq!(json("-9").as_i64(), Some(-9));
    assert_eq!(json("1.0").as_i64(), None);
    assert_eq!(json("\"x\"").to_plain_text(), "x");
    assert_eq!(json("[1,\"x\"]").to_plain_text(), "[1,\"x\"]");
}

#[test]
fn json_values_come_from_serde_and_go_back() {
    let outside: serde_json::Value =
        serde_json::from_str(r#"{"k":{"n":0.1,"i":-5,"u":9},"l":[false,null,"s"]}"#).unwrap();
    let v = JsonValue::from_value(&outside);
    assert_eq!(v.get("k").unwrap().get("i").unwrap().as_i64(), Some(-5));
    assert_eq!(v.to_value(), outside);
    assert_eq!(json_to_string(&v), outside.to_string());
}

#[test]
fn doubles_are_read_and_shown() {
    assert_eq!(number("3").as_str(), "3.0");
    assert_eq!(number("-3").as_str(), "-3.0");
    assert_eq!(number("0.25").as_str(), "0.25");
    assert_eq!(number("3").show(), "3");
    assert_eq!(number("0.1").show(), "0.1");
    assert_eq!(number("-1e21").show(), "-1000000000000000000000");
    assert_eq!(number("1e-7").show(), "0.0000001");
    assert!(number("0").is_zero());
    assert!(number("-0.0").is_zero());
    assert!(!number("0.5").is_zero());
    assert_eq!(Double::zero().show(), "0");
    assert_eq!(JsonNumber::PosInt(9007199254740993).as_f64().show(), "9007199254740992");
}

#[test]
fn settings_and_json() {
    assert!(json_value_to_setting_value(&json("[]")).is_none());
    assert!(json_value_to_setting_value(&json("{}")).is_none());
    assert!(matches!(json_value_to_setting_value(&json("null")), Some(SettingValue::Null)));
    assert!(matches!(json_value_to_setting_value(&json("false")), Some(SettingValue::Bool(false))));
    assert!(matches!(
        json_value_to_setting_value(&json("5")),
        Some(SettingValue::Number(SettingNumber::Finite(d))) if d.as_str() == "5.0"
    ));
    let five = SettingValue::Number(SettingNumber::Finite(number("5")));
    assert_eq!(json_to_string(&setting_value_to_json_value(&five)), "5.0");
    let lost = SettingValue::Number(SettingNumber::NaN);
    assert_eq!(json_to_string(&setting_value_to_json_value(&lost)), "null");
    let word = SettingValue::String("w".to_string());
    assert_eq!(json_to_string(&setting_value_to_json_value(&word)), "\"w\"");
    assert!(matches!(setting_from_text("true".to_string()), SettingValue::Bool(true)));
    assert!(matches!(setting_from_text("True".to_string()), SettingValue::String(_)));
}

#[test]
fn truthy_settings() {
    let text = |s: &str| Some(SettingValue::String(s.to_string()));
    for s in ["true", "1", "yes", "on", " ON\n", "Yes"] {
        assert!(parse_truthy_setting(text(s)));
    }
    for s in ["", "false", "0", "off", "truee", "2"] {
        assert!(!parse_truthy_setting(text(s)));
    }
    assert!(check_truthy_word("on"));
    assert!(!check_truthy_word("ON"));
    assert!(parse_truthy_setting(Some(SettingValue::Bool(true))));
    assert!(!parse_truthy_setting(Some(SettingValue::Null)));
    assert!(!parse_truthy_setting(None));
    let finite = |s: &str| Some(SettingValue::Number(SettingNumber::Finite(number(s))));
    assert!(parse_truthy_setting(finite("0.001")));
    assert!(!parse_truthy_setting(finite("0")));
    assert!(!parse_truthy_setting(finite("-0.0")));
    assert!(parse_truthy_setting(Some(SettingValue::Number(SettingNumber::NaN))));
}

#[test]
fn identifiers_have_their_form() {
    assert_eq!(UUID::nil().as_str(), "00000000-0000-0000-0000-000000000000");
    let a = UUID::new_v4();
    let b = UUID::new_v4();
    assert_ne!(a.as_str(), b.as_str());
    assert_eq!(a.copy().as_str(), a.as_str());
    for id in [&a, &b] {
        let s: Vec<char> = id.as_str().chars().collect();
        assert_eq!(s.len(), 36);
        assert_eq!(s[14], '4');
        assert!("89ab".contains(s[19]));
        for (i, c) in s.iter().enumerate() {
            if [8, 13, 18, 23].contains(&i) {
                assert_eq!(*c, '-');
            } else {
                assert!(c.is_ascii_digit() || ('a'..='f').contains(c));
            }
        }
    }
}

#[test]
fn clock_counts_milliseconds() {
    let start = std::time::UNIX_EPOCH;
    assert_eq!(timestamp_of(start), Some(0));
    assert_eq!(timestamp_of(start + std::time::Duration::from_micros(1_234_567)), Some(1234));
    assert_eq!(timestamp_of(start - std::time::Duration::from_secs(1)), None);
    assert_eq!(utc_timestamp_of(start), Some(0));
    assert_eq!(utc_timestamp_of(start + std::time::Duration::from_micros(1_234_567)), Some(1234));
    assert_eq!(utc_timestamp_of(start - std::time::Duration::from_secs(1)), None);
    let last = std::time::Duration::from_millis(8_210_266_876_799_999);
    assert_eq!(utc_timestamp_of(start + last), Some(8_210_266_876_799_999));
    assert_eq!(utc_timestamp_of(start + last + std::time::Duration::from_millis(1)), None);
    let a = chrono_timestamp().unwrap();
    let b = get_current_timestamp().unwrap();
    assert!(a > 1_600_000_000_000);
    assert!((b - a).abs() < 60_000);
}

#[test]
fn features_by_flag_and_style() {
    let styles = Some(vec!["x".to_string(), "advanced_memory".to_string()]);
    assert!(is_feature_on(None, &styles, "ADVANCED_MEMORY"));
    assert!(!is_feature_on(Some(false), &styles, "ADVANCED_MEMORY"));
    assert!(!is_feature_on(None, &styles, "ADVANCED_PLANNING"));
    assert!(is_feature_on(Some(true), &None, "ADVANCED_PLANNING"));
    assert!(!is_feature_on(None, &None, "ADVANCED_PLANNING"));
    assert!(Character::default().style_all.is_none());
}

fn runtime(adapter: Option<Handle>) -> AgentRuntime {
    let opts = RuntimeOptions {
        adapter,
        settings: Some(RuntimeSettings { values: StringMap::new() }),
        ..Default::default()
    };
    AgentRuntime::new(opts, 1, &|name: &String| name.clone())
}

fn task(id: Option<&str>, tags: Option<Vec<&str>>) -> Task {
    Task {
        id: id.map(|s| s.to_string()),
        name: "t".to_string(),
        tags: tags.map(|v| v.iter().map(|s| s.to_string()).collect()),
        metadata: None,
        created_at: None,
        updated_at: None,
    }
}

fn tags(v: Vec<&str>) -> Option<Vec<String>> {
    Some(v.iter().map(|s| s.to_string()).collect())
}

#[test]
fn tasks_are_stamped_and_found() {
    let mut rt = runtime(None);
    let stored = rt.create_task_at(task(None, None), 17, "fresh".to_string());
    assert_eq!(stored.id.as_deref(), Some("fresh"));
    assert_eq!(stored.created_at, Some(17));
    assert_eq!(stored.updated_at, Some(17));
    let told = stored.metadata.unwrap();
    assert_eq!(told.updated_at, Some(17));
    assert_eq!(told.created_at.as_deref(), Some("17"));
    let mut known = task(Some("own"), None);
    known.metadata = Some(TaskMetadata { updated_at: Some(5), created_at: None });
    known.created_at = Some(1);
    let stored = rt.create_task_at(known, -3, "unused".to_string());
    assert_eq!(stored.id.as_deref(), Some("own"));
    assert_eq!(stored.created_at, Some(-3));
    let told = stored.metadata.unwrap();
    assert_eq!(told.updated_at, Some(5));
    assert_eq!(told.created_at.as_deref(), Some("-3"));
    assert!(rt.get_task("own").is_some());
    assert!(rt.get_task("unused").is_none());
    assert!(rt.delete_task("own"));
    assert!(!rt.delete_task("own"));
    assert!(rt.get_task("own").is_none());
    assert!(rt.get_task("fresh").is_some());
}

#[test]
fn storing_a_task_again_changes_its_times_only() {
    let mut rt = runtime(None);
    let first = rt.create_task_at(task(None, Some(vec!["x"])), 1, "one".to_string());
    let again = rt.create_task_at(first, 2, "two".to_string());
    assert_eq!(again.id.as_deref(), Some("one"));
    assert_eq!(again.created_at, Some(2));
    assert_eq!(again.updated_at, Some(2));
    assert_eq!(again.tags, tags(vec!["x"]));
    let told = again.metadata.unwrap();
    assert_eq!(told.updated_at, Some(1));
    assert_eq!(told.created_at.as_deref(), Some("1"));
    assert_eq!(rt.get_tasks(&None).len(), 1);
}

#[test]
fn tasks_get_an_identifier_and_the_time() {
    let mut rt = runtime(None);
    let stored = rt.create_task(task(None, None)).unwrap();
    let id = stored.id.unwrap();
    assert_eq!(id.len(), 36);
    assert!(stored.created_at.unwrap() > 1_600_000_000_000);
    assert_eq!(rt.get_task(&id).unwrap().name, "t");
    let kept = rt.create_task(task(Some("mine"), None)).unwrap();
    assert_eq!(kept.id.as_deref(), Some("mine"));
}

#[test]
fn tasks_are_listed_by_tags() {
    let mut rt = runtime(None);
    rt.create_task_at(task(Some("b"), Some(vec!["x", "y"])), 1, String::new());
    rt.create_task_at(task(Some("a"), Some(vec!["x"])), 1, String::new());
    rt.create_task_at(task(Some("c"), None), 1, String::new());
    let ids = |found: Vec<Task>| -> Vec<String> { found.into_iter().map(|t| t.id.unwrap()).collect() };
    assert_eq!(ids(rt.get_tasks(&None)), vec!["a", "b", "c"]);
    assert_eq!(ids(rt.get_tasks(&tags(vec!["x"]))), vec!["a", "b"]);
    assert_eq!(ids(rt.get_tasks(&tags(vec!["y", "x"]))), vec!["b"]);
    assert_eq!(ids(rt.get_tasks(&tags(vec![]))), vec!["a", "b"]);
    assert!(ids(rt.get_tasks(&tags(vec!["z"]))).is_empty());
    assert!(check_tags(&task(None, None), &None));
    assert!(!check_tags(&task(None, None), &tags(vec![])));
}

#[test]
fn settings_as_texts() {
    let mut rt = runtime(None);
    rt.set_setting_text("k", "v");
    rt.settings.values.insert("n".to_string(), SettingValue::Number(SettingNumber::Finite(number("2"))));
    rt.settings.values.insert("b".to_string(), SettingValue::Bool(false));
    assert_eq!(rt.get_setting_text("k").as_deref(), Some("v"));
    assert_eq!(rt.get_setting_text("n").as_deref(), Some("2"));
    assert_eq!(rt.get_setting_text("b").as_deref(), Some("false"));
    assert!(rt.get_setting_text("x").is_none());
    let all = rt.get_all_settings();
    assert_eq!(all.len(), 3);
    assert_eq!(all.get("n").unwrap(), "2");
    assert_eq!(write_setting(&SettingValue::Null), "null");
    assert_eq!(write_setting(&SettingValue::Bool(true)), "true");
    assert_eq!(write_setting(&SettingValue::Number(SettingNumber::Infinity)), "inf");
    assert_eq!(write_setting(&SettingValue::Number(SettingNumber::NegInfinity)), "-inf");
    assert_eq!(write_setting(&SettingValue::Number(SettingNumber::NaN)), "NaN");
}

#[test]
fn model_types_have_names() {
    assert_eq!(ModelType::TextLarge.key(), "TEXT_LARGE");
    assert_eq!(ModelType::TextSmall.key(), "TEXT_SMALL");
    assert_eq!(ModelType::TextEmbedding.key(), "TEXT_EMBEDDING");
    assert_eq!(ModelType::Image.key(), "IMAGE");
    assert_eq!(ModelType::AudioTranscription.key(), "AUDIO_TRANSCRIPTION");
    assert_eq!(ModelType::TextToSpeech.key(), "TEXT_TO_SPEECH");
    assert_eq!(ModelType::TextSmall.output(), OutputKind::Text);
    assert_eq!(ModelType::TextEmbedding.output(), OutputKind::Embedding);
    assert_eq!(ModelType::Image.output(), OutputKind::Structured);
}

#[test]
fn database_is_asked_where_there_is_one() {
    let none = runtime(None);
    assert_eq!(none.needed_adapter(), Err("No adapter".to_string()));
    assert!(none.get_memories(None, 3).is_none());
    assert!(none.search_knowledge("q", 3).is_none());
    let some = runtime(Some(Handle { id: 5 }));
    assert_eq!(some.needed_adapter(), Ok(Handle { id: 5 }));
    let room = UUID { value: "r".to_string() };
    let (adapter, asked) = some.get_memories(Some(room), 3).unwrap();
    assert_eq!(adapter.id, 5);
    assert_eq!(asked.count, Some(3));
    assert_eq!(asked.room_id.unwrap().as_str(), "r");
    assert_eq!(some.get_memories(None, 1 << 31).unwrap().1.count, Some(10));
    assert_eq!(some.get_memories(None, (1 << 31) - 1).unwrap().1.count, Some(i32::MAX));
    let (_, search) = some.search_knowledge("what", 4).unwrap();
    assert_eq!(search.table_name, "knowledge");
    assert_eq!(search.query.as_deref(), Some("what"));
    assert_eq!(search.count, Some(4));
    assert!(search.room_id.is_none());
    assert_eq!(some.search_knowledge("q", (1 << 32) + 6).unwrap().1.count, Some(6));
}
