use elizaos::compose::State;
use elizaos::json::{json_to_string, parse_json, JsonValue};
use elizaos::prompt_check::{
    check_answer, check_missing, clean_response, remove_codes, write_retry_note,
};
use elizaos::prompt_exec::{
    choose_model, make_checkpoints, make_field_codes, setting_levels, word_levels, write_seed_label,
    DynamicPromptOptions, ModelSize, PromptSession, Verdict,
};
use elizaos::prompt_text::{
    answer_format, fields_to_ask, limit_tokens, render_template, trim_prompt,
    write_example, write_prompt, AskedField, CheckpointCodes, SchemaRow,
};
use elizaos::runtime::{AgentRuntime, RuntimeOptions};
use elizaos::settings::SettingValue;
use elizaos::string_map::StringMap;
use elizaos::xml::parse_xml_to_json;

fn plain(text: &String) -> String {
    text.clone()
}

/// A code for a label: the label itself, in brackets.
fn code(label: &String) -> String {
    format!("[{}]", label)
}

fn json(text: &str) -> JsonValue {
    parse_json(text).unwrap()
}

fn values(text: &str) -> StringMap<JsonValue> {
    match parse_json(text) {
        Some(JsonValue::Object(m)) => m,
        _ => panic!("no object"),
    }
}

fn row(field: &str, description: &str, validate: Option<bool>) -> SchemaRow {
    SchemaRow {
        field: field.to_string(),
        description: description.to_string(),
        validate_field: validate,
    }
}

fn read(xml: &str) -> String {
    match parse_xml_to_json(xml) {
        Some(v) => json_to_string(&v),
        None => "nothing".to_string(),
    }
}

#[test]
fn xml_elements_become_fields() {
    assert_eq!(read("<tag>content</tag>"), r#"{"tag":"content"}"#);
    assert_eq!(read("<parent><child>x</child></parent>"), r#"{"parent":{"child":"x"}}"#);
    assert_eq!(read("<a>1</a><b> 2 </b>"), r#"{"a":"1","b":"2"}"#);
    assert_eq!(read("<a>1</a><a>2</a><a>3</a>"), r#"{"a":["1","2","3"]}"#);
    assert_eq!(read(r#"<a id="1" b='x'>t</a>"#), r#"{"a":"t"}"#);
    assert_eq!(read("<?xml v?><!-- note --><a>1</a>"), r#"{"a":"1"}"#);
    assert_eq!(read("<!-- a > b --><c>1</c>"), r#"{"c":"1"}"#);
    assert_eq!(read("<!-- <b>x</b><c>y</c> --><a>1</a>"), r#"{"a":"1"}"#);
    assert_eq!(read("<a>1</a><!-- <b>x</b><c>y</c>"), r#"{"a":"1","c":"y"}"#);
    assert_eq!(read("<!--><a>1</a>"), r#"{"a":"1"}"#);
    assert_eq!(read("<?p <b>x</b><c>y</c> ?><a>1</a>"), r#"{"a":"1"}"#);
    assert_eq!(read("<?p><a>1</a>"), r#"{"a":"1"}"#);
    assert_eq!(read("<!DOCTYPE a><a>1</a>"), r#"{"a":"1"}"#);
    assert_eq!(read("  just text "), r#""just text""#);
    assert_eq!(read(""), r#""""#);
}

#[test]
fn xml_closing_tags_are_matched() {
    assert_eq!(read("<a><a>in</a>out</a>"), r#"{"a":{"a":"in"}}"#);
    assert_eq!(read("<a><ab>x</ab></a>"), r#"{"a":{"ab":"x"}}"#);
    assert_eq!(read("<a>no end<b>1</b>"), r#"{"b":"1"}"#);
    assert_eq!(read("<a>x</a><a/>"), r#"{"a":["x",""]}"#);
    assert_eq!(read("<a/><a/>"), r#"{"a":["",""]}"#);
    assert_eq!(read("<a/>"), r#"{"a":""}"#);
    assert_eq!(read("<a/><a>1</a>"), r#"{"a":["","1"]}"#);
    assert_eq!(read("</x><a>1</a>"), r#"{"a":"1"}"#);
    assert_eq!(read("a < b"), r#""a < b""#);
    assert_eq!(read("<>"), r#""<>""#);
}

#[test]
fn xml_response_is_unwrapped() {
    assert_eq!(read("noise <response><a>1</a></response> more"), r#"{"a":"1"}"#);
    assert_eq!(read("<response ><a>1</a></response >"), r#"{"a":"1"}"#);
    assert_eq!(read("<response kind=\"x\"><a>1</a></response>"), r#"{"a":"1"}"#);
    assert_eq!(read("<response><a>1</a>"), r#"{"a":"1"}"#);
    assert_eq!(read("<response>text</response>"), r#""text""#);
}

#[test]
fn thinking_is_taken_out() {
    assert_eq!(clean_response("a<think>b</think>c<think>d</think>e"), "ace");
    assert_eq!(clean_response("a<think>b"), "a<think>b");
    assert_eq!(clean_response("a</think>b"), "a</think>b");
    assert_eq!(clean_response("a</think>b<think>c</think>"), "a</think>b");
    assert_eq!(clean_response("</think><think>"), "</think><think>");
    assert_eq!(clean_response("<think></think></think><think>"), "</think><think>");
    assert_eq!(clean_response("<think>a<think>b</think>c</think>d"), "c</think>d");
}

#[test]
fn templates_are_filled() {
    let state = values(r#"{"name":"Ada","n":3,"list":[1,"x"]}"#);
    assert_eq!(
        render_template("Hi {{name}}, {{n}} {{list}} {{name}} {{other}}", &state),
        "Hi Ada, 3 [1,\"x\"] Ada {{other}}"
    );
    assert_eq!(render_template("no {places} here", &state), "no {places} here");
    assert_eq!(render_template("{{a}}", &values(r#"{"a":"{{b}}","b":"c"}"#)), "c");
}

#[test]
fn formats_are_upper_case() {
    assert_eq!(answer_format(&None), "XML");
    assert_eq!(answer_format(&Some("json".to_string())), "JSON");
    assert_eq!(answer_format(&Some("straße".to_string())), "STRASSE");
}

fn codes() -> CheckpointCodes {
    CheckpointCodes { initial: "I".to_string(), middle: "M".to_string(), end: "E".to_string() }
}

#[test]
fn fields_are_asked_for() {
    let schema = vec![row("x", "the x", None), row("y", "the y", None)];
    let mut field_codes = StringMap::new();
    field_codes.insert("x".to_string(), "77".to_string());
    let show = |fields: Vec<AskedField>| -> Vec<String> {
        fields.iter().map(|f| format!("{}={}", f.name, f.text)).collect()
    };
    assert_eq!(
        show(fields_to_ask(&schema, &field_codes, 1)),
        vec!["code_x_start=output exactly: 77", "x=the x", "code_x_end=output exactly: 77", "y=the y"]
    );
    let checked = show(fields_to_ask(&schema, &StringMap::new(), 3));
    assert_eq!(checked.len(), 8);
    assert_eq!(checked[0], "one_initial_code=echo the initial UUID code from prompt");
    assert_eq!(checked[2], "one_end_code=echo the end UUID code from prompt");
    assert_eq!(checked[3], "x=the x");
    assert_eq!(checked[6], "two_middle_code=echo the middle UUID code from prompt");
    assert_eq!(show(fields_to_ask(&schema, &StringMap::new(), 2)).len(), 5);
}

#[test]
fn prompts_are_written() {
    let fields = vec![
        AskedField { name: "x".to_string(), text: "the x".to_string() },
        AskedField { name: "y".to_string(), text: "the y".to_string() },
    ];
    assert_eq!(
        write_example(true, &fields),
        "<response>\n  <x>the x</x>\n  <y>the y</y>\n</response>"
    );
    assert_eq!(write_example(false, &fields), "{\n  \"x\": \"the x\",\n  \"y\": \"the y\"\n}");
    assert_eq!(
        write_prompt("BODY", "XML", &fields, &codes()),
        "initial code: I\nBODY\nmiddle code: M\n<output>\nDo NOT include any thinking, reasoning, or <think> sections in your response.\nGo directly to the XML response format without any preamble or explanation.\n\nRespond using XML format like this:\n<response>\n  <x>the x</x>\n  <y>the y</y>\n</response>\n\nIMPORTANT: Your response must ONLY contain the <response></response> XML block above. Do not include any text, thinking, or reasoning before or after this XML block. Start your response immediately with <response> and end with </response>.\n</output>\nend code: E\n"
    );
    assert_eq!(
        write_prompt("BODY", "JSON", &vec![], &codes()),
        "initial code: I\nBODY\nmiddle code: M\n# Strict Output instructions\nDo NOT include any thinking, reasoning, or <think> sections in your response.\nGo directly to the JSON response format without any preamble or explanation.\n\nRespond using JSON format like this:\n{\n}\n\nIMPORTANT: Your response must ONLY contain the {} JSON block above. Do not include any text, thinking, or reasoning before or after this JSON block. Start your response immediately with { and end with }.\n\nend code: E\n"
    );
}

#[test]
fn long_prompts_are_trimmed() {
    let long: String = std::iter::repeat('x').take(256_000).collect();
    assert_eq!(trim_prompt(&long).len(), 256_000);
    let longer = format!("ab{}", long);
    assert_eq!(trim_prompt(&longer), long);
    let broken = format!("ä{}", &long[1..]);
    assert_eq!(broken.len(), 256_001);
    assert_eq!(trim_prompt(&broken), long[1..]);
}

#[test]
fn answers_get_what_is_left_of_the_context() {
    assert_eq!(limit_tokens(0), 4096);
    assert_eq!(limit_tokens(256_000), 4096);
    assert_eq!(limit_tokens(389_808), 4096);
    assert_eq!(limit_tokens(389_810), 4095);
    assert_eq!(limit_tokens(396_001), 1000);
    assert_eq!(limit_tokens(397_998), 1000);
    assert_eq!(limit_tokens(398_000), 4096);
    assert_eq!(limit_tokens(1_000_000), 4096);
}

#[test]
fn levels_by_words() {
    assert_eq!(word_levels("trusted"), (0, 0));
    assert_eq!(word_levels("fast"), (0, 0));
    assert_eq!(word_levels("progressive"), (1, 2));
    assert_eq!(word_levels("strict"), (3, 3));
    assert_eq!(word_levels("safe"), (3, 3));
    assert_eq!(word_levels("other"), (2, 1));
    assert_eq!(setting_levels(&Some(SettingValue::String("SAFE".to_string()))), (3, 3));
    assert_eq!(setting_levels(&Some(SettingValue::Bool(true))), (2, 1));
    assert_eq!(setting_levels(&None), (2, 1));
}

#[test]
fn models_by_options() {
    let mut options: DynamicPromptOptions<u64> = DynamicPromptOptions::default();
    assert_eq!(choose_model(&options), "TEXT_LARGE");
    options.model_size = Some(ModelSize::Small);
    assert_eq!(choose_model(&options), "TEXT_SMALL");
    options.model = Some("MINE".to_string());
    assert_eq!(choose_model(&options), "MINE");
    let schema = vec![row("x", "", None), row("y", "", None)];
    assert_eq!(write_seed_label("MINE", &schema), "dynamic-prompt:MINE:x,y");
    assert_eq!(write_seed_label("MINE", &vec![]), "dynamic-prompt:MINE:");
}

#[test]
fn codes_are_made_from_labels() {
    let schema = vec![row("x", "", None), row("y", "", Some(false)), row("z", "", Some(true))];
    let one = make_field_codes(&schema, 1, &code);
    assert_eq!(one.len(), 2);
    assert_eq!(one.get("x").unwrap(), "[field-code:x]");
    assert_eq!(one.get("z").unwrap(), "[field-code:z]");
    let zero = make_field_codes(&schema, 0, &code);
    assert_eq!(zero.len(), 1);
    assert!(zero.contains_key("z"));
    assert!(make_field_codes(&schema, 2, &code).is_empty());
    let checkpoints = make_checkpoints(12, &code);
    assert_eq!(checkpoints.initial, "[init-code:12]");
    assert_eq!(checkpoints.middle, "[mid-code:12]");
    assert_eq!(checkpoints.end, "[final-code:12]");
}

#[test]
fn answers_are_checked() {
    let none = StringMap::new();
    let two = json(r#"{"one_initial_code":"I","one_middle_code":"M","one_end_code":"E","x":"1"}"#);
    assert!(check_answer(&two, 2, &none, &codes(), &None));
    assert!(!check_answer(&two, 3, &none, &codes(), &None));
    assert!(check_answer(&two, 2, &none, &codes(), &Some(vec!["x".to_string()])));
    assert!(!check_answer(&two, 2, &none, &codes(), &Some(vec!["x".to_string(), "y".to_string()])));
    let wrong = json(r#"{"one_initial_code":"I","one_middle_code":"M","one_end_code":"I"}"#);
    assert!(!check_answer(&wrong, 2, &none, &codes(), &None));
    let three = json(
        r#"{"one_initial_code":"I","one_middle_code":"M","one_end_code":"E","two_initial_code":"I","two_middle_code":"M","two_end_code":"E"}"#,
    );
    assert!(check_answer(&three, 3, &none, &codes(), &None));
    assert!(check_answer(&three, 2, &none, &codes(), &None));
    assert!(check_answer(&json("\"text\""), 0, &none, &codes(), &None));
    assert!(!check_answer(&json("\"text\""), 2, &none, &codes(), &None));
    let mut fields = StringMap::new();
    fields.insert("x".to_string(), "7".to_string());
    let coded = json(r#"{"code_x_start":"7","code_x_end":"7","x":"v"}"#);
    assert!(check_answer(&coded, 1, &fields, &codes(), &None));
    assert!(!check_answer(&json(r#"{"code_x_start":"7","x":"v"}"#), 1, &fields, &codes(), &None));
    assert!(!check_answer(&json(r#"{"code_x_start":7,"code_x_end":"7"}"#), 1, &fields, &codes(), &None));
    assert_eq!(json_to_string(&remove_codes(coded, &fields, 1)), r#"{"x":"v"}"#);
    assert_eq!(json_to_string(&remove_codes(two, &none, 2)), r#"{"x":"1"}"#);
    assert_eq!(json_to_string(&remove_codes(three, &none, 3)), "{}");
}

#[test]
fn missing_values() {
    assert!(check_missing(None));
    for text in ["null", "\"\"", "\" \\n\"", "[]", "{}"] {
        assert!(check_missing(Some(&json(text))));
    }
    for text in ["0", "false", "\"x\"", "[null]", r#"{"a":null}"#] {
        assert!(!check_missing(Some(&json(text))));
    }
}

#[test]
fn retry_notes_tell_what_was_right() {
    let schema = vec![row("b", "", None), row("a", "", None), row("c", "", None)];
    let mut fields = StringMap::new();
    for f in ["a", "b", "c"] {
        fields.insert(f.to_string(), format!("k{}", f));
    }
    let part = json(r#"{"code_a_start":"ka","code_a_end":"ka","a":{"n":1},"code_b_start":"kb","b":"x"}"#);
    assert_eq!(
        write_retry_note(&part, &schema, &fields).unwrap(),
        "\n\n[RETRY CONTEXT]\nYou previously produced these valid fields:\n<a>{\"n\":1}</a>\n\nPlease complete: b, c"
    );
    assert!(write_retry_note(&json("{}"), &schema, &fields).is_none());
    assert!(write_retry_note(&json(r#"{"code_a_start":"ka","code_a_end":"ka"}"#), &schema, &fields).is_none());
    let whole = json(r#"{"code_a_start":"ka","code_a_end":"ka","a":"1"}"#);
    assert_eq!(
        write_retry_note(&whole, &vec![row("a", "", None)], &fields).unwrap(),
        "\n\n[RETRY CONTEXT]\nYou previously produced these valid fields:\n<a>1</a>\n\nPlease complete: all fields"
    );
    let long: String = std::iter::repeat('y').take(501).collect();
    let shown = json(&format!(r#"{{"code_a_start":"ka","code_a_end":"ka","a":"{}"}}"#, long));
    let note = write_retry_note(&shown, &schema, &fields).unwrap();
    assert!(note.contains(&format!("<a>{}...</a>", &long[..500])));
    let broken = json(&format!(r#"{{"code_a_start":"ka","code_a_end":"ka","a":"{}ä"}}"#, &long[..499]));
    let note = write_retry_note(&broken, &schema, &fields).unwrap();
    assert!(note.contains(&format!("<a>{}...</a>", &long[..499])));
}

fn session(options: DynamicPromptOptions<u64>, schema: Vec<SchemaRow>) -> PromptSession<u64> {
    let rt = AgentRuntime::new(RuntimeOptions::default(), 1, &plain);
    let mut state = State::new();
    state.values = values(r#"{"who":"Ada"}"#);
    rt.dynamic_prompt_exec_from_state(&state, "Ask {{who}}", schema, options, &plain, &code)
}

#[test]
fn session_accepts_an_answer_with_its_codes() {
    let mut s = session(DynamicPromptOptions::default(), vec![row("x", "the x", None)]);
    assert_eq!(s.level, 2);
    assert_eq!(s.max_retries, 1);
    let request = s.request(&code);
    assert_eq!(request.model, "TEXT_LARGE");
    assert_eq!(request.params.get("maxTokens").unwrap().as_i64(), Some(4096));
    let prompt = request.params.get_str("prompt").unwrap();
    assert!(prompt.starts_with("initial code: [init-code:0]\nAsk Ada\nmiddle code: [mid-code:0]\n<output>\n"));
    assert!(prompt.contains("  <x>the x</x>\n"));
    assert!(prompt.ends_with("\nend code: [final-code:0]\n"));
    let answer = "<think>hm</think><response>\n  <one_initial_code>[init-code:0]</one_initial_code>\n  <one_middle_code>[mid-code:0]</one_middle_code>\n  <one_end_code>[final-code:0]</one_end_code>\n  <x> five </x>\n</response>";
    match s.reply(answer) {
        Verdict::Accepted(v) => assert_eq!(json_to_string(&v), r#"{"x":"five"}"#),
        _ => panic!("not accepted"),
    }
}

#[test]
fn session_tries_again_and_gives_up() {
    let options = DynamicPromptOptions { max_retries: Some(2), retry_backoff: Some(10), ..Default::default() };
    let mut s = session(options, vec![row("x", "", None)]);
    s.request(&code);
    assert!(matches!(s.fail("timeout"), Verdict::Retry { pause: true }));
    assert_eq!(s.last_error.as_deref(), Some("Model call failed: timeout"));
    let request = s.request(&code);
    assert!(request.params.get_str("prompt").unwrap().starts_with("initial code: [init-code:1]\n"));
    assert!(matches!(s.reply("<response><x>1</x></response>"), Verdict::Retry { pause: true }));
    s.request(&code);
    assert!(matches!(s.reply("nothing"), Verdict::GaveUp));
    assert_eq!(s.retry, 3);
}

#[test]
fn session_tells_the_model_what_was_right() {
    let options = DynamicPromptOptions {
        context_check_level: Some(1),
        force_format: Some("json".to_string()),
        max_retries: Some(1),
        ..Default::default()
    };
    let mut s = session(options, vec![row("x", "", None), row("y", "", None)]);
    s.request(&code);
    let part = r#"{"code_x_start":"[field-code:x]","x":"1","code_x_end":"[field-code:x]","y":"2"}"#;
    assert!(matches!(s.reply(part), Verdict::Retry { pause: false }));
    let request = s.request(&code);
    let prompt = request.params.get_str("prompt").unwrap();
    assert!(prompt.contains("Ask Ada\n\n[RETRY CONTEXT]\nYou previously produced these valid fields:\n<x>1</x>\n\nPlease complete: y\nmiddle code: "));
    let whole = r#"{"code_x_start":"[field-code:x]","x":"1","code_x_end":"[field-code:x]","code_y_start":"[field-code:y]","y":2,"code_y_end":"[field-code:y]"}"#;
    match s.reply(whole) {
        Verdict::Accepted(v) => assert_eq!(json_to_string(&v), r#"{"x":"1","y":2}"#),
        _ => panic!("not accepted"),
    }
}

#[test]
fn session_ends_whatever_the_model_says() {
    let odd = "a</think>b<think>c</think>";
    let options = DynamicPromptOptions {
        context_check_level: Some(0),
        max_retries: Some(0),
        ..Default::default()
    };
    let mut s = session(options, vec![]);
    match s.reply(odd) {
        Verdict::Accepted(v) => assert_eq!(json_to_string(&v), r#""a</think>b""#),
        _ => panic!("not accepted"),
    }
    let mut s = session(DynamicPromptOptions::default(), vec![]);
    assert!(matches!(s.reply("</think><think>"), Verdict::Retry { pause: false }));
    assert_eq!(s.retry, 1);
    assert!(matches!(s.reply("</think><think>"), Verdict::GaveUp));
}

#[test]
fn session_sends_whole_characters() {
    let mut s = session(DynamicPromptOptions::default(), vec![]);
    s.template = std::iter::repeat('ä').take(200_000).collect();
    let first = s.request(&code).params.get_str("prompt").unwrap().len();
    s.template.push('b');
    let second = s.request(&code).params.get_str("prompt").unwrap().len();
    assert_eq!(first.min(second), 255_999);
    assert_eq!(first.max(second), 256_000);
}

#[test]
fn trusted_session_takes_any_answer() {
    let rt = {
        let mut rt = AgentRuntime::new(RuntimeOptions::default(), 1, &plain);
        rt.set_setting("VALIDATION_LEVEL", &SettingValue::String("Trusted".to_string()), false);
        rt
    };
    let options: DynamicPromptOptions<u64> = DynamicPromptOptions::default();
    let mut s = rt.dynamic_prompt_exec_from_state(&State::new(), "p", vec![row("x", "", None)], options, &plain, &code);
    assert_eq!((s.level, s.max_retries), (0, 0));
    match s.reply("just words") {
        Verdict::Accepted(v) => assert_eq!(json_to_string(&v), r#""just words""#),
        _ => panic!("not accepted"),
    }
}
