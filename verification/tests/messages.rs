use elizaos::actions::{
    collect_results, find_action, normalize_action_name, ActionDefinition, ActionOutcome,
    ActionResult,
};
use elizaos::compose::{should_run, ProviderDefinition, ProviderResult, State};
use elizaos::dispatch::ModelCall;
use elizaos::evaluators::{evaluate_outcomes, EvaluatorDefinition, EvaluatorPhase};
use elizaos::json::{json_to_string, parse_json, JsonValue};
use elizaos::models::{effective_model, effective_stream_model, LLMMode};
use elizaos::runtime::{AgentRuntime, Handle, RuntimeOptions};
use elizaos::settings::SettingValue;
use elizaos::string_map::StringMap;

fn plain(text: &String) -> String {
    text.clone()
}

fn parse_mode(word: &String) -> LLMMode {
    if word == "small" {
        LLMMode::Small
    } else {
        LLMMode::Default
    }
}

fn runtime(opts: RuntimeOptions) -> AgentRuntime {
    AgentRuntime::new(opts, 1, &plain)
}

fn handle(id: u64) -> Handle {
    Handle { id }
}

fn json(text: &str) -> JsonValue {
    parse_json(text).unwrap()
}

fn values(text: &str) -> StringMap<JsonValue> {
    match parse_json(text) {
        Some(JsonValue::Object(m)) => m,
        _ => panic!("no object"),
    }
}

fn words(v: &[&str]) -> Vec<String> {
    v.iter().map(|s| s.to_string()).collect()
}

/// Four providers: plain, private, dynamic, and both.
fn provider(h: Handle) -> ProviderDefinition {
    ProviderDefinition {
        name: format!("p{}", h.id),
        private: if h.id == 1 || h.id == 3 { Some(true) } else { None },
        dynamic: if h.id >= 2 { Some(true) } else { Some(false) },
    }
}

#[test]
fn providers_are_chosen() {
    let mut rt = runtime(RuntimeOptions::default());
    for id in 0..4 {
        rt.providers.push(handle(id));
    }
    let ids = |v: Vec<Handle>| -> Vec<u64> { v.iter().map(|h| h.id).collect() };
    assert_eq!(ids(rt.compose_state(&provider)), vec![0, 2]);
    let names = words(&["p3", "p1"]);
    assert_eq!(ids(rt.compose_state_filtered(&provider, Some(&names), true)), vec![1, 3]);
    assert_eq!(ids(rt.compose_state_filtered(&provider, Some(&names), false)), vec![0, 1, 2, 3]);
    assert_eq!(ids(rt.compose_state_filtered(&provider, None, true)), vec![0, 2]);
    assert!(ids(rt.compose_state_filtered(&provider, Some(&vec![]), true)).is_empty());
    assert_eq!(ids(rt.compose_state_filtered(&provider, Some(&vec![]), false)), vec![0, 2]);
    assert_eq!(rt.list_provider_definitions(&provider)[2].name, "p2");
    assert!(should_run(&provider(handle(3)), Some(&names), true));
    assert!(!should_run(&provider(handle(1)), None, false));
}

fn says(text: Option<&str>, data: Option<&str>) -> ProviderResult {
    ProviderResult { text: text.map(|s| s.to_string()), values: data.map(values) }
}

#[test]
fn state_is_put_together() {
    let mut rt = runtime(RuntimeOptions::default());
    let mut state = State::new();
    let message = Some("hello".to_string());
    assert!(rt.take_provided(&mut state, &None, "a", &says(Some("one"), Some(r#"{"k":1,"l":2}"#)), &message));
    assert!(rt.take_provided(&mut state, &None, "b", &says(None, Some(r#"{"k":"new"}"#)), &message));
    assert!(rt.take_provided(&mut state, &None, "c", &says(Some("two"), None), &message));
    assert_eq!(state.text, "one\ntwo");
    assert_eq!(json_to_string(&JsonValue::Object(state.values)), r#"{"k":"new","l":2}"#);
    assert!(rt.get_trajectory_logs().provider_access.is_empty());
}

#[test]
fn empty_text_of_a_provider_adds_no_line_at_the_start() {
    let mut state = State::new();
    state.merge_result(&says(Some(""), None));
    state.merge_result(&says(Some("x"), None));
    assert_eq!(state.text, "x");
    state.merge_result(&says(Some(""), None));
    assert_eq!(state.text, "x\n");
}

#[test]
fn provider_access_is_kept() {
    let mut rt = runtime(RuntimeOptions::default());
    rt.set_trajectory_step_id(Some("step".to_string()));
    let step = rt.get_trajectory_step_id();
    let mut state = State::new();
    let long: String = std::iter::repeat('x').take(2001).collect();
    rt.take_provided_at(&mut state, &step, "facts", &says(None, None), &Some(long), 33);
    rt.take_provided_at(&mut state, &step, "time", &says(None, None), &None, 34);
    assert!(rt.take_provided(&mut state, &step, "now", &says(None, None), &None));
    let logs = rt.get_trajectory_logs();
    assert_eq!(logs.provider_access.len(), 3);
    let first = &logs.provider_access[0];
    assert_eq!(first.step_id, "step");
    assert_eq!(first.provider_name, "facts");
    assert_eq!(first.purpose, "compose_state");
    assert!(first.data.is_empty());
    assert_eq!(first.timestamp_ms, 33);
    let query = first.query.as_ref().unwrap();
    assert_eq!(query.len(), 1);
    assert_eq!(query.get("message").unwrap().as_str().unwrap().len(), 2000);
    assert!(logs.provider_access[1].query.is_none());
    assert!(logs.provider_access[2].timestamp_ms > 1_600_000_000_000);
    assert!(logs.llm_calls.is_empty());
}

#[test]
fn action_names_are_normalized() {
    assert_eq!(normalize_action_name("Send_MESSAGE__Now"), "sendmessagenow");
    assert_eq!(normalize_action_name("ÄÖ_Ü"), "äöü");
    assert_eq!(normalize_action_name("_"), "");
}

fn action(h: Handle) -> ActionDefinition {
    match h.id {
        0 => ActionDefinition { name: "REPLY".to_string(), similes: Some(words(&["ANSWER", "go_on"])) },
        1 => ActionDefinition { name: "ANSWER".to_string(), similes: None },
        _ => ActionDefinition { name: "reply".to_string(), similes: Some(words(&["GO ON", "LAST"])) },
    }
}

#[test]
fn actions_are_found_by_name_and_simile() {
    let defs = vec![action(handle(0)), action(handle(1)), action(handle(2))];
    assert_eq!(find_action(&defs, "Reply"), Some(0));
    assert_eq!(find_action(&defs, "answer"), Some(1));
    assert_eq!(find_action(&defs, "GOON"), Some(0));
    assert_eq!(find_action(&defs, "_last_"), Some(2));
    assert_eq!(find_action(&defs, "missing"), None);
}

#[test]
fn selected_actions_are_planned() {
    let mut rt = runtime(RuntimeOptions { action_planning: Some(true), ..Default::default() });
    for id in 0..3 {
        rt.actions.push(handle(id));
    }
    let selected = words(&[" last ", "reply", "nothing"]);
    let mut params = StringMap::new();
    params.insert("LAST".to_string(), values(r#"{"n":1}"#));
    params.insert("reply".to_string(), values(r#"{"n":2}"#));
    let plan = rt.process_selected_actions(&selected, &params, &plain, &action);
    assert_eq!(plan.len(), 3);
    assert_eq!(plan[0].handler, None);
    assert_eq!(plan[0].parameters.unwrap().get("n").unwrap().as_i64(), Some(1));
    assert_eq!(plan[1].handler, Some(0));
    assert!(plan[1].parameters.is_none());
    assert_eq!(plan[2].handler, None);
    assert_eq!(plan[2].name, "nothing");
    assert_eq!(rt.process_actions(&plain).len(), 3);
    rt.action_planning_option = None;
    rt.set_setting("ACTION_PLANNING", &SettingValue::Bool(false), false);
    let plan = rt.process_selected_actions(&selected, &params, &plain, &action);
    assert_eq!(plan.len(), 1);
    assert_eq!(rt.process_actions(&plain), vec![handle(0)]);
    assert!(rt.process_selected_actions(&vec![], &params, &plain, &action).is_empty());
    assert_eq!(rt.list_action_definitions(&action)[1].name, "ANSWER");
}

fn done(success: bool, text: Option<&str>, error: Option<&str>, data: Option<&str>) -> ActionOutcome {
    ActionOutcome::Done(Some(ActionResult {
        success,
        text: text.map(|s| s.to_string()),
        error: error.map(|s| s.to_string()),
        data: data.map(values),
    }))
}

#[test]
fn outcomes_are_reported() {
    let results = collect_results(vec![
        ActionOutcome::NotValid,
        done(true, Some("fine"), None, None),
        ActionOutcome::Done(None),
        ActionOutcome::Failed("broken".to_string()),
        ActionOutcome::NotFound("FLY".to_string()),
    ]);
    assert_eq!(results.len(), 3);
    assert!(results[0].success);
    assert_eq!(results[0].text.as_deref(), Some("fine"));
    assert!(!results[1].success);
    assert_eq!(results[1].error.as_deref(), Some("broken"));
    assert_eq!(results[2].error.as_deref(), Some("Action not found: FLY"));
    assert!(results[2].text.is_none());
    assert!(results[2].data.is_none());
}

fn evaluator(h: Handle) -> EvaluatorDefinition {
    let phase = if h.id % 2 == 0 { EvaluatorPhase::Pre } else { EvaluatorPhase::Post };
    EvaluatorDefinition { name: format!("e{}", h.id), phase }
}

#[test]
fn evaluators_run_in_their_phase() {
    let mut rt = runtime(RuntimeOptions::default());
    assert!(rt.evaluate_pre(&evaluator).is_empty());
    for id in 0..5 {
        rt.evaluators.push(handle(id));
    }
    assert_eq!(rt.evaluate_pre(&evaluator), vec![handle(0), handle(2), handle(4)]);
    assert_eq!(rt.evaluate_message(&evaluator), vec![handle(1), handle(3)]);
    assert_eq!(rt.list_evaluator_definitions(&evaluator)[3].name, "e3");
}

#[test]
fn evaluators_block_and_rewrite() {
    let calm = evaluate_outcomes(&vec![
        ActionOutcome::NotValid,
        ActionOutcome::Failed("x".to_string()),
        ActionOutcome::Done(None),
        done(true, Some("t"), Some("e"), None),
    ]);
    assert!(!calm.blocked);
    assert!(calm.reason.is_none());
    assert!(calm.rewritten_text.is_none());
    let said = evaluate_outcomes(&vec![
        done(true, None, None, Some(r#"{"rewritten_text":"first"}"#)),
        done(false, Some("text"), Some("error"), None),
        done(false, None, None, Some(r#"{"rewritten_text":7}"#)),
        done(true, None, None, Some(r#"{"rewritten_text":"second"}"#)),
    ]);
    assert!(said.blocked);
    assert_eq!(said.reason.as_deref(), Some("error"));
    assert_eq!(said.rewritten_text.as_deref(), Some("second"));
    let later = evaluate_outcomes(&vec![
        done(false, None, Some("first"), None),
        done(false, Some("second"), None, None),
    ]);
    assert_eq!(later.reason.as_deref(), Some("second"));
}

#[test]
fn mode_takes_another_model() {
    for model in ["TEXT_SMALL", "TEXT_LARGE", "TEXT_REASONING_SMALL", "TEXT_REASONING_LARGE", "TEXT_COMPLETION"] {
        assert_eq!(effective_model(model, LLMMode::Small), "TEXT_SMALL");
        assert_eq!(effective_model(model, LLMMode::Large), "TEXT_LARGE");
        assert_eq!(effective_model(model, LLMMode::Default), model);
    }
    assert_eq!(effective_model("TEXT_EMBEDDING", LLMMode::Small), "TEXT_EMBEDDING");
    assert_eq!(effective_model("TEXT_SMALL_STREAM", LLMMode::Large), "TEXT_SMALL_STREAM");
    for model in [
        "TEXT_SMALL_STREAM",
        "TEXT_LARGE_STREAM",
        "TEXT_REASONING_SMALL_STREAM",
        "TEXT_REASONING_LARGE_STREAM",
    ] {
        assert_eq!(effective_stream_model(model, LLMMode::Small), "TEXT_SMALL_STREAM");
        assert_eq!(effective_stream_model(model, LLMMode::Large), "TEXT_LARGE_STREAM");
        assert_eq!(effective_stream_model(model, LLMMode::Default), model);
    }
    assert_eq!(effective_stream_model("TEXT_COMPLETION_STREAM", LLMMode::Large), "TEXT_COMPLETION_STREAM");
}

#[test]
fn models_are_called_or_missing() {
    let mut rt = runtime(RuntimeOptions::default());
    rt.register_model("TEXT_SMALL", handle(1));
    rt.register_model("TEXT_LARGE", handle(2));
    rt.register_streaming_model("TEXT_LARGE_STREAM", handle(3));
    match rt.use_model("TEXT_LARGE", &plain, &parse_mode) {
        ModelCall::Call { model, handler } => {
            assert_eq!(model, "TEXT_LARGE");
            assert_eq!(handler, handle(2));
        }
        ModelCall::Missing { message } => panic!("{}", message),
    }
    rt.set_setting("LLM_MODE", &SettingValue::String("small".to_string()), false);
    match rt.use_model("TEXT_LARGE", &plain, &parse_mode) {
        ModelCall::Call { model, handler } => {
            assert_eq!(model, "TEXT_SMALL");
            assert_eq!(handler, handle(1));
        }
        ModelCall::Missing { message } => panic!("{}", message),
    }
    match rt.use_model("IMAGE", &plain, &parse_mode) {
        ModelCall::Call { .. } => panic!("called"),
        ModelCall::Missing { message } => assert_eq!(
            message,
            "No model handler registered for type: IMAGE. Register a model handler using register_model() or pass a plugin with model handlers."
        ),
    }
    match rt.use_model_stream("TEXT_LARGE_STREAM", &plain, &parse_mode) {
        ModelCall::Call { .. } => panic!("called"),
        ModelCall::Missing { message } => assert_eq!(
            message,
            "No streaming model handler registered for type: TEXT_SMALL_STREAM. Register a streaming model handler using register_streaming_model()."
        ),
    }
    assert!(matches!(
        rt.use_model_stream_in("TEXT_LARGE_STREAM", LLMMode::Default),
        ModelCall::Call { handler, .. } if handler == handle(3)
    ));
}

#[test]
fn model_calls_are_kept() {
    let mut rt = runtime(RuntimeOptions::default());
    let params = json(r#"{"prompt":"p","system":"s","temperature":1,"maxTokens":9}"#);
    assert!(rt.model_answered_at("M", &params, "r", 1, 2));
    assert!(rt.model_answered_at("M", &params, "r", i64::MIN, 2));
    assert!(rt.model_answered("M", &params, "r", 0));
    assert!(rt.get_trajectory_logs().llm_calls.is_empty());
    rt.set_trajectory_step_id(Some("step".to_string()));
    assert!(rt.model_answered_at("M", &params, "r", 10, 25));
    assert!(!rt.model_answered_at("M", &params, "r", -1, i64::MAX));
    rt.model_answered_at("TEXT_EMBEDDING", &json(r#"{"temperature":"hot","maxTokens":1.5}"#), "[1]", 30, 20);
    assert!(rt.model_answered("M", &params, "r", 0));
    assert!(!rt.model_answered("M", &params, "r", i64::MIN));
    let logs = rt.get_trajectory_logs();
    assert_eq!(logs.llm_calls.len(), 3);
    let first = &logs.llm_calls[0];
    assert_eq!(first.step_id, "step");
    assert_eq!(first.model, "M");
    assert_eq!(first.user_prompt, "p");
    assert_eq!(first.system_prompt, "s");
    assert_eq!(first.response, "r");
    assert_eq!(first.temperature.as_str(), "1.0");
    assert_eq!(first.max_tokens, 9);
    assert_eq!(first.purpose, "action");
    assert_eq!(first.action_type, "runtime.use_model");
    assert_eq!(first.latency_ms, 15);
    assert_eq!(first.timestamp_ms, 25);
    let second = &logs.llm_calls[1];
    assert_eq!(second.response, "[embedding vector]");
    assert_eq!(second.user_prompt, "");
    assert_eq!(second.temperature.as_str(), "0.0");
    assert_eq!(second.max_tokens, 0);
    assert_eq!(second.latency_ms, 0);
    assert_eq!(logs.llm_calls[2].latency_ms, logs.llm_calls[2].timestamp_ms);
}
