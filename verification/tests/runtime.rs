use elizaos::character::{Bio, Character};
use elizaos::clock::UUID;
use elizaos::json::{parse_json, JsonValue};
use elizaos::log_level::LogLevel;
use elizaos::models::LLMMode;
use elizaos::runtime::{
    decide_mode, decide_planning, decide_responding, AgentRuntime, CapabilityConfig, Handle,
    InitAction, InitStage, Plugin, RuntimeOptions,
};
use elizaos::settings::{RuntimeSettings, SettingNumber, SettingValue};
use elizaos::string_map::StringMap;

fn id_of_name(name: &String) -> String {
    format!("id-of-{}", name)
}

/// Texts that start with "sealed:" are read backwards.
fn open_sealed(text: &String) -> String {
    match text.strip_prefix("sealed:") {
        Some(rest) => rest.chars().rev().collect(),
        None => text.clone(),
    }
}

fn seal(text: &str) -> String {
    let turned: String = text.chars().rev().collect();
    format!("sealed:{}", turned)
}

fn parse_mode(word: &String) -> LLMMode {
    match word.as_str() {
        "SMALL" => LLMMode::Small,
        "LARGE" => LLMMode::Large,
        _ => LLMMode::Default,
    }
}

fn runtime_with(opts: RuntimeOptions) -> AgentRuntime {
    AgentRuntime::new(opts, 1, &id_of_name)
}

fn text(s: &str) -> SettingValue {
    SettingValue::String(s.to_string())
}

fn is_text(v: &Option<SettingValue>, s: &str) -> bool {
    matches!(v, Some(SettingValue::String(t)) if t == s)
}

fn handle(id: u64) -> Handle {
    Handle { id }
}

#[test]
fn test_runtime_creation() {
    let runtime = runtime_with(RuntimeOptions {
        character: Some(Character { name: "TestAgent".to_string(), ..Default::default() }),
        ..Default::default()
    });
    assert_eq!(runtime.character.name, "TestAgent");
}

#[test]
fn test_runtime_settings() {
    let mut runtime = runtime_with(RuntimeOptions::default());
    runtime.set_setting("test_key", &text("test_value"), false);
    let value = runtime.get_setting("test_key", &open_sealed);
    assert!(is_text(&value, "test_value"));
}

#[test]
fn test_runtime_settings_string_bool_normalization() {
    let mut runtime = runtime_with(RuntimeOptions::default());
    runtime.set_setting("FLAG_TRUE", &text("true"), false);
    runtime.set_setting("FLAG_FALSE", &text("false"), false);
    assert!(matches!(
        runtime.get_setting("FLAG_TRUE", &open_sealed),
        Some(SettingValue::Bool(true))
    ));
    assert!(matches!(
        runtime.get_setting("FLAG_FALSE", &open_sealed),
        Some(SettingValue::Bool(false))
    ));
}

#[test]
fn test_runtime_settings_decrypts_encrypted_values() {
    let mut runtime = runtime_with(RuntimeOptions::default());
    let plaintext = "super-secret";
    let encrypted = seal(plaintext);
    assert_ne!(encrypted, plaintext);
    runtime.set_setting("ENCRYPTED", &SettingValue::String(encrypted), false);
    assert!(is_text(&runtime.get_setting("ENCRYPTED", &open_sealed), plaintext));
}

#[test]
fn test_run_management() {
    let mut runtime = runtime_with(RuntimeOptions::default());
    let run_id = runtime.start_run(None);
    assert!(!run_id.as_str().is_empty());
    runtime.end_run();
}

#[test]
fn test_default_log_level_is_error() {
    let runtime = runtime_with(RuntimeOptions::default());
    assert_eq!(runtime.log_level(), LogLevel::Error);
}

/// Runs through the stages; each service gets the number of its stage.
fn initialize(runtime: &mut AgentRuntime) -> Vec<InitStage> {
    let config = runtime.initialize(&open_sealed);
    let mut stage = InitStage::Bootstrap;
    let mut seen = vec![stage];
    loop {
        let (next, action) = runtime.initialize_next(stage, config.enable_autonomy);
        match action {
            InitAction::StartPlanning => runtime.register_service("planning", handle(1)),
            InitAction::StartMemory => runtime.register_service("memory", handle(2)),
            InitAction::StartAutonomy => runtime.register_service("AUTONOMY", handle(3)),
            InitAction::RegisterPlugins(plugins) => {
                for plugin in plugins {
                    runtime.register_plugin(plugin);
                }
            }
            InitAction::InitDatabase(adapter) => assert_eq!(Some(adapter), runtime.database()),
            InitAction::Finished => {
                assert_eq!(next, stage);
                return seen;
            }
        }
        stage = next;
        seen.push(stage);
    }
}

#[test]
fn test_advanced_planning_service_gated_on_character_flag() {
    let mut runtime_enabled = runtime_with(RuntimeOptions {
        character: Some(Character {
            name: "AdvPlanningOn".to_string(),
            advanced_planning: Some(true),
            bio: Bio::Single("Test".to_string()),
            ..Default::default()
        }),
        ..Default::default()
    });
    initialize(&mut runtime_enabled);
    assert!(runtime_enabled.get_service("planning").is_some());

    let mut runtime_disabled = runtime_with(RuntimeOptions {
        character: Some(Character {
            name: "AdvPlanningOff".to_string(),
            advanced_planning: Some(false),
            bio: Bio::Single("Test".to_string()),
            ..Default::default()
        }),
        ..Default::default()
    });
    initialize(&mut runtime_disabled);
    assert!(runtime_disabled.get_service("planning").is_none());
}

#[test]
fn test_custom_log_level_info() {
    let runtime = runtime_with(RuntimeOptions { log_level: LogLevel::Info, ..Default::default() });
    assert_eq!(runtime.log_level(), LogLevel::Info);
}

#[test]
fn test_custom_log_level_debug() {
    let runtime = runtime_with(RuntimeOptions { log_level: LogLevel::Debug, ..Default::default() });
    assert_eq!(runtime.log_level(), LogLevel::Debug);
}

#[test]
fn test_log_level_to_tracing() {
    assert_eq!(LogLevel::Trace.to_tracing_level(), tracing::Level::TRACE);
    assert_eq!(LogLevel::Debug.to_tracing_level(), tracing::Level::DEBUG);
    assert_eq!(LogLevel::Info.to_tracing_level(), tracing::Level::INFO);
    assert_eq!(LogLevel::Warn.to_tracing_level(), tracing::Level::WARN);
    assert_eq!(LogLevel::Error.to_tracing_level(), tracing::Level::ERROR);
    assert_eq!(LogLevel::Fatal.to_tracing_level(), tracing::Level::ERROR);
}

#[test]
fn anonymous_agents_are_numbered() {
    let runtime = AgentRuntime::new(RuntimeOptions::default(), 42, &id_of_name);
    assert!(runtime.is_anonymous_character());
    assert_eq!(runtime.character.name, "Agent-42");
    assert!(matches!(&runtime.character.bio, Bio::Single(t) if t == "An anonymous agent"));
    assert_eq!(runtime.agent_id.as_str(), "id-of-Agent-42");
    assert!(runtime.capability_options.skip_character_provider);
    assert!(!runtime.enable_autonomy());
    assert!(!runtime.initialized);
}

#[test]
fn anonymous_names_are_different() {
    let names: Vec<String> = (0..120)
        .map(|n| AgentRuntime::new(RuntimeOptions::default(), n, &id_of_name).character.name)
        .collect();
    for i in 0..names.len() {
        for j in 0..i {
            assert_ne!(names[i], names[j]);
        }
    }
}

#[test]
fn characters_are_copied() {
    let character = Character {
        id: Some(UUID { value: "i".to_string() }),
        name: "n".to_string(),
        bio: Bio::Multiple(vec!["a".to_string(), "b".to_string()]),
        secrets: Some(values(r#"{"s":1}"#)),
        settings: None,
        style_all: Some(vec!["x".to_string()]),
        advanced_planning: Some(true),
        advanced_memory: None,
    };
    let same = character.copy();
    assert_eq!(same.id.unwrap().as_str(), "i");
    assert_eq!(same.name, "n");
    assert!(matches!(&same.bio, Bio::Multiple(v) if v == &vec!["a".to_string(), "b".to_string()]));
    assert_eq!(same.secrets.unwrap().get("s").unwrap().as_i64(), Some(1));
    assert!(same.settings.is_none());
    assert_eq!(same.style_all, Some(vec!["x".to_string()]));
    assert_eq!(same.advanced_planning, Some(true));
}

#[test]
fn integers_among_the_settings_count() {
    let runtime = runtime_with(RuntimeOptions {
        character: Some(Character {
            secrets: Some(values(r#"{"n":-7,"big":18446744073709551615}"#)),
            ..Default::default()
        }),
        ..Default::default()
    });
    assert!(matches!(
        runtime.get_setting("n", &open_sealed),
        Some(SettingValue::Number(SettingNumber::Finite(d))) if d.as_str() == "-7.0"
    ));
    assert!(runtime.get_setting("big", &open_sealed).is_some());
}

#[test]
fn agent_id_of_character_goes_first() {
    let own = UUID { value: "own".to_string() };
    let given = UUID { value: "given".to_string() };
    let both = runtime_with(RuntimeOptions {
        character: Some(Character { id: Some(own), ..Default::default() }),
        agent_id: Some(given.copy()),
        ..Default::default()
    });
    assert_eq!(both.agent_id.as_str(), "own");
    let one = runtime_with(RuntimeOptions {
        character: Some(Character::default()),
        agent_id: Some(given),
        ..Default::default()
    });
    assert_eq!(one.agent_id.as_str(), "given");
    assert!(!one.is_anonymous_character());
    assert!(!one.capability_options.skip_character_provider);
}

fn values(json: &str) -> StringMap<JsonValue> {
    match parse_json(json) {
        Some(JsonValue::Object(m)) => m,
        _ => panic!("no object"),
    }
}

#[test]
fn settings_are_looked_up_in_order() {
    let mut own = StringMap::new();
    for key in ["a", "b", "c", "d"] {
        own.insert(key.to_string(), text("runtime"));
    }
    let runtime = runtime_with(RuntimeOptions {
        character: Some(Character {
            secrets: Some(values(r#"{"a":"secret","b":[1],"e":{}}"#)),
            settings: Some(values(
                r#"{"a":"settings","b":"settings","e":[],"secrets":{"b":"nested","c":"nested","e":"nested"}}"#,
            )),
            ..Default::default()
        }),
        settings: Some(RuntimeSettings { values: own }),
        ..Default::default()
    });
    assert!(is_text(&runtime.get_setting("a", &open_sealed), "secret"));
    assert!(is_text(&runtime.get_setting("b", &open_sealed), "settings"));
    assert!(is_text(&runtime.get_setting("c", &open_sealed), "nested"));
    assert!(is_text(&runtime.get_setting("d", &open_sealed), "runtime"));
    assert!(is_text(&runtime.get_setting("e", &open_sealed), "nested"));
    assert!(runtime.get_setting("f", &open_sealed).is_none());
    assert!(runtime.get_setting("secrets", &open_sealed).is_none());
}

#[test]
fn secret_hides_setting_and_others_stay() {
    let mut runtime = runtime_with(RuntimeOptions::default());
    runtime.set_setting("other", &text("kept"), false);
    runtime.set_setting("key", &text("plain"), false);
    runtime.set_setting("key", &text("hidden"), true);
    assert!(is_text(&runtime.get_setting("key", &open_sealed), "hidden"));
    runtime.set_setting("key", &text("plain again"), false);
    assert!(is_text(&runtime.get_setting("key", &open_sealed), "hidden"));
    assert!(is_text(&runtime.get_setting("other", &open_sealed), "kept"));
    runtime.set_setting("flag", &SettingValue::Bool(true), true);
    assert!(matches!(runtime.get_setting("flag", &open_sealed), Some(SettingValue::Bool(true))));
    runtime.set_setting("none", &SettingValue::Null, false);
    assert!(matches!(runtime.get_setting("none", &open_sealed), Some(SettingValue::Null)));
    runtime.set_setting("wide", &SettingValue::Number(SettingNumber::Infinity), false);
    assert!(matches!(runtime.get_setting("wide", &open_sealed), Some(SettingValue::Null)));
}

#[test]
fn options_go_before_settings() {
    let mut runtime = runtime_with(RuntimeOptions {
        action_planning: Some(true),
        check_should_respond: Some(false),
        llm_mode: Some(LLMMode::Small),
        ..Default::default()
    });
    runtime.set_setting("ACTION_PLANNING", &text("false"), false);
    runtime.set_setting("CHECK_SHOULD_RESPOND", &text("true"), false);
    runtime.set_setting("LLM_MODE", &text("LARGE"), false);
    assert!(runtime.is_action_planning_enabled(&open_sealed));
    assert!(!runtime.is_check_should_respond_enabled(&open_sealed));
    assert_eq!(runtime.get_llm_mode(&open_sealed, &parse_mode), LLMMode::Small);
}

#[test]
fn settings_decide_without_options() {
    let mut runtime = runtime_with(RuntimeOptions::default());
    assert!(runtime.is_action_planning_enabled(&open_sealed));
    assert!(runtime.is_check_should_respond_enabled(&open_sealed));
    assert_eq!(runtime.get_llm_mode(&open_sealed, &parse_mode), LLMMode::Default);
    runtime.set_setting("ACTION_PLANNING", &text("TRUE"), false);
    runtime.set_setting("CHECK_SHOULD_RESPOND", &text("FALSE"), false);
    runtime.set_setting("LLM_MODE", &text(&seal("LARGE")), true);
    assert!(runtime.is_action_planning_enabled(&open_sealed));
    assert!(!runtime.is_check_should_respond_enabled(&open_sealed));
    assert_eq!(runtime.get_llm_mode(&open_sealed, &parse_mode), LLMMode::Large);
    runtime.set_setting("ACTION_PLANNING", &text("yes"), false);
    runtime.set_setting("CHECK_SHOULD_RESPOND", &text("no"), false);
    assert!(!runtime.is_action_planning_enabled(&open_sealed));
    assert!(runtime.is_check_should_respond_enabled(&open_sealed));
}

#[test]
fn decisions_on_given_settings() {
    assert!(decide_planning(None, None));
    assert!(decide_planning(None, Some(SettingValue::Null)));
    assert!(!decide_planning(None, Some(SettingValue::Bool(false))));
    assert!(decide_planning(None, Some(text("True"))));
    assert!(!decide_planning(None, Some(text("on"))));
    assert!(!decide_planning(Some(false), Some(text("true"))));
    assert!(decide_responding(None, Some(text("on"))));
    assert!(!decide_responding(None, Some(text("False"))));
    assert!(!decide_responding(None, Some(SettingValue::Bool(false))));
    assert!(decide_responding(Some(true), Some(SettingValue::Bool(false))));
    assert_eq!(decide_mode(Some(text("SMALL")), &parse_mode), LLMMode::Small);
    assert_eq!(decide_mode(Some(SettingValue::Bool(true)), &parse_mode), LLMMode::Default);
    assert_eq!(decide_mode(None, &parse_mode), LLMMode::Default);
}

#[test]
fn capabilities_by_options_and_settings() {
    let mut runtime = runtime_with(RuntimeOptions {
        disable_basic_capabilities: Some(false),
        ..Default::default()
    });
    runtime.set_setting("DISABLE_BASIC_CAPABILITIES", &text("true"), false);
    runtime.set_setting("ENABLE_EXTENDED_CAPABILITIES", &text(" Yes "), false);
    runtime.set_setting("ENABLE_AUTONOMY", &text("1"), false);
    let config = runtime.initialize(&open_sealed);
    assert_eq!(
        config,
        CapabilityConfig {
            disable_basic: false,
            advanced_capabilities: true,
            enable_autonomy: true,
            skip_character_provider: true,
        }
    );
    assert!(runtime.enable_autonomy());
    runtime.set_enable_autonomy(false);
    assert!(!runtime.enable_autonomy());
}

fn plugin(name: &str, first: u64, models: &[(&str, u64)]) -> Plugin {
    let mut model_handlers = StringMap::new();
    for (model, id) in models {
        model_handlers.insert(model.to_string(), handle(*id));
    }
    Plugin {
        name: name.to_string(),
        action_handlers: vec![handle(first), handle(first + 1)],
        provider_handlers: vec![handle(first + 2)],
        evaluator_handlers: vec![handle(first + 3)],
        model_handlers,
    }
}

#[test]
fn initialization_goes_through_all_stages() {
    let mut runtime = runtime_with(RuntimeOptions {
        character: Some(Character {
            name: "All".to_string(),
            style_all: Some(vec!["brief".to_string(), "Advanced_Planning".to_string()]),
            advanced_memory: Some(true),
            ..Default::default()
        }),
        plugins: vec![plugin("p", 10, &[("M", 1)])],
        adapter: Some(handle(99)),
        enable_autonomy: Some(true),
        ..Default::default()
    });
    assert_eq!(
        initialize(&mut runtime),
        vec![
            InitStage::Bootstrap,
            InitStage::Planning,
            InitStage::Memory,
            InitStage::Autonomy,
            InitStage::Plugins,
            InitStage::Database,
        ]
    );
    assert!(runtime.initialized);
    assert!(runtime.initial_plugins.is_empty());
    assert_eq!(runtime.plugins.len(), 1);
    let (services, adapter) = runtime.stop();
    assert_eq!(services, vec![handle(3), handle(2), handle(1)]);
    assert_eq!(adapter, Some(handle(99)));
}

#[test]
fn initialization_skips_what_is_not_wanted() {
    let mut runtime = runtime_with(RuntimeOptions {
        character: Some(Character {
            advanced_planning: Some(false),
            style_all: Some(vec!["ADVANCED_PLANNING".to_string()]),
            ..Default::default()
        }),
        ..Default::default()
    });
    assert_eq!(initialize(&mut runtime), vec![InitStage::Bootstrap, InitStage::Plugins]);
    assert!(runtime.initialized);
}

#[test]
fn plugins_add_their_handlers() {
    let mut runtime = runtime_with(RuntimeOptions::default());
    runtime.register_model("B", handle(7));
    runtime.register_model("C", handle(8));
    runtime.register_plugin(plugin("one", 10, &[("A", 1), ("B", 2)]));
    runtime.register_plugin(plugin("two", 20, &[("A", 3)]));
    assert_eq!(runtime.actions, vec![handle(10), handle(11), handle(20), handle(21)]);
    assert_eq!(runtime.providers, vec![handle(12), handle(22)]);
    assert_eq!(runtime.evaluators, vec![handle(13), handle(23)]);
    assert_eq!(runtime.model_handlers.get("A"), Some(&handle(3)));
    assert_eq!(runtime.model_handlers.get("B"), Some(&handle(2)));
    assert_eq!(runtime.model_handlers.get("C"), Some(&handle(8)));
    assert_eq!(runtime.plugins.len(), 2);
    assert_eq!(runtime.plugins[0].name, "one");
    assert!(runtime.plugins[0].model_handlers.is_empty());
}

#[test]
fn services_workers_and_events_are_found() {
    let mut runtime = runtime_with(RuntimeOptions::default());
    runtime.register_service("s", handle(1));
    runtime.register_service("s", handle(2));
    assert_eq!(runtime.get_service("s"), Some(handle(2)));
    assert_eq!(runtime.get_service("t"), None);
    assert!(!runtime.register_task_worker("w", handle(3)));
    assert!(runtime.register_task_worker("w", handle(4)));
    assert_eq!(runtime.get_task_worker("w"), Some(handle(4)));
    assert!(runtime.has_task_worker("w"));
    assert!(!runtime.has_task_worker("v"));
    assert_eq!(runtime.get_task_worker("v"), None);
    runtime.register_event("Started", handle(5));
    runtime.register_event("Ended", handle(6));
    runtime.register_event("Started", handle(7));
    assert_eq!(runtime.emit_event("Started"), vec![handle(5), handle(7)]);
    assert_eq!(runtime.emit_event("Ended"), vec![handle(6)]);
    assert!(runtime.emit_event("Other").is_empty());
    runtime.register_streaming_model("X", handle(9));
    assert_eq!(runtime.streaming_model_handlers.get("X"), Some(&handle(9)));
    assert_eq!(runtime.get_adapter(), None);
}

#[test]
fn runs_are_kept_until_they_end() {
    let mut runtime = runtime_with(RuntimeOptions::default());
    let room = UUID { value: "room".to_string() };
    let run = runtime.start_run(Some(&room));
    assert_eq!(runtime.get_current_run_id().as_str(), run.as_str());
    assert_eq!(runtime.get_current_room_id().unwrap().as_str(), "room");
    runtime.end_run();
    assert!(runtime.get_current_room_id().is_none());
    let next = runtime.get_current_run_id();
    assert_ne!(next.as_str(), run.as_str());
    assert_eq!(runtime.get_current_run_id().as_str(), next.as_str());
    assert!(runtime.get_current_room_id().is_none());
}
