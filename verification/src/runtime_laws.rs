//! Laws of the runtime.
use vstd::prelude::*;
use crate::json::Json;
use crate::character::{feature_on, style_texts};
use crate::character::Character;
use crate::letters::{ascii_lower, case_by_letters, lowercase, same_but_ascii_case};
use crate::models::LLMMode;
use crate::rewrite::texts;
use crate::runtime::{capability, found, handlers_of, has_registered, may_be_mode, planning_by, responding_by};
use crate::runtime::{AgentRuntime, CapabilityConfig, Handle, InitAction, InitStage, Plugin};
use crate::settings::{is_truthy, json_of_setting, nested_secrets, optional_entries, reads_as, set_secret_is_found};
use crate::settings::{stored_is_read, stored_setting};
use crate::settings::{set_secret_keeps_others, set_setting_is_found, set_setting_keeps_others};
use crate::settings::{setting_entries, setting_in, setting_survives_json, Setting};
use crate::string_map::{in_order, order_exists};
use crate::supply::may_give;

verus! {

broadcast use vstd::seq_lib::group_seq_properties;

// ---------------------------------------------------------------------------
// Settings
// ---------------------------------------------------------------------------
/// What a setting is once it was set: itself, but a number that is not finite is
/// null.
pub open spec fn once_set(value: Setting) -> Setting {
    if value is Number && !(value->Number_0 is Finite) {
        Setting::Null
    } else {
        value
    }
}

/// A setting that was set is read: a text as what it decrypts to, anything else as
/// itself. A setting that is no secret is read unless a secret has its key.
pub proof fn set_setting_is_read<D: Fn(&String) -> String>(
    before: AgentRuntime,
    after: AgentRuntime,
    key: Seq<char>,
    value: Setting,
    secret: bool,
    decrypt: D,
    read: Option<Setting>,
)
    requires
        before.has_set(after, key, value, secret),
        secret || setting_in(
            optional_entries(before.character.secrets).unwrap_or(Map::empty()),
            key,
        ) is None,
        after.may_read(key, decrypt, read),
    ensures
        after.stored(key) == Some(once_set(value)),
        read is Some,
        reads_as(decrypt, once_set(value), read->Some_0),
        !(value is String) ==> read == Some(once_set(value)),
{
    let secrets = optional_entries(before.character.secrets);
    let settings = optional_entries(before.character.settings);
    let own = setting_entries(before.settings.values@);
    setting_survives_json(value);
    if secret {
        set_secret_is_found(secrets, settings, own, key, value);
    } else {
        set_setting_is_found(secrets, settings, own, key, value);
    }
}

/// Setting a setting leaves every other one as it was, unless it takes the place of
/// the secrets inside the settings.
pub proof fn set_setting_keeps_the_others(
    before: AgentRuntime,
    after: AgentRuntime,
    key: Seq<char>,
    value: Setting,
    secret: bool,
    other: Seq<char>,
)
    requires
        before.has_set(after, key, value, secret),
        other != key,
        secret || key != "secrets"@ || nested_secrets(
            optional_entries(before.character.settings).unwrap_or(Map::empty()),
        ) == Map::<Seq<char>, Json>::empty(),
    ensures
        after.stored(other) == before.stored(other),
{
    let secrets = optional_entries(before.character.secrets);
    let settings = optional_entries(before.character.settings);
    let own = setting_entries(before.settings.values@);
    if secret {
        set_secret_keeps_others(secrets, settings, own, key, value, other);
    } else {
        set_setting_keeps_others(secrets, settings, own, key, value, other);
    }
}

// ---------------------------------------------------------------------------
// What is registered
// ---------------------------------------------------------------------------
/// What was registered last under a name is found under it, and registering it
/// changes nothing under any other name.
pub proof fn registered_is_found(m: Map<Seq<char>, Handle>, name: Seq<char>, handle: Handle, other: Seq<char>)
    ensures
        found(m.insert(name, handle), name) == Some(handle),
        other != name ==> found(m.insert(name, handle), other) == found(m, other),
{
}

/// The models of a plugin take the place of those with the same names, and all
/// others stay.
pub proof fn plugin_models_win(models: Map<Seq<char>, Handle>, added: Map<Seq<char>, Handle>, name: Seq<char>)
    ensures
        added.contains_key(name) ==> found(models.union_prefer_right(added), name) == Some(
            added[name],
        ),
        !added.contains_key(name) ==> found(models.union_prefer_right(added), name) == found(
            models,
            name,
        ),
{
}

/// Every service that is registered is stopped.
pub proof fn every_service_is_stopped(services: Map<Seq<char>, Handle>, name: Seq<char>)
    requires
        services.dom().finite(),
        services.contains_key(name),
    ensures
        in_order(services.dom()).map_values(|n: Seq<char>| services[n]).contains(services[name]),
{
    order_exists(services.dom());
    let names = in_order(services.dom());
    let stopped = names.map_values(|n: Seq<char>| services[n]);
    assert(names.contains(name));
    let i = choose|i: int| 0 <= i < names.len() && names[i] == name;
    assert(stopped[i] == services[name]);
}

// ---------------------------------------------------------------------------
// Initializing
// ---------------------------------------------------------------------------
/// What the options say of a capability goes before what the settings say.
pub proof fn options_go_before_settings<D: Fn(&String) -> String>(
    runtime: AgentRuntime,
    decrypt: D,
    config: CapabilityConfig,
)
    requires
        runtime.may_be_config(decrypt, config),
    ensures
        runtime.capability_options.disable_basic matches Some(b) ==> config.disable_basic == b,
        runtime.capability_options.enable_extended matches Some(b) ==> config.advanced_capabilities == b,
        runtime.capability_options.enable_autonomy matches Some(b) ==> config.enable_autonomy == b,
{
}

/// How far a stage is.
pub open spec fn rank(stage: InitStage) -> int {
    match stage {
        InitStage::Bootstrap => 0,
        InitStage::Planning => 1,
        InitStage::Memory => 2,
        InitStage::Autonomy => 3,
        InitStage::Plugins => 4,
        InitStage::Database => 5,
    }
}

/// Initializing goes forward only, so it comes to an end and does nothing twice.
pub proof fn stages_go_forward(runtime: AgentRuntime, stage: InitStage, autonomy: bool)
    ensures
        runtime.next_stage(stage, autonomy) matches Some(next) ==> rank(stage) < rank(next),
{
}

/// Planning, memory and autonomy are started where they are wanted, and not
/// otherwise.
pub proof fn features_are_gated(runtime: AgentRuntime, stage: InitStage, autonomy: bool)
    ensures
        runtime.next_stage(InitStage::Bootstrap, autonomy) == Some(InitStage::Planning)
            <==> runtime.wants_planning(),
        runtime.next_stage(stage, autonomy) == Some(InitStage::Planning) ==> runtime.wants_planning(),
        runtime.next_stage(InitStage::Planning, autonomy) == Some(InitStage::Memory)
            <==> runtime.wants_memory(),
        runtime.next_stage(stage, autonomy) == Some(InitStage::Memory) ==> runtime.wants_memory(),
        runtime.next_stage(InitStage::Memory, autonomy) == Some(InitStage::Autonomy) <==> autonomy,
        runtime.next_stage(stage, autonomy) == Some(InitStage::Autonomy) ==> autonomy,
{
}

/// The plugins are registered in every case, and before the database is
/// initialized.
pub proof fn plugins_come_before_database(runtime: AgentRuntime, stage: InitStage, autonomy: bool)
    ensures
        rank(stage) < rank(InitStage::Plugins) ==> (runtime.next_stage(stage, autonomy) matches Some(
            n,
        ) && rank(n) <= rank(InitStage::Plugins)),
        runtime.next_stage(stage, autonomy) == Some(InitStage::Database) <==> stage
            == InitStage::Plugins && runtime.adapter is Some,
{
}

/// Going on from `stage`, step by step, `target` is reached.
pub open spec fn reaches(runtime: AgentRuntime, stage: InitStage, autonomy: bool, target: InitStage, steps: nat) -> bool
    decreases steps,
{
    steps > 0 && match runtime.next_stage(stage, autonomy) {
        Some(next) => next == target || reaches(runtime, next, autonomy, target, (steps - 1) as nat),
        None => false,
    }
}

/// Initializing starts what is wanted and nothing else, in every combination: planning
/// and memory each by itself, whether or not the other is wanted, and autonomy where the
/// agent acts by itself; the plugins in every case, and the database where there is one.
pub proof fn each_feature_is_started_where_wanted(runtime: AgentRuntime, autonomy: bool)
    ensures
        reaches(runtime, InitStage::Bootstrap, autonomy, InitStage::Planning, 5)
            <==> runtime.wants_planning(),
        reaches(runtime, InitStage::Bootstrap, autonomy, InitStage::Memory, 5)
            <==> runtime.wants_memory(),
        reaches(runtime, InitStage::Bootstrap, autonomy, InitStage::Autonomy, 5) <==> autonomy,
        reaches(runtime, InitStage::Bootstrap, autonomy, InitStage::Plugins, 5),
        reaches(runtime, InitStage::Bootstrap, autonomy, InitStage::Database, 5)
            <==> runtime.adapter is Some,
        runtime.next_stage(InitStage::Bootstrap, autonomy) == Some(InitStage::Memory)
            <==> !runtime.wants_planning() && runtime.wants_memory(),
        runtime.next_stage(InitStage::Bootstrap, autonomy) == Some(InitStage::Autonomy)
            <==> !runtime.wants_planning() && !runtime.wants_memory() && autonomy,
        runtime.next_stage(InitStage::Planning, autonomy) == Some(InitStage::Autonomy)
            <==> !runtime.wants_memory() && autonomy,
{
    reveal_with_fuel(reaches, 6);
}

/// What is started first does not come back: from each stage on only later ones are
/// reached, and each of those that are wanted.
pub proof fn later_features_are_still_started(runtime: AgentRuntime, autonomy: bool)
    ensures
        reaches(runtime, InitStage::Planning, autonomy, InitStage::Memory, 4) <==> runtime.wants_memory(),
        reaches(runtime, InitStage::Planning, autonomy, InitStage::Autonomy, 4) <==> autonomy,
        reaches(runtime, InitStage::Memory, autonomy, InitStage::Autonomy, 3) <==> autonomy,
        reaches(runtime, InitStage::Autonomy, autonomy, InitStage::Plugins, 2),
        runtime.next_stage(InitStage::Database, autonomy) is None,
        runtime.adapter is None ==> runtime.next_stage(InitStage::Plugins, autonomy) is None,
{
    reveal_with_fuel(reaches, 5);
}

/// Planning and memory are wanted where the character says so, by its flag, and where it
/// has none by the word among its styles, in whatever case.
pub proof fn character_decides_features(runtime: AgentRuntime)
    ensures
        runtime.character.advanced_planning matches Some(b) ==> runtime.wants_planning() == b,
        runtime.character.advanced_memory matches Some(b) ==> runtime.wants_memory() == b,
        runtime.character.advanced_planning is None ==> (runtime.wants_planning() <==> has_word(
            runtime,
            "ADVANCED_PLANNING"@,
        )),
        runtime.character.advanced_memory is None ==> (runtime.wants_memory() <==> has_word(
            runtime,
            "ADVANCED_MEMORY"@,
        )),
{
    style_is_word(runtime, "ADVANCED_PLANNING"@);
    style_is_word(runtime, "ADVANCED_MEMORY"@);
}

/// A word is one of the styles of the character, but for its case.
pub open spec fn has_word(runtime: AgentRuntime, word: Seq<char>) -> bool {
    runtime.character.style_all matches Some(v) && exists|i: int|
        0 <= i < v@.len() && (#[trigger] v@[i])@.len() == word.len() && forall|k: int|
            0 <= k < word.len() ==> ascii_lower(v@[i]@[k]) == ascii_lower(#[trigger] word[k])
}

proof fn style_is_word(runtime: AgentRuntime, word: Seq<char>)
    ensures
        feature_on(None, style_texts(runtime.character.style_all), word) <==> has_word(runtime, word),
{
    if runtime.character.style_all is Some {
        let v = runtime.character.style_all->Some_0;
        let s = texts(v@);
        if feature_on(None, Some(s), word) {
            let i = choose|i: int| 0 <= i < s.len() && same_but_ascii_case(#[trigger] s[i], word);
            case_by_letters(s[i], word);
            assert(v@[i]@ == s[i]);
        }
        if has_word(runtime, word) {
            let i = choose|i: int|
                0 <= i < v@.len() && (#[trigger] v@[i])@.len() == word.len() && forall|k: int|
                    0 <= k < word.len() ==> ascii_lower(v@[i]@[k]) == ascii_lower(#[trigger] word[k]);
            assert(v@[i]@ == s[i]);
            case_by_letters(s[i], word);
        }
    }
}

/// A text that was set and decrypts to nothing but itself is read as it was set, whatever
/// it holds, unless it is "true" or "false".
pub proof fn set_text_is_read_unchanged<D: Fn(&String) -> String>(
    before: AgentRuntime,
    after: AgentRuntime,
    key: Seq<char>,
    text: Seq<char>,
    secret: bool,
    decrypt: D,
    read: Option<Setting>,
)
    requires
        before.has_set(after, key, Setting::String(text), secret),
        secret || setting_in(
            optional_entries(before.character.secrets).unwrap_or(Map::empty()),
            key,
        ) is None,
        forall|plain: Seq<char>| #[trigger] may_give(decrypt, text, plain) ==> plain == text,
        after.may_read(key, decrypt, read),
        text != "true"@,
        text != "false"@,
    ensures
        read == Some(Setting::String(text)),
{
    set_setting_is_read(before, after, key, Setting::String(text), secret, decrypt, read);
    stored_is_read(decrypt, text, text, Setting::String(text), read->Some_0);
}

/// The options decide by themselves; where they say nothing, a truth value or a text
/// decides, and planning and responding are on where nothing is said.
pub proof fn options_then_settings_decide(on: bool, setting: Option<Setting>, text: Seq<char>)
    ensures
        planning_by(Some(on), setting) == on,
        responding_by(Some(on), setting) == on,
        capability(Some(on), setting) == on,
        planning_by(None, Some(Setting::Bool(on))) == on,
        responding_by(None, Some(Setting::Bool(on))) == on,
        planning_by(None, Some(Setting::String(text))) <==> lowercase(text) == "true"@,
        responding_by(None, Some(Setting::String(text))) <==> lowercase(text) != "false"@,
        !(setting matches Some(Setting::Bool(_))) && !(setting matches Some(Setting::String(_)))
            ==> planning_by(None, setting) && responding_by(None, setting),
        capability(None, setting) == is_truthy(setting),
{
}

/// Whatever the settings may be read as, what decides on planning, responding and the
/// mode of the models is what the options say, where they say something.
pub proof fn mode_of_options_is_kept<D: Fn(&String) -> String, P: Fn(&String) -> LLMMode>(
    runtime: AgentRuntime,
    decrypt: D,
    parse: P,
    mode: LLMMode,
    planning: bool,
)
    ensures
        runtime.llm_mode_option matches Some(m) ==> (runtime.may_have_mode(decrypt, parse, mode) <==> mode
            == m),
        runtime.llm_mode_option is None && runtime.stored("LLM_MODE"@) is None ==> (runtime.may_have_mode(
            decrypt,
            parse,
            mode,
        ) <==> mode == LLMMode::Default),
        runtime.action_planning_option matches Some(b) ==> (runtime.may_plan(decrypt, planning)
            <==> planning == b),
        runtime.action_planning_option is None && runtime.stored("ACTION_PLANNING"@) is None ==> (
        runtime.may_plan(decrypt, planning) <==> planning),
{
    assert(runtime.stored("LLM_MODE"@) is None ==> runtime.may_read("LLM_MODE"@, decrypt, None));
    assert(runtime.stored("ACTION_PLANNING"@) is None ==> runtime.may_read(
        "ACTION_PLANNING"@,
        decrypt,
        None,
    ));
}

/// Setting a setting changes nothing of the runtime but the settings or the secrets of its
/// character, and of those only what stands under the key.
pub proof fn setting_changes_nothing_else(
    before: AgentRuntime,
    after: AgentRuntime,
    key: Seq<char>,
    value: Setting,
    secret: bool,
)
    requires
        before.has_set(after, key, value, secret),
    ensures
        after == (AgentRuntime {
            character: Character {
                secrets: after.character.secrets,
                settings: after.character.settings,
                ..before.character
            },
            ..before
        }),
        secret ==> after.character.settings == before.character.settings,
        !secret ==> after.character.secrets == before.character.secrets,
        secret ==> (optional_entries(after.character.secrets) matches Some(m) && m.remove(key)
            == optional_entries(before.character.secrets).unwrap_or(Map::empty()).remove(key)),
        !secret ==> (optional_entries(after.character.settings) matches Some(m) && m.remove(key)
            == optional_entries(before.character.settings).unwrap_or(Map::empty()).remove(key)),
{
    let none = Map::<Seq<char>, Json>::empty();
    let old_secrets = optional_entries(before.character.secrets).unwrap_or(none);
    let old_settings = optional_entries(before.character.settings).unwrap_or(none);
    assert(old_secrets.insert(key, json_of_setting(value)).remove(key) =~= old_secrets.remove(key));
    assert(old_settings.insert(key, json_of_setting(value)).remove(key) =~= old_settings.remove(key));
}

/// What is stored of a setting, and what it is read as: of the three places of the
/// character and then of the runtime itself, and a value that is no text as it is.
pub proof fn stored_settings_are_read<D: Fn(&String) -> String>(
    runtime: AgentRuntime,
    key: Seq<char>,
    decrypt: D,
    read: Option<Setting>,
)
    ensures
        runtime.stored(key) == stored_setting(
            optional_entries(runtime.character.secrets),
            optional_entries(runtime.character.settings),
            setting_entries(runtime.settings.values@),
            key,
        ),
        runtime.stored(key) is None ==> (runtime.may_read(key, decrypt, read) <==> read is None),
        runtime.stored(key) matches Some(s) ==> (!(s is String) ==> (runtime.may_read(key, decrypt, read)
            <==> read == Some(s))),
        runtime.stored(key) matches Some(Setting::String(text)) ==> (runtime.may_read(key, decrypt, read)
            ==> exists|plain: Seq<char>| #[trigger]
            may_give(decrypt, text, plain) && (read == Some(Setting::String(plain)) || (read == Some(
                Setting::Bool(true),
            ) && plain == "true"@) || (read == Some(Setting::Bool(false)) && plain == "false"@))),
{
    if runtime.stored(key) is Some && runtime.may_read(key, decrypt, read) {
        let s = runtime.stored(key)->Some_0;
        if s is String {
            stored_is_read(decrypt, s->String_0, s->String_0, s, read->Some_0);
        }
    }
}

/// A capability that the options leave open is as its setting says: switched on by it, or
/// off where there is none.
pub proof fn capabilities_follow_settings<D: Fn(&String) -> String>(
    runtime: AgentRuntime,
    decrypt: D,
    config: CapabilityConfig,
    on: bool,
)
    requires
        runtime.may_be_config(decrypt, config),
    ensures
        runtime.capability_options.disable_basic is None ==> {
            &&& runtime.stored("DISABLE_BASIC_CAPABILITIES"@) is None ==> !config.disable_basic
            &&& runtime.stored("DISABLE_BASIC_CAPABILITIES"@) == Some(Setting::Bool(on))
                ==> config.disable_basic == on
        },
        runtime.capability_options.enable_extended is None ==> {
            &&& runtime.stored("ENABLE_EXTENDED_CAPABILITIES"@) is None ==> !config.advanced_capabilities
            &&& runtime.stored("ENABLE_EXTENDED_CAPABILITIES"@) == Some(Setting::Bool(on))
                ==> config.advanced_capabilities == on
        },
        runtime.capability_options.enable_autonomy is None ==> {
            &&& runtime.stored("ENABLE_AUTONOMY"@) is None ==> !config.enable_autonomy
            &&& runtime.stored("ENABLE_AUTONOMY"@) == Some(Setting::Bool(on)) ==> config.enable_autonomy == on
        },
        config.skip_character_provider == runtime.capability_options.skip_character_provider,
{
}

/// The handlers of an event are those that were registered for it, and none where none
/// were; what a name stands for is what was registered under it.
pub proof fn events_have_their_handlers(
    events: Map<Seq<char>, Vec<Handle>>,
    event: Seq<char>,
    handlers: Vec<Handle>,
    m: Map<Seq<char>, Handle>,
    name: Seq<char>,
)
    ensures
        handlers_of(events.insert(event, handlers), event) == handlers@,
        handlers_of(events.remove(event), event) == Seq::<Handle>::empty(),
        found(m.remove(name), name) is None,
{
}

/// A text stands for the mode that is parsed from just that text, and any other setting
/// for none.
pub proof fn mode_is_parsed_from_the_text<P: Fn(&String) -> LLMMode>(
    setting: Option<Setting>,
    word: Seq<char>,
    parse: P,
    mode: LLMMode,
)
    ensures
        may_be_mode(Some(Setting::String(word)), parse, mode) <==> exists|w: String|
            w@ == word && #[trigger] call_ensures(parse, (&w,), mode),
        !(setting matches Some(Setting::String(_))) ==> (may_be_mode(setting, parse, mode) <==> mode
            == LLMMode::Default),
{
}

/// What decides on a capability, on planning and on the mode, where the options say
/// nothing, is what the setting of its name may be read as.
pub proof fn settings_of_their_names_decide<D: Fn(&String) -> String, P: Fn(&String) -> LLMMode>(
    runtime: AgentRuntime,
    decrypt: D,
    parse: P,
    config: CapabilityConfig,
    planning: bool,
    mode: LLMMode,
)
    ensures
        runtime.may_be_config(decrypt, config) && runtime.capability_options.disable_basic is None ==> exists|
            read: Option<Setting>,
        | #[trigger]
            runtime.may_read("DISABLE_BASIC_CAPABILITIES"@, decrypt, read) && config.disable_basic
                == is_truthy(read),
        runtime.may_be_config(decrypt, config) && runtime.capability_options.enable_extended is None
            ==> exists|read: Option<Setting>| #[trigger]
            runtime.may_read("ENABLE_EXTENDED_CAPABILITIES"@, decrypt, read) && config.advanced_capabilities
                == is_truthy(read),
        runtime.may_be_config(decrypt, config) && runtime.capability_options.enable_autonomy is None
            ==> exists|read: Option<Setting>| #[trigger]
            runtime.may_read("ENABLE_AUTONOMY"@, decrypt, read) && config.enable_autonomy == is_truthy(read),
        runtime.may_plan(decrypt, planning) && runtime.action_planning_option is None ==> exists|
            read: Option<Setting>,
        | #[trigger]
            runtime.may_read("ACTION_PLANNING"@, decrypt, read) && planning == planning_by(None, read),
        runtime.may_have_mode(decrypt, parse, mode) && runtime.llm_mode_option is None ==> exists|
            read: Option<Setting>,
        | #[trigger]
            runtime.may_read("LLM_MODE"@, decrypt, read) && may_be_mode(read, parse, mode),
{
}

/// Each action is asked for exactly where its stage is the next: planning, memory and
/// autonomy where they are wanted, all plugins once, the database where there is one; and
/// the runtime counts as initialized when nothing is left to do, and not before.
pub proof fn actions_follow_the_stages(
    runtime: AgentRuntime,
    after: AgentRuntime,
    stage: InitStage,
    autonomy: bool,
    next: InitStage,
    action: InitAction,
)
    requires
        runtime.goes_on(after, stage, autonomy, next, action),
    ensures
        action is StartPlanning <==> stage == InitStage::Bootstrap && runtime.wants_planning(),
        action is StartMemory <==> runtime.wants_memory() && (stage == InitStage::Planning || stage
            == InitStage::Bootstrap && !runtime.wants_planning()),
        action is StartAutonomy <==> autonomy && (stage == InitStage::Memory || stage
            == InitStage::Planning && !runtime.wants_memory() || stage == InitStage::Bootstrap
            && !runtime.wants_planning() && !runtime.wants_memory()),
        action matches InitAction::RegisterPlugins(p) ==> p@ == runtime.initial_plugins@
            && after.initial_plugins@.len() == 0,
        !(action is RegisterPlugins) ==> after.initial_plugins == runtime.initial_plugins,
        action is InitDatabase <==> stage == InitStage::Plugins && runtime.adapter is Some,
        action matches InitAction::InitDatabase(h) ==> runtime.adapter == Some(h),
        action is Finished <==> stage == InitStage::Database || stage == InitStage::Plugins
            && runtime.adapter is None,
        action is Finished ==> after.initialized,
        !(action is Finished) ==> after.initialized == runtime.initialized,
        after.character == runtime.character && after.adapter == runtime.adapter && after.actions
            == runtime.actions && after.services == runtime.services && after.settings == runtime.settings,
{
}

/// A plugin that was registered has all its handlers in the runtime, behind those that
/// there were and in their order, and its models are the ones that are asked; nothing that
/// was there is lost.
pub proof fn plugin_is_taken_in(before: AgentRuntime, after: AgentRuntime, plugin: Plugin, i: int, name: Seq<char>)
    requires
        before.takes_in(after, plugin),
    ensures
        after.actions@.len() == before.actions@.len() + plugin.action_handlers@.len(),
        0 <= i < before.actions@.len() ==> after.actions@[i] == before.actions@[i],
        0 <= i < plugin.action_handlers@.len() ==> after.actions@[before.actions@.len() + i]
            == plugin.action_handlers@[i],
        after.providers@.len() == before.providers@.len() + plugin.provider_handlers@.len(),
        0 <= i < before.providers@.len() ==> after.providers@[i] == before.providers@[i],
        0 <= i < plugin.provider_handlers@.len() ==> after.providers@[before.providers@.len() + i]
            == plugin.provider_handlers@[i],
        after.evaluators@.len() == before.evaluators@.len() + plugin.evaluator_handlers@.len(),
        0 <= i < before.evaluators@.len() ==> after.evaluators@[i] == before.evaluators@[i],
        0 <= i < plugin.evaluator_handlers@.len() ==> after.evaluators@[before.evaluators@.len() + i]
            == plugin.evaluator_handlers@[i],
        plugin.model_handlers@.contains_key(name) ==> found(after.model_handlers@, name) == Some(
            plugin.model_handlers@[name],
        ),
        !plugin.model_handlers@.contains_key(name) ==> found(after.model_handlers@, name) == found(
            before.model_handlers@,
            name,
        ),
        after.services == before.services && after.events == before.events && after.settings
            == before.settings && after.character == before.character && after.tasks == before.tasks,
{
}

/// What was registered under a name is found under it from then on, until something else
/// is, and what was registered under other names is found as before.
pub proof fn registering_lasts(
    first: Map<Seq<char>, Handle>,
    second: Map<Seq<char>, Handle>,
    third: Map<Seq<char>, Handle>,
    a: Seq<char>,
    x: Handle,
    b: Seq<char>,
    y: Handle,
)
    requires
        has_registered(first, second, a, x),
        has_registered(second, third, b, y),
    ensures
        found(third, b) == Some(y),
        a != b ==> found(third, a) == Some(x),
        forall|other: Seq<char>|
            other != a && other != b ==> #[trigger] found(third, other) == found(first, other),
{
}

/// The handlers of an event are called in the order in which they were registered, and
/// those of other events are not touched.
pub proof fn handlers_come_in_order(
    first: AgentRuntime,
    second: AgentRuntime,
    third: AgentRuntime,
    event: Seq<char>,
    a: Handle,
    b: Handle,
    other: Seq<char>,
)
    requires
        first.has_event(second, event, a),
        second.has_event(third, event, b),
        other != event,
    ensures
        handlers_of(third.events@, event) == handlers_of(first.events@, event) + seq![a, b],
        handlers_of(third.events@, other) == handlers_of(first.events@, other),
        third == (AgentRuntime { events: third.events, ..first }),
{
    assert(handlers_of(first.events@, event).push(a).push(b) =~= handlers_of(first.events@, event) + seq![
        a,
        b,
    ]);
}

}
