//! The runtime of an agent: what it is made of, and what it decides.
use vstd::prelude::*;
use crate::character::{anonymous_character, choose_agent_id, is_feature_on, Bio, Character};
use crate::character::{anonymous_name, feature_on, may_be_agent_id, style_texts};
use crate::clock::UUID;
use crate::json::{json_entries, Json};
use crate::letters::lowercase;
use crate::letters::to_lowercase;
use crate::log_level::LogLevel;
use crate::models::LLMMode;
use crate::settings::{find_setting, normalize_setting_value, parse_truthy_setting};
use crate::settings::{is_truthy, json_of_setting, optional_entries, optional_setting, reads_as};
use crate::settings::{setting_entries, setting_value_to_json_value, stored_setting, Setting};
use crate::settings::{RuntimeSettings, SettingValue};
use crate::string_map::in_order;
use crate::string_map::StringMap;
use crate::supply::takes_all;
use crate::tasks::Task;
use crate::text::same_text;
use crate::trajectory::Logs;
use crate::trajectory::TrajectoryLogs;

verus! {

broadcast use {vstd::seq_lib::group_seq_properties, crate::json::json_value_view};

/// Something that is registered with the runtime and called by whoever drives it:
/// a handler, a service, a worker or a database.
#[derive(Clone, Copy, Debug, PartialEq, Eq, Structural)]
pub struct Handle {
    pub id: u64,
}

/// A number of handlers that are registered together.
pub struct Plugin {
    pub name: String,
    pub action_handlers: Vec<Handle>,
    pub provider_handlers: Vec<Handle>,
    pub evaluator_handlers: Vec<Handle>,
    pub model_handlers: StringMap<Handle>,
}

/// Options for making a runtime.
pub struct RuntimeOptions {
    /// Who the agent is; anonymous if not given.
    pub character: Option<Character>,
    /// The agent's identifier, where its character has none.
    pub agent_id: Option<UUID>,
    /// Plugins to register when the runtime is initialized.
    pub plugins: Vec<Plugin>,
    /// The database.
    pub adapter: Option<Handle>,
    pub settings: Option<RuntimeSettings>,
    pub log_level: LogLevel,
    /// Without the basic capabilities; where not given, the setting
    /// `DISABLE_BASIC_CAPABILITIES` decides.
    pub disable_basic_capabilities: Option<bool>,
    /// With the extended capabilities; where not given, the setting
    /// `ENABLE_EXTENDED_CAPABILITIES` decides.
    pub enable_extended_capabilities: Option<bool>,
    /// More than one action for a message; where not given, the setting
    /// `ACTION_PLANNING` decides.
    pub action_planning: Option<bool>,
    /// Which model takes the place of the one that is asked for; where not given,
    /// the setting `LLM_MODE` decides.
    pub llm_mode: Option<LLMMode>,
    /// Whether to respond is decided for each message; where not given, the
    /// setting `CHECK_SHOULD_RESPOND` decides.
    pub check_should_respond: Option<bool>,
    /// The agent acts by itself; where not given, the setting `ENABLE_AUTONOMY`
    /// decides.
    pub enable_autonomy: Option<bool>,
}

impl Default for RuntimeOptions {
    fn default() -> (r: RuntimeOptions)
        ensures
            r.character is None,
            r.agent_id is None,
            r.plugins@ == Seq::<Plugin>::empty(),
            r.adapter is None,
            r.settings is None,
            r.log_level == LogLevel::Error,
            r.disable_basic_capabilities is None,
            r.enable_extended_capabilities is None,
            r.action_planning is None,
            r.llm_mode is None,
            r.check_should_respond is None,
            r.enable_autonomy is None,
    {
        RuntimeOptions {
            character: None,
            agent_id: None,
            plugins: Vec::new(),
            adapter: None,
            settings: None,
            log_level: LogLevel::Error,
            disable_basic_capabilities: None,
            enable_extended_capabilities: None,
            action_planning: None,
            llm_mode: None,
            check_should_respond: None,
            enable_autonomy: None,
        }
    }
}

/// What the options say of the capabilities.
#[derive(Clone, Copy, Debug, PartialEq, Eq, Structural)]
pub struct CapabilityOptions {
    pub disable_basic: Option<bool>,
    pub enable_extended: Option<bool>,
    pub enable_autonomy: Option<bool>,
    pub skip_character_provider: bool,
}

/// The capabilities of an agent.
#[derive(Clone, Copy, Debug, PartialEq, Eq, Structural)]
pub struct CapabilityConfig {
    pub disable_basic: bool,
    pub advanced_capabilities: bool,
    pub enable_autonomy: bool,
    pub skip_character_provider: bool,
}

/// The runtime of an agent.
pub struct AgentRuntime {
    pub agent_id: UUID,
    pub character: Character,
    pub adapter: Option<Handle>,
    pub actions: Vec<Handle>,
    pub providers: Vec<Handle>,
    pub evaluators: Vec<Handle>,
    /// The plugins that are registered.
    pub plugins: Vec<Plugin>,
    /// The plugins that are registered when the runtime is initialized.
    pub initial_plugins: Vec<Plugin>,
    pub events: StringMap<Vec<Handle>>,
    pub services: StringMap<Handle>,
    pub model_handlers: StringMap<Handle>,
    pub streaming_model_handlers: StringMap<Handle>,
    pub settings: RuntimeSettings,
    pub current_run_id: Option<UUID>,
    pub current_room_id: Option<UUID>,
    pub current_trajectory_step_id: Option<String>,
    pub trajectory_logs: TrajectoryLogs,
    pub initialized: bool,
    pub log_level: LogLevel,
    pub is_anonymous_character: bool,
    pub action_planning_option: Option<bool>,
    pub llm_mode_option: Option<LLMMode>,
    pub check_should_respond_option: Option<bool>,
    pub capability_options: CapabilityOptions,
    pub enable_autonomy: bool,
    pub task_workers: StringMap<Handle>,
    pub tasks: StringMap<Task>,
}

// ---------------------------------------------------------------------------
// Making a runtime
// ---------------------------------------------------------------------------
impl AgentRuntime {
    /// Makes a runtime. An agent without a character is the anonymous agent
    /// number `anonymous_number`; `id_of_name` makes an identifier from a name.
    pub fn new<F: Fn(&String) -> String>(opts: RuntimeOptions, anonymous_number: u64, id_of_name: &F) -> (r: AgentRuntime)
        requires
            takes_all(*id_of_name),
        ensures
            match opts.character {
                Some(c) => r.character == c,
                None => {
                    &&& r.character.id is None
                    &&& r.character.name@ == anonymous_name(anonymous_number as nat)
                    &&& r.character.bio matches Bio::Single(t) && t@ == "An anonymous agent"@
                    &&& r.character.secrets is None
                    &&& r.character.settings is None
                    &&& r.character.style_all is None
                    &&& r.character.advanced_planning is None
                    &&& r.character.advanced_memory is None
                },
            },
            may_be_agent_id(r.character, opts.agent_id, *id_of_name, r.agent_id@),
            r.adapter == opts.adapter,
            r.actions@ == Seq::<Handle>::empty(),
            r.providers@ == Seq::<Handle>::empty(),
            r.evaluators@ == Seq::<Handle>::empty(),
            r.plugins@ == Seq::<Plugin>::empty(),
            r.initial_plugins == opts.plugins,
            r.events@ == Map::<Seq<char>, Vec<Handle>>::empty(),
            r.services@ == Map::<Seq<char>, Handle>::empty(),
            r.model_handlers@ == Map::<Seq<char>, Handle>::empty(),
            r.streaming_model_handlers@ == Map::<Seq<char>, Handle>::empty(),
            match opts.settings {
                Some(s) => r.settings == s,
                None => r.settings.values@ == Map::<Seq<char>, SettingValue>::empty(),
            },
            r.current_run_id is None,
            r.current_room_id is None,
            r.current_trajectory_step_id is None,
            r.trajectory_logs@ == (Logs { provider_access: Seq::empty(), llm_calls: Seq::empty() }),
            !r.initialized,
            r.log_level == opts.log_level,
            r.is_anonymous_character == (opts.character is None),
            r.action_planning_option == opts.action_planning,
            r.llm_mode_option == opts.llm_mode,
            r.check_should_respond_option == opts.check_should_respond,
            r.capability_options == (CapabilityOptions {
                disable_basic: opts.disable_basic_capabilities,
                enable_extended: opts.enable_extended_capabilities,
                enable_autonomy: opts.enable_autonomy,
                skip_character_provider: opts.character is None,
            }),
            r.enable_autonomy == opts.enable_autonomy.unwrap_or(false),
            r.task_workers@ == Map::<Seq<char>, Handle>::empty(),
            r.tasks@ == Map::<Seq<char>, Task>::empty(),
    {
        let anonymous = opts.character.is_none();
        let character = match opts.character {
            Some(c) => c,
            None => anonymous_character(anonymous_number),
        };
        let agent_id = choose_agent_id(&character, opts.agent_id, id_of_name);
        let settings = match opts.settings {
            Some(s) => s,
            None => RuntimeSettings { values: StringMap::new() },
        };
        let autonomy = match opts.enable_autonomy {
            Some(b) => b,
            None => false,
        };
        AgentRuntime {
            agent_id,
            character,
            adapter: opts.adapter,
            actions: Vec::new(),
            providers: Vec::new(),
            evaluators: Vec::new(),
            plugins: Vec::new(),
            initial_plugins: opts.plugins,
            events: StringMap::new(),
            services: StringMap::new(),
            model_handlers: StringMap::new(),
            streaming_model_handlers: StringMap::new(),
            settings,
            current_run_id: None,
            current_room_id: None,
            current_trajectory_step_id: None,
            trajectory_logs: TrajectoryLogs::new(),
            initialized: false,
            log_level: opts.log_level,
            is_anonymous_character: anonymous,
            action_planning_option: opts.action_planning,
            llm_mode_option: opts.llm_mode,
            check_should_respond_option: opts.check_should_respond,
            capability_options: CapabilityOptions {
                disable_basic: opts.disable_basic_capabilities,
                enable_extended: opts.enable_extended_capabilities,
                enable_autonomy: opts.enable_autonomy,
                skip_character_provider: anonymous,
            },
            enable_autonomy: autonomy,
            task_workers: StringMap::new(),
            tasks: StringMap::new(),
        }
    }

    /// Whether the character was made up.
    pub fn is_anonymous_character(&self) -> (r: bool)
        ensures
            r == self.is_anonymous_character,
    {
        self.is_anonymous_character
    }

    /// The log level.
    pub fn log_level(&self) -> (r: LogLevel)
        ensures
            r == self.log_level,
    {
        self.log_level
    }

    /// Whether the agent acts by itself.
    pub fn enable_autonomy(&self) -> (r: bool)
        ensures
            r == self.enable_autonomy,
    {
        self.enable_autonomy
    }

    /// Lets the agent act by itself, or not.
    pub fn set_enable_autonomy(&mut self, enabled: bool)
        ensures
            *final(self) == (AgentRuntime { enable_autonomy: enabled, ..*old(self) }),
    {
        self.enable_autonomy = enabled;
    }

    /// The database.
    pub fn get_adapter(&self) -> (r: Option<Handle>)
        ensures
            r == self.adapter,
    {
        self.adapter
    }

    /// The database.
    pub fn database(&self) -> (r: Option<Handle>)
        ensures
            r == self.adapter,
    {
        self.adapter
    }
}

// ---------------------------------------------------------------------------
// Settings
// ---------------------------------------------------------------------------
/// A setting switches action planning on. The default is on.
pub open spec fn planning_by(option: Option<bool>, setting: Option<Setting>) -> bool {
    match option {
        Some(b) => b,
        None => match setting {
            Some(Setting::Bool(b)) => b,
            Some(Setting::String(s)) => lowercase(s) == "true"@,
            _ => true,
        },
    }
}

/// A setting lets the agent decide whether to respond. The default is that it does.
pub open spec fn responding_by(option: Option<bool>, setting: Option<Setting>) -> bool {
    match option {
        Some(b) => b,
        None => match setting {
            Some(Setting::Bool(b)) => b,
            Some(Setting::String(s)) => lowercase(s) != "false"@,
            _ => true,
        },
    }
}

/// Whether action planning is on.
pub fn decide_planning(option: Option<bool>, setting: Option<SettingValue>) -> (r: bool)
    ensures
        r == planning_by(option, optional_setting(setting)),
{
    match option {
        Some(b) => b,
        None => match setting {
            Some(SettingValue::Bool(b)) => b,
            Some(SettingValue::String(s)) => {
                let word = to_lowercase(s.as_str());
                same_text(word.as_str(), "true")
            },
            _ => true,
        },
    }
}

/// Whether the agent decides whether to respond.
pub fn decide_responding(option: Option<bool>, setting: Option<SettingValue>) -> (r: bool)
    ensures
        r == responding_by(option, optional_setting(setting)),
{
    match option {
        Some(b) => b,
        None => match setting {
            Some(SettingValue::Bool(b)) => b,
            Some(SettingValue::String(s)) => {
                let word = to_lowercase(s.as_str());
                !same_text(word.as_str(), "false")
            },
            _ => true,
        },
    }
}

/// `mode` is a mode that `parse` may give for the text `word`.
pub open spec fn may_parse<P: Fn(&String) -> LLMMode>(parse: P, word: Seq<char>, mode: LLMMode) -> bool {
    exists|w: String| w@ == word && #[trigger] call_ensures(parse, (&w,), mode)
}

/// `mode` is the mode that a setting may stand for. The default is none.
pub open spec fn may_be_mode<P: Fn(&String) -> LLMMode>(setting: Option<Setting>, parse: P, mode: LLMMode) -> bool {
    if setting is Some && setting->Some_0 is String {
        may_parse(parse, setting->Some_0->String_0, mode)
    } else {
        mode == LLMMode::Default
    }
}

/// The mode that a setting stands for.
pub fn decide_mode<P: Fn(&String) -> LLMMode>(setting: Option<SettingValue>, parse: &P) -> (r: LLMMode)
    requires
        forall|w: &String| #[trigger] call_requires(*parse, (w,)),
    ensures
        may_be_mode(optional_setting(setting), *parse, r),
{
    match setting {
        Some(SettingValue::String(s)) => {
            let mode = parse(&s);
            assert(may_parse(*parse, s@, mode));
            mode
        },
        _ => LLMMode::Default,
    }
}

impl AgentRuntime {
    /// The setting that is stored under `key`.
    pub open spec fn stored(self, key: Seq<char>) -> Option<Setting> {
        stored_setting(
            optional_entries(self.character.secrets),
            optional_entries(self.character.settings),
            setting_entries(self.settings.values@),
            key,
        )
    }

    /// `read` is what the setting under `key` may be read as.
    pub open spec fn may_read<D: Fn(&String) -> String>(
        self,
        key: Seq<char>,
        decrypt: D,
        read: Option<Setting>,
    ) -> bool {
        match self.stored(key) {
            Some(s) => read is Some && reads_as(decrypt, s, read->Some_0),
            None => read is None,
        }
    }

    /// The setting under `key`: of the secrets, else of the settings, else of the
    /// secrets inside the settings, else of the runtime. Texts are decrypted.
    pub fn get_setting<D: Fn(&String) -> String>(&self, key: &str, decrypt: &D) -> (r: Option<SettingValue>)
        requires
            takes_all(*decrypt),
        ensures
            self.may_read(key@, *decrypt, optional_setting(r)),
    {
        match find_setting(&self.character.secrets, &self.character.settings, &self.settings, key) {
            Some(v) => Some(normalize_setting_value(v, decrypt)),
            None => None,
        }
    }

    /// `after` is the runtime with the setting `value` under `key`: among the
    /// secrets of the character, or among its settings.
    pub open spec fn has_set(self, after: AgentRuntime, key: Seq<char>, value: Setting, secret: bool) -> bool {
        let none = Map::<Seq<char>, Json>::empty();
        if secret {
            &&& after == (AgentRuntime {
                character: Character { secrets: after.character.secrets, ..self.character },
                ..self
            })
            &&& optional_entries(after.character.secrets) == Some(
                optional_entries(self.character.secrets).unwrap_or(none).insert(
                    key,
                    json_of_setting(value),
                ),
            )
        } else {
            &&& after == (AgentRuntime {
                character: Character { settings: after.character.settings, ..self.character },
                ..self
            })
            &&& optional_entries(after.character.settings) == Some(
                optional_entries(self.character.settings).unwrap_or(none).insert(
                    key,
                    json_of_setting(value),
                ),
            )
        }
    }

    /// Sets a setting, as a secret or not.
    pub fn set_setting(&mut self, key: &str, value: &SettingValue, secret: bool)
        ensures
            old(self).has_set(*final(self), key@, value@, secret),
    {
        let json = setting_value_to_json_value(value);
        if secret {
            let mut values = match self.character.secrets.take() {
                Some(v) => v,
                None => StringMap::new(),
            };
            values.insert(key.to_owned(), json);
            assert(json_entries(values@) =~= optional_entries(old(self).character.secrets).unwrap_or(
                Map::empty(),
            ).insert(key@, json_of_setting(value@)));
            self.character.secrets = Some(values);
        } else {
            let mut values = match self.character.settings.take() {
                Some(v) => v,
                None => StringMap::new(),
            };
            values.insert(key.to_owned(), json);
            assert(json_entries(values@) =~= optional_entries(
                old(self).character.settings,
            ).unwrap_or(Map::empty()).insert(key@, json_of_setting(value@)));
            self.character.settings = Some(values);
        }
    }

    /// Whether more than one action may run for a message: by the options, else
    /// by the setting `ACTION_PLANNING`, else yes.
    pub fn is_action_planning_enabled<D: Fn(&String) -> String>(&self, decrypt: &D) -> (r: bool)
        requires
            takes_all(*decrypt),
        ensures
            self.action_planning_option matches Some(b) ==> r == b,
            self.action_planning_option is None ==> exists|read: Option<Setting>| #[trigger]
                self.may_read("ACTION_PLANNING"@, *decrypt, read) && r == planning_by(None, read),
    {
        if let Some(enabled) = self.action_planning_option {
            return enabled;
        }
        let setting = self.get_setting("ACTION_PLANNING", decrypt);
        decide_planning(None, setting)
    }

    /// Whether the agent decides for each message whether to respond: by the
    /// options, else by the setting `CHECK_SHOULD_RESPOND`, else yes.
    pub fn is_check_should_respond_enabled<D: Fn(&String) -> String>(&self, decrypt: &D) -> (r: bool)
        requires
            takes_all(*decrypt),
        ensures
            self.check_should_respond_option matches Some(b) ==> r == b,
            self.check_should_respond_option is None ==> exists|read: Option<Setting>| #[trigger]
                self.may_read("CHECK_SHOULD_RESPOND"@, *decrypt, read) && r == responding_by(None, read),
    {
        if let Some(enabled) = self.check_should_respond_option {
            return enabled;
        }
        let setting = self.get_setting("CHECK_SHOULD_RESPOND", decrypt);
        decide_responding(None, setting)
    }

    /// `mode` is a mode that the runtime may be in.
    pub open spec fn may_have_mode<D: Fn(&String) -> String, P: Fn(&String) -> LLMMode>(
        self,
        decrypt: D,
        parse: P,
        mode: LLMMode,
    ) -> bool {
        match self.llm_mode_option {
            Some(m) => mode == m,
            None => exists|read: Option<Setting>| #[trigger]
                self.may_read("LLM_MODE"@, decrypt, read) && may_be_mode(read, parse, mode),
        }
    }

    /// Which model takes the place of the one that is asked for: by the options,
    /// else by the setting `LLM_MODE`, which `parse` reads, else none.
    pub fn get_llm_mode<D: Fn(&String) -> String, P: Fn(&String) -> LLMMode>(&self, decrypt: &D, parse: &P) -> (r: LLMMode)
        requires
            takes_all(*decrypt),
            forall|w: &String| #[trigger] call_requires(*parse, (w,)),
        ensures
            self.may_have_mode(*decrypt, *parse, r),
    {
        if let Some(mode) = self.llm_mode_option {
            return mode;
        }
        let setting = self.get_setting("LLM_MODE", decrypt);
        let ghost read = optional_setting(setting);
        let mode = decide_mode(setting, parse);
        assert(self.may_read("LLM_MODE"@, *decrypt, read));
        mode
    }
}

// ---------------------------------------------------------------------------
// Initializing
// ---------------------------------------------------------------------------
/// A capability: as the options say, else as the setting says.
pub open spec fn capability(option: Option<bool>, setting: Option<Setting>) -> bool {
    match option {
        Some(b) => b,
        None => is_truthy(setting),
    }
}

/// How far the runtime is initialized: what was done last.
#[derive(Clone, Copy, Debug, PartialEq, Eq, Structural)]
pub enum InitStage {
    Bootstrap,
    Planning,
    Memory,
    Autonomy,
    Plugins,
    Database,
}

/// What is to be done next to initialize the runtime.
pub enum InitAction {
    /// Start the planning service and register its plugin.
    StartPlanning,
    /// Start the memory service and register its plugin.
    StartMemory,
    /// Start the autonomy service and register its plugin.
    StartAutonomy,
    /// Register these plugins.
    RegisterPlugins(Vec<Plugin>),
    /// Initialize the database.
    InitDatabase(Handle),
    /// Nothing: the runtime is initialized.
    Finished,
}

impl AgentRuntime {
    /// `on` is what a capability may be: as the options say, else as the setting
    /// under `key` may be read.
    pub open spec fn may_be_capability<D: Fn(&String) -> String>(
        self,
        option: Option<bool>,
        key: Seq<char>,
        decrypt: D,
        on: bool,
    ) -> bool {
        exists|read: Option<Setting>| #[trigger]
            self.may_read(key, decrypt, read) && on == capability(option, read)
    }

    /// Whether the agent has a capability.
    fn has_capability<D: Fn(&String) -> String>(&self, option: Option<bool>, key: &str, decrypt: &D) -> (r: bool)
        requires
            takes_all(*decrypt),
        ensures
            self.may_be_capability(option, key@, *decrypt, r),
    {
        let setting = self.get_setting(key, decrypt);
        let ghost read = optional_setting(setting);
        let by_setting = parse_truthy_setting(setting);
        let on = match option {
            Some(b) => b,
            None => by_setting,
        };
        assert(self.may_read(key@, *decrypt, read) && on == capability(option, read));
        on
    }

    /// `config` is what the capabilities of the agent may be: by the options, else by
    /// the settings.
    pub open spec fn may_be_config<D: Fn(&String) -> String>(self, decrypt: D, config: CapabilityConfig) -> bool {
        let options = self.capability_options;
        &&& self.may_be_capability(
            options.disable_basic,
            "DISABLE_BASIC_CAPABILITIES"@,
            decrypt,
            config.disable_basic,
        )
        &&& self.may_be_capability(
            options.enable_extended,
            "ENABLE_EXTENDED_CAPABILITIES"@,
            decrypt,
            config.advanced_capabilities,
        )
        &&& self.may_be_capability(
            options.enable_autonomy,
            "ENABLE_AUTONOMY"@,
            decrypt,
            config.enable_autonomy,
        )
        &&& config.skip_character_provider == options.skip_character_provider
    }

    /// The capabilities of the agent: by the options, else by the settings.
    pub fn resolve_capabilities<D: Fn(&String) -> String>(&self, decrypt: &D) -> (r: CapabilityConfig)
        requires
            takes_all(*decrypt),
        ensures
            self.may_be_config(*decrypt, r),
    {
        CapabilityConfig {
            disable_basic: self.has_capability(
                self.capability_options.disable_basic,
                "DISABLE_BASIC_CAPABILITIES",
                decrypt,
            ),
            advanced_capabilities: self.has_capability(
                self.capability_options.enable_extended,
                "ENABLE_EXTENDED_CAPABILITIES",
                decrypt,
            ),
            enable_autonomy: self.has_capability(
                self.capability_options.enable_autonomy,
                "ENABLE_AUTONOMY",
                decrypt,
            ),
            skip_character_provider: self.capability_options.skip_character_provider,
        }
    }

    /// Starts to initialize the runtime: the built-in capabilities come first.
    pub fn initialize<D: Fn(&String) -> String>(&mut self, decrypt: &D) -> (r: CapabilityConfig)
        requires
            takes_all(*decrypt),
        ensures
            old(self).may_be_config(*decrypt, r),
            *final(self) == (AgentRuntime { enable_autonomy: r.enable_autonomy, ..*old(self) }),
    {
        let config = self.resolve_capabilities(decrypt);
        self.set_enable_autonomy(config.enable_autonomy);
        config
    }

    /// Advanced planning is switched on for the character.
    pub open spec fn wants_planning(self) -> bool {
        feature_on(
            self.character.advanced_planning,
            style_texts(self.character.style_all),
            "ADVANCED_PLANNING"@,
        )
    }

    /// Advanced memory is switched on for the character.
    pub open spec fn wants_memory(self) -> bool {
        feature_on(
            self.character.advanced_memory,
            style_texts(self.character.style_all),
            "ADVANCED_MEMORY"@,
        )
    }

    /// The stage that is reached next: planning, memory and autonomy only where
    /// they are wanted, then the plugins, and the database where there is one.
    pub open spec fn next_stage(self, stage: InitStage, autonomy: bool) -> Option<InitStage> {
        let before_planning = stage == InitStage::Bootstrap;
        let before_memory = before_planning || stage == InitStage::Planning;
        let before_autonomy = before_memory || stage == InitStage::Memory;
        let before_plugins = before_autonomy || stage == InitStage::Autonomy;
        if before_planning && self.wants_planning() {
            Some(InitStage::Planning)
        } else if before_memory && self.wants_memory() {
            Some(InitStage::Memory)
        } else if before_autonomy && autonomy {
            Some(InitStage::Autonomy)
        } else if before_plugins {
            Some(InitStage::Plugins)
        } else if stage == InitStage::Plugins && self.adapter is Some {
            Some(InitStage::Database)
        } else {
            None
        }
    }

    /// `action` is what is to be done once `stage` was reached, `next` is the stage that
    /// is reached when it is done, and `after` is the runtime then.
    pub open spec fn goes_on(
        self,
        after: AgentRuntime,
        stage: InitStage,
        autonomy: bool,
        next: InitStage,
        action: InitAction,
    ) -> bool {
        match action {
            InitAction::StartPlanning => next == InitStage::Planning && self.next_stage(stage, autonomy)
                == Some(next) && after == self,
            InitAction::StartMemory => next == InitStage::Memory && self.next_stage(stage, autonomy)
                == Some(next) && after == self,
            InitAction::StartAutonomy => next == InitStage::Autonomy && self.next_stage(stage, autonomy)
                == Some(next) && after == self,
            InitAction::RegisterPlugins(plugins) => {
                &&& next == InitStage::Plugins
                &&& self.next_stage(stage, autonomy) == Some(next)
                &&& plugins@ == self.initial_plugins@
                &&& after.initial_plugins@.len() == 0
                &&& after == (AgentRuntime { initial_plugins: after.initial_plugins, ..self })
            },
            InitAction::InitDatabase(adapter) => next == InitStage::Database && self.next_stage(
                stage,
                autonomy,
            ) == Some(next) && self.adapter == Some(adapter) && after == self,
            InitAction::Finished => next == stage && self.next_stage(stage, autonomy) is None && after == (
            AgentRuntime { initialized: true, ..self }),
        }
    }

    /// Goes on to initialize the runtime, once `stage` was reached. `autonomy` says
    /// whether the agent acts by itself. The result is the stage that is reached
    /// when the action is done; at the last one the runtime is initialized.
    pub fn initialize_next(&mut self, stage: InitStage, autonomy: bool) -> (r: (InitStage, InitAction))
        ensures
            match old(self).next_stage(stage, autonomy) {
                Some(next) => r.0 == next && match next {
                    InitStage::Planning => r.1 is StartPlanning && *final(self) == *old(self),
                    InitStage::Memory => r.1 is StartMemory && *final(self) == *old(self),
                    InitStage::Autonomy => r.1 is StartAutonomy && *final(self) == *old(self),
                    InitStage::Plugins => {
                        &&& r.1 matches InitAction::RegisterPlugins(p) && p@
                            == old(self).initial_plugins@
                        &&& final(self).initial_plugins@ == Seq::<Plugin>::empty()
                        &&& *final(self) == (AgentRuntime {
                            initial_plugins: final(self).initial_plugins,
                            ..*old(self)
                        })
                    },
                    InitStage::Database => r.1 == InitAction::InitDatabase(
                        old(self).adapter->Some_0,
                    ) && *final(self) == *old(self),
                    InitStage::Bootstrap => false,
                },
                None => {
                    &&& r.0 == stage
                    &&& r.1 is Finished
                    &&& *final(self) == (AgentRuntime { initialized: true, ..*old(self) })
                },
            },
            old(self).goes_on(*final(self), stage, autonomy, r.0, r.1),
    {
        let before_planning = matches!(stage, InitStage::Bootstrap);
        let before_memory = before_planning || matches!(stage, InitStage::Planning);
        let before_autonomy = before_memory || matches!(stage, InitStage::Memory);
        let before_plugins = before_autonomy || matches!(stage, InitStage::Autonomy);
        if before_planning && is_feature_on(
            self.character.advanced_planning,
            &self.character.style_all,
            "ADVANCED_PLANNING",
        ) {
            return (InitStage::Planning, InitAction::StartPlanning);
        }
        if before_memory && is_feature_on(
            self.character.advanced_memory,
            &self.character.style_all,
            "ADVANCED_MEMORY",
        ) {
            return (InitStage::Memory, InitAction::StartMemory);
        }
        if before_autonomy && autonomy {
            return (InitStage::Autonomy, InitAction::StartAutonomy);
        }
        if before_plugins {
            let mut plugins: Vec<Plugin> = Vec::new();
            std::mem::swap(&mut plugins, &mut self.initial_plugins);
            return (InitStage::Plugins, InitAction::RegisterPlugins(plugins));
        }
        if matches!(stage, InitStage::Plugins) {
            if let Some(adapter) = self.adapter {
                return (InitStage::Database, InitAction::InitDatabase(adapter));
            }
        }
        self.initialized = true;
        (stage, InitAction::Finished)
    }

    /// `after` is the runtime with a plugin: its handlers come behind those that there
    /// are, and its models take the place of those with the same names.
    pub open spec fn takes_in(self, after: AgentRuntime, plugin: Plugin) -> bool {
        &&& after.actions@ == self.actions@ + plugin.action_handlers@
        &&& after.providers@ == self.providers@ + plugin.provider_handlers@
        &&& after.evaluators@ == self.evaluators@ + plugin.evaluator_handlers@
        &&& after.model_handlers@ == self.model_handlers@.union_prefer_right(plugin.model_handlers@)
        &&& after == (AgentRuntime {
            actions: after.actions,
            providers: after.providers,
            evaluators: after.evaluators,
            model_handlers: after.model_handlers,
            plugins: after.plugins,
            ..self
        })
    }

    /// Registers the handlers of a plugin.
    pub fn register_plugin(&mut self, plugin: Plugin)
        ensures
            final(self).actions@ == old(self).actions@ + plugin.action_handlers@,
            final(self).providers@ == old(self).providers@ + plugin.provider_handlers@,
            final(self).evaluators@ == old(self).evaluators@ + plugin.evaluator_handlers@,
            final(self).model_handlers@ == old(self).model_handlers@.union_prefer_right(
                plugin.model_handlers@,
            ),
            final(self).plugins@.len() == old(self).plugins@.len() + 1,
            final(self).plugins@.drop_last() == old(self).plugins@,
            final(self).plugins@.last() == (Plugin {
                model_handlers: final(self).plugins@.last().model_handlers,
                ..plugin
            }),
            final(self).plugins@.last().model_handlers@ == Map::<Seq<char>, Handle>::empty(),
            *final(self) == (AgentRuntime {
                actions: final(self).actions,
                providers: final(self).providers,
                evaluators: final(self).evaluators,
                model_handlers: final(self).model_handlers,
                plugins: final(self).plugins,
                ..*old(self)
            }),
            old(self).takes_in(*final(self), plugin),
    {
        let ghost given = plugin;
        let mut plugin = plugin;
        push_all(&mut self.actions, &plugin.action_handlers);
        push_all(&mut self.providers, &plugin.provider_handlers);
        push_all(&mut self.evaluators, &plugin.evaluator_handlers);
        let mut models: StringMap<Handle> = StringMap::new();
        std::mem::swap(&mut models, &mut plugin.model_handlers);
        put_all(&mut self.model_handlers, &models);
        self.plugins.push(plugin);
        assert(self.plugins@.drop_last() =~= old(self).plugins@);
    }

    /// Registers a service.
    pub fn register_service(&mut self, name: &str, service: Handle)
        ensures
            final(self).services@ == old(self).services@.insert(name@, service),
            *final(self) == (AgentRuntime { services: final(self).services, ..*old(self) }),
            has_registered(old(self).services@, final(self).services@, name@, service),
    {
        self.services.insert(name.to_owned(), service);
    }

    /// The service that was registered under a name.
    pub fn get_service(&self, name: &str) -> (r: Option<Handle>)
        ensures
            r == found(self.services@, name@),
    {
        find_handle(&self.services, name)
    }

    /// Registers a task worker under its name. The result says whether there was
    /// one already, whose place it takes.
    pub fn register_task_worker(&mut self, name: &str, worker: Handle) -> (r: bool)
        ensures
            r == old(self).task_workers@.contains_key(name@),
            final(self).task_workers@ == old(self).task_workers@.insert(name@, worker),
            *final(self) == (AgentRuntime { task_workers: final(self).task_workers, ..*old(self) }),
            has_registered(old(self).task_workers@, final(self).task_workers@, name@, worker),
    {
        let known = self.task_workers.contains_key(name);
        self.task_workers.insert(name.to_owned(), worker);
        known
    }

    /// The task worker that was registered under a name.
    pub fn get_task_worker(&self, name: &str) -> (r: Option<Handle>)
        ensures
            r == found(self.task_workers@, name@),
    {
        find_handle(&self.task_workers, name)
    }

    /// Whether a task worker was registered under a name.
    pub fn has_task_worker(&self, name: &str) -> (r: bool)
        ensures
            r == self.task_workers@.contains_key(name@),
    {
        self.task_workers.contains_key(name)
    }

    /// Registers the handler of a model.
    pub fn register_model(&mut self, model_type: &str, handler: Handle)
        ensures
            final(self).model_handlers@ == old(self).model_handlers@.insert(model_type@, handler),
            *final(self) == (AgentRuntime {
                model_handlers: final(self).model_handlers,
                ..*old(self)
            }),
            has_registered(old(self).model_handlers@, final(self).model_handlers@, model_type@, handler),
    {
        self.model_handlers.insert(model_type.to_owned(), handler);
    }

    /// Registers the handler of a model whose answer comes piece by piece.
    pub fn register_streaming_model(&mut self, model_type: &str, handler: Handle)
        ensures
            final(self).streaming_model_handlers@ == old(self).streaming_model_handlers@.insert(
                model_type@,
                handler,
            ),
            *final(self) == (AgentRuntime {
                streaming_model_handlers: final(self).streaming_model_handlers,
                ..*old(self)
            }),
            has_registered(old(self).streaming_model_handlers@, final(self).streaming_model_handlers@, model_type@, handler),
    {
        self.streaming_model_handlers.insert(model_type.to_owned(), handler);
    }

    /// `after` is the runtime with one more handler for an event, behind those that there
    /// are.
    pub open spec fn has_event(self, after: AgentRuntime, event: Seq<char>, handler: Handle) -> bool {
        &&& handlers_of(after.events@, event) == handlers_of(self.events@, event).push(handler)
        &&& forall|other: Seq<char>|
            other != event ==> #[trigger] handlers_of(after.events@, other) == handlers_of(
                self.events@,
                other,
            )
        &&& after == (AgentRuntime { events: after.events, ..self })
    }

    /// Registers a handler for an event, behind those that there are.
    pub fn register_event(&mut self, event: &str, handler: Handle)
        ensures
            handlers_of(final(self).events@, event@) == handlers_of(old(self).events@, event@).push(
                handler,
            ),
            forall|other: Seq<char>|
                other != event@ ==> #[trigger] handlers_of(final(self).events@, other)
                    == handlers_of(old(self).events@, other),
            *final(self) == (AgentRuntime { events: final(self).events, ..*old(self) }),
            old(self).has_event(*final(self), event@, handler),
    {
        let mut handlers = match self.events.remove(event) {
            Some(v) => v,
            None => Vec::new(),
        };
        handlers.push(handler);
        self.events.insert(event.to_owned(), handlers);
    }

    /// The handlers to call for an event, in the order in which they were
    /// registered.
    pub fn emit_event(&self, event: &str) -> (r: Vec<Handle>)
        ensures
            r@ == handlers_of(self.events@, event@),
    {
        let mut r: Vec<Handle> = Vec::new();
        match self.events.get(event) {
            Some(v) => {
                push_all(&mut r, v);
                assert(r@ =~= v@);
            },
            None => {},
        }
        r
    }

    /// What to stop when the runtime stops: the services, then the database.
    pub fn stop(&self) -> (r: (Vec<Handle>, Option<Handle>))
        ensures
            r.0@ == in_order(self.services@.dom()).map_values(
                |name: Seq<char>| self.services@[name],
            ),
            r.1 == self.adapter,
    {
        let n: usize = self.services.len();
        let ghost keys = self.services.keys();
        let mut handles: Vec<Handle> = Vec::new();
        for i in 0..n
            invariant
                n == keys.len(),
                keys == self.services.keys(),
                handles@.len() == i,
                forall|j: int| 0 <= j < i ==> #[trigger] handles@[j] == self.services@[keys[j]],
        {
            handles.push(*self.services.value_at(i));
        }
        assert(handles@ =~= keys.map_values(|name: Seq<char>| self.services@[name]));
        (handles, self.adapter)
    }
}

/// What a name stands for, if anything.
pub open spec fn found(m: Map<Seq<char>, Handle>, name: Seq<char>) -> Option<Handle> {
    if m.contains_key(name) {
        Some(m[name])
    } else {
        None
    }
}

/// `after` is `before` with a handle under a name.
pub open spec fn has_registered(
    before: Map<Seq<char>, Handle>,
    after: Map<Seq<char>, Handle>,
    name: Seq<char>,
    handle: Handle,
) -> bool {
    &&& found(after, name) == Some(handle)
    &&& forall|other: Seq<char>| other != name ==> #[trigger] found(after, other) == found(before, other)
}

/// The handlers that are registered for an event.
pub open spec fn handlers_of(events: Map<Seq<char>, Vec<Handle>>, event: Seq<char>) -> Seq<Handle> {
    if events.contains_key(event) {
        events[event]@
    } else {
        Seq::empty()
    }
}

/// What a name stands for, if anything.
fn find_handle(m: &StringMap<Handle>, name: &str) -> (r: Option<Handle>)
    ensures
        r == found(m@, name@),
{
    match m.get(name) {
        Some(h) => Some(*h),
        None => None,
    }
}

/// Adds handles behind others.
fn push_all(to: &mut Vec<Handle>, from: &Vec<Handle>)
    ensures
        final(to)@ == old(to)@ + from@,
{
    for i in 0..from.len()
        invariant
            to@ == old(to)@ + from@.take(i as int),
    {
        to.push(from[i]);
        assert(to@ =~= old(to)@ + from@.take(i + 1));
    }
    assert(from@.take(from@.len() as int) =~= from@);
}

/// Puts handles in place of those with the same names.
fn put_all(to: &mut StringMap<Handle>, from: &StringMap<Handle>)
    ensures
        final(to)@ == old(to)@.union_prefer_right(from@),
{
    let n: usize = from.len();
    let ghost keys = from.keys();
    let ghost before = to@;
    assert(before.union_prefer_right(from@.restrict(keys.take(0).to_set())) =~= before);
    for i in 0..n
        invariant
            n == keys.len(),
            keys == from.keys(),
            to@ == before.union_prefer_right(from@.restrict(keys.take(i as int).to_set())),
    {
        let key = from.key_at(i).clone();
        let value = *from.value_at(i);
        to.insert(key, value);
        proof {
            assert(keys.take(i + 1) =~= keys.take(i as int).push(keys[i as int]));
            assert(keys.take(i + 1).to_set() =~= keys.take(i as int).to_set().insert(
                keys[i as int],
            ));
            assert(to@ =~= before.union_prefer_right(from@.restrict(keys.take(i + 1).to_set())));
        }
    }
    proof {
        assert(keys.take(n as int) =~= keys);
        assert(from@.restrict(keys.to_set()) =~= from@) by {
            assert forall|k: Seq<char>| from@.contains_key(k) implies keys.to_set().contains(k) by {
                assert(keys.contains(k));
            }
        }
    }
}

}
