//! The runtime as the built-in capabilities see it.
use vstd::prelude::*;
use crate::clock::UUID;
use crate::json::double_shown;
use crate::runtime::{AgentRuntime, Handle};
use crate::settings::{setting_entries, Real, Setting};
use crate::settings::{SettingNumber, SettingValue};
use crate::string_map::StringMap;

verus! {

broadcast use vstd::seq_lib::group_seq_properties;

// ---------------------------------------------------------------------------
// Models
// ---------------------------------------------------------------------------
/// What a model does.
#[derive(Clone, Copy, Debug, PartialEq, Eq, Structural)]
pub enum ModelType {
    TextLarge,
    TextSmall,
    TextEmbedding,
    Image,
    AudioTranscription,
    TextToSpeech,
}

/// How the answer of a model is to be read.
#[derive(Clone, Copy, Debug, PartialEq, Eq, Structural)]
pub enum OutputKind {
    /// As a text.
    Text,
    /// As a list of numbers.
    Embedding,
    /// As a JSON value: the text.
    Structured,
}

impl ModelType {
    /// The name under which such a model is registered.
    pub open spec fn name(self) -> Seq<char> {
        match self {
            ModelType::TextLarge => "TEXT_LARGE"@,
            ModelType::TextSmall => "TEXT_SMALL"@,
            ModelType::TextEmbedding => "TEXT_EMBEDDING"@,
            ModelType::Image => "IMAGE"@,
            ModelType::AudioTranscription => "AUDIO_TRANSCRIPTION"@,
            ModelType::TextToSpeech => "TEXT_TO_SPEECH"@,
        }
    }

    /// The name under which such a model is registered.
    pub fn key(self) -> (r: &'static str)
        ensures
            r@ == self.name(),
    {
        match self {
            ModelType::TextLarge => "TEXT_LARGE",
            ModelType::TextSmall => "TEXT_SMALL",
            ModelType::TextEmbedding => "TEXT_EMBEDDING",
            ModelType::Image => "IMAGE",
            ModelType::AudioTranscription => "AUDIO_TRANSCRIPTION",
            ModelType::TextToSpeech => "TEXT_TO_SPEECH",
        }
    }

    /// How the answer of such a model is to be read.
    pub fn output(self) -> (r: OutputKind)
        ensures
            r == OutputKind::Embedding <==> self == ModelType::TextEmbedding,
            r == OutputKind::Text <==> self == ModelType::TextSmall || self == ModelType::TextLarge,
    {
        match self {
            ModelType::TextEmbedding => OutputKind::Embedding,
            ModelType::TextSmall | ModelType::TextLarge => OutputKind::Text,
            _ => OutputKind::Structured,
        }
    }
}

// ---------------------------------------------------------------------------
// Settings as texts
// ---------------------------------------------------------------------------
/// The text of a setting.
pub open spec fn setting_text(v: Setting) -> Seq<char> {
    match v {
        Setting::String(s) => s,
        Setting::Bool(b) => if b {
            "true"@
        } else {
            "false"@
        },
        Setting::Number(Real::Finite(t)) => double_shown(t),
        Setting::Number(Real::Infinity) => "inf"@,
        Setting::Number(Real::NegInfinity) => "-inf"@,
        Setting::Number(Real::NaN) => "NaN"@,
        Setting::Null => "null"@,
    }
}

/// The text of a setting.
pub fn write_setting(v: &SettingValue) -> (r: String)
    ensures
        r@ == setting_text(v@),
{
    match v {
        SettingValue::String(s) => s.clone(),
        SettingValue::Bool(b) => {
            if *b {
                "true".to_owned()
            } else {
                "false".to_owned()
            }
        },
        SettingValue::Number(SettingNumber::Finite(d)) => d.show(),
        SettingValue::Number(SettingNumber::Infinity) => "inf".to_owned(),
        SettingValue::Number(SettingNumber::NegInfinity) => "-inf".to_owned(),
        SettingValue::Number(SettingNumber::NaN) => "NaN".to_owned(),
        SettingValue::Null => "null".to_owned(),
    }
}

/// What a map of texts holds.
pub open spec fn text_entries(m: Map<Seq<char>, String>) -> Map<Seq<char>, Seq<char>> {
    m.map_values(|s: String| s@)
}

/// The texts of the settings in a map.
pub open spec fn setting_texts(m: Map<Seq<char>, Setting>) -> Map<Seq<char>, Seq<char>> {
    m.map_values(|v: Setting| setting_text(v))
}

impl AgentRuntime {
    /// The text of a setting of the runtime itself.
    pub fn get_setting_text(&self, key: &str) -> (r: Option<String>)
        ensures
            match r {
                Some(s) => self.settings.values@.contains_key(key@) && s@ == setting_text(
                    self.settings.values@[key@]@,
                ),
                None => !self.settings.values@.contains_key(key@),
            },
    {
        match self.settings.values.get(key) {
            Some(v) => Some(write_setting(v)),
            None => None,
        }
    }

    /// The texts of all settings of the runtime itself.
    pub fn get_all_settings(&self) -> (r: StringMap<String>)
        ensures
            text_entries(r@) == setting_texts(setting_entries(self.settings.values@)),
    {
        let n: usize = self.settings.values.len();
        let ghost keys = self.settings.values.keys();
        let ghost all = setting_texts(setting_entries(self.settings.values@));
        let mut r: StringMap<String> = StringMap::new();
        assert(text_entries(r@) =~= all.restrict(keys.take(0).to_set()));
        for i in 0..n
            invariant
                n == keys.len(),
                keys == self.settings.values.keys(),
                all == setting_texts(setting_entries(self.settings.values@)),
                text_entries(r@) == all.restrict(keys.take(i as int).to_set()),
        {
            let ghost before = r@;
            let key = self.settings.values.key_at(i).clone();
            let text = write_setting(self.settings.values.value_at(i));
            r.insert(key, text);
            proof {
                assert(text_entries(r@) =~= text_entries(before).insert(key@, text@));
                assert(keys.take(i + 1) =~= keys.take(i as int).push(keys[i as int]));
                assert(keys.take(i + 1).to_set() =~= keys.take(i as int).to_set().insert(
                    keys[i as int],
                ));
                assert(text_entries(r@) =~= all.restrict(keys.take(i + 1).to_set()));
            }
        }
        proof {
            assert(keys.take(n as int) =~= keys);
            assert(all.restrict(keys.to_set()) =~= all) by {
                assert forall|k: Seq<char>| all.contains_key(k) implies keys.to_set().contains(k) by {
                    assert(keys.contains(k));
                }
            }
        }
        r
    }

    /// Sets a setting of the runtime itself to a text.
    pub fn set_setting_text(&mut self, key: &str, value: &str)
        ensures
            setting_entries(final(self).settings.values@) == setting_entries(
                old(self).settings.values@,
            ).insert(key@, Setting::String(value@)),
            *final(self) == (AgentRuntime { settings: final(self).settings, ..*old(self) }),
    {
        let ghost before = self.settings.values@;
        self.settings.values.insert(key.to_owned(), SettingValue::String(value.to_owned()));
        assert(setting_entries(self.settings.values@) =~= setting_entries(before).insert(
            key@,
            Setting::String(value@),
        ));
    }
}

/// A setting that was set to a text has that text.
pub proof fn set_text_is_read(settings: Map<Seq<char>, Setting>, key: Seq<char>, value: Seq<char>)
    ensures
        setting_texts(settings.insert(key, Setting::String(value))) == setting_texts(settings).insert(
            key,
            value,
        ),
{
    assert(setting_texts(settings.insert(key, Setting::String(value))) =~= setting_texts(
        settings,
    ).insert(key, value));
}

// ---------------------------------------------------------------------------
// The database
// ---------------------------------------------------------------------------
/// Which memories are asked for.
pub struct GetMemoriesParams {
    pub room_id: Option<UUID>,
    pub count: Option<i32>,
}

/// Which memories are searched for.
pub struct SearchMemoriesParams {
    pub table_name: String,
    pub query: Option<String>,
    pub count: Option<i32>,
    pub room_id: Option<UUID>,
}

impl AgentRuntime {
    /// The database that an entity, a room or a world is taken from.
    pub fn needed_adapter(&self) -> (r: Result<Handle, String>)
        ensures
            match self.adapter {
                Some(a) => r == Ok::<Handle, String>(a),
                None => r matches Err(e) && e@ == "No adapter"@,
            },
    {
        match self.adapter {
            Some(a) => Ok(a),
            None => Err("No adapter".to_owned()),
        }
    }

    /// How many memories are asked for: as many as said, or ten where that is too many to
    /// pass on.
    pub open spec fn count_passed_on(count: usize) -> int {
        if count <= i32::MAX {
            count as int
        } else {
            10
        }
    }

    /// How memories of a room are asked for: at most `count`, or ten where the count
    /// is too large to pass on. Without a database there are none.
    pub fn get_memories(&self, room_id: Option<UUID>, count: usize) -> (r: Option<(Handle, GetMemoriesParams)>)
        ensures
            match self.adapter {
                Some(a) => r == Some(
                    (
                        a,
                        GetMemoriesParams {
                            room_id,
                            count: Some(
                                if count <= i32::MAX {
                                    count as i32
                                } else {
                                    10i32
                                },
                            ),
                        },
                    ),
                ),
                None => r is None,
            },
            r matches Some((a, p)) ==> Some(a) == self.adapter && p.room_id == room_id && (p.count matches Some(
                n,
            ) && n == Self::count_passed_on(count)),
    {
        match self.adapter {
            Some(a) => {
                let n: i32 = if count <= 0x7fff_ffff {
                    count as i32
                } else {
                    10
                };
                Some((a, GetMemoriesParams { room_id, count: Some(n) }))
            },
            None => None,
        }
    }

    /// How knowledge is searched for, in whatever room. Without a database there is
    /// none.
    pub fn search_knowledge(&self, query: &str, limit: usize) -> (r: Option<(Handle, SearchMemoriesParams)>)
        ensures
            match self.adapter {
                Some(a) => r matches Some((h, p)) && h == a && p.table_name@ == "knowledge"@ && (
                p.query matches Some(q) && q@ == query@) && p.count == Some(limit as i32)
                    && p.room_id is None,
                None => r is None,
            },
    {
        match self.adapter {
            Some(a) => Some(
                (
                    a,
                    SearchMemoriesParams {
                        table_name: "knowledge".to_owned(),
                        query: Some(query.to_owned()),
                        count: Some(
                            #[verifier::truncate]
                            (limit as i32),
                        ),
                        room_id: None,
                    },
                ),
            ),
            None => None,
        }
    }
}

// ---------------------------------------------------------------------------
// Laws
// ---------------------------------------------------------------------------
/// The text of a setting is the text that it is, or a word for what it is.
pub proof fn settings_as_texts(s: Seq<char>)
    ensures
        setting_text(Setting::String(s)) == s,
        setting_text(Setting::Bool(true)) == "true"@,
        setting_text(Setting::Bool(false)) == "false"@,
        setting_text(Setting::Number(Real::Finite(s))) == double_shown(s),
        setting_text(Setting::Number(Real::Infinity)) == "inf"@,
        setting_text(Setting::Number(Real::NegInfinity)) == "-inf"@,
        setting_text(Setting::Number(Real::NaN)) == "NaN"@,
        setting_text(Setting::Null) == "null"@,
{
}

/// A map of settings has the texts of all of them, under the same keys.
pub proof fn every_setting_has_its_text(m: Map<Seq<char>, Setting>, key: Seq<char>)
    ensures
        setting_texts(m).contains_key(key) <==> m.contains_key(key),
        m.contains_key(key) ==> setting_texts(m)[key] == setting_text(m[key]),
{
}

/// Models are registered under these names.
pub proof fn names_of_models()
    ensures
        ModelType::TextLarge.name() == "TEXT_LARGE"@,
        ModelType::TextSmall.name() == "TEXT_SMALL"@,
        ModelType::TextEmbedding.name() == "TEXT_EMBEDDING"@,
        ModelType::Image.name() == "IMAGE"@,
        ModelType::AudioTranscription.name() == "AUDIO_TRANSCRIPTION"@,
        ModelType::TextToSpeech.name() == "TEXT_TO_SPEECH"@,
{
}

/// Every count that fits into 32 bits with a sign is passed on as it is, and any other as
/// ten.
pub proof fn counts_are_passed_on(count: usize)
    ensures
        count <= 0x7fff_ffff ==> AgentRuntime::count_passed_on(count) == count,
        count > 0x7fff_ffff ==> AgentRuntime::count_passed_on(count) == 10,
{
}

}
