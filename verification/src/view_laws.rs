//! Laws of what contracts speak of: nothing that a value holds is left out of its view,
//! and nothing is added.
use vstd::prelude::*;
use crate::actions::{action_defs, optional_text, reports};
use crate::actions::{ActionDefinition, ActionResult, PlannedAction};
use crate::bootstrap::text_entries;
use crate::character::style_texts;
use crate::clock::UUID;
use crate::compose::{listed_texts, provider_defs};
use crate::compose::{ProviderDefinition, ProviderResult, State};
use crate::evaluators::{phases_of, positions};
use crate::evaluators::{EvaluatorDefinition, PreEvaluatorResult};
use crate::json::{json_entries, json_items, Json, Num};
use crate::json::{JsonNumber, JsonValue};
use crate::prompt_check::required_texts;
use crate::prompt_exec::optional_json;
use crate::prompt_text::{asked_of, code_texts, forced_text, rows};
use crate::prompt_text::{AskedField, CheckpointCodes, SchemaRow};
use crate::rewrite::{slices, texts};
use crate::run::optional_id;
use crate::settings::{optional_entries, optional_setting, setting_entries, Real, Setting};
use crate::settings::{SettingNumber, SettingValue};
use crate::string_map::StringMap;
use crate::tasks::{tag_texts, task_entries, task_infos};
use crate::tasks::{Task, TaskMetadata};
use crate::trajectory::{TrajectoryLlmCall, TrajectoryLogs, TrajectoryProviderAccess};

verus! {

broadcast use vstd::seq_lib::group_seq_properties;

// ---------------------------------------------------------------------------
// Texts
// ---------------------------------------------------------------------------
/// Lists of strings are the texts of all of them, one for one.
pub proof fn lists_of_texts(v: Seq<String>, w: Seq<&str>, i: int)
    ensures
        texts(v).len() == v.len(),
        0 <= i < v.len() ==> texts(v)[i] == v[i]@,
        slices(w).len() == w.len(),
        0 <= i < w.len() ==> slices(w)[i] == w[i]@,
{
}

/// An optional text is there where the string is.
pub proof fn optional_texts(s: String)
    ensures
        optional_text(Some(s)) == Some(s@),
        optional_text(None) is None,
        forced_text(Some(s)) == Some(s@),
        forced_text(None) is None,
{
}

/// An optional list of texts is there where the list is, with all its texts.
pub proof fn optional_lists(v: Vec<String>)
    ensures
        required_texts(Some(v)) == Some(texts(v@)),
        required_texts(None) is None,
        tag_texts(Some(v)) == Some(texts(v@)),
        tag_texts(None) is None,
        style_texts(Some(v)) == Some(texts(v@)),
        style_texts(None) is None,
        listed_texts(Some(&v)) == Some(texts(v@)),
        listed_texts(None) is None,
{
}

/// Maps of strings are the texts of all of them, under the same keys.
pub proof fn maps_of_texts(m: Map<Seq<char>, String>, key: Seq<char>)
    ensures
        code_texts(m).contains_key(key) <==> m.contains_key(key),
        m.contains_key(key) ==> code_texts(m)[key] == m[key]@,
        text_entries(m).contains_key(key) <==> m.contains_key(key),
        m.contains_key(key) ==> text_entries(m)[key] == m[key]@,
{
}

/// An identifier is its text.
pub proof fn identifiers_are_texts(id: UUID)
    ensures
        id@ == id.value@,
        optional_id(Some(&id)) == Some(id),
        optional_id(None) is None,
{
}

// ---------------------------------------------------------------------------
// JSON values and settings
// ---------------------------------------------------------------------------
/// A JSON number is the integer that it holds, or the text of its double.
pub proof fn numbers_are_what_they_hold(n: JsonNumber)
    ensures
        n matches JsonNumber::PosInt(k) ==> n@ == Num::Int(k as int),
        n matches JsonNumber::NegInt(k) ==> n@ == Num::Int(k as int),
        n matches JsonNumber::Float(d) ==> n@ == Num::Float(d@),
{
}

/// A JSON value is what it holds, to whatever depth.
pub proof fn values_are_what_they_hold(v: JsonValue, i: int, key: Seq<char>)
    ensures
        v is Null ==> v@ == Json::Null,
        v matches JsonValue::Bool(b) ==> v@ == Json::Bool(b),
        v matches JsonValue::Number(n) ==> v@ == Json::Number(n@),
        v matches JsonValue::String(s) ==> v@ == Json::String(s@),
        v matches JsonValue::Array(a) ==> (v@ matches Json::Array(items) && items.len() == a@.len() && (0 <= i
            < items.len() ==> items[i] == a@[i]@)),
        v matches JsonValue::Object(m) ==> (v@ matches Json::Object(fields) && (fields.contains_key(key)
            <==> m@.contains_key(key)) && (fields.contains_key(key) ==> fields[key] == m@[key]@)),
{
    crate::json::json_value_view(v);
}

/// Lists and maps of JSON values are what all of them are.
pub proof fn lists_and_maps_of_values(a: Seq<JsonValue>, m: Map<Seq<char>, JsonValue>, i: int, key: Seq<char>)
    ensures
        json_items(a).len() == a.len(),
        0 <= i < a.len() ==> json_items(a)[i] == a[i]@,
        json_entries(m).contains_key(key) <==> m.contains_key(key),
        m.contains_key(key) ==> json_entries(m)[key] == m[key]@,
{
}

/// What is optional is there where it is held.
pub proof fn optional_values(m: StringMap<JsonValue>, v: JsonValue, s: SettingValue)
    ensures
        optional_entries(Some(m)) == Some(json_entries(m@)),
        optional_entries(None) is None,
        optional_json(Some(v)) == Some(v@),
        optional_json(None) is None,
        optional_setting(Some(s)) == Some(s@),
        optional_setting(None) is None,
{
}

/// A setting is the text, the truth value or the number that it holds.
pub proof fn settings_are_what_they_hold(v: SettingValue, n: SettingNumber, m: Map<Seq<char>, SettingValue>, key: Seq<char>)
    ensures
        v matches SettingValue::String(s) ==> v@ == Setting::String(s@),
        v matches SettingValue::Bool(b) ==> v@ == Setting::Bool(b),
        v matches SettingValue::Number(k) ==> v@ == Setting::Number(k@),
        v is Null ==> v@ == Setting::Null,
        n matches SettingNumber::Finite(d) ==> n@ == Real::Finite(d@),
        n is Infinity ==> n@ == Real::Infinity,
        n is NegInfinity ==> n@ == Real::NegInfinity,
        n is NaN ==> n@ == Real::NaN,
        setting_entries(m).contains_key(key) <==> m.contains_key(key),
        m.contains_key(key) ==> setting_entries(m)[key] == m[key]@,
{
}

// ---------------------------------------------------------------------------
// Definitions and results
// ---------------------------------------------------------------------------
/// An action says its name and all its other names, in their order.
pub proof fn actions_say_all_their_names(d: ActionDefinition, defs: Seq<ActionDefinition>, i: int)
    ensures
        d@.name == d.name@,
        d.similes matches Some(v) ==> d@.similes.len() == v@.len() && (0 <= i < v@.len() ==> d@.similes[i]
            == v@[i]@),
        d.similes is None ==> d@.similes.len() == 0,
        action_defs(defs).len() == defs.len(),
        0 <= i < defs.len() ==> action_defs(defs)[i] == defs[i]@,
{
}

/// An action that is to run says by which name, which it is and what it is given.
pub proof fn plans_say_all<'a>(p: PlannedAction<'a>)
    ensures
        p.says().name == p.name@,
        p.handler matches Some(i) ==> p.says().handler == Some(i as int),
        p.handler is None ==> p.says().handler is None,
        p.parameters matches Some(m) ==> p.says().parameters == Some(*m),
        p.parameters is None ==> p.says().parameters is None,
{
}

/// A report says whether it is of success, its text, its error and its data.
pub proof fn reports_say_all(r: ActionResult, results: Seq<ActionResult>, i: int)
    ensures
        r@.success == r.success,
        r@.text == optional_text(r.text),
        r@.error == optional_text(r.error),
        r@.data == optional_entries(r.data),
        reports(results).len() == results.len(),
        0 <= i < results.len() ==> reports(results)[i] == results[i]@,
{
}

/// A provider says its name, and whether it is private and dynamic, which it is only where
/// it says so.
pub proof fn providers_say_all(d: ProviderDefinition, defs: Seq<ProviderDefinition>, i: int)
    ensures
        d@.name == d.name@,
        d@.private <==> d.private == Some(true),
        d@.dynamic <==> d.dynamic == Some(true),
        provider_defs(defs).len() == defs.len(),
        0 <= i < defs.len() ==> provider_defs(defs)[i] == defs[i]@,
{
}

/// What a provider says, and what a state holds, is a text and values.
pub proof fn states_hold_all(s: State, r: ProviderResult)
    ensures
        s@.text == s.text@,
        s@.values == json_entries(s.values@),
        r@.text == optional_text(r.text),
        r.values matches Some(m) ==> r@.values == json_entries(m@),
        r.values is None ==> r@.values == Map::<Seq<char>, Json>::empty(),
{
}

/// What evaluators say of a message is whether it is blocked, why, and what it says
/// instead; when they run is what they say themselves.
pub proof fn evaluators_say_all(r: PreEvaluatorResult, defs: Seq<EvaluatorDefinition>, places: Seq<usize>, i: int)
    ensures
        r@.blocked == r.blocked,
        r@.reason == optional_text(r.reason),
        r@.rewritten_text == optional_text(r.rewritten_text),
        phases_of(defs).len() == defs.len(),
        0 <= i < defs.len() ==> phases_of(defs)[i] == defs[i].phase,
        positions(places).len() == places.len(),
        0 <= i < places.len() ==> positions(places)[i] == places[i] as int,
{
}

// ---------------------------------------------------------------------------
// Tasks
// ---------------------------------------------------------------------------
/// A task says its identifier, its name, its tags, what it tells of its times, and its
/// times.
pub proof fn tasks_say_all(t: Task, m: TaskMetadata, v: Seq<Task>, tasks: Map<Seq<char>, Task>, i: int, key: Seq<char>)
    ensures
        t@.id == optional_text(t.id),
        t@.name == t.name@,
        t@.tags == tag_texts(t.tags),
        t.metadata matches Some(n) ==> t@.metadata == Some(n@),
        t.metadata is None ==> t@.metadata is None,
        t@.created_at == t.created_at,
        t@.updated_at == t.updated_at,
        m@.updated_at == m.updated_at,
        m@.created_at == optional_text(m.created_at),
        task_infos(v).len() == v.len(),
        0 <= i < v.len() ==> task_infos(v)[i] == v[i]@,
        task_entries(tasks).contains_key(key) <==> tasks.contains_key(key),
        tasks.contains_key(key) ==> task_entries(tasks)[key] == tasks[key]@,
{
}

// ---------------------------------------------------------------------------
// Prompts
// ---------------------------------------------------------------------------
/// A row of a schema says its field, its description and whether it is checked; a field
/// that is asked for its name and its text; and the codes all three.
pub proof fn prompts_say_all(
    r: SchemaRow,
    f: AskedField,
    c: CheckpointCodes,
    schema: Seq<SchemaRow>,
    fields: Seq<AskedField>,
    i: int,
)
    ensures
        r@.field == r.field@,
        r@.description == r.description@,
        r@.validate_field == r.validate_field,
        f@.name == f.name@,
        f@.text == f.text@,
        c@.initial == c.initial@,
        c@.middle == c.middle@,
        c@.end == c.end@,
        rows(schema).len() == schema.len(),
        0 <= i < schema.len() ==> rows(schema)[i] == schema[i]@,
        asked_of(fields).len() == fields.len(),
        0 <= i < fields.len() ==> asked_of(fields)[i] == fields[i]@,
{
}

// ---------------------------------------------------------------------------
// What is kept
// ---------------------------------------------------------------------------
/// What is kept of a provider that was asked.
pub proof fn accesses_say_all(a: TrajectoryProviderAccess)
    ensures
        a@.step_id == a.step_id@,
        a@.provider_name == a.provider_name@,
        a@.purpose == a.purpose@,
        a@.data == json_entries(a.data@),
        a@.query == optional_entries(a.query),
        a@.timestamp_ms == a.timestamp_ms,
{
}

/// What is kept of a model that was asked.
pub proof fn calls_say_all(c: TrajectoryLlmCall)
    ensures
        c@.step_id == c.step_id@,
        c@.model == c.model@,
        c@.system_prompt == c.system_prompt@,
        c@.user_prompt == c.user_prompt@,
        c@.response == c.response@,
        c@.temperature == c.temperature@,
        c@.max_tokens == c.max_tokens as int,
        c@.purpose == c.purpose@,
        c@.action_type == c.action_type@,
        c@.latency_ms == c.latency_ms as int,
        c@.timestamp_ms == c.timestamp_ms,
{
}

/// What is kept is kept one for one, in its order.
pub proof fn logs_hold_all(logs: TrajectoryLogs, i: int)
    ensures
        logs@.provider_access.len() == logs.provider_access@.len(),
        0 <= i < logs.provider_access@.len() ==> logs@.provider_access[i] == logs.provider_access@[i]@,
        logs@.llm_calls.len() == logs.llm_calls@.len(),
        0 <= i < logs.llm_calls@.len() ==> logs@.llm_calls[i] == logs.llm_calls@[i]@,
{
}

}
