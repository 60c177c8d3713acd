//! What is kept of a run: which providers were asked, and what the models said.
use vstd::prelude::*;
use crate::json::{field_of, json_entries, num_as_f64, num_as_i64, text_field, Json, Num};
use crate::json::{copy_entries, Double, JsonValue};
use crate::rewrite::first_chars;
use crate::rewrite::take_chars;
use crate::string_map::StringMap;
use crate::text::contains_text;
use crate::text::{chars_of, find_in};

verus! {

broadcast use {vstd::seq_lib::group_seq_properties, crate::json::json_value_view};

/// A provider that was asked.
pub struct TrajectoryProviderAccess {
    /// Trajectory step identifier.
    pub step_id: String,
    /// Provider name executed.
    pub provider_name: String,
    /// Purpose string (e.g. "compose_state").
    pub purpose: String,
    /// Provider result data.
    pub data: StringMap<JsonValue>,
    /// Query metadata.
    pub query: Option<StringMap<JsonValue>>,
    /// Timestamp in milliseconds.
    pub timestamp_ms: i64,
}

/// A model that was asked.
pub struct TrajectoryLlmCall {
    /// Trajectory step identifier.
    pub step_id: String,
    /// Model type/name.
    pub model: String,
    /// System prompt used.
    pub system_prompt: String,
    /// User prompt used.
    pub user_prompt: String,
    /// Model response (possibly truncated).
    pub response: String,
    /// Temperature used.
    pub temperature: Double,
    /// Max tokens used.
    pub max_tokens: i64,
    /// Purpose string (e.g. "action").
    pub purpose: String,
    /// Action type string (e.g. "runtime.use_model").
    pub action_type: String,
    /// Latency in milliseconds.
    pub latency_ms: i64,
    /// Timestamp in milliseconds.
    pub timestamp_ms: i64,
}

/// What is kept of a run.
pub struct TrajectoryLogs {
    /// The providers that were asked.
    pub provider_access: Vec<TrajectoryProviderAccess>,
    /// The models that were asked.
    pub llm_calls: Vec<TrajectoryLlmCall>,
}

/// What is known of a provider that was asked.
#[verifier::ext_equal]
pub struct ProviderAccess {
    pub step_id: Seq<char>,
    pub provider_name: Seq<char>,
    pub purpose: Seq<char>,
    pub data: Map<Seq<char>, Json>,
    pub query: Option<Map<Seq<char>, Json>>,
    pub timestamp_ms: i64,
}

/// What is known of a model that was asked.
#[verifier::ext_equal]
pub struct LlmCall {
    pub step_id: Seq<char>,
    pub model: Seq<char>,
    pub system_prompt: Seq<char>,
    pub user_prompt: Seq<char>,
    pub response: Seq<char>,
    pub temperature: Seq<char>,
    pub max_tokens: int,
    pub purpose: Seq<char>,
    pub action_type: Seq<char>,
    pub latency_ms: int,
    pub timestamp_ms: i64,
}

/// What is known of a run.
#[verifier::ext_equal]
pub struct Logs {
    pub provider_access: Seq<ProviderAccess>,
    pub llm_calls: Seq<LlmCall>,
}

impl View for TrajectoryProviderAccess {
    type V = ProviderAccess;

    open spec fn view(&self) -> ProviderAccess {
        ProviderAccess {
            step_id: self.step_id@,
            provider_name: self.provider_name@,
            purpose: self.purpose@,
            data: json_entries(self.data@),
            query: match self.query {
                Some(q) => Some(json_entries(q@)),
                None => None,
            },
            timestamp_ms: self.timestamp_ms,
        }
    }
}

impl View for TrajectoryLlmCall {
    type V = LlmCall;

    open spec fn view(&self) -> LlmCall {
        LlmCall {
            step_id: self.step_id@,
            model: self.model@,
            system_prompt: self.system_prompt@,
            user_prompt: self.user_prompt@,
            response: self.response@,
            temperature: self.temperature@,
            max_tokens: self.max_tokens as int,
            purpose: self.purpose@,
            action_type: self.action_type@,
            latency_ms: self.latency_ms as int,
            timestamp_ms: self.timestamp_ms,
        }
    }
}

impl View for TrajectoryLogs {
    type V = Logs;

    open spec fn view(&self) -> Logs {
        Logs {
            provider_access: self.provider_access@.map_values(|a: TrajectoryProviderAccess| a@),
            llm_calls: self.llm_calls@.map_values(|c: TrajectoryLlmCall| c@),
        }
    }
}

/// At most this many characters of a text are kept.
pub const MAX_KEPT_CHARS: usize = 2000;

/// What is kept of a text.
pub open spec fn kept(text: Seq<char>) -> Seq<char> {
    first_chars(text, MAX_KEPT_CHARS as int)
}

/// What is kept of a text in the parameters of a model.
pub open spec fn kept_field(params: Json, name: Seq<char>) -> Seq<char> {
    match text_field(params, name) {
        Some(t) => kept(t),
        None => Seq::empty(),
    }
}

/// The temperature in the parameters of a model; zero where there is none.
pub open spec fn temperature_of(params: Json) -> Seq<char> {
    match field_of(params, "temperature"@) {
        Some(Json::Number(n)) => num_as_f64(n),
        _ => "0.0"@,
    }
}

/// The token limit in the parameters of a model; zero where there is none.
pub open spec fn max_tokens_of(params: Json) -> int {
    match field_of(params, "maxTokens"@) {
        Some(Json::Number(n)) => match num_as_i64(n) {
            Some(i) => i,
            None => 0,
        },
        _ => 0,
    }
}

/// What is kept of a response: of an embedding only that it was one.
pub open spec fn kept_response(model: Seq<char>, response: Seq<char>) -> Seq<char> {
    if contains_text(model, "EMBEDDING"@) {
        "[embedding vector]"@
    } else {
        kept(response)
    }
}

/// What is known of a model that was asked from `start` to `end`.
pub open spec fn llm_call(
    step_id: Seq<char>,
    model: Seq<char>,
    params: Json,
    response: Seq<char>,
    start: int,
    end: i64,
) -> LlmCall {
    LlmCall {
        step_id,
        model,
        system_prompt: kept_field(params, "system"@),
        user_prompt: kept_field(params, "prompt"@),
        response: kept_response(model, response),
        temperature: temperature_of(params),
        max_tokens: max_tokens_of(params),
        purpose: "action"@,
        action_type: "runtime.use_model"@,
        latency_ms: if end < start {
            0
        } else {
            end - start
        },
        timestamp_ms: end,
    }
}

/// What is known of a provider that was asked for the state of a message.
pub open spec fn provider_access(
    step_id: Seq<char>,
    provider: Seq<char>,
    message: Option<Seq<char>>,
    now: i64,
) -> ProviderAccess {
    ProviderAccess {
        step_id,
        provider_name: provider,
        purpose: "compose_state"@,
        data: Map::empty(),
        query: match message {
            Some(t) => Some(map!["message"@ => Json::String(kept(t))]),
            None => None,
        },
        timestamp_ms: now,
    }
}

/// What is kept of a text in the parameters of a model.
fn keep_field(params: &JsonValue, name: &str) -> (r: String)
    ensures
        r@ == kept_field(params@, name@),
{
    match params.get_str(name) {
        Some(t) => take_chars(t.as_str(), MAX_KEPT_CHARS),
        None => String::new(),
    }
}

/// The temperature in the parameters of a model.
fn read_temperature(params: &JsonValue) -> (r: Double)
    ensures
        r@ == temperature_of(params@),
{
    match params.get("temperature") {
        Some(JsonValue::Number(n)) => n.as_f64(),
        _ => Double::zero(),
    }
}

/// The token limit in the parameters of a model.
fn read_max_tokens(params: &JsonValue) -> (r: i64)
    ensures
        r == max_tokens_of(params@),
{
    match params.get("maxTokens") {
        Some(v) => match v.as_i64() {
            Some(i) => i,
            None => 0,
        },
        None => 0,
    }
}

/// What is kept of a response.
fn keep_response(model: &str, response: &str) -> (r: String)
    ensures
        r@ == kept_response(model@, response@),
{
    let name = chars_of(model);
    let mark = chars_of("EMBEDDING");
    if find_in(name.as_slice(), mark.as_slice(), 0).is_some() {
        "[embedding vector]".to_owned()
    } else {
        take_chars(response, MAX_KEPT_CHARS)
    }
}

/// Writes down a model that was asked from `start` to `end`.
pub fn write_llm_call(
    step_id: String,
    model: &str,
    params: &JsonValue,
    response: &str,
    start: i64,
    end: i64,
) -> (r: TrajectoryLlmCall)
    requires
        end - start <= i64::MAX,
    ensures
        r@ == llm_call(step_id@, model@, params@, response@, start as int, end),
{
    TrajectoryLlmCall {
        step_id,
        model: model.to_owned(),
        system_prompt: keep_field(params, "system"),
        user_prompt: keep_field(params, "prompt"),
        response: keep_response(model, response),
        temperature: read_temperature(params),
        max_tokens: read_max_tokens(params),
        purpose: "action".to_owned(),
        action_type: "runtime.use_model".to_owned(),
        latency_ms: if end < start {
            0
        } else {
            end - start
        },
        timestamp_ms: end,
    }
}

/// Writes down a provider that was asked for the state of a message.
pub fn write_provider_access(step_id: String, provider: &str, message: &Option<String>, now: i64) -> (r: TrajectoryProviderAccess)
    ensures
        r@ == provider_access(
            step_id@,
            provider@,
            match *message {
                Some(t) => Some(t@),
                None => None,
            },
            now,
        ),
{
    let query = match message {
        Some(t) => {
            let text = take_chars(t.as_str(), MAX_KEPT_CHARS);
            let ghost said = text@;
            let mut m: StringMap<JsonValue> = StringMap::new();
            m.insert("message".to_owned(), JsonValue::String(text));
            assert(json_entries(m@) =~= map!["message"@ => Json::String(said)]);
            Some(m)
        },
        None => None,
    };
    let data: StringMap<JsonValue> = StringMap::new();
    assert(json_entries(data@) =~= Map::<Seq<char>, Json>::empty());
    TrajectoryProviderAccess {
        step_id,
        provider_name: provider.to_owned(),
        purpose: "compose_state".to_owned(),
        data,
        query,
        timestamp_ms: now,
    }
}

impl TrajectoryLogs {
    /// Nothing yet.
    pub fn new() -> (r: TrajectoryLogs)
        ensures
            r@ == (Logs { provider_access: Seq::empty(), llm_calls: Seq::empty() }),
    {
        let r = TrajectoryLogs { provider_access: Vec::new(), llm_calls: Vec::new() };
        assert(r@ =~= (Logs { provider_access: Seq::empty(), llm_calls: Seq::empty() }));
        r
    }
}

// ---------------------------------------------------------------------------
// Copies
// ---------------------------------------------------------------------------
impl TrajectoryProviderAccess {
    /// The same again.
    pub fn copy(&self) -> (r: TrajectoryProviderAccess)
        ensures
            r@ == self@,
    {
        let query = match &self.query {
            Some(q) => Some(copy_entries(q)),
            None => None,
        };
        TrajectoryProviderAccess {
            step_id: self.step_id.clone(),
            provider_name: self.provider_name.clone(),
            purpose: self.purpose.clone(),
            data: copy_entries(&self.data),
            query,
            timestamp_ms: self.timestamp_ms,
        }
    }
}

impl TrajectoryLlmCall {
    /// The same again.
    pub fn copy(&self) -> (r: TrajectoryLlmCall)
        ensures
            r@ == self@,
    {
        TrajectoryLlmCall {
            step_id: self.step_id.clone(),
            model: self.model.clone(),
            system_prompt: self.system_prompt.clone(),
            user_prompt: self.user_prompt.clone(),
            response: self.response.clone(),
            temperature: self.temperature.copy(),
            max_tokens: self.max_tokens,
            purpose: self.purpose.clone(),
            action_type: self.action_type.clone(),
            latency_ms: self.latency_ms,
            timestamp_ms: self.timestamp_ms,
        }
    }
}

impl TrajectoryLogs {
    /// The same again.
    pub fn copy(&self) -> (r: TrajectoryLogs)
        ensures
            r@ == self@,
    {
        let mut provider_access: Vec<TrajectoryProviderAccess> = Vec::new();
        let mut llm_calls: Vec<TrajectoryLlmCall> = Vec::new();
        for i in 0..self.provider_access.len()
            invariant
                provider_access@.len() == i,
                forall|j: int|
                    0 <= j < i ==> (#[trigger] provider_access@[j])@ == self.provider_access@[j]@,
        {
            provider_access.push(self.provider_access[i].copy());
        }
        for i in 0..self.llm_calls.len()
            invariant
                llm_calls@.len() == i,
                forall|j: int| 0 <= j < i ==> (#[trigger] llm_calls@[j])@ == self.llm_calls@[j]@,
        {
            llm_calls.push(self.llm_calls[i].copy());
        }
        let r = TrajectoryLogs { provider_access, llm_calls };
        assert(r@ =~= self@);
        r
    }
}

/// What is kept of a text is a start of it, and no longer than the limit.
pub proof fn kept_is_short(text: Seq<char>)
    ensures
        kept(text).len() <= MAX_KEPT_CHARS,
        kept(text) == text.take(kept(text).len() as int),
        text.len() <= MAX_KEPT_CHARS ==> kept(text) == text,
{
    assert(text.take(text.len() as int) =~= text);
}

/// Of a text the first 2000 characters are kept, or all where there are no more.
pub proof fn first_2000_are_kept(text: Seq<char>)
    ensures
        text.len() <= 2000 ==> kept(text) == text,
        text.len() > 2000 ==> kept(text) == text.subrange(0, 2000),
{
    if text.len() > 2000 {
        assert(kept(text) =~= text.subrange(0, 2000));
    }
}

/// Of a model that was asked is kept what it was asked and with which limits, what it
/// answered, and when and how long.
pub proof fn call_is_kept(
    step: Seq<char>,
    model: Seq<char>,
    params: Map<Seq<char>, Json>,
    response: Seq<char>,
    start: int,
    end: i64,
    text: Seq<char>,
    n: Num,
)
    ensures
        llm_call(step, model, Json::Object(params), response, start, end).step_id == step,
        llm_call(step, model, Json::Object(params), response, start, end).model == model,
        llm_call(
            step,
            model,
            Json::Object(params.insert("system"@, Json::String(text))),
            response,
            start,
            end,
        ).system_prompt == kept(text),
        llm_call(
            step,
            model,
            Json::Object(params.insert("prompt"@, Json::String(text))),
            response,
            start,
            end,
        ).user_prompt == kept(text),
        llm_call(
            step,
            model,
            Json::Object(params.insert("temperature"@, Json::Number(n))),
            response,
            start,
            end,
        ).temperature == num_as_f64(n),
        n matches Num::Int(i) ==> (i64::MIN <= i <= i64::MAX ==> llm_call(
            step,
            model,
            Json::Object(params.insert("maxTokens"@, Json::Number(n))),
            response,
            start,
            end,
        ).max_tokens == i),
        !contains_text(model, "EMBEDDING"@) ==> llm_call(
            step,
            model,
            Json::Object(params),
            response,
            start,
            end,
        ).response == kept(response),
        contains_text(model, "EMBEDDING"@) ==> llm_call(
            step,
            model,
            Json::Object(params),
            response,
            start,
            end,
        ).response == "[embedding vector]"@,
        llm_call(step, model, Json::Object(params), response, start, end).purpose == "action"@,
        llm_call(step, model, Json::Object(params), response, start, end).action_type
            == "runtime.use_model"@,
        start <= end ==> llm_call(step, model, Json::Object(params), response, start, end).latency_ms == end
            - start,
        start > end ==> llm_call(step, model, Json::Object(params), response, start, end).latency_ms == 0,
        llm_call(step, model, Json::Object(params), response, start, end).timestamp_ms == end,
{
}

/// What the parameters of a model do not say is kept as nothing: an empty text, zero.
pub proof fn what_is_not_said_is_nothing(
    step: Seq<char>,
    model: Seq<char>,
    params: Json,
    response: Seq<char>,
    start: int,
    end: i64,
)
    ensures
        text_field(params, "system"@) is None ==> llm_call(step, model, params, response, start, end).system_prompt
            == Seq::<char>::empty(),
        text_field(params, "prompt"@) is None ==> llm_call(step, model, params, response, start, end).user_prompt
            == Seq::<char>::empty(),
        !(field_of(params, "temperature"@) matches Some(Json::Number(_))) ==> llm_call(
            step,
            model,
            params,
            response,
            start,
            end,
        ).temperature == "0.0"@,
        !(field_of(params, "maxTokens"@) matches Some(Json::Number(Num::Int(_)))) ==> llm_call(
            step,
            model,
            params,
            response,
            start,
            end,
        ).max_tokens == 0,
{
}

/// Of a provider that was asked is kept for which step and which message, and when.
pub proof fn access_is_kept(step: Seq<char>, provider: Seq<char>, message: Seq<char>, now: i64)
    ensures
        provider_access(step, provider, Some(message), now) == (ProviderAccess {
            step_id: step,
            provider_name: provider,
            purpose: "compose_state"@,
            data: Map::empty(),
            query: Some(map!["message"@ => Json::String(kept(message))]),
            timestamp_ms: now,
        }),
        provider_access(step, provider, None, now) == (ProviderAccess {
            query: None,
            ..provider_access(step, provider, Some(message), now)
        }),
{
}

}
