//! Running a prompt that asks for a structured answer: ask, check the answer, and
//! ask again where it does not pass.
use vstd::prelude::*;
use vstd::string::*;
use crate::json::{json_entries, parsed_json, Json, Num};
use crate::json::{parse_json, JsonNumber, JsonValue};
use crate::letters::lowercase;
use crate::letters::to_lowercase;
use crate::models::{TEXT_LARGE, TEXT_SMALL};
use crate::prompt_check::{passes, required_texts, retry_note};
use crate::prompt_check::{check_answer, clean_response};
use crate::prompt_check::{remove_codes, write_retry_note};
use crate::prompt_check::{without_codes, without_thinking};
use crate::prompt_text::{answer_format, fields_to_ask, is_xml_format, limit_tokens};
use crate::prompt_text::{asked_fields, code_texts, forced_text, format_name, full_prompt};
use crate::prompt_text::{render_template, trim_prompt, write_prompt, CheckpointCodes, SchemaRow};
use crate::prompt_text::{rendered, rows, token_limit, trimmed_prompt, wants_xml, Row};
use crate::rewrite::{bytes_in, decimal_of, glue, join};
use crate::rewrite::{byte_len, decimal, glued, joined, slices, texts};
use crate::settings::{optional_setting, Setting};
use crate::settings::SettingValue;
use crate::string_map::StringMap;
use crate::supply::ask;
use crate::supply::{may_give, takes_all};
use crate::text::same_text;
use crate::xml::answer;
use crate::xml::parse_xml_to_json;

verus! {

broadcast use {vstd::seq_lib::group_seq_properties, crate::json::json_value_view};

/// Size of the model to ask.
#[derive(Debug, Clone, Copy, PartialEq, Eq, Structural)]
pub enum ModelSize {
    /// Small model for quick, less complex tasks.
    Small,
    /// Large model for complex reasoning tasks.
    Large,
}

/// Options for running a prompt. `B` says how long to wait between tries.
pub struct DynamicPromptOptions<B> {
    /// Size of the model to ask.
    pub model_size: Option<ModelSize>,
    /// Name of the model to ask, whatever its size.
    pub model: Option<String>,
    /// Format of the answer (json or xml).
    pub force_format: Option<String>,
    /// Fields that must be given.
    pub required_fields: Option<Vec<String>>,
    /// Validation level (0=trusted, 1=progressive, 2=checkpoint, 3=full).
    pub context_check_level: Option<u8>,
    /// How often to try again.
    pub max_retries: Option<u32>,
    /// How long to wait between tries.
    pub retry_backoff: Option<B>,
}

impl<B> Default for DynamicPromptOptions<B> {
    fn default() -> (r: DynamicPromptOptions<B>)
        ensures
            r == (DynamicPromptOptions::<B> {
                model_size: None,
                model: None,
                force_format: None,
                required_fields: None,
                context_check_level: None,
                max_retries: None,
                retry_backoff: None,
            }),
    {
        DynamicPromptOptions {
            model_size: None,
            model: None,
            force_format: None,
            required_fields: None,
            context_check_level: None,
            max_retries: None,
            retry_backoff: None,
        }
    }
}

// ---------------------------------------------------------------------------
// What the options mean
// ---------------------------------------------------------------------------
/// The model to ask: the one that is named, else the one of the given size, else
/// the large one.
pub open spec fn model_to_ask<B>(options: DynamicPromptOptions<B>) -> Seq<char> {
    match options.model {
        Some(m) => m@,
        None => if options.model_size == Some(ModelSize::Small) {
            TEXT_SMALL@
        } else {
            TEXT_LARGE@
        },
    }
}

/// The model to ask.
pub fn choose_model<B>(options: &DynamicPromptOptions<B>) -> (r: String)
    ensures
        r@ == model_to_ask(*options),
{
    match &options.model {
        Some(m) => m.clone(),
        None => match options.model_size {
            Some(ModelSize::Small) => TEXT_SMALL.to_owned(),
            Some(ModelSize::Large) => TEXT_LARGE.to_owned(),
            None => TEXT_LARGE.to_owned(),
        },
    }
}

/// The validation level and the number of retries that a word stands for.
pub open spec fn levels_of_word(word: Seq<char>) -> (u8, u32) {
    if word == "trusted"@ || word == "fast"@ {
        (0u8, 0u32)
    } else if word == "progressive"@ {
        (1u8, 2u32)
    } else if word == "strict"@ || word == "safe"@ {
        (3u8, 3u32)
    } else {
        (2u8, 1u32)
    }
}

/// The validation level and the number of retries that a setting stands for.
pub open spec fn levels_of_setting(setting: Option<Setting>) -> (u8, u32) {
    match setting {
        Some(Setting::String(s)) => levels_of_word(lowercase(s)),
        _ => (2u8, 1u32),
    }
}

/// The validation level and the number of retries that a word stands for.
pub fn word_levels(word: &str) -> (r: (u8, u32))
    ensures
        r == levels_of_word(word@),
{
    if same_text(word, "trusted") || same_text(word, "fast") {
        (0, 0)
    } else if same_text(word, "progressive") {
        (1, 2)
    } else if same_text(word, "strict") || same_text(word, "safe") {
        (3, 3)
    } else {
        (2, 1)
    }
}

/// The validation level and the number of retries that a setting stands for.
pub fn setting_levels(setting: &Option<SettingValue>) -> (r: (u8, u32))
    ensures
        r == levels_of_setting(optional_setting(*setting)),
{
    match setting {
        Some(SettingValue::String(s)) => {
            let word = to_lowercase(s.as_str());
            word_levels(word.as_str())
        },
        _ => (2, 1),
    }
}

/// The names of the fields in a schema, one after another.
pub open spec fn field_list(rows: Seq<Row>) -> Seq<Seq<char>> {
    rows.map_values(|r: Row| r.field)
}

/// What the codes of a prompt are made from: the model and the fields.
pub open spec fn seed_label(model: Seq<char>, rows: Seq<Row>) -> Seq<char> {
    glued(seq!["dynamic-prompt:"@, model, ":"@, joined(field_list(rows), ","@)])
}

/// What the codes of a prompt are made from.
pub fn write_seed_label(model: &str, schema: &Vec<SchemaRow>) -> (r: String)
    ensures
        r@ == seed_label(model@, rows(schema@)),
{
    let mut names: Vec<String> = Vec::new();
    let ghost all = field_list(rows(schema@));
    assert(texts(names@) =~= all.take(0));
    for i in 0..schema.len()
        invariant
            all == field_list(rows(schema@)),
            texts(names@) == all.take(i as int),
    {
        let ghost before = names@;
        names.push(schema[i].field.clone());
        assert(texts(names@) =~= texts(before).push(schema@[i as int].field@));
        assert(all.take(i + 1) =~= all.take(i as int).push(all[i as int]));
    }
    assert(all.take(schema@.len() as int) == all);
    let key = join(&names, ",");
    let parts: Vec<&str> = vec!["dynamic-prompt:", model, ":", key.as_str()];
    assert(slices(parts@) =~= seq!["dynamic-prompt:"@, model@, ":"@, key@]);
    glue(&parts)
}

// ---------------------------------------------------------------------------
// Codes
// ---------------------------------------------------------------------------
/// A row's field is checked by codes around it: where the row says so, and by
/// default on level 1.
pub open spec fn needs_code(row: Row, level: u8) -> bool {
    row.validate_field.unwrap_or(level == 1)
}

/// The fields that are checked by codes around them. From level 2 on there are
/// none.
pub open spec fn coded_fields(rows: Seq<Row>, level: u8) -> Set<Seq<char>> {
    Set::new(
        |f: Seq<char>|
            level <= 1 && exists|i: int|
                0 <= i < rows.len() && (#[trigger] rows[i]).field == f && needs_code(rows[i], level),
    )
}

/// What the code of a field is made from.
pub open spec fn field_code_label(field: Seq<char>) -> Seq<char> {
    glued(seq!["field-code:"@, field])
}

/// `codes` are codes that `hex` may give for the fields of a schema.
pub open spec fn may_be_field_codes<F: Fn(&String) -> String>(
    hex: F,
    rows: Seq<Row>,
    level: u8,
    codes: Map<Seq<char>, Seq<char>>,
) -> bool {
    &&& codes.dom() == coded_fields(rows, level)
    &&& forall|f: Seq<char>| #[trigger]
        codes.contains_key(f) ==> may_give(hex, field_code_label(f), codes[f])
}

/// Makes the codes of the fields that are checked by codes around them.
pub fn make_field_codes<F: Fn(&String) -> String>(schema: &Vec<SchemaRow>, level: u8, hex: &F) -> (r: StringMap<
    String,
>)
    requires
        takes_all(*hex),
    ensures
        may_be_field_codes(*hex, rows(schema@), level, code_texts(r@)),
{
    let mut codes: StringMap<String> = StringMap::new();
    let ghost all = rows(schema@);
    if level <= 1 {
        for i in 0..schema.len()
            invariant
                level <= 1,
                takes_all(*hex),
                all == rows(schema@),
                forall|f: Seq<char>| #[trigger]
                    codes@.contains_key(f) <==> exists|j: int|
                        0 <= j < i && (#[trigger] all[j]).field == f && needs_code(all[j], level),
                forall|f: Seq<char>| #[trigger]
                    codes@.contains_key(f) ==> may_give(*hex, field_code_label(f), codes@[f]@),
        {
            let ghost held = codes@;
            assert(all[i as int] == schema@[i as int]@);
            let needed = match schema[i].validate_field {
                Some(b) => b,
                None => level == 1,
            };
            if needed {
                let field = schema[i].field.as_str();
                let parts: Vec<&str> = vec!["field-code:", field];
                assert(slices(parts@) =~= seq!["field-code:"@, field@]);
                let label = glue(&parts);
                let code = ask(hex, &label);
                codes.insert(schema[i].field.clone(), code);
            }
            assert forall|f: Seq<char>| #[trigger]
                codes@.contains_key(f) <==> exists|j: int|
                    0 <= j < i + 1 && (#[trigger] all[j]).field == f && needs_code(all[j], level) by {
                assert(codes@.contains_key(f) <==> held.contains_key(f) || (needed && f
                    == all[i as int].field));
            }
        }
    }
    assert(code_texts(codes@).dom() =~= coded_fields(all, level));
    codes
}

/// What one of the three codes of a prompt is made from.
pub open spec fn checkpoint_label(kind: Seq<char>, retry: nat) -> Seq<char> {
    glued(seq![kind, decimal(retry)])
}

/// `codes` are codes that `uuid` may give for try number `retry`.
pub open spec fn may_be_checkpoints<F: Fn(&String) -> String>(uuid: F, retry: nat, codes: CheckpointCodes) -> bool {
    &&& may_give(uuid, checkpoint_label("init-code:"@, retry), codes.initial@)
    &&& may_give(uuid, checkpoint_label("mid-code:"@, retry), codes.middle@)
    &&& may_give(uuid, checkpoint_label("final-code:"@, retry), codes.end@)
}

/// Makes one of the three codes of a prompt.
fn make_checkpoint<F: Fn(&String) -> String>(kind: &str, retry: u64, uuid: &F) -> (r: String)
    requires
        takes_all(*uuid),
    ensures
        may_give(*uuid, checkpoint_label(kind@, retry as nat), r@),
{
    let number = decimal_of(retry as u128);
    let parts: Vec<&str> = vec![kind, number.as_str()];
    assert(slices(parts@) =~= seq![kind@, number@]);
    let label = glue(&parts);
    ask(uuid, &label)
}

/// Makes the three codes of a prompt.
pub fn make_checkpoints<F: Fn(&String) -> String>(retry: u64, uuid: &F) -> (r: CheckpointCodes)
    requires
        takes_all(*uuid),
    ensures
        may_be_checkpoints(*uuid, retry as nat, r),
{
    CheckpointCodes {
        initial: make_checkpoint("init-code:", retry, uuid),
        middle: make_checkpoint("mid-code:", retry, uuid),
        end: make_checkpoint("final-code:", retry, uuid),
    }
}

// ---------------------------------------------------------------------------
// The session
// ---------------------------------------------------------------------------
/// A prompt that is being run.
pub struct PromptSession<B> {
    /// The prompt, with places for the values of the state.
    pub template: String,
    /// The fields to ask for.
    pub schema: Vec<SchemaRow>,
    /// The values of the state.
    pub values: StringMap<JsonValue>,
    pub options: DynamicPromptOptions<B>,
    /// The model to ask.
    pub model: String,
    /// The validation level.
    pub level: u8,
    /// How often to try again.
    pub max_retries: u32,
    /// How often it was tried again.
    pub retry: u64,
    /// The codes of the fields.
    pub field_codes: StringMap<String>,
    /// The three codes of the last prompt.
    pub codes: CheckpointCodes,
    /// What the model is told about its last try.
    pub note: Option<String>,
    /// What the model last failed with.
    pub last_error: Option<String>,
}

/// What is sent to a model.
pub struct ModelRequest {
    pub model: String,
    pub params: JsonValue,
}

/// What comes of an answer.
pub enum Verdict {
    /// The answer passed; this is what it says.
    Accepted(JsonValue),
    /// Ask again, after a pause where `pause` is set.
    Retry { pause: bool },
    /// There is no try left.
    GaveUp,
}

/// What an optional JSON value is.
pub open spec fn optional_json(v: Option<JsonValue>) -> Option<Json> {
    match v {
        Some(j) => Some(j@),
        None => None,
    }
}

/// What an optional text is behind another: nothing where there is none.
pub open spec fn with_note(body: Seq<char>, note: Option<Seq<char>>) -> Seq<char> {
    match note {
        Some(n) => body + n,
        None => body,
    }
}

/// The parameters of a request.
pub open spec fn request_params(prompt: Seq<char>, max_tokens: int) -> Json {
    Json::Object(
        map![
            "prompt"@ => Json::String(prompt),
            "maxTokens"@ => Json::Number(Num::Int(max_tokens)),
        ],
    )
}

/// What an answer says, read as XML or as JSON.
pub open spec fn read_as(xml: bool, clean: Seq<char>) -> Option<Json> {
    if xml {
        answer(clean)
    } else {
        parsed_json(clean)
    }
}

impl<B> PromptSession<B> {
    /// There is a try left.
    pub open spec fn running(self) -> bool {
        self.retry <= self.max_retries
    }

    /// The name of the answer's format.
    pub open spec fn format(self) -> Seq<char> {
        format_name(forced_text(self.options.force_format))
    }

    /// The whole prompt.
    pub open spec fn prompt(self) -> Seq<char> {
        full_prompt(
            with_note(
                rendered(self.template@, json_entries(self.values@)),
                forced_text(self.note),
            ),
            self.format(),
            asked_fields(rows(self.schema@), code_texts(self.field_codes@), self.level),
            self.codes@,
        )
    }

    /// The answer passes all checks.
    pub open spec fn accepts(self, content: Option<Json>) -> bool {
        content matches Some(c) && passes(
            c,
            self.level,
            code_texts(self.field_codes@),
            self.codes@,
            required_texts(self.options.required_fields),
        )
    }

    /// What the model is told about an answer that does not pass. On level 1 it is
    /// told what it got right; where that is nothing, it is told what it was told
    /// before.
    pub open spec fn note_after(self, content: Option<Json>) -> Option<Seq<char>> {
        let new = match content {
            Some(c) => if self.level == 1 {
                retry_note(c, rows(self.schema@), code_texts(self.field_codes@))
            } else {
                None
            },
            None => None,
        };
        if new is Some {
            new
        } else {
            forced_text(self.note)
        }
    }

    /// What comes of a try that failed.
    pub open spec fn after_failure(self) -> Verdict {
        if self.retry + 1 <= self.max_retries {
            Verdict::Retry { pause: self.options.retry_backoff is Some }
        } else {
            Verdict::GaveUp
        }
    }

    /// The level and the number of retries are those of the options, and where these say
    /// nothing those that the setting stands for.
    pub open spec fn goes_by(self, setting: Option<Setting>) -> bool {
        &&& self.level == match self.options.context_check_level {
            Some(level) => level,
            None => levels_of_setting(setting).0,
        }
        &&& self.max_retries == match self.options.max_retries {
            Some(n) => n,
            None => levels_of_setting(setting).1,
        }
    }

    /// `params` are what is sent to the model with the codes that the session has.
    pub open spec fn asks_with(self, params: Json) -> bool {
        exists|sent: Seq<char>|
            sent == trimmed_prompt(self.prompt()) && params == #[trigger] request_params(
                sent,
                token_limit(byte_len(sent) as int),
            )
    }

    /// `after` is the session after a try that failed, in which `content` was read.
    pub open spec fn failed_with(self, after: PromptSession<B>, content: Option<Json>) -> bool {
        &&& after.retry == self.retry + 1
        &&& forced_text(after.note) == self.note_after(content)
        &&& after == (PromptSession { retry: after.retry, note: after.note, ..self })
    }

    /// `verdict` is what comes of an answer in which `content` was read, and `after` is
    /// the session then: an answer that passes is handed on without its codes, and any
    /// other takes a try.
    pub open spec fn comes_to(self, after: PromptSession<B>, verdict: Verdict, content: Option<Json>) -> bool {
        match verdict {
            Verdict::Accepted(v) => {
                &&& self.accepts(content)
                &&& after == self
                &&& v@ == without_codes(content->Some_0, self.field_codes@.dom(), self.level)
            },
            Verdict::Retry { pause } => {
                &&& !self.accepts(content)
                &&& self.failed_with(after, content)
                &&& after.running()
                &&& pause == (self.options.retry_backoff is Some)
            },
            Verdict::GaveUp => {
                &&& !self.accepts(content)
                &&& self.failed_with(after, content)
                &&& !after.running()
            },
        }
    }

    /// Starts running a prompt. `setting` is the validation level that is set for
    /// the runtime; `hex` makes the codes of the fields.
    pub fn start<F: Fn(&String) -> String>(
        template: String,
        schema: Vec<SchemaRow>,
        values: StringMap<JsonValue>,
        options: DynamicPromptOptions<B>,
        setting: &Option<SettingValue>,
        hex: &F,
    ) -> (r: PromptSession<B>)
        requires
            takes_all(*hex),
        ensures
            r.running(),
            r.template == template,
            r.schema == schema,
            r.values == values,
            r.options == options,
            r.model@ == model_to_ask(options),
            r.level == options.context_check_level.unwrap_or(
                levels_of_setting(optional_setting(*setting)).0,
            ),
            r.max_retries == options.max_retries.unwrap_or(
                levels_of_setting(optional_setting(*setting)).1,
            ),
            r.retry == 0,
            may_be_field_codes(*hex, rows(schema@), r.level, code_texts(r.field_codes@)),
            r.note is None,
            r.last_error is None,
            r.goes_by(optional_setting(*setting)),
    {
        let (default_level, default_retries) = setting_levels(setting);
        let level: u8 = match options.context_check_level {
            Some(l) => l,
            None => default_level,
        };
        let max_retries: u32 = match options.max_retries {
            Some(n) => n,
            None => default_retries,
        };
        let model = choose_model(&options);
        let field_codes = make_field_codes(&schema, level, hex);
        PromptSession {
            template,
            schema,
            values,
            options,
            model,
            level,
            max_retries,
            retry: 0,
            field_codes,
            codes: CheckpointCodes {
                initial: String::new(),
                middle: String::new(),
                end: String::new(),
            },
            note: None,
            last_error: None,
        }
    }

    /// Makes the codes for the next prompt and writes what to send to the model.
    pub fn request<F: Fn(&String) -> String>(&mut self, uuid: &F) -> (r: ModelRequest)
        requires
            takes_all(*uuid),
        ensures
            *final(self) == (PromptSession { codes: final(self).codes, ..*old(self) }),
            may_be_checkpoints(*uuid, old(self).retry as nat, final(self).codes),
            r.model@ == final(self).model@,
            ({
                let sent = trimmed_prompt(final(self).prompt());
                r.params@ == request_params(sent, token_limit(byte_len(sent) as int))
            }),
            final(self).asks_with(r.params@),
    {
        self.codes = make_checkpoints(self.retry, uuid);
        let prompt = self.write();
        let sent = trim_prompt(prompt.as_str());
        let max_tokens: usize = limit_tokens(bytes_in(sent.as_str()));
        ModelRequest { model: self.model.clone(), params: write_params(sent, max_tokens) }
    }

    /// Writes the whole prompt.
    pub fn write(&self) -> (r: String)
        ensures
            r@ == self.prompt(),
    {
        let mut body = render_template(self.template.as_str(), &self.values);
        match &self.note {
            Some(n) => {
                body.append(n.as_str());
            },
            None => {},
        }
        let format = answer_format(&self.options.force_format);
        let fields = fields_to_ask(&self.schema, &self.field_codes, self.level);
        write_prompt(body.as_str(), format.as_str(), &fields, &self.codes)
    }

    /// Takes note that the model could not be asked.
    pub fn fail(&mut self, error: &str) -> (r: Verdict)
        requires
            old(self).running(),
        ensures
            *final(self) == (PromptSession {
                retry: (old(self).retry + 1) as u64,
                last_error: final(self).last_error,
                ..*old(self)
            }),
            forced_text(final(self).last_error) == Some(
                glued(seq!["Model call failed: "@, error@]),
            ),
            r == old(self).after_failure(),
            final(self).running() <==> r is Retry,
    {
        let parts: Vec<&str> = vec!["Model call failed: ", error];
        assert(slices(parts@) =~= seq!["Model call failed: "@, error@]);
        self.last_error = Some(glue(&parts));
        self.retry += 1;
        self.next_try()
    }

    /// Whether to ask again.
    fn next_try(&self) -> (r: Verdict)
        ensures
            r == (if self.retry <= self.max_retries {
                Verdict::Retry { pause: self.options.retry_backoff is Some }
            } else {
                Verdict::GaveUp
            }),
    {
        if self.retry <= self.max_retries as u64 {
            Verdict::Retry { pause: self.options.retry_backoff.is_some() }
        } else {
            Verdict::GaveUp
        }
    }

    /// Judges what an answer says: `content` is what could be read out of it.
    pub fn judge(&mut self, content: Option<JsonValue>) -> (r: Verdict)
        requires
            old(self).running(),
        ensures
            old(self).accepts(optional_json(content)) ==> {
                &&& *final(self) == *old(self)
                &&& r matches Verdict::Accepted(v) && v@ == without_codes(
                    optional_json(content)->Some_0,
                    old(self).field_codes@.dom(),
                    old(self).level,
                )
            },
            !old(self).accepts(optional_json(content)) ==> {
                &&& *final(self) == (PromptSession {
                    retry: (old(self).retry + 1) as u64,
                    note: final(self).note,
                    ..*old(self)
                })
                &&& forced_text(final(self).note) == old(self).note_after(optional_json(content))
                &&& r == old(self).after_failure()
                &&& final(self).running() <==> r is Retry
            },
            old(self).comes_to(*final(self), r, optional_json(content)),
    {
        match content {
            Some(c) => {
                if check_answer(
                    &c,
                    self.level,
                    &self.field_codes,
                    &self.codes,
                    &self.options.required_fields,
                ) {
                    return Verdict::Accepted(remove_codes(c, &self.field_codes, self.level));
                }
                if self.level == 1 {
                    match write_retry_note(&c, &self.schema, &self.field_codes) {
                        Some(n) => {
                            self.note = Some(n);
                        },
                        None => {},
                    }
                }
            },
            None => {},
        }
        self.retry += 1;
        self.next_try()
    }

    /// Judges the answer of the model.
    pub fn reply(&mut self, response: &str) -> (r: Verdict)
        requires
            old(self).running(),
        ensures
            ({
                let content = read_as(wants_xml(old(self).format()), without_thinking(response@));
                if old(self).accepts(content) {
                    &&& *final(self) == *old(self)
                    &&& r matches Verdict::Accepted(v) && v@ == without_codes(
                        content->Some_0,
                        old(self).field_codes@.dom(),
                        old(self).level,
                    )
                } else {
                    &&& *final(self) == (PromptSession {
                        retry: (old(self).retry + 1) as u64,
                        note: final(self).note,
                        ..*old(self)
                    })
                    &&& forced_text(final(self).note) == old(self).note_after(content)
                    &&& r == old(self).after_failure()
                    &&& final(self).running() <==> r is Retry
                }
            }),
            old(self).comes_to(
                *final(self),
                r,
                read_as(wants_xml(old(self).format()), without_thinking(response@)),
            ),
    {
        let clean = clean_response(response);
        let format = answer_format(&self.options.force_format);
        let content = if is_xml_format(format.as_str()) {
            parse_xml_to_json(clean.as_str())
        } else {
            parse_json(clean.as_str())
        };
        self.judge(content)
    }
}

/// Writes the parameters of a request.
fn write_params(prompt: String, max_tokens: usize) -> (r: JsonValue)
    ensures
        r@ == request_params(prompt@, max_tokens as int),
{
    let mut m: StringMap<JsonValue> = StringMap::new();
    let ghost text = prompt@;
    m.insert("prompt".to_owned(), JsonValue::String(prompt));
    m.insert("maxTokens".to_owned(), JsonValue::Number(JsonNumber::PosInt(max_tokens as u64)));
    assert(json_entries(m@) =~= map![
        "prompt"@ => Json::String(text),
        "maxTokens"@ => Json::Number(Num::Int(max_tokens as int)),
    ]);
    JsonValue::Object(m)
}

}
