//! The text of a prompt that asks for a structured answer.
use vstd::prelude::*;
use vstd::string::*;
use vstd::utf8::is_ascii_chars;
use crate::json::{json_entries, plain_text, Json};
use crate::json::JsonValue;
use crate::letters::to_uppercase;
use crate::letters::{ascii_upper, uppercase};
use crate::rewrite::{bytes_in, cut_tail, find_cut_from, glue, replace_all};
use crate::rewrite::{byte_len, can_cut, cut_from, cut_from_is_cut, glued, replaced, slices, tail_bytes};
use crate::string_map::{in_order, lists_in_order, order_exists, order_of_list};
use crate::string_map::StringMap;
use crate::text::contains_text;
use crate::text::same_text;

verus! {

broadcast use vstd::seq_lib::group_seq_properties;

/// A field of the answer that a prompt asks for.
pub struct SchemaRow {
    /// Name of the field.
    pub field: String,
    /// What the model is told to write there.
    pub description: String,
    /// Whether the field is checked by codes around it; by default this depends
    /// on the validation level.
    pub validate_field: Option<bool>,
}

/// What a schema row says.
#[verifier::ext_equal]
pub struct Row {
    pub field: Seq<char>,
    pub description: Seq<char>,
    pub validate_field: Option<bool>,
}

impl View for SchemaRow {
    type V = Row;

    open spec fn view(&self) -> Row {
        Row {
            field: self.field@,
            description: self.description@,
            validate_field: self.validate_field,
        }
    }
}

/// What the rows of a schema say.
pub open spec fn rows(schema: Seq<SchemaRow>) -> Seq<Row> {
    schema.map_values(|r: SchemaRow| r@)
}

/// The three codes that a prompt asks the model to repeat.
pub struct CheckpointCodes {
    pub initial: String,
    pub middle: String,
    pub end: String,
}

/// What the three codes are.
#[verifier::ext_equal]
pub struct Codes {
    pub initial: Seq<char>,
    pub middle: Seq<char>,
    pub end: Seq<char>,
}

impl View for CheckpointCodes {
    type V = Codes;

    open spec fn view(&self) -> Codes {
        Codes { initial: self.initial@, middle: self.middle@, end: self.end@ }
    }
}

// ---------------------------------------------------------------------------
// The template
// ---------------------------------------------------------------------------
/// What stands in a template for the state value `key`.
pub open spec fn placeholder(key: Seq<char>) -> Seq<char> {
    glued(seq!["{{"@, key, "}}"@])
}

/// The template with the placeholders of `keys`, one after another, replaced by
/// the texts of their values.
pub open spec fn filled(template: Seq<char>, keys: Seq<Seq<char>>, values: Map<Seq<char>, Json>) -> Seq<char>
    decreases keys.len(),
{
    if keys.len() == 0 {
        template
    } else {
        replaced(
            filled(template, keys.drop_last(), values),
            placeholder(keys.last()),
            plain_text(values[keys.last()]),
        )
    }
}

/// The template with every state value put in, in the order of their keys.
pub open spec fn rendered(template: Seq<char>, values: Map<Seq<char>, Json>) -> Seq<char> {
    filled(template, in_order(values.dom()), values)
}

/// No placeholder is empty.
proof fn placeholder_len(key: Seq<char>)
    ensures
        placeholder(key).len() > 0,
{
    reveal_strlit("{{");
    reveal_strlit("}}");
    let parts = seq!["{{"@, key, "}}"@];
    assert(glued(parts) == glued(parts.drop_last()) + parts.last());
}

/// Puts the state values into a template.
pub fn render_template(template: &str, values: &StringMap<JsonValue>) -> (r: String)
    ensures
        r@ == rendered(template@, json_entries(values@)),
{
    let ghost entries = json_entries(values@);
    let n: usize = values.len();
    let ghost keys = values.keys();
    assert(entries.dom() =~= values@.dom());
    let mut r = template.to_owned();
    for i in 0..n
        invariant
            n == keys.len(),
            keys == values.keys(),
            entries == json_entries(values@),
            r@ == filled(template@, keys.take(i as int), entries),
    {
        let key = values.key_at(i);
        let parts: Vec<&str> = vec!["{{", key.as_str(), "}}"];
        let mark = glue(&parts);
        proof {
            assert(slices(parts@) =~= seq!["{{"@, key@, "}}"@]);
            placeholder_len(key@);
            assert(keys.take(i + 1).drop_last() == keys.take(i as int));
        }
        let text = values.value_at(i).to_plain_text();
        r = replace_all(r.as_str(), mark.as_str(), text.as_str());
    }
    assert(keys.take(n as int) == keys);
    r
}

// ---------------------------------------------------------------------------
// The fields that are asked for
// ---------------------------------------------------------------------------
/// A field that the model is asked to write, and what to write there.
pub struct AskedField {
    pub name: String,
    pub text: String,
}

/// A field that the model is asked to write, and what to write there.
#[verifier::ext_equal]
pub struct Asked {
    pub name: Seq<char>,
    pub text: Seq<char>,
}

impl View for AskedField {
    type V = Asked;

    open spec fn view(&self) -> Asked {
        Asked { name: self.name@, text: self.text@ }
    }
}

/// What a sequence of fields asks for.
pub open spec fn asked_of(fields: Seq<AskedField>) -> Seq<Asked> {
    fields.map_values(|f: AskedField| f@)
}

/// The field for a code before the field `field`.
pub open spec fn start_code_field(field: Seq<char>) -> Seq<char> {
    glued(seq!["code_"@, field, "_start"@])
}

/// The field for a code behind the field `field`.
pub open spec fn end_code_field(field: Seq<char>) -> Seq<char> {
    glued(seq!["code_"@, field, "_end"@])
}

/// The three fields for the codes of the prompt, under a prefix.
pub open spec fn checkpoint_fields(prefix: Seq<char>) -> Seq<Asked> {
    seq![
        Asked {
            name: glued(seq![prefix, "initial_code"@]),
            text: "echo the initial UUID code from prompt"@,
        },
        Asked {
            name: glued(seq![prefix, "middle_code"@]),
            text: "echo the middle UUID code from prompt"@,
        },
        Asked {
            name: glued(seq![prefix, "end_code"@]),
            text: "echo the end UUID code from prompt"@,
        },
    ]
}

/// What a row of the schema asks for: the field, between two copies of its code
/// where it has one.
pub open spec fn row_fields(row: Row, codes: Map<Seq<char>, Seq<char>>) -> Seq<Asked> {
    let plain = Asked { name: row.field, text: row.description };
    if codes.contains_key(row.field) {
        let exactly = glued(seq!["output exactly: "@, codes[row.field]]);
        seq![
            Asked { name: start_code_field(row.field), text: exactly },
            plain,
            Asked { name: end_code_field(row.field), text: exactly },
        ]
    } else {
        seq![plain]
    }
}

/// What the rows of the schema ask for.
pub open spec fn schema_fields(rows: Seq<Row>, codes: Map<Seq<char>, Seq<char>>) -> Seq<Asked>
    decreases rows.len(),
{
    if rows.len() == 0 {
        Seq::empty()
    } else {
        schema_fields(rows.drop_last(), codes) + row_fields(rows.last(), codes)
    }
}

/// All that a prompt asks for: from level 2 on the codes before the fields, from
/// level 3 on also behind them.
pub open spec fn asked_fields(rows: Seq<Row>, codes: Map<Seq<char>, Seq<char>>, level: u8) -> Seq<Asked> {
    let before = if level >= 2 {
        checkpoint_fields("one_"@)
    } else {
        Seq::empty()
    };
    let behind = if level >= 3 {
        checkpoint_fields("two_"@)
    } else {
        Seq::empty()
    };
    before + schema_fields(rows, codes) + behind
}

/// What a map of codes holds.
pub open spec fn code_texts(codes: Map<Seq<char>, String>) -> Map<Seq<char>, Seq<char>> {
    codes.map_values(|s: String| s@)
}

/// The field for a code before the field `field`.
pub fn start_code_name(field: &str) -> (r: String)
    ensures
        r@ == start_code_field(field@),
{
    let parts: Vec<&str> = vec!["code_", field, "_start"];
    assert(slices(parts@) =~= seq!["code_"@, field@, "_start"@]);
    glue(&parts)
}

/// The field for a code behind the field `field`.
pub fn end_code_name(field: &str) -> (r: String)
    ensures
        r@ == end_code_field(field@),
{
    let parts: Vec<&str> = vec!["code_", field, "_end"];
    assert(slices(parts@) =~= seq!["code_"@, field@, "_end"@]);
    glue(&parts)
}

/// Adds the three fields for the codes of the prompt.
fn push_checkpoint_fields(fields: &mut Vec<AskedField>, prefix: &str)
    ensures
        asked_of(final(fields)@) == asked_of(old(fields)@) + checkpoint_fields(prefix@),
{
    let initial: Vec<&str> = vec![prefix, "initial_code"];
    let middle: Vec<&str> = vec![prefix, "middle_code"];
    let end: Vec<&str> = vec![prefix, "end_code"];
    assert(slices(initial@) =~= seq![prefix@, "initial_code"@]);
    assert(slices(middle@) =~= seq![prefix@, "middle_code"@]);
    assert(slices(end@) =~= seq![prefix@, "end_code"@]);
    fields.push(
        AskedField {
            name: glue(&initial),
            text: "echo the initial UUID code from prompt".to_owned(),
        },
    );
    fields.push(
        AskedField {
            name: glue(&middle),
            text: "echo the middle UUID code from prompt".to_owned(),
        },
    );
    fields.push(
        AskedField { name: glue(&end), text: "echo the end UUID code from prompt".to_owned() },
    );
    assert(asked_of(fields@) =~= asked_of(old(fields)@) + checkpoint_fields(prefix@));
}

/// Adds what a row of the schema asks for.
fn push_row_fields(fields: &mut Vec<AskedField>, row: &SchemaRow, codes: &StringMap<String>)
    ensures
        asked_of(final(fields)@) == asked_of(old(fields)@) + row_fields(row@, code_texts(codes@)),
{
    match codes.get(row.field.as_str()) {
        Some(code) => {
            let exactly: Vec<&str> = vec!["output exactly: ", code.as_str()];
            assert(slices(exactly@) =~= seq!["output exactly: "@, code@]);
            fields.push(
                AskedField { name: start_code_name(row.field.as_str()), text: glue(&exactly) },
            );
            fields.push(
                AskedField { name: row.field.clone(), text: row.description.clone() },
            );
            fields.push(
                AskedField { name: end_code_name(row.field.as_str()), text: glue(&exactly) },
            );
        },
        None => {
            fields.push(
                AskedField { name: row.field.clone(), text: row.description.clone() },
            );
        },
    }
    assert(asked_of(fields@) =~= asked_of(old(fields)@) + row_fields(row@, code_texts(codes@)));
}

/// All that a prompt asks for.
pub fn fields_to_ask(schema: &Vec<SchemaRow>, codes: &StringMap<String>, level: u8) -> (r: Vec<AskedField>)
    ensures
        asked_of(r@) == asked_fields(rows(schema@), code_texts(codes@), level),
{
    let mut fields: Vec<AskedField> = Vec::new();
    assert(asked_of(fields@) =~= Seq::empty());
    if level >= 2 {
        push_checkpoint_fields(&mut fields, "one_");
        assert(Seq::empty() + checkpoint_fields("one_"@) =~= checkpoint_fields("one_"@));
    }
    let ghost before = asked_of(fields@);
    assert(before + Seq::empty() =~= before);
    for i in 0..schema.len()
        invariant
            asked_of(fields@) == before + schema_fields(
                rows(schema@).take(i as int),
                code_texts(codes@),
            ),
    {
        push_row_fields(&mut fields, &schema[i], codes);
        let ghost all = rows(schema@);
        assert(all.take(i + 1).drop_last() == all.take(i as int));
        assert(all.take(i + 1).last() == schema@[i as int]@);
        assert(asked_of(fields@) =~= before + schema_fields(all.take(i + 1), code_texts(codes@)));
    }
    assert(rows(schema@).take(schema@.len() as int) == rows(schema@));
    if level >= 3 {
        push_checkpoint_fields(&mut fields, "two_");
    } else {
        assert(asked_of(fields@) + Seq::empty() =~= asked_of(fields@));
    }
    fields
}

// ---------------------------------------------------------------------------
// The prompt
// ---------------------------------------------------------------------------
/// The name of the answer's format, in upper case. The default is XML.
pub open spec fn format_name(forced: Option<Seq<char>>) -> Seq<char> {
    match forced {
        Some(f) => uppercase(f),
        None => "XML"@,
    }
}

/// Whether the answer is to be XML; otherwise it is JSON.
pub open spec fn wants_xml(format: Seq<char>) -> bool {
    format == "XML"@
}

/// What an answer starts with.
pub open spec fn container_start(xml: bool) -> Seq<char> {
    if xml {
        "<response>"@
    } else {
        "{"@
    }
}

/// What an answer ends with.
pub open spec fn container_end(xml: bool) -> Seq<char> {
    if xml {
        "</response>"@
    } else {
        "}"@
    }
}

/// One field of the example; in JSON a comma follows each but the last.
pub open spec fn example_line(xml: bool, field: Asked, last: bool) -> Seq<char> {
    if xml {
        glued(seq!["  <"@, field.name, ">"@, field.text, "</"@, field.name, ">\n"@])
    } else {
        glued(
            seq![
                "  \""@,
                field.name,
                "\": \""@,
                field.text,
                "\""@,
                if last {
                    ""@
                } else {
                    ","@
                },
                "\n"@,
            ],
        )
    }
}

/// The fields of the example, one on a line.
pub open spec fn example_lines(xml: bool, fields: Seq<Asked>) -> Seq<Seq<char>> {
    Seq::new(fields.len(), |i: int| example_line(xml, fields[i], i == fields.len() - 1))
}

/// An example of an answer.
pub open spec fn example(xml: bool, fields: Seq<Asked>) -> Seq<char> {
    glued(seq![container_start(xml), "\n"@, glued(example_lines(xml, fields)), container_end(xml)])
}

/// The parts of a prompt: the filled template between codes, then how to answer.
pub open spec fn prompt_parts(body: Seq<char>, format: Seq<char>, fields: Seq<Asked>, codes: Codes) -> Seq<Seq<char>> {
    let xml = wants_xml(format);
    let start = container_start(xml);
    let end = container_end(xml);
    seq![
        "initial code: "@,
        codes.initial,
        "\n"@,
        body,
        "\nmiddle code: "@,
        codes.middle,
        "\n"@,
        if xml {
            "<output>"@
        } else {
            "# Strict Output instructions"@
        },
        "\nDo NOT include any thinking, reasoning, or <think> sections in your response.\nGo directly to the "@,
        format,
        " response format without any preamble or explanation.\n\nRespond using "@,
        format,
        " format like this:\n"@,
        example(xml, fields),
        "\n\nIMPORTANT: Your response must ONLY contain the "@,
        start,
        end,
        " "@,
        format,
        " block above. Do not include any text, thinking, or reasoning before or after this "@,
        format,
        " block. Start your response immediately with "@,
        start,
        " and end with "@,
        end,
        ".\n"@,
        if xml {
            "</output>"@
        } else {
            ""@
        },
        "\nend code: "@,
        codes.end,
        "\n"@,
    ]
}

/// The whole prompt.
pub open spec fn full_prompt(body: Seq<char>, format: Seq<char>, fields: Seq<Asked>, codes: Codes) -> Seq<char> {
    glued(prompt_parts(body, format, fields, codes))
}

/// The name of the answer's format, in upper case.
pub fn answer_format(forced: &Option<String>) -> (r: String)
    ensures
        r@ == format_name(forced_text(*forced)),
        forced matches Some(f) ==> (is_ascii_chars(f@) ==> r@ == f@.map_values(
            |c: char| ascii_upper(c),
        )),
{
    match forced {
        Some(f) => to_uppercase(f.as_str()),
        None => "XML".to_owned(),
    }
}

/// What an optional string says.
pub open spec fn forced_text(forced: Option<String>) -> Option<Seq<char>> {
    match forced {
        Some(f) => Some(f@),
        None => None,
    }
}

/// Whether the answer is to be XML.
pub fn is_xml_format(format: &str) -> (r: bool)
    ensures
        r == wants_xml(format@),
{
    same_text(format, "XML")
}

/// One field of the example.
fn write_example_line(xml: bool, field: &AskedField, last: bool) -> (r: String)
    ensures
        r@ == example_line(xml, field@, last),
{
    let name = field.name.as_str();
    let text = field.text.as_str();
    if xml {
        let parts: Vec<&str> = vec!["  <", name, ">", text, "</", name, ">\n"];
        assert(slices(parts@) =~= seq!["  <"@, name@, ">"@, text@, "</"@, name@, ">\n"@]);
        glue(&parts)
    } else {
        let comma = if last {
            ""
        } else {
            ","
        };
        let parts: Vec<&str> = vec!["  \"", name, "\": \"", text, "\"", comma, "\n"];
        assert(slices(parts@) =~= seq![
            "  \""@,
            name@,
            "\": \""@,
            text@,
            "\""@,
            comma@,
            "\n"@,
        ]);
        glue(&parts)
    }
}

/// An example of an answer.
pub fn write_example(xml: bool, fields: &Vec<AskedField>) -> (r: String)
    ensures
        r@ == example(xml, asked_of(fields@)),
{
    let mut lines = String::new();
    let ghost all = example_lines(xml, asked_of(fields@));
    for i in 0..fields.len()
        invariant
            all == example_lines(xml, asked_of(fields@)),
            lines@ == glued(all.take(i as int)),
    {
        let line = write_example_line(xml, &fields[i], i == fields.len() - 1);
        lines.append(line.as_str());
        assert(all.take(i + 1).drop_last() == all.take(i as int));
        assert(all.take(i + 1).last() == line@);
    }
    assert(all.take(fields@.len() as int) == all);
    let start = if xml {
        "<response>"
    } else {
        "{"
    };
    let end = if xml {
        "</response>"
    } else {
        "}"
    };
    let parts: Vec<&str> = vec![start, "\n", lines.as_str(), end];
    assert(slices(parts@) =~= seq![start@, "\n"@, glued(all), end@]);
    glue(&parts)
}

/// The whole prompt.
pub fn write_prompt(body: &str, format: &str, fields: &Vec<AskedField>, codes: &CheckpointCodes) -> (r: String)
    ensures
        r@ == full_prompt(body@, format@, asked_of(fields@), codes@),
{
    let xml = is_xml_format(format);
    let shown = write_example(xml, fields);
    let start = if xml {
        "<response>"
    } else {
        "{"
    };
    let end = if xml {
        "</response>"
    } else {
        "}"
    };
    let opening = if xml {
        "<output>"
    } else {
        "# Strict Output instructions"
    };
    let closing = if xml {
        "</output>"
    } else {
        ""
    };
    let parts: Vec<&str> = vec![
        "initial code: ",
        codes.initial.as_str(),
        "\n",
        body,
        "\nmiddle code: ",
        codes.middle.as_str(),
        "\n",
        opening,
        "\nDo NOT include any thinking, reasoning, or <think> sections in your response.\nGo directly to the ",
        format,
        " response format without any preamble or explanation.\n\nRespond using ",
        format,
        " format like this:\n",
        shown.as_str(),
        "\n\nIMPORTANT: Your response must ONLY contain the ",
        start,
        end,
        " ",
        format,
        " block above. Do not include any text, thinking, or reasoning before or after this ",
        format,
        " block. Start your response immediately with ",
        start,
        " and end with ",
        end,
        ".\n",
        closing,
        "\nend code: ",
        codes.end.as_str(),
        "\n",
    ];
    assert(slices(parts@) =~= seq![
        "initial code: "@,
        codes.initial@,
        "\n"@,
        body@,
        "\nmiddle code: "@,
        codes.middle@,
        "\n"@,
        opening@,
        "\nDo NOT include any thinking, reasoning, or <think> sections in your response.\nGo directly to the "@,
        format@,
        " response format without any preamble or explanation.\n\nRespond using "@,
        format@,
        " format like this:\n"@,
        shown@,
        "\n\nIMPORTANT: Your response must ONLY contain the "@,
        start@,
        end@,
        " "@,
        format@,
        " block above. Do not include any text, thinking, or reasoning before or after this "@,
        format@,
        " block. Start your response immediately with "@,
        start@,
        " and end with "@,
        end@,
        ".\n"@,
        closing@,
        "\nend code: "@,
        codes.end@,
        "\n"@,
    ]);
    glue(&parts)
}

// ---------------------------------------------------------------------------
// Limits
// ---------------------------------------------------------------------------
/// How many bytes a prompt may take.
pub const MAX_PROMPT_CHARS: usize = 256000;

/// How many tokens fit into the context of a model.
pub const MODEL_CONTEXT_LIMIT: usize = 200000;

/// A prompt under the limit: of one that is too long, the end, from the first whole
/// character on with which it is not too long.
pub open spec fn trimmed_prompt(prompt: Seq<char>) -> Seq<char> {
    if byte_len(prompt) > MAX_PROMPT_CHARS {
        tail_bytes(prompt, cut_from(prompt, (byte_len(prompt) - MAX_PROMPT_CHARS) as nat) as int)
    } else {
        prompt
    }
}

/// How many tokens the answer may take after a prompt of `bytes` bytes, at two
/// bytes for a token and a thousand tokens to spare.
pub open spec fn token_limit(bytes: int) -> int {
    let left = MODEL_CONTEXT_LIMIT - bytes / 2;
    let available = if left < 0 {
        0
    } else if left < 1000 {
        0
    } else {
        left - 1000
    };
    if 4096 > available && available > 0 {
        if available < 1000 {
            1000
        } else {
            available
        }
    } else {
        4096
    }
}

/// A prompt under the limit.
pub fn trim_prompt(prompt: &str) -> (r: String)
    ensures
        r@ == trimmed_prompt(prompt@),
{
    let n: usize = bytes_in(prompt);
    if n > MAX_PROMPT_CHARS {
        cut_tail(prompt, find_cut_from(prompt, n - MAX_PROMPT_CHARS))
    } else {
        prompt.to_owned()
    }
}

/// How many tokens the answer may take after a prompt of `bytes` bytes.
pub fn limit_tokens(bytes: usize) -> (r: usize)
    ensures
        r == token_limit(bytes as int),
{
    let available: usize = MODEL_CONTEXT_LIMIT.saturating_sub(bytes / 2).saturating_sub(1000);
    if 4096 > available && available > 0 {
        if available < 1000 {
            1000
        } else {
            available
        }
    } else {
        4096
    }
}

/// Of a prompt that is too long, the end is what is left.
pub(crate) proof fn end_is_left(prompt: Seq<char>)
    requires
        byte_len(prompt) > MAX_PROMPT_CHARS,
    ensures
        trimmed_prompt(prompt).len() <= prompt.len(),
        trimmed_prompt(prompt) == prompt.skip(prompt.len() - trimmed_prompt(prompt).len()),
        byte_len(trimmed_prompt(prompt)) == byte_len(prompt) - cut_from(
            prompt,
            (byte_len(prompt) - MAX_PROMPT_CHARS) as nat,
        ),
        byte_len(trimmed_prompt(prompt)) <= MAX_PROMPT_CHARS,
{
    let bytes = vstd::utf8::encode_utf8(prompt);
    let over = (byte_len(prompt) - MAX_PROMPT_CHARS) as nat;
    let at = cut_from(prompt, over) as int;
    cut_from_is_cut(prompt, over);
    let head = vstd::utf8::decode_utf8(bytes.subrange(0, at));
    vstd::utf8::encode_utf8_valid_utf8(prompt);
    vstd::utf8::valid_utf8_split(bytes, at);
    vstd::utf8::decode_utf8_encode_utf8(bytes.subrange(at, bytes.len() as int));
    vstd::utf8::decode_utf8_split(bytes, at);
    vstd::utf8::encode_utf8_decode_utf8(prompt);
    assert(prompt == head + trimmed_prompt(prompt));
    assert(prompt.skip(head.len() as int) =~= trimmed_prompt(prompt));
}

/// A prompt that was brought under the limit takes no more bytes than the limit,
/// and leaves room in the context for a whole answer.
pub proof fn trimmed_prompt_fits(prompt: Seq<char>)
    ensures
        byte_len(trimmed_prompt(prompt)) <= MAX_PROMPT_CHARS,
        token_limit(byte_len(trimmed_prompt(prompt)) as int) == 4096,
        byte_len(trimmed_prompt(prompt)) / 2 + 4096 + 1000 <= MODEL_CONTEXT_LIMIT,
{
    if byte_len(prompt) > MAX_PROMPT_CHARS {
        end_is_left(prompt);
    }
}

/// Of a prompt that is too long, the end is sent: the last bytes, as many as are
/// allowed, where a character starts there.
pub proof fn trimmed_prompt_is_the_end(prompt: Seq<char>)
    ensures
        trimmed_prompt(prompt).len() <= prompt.len(),
        trimmed_prompt(prompt) == prompt.skip(prompt.len() - trimmed_prompt(prompt).len()),
        byte_len(prompt) > MAX_PROMPT_CHARS && can_cut(prompt, byte_len(prompt) - MAX_PROMPT_CHARS)
            ==> byte_len(trimmed_prompt(prompt)) == MAX_PROMPT_CHARS,
{
    if byte_len(prompt) > MAX_PROMPT_CHARS {
        end_is_left(prompt);
    } else {
        assert(prompt.skip(0) =~= prompt);
    }
}

/// A prompt within the limit is sent as it is.
pub proof fn short_prompt_is_kept(prompt: Seq<char>)
    requires
        byte_len(prompt) <= MAX_PROMPT_CHARS,
    ensures
        trimmed_prompt(prompt) == prompt,
{
}

/// A template in which no value has a place stays as it is.
pub proof fn template_without_places_is_kept(template: Seq<char>, values: Map<Seq<char>, Json>)
    requires
        values.dom().finite(),
        forall|key: Seq<char>| #[trigger]
            values.contains_key(key) ==> !contains_text(template, placeholder(key)),
    ensures
        rendered(template, values) == template,
{
    let keys = in_order(values.dom());
    order_exists(values.dom());
    assert forall|i: int| 0 <= i < keys.len() implies !contains_text(
        template,
        placeholder(#[trigger] keys[i]),
    ) by {
        assert(keys.contains(keys[i]));
        assert(values.contains_key(keys[i]));
    }
    nothing_to_fill(template, keys, values);
}

proof fn nothing_to_fill(template: Seq<char>, keys: Seq<Seq<char>>, values: Map<Seq<char>, Json>)
    requires
        forall|i: int|
            0 <= i < keys.len() ==> !contains_text(template, placeholder(#[trigger] keys[i])),
    ensures
        filled(template, keys, values) == template,
    decreases keys.len(),
{
    if keys.len() > 0 {
        let rest = keys.drop_last();
        assert forall|i: int| 0 <= i < rest.len() implies !contains_text(
            template,
            placeholder(#[trigger] rest[i]),
        ) by {
            assert(rest[i] == keys[i]);
        }
        nothing_to_fill(template, rest, values);
        assert(!contains_text(template, placeholder(keys[keys.len() - 1])));
        assert(template.skip(0) =~= template);
    }
}

/// One value takes all its places in a template.
pub proof fn value_takes_its_places(template: Seq<char>, key: Seq<char>, value: Json)
    ensures
        rendered(template, map![key => value]) == replaced(template, placeholder(key), plain_text(value)),
{
    let values = map![key => value];
    let keys = seq![key];
    assert(values.dom() =~= set![key]);
    assert forall|k: Seq<char>| #[trigger] keys.contains(k) <==> values.dom().contains(k) by {
        assert(keys[0] == key);
    }
    assert(lists_in_order(keys, values.dom()));
    order_of_list(keys, values.dom());
    assert(keys.drop_last() =~= Seq::<Seq<char>>::empty());
    reveal_with_fuel(filled, 2);
}

}
