//! Laws of what is sent to a model: templates, the fields that are asked for, examples,
//! limits and labels.
use vstd::prelude::*;
use crate::json::{field_of, json_entries, plain_text, text_field, Json, Num};
use crate::letters::{lowercase, uppercase};
use crate::prompt_check::retry_note;
use crate::prompt_exec::{checkpoint_label, coded_fields, field_code_label, levels_of_setting, levels_of_word};
use crate::prompt_exec::{may_be_checkpoints, may_be_field_codes, model_to_ask, request_params, seed_label, with_note};
use crate::prompt_exec::{DynamicPromptOptions, ModelSize, PromptSession, Verdict};
use crate::prompt_text::{asked_fields, checkpoint_fields, code_texts, end_is_left, example, example_lines, filled};
use crate::prompt_text::{forced_text, format_name, full_prompt, placeholder, prompt_parts, rendered, rows};
use crate::prompt_text::{schema_fields, token_limit, trimmed_prompt, trimmed_prompt_fits, trimmed_prompt_is_the_end};
use crate::prompt_text::wants_xml;
use crate::prompt_text::{Asked, CheckpointCodes, Codes, Row};
use crate::rewrite::{byte_len, can_cut, cut_from_is_first, decimal, decimal_is_unique, glued, joined, replaced};
use crate::settings::Setting;
use crate::string_map::{in_order, order_exists, order_of_list, text_lt, text_lt_irreflexive};
use crate::supply::may_give;

verus! {

broadcast use vstd::seq_lib::group_seq_properties;

proof fn one_more(parts: Seq<Seq<char>>, k: int)
    requires
        0 <= k < parts.len(),
    ensures
        glued(parts.take(k + 1)) == glued(parts.take(k)) + parts[k],
{
    assert(parts.take(k + 1).drop_last() =~= parts.take(k));
}

proof fn nothing_yet(parts: Seq<Seq<char>>)
    ensures
        glued(parts.take(0)) + parts[0] == parts[0],
        parts.take(parts.len() as int) == parts,
{
    assert(parts.take(0) =~= Seq::<Seq<char>>::empty());
    assert(glued(parts.take(0)) + parts[0] =~= parts[0]);
    assert(parts.take(parts.len() as int) =~= parts);
}

proof fn two(a: Seq<char>, b: Seq<char>)
    ensures
        glued(seq![a, b]) == a + b,
{
    let parts = seq![a, b];
    nothing_yet(parts);
    one_more(parts, 0);
    one_more(parts, 1);
}

pub(crate) proof fn three(a: Seq<char>, b: Seq<char>, c: Seq<char>)
    ensures
        glued(seq![a, b, c]) == a + b + c,
{
    let parts = seq![a, b, c];
    nothing_yet(parts);
    one_more(parts, 0);
    one_more(parts, 1);
    one_more(parts, 2);
}

proof fn thirty(parts: Seq<Seq<char>>)
    requires
        parts.len() == 30,
    ensures
        glued(parts) == parts[0] + parts[1] + parts[2] + parts[3] + parts[4] + parts[5] + parts[6]
            + parts[7] + parts[8] + parts[9] + parts[10] + parts[11] + parts[12] + parts[13]
            + parts[14] + parts[15] + parts[16] + parts[17] + parts[18] + parts[19] + parts[20]
            + parts[21] + parts[22] + parts[23] + parts[24] + parts[25] + parts[26] + parts[27]
            + parts[28] + parts[29],
{
    nothing_yet(parts);
    one_more(parts, 0);
    one_more(parts, 1);
    one_more(parts, 2);
    one_more(parts, 3);
    one_more(parts, 4);
    one_more(parts, 5);
    one_more(parts, 6);
    one_more(parts, 7);
    one_more(parts, 8);
    one_more(parts, 9);
    one_more(parts, 10);
    one_more(parts, 11);
    one_more(parts, 12);
    one_more(parts, 13);
    one_more(parts, 14);
    one_more(parts, 15);
    one_more(parts, 16);
    one_more(parts, 17);
    one_more(parts, 18);
    one_more(parts, 19);
    one_more(parts, 20);
    one_more(parts, 21);
    one_more(parts, 22);
    one_more(parts, 23);
    one_more(parts, 24);
    one_more(parts, 25);
    one_more(parts, 26);
    one_more(parts, 27);
    one_more(parts, 28);
    one_more(parts, 29);
}

// ---------------------------------------------------------------------------
// Templates
// ---------------------------------------------------------------------------
/// The place of a value is its key between two pairs of braces.
pub proof fn place_is_key_in_braces(key: Seq<char>)
    ensures
        placeholder(key) == "{{"@ + key + "}}"@,
{
    three("{{"@, key, "}}"@);
}

proof fn filled_by_keys(template: Seq<char>, keys: Seq<Seq<char>>, a: Map<Seq<char>, Json>, b: Map<Seq<char>, Json>)
    requires
        forall|i: int| 0 <= i < keys.len() ==> a[#[trigger] keys[i]] == b[keys[i]],
    ensures
        filled(template, keys, a) == filled(template, keys, b),
    decreases keys.len(),
{
    if keys.len() > 0 {
        let rest = keys.drop_last();
        assert forall|i: int| 0 <= i < rest.len() implies a[#[trigger] rest[i]] == b[rest[i]] by {
            assert(rest[i] == keys[i]);
        }
        filled_by_keys(template, rest, a, b);
        assert(a[keys[keys.len() - 1]] == b[keys[keys.len() - 1]]);
    }
}

/// Every value takes all its places: a value with the last key takes them in what the
/// others made of the template, and without values the template stays as it is.
pub proof fn one_more_value_takes_its_places(
    template: Seq<char>,
    values: Map<Seq<char>, Json>,
    key: Seq<char>,
    value: Json,
)
    requires
        values.dom().finite(),
        forall|k: Seq<char>| #[trigger] values.contains_key(k) ==> text_lt(k, key),
    ensures
        rendered(template, values.insert(key, value)) == replaced(
            rendered(template, values),
            "{{"@ + key + "}}"@,
            plain_text(value),
        ),
        rendered(template, Map::empty()) == template,
{
    place_is_key_in_braces(key);
    let more = values.insert(key, value);
    let keys = in_order(values.dom());
    let all = keys.push(key);
    order_exists(values.dom());
    text_lt_irreflexive(key);
    assert forall|k: Seq<char>| #[trigger] all.contains(k) <==> more.dom().contains(k) by {
        assert(keys.contains(k) <==> values.dom().contains(k));
        if keys.contains(k) {
            let i = choose|i: int| 0 <= i < keys.len() && keys[i] == k;
            assert(all[i] == k);
        }
        if k == key {
            assert(all[keys.len() as int] == k);
        }
        if all.contains(k) && k != key {
            let i = choose|i: int| 0 <= i < all.len() && all[i] == k;
            assert(keys[i] == k);
        }
    }
    assert forall|i: int, j: int| 0 <= i < j < all.len() implies text_lt(
        #[trigger] all[i],
        #[trigger] all[j],
    ) by {
        assert(all[i] == keys[i]);
        assert(keys.contains(keys[i]));
        assert(values.contains_key(keys[i]));
        if j < keys.len() {
            assert(all[j] == keys[j]);
        }
    }
    order_of_list(all, more.dom());
    assert(all.drop_last() =~= keys);
    assert forall|i: int| 0 <= i < keys.len() implies more[#[trigger] keys[i]] == values[keys[i]] by {
        assert(keys.contains(keys[i]));
        assert(values.contains_key(keys[i]));
    }
    filled_by_keys(template, keys, more, values);
    let none = Map::<Seq<char>, Json>::empty();
    order_exists(none.dom());
    let no_keys = in_order(none.dom());
    if no_keys.len() > 0 {
        assert(no_keys.contains(no_keys[0]));
    }
}

// ---------------------------------------------------------------------------
// What is asked for
// ---------------------------------------------------------------------------
/// The rows of a schema are asked for one after another, each with its description; one
/// with a code between two fields in which the code is to be written.
pub proof fn rows_are_asked_in_order(a: Seq<Row>, b: Seq<Row>, row: Row, codes: Map<Seq<char>, Seq<char>>)
    ensures
        schema_fields(a + b, codes) == schema_fields(a, codes) + schema_fields(b, codes),
        schema_fields(Seq::empty(), codes) == Seq::<Asked>::empty(),
        !codes.contains_key(row.field) ==> schema_fields(seq![row], codes) == seq![
            Asked { name: row.field, text: row.description },
        ],
        codes.contains_key(row.field) ==> schema_fields(seq![row], codes) == seq![
            Asked {
                name: "code_"@ + row.field + "_start"@,
                text: "output exactly: "@ + codes[row.field],
            },
            Asked { name: row.field, text: row.description },
            Asked {
                name: "code_"@ + row.field + "_end"@,
                text: "output exactly: "@ + codes[row.field],
            },
        ],
    decreases b.len(),
{
    let f = row.field;
    three("code_"@, f, "_start"@);
    three("code_"@, f, "_end"@);
    two("output exactly: "@, codes[f]);
    reveal_with_fuel(schema_fields, 2);
    assert(seq![row].drop_last() =~= Seq::<Row>::empty());
    let one = schema_fields(seq![row], codes);
    if codes.contains_key(f) {
        assert(one =~= seq![
            Asked { name: "code_"@ + f + "_start"@, text: "output exactly: "@ + codes[f] },
            Asked { name: f, text: row.description },
            Asked { name: "code_"@ + f + "_end"@, text: "output exactly: "@ + codes[f] },
        ]);
    } else {
        assert(one =~= seq![Asked { name: f, text: row.description }]);
    }
    if b.len() == 0 {
        assert(a + b =~= a);
        assert(schema_fields(a, codes) + schema_fields(b, codes) =~= schema_fields(a, codes));
    } else {
        assert((a + b).drop_last() =~= a + b.drop_last());
        assert((a + b).last() == b.last());
        rows_are_asked_in_order(a, b.drop_last(), row, codes);
        assert(schema_fields(a + b, codes) =~= schema_fields(a, codes) + schema_fields(b, codes));
    }
}

/// Up to level 1 nothing is asked for but the rows of the schema; on level 2 the three
/// codes before them, and above it also behind them.
pub proof fn levels_ask_for_codes(rows: Seq<Row>, codes: Map<Seq<char>, Seq<char>>, level: u8, prefix: Seq<char>)
    ensures
        level <= 1 ==> asked_fields(rows, codes, level) == schema_fields(rows, codes),
        level == 2 ==> asked_fields(rows, codes, level) == checkpoint_fields("one_"@) + schema_fields(
            rows,
            codes,
        ),
        level >= 3 ==> asked_fields(rows, codes, level) == checkpoint_fields("one_"@) + schema_fields(
            rows,
            codes,
        ) + checkpoint_fields("two_"@),
        checkpoint_fields(prefix).len() == 3,
        checkpoint_fields(prefix)[0] == (Asked {
            name: prefix + "initial_code"@,
            text: "echo the initial UUID code from prompt"@,
        }),
        checkpoint_fields(prefix)[1] == (Asked {
            name: prefix + "middle_code"@,
            text: "echo the middle UUID code from prompt"@,
        }),
        checkpoint_fields(prefix)[2] == (Asked {
            name: prefix + "end_code"@,
            text: "echo the end UUID code from prompt"@,
        }),
{
    two(prefix, "initial_code"@);
    two(prefix, "middle_code"@);
    two(prefix, "end_code"@);
    let none = Seq::<Asked>::empty();
    let middle = schema_fields(rows, codes);
    assert(none + middle + none =~= middle);
    assert(checkpoint_fields("one_"@) + middle + none =~= checkpoint_fields("one_"@) + middle);
}

/// The example shows every field on a line of its own, in their order: as an element, or
/// as a name and a text with a comma behind all but the last.
pub proof fn example_shows_every_field(fields: Seq<Asked>, i: int)
    requires
        0 <= i < fields.len(),
    ensures
        example(true, fields) == "<response>"@ + "\n"@ + glued(example_lines(true, fields))
            + "</response>"@,
        example(false, fields) == "{"@ + "\n"@ + glued(example_lines(false, fields)) + "}"@,
        example_lines(true, fields).len() == fields.len(),
        example_lines(false, fields).len() == fields.len(),
        example_lines(true, fields)[i] == "  <"@ + fields[i].name + ">"@ + fields[i].text + "</"@
            + fields[i].name + ">\n"@,
        example_lines(false, fields)[i] == "  \""@ + fields[i].name + "\": \""@ + fields[i].text + "\""@ + (
        if i == fields.len() - 1 {
            ""@
        } else {
            ","@
        }) + "\n"@,
{
    let f = fields[i];
    let x = seq!["<response>"@, "\n"@, glued(example_lines(true, fields)), "</response>"@];
    let j = seq!["{"@, "\n"@, glued(example_lines(false, fields)), "}"@];
    let e = seq!["  <"@, f.name, ">"@, f.text, "</"@, f.name, ">\n"@];
    let comma = if i == fields.len() - 1 {
        ""@
    } else {
        ","@
    };
    let t = seq!["  \""@, f.name, "\": \""@, f.text, "\""@, comma, "\n"@];
    nothing_yet(x);
    nothing_yet(j);
    nothing_yet(e);
    nothing_yet(t);
    one_more(x, 0);
    one_more(x, 1);
    one_more(x, 2);
    one_more(x, 3);
    one_more(j, 0);
    one_more(j, 1);
    one_more(j, 2);
    one_more(j, 3);
    one_more(e, 0);
    one_more(e, 1);
    one_more(e, 2);
    one_more(e, 3);
    one_more(e, 4);
    one_more(e, 5);
    one_more(e, 6);
    one_more(t, 0);
    one_more(t, 1);
    one_more(t, 2);
    one_more(t, 3);
    one_more(t, 4);
    one_more(t, 5);
    one_more(t, 6);
}

/// A prompt in its order: the first code, what the template says, the second code, how to
/// answer with an example, and the last code.
pub proof fn prompt_in_its_order(body: Seq<char>, format: Seq<char>, fields: Seq<Asked>, codes: Codes)
    ensures
        format == "XML"@ ==> full_prompt(body, format, fields, codes) == "initial code: "@ + codes.initial
            + "\n"@ + body + "\nmiddle code: "@ + codes.middle + "\n"@ + "<output>"@
            + "\nDo NOT include any thinking, reasoning, or <think> sections in your response.\nGo directly to the "@
            + format + " response format without any preamble or explanation.\n\nRespond using "@ + format
            + " format like this:\n"@ + example(true, fields)
            + "\n\nIMPORTANT: Your response must ONLY contain the "@ + "<response>"@ + "</response>"@ + " "@
            + format
            + " block above. Do not include any text, thinking, or reasoning before or after this "@ + format
            + " block. Start your response immediately with "@ + "<response>"@ + " and end with "@
            + "</response>"@ + ".\n"@ + "</output>"@ + "\nend code: "@ + codes.end + "\n"@,
        format != "XML"@ ==> full_prompt(body, format, fields, codes) == "initial code: "@ + codes.initial
            + "\n"@ + body + "\nmiddle code: "@ + codes.middle + "\n"@ + "# Strict Output instructions"@
            + "\nDo NOT include any thinking, reasoning, or <think> sections in your response.\nGo directly to the "@
            + format + " response format without any preamble or explanation.\n\nRespond using "@ + format
            + " format like this:\n"@ + example(false, fields)
            + "\n\nIMPORTANT: Your response must ONLY contain the "@ + "{"@ + "}"@ + " "@ + format
            + " block above. Do not include any text, thinking, or reasoning before or after this "@ + format
            + " block. Start your response immediately with "@ + "{"@ + " and end with "@ + "}"@ + ".\n"@
            + ""@ + "\nend code: "@ + codes.end + "\n"@,
{
    thirty(prompt_parts(body, format, fields, codes));
}

/// An answer is asked for in the format that is forced, in upper case, and else in XML;
/// what is not XML is read as JSON.
pub proof fn format_is_forced_or_xml(forced: Seq<char>)
    ensures
        format_name(None) == "XML"@,
        format_name(Some(forced)) == uppercase(forced),
        wants_xml(forced) <==> forced == "XML"@,
{
}

// ---------------------------------------------------------------------------
// Limits
// ---------------------------------------------------------------------------
/// An answer may take 4096 tokens, or what the prompt leaves of 199000 at two bytes for a
/// token, where that is less, but not less than 1000. Where it leaves nothing, the limit
/// is 4096 again.
pub proof fn tokens_that_are_left(bytes: int)
    requires
        bytes >= 0,
    ensures
        199000 - bytes / 2 >= 4096 ==> token_limit(bytes) == 4096,
        1000 <= 199000 - bytes / 2 < 4096 ==> token_limit(bytes) == 199000 - bytes / 2,
        0 < 199000 - bytes / 2 < 1000 ==> token_limit(bytes) == 1000,
        199000 - bytes / 2 <= 0 ==> token_limit(bytes) == 4096,
{
}

/// A prompt of up to 256000 bytes is sent whole. Of a longer one the end is sent, and no
/// longer end of it keeps the limit.
pub proof fn longest_end_is_sent(prompt: Seq<char>, at: int)
    ensures
        byte_len(prompt) <= 256000 ==> trimmed_prompt(prompt) == prompt,
        byte_len(prompt) > 256000 ==> byte_len(trimmed_prompt(prompt)) <= 256000,
        byte_len(prompt) > 256000 && byte_len(prompt) - 256000 <= at <= byte_len(prompt) && can_cut(
            prompt,
            at,
        ) ==> byte_len(trimmed_prompt(prompt)) >= byte_len(prompt) - at,
        trimmed_prompt(prompt).len() <= prompt.len(),
        trimmed_prompt(prompt) == prompt.skip(prompt.len() - trimmed_prompt(prompt).len()),
{
    trimmed_prompt_is_the_end(prompt);
    if byte_len(prompt) > 256000 {
        end_is_left(prompt);
        if byte_len(prompt) - 256000 <= at <= byte_len(prompt) && can_cut(prompt, at) {
            cut_from_is_first(prompt, (byte_len(prompt) - 256000) as nat, at);
        }
    }
}

// ---------------------------------------------------------------------------
// Options, labels and verdicts
// ---------------------------------------------------------------------------
/// The model that is named is asked, whatever its size; else the small one where that is
/// said, and else the large one.
pub proof fn named_model_goes_first<B>(options: DynamicPromptOptions<B>)
    ensures
        options.model matches Some(m) ==> model_to_ask(options) == m@,
        options.model is None && options.model_size == Some(ModelSize::Small) ==> model_to_ask(options)
            == "TEXT_SMALL"@,
        options.model is None && options.model_size != Some(ModelSize::Small) ==> model_to_ask(options)
            == "TEXT_LARGE"@,
{
}

/// Five words stand for a validation level and a number of retries, in whatever case;
/// every other setting for level 2 and one retry.
pub proof fn words_for_levels(word: Seq<char>, setting: Option<Setting>)
    ensures
        levels_of_word("trusted"@) == (0u8, 0u32),
        levels_of_word("fast"@) == (0u8, 0u32),
        levels_of_word("progressive"@) == (1u8, 2u32),
        levels_of_word("strict"@) == (3u8, 3u32),
        levels_of_word("safe"@) == (3u8, 3u32),
        word != "trusted"@ && word != "fast"@ && word != "progressive"@ && word != "strict"@ && word
            != "safe"@ ==> levels_of_word(word) == (2u8, 1u32),
        levels_of_setting(Some(Setting::String(word))) == levels_of_word(lowercase(word)),
        !(setting matches Some(Setting::String(_))) ==> levels_of_setting(setting) == (2u8, 1u32),
{
    reveal_strlit("trusted");
    reveal_strlit("fast");
    reveal_strlit("progressive");
    reveal_strlit("strict");
    reveal_strlit("safe");
    assert("trusted"@.len() == 7 && "fast"@.len() == 4 && "progressive"@.len() == 11);
    assert("strict"@.len() == 6 && "safe"@.len() == 4);
    assert("fast"@[0] != "safe"@[0]);
}

/// The fields that are checked by codes around them: up to level 1 those whose rows say
/// so, and on level 1 also those whose rows say nothing.
pub proof fn rows_that_get_codes(rows: Seq<Row>, level: u8, f: Seq<char>)
    ensures
        coded_fields(rows, level).contains(f) <==> level <= 1 && exists|i: int|
            0 <= i < rows.len() && (#[trigger] rows[i]).field == f && (rows[i].validate_field == Some(true)
                || (rows[i].validate_field is None && level == 1)),
{
    if coded_fields(rows, level).contains(f) {
        let i = choose|i: int|
            0 <= i < rows.len() && (#[trigger] rows[i]).field == f && crate::prompt_exec::needs_code(
                rows[i],
                level,
            );
        assert(rows[i].field == f);
    }
    if level <= 1 && exists|i: int|
        0 <= i < rows.len() && (#[trigger] rows[i]).field == f && (rows[i].validate_field == Some(true) || (
        rows[i].validate_field is None && level == 1)) {
        let i = choose|i: int|
            0 <= i < rows.len() && (#[trigger] rows[i]).field == f && (rows[i].validate_field == Some(true)
                || (rows[i].validate_field is None && level == 1));
        assert(crate::prompt_exec::needs_code(rows[i], level));
    }
}

/// Codes are made from labels that tell what they are for: those of fields their names,
/// those of prompts which of the three it is and which try. Different tries have
/// different labels.
pub proof fn labels_tell_what_for(f: Seq<char>, kind: Seq<char>, a: nat, b: nat)
    ensures
        field_code_label(f) == "field-code:"@ + f,
        checkpoint_label(kind, a) == kind + decimal(a),
        a != b ==> checkpoint_label(kind, a) != checkpoint_label(kind, b),
{
    two("field-code:"@, f);
    two(kind, decimal(a));
    two(kind, decimal(b));
    if checkpoint_label(kind, a) == checkpoint_label(kind, b) {
        assert(decimal(a) =~= checkpoint_label(kind, a).skip(kind.len() as int));
        assert(decimal(b) =~= checkpoint_label(kind, b).skip(kind.len() as int));
        decimal_is_unique(a, b);
    }
}

/// The codes of a run are made from the model and the names of all fields, in their
/// order.
pub proof fn seed_names_model_and_fields(model: Seq<char>, rows: Seq<Row>, names: Seq<Seq<char>>)
    requires
        names.len() == rows.len(),
        forall|i: int| 0 <= i < rows.len() ==> #[trigger] names[i] == rows[i].field,
    ensures
        seed_label(model, rows) == "dynamic-prompt:"@ + model + ":"@ + joined(names, ","@),
{
    assert(crate::prompt_exec::field_list(rows) =~= names);
    let parts = seq!["dynamic-prompt:"@, model, ":"@, joined(names, ","@)];
    nothing_yet(parts);
    one_more(parts, 0);
    one_more(parts, 1);
    one_more(parts, 2);
    one_more(parts, 3);
}

/// A request holds the prompt and the limit, and nothing else.
pub proof fn request_holds_prompt_and_limit(prompt: Seq<char>, limit: int, name: Seq<char>)
    ensures
        request_params(prompt, limit) matches Json::Object(m) && m["prompt"@] == Json::String(prompt)
            && m["maxTokens"@] == Json::Number(Num::Int(limit)) && (m.contains_key(name) <==> name
            == "prompt"@ || name == "maxTokens"@),
{
    reveal_strlit("prompt");
    reveal_strlit("maxTokens");
    assert("prompt"@.len() != "maxTokens"@.len());
}

/// What the model is told stands behind the filled template.
pub proof fn note_stands_behind_template(body: Seq<char>, note: Seq<char>)
    ensures
        with_note(body, Some(note)) == body + note,
        with_note(body, None) == body,
{
}

/// A try that failed is the last one where no retry is left, and else there is a pause
/// exactly where one is asked for.
pub proof fn retries_are_used_up<B>(session: PromptSession<B>)
    ensures
        session.retry < session.max_retries ==> session.after_failure() == (Verdict::Retry {
            pause: session.options.retry_backoff is Some,
        }),
        session.retry >= session.max_retries ==> session.after_failure() == Verdict::GaveUp,
        session.running() <==> session.retry <= session.max_retries,
{
}

/// On level 1 the model is told what it got right in what could be read; on other levels,
/// and where nothing could be read or it got nothing right, it is told what it was told
/// before.
pub proof fn only_progressive_sessions_tell<B>(session: PromptSession<B>, content: Json)
    ensures
        session.note_after(None) == forced_text(session.note),
        session.level != 1 ==> session.note_after(Some(content)) == forced_text(session.note),
        session.level == 1 ==> session.note_after(Some(content)) == match retry_note(
            content,
            rows(session.schema@),
            code_texts(session.field_codes@),
        ) {
            Some(note) => Some(note),
            None => forced_text(session.note),
        },
{
}

/// The prompt of a session is what the values of the state make of its template, with what
/// the model is told behind it, in the format of its options, with the fields of its schema
/// on its level, and with its codes.
pub proof fn session_writes_its_own_prompt<B>(session: PromptSession<B>, note: Seq<char>)
    ensures
        session.format() == format_name(forced_text(session.options.force_format)),
        forced_text(session.note) == Some(note) ==> session.prompt() == full_prompt(
            rendered(session.template@, json_entries(session.values@)) + note,
            session.format(),
            asked_fields(rows(session.schema@), code_texts(session.field_codes@), session.level),
            session.codes@,
        ),
        session.note is None ==> session.prompt() == full_prompt(
            rendered(session.template@, json_entries(session.values@)),
            session.format(),
            asked_fields(rows(session.schema@), code_texts(session.field_codes@), session.level),
            session.codes@,
        ),
{
}

/// Every field that is checked has a code, made from its name, and no other has; and the
/// three codes of a prompt are made from which of the three they are and which try it is.
pub proof fn codes_are_made_for_each<F: Fn(&String) -> String>(
    make: F,
    schema: Seq<Row>,
    level: u8,
    field_codes: Map<Seq<char>, Seq<char>>,
    f: Seq<char>,
    retry: nat,
    codes: CheckpointCodes,
)
    ensures
        may_be_field_codes(make, schema, level, field_codes) ==> (field_codes.contains_key(f)
            <==> coded_fields(schema, level).contains(f)),
        may_be_field_codes(make, schema, level, field_codes) && field_codes.contains_key(f) ==> may_give(
            make,
            "field-code:"@ + f,
            field_codes[f],
        ),
        may_be_checkpoints(make, retry, codes) <==> may_give(
            make,
            "init-code:"@ + decimal(retry),
            codes.initial@,
        ) && may_give(make, "mid-code:"@ + decimal(retry), codes.middle@) && may_give(
            make,
            "final-code:"@ + decimal(retry),
            codes.end@,
        ),
{
    two("field-code:"@, f);
    two("init-code:"@, decimal(retry));
    two("mid-code:"@, decimal(retry));
    two("final-code:"@, decimal(retry));
}

/// What the options say of the level and of the retries goes before the setting. Where
/// they say nothing, a session has the level and the retries of the word that is set, and
/// level 2 and one retry where none is.
pub proof fn options_go_before_words<B>(session: PromptSession<B>, setting: Option<Setting>, word: Seq<char>)
    requires
        session.goes_by(setting),
    ensures
        session.options.context_check_level matches Some(level) ==> session.level == level,
        session.options.max_retries matches Some(n) ==> session.max_retries == n,
        session.options.context_check_level is None && setting == Some(Setting::String(word))
            ==> session.level == levels_of_word(lowercase(word)).0,
        session.options.max_retries is None && setting == Some(Setting::String(word))
            ==> session.max_retries == levels_of_word(lowercase(word)).1,
        session.options.context_check_level is None && !(setting matches Some(Setting::String(_)))
            ==> session.level == 2,
        session.options.max_retries is None && !(setting matches Some(Setting::String(_)))
            ==> session.max_retries == 1,
{
}

/// Every request sends an end of the prompt that keeps the limit, the whole prompt where
/// that keeps it, and leaves the model 4096 tokens for its answer.
pub proof fn requests_leave_room<B>(session: PromptSession<B>, params: Json)
    requires
        session.asks_with(params),
    ensures
        text_field(params, "prompt"@) matches Some(sent) && sent.len() <= session.prompt().len() && sent
            == session.prompt().skip(session.prompt().len() - sent.len()) && byte_len(sent) <= 256000,
        byte_len(session.prompt()) <= 256000 ==> text_field(params, "prompt"@) == Some(session.prompt()),
        field_of(params, "maxTokens"@) == Some(Json::Number(Num::Int(4096))),
{
    let prompt = session.prompt();
    request_holds_prompt_and_limit(trimmed_prompt(prompt), 4096, "prompt"@);
    request_holds_prompt_and_limit(trimmed_prompt(prompt), 4096, "maxTokens"@);
    trimmed_prompt_fits(prompt);
    longest_end_is_sent(prompt, 0);
}

}
