//! Checking a model's answer: the codes it had to repeat, the fields it had to
//! give, and what it is told before it tries again.
use vstd::prelude::*;
use vstd::slice::slice_subrange;
use vstd::string::*;
use crate::json::{field_of, json_entries, json_value_view, plain_text, text_field, Json};
use crate::json::JsonValue;
use crate::prompt_text::{code_texts, end_code_field, rows, start_code_field, Codes, Row};
use crate::prompt_text::{end_code_name, start_code_name, CheckpointCodes, SchemaRow};
use crate::rewrite::{bytes_in, cut_head, find_cut_up_to, glue, join};
use crate::rewrite::{byte_len, can_cut, cut_up_to, glued, head_bytes, joined, slices, texts};
use crate::string_map::in_order;
use crate::string_map::StringMap;
use crate::text::{chars_of, find_in, same_text, string_of, trimmed};
use crate::text::{contains_text, find_from, find_from_at, find_from_is_first, find_from_none, found_behind};
use crate::text::{occurs_at, occurs_between, trim};

verus! {

broadcast use {vstd::seq_lib::group_seq_properties, crate::json::json_value_view};

// ---------------------------------------------------------------------------
// Thinking
// ---------------------------------------------------------------------------
/// The text with what stands from `start` to the end of the tag at `end` taken
/// out.
pub open spec fn without_block(s: Seq<char>, start: int, end: int) -> Seq<char> {
    s.take(start) + s.skip(end + 8)
}

/// The answer without the parts between `<think>` and the next `</think>`.
pub open spec fn without_thinking(s: Seq<char>) -> Seq<char>
    decreases s.len(),
{
    match first_thinking(s) {
        Some((start, end)) if 0 <= start < end && end + 8 <= s.len() => without_thinking(
            without_block(s, start, end),
        ),
        _ => s,
    }
}

/// Where the first `<think>` and the next `</think>` behind it stand.
pub open spec fn first_thinking(s: Seq<char>) -> Option<(int, int)> {
    match find_from(s, "<think>"@, 0) {
        Some(start) => match find_from(s, "</think>"@, start) {
            Some(end) => Some((start, end)),
            None => None,
        },
        None => None,
    }
}

/// The tags around a part to take out stand one behind the other.
proof fn thinking_is_ordered(s: Seq<char>)
    ensures
        first_thinking(s) matches Some((start, end)) ==> 0 <= start < end && end + 8 <= s.len(),
{
    reveal_strlit("<think>");
    reveal_strlit("</think>");
    if let Some((start, end)) = first_thinking(s) {
        find_from_is_first(s, "<think>"@, 0);
        find_from_is_first(s, "</think>"@, start);
        if start == end {
            assert(s.subrange(start, start + 7)[1] == s[start + 1]);
            assert(s.subrange(end, end + 8)[1] == s[end + 1]);
        }
    }
}

/// Finds the tags around the first part to take out.
fn find_thinking(s: &Vec<char>) -> (r: Option<(usize, usize)>)
    ensures
        match r {
            Some((start, end)) => first_thinking(s@) == Some((start as int, end as int)) && start < end
                && end + 8 <= s@.len(),
            None => first_thinking(s@) is None,
        },
{
    let open = chars_of("<think>");
    let close = chars_of("</think>");
    proof {
        thinking_is_ordered(s@);
        find_from_is_first(s@, open@, 0);
    }
    match find_in(s.as_slice(), open.as_slice(), 0) {
        Some(start) => match find_in(s.as_slice(), close.as_slice(), start) {
            Some(end) => Some((start, end)),
            None => None,
        },
        None => None,
    }
}

/// Takes a part out of a text.
fn take_out(s: &Vec<char>, start: usize, end: usize) -> (r: Vec<char>)
    requires
        start < end,
        end + 8 <= s@.len(),
    ensures
        r@ == without_block(s@, start as int, end as int),
{
    let total: usize = s.len();
    let mut r: Vec<char> = Vec::new();
    r.extend_from_slice(slice_subrange(s.as_slice(), 0, start));
    r.extend_from_slice(slice_subrange(s.as_slice(), end + 8, total));
    assert(r@ =~= without_block(s@, start as int, end as int));
    r
}

/// Takes the parts between `<think>` and the next `</think>` out of an answer.
pub fn clean_response(response: &str) -> (r: String)
    ensures
        r@ == without_thinking(response@),
{
    let mut s = chars_of(response);
    loop
        invariant
            without_thinking(response@) == without_thinking(s@),
        decreases s@.len(),
    {
        match find_thinking(&s) {
            Some((start, end)) => {
                s = take_out(&s, start, end);
            },
            None => {
                return string_of(s.as_slice());
            },
        }
    }
}

/// In an answer that was cleaned, no `<think>` is closed behind it.
pub proof fn cleaned_holds_no_thinking(s: Seq<char>)
    ensures
        first_thinking(without_thinking(s)) is None,
    decreases s.len(),
{
    thinking_is_ordered(s);
    match first_thinking(s) {
        Some((start, end)) => {
            cleaned_holds_no_thinking(without_block(s, start, end));
        },
        None => {},
    }
}

/// An answer that does not think is not changed.
pub proof fn plain_answer_is_kept(s: Seq<char>)
    requires
        !contains_text(s, "<think>"@),
    ensures
        without_thinking(s) == s,
{
}

/// Behind the first `<think>` the next `</think>` stands where the thinking ends, if it
/// ends.
proof fn thinking_ends(a: Seq<char>, t: Seq<char>, rest: Seq<char>)
    requires
        !contains_text(a, "<think>"@),
        !contains_text(t, "</think>"@),
    ensures
        first_thinking(a + "<think>"@ + t + "</think>"@ + rest) == Some(
            (a.len() as int, (a.len() + 7 + t.len()) as int),
        ),
        first_thinking(a + "<think>"@ + t) is None,
{
    reveal_strlit("<think>");
    reveal_strlit("</think>");
    let open = "<think>"@;
    let close = "</think>"@;
    let n = a.len() as int;
    let part = a + open + t;
    let s = part + close + rest;
    find_from_is_first(t, close, 0);
    found_behind(a, open, t);
    found_behind(a, open, t + close + rest);
    assert(s =~= a + open + (t + close + rest));
    assert forall|j: int| n <= j < n + 7 + t.len() implies !occurs_at(s, close, j) && !occurs_at(
        part,
        close,
        j,
    ) by {
        assert(s[j] == part[j]);
        if occurs_at(s, close, j) || occurs_at(part, close, j) {
            let whole = if occurs_at(s, close, j) {
                s
            } else {
                part
            };
            assert(whole.subrange(j, j + 8)[0] == whole[j]);
            if j < n + 7 {
                assert(whole[j] == open[j - n]);
                assert(whole.subrange(j, j + 8)[1] == whole[j + 1]);
                assert(j == n);
                assert(whole[j + 1] == open[1]);
            } else if j + 8 > n + 7 + t.len() {
                let edge = n + 7 + t.len();
                assert(whole == s);
                assert(s.subrange(j, j + 8)[edge - j] == s[edge]);
                assert(s[edge] == close[0]);
            } else {
                assert(t.subrange(j - n - 7, j - n + 1) =~= whole.subrange(j, j + 8));
                assert(occurs_at(t, close, j - n - 7));
            }
        }
    }
    occurs_between(part, close, rest, s, 0);
    find_from_at(s, close, n, n + 7 + t.len());
    find_from_none(part, close, n);
}

/// Taking out thinking keeps all that stands before it and all that stands behind it,
/// whatever that is.
pub proof fn only_thinking_is_taken_out(a: Seq<char>, t: Seq<char>, b: Seq<char>)
    requires
        !contains_text(a, "<think>"@),
        !contains_text(t, "</think>"@),
    ensures
        without_thinking(a + "<think>"@ + t + "</think>"@ + b) == without_thinking(a + b),
        !contains_text(a + b, "<think>"@) ==> without_thinking(a + "<think>"@ + t + "</think>"@ + b)
            == a + b,
{
    reveal_strlit("<think>");
    reveal_strlit("</think>");
    let s = a + "<think>"@ + t + "</think>"@ + b;
    let end = a.len() + 7 + t.len();
    thinking_ends(a, t, b);
    assert(without_block(s, a.len() as int, end as int) =~= a + b);
    if !contains_text(a + b, "<think>"@) {
        plain_answer_is_kept(a + b);
    }
}

/// Thinking that does not end is not taken out.
pub proof fn unended_thinking_is_kept(a: Seq<char>, t: Seq<char>)
    requires
        !contains_text(a, "<think>"@),
        !contains_text(t, "</think>"@),
    ensures
        without_thinking(a + "<think>"@ + t) == a + "<think>"@ + t,
{
    thinking_ends(a, t, Seq::empty());
}

// ---------------------------------------------------------------------------
// Codes and required fields
// ---------------------------------------------------------------------------
/// The answer repeats the code of a field before and behind it.
pub open spec fn field_code_holds(content: Json, field: Seq<char>, code: Seq<char>) -> bool {
    &&& text_field(content, start_code_field(field)) == Some(code)
    &&& text_field(content, end_code_field(field)) == Some(code)
}

/// The answer repeats the code of every field that has one.
pub open spec fn field_codes_hold(content: Json, codes: Map<Seq<char>, Seq<char>>) -> bool {
    forall|f: Seq<char>| #[trigger]
        codes.contains_key(f) ==> field_code_holds(content, f, codes[f])
}

/// The answer repeats the codes of the prompt: from level 2 on before the
/// fields, from level 3 on also behind them.
pub open spec fn checkpoints_hold(content: Json, codes: Codes, level: u8) -> bool {
    &&& level >= 2 ==> {
        &&& text_field(content, "one_initial_code"@) == Some(codes.initial)
        &&& text_field(content, "one_middle_code"@) == Some(codes.middle)
        &&& text_field(content, "one_end_code"@) == Some(codes.end)
    }
    &&& level >= 3 ==> {
        &&& text_field(content, "two_initial_code"@) == Some(codes.initial)
        &&& text_field(content, "two_middle_code"@) == Some(codes.middle)
        &&& text_field(content, "two_end_code"@) == Some(codes.end)
    }
}

/// A value that does not count as given: none, null, and what is empty.
pub open spec fn is_missing(value: Option<Json>) -> bool {
    match value {
        None => true,
        Some(Json::Null) => true,
        Some(Json::String(s)) => trim(s).len() == 0,
        Some(Json::Array(a)) => a.len() == 0,
        Some(Json::Object(m)) => m == Map::<Seq<char>, Json>::empty(),
        Some(_) => false,
    }
}

/// Every required field is given.
pub open spec fn required_given(content: Json, required: Option<Seq<Seq<char>>>) -> bool {
    match required {
        Some(fields) => forall|i: int|
            0 <= i < fields.len() ==> !is_missing(field_of(content, #[trigger] fields[i])),
        None => true,
    }
}

/// The answer passes all checks: up to level 1 the codes of the fields, above it
/// the codes of the prompt, and the required fields.
pub open spec fn passes(
    content: Json,
    level: u8,
    field_codes: Map<Seq<char>, Seq<char>>,
    codes: Codes,
    required: Option<Seq<Seq<char>>>,
) -> bool {
    &&& if level <= 1 {
        field_codes_hold(content, field_codes)
    } else {
        checkpoints_hold(content, codes, level)
    }
    &&& required_given(content, required)
}

/// What the required fields are.
pub open spec fn required_texts(required: Option<Vec<String>>) -> Option<Seq<Seq<char>>> {
    match required {
        Some(v) => Some(texts(v@)),
        None => None,
    }
}

/// Whether a field of the answer holds exactly a text.
fn field_is(content: &JsonValue, name: &str, text: &str) -> (r: bool)
    ensures
        r == (text_field(content@, name@) == Some(text@)),
{
    match content.get_str(name) {
        Some(s) => same_text(s.as_str(), text),
        None => false,
    }
}

/// Whether the answer repeats the code of a field.
fn check_field_code(content: &JsonValue, field: &str, code: &str) -> (r: bool)
    ensures
        r == field_code_holds(content@, field@, code@),
{
    let start = start_code_name(field);
    let end = end_code_name(field);
    field_is(content, start.as_str(), code) && field_is(content, end.as_str(), code)
}

/// Whether the answer repeats the code of every field that has one.
pub fn check_field_codes(content: &JsonValue, codes: &StringMap<String>) -> (r: bool)
    ensures
        r == field_codes_hold(content@, code_texts(codes@)),
{
    let n: usize = codes.len();
    let ghost keys = codes.keys();
    let ghost wanted = code_texts(codes@);
    for i in 0..n
        invariant
            n == keys.len(),
            keys == codes.keys(),
            wanted == code_texts(codes@),
            forall|j: int|
                0 <= j < i ==> field_code_holds(content@, #[trigger] keys[j], wanted[keys[j]]),
    {
        let field = codes.key_at(i);
        let code = codes.value_at(i);
        if !check_field_code(content, field.as_str(), code.as_str()) {
            assert(wanted.contains_key(field@));
            return false;
        }
    }
    assert forall|f: Seq<char>| #[trigger] wanted.contains_key(f) implies field_code_holds(
        content@,
        f,
        wanted[f],
    ) by {
        assert(keys.contains(f));
        let j = choose|j: int| 0 <= j < keys.len() && keys[j] == f;
        assert(field_code_holds(content@, keys[j], wanted[keys[j]]));
    }
    true
}

/// Whether the answer repeats the codes of the prompt.
pub fn check_checkpoints(content: &JsonValue, codes: &CheckpointCodes, level: u8) -> (r: bool)
    ensures
        r == checkpoints_hold(content@, codes@, level),
{
    let initial = codes.initial.as_str();
    let middle = codes.middle.as_str();
    let end = codes.end.as_str();
    let one = level < 2 || (field_is(content, "one_initial_code", initial) && field_is(
        content,
        "one_middle_code",
        middle,
    ) && field_is(content, "one_end_code", end));
    let two = level < 3 || (field_is(content, "two_initial_code", initial) && field_is(
        content,
        "two_middle_code",
        middle,
    ) && field_is(content, "two_end_code", end));
    one && two
}

/// Whether a value does not count as given.
pub fn check_missing(value: Option<&JsonValue>) -> (r: bool)
    ensures
        r == is_missing(
            match value {
                Some(v) => Some(v@),
                None => None,
            },
        ),
{
    match value {
        None => true,
        Some(JsonValue::Null) => true,
        Some(JsonValue::String(s)) => {
            let rest = trimmed(s.as_str());
            rest.as_str().is_empty()
        },
        Some(JsonValue::Array(a)) => a.len() == 0,
        Some(JsonValue::Object(m)) => {
            assert(json_entries(m@).dom() =~= m@.dom());
            assert(json_entries(m@) =~= Map::<Seq<char>, Json>::empty() <==> m@ =~= Map::<
                Seq<char>,
                JsonValue,
            >::empty());
            m.is_empty()
        },
        Some(_) => false,
    }
}

/// Whether every required field is given.
pub fn check_required(content: &JsonValue, required: &Option<Vec<String>>) -> (r: bool)
    ensures
        r == required_given(content@, required_texts(*required)),
{
    match required {
        Some(fields) => {
            for i in 0..fields.len()
                invariant
                    required_texts(*required) == Some(texts(fields@)),
                    forall|j: int|
                        0 <= j < i ==> !is_missing(
                            field_of(content@, #[trigger] texts(fields@)[j]),
                        ),
            {
                if check_missing(content.get(fields[i].as_str())) {
                    assert(is_missing(field_of(content@, texts(fields@)[i as int])));
                    return false;
                }
            }
            true
        },
        None => true,
    }
}

/// Whether the answer passes all checks.
pub fn check_answer(
    content: &JsonValue,
    level: u8,
    field_codes: &StringMap<String>,
    codes: &CheckpointCodes,
    required: &Option<Vec<String>>,
) -> (r: bool)
    ensures
        r == passes(content@, level, code_texts(field_codes@), codes@, required_texts(*required)),
{
    let coded = if level <= 1 {
        check_field_codes(content, field_codes)
    } else {
        check_checkpoints(content, codes, level)
    };
    coded && check_required(content, required)
}

// ---------------------------------------------------------------------------
// What is handed on
// ---------------------------------------------------------------------------
/// A field of the answer that holds the code of one of `fields`.
pub open spec fn is_field_code_name(name: Seq<char>, fields: Set<Seq<char>>) -> bool {
    exists|f: Seq<char>|
        #![trigger fields.contains(f)]
        fields.contains(f) && (name == start_code_field(f) || name == end_code_field(f))
}

/// A field of the answer that only holds a code.
pub open spec fn is_code_name(name: Seq<char>, fields: Set<Seq<char>>, level: u8) -> bool {
    ||| is_field_code_name(name, fields)
    ||| level >= 2 && (name == "one_initial_code"@ || name == "one_middle_code"@ || name
        == "one_end_code"@)
    ||| level >= 3 && (name == "two_initial_code"@ || name == "two_middle_code"@ || name
        == "two_end_code"@)
}

/// The answer without the fields that only hold codes.
pub open spec fn without_codes(content: Json, fields: Set<Seq<char>>, level: u8) -> Json {
    match content {
        Json::Object(m) => Json::Object(
            Map::new(
                |k: Seq<char>| m.contains_key(k) && !is_code_name(k, fields, level),
                |k: Seq<char>| m[k],
            ),
        ),
        other => other,
    }
}

proof fn one_more_field_code(name: Seq<char>, keys: Seq<Seq<char>>, i: int)
    requires
        0 <= i < keys.len(),
    ensures
        is_field_code_name(name, keys.take(i + 1).to_set()) <==> is_field_code_name(
            name,
            keys.take(i).to_set(),
        ) || name == start_code_field(keys[i]) || name == end_code_field(keys[i]),
{
    let fewer = keys.take(i);
    let more = keys.take(i + 1);
    let small = fewer.to_set();
    let large = more.to_set();
    assert forall|f: Seq<char>| #[trigger] large.contains(f) <==> small.contains(f) || f == keys[i] by {
        if small.contains(f) {
            let j = choose|j: int| 0 <= j < fewer.len() && fewer[j] == f;
            assert(more[j] == f);
        }
        if f == keys[i] {
            assert(more[i] == f);
        }
        if large.contains(f) {
            let j = choose|j: int| 0 <= j < more.len() && more[j] == f;
            if j < i {
                assert(fewer[j] == f);
            }
        }
    }
    assert(large.contains(keys[i]));
    if is_field_code_name(name, small) {
        let f = choose|f: Seq<char>|
            #![trigger small.contains(f)]
            small.contains(f) && (name == start_code_field(f) || name == end_code_field(f));
        assert(large.contains(f));
    }
}

/// Takes the fields that only hold codes out of the answer.
pub fn remove_codes(content: JsonValue, field_codes: &StringMap<String>, level: u8) -> (r: JsonValue)
    ensures
        r@ == without_codes(content@, field_codes@.dom(), level),
{
    match content {
        JsonValue::Object(map) => {
            let mut obj = map;
            let ghost before = obj@;
            let n: usize = field_codes.len();
            let ghost keys = field_codes.keys();
            let ghost fields = field_codes@.dom();
            for i in 0..n
                invariant
                    n == keys.len(),
                    keys == field_codes.keys(),
                    forall|k: Seq<char>| #[trigger]
                        obj@.contains_key(k) <==> before.contains_key(k) && !is_field_code_name(
                            k,
                            keys.take(i as int).to_set(),
                        ),
                    forall|k: Seq<char>| #[trigger]
                        obj@.contains_key(k) ==> obj@[k] == before[k],
            {
                let ghost held = obj@;
                let field = field_codes.key_at(i);
                let start = start_code_name(field.as_str());
                let end = end_code_name(field.as_str());
                let _ = obj.remove(start.as_str());
                let _ = obj.remove(end.as_str());
                assert forall|k: Seq<char>| #[trigger]
                    obj@.contains_key(k) <==> before.contains_key(k) && !is_field_code_name(
                        k,
                        keys.take(i + 1).to_set(),
                    ) by {
                    assert(obj@.contains_key(k) <==> held.contains_key(k) && k != start_code_field(
                        keys[i as int],
                    ) && k != end_code_field(keys[i as int]));
                    one_more_field_code(k, keys, i as int);
                }
            }
            assert(keys.take(n as int).to_set() =~= fields) by {
                assert(keys.take(n as int) == keys);
                assert forall|f: Seq<char>| keys.to_set().contains(f) <==> fields.contains(f) by {
                    assert(keys.contains(f) <==> fields.contains(f));
                }
            }
            if level >= 2 {
                let _ = obj.remove("one_initial_code");
                let _ = obj.remove("one_middle_code");
                let _ = obj.remove("one_end_code");
            }
            if level >= 3 {
                let _ = obj.remove("two_initial_code");
                let _ = obj.remove("two_middle_code");
                let _ = obj.remove("two_end_code");
            }
            let ghost kept = Map::new(
                |k: Seq<char>|
                    json_entries(before).contains_key(k) && !is_code_name(k, fields, level),
                |k: Seq<char>| json_entries(before)[k],
            );
            assert(json_entries(obj@) =~= kept);
            JsonValue::Object(obj)
        },
        other => other,
    }
}

// ---------------------------------------------------------------------------
// Before the next try
// ---------------------------------------------------------------------------
/// A text of which at most 500 bytes are shown, and only whole characters.
pub open spec fn shortened(s: Seq<char>) -> Seq<char> {
    if byte_len(s) > 500 {
        glued(seq![head_bytes(s, cut_up_to(s, 500) as int), "..."@])
    } else {
        s
    }
}

/// The fields among `keys` whose codes the answer repeats.
pub open spec fn validated(content: Json, keys: Seq<Seq<char>>, codes: Map<Seq<char>, Seq<char>>) -> Seq<
    Seq<char>,
>
    decreases keys.len(),
{
    if keys.len() == 0 {
        Seq::empty()
    } else {
        let before = validated(content, keys.drop_last(), codes);
        if field_code_holds(content, keys.last(), codes[keys.last()]) {
            before.push(keys.last())
        } else {
            before
        }
    }
}

/// A field of the answer, shown to the model again.
pub open spec fn shown_field(field: Seq<char>, value: Json) -> Seq<char> {
    glued(seq!["<"@, field, ">"@, shortened(plain_text(value)), "</"@, field, ">"@])
}

/// The given ones among `fields`, shown to the model again.
pub open spec fn shown_fields(content: Json, fields: Seq<Seq<char>>) -> Seq<Seq<char>>
    decreases fields.len(),
{
    if fields.len() == 0 {
        Seq::empty()
    } else {
        let before = shown_fields(content, fields.drop_last());
        match field_of(content, fields.last()) {
            Some(v) => before.push(shown_field(fields.last(), v)),
            None => before,
        }
    }
}

/// The names of the fields in a schema.
pub open spec fn field_names(rows: Seq<Row>) -> Set<Seq<char>> {
    Set::new(|f: Seq<char>| exists|i: int| 0 <= i < rows.len() && (#[trigger] rows[i]).field == f)
}

/// What the model is told before it tries again: the fields that it got right,
/// and those that are still to come. Nothing where it got none right.
pub open spec fn retry_note(content: Json, rows: Seq<Row>, codes: Map<Seq<char>, Seq<char>>) -> Option<Seq<char>> {
    let good = validated(content, in_order(codes.dom()), codes);
    let shown = shown_fields(content, good);
    let open = in_order(field_names(rows).difference(good.to_set()));
    if shown.len() == 0 {
        None
    } else {
        Some(
            glued(
                seq![
                    "\n\n[RETRY CONTEXT]\nYou previously produced these valid fields:\n"@,
                    joined(shown, "\n"@),
                    "\n\nPlease complete: "@,
                    if open.len() == 0 {
                        "all fields"@
                    } else {
                        joined(open, ", "@)
                    },
                ],
            ),
        )
    }
}

/// A text of which at most 500 bytes are shown.
fn shorten(text: String) -> (r: String)
    ensures
        r@ == shortened(text@),
{
    if bytes_in(text.as_str()) > 500 {
        let head = cut_head(text.as_str(), find_cut_up_to(text.as_str(), 500));
        let parts: Vec<&str> = vec![head.as_str(), "..."];
        assert(slices(parts@) =~= seq![head@, "..."@]);
        glue(&parts)
    } else {
        text
    }
}

/// The fields whose codes the answer repeats.
fn validated_fields(content: &JsonValue, codes: &StringMap<String>) -> (r: Vec<String>)
    ensures
        texts(r@) == validated(content@, in_order(codes@.dom()), code_texts(codes@)),
{
    let n: usize = codes.len();
    let ghost keys = codes.keys();
    let ghost wanted = code_texts(codes@);
    let mut r: Vec<String> = Vec::new();
    assert(texts(r@) =~= Seq::empty());
    for i in 0..n
        invariant
            n == keys.len(),
            keys == codes.keys(),
            wanted == code_texts(codes@),
            texts(r@) == validated(content@, keys.take(i as int), wanted),
    {
        let field = codes.key_at(i);
        let code = codes.value_at(i);
        assert(keys.take(i + 1).drop_last() == keys.take(i as int));
        assert(wanted.contains_key(field@));
        if check_field_code(content, field.as_str(), code.as_str()) {
            let ghost before = r@;
            r.push(field.clone());
            assert(texts(r@) =~= texts(before).push(field@));
        }
    }
    assert(keys.take(n as int) == keys);
    r
}

/// A field of the answer, shown to the model again.
fn show_field(field: &str, value: &JsonValue) -> (r: String)
    ensures
        r@ == shown_field(field@, value@),
{
    let text = shorten(value.to_plain_text());
    let parts: Vec<&str> = vec!["<", field, ">", text.as_str(), "</", field, ">"];
    assert(slices(parts@) =~= seq!["<"@, field@, ">"@, text@, "</"@, field@, ">"@]);
    glue(&parts)
}

/// The given ones among `fields`, shown to the model again.
fn show_fields(content: &JsonValue, fields: &Vec<String>) -> (r: Vec<String>)
    ensures
        texts(r@) == shown_fields(content@, texts(fields@)),
{
    let mut r: Vec<String> = Vec::new();
    let ghost names = texts(fields@);
    assert(texts(r@) =~= Seq::empty());
    for i in 0..fields.len()
        invariant
            names == texts(fields@),
            texts(r@) == shown_fields(content@, names.take(i as int)),
    {
        assert(names[i as int] == fields@[i as int]@);
        assert(names.take(i + 1).drop_last() == names.take(i as int));
        match content.get(fields[i].as_str()) {
            Some(v) => {
                let ghost before = r@;
                let shown = show_field(fields[i].as_str(), v);
                r.push(shown);
                assert(texts(r@) =~= texts(before).push(shown@));
            },
            None => {},
        }
    }
    assert(names.take(fields@.len() as int) == names);
    r
}

/// The fields of the schema that are not among `good`, in order.
fn open_fields(schema: &Vec<SchemaRow>, good: &Vec<String>) -> (r: Vec<String>)
    ensures
        texts(r@) == in_order(field_names(rows(schema@)).difference(texts(good@).to_set())),
{
    let mut left: StringMap<()> = StringMap::new();
    let ghost all = rows(schema@);
    for i in 0..schema.len()
        invariant
            all == rows(schema@),
            forall|f: Seq<char>| #[trigger]
                left@.contains_key(f) <==> exists|j: int|
                    0 <= j < i && (#[trigger] all[j]).field == f,
    {
        let ghost held = left@;
        left.insert(schema[i].field.clone(), ());
        assert forall|f: Seq<char>| #[trigger]
            left@.contains_key(f) <==> exists|j: int|
                0 <= j < i + 1 && (#[trigger] all[j]).field == f by {
            assert(all[i as int].field == schema@[i as int].field@);
            assert(left@.contains_key(f) <==> held.contains_key(f) || f == all[i as int].field);
        }
    }
    assert(left@.dom() =~= field_names(all));
    let ghost before = left@.dom();
    let ghost known = texts(good@);
    for i in 0..good.len()
        invariant
            known == texts(good@),
            forall|f: Seq<char>| #[trigger]
                left@.contains_key(f) <==> before.contains(f) && !(exists|j: int|
                    0 <= j < i && #[trigger] known[j] == f),
    {
        let ghost held = left@;
        let _ = left.remove(good[i].as_str());
        assert forall|f: Seq<char>| #[trigger]
            left@.contains_key(f) <==> before.contains(f) && !(exists|j: int|
                0 <= j < i + 1 && #[trigger] known[j] == f) by {
            assert(known[i as int] == good@[i as int]@);
            assert(left@.contains_key(f) <==> held.contains_key(f) && f != known[i as int]);
        }
    }
    assert(left@.dom() =~= before.difference(known.to_set())) by {
        assert forall|f: Seq<char>| left@.dom().contains(f) <==> before.difference(
            known.to_set(),
        ).contains(f) by {
            assert(left@.contains_key(f) <==> left@.dom().contains(f));
            assert(known.to_set().contains(f) <==> known.contains(f));
        }
    }
    let n: usize = left.len();
    let ghost keys = left.keys();
    let mut r: Vec<String> = Vec::new();
    assert(texts(r@) =~= Seq::empty());
    for i in 0..n
        invariant
            n == keys.len(),
            keys == left.keys(),
            texts(r@) == keys.take(i as int),
    {
        let ghost so_far = r@;
        r.push(left.key_at(i).clone());
        assert(texts(r@) =~= texts(so_far).push(keys[i as int]));
        assert(keys.take(i + 1) =~= keys.take(i as int).push(keys[i as int]));
    }
    assert(keys.take(n as int) == keys);
    r
}

/// What the model is told before it tries again.
pub fn write_retry_note(content: &JsonValue, schema: &Vec<SchemaRow>, codes: &StringMap<String>) -> (r: Option<
    String,
>)
    ensures
        match r {
            Some(s) => retry_note(content@, rows(schema@), code_texts(codes@)) == Some(s@),
            None => retry_note(content@, rows(schema@), code_texts(codes@)) is None,
        },
{
    assert(code_texts(codes@).dom() =~= codes@.dom());
    let good = validated_fields(content, codes);
    let shown = show_fields(content, &good);
    assert(texts(shown@).len() == shown@.len());
    if shown.len() == 0 {
        return None;
    }
    let open = open_fields(schema, &good);
    assert(texts(open@).len() == open@.len());
    let shown_text = join(&shown, "\n");
    let open_text = if open.len() == 0 {
        "all fields".to_owned()
    } else {
        join(&open, ", ")
    };
    let parts: Vec<&str> = vec![
        "\n\n[RETRY CONTEXT]\nYou previously produced these valid fields:\n",
        shown_text.as_str(),
        "\n\nPlease complete: ",
        open_text.as_str(),
    ];
    assert(slices(parts@) =~= seq![
        "\n\n[RETRY CONTEXT]\nYou previously produced these valid fields:\n"@,
        shown_text@,
        "\n\nPlease complete: "@,
        open_text@,
    ]);
    Some(glue(&parts))
}

/// A text that can be cut behind its first 500 bytes is shown with just these.
pub proof fn shown_are_the_first_bytes(s: Seq<char>)
    requires
        byte_len(s) > 500,
        can_cut(s, 500),
    ensures
        shortened(s) == glued(seq![head_bytes(s, 500), "..."@]),
{
}

}
