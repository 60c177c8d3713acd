//! Laws of prompts that ask for a structured answer.
use vstd::prelude::*;
use crate::json::{field_of, plain_text, text_field, Json, Num};
use crate::prompt_check::{field_code_holds, field_names, is_code_name, is_field_code_name, is_missing, passes};
use crate::prompt_check::{retry_note, shortened, shown_field, shown_fields, validated, without_codes};
use crate::prompt_exec::{coded_fields, PromptSession};
use crate::prompt_text::{asked_fields, checkpoint_fields, end_code_field, example, full_prompt, prompt_parts};
use crate::prompt_text::{row_fields, schema_fields, start_code_field, wants_xml, Asked, Codes, Row};
use crate::rewrite::{byte_len, can_cut, cut_up_to, cut_up_to_is_cut, cut_up_to_is_last, glued, glued_in_lots};
use crate::rewrite::{head_bytes, joined};
use crate::string_map::{in_order, order_exists};
use crate::text::{blank_is_trimmed_away, contained_is_between, contains_text, find_from, find_from_is_first};
use crate::text::{is_white, occurs_at};

verus! {

broadcast use vstd::seq_lib::group_seq_properties;

/// A field named `name` is asked for.
pub open spec fn asks_for(fields: Seq<Asked>, name: Seq<char>) -> bool {
    exists|i: int| 0 <= i < fields.len() && (#[trigger] fields[i]).name == name
}

proof fn asks_for_left(a: Seq<Asked>, b: Seq<Asked>, name: Seq<char>)
    requires
        asks_for(a, name),
    ensures
        asks_for(a + b, name),
{
    let i = choose|i: int| 0 <= i < a.len() && (#[trigger] a[i]).name == name;
    assert((a + b)[i].name == name);
}

proof fn asks_for_right(a: Seq<Asked>, b: Seq<Asked>, name: Seq<char>)
    requires
        asks_for(b, name),
    ensures
        asks_for(a + b, name),
{
    let i = choose|i: int| 0 <= i < b.len() && (#[trigger] b[i]).name == name;
    assert((a + b)[a.len() + i].name == name);
}

proof fn schema_asks_for_codes(rows: Seq<Row>, codes: Map<Seq<char>, Seq<char>>, i: int)
    requires
        0 <= i < rows.len(),
    ensures
        asks_for(schema_fields(rows, codes), rows[i].field),
        codes.contains_key(rows[i].field) ==> asks_for(
            schema_fields(rows, codes),
            start_code_field(rows[i].field),
        ) && asks_for(schema_fields(rows, codes), end_code_field(rows[i].field)),
    decreases rows.len(),
{
    let before = schema_fields(rows.drop_last(), codes);
    let last = row_fields(rows.last(), codes);
    let f = rows[i].field;
    if i == rows.len() - 1 {
        if codes.contains_key(f) {
            assert(last[0].name == start_code_field(f));
            assert(last[1].name == f);
            assert(last[2].name == end_code_field(f));
            asks_for_right(before, last, start_code_field(f));
            asks_for_right(before, last, end_code_field(f));
        } else {
            assert(last[0].name == f);
        }
        asks_for_right(before, last, f);
    } else {
        schema_asks_for_codes(rows.drop_last(), codes, i);
        asks_for_left(before, last, f);
        if codes.contains_key(f) {
            asks_for_left(before, last, start_code_field(f));
            asks_for_left(before, last, end_code_field(f));
        }
    }
}

proof fn glued_two(a: Seq<char>, b: Seq<char>)
    ensures
        glued(seq![a, b]) == a + b,
{
    reveal_with_fuel(glued, 3);
    assert(seq![a, b].drop_last() =~= seq![a]);
    assert(seq![a].drop_last() =~= Seq::<Seq<char>>::empty());
    assert(Seq::<char>::empty() + a =~= a);
}

proof fn checkpoint_names()
    ensures
        asks_for(checkpoint_fields("one_"@), "one_initial_code"@),
        asks_for(checkpoint_fields("one_"@), "one_middle_code"@),
        asks_for(checkpoint_fields("one_"@), "one_end_code"@),
        asks_for(checkpoint_fields("two_"@), "two_initial_code"@),
        asks_for(checkpoint_fields("two_"@), "two_middle_code"@),
        asks_for(checkpoint_fields("two_"@), "two_end_code"@),
{
    reveal_strlit("one_");
    reveal_strlit("two_");
    reveal_strlit("initial_code");
    reveal_strlit("middle_code");
    reveal_strlit("end_code");
    reveal_strlit("one_initial_code");
    reveal_strlit("one_middle_code");
    reveal_strlit("one_end_code");
    reveal_strlit("two_initial_code");
    reveal_strlit("two_middle_code");
    reveal_strlit("two_end_code");
    glued_two("one_"@, "initial_code"@);
    glued_two("one_"@, "middle_code"@);
    glued_two("one_"@, "end_code"@);
    glued_two("two_"@, "initial_code"@);
    glued_two("two_"@, "middle_code"@);
    glued_two("two_"@, "end_code"@);
    assert("one_"@ + "initial_code"@ =~= "one_initial_code"@);
    assert("one_"@ + "middle_code"@ =~= "one_middle_code"@);
    assert("one_"@ + "end_code"@ =~= "one_end_code"@);
    assert("two_"@ + "initial_code"@ =~= "two_initial_code"@);
    assert("two_"@ + "middle_code"@ =~= "two_middle_code"@);
    assert("two_"@ + "end_code"@ =~= "two_end_code"@);
    let one = checkpoint_fields("one_"@);
    let two = checkpoint_fields("two_"@);
    assert(one[0].name == "one_initial_code"@);
    assert(one[1].name == "one_middle_code"@);
    assert(one[2].name == "one_end_code"@);
    assert(two[0].name == "two_initial_code"@);
    assert(two[1].name == "two_middle_code"@);
    assert(two[2].name == "two_end_code"@);
}

/// A prompt asks for every field of its schema.
pub proof fn schema_is_asked(rows: Seq<Row>, codes: Map<Seq<char>, Seq<char>>, level: u8, i: int)
    requires
        0 <= i < rows.len(),
    ensures
        asks_for(asked_fields(rows, codes, level), rows[i].field),
{
    schema_asks_for_codes(rows, codes, i);
    in_the_middle(rows, codes, level, rows[i].field);
}

proof fn in_the_middle(rows: Seq<Row>, codes: Map<Seq<char>, Seq<char>>, level: u8, name: Seq<char>)
    requires
        asks_for(schema_fields(rows, codes), name),
    ensures
        asks_for(asked_fields(rows, codes, level), name),
{
    let before = if level >= 2 {
        checkpoint_fields("one_"@)
    } else {
        Seq::empty()
    };
    let behind = if level >= 3 {
        checkpoint_fields("two_"@)
    } else {
        Seq::empty()
    };
    let middle = schema_fields(rows, codes);
    asks_for_right(before, middle, name);
    asks_for_left(before + middle, behind, name);
}

/// Whatever code an answer is checked for, the prompt asked for it: the codes of
/// the fields, and from level 2 and 3 on the codes of the prompt.
pub proof fn checked_codes_are_asked(rows: Seq<Row>, codes: Map<Seq<char>, Seq<char>>, level: u8, name: Seq<char>)
    requires
        codes.dom() == coded_fields(rows, level),
        is_code_name(name, codes.dom(), level),
    ensures
        asks_for(asked_fields(rows, codes, level), name),
{
    checkpoint_names();
    let before = if level >= 2 {
        checkpoint_fields("one_"@)
    } else {
        Seq::empty()
    };
    let behind = if level >= 3 {
        checkpoint_fields("two_"@)
    } else {
        Seq::empty()
    };
    let middle = schema_fields(rows, codes);
    if is_field_code_name(name, codes.dom()) {
        let f = choose|f: Seq<char>|
            #![trigger codes.dom().contains(f)]
            codes.dom().contains(f) && (name == start_code_field(f) || name == end_code_field(f));
        assert(coded_fields(rows, level).contains(f));
        let i = choose|i: int| 0 <= i < rows.len() && (#[trigger] rows[i]).field == f;
        schema_asks_for_codes(rows, codes, i);
        in_the_middle(rows, codes, level, name);
    } else if level >= 2 && asks_for(before, name) {
        asks_for_left(before, middle, name);
        asks_for_left(before + middle, behind, name);
    } else {
        asks_for_right(before + middle, behind, name);
    }
}

/// What is handed on of an answer holds no code, and every other field as it was.
pub proof fn codes_do_not_leak(content: Json, fields: Set<Seq<char>>, level: u8, name: Seq<char>)
    ensures
        is_code_name(name, fields, level) ==> field_of(
            without_codes(content, fields, level),
            name,
        ) is None,
        !is_code_name(name, fields, level) ==> field_of(without_codes(content, fields, level), name)
            == field_of(content, name),
{
}

/// On level 0 an answer passes without any code, where no field asks for one and
/// none is required.
pub proof fn trusted_answer_passes(content: Json, codes: Codes)
    ensures
        passes(content, 0, Map::empty(), codes, None),
{
}

/// An answer that passes a level from 3 on also passes level 2.
pub proof fn full_check_is_stricter(
    content: Json,
    level: u8,
    field_codes: Map<Seq<char>, Seq<char>>,
    codes: Codes,
    required: Option<Seq<Seq<char>>>,
)
    requires
        level >= 3,
        passes(content, level, field_codes, codes, required),
    ensures
        passes(content, 2, field_codes, codes, required),
{
}

/// An answer that is not an object passes no check for a code.
pub proof fn only_objects_carry_codes(
    content: Json,
    level: u8,
    field_codes: Map<Seq<char>, Seq<char>>,
    codes: Codes,
    required: Option<Seq<Seq<char>>>,
)
    requires
        !(content is Object),
        level >= 2 || field_codes.dom() != Set::<Seq<char>>::empty(),
    ensures
        !passes(content, level, field_codes, codes, required),
{
    if level <= 1 {
        assert(exists|f: Seq<char>| field_codes.dom().contains(f)) by {
            if forall|f: Seq<char>| !field_codes.dom().contains(f) {
                assert(field_codes.dom() =~= Set::<Seq<char>>::empty());
            }
        }
        let f = choose|f: Seq<char>| field_codes.dom().contains(f);
        assert(field_codes.contains_key(f));
        assert(!field_code_holds(content, f, field_codes[f]));
    }
}

/// An answer that leaves out a code, or holds something other than a text in its
/// place, does not pass. So an answer that breaks off before its last code does not.
pub proof fn missing_code_fails(
    content: Json,
    level: u8,
    field_codes: Map<Seq<char>, Seq<char>>,
    codes: Codes,
    required: Option<Seq<Seq<char>>>,
    name: Seq<char>,
)
    requires
        is_checked_name(name, field_codes.dom(), level),
        text_field(content, name) is None,
    ensures
        !passes(content, level, field_codes, codes, required),
{
    if level <= 1 {
        let f = choose|f: Seq<char>|
            #![trigger field_codes.dom().contains(f)]
            field_codes.dom().contains(f) && (name == start_code_field(f) || name == end_code_field(f));
        assert(field_codes.contains_key(f));
        assert(!field_code_holds(content, f, field_codes[f]));
    }
}

/// A field of the answer that is checked for a code: up to level 1 those around the
/// fields, above it those of the prompt.
pub open spec fn is_checked_name(name: Seq<char>, fields: Set<Seq<char>>, level: u8) -> bool {
    if level <= 1 {
        is_field_code_name(name, fields)
    } else {
        is_code_name(name, Set::empty(), level)
    }
}

/// Each try that fails takes one of the tries that are left, and the last one ends
/// the session: there are never more tries than one and the number of retries.
pub proof fn each_failure_takes_one_try<B>(before: PromptSession<B>, after: PromptSession<B>)
    requires
        before.running(),
        after.retry == before.retry + 1,
        after.max_retries == before.max_retries,
    ensures
        tries_left(after) == tries_left(before) - 1,
        before.after_failure() is GaveUp <==> tries_left(after) == 0,
        before.after_failure() is Retry <==> after.running(),
{
}

/// How many tries a session still has.
pub open spec fn tries_left<B>(session: PromptSession<B>) -> int {
    if session.running() {
        session.max_retries - session.retry + 1
    } else {
        0
    }
}

/// What is handed on of an answer that passes holds every required field that is not
/// itself a code, and none of them is empty.
pub proof fn required_fields_are_handed_on(
    content: Json,
    level: u8,
    field_codes: Map<Seq<char>, Seq<char>>,
    codes: Codes,
    required: Seq<Seq<char>>,
    i: int,
)
    requires
        passes(content, level, field_codes, codes, Some(required)),
        0 <= i < required.len(),
        !is_code_name(required[i], field_codes.dom(), level),
    ensures
        !is_missing(field_of(without_codes(content, field_codes.dom(), level), required[i])),
{
    codes_do_not_leak(content, field_codes.dom(), level, required[i]);
    assert(!is_missing(field_of(content, required[i])));
}

/// Every part of a text that is put together from parts stands in it.
proof fn part_stands(parts: Seq<Seq<char>>, k: int)
    requires
        0 <= k < parts.len(),
    ensures
        contains_text(glued(parts), parts[k]),
    decreases parts.len(),
{
    let before = glued(parts.drop_last());
    let last = parts.last();
    let all = glued(parts);
    let at = if k == parts.len() - 1 {
        before.len() as int
    } else {
        part_stands(parts.drop_last(), k);
        find_from_is_first(before, parts[k], 0);
        find_from(before, parts[k], 0)->Some_0
    };
    if k == parts.len() - 1 {
        assert(all.subrange(at, at + last.len()) =~= last);
    } else {
        assert(parts.drop_last()[k] == parts[k]);
        assert(all.subrange(at, at + parts[k].len()) =~= before.subrange(at, at + parts[k].len()));
    }
    assert(occurs_at(all, parts[k], at));
    find_from_is_first(all, parts[k], 0);
}

/// A prompt tells the model its three codes, what it is asked, and how the answer is
/// to be written.
pub proof fn prompt_holds_its_parts(body: Seq<char>, format: Seq<char>, fields: Seq<Asked>, codes: Codes)
    ensures
        contains_text(full_prompt(body, format, fields, codes), codes.initial),
        contains_text(full_prompt(body, format, fields, codes), codes.middle),
        contains_text(full_prompt(body, format, fields, codes), codes.end),
        contains_text(full_prompt(body, format, fields, codes), body),
        contains_text(full_prompt(body, format, fields, codes), example(wants_xml(format), fields)),
{
    let parts = prompt_parts(body, format, fields, codes);
    part_stands(parts, 1);
    part_stands(parts, 3);
    part_stands(parts, 5);
    part_stands(parts, 13);
    part_stands(parts, 28);
    assert(parts[1] == codes.initial && parts[3] == body && parts[5] == codes.middle);
    assert(parts[13] == example(wants_xml(format), fields) && parts[28] == codes.end);
}

// ---------------------------------------------------------------------------
// What passes
// ---------------------------------------------------------------------------
proof fn glued_three(a: Seq<char>, b: Seq<char>, c: Seq<char>)
    ensures
        glued(seq![a, b, c]) == a + b + c,
{
    glued_two(a, b);
    assert(seq![a, b, c].drop_last() =~= seq![a, b]);
}

/// The fields for the codes of a field are called after it.
pub proof fn code_fields_are_called_after_the_field(f: Seq<char>, g: Seq<char>)
    ensures
        start_code_field(f) == "code_"@ + f + "_start"@,
        end_code_field(f) == "code_"@ + f + "_end"@,
        f != g ==> start_code_field(f) != start_code_field(g) && end_code_field(f) != end_code_field(g),
{
    glued_three("code_"@, f, "_start"@);
    glued_three("code_"@, f, "_end"@);
    glued_three("code_"@, g, "_start"@);
    glued_three("code_"@, g, "_end"@);
    let n = "code_"@.len() as int;
    if start_code_field(f) == start_code_field(g) {
        assert(f =~= start_code_field(f).subrange(n, n + f.len()));
        assert(g =~= start_code_field(g).subrange(n, n + g.len()));
    }
    if end_code_field(f) == end_code_field(g) {
        assert(f =~= end_code_field(f).subrange(n, n + f.len()));
        assert(g =~= end_code_field(g).subrange(n, n + g.len()));
    }
}

/// A field counts as given unless it is null or empty: a text unless it is all
/// whitespace, an array or an object unless nothing is in it, and a number or a truth
/// value always.
pub proof fn empty_values_do_not_count(s: Seq<char>, a: Seq<Json>, m: Map<Seq<char>, Json>, n: Num, b: bool)
    ensures
        is_missing(None),
        is_missing(Some(Json::Null)),
        is_missing(Some(Json::String(s))) <==> forall|i: int| 0 <= i < s.len() ==> is_white(#[trigger] s[i]),
        is_missing(Some(Json::Array(a))) <==> a.len() == 0,
        is_missing(Some(Json::Object(m))) <==> forall|k: Seq<char>| !m.contains_key(k),
        !is_missing(Some(Json::Number(n))),
        !is_missing(Some(Json::Bool(b))),
{
    blank_is_trimmed_away(s);
    if forall|k: Seq<char>| !m.contains_key(k) {
        assert(m =~= Map::<Seq<char>, Json>::empty());
    }
}

/// Every field of a list counts as given.
pub open spec fn gives_all(content: Json, required: Option<Seq<Seq<char>>>) -> bool {
    required matches Some(names) ==> forall|i: int|
        0 <= i < names.len() ==> !is_missing(field_of(content, #[trigger] names[i]))
}

/// The three codes stand under three names.
pub open spec fn repeats_three(content: Json, codes: Codes, a: Seq<char>, b: Seq<char>, c: Seq<char>) -> bool {
    &&& text_field(content, a) == Some(codes.initial)
    &&& text_field(content, b) == Some(codes.middle)
    &&& text_field(content, c) == Some(codes.end)
}

/// An answer passes exactly where it gives every required field and repeats every code
/// in its place: up to level 1 that of each field before and behind it, on level 2 the
/// three of the prompt once, and above it twice.
pub proof fn what_passes(
    content: Json,
    level: u8,
    field_codes: Map<Seq<char>, Seq<char>>,
    codes: Codes,
    required: Option<Seq<Seq<char>>>,
)
    ensures
        level <= 1 ==> (passes(content, level, field_codes, codes, required) <==> gives_all(
            content,
            required,
        ) && forall|f: Seq<char>| #[trigger]
            field_codes.contains_key(f) ==> text_field(content, "code_"@ + f + "_start"@) == Some(
                field_codes[f],
            ) && text_field(content, "code_"@ + f + "_end"@) == Some(field_codes[f])),
        level == 2 ==> (passes(content, level, field_codes, codes, required) <==> gives_all(
            content,
            required,
        ) && repeats_three(
            content,
            codes,
            "one_initial_code"@,
            "one_middle_code"@,
            "one_end_code"@,
        )),
        level >= 3 ==> (passes(content, level, field_codes, codes, required) <==> gives_all(
            content,
            required,
        ) && repeats_three(
            content,
            codes,
            "one_initial_code"@,
            "one_middle_code"@,
            "one_end_code"@,
        ) && repeats_three(
            content,
            codes,
            "two_initial_code"@,
            "two_middle_code"@,
            "two_end_code"@,
        )),
{
    assert forall|f: Seq<char>| #[trigger] field_codes.contains_key(f) implies (field_code_holds(
        content,
        f,
        field_codes[f],
    ) <==> text_field(content, "code_"@ + f + "_start"@) == Some(field_codes[f]) && text_field(
        content,
        "code_"@ + f + "_end"@,
    ) == Some(field_codes[f])) by {
        code_fields_are_called_after_the_field(f, f);
    }
    if level <= 1 {
        if passes(content, level, field_codes, codes, required) {
            assert forall|f: Seq<char>| #[trigger] field_codes.contains_key(f) implies text_field(
                content,
                "code_"@ + f + "_start"@,
            ) == Some(field_codes[f]) && text_field(content, "code_"@ + f + "_end"@) == Some(
                field_codes[f],
            ) by {
                assert(field_code_holds(content, f, field_codes[f]));
            }
        }
    }
}

/// A name that only a code has.
pub open spec fn names_a_code(name: Seq<char>, fields: Set<Seq<char>>, level: u8) -> bool {
    ||| exists|f: Seq<char>| #[trigger]
        fields.contains(f) && (name == "code_"@ + f + "_start"@ || name == "code_"@ + f + "_end"@)
    ||| level >= 2 && (name == "one_initial_code"@ || name == "one_middle_code"@ || name
        == "one_end_code"@)
    ||| level >= 3 && (name == "two_initial_code"@ || name == "two_middle_code"@ || name
        == "two_end_code"@)
}

/// Of an object the codes are taken out, and every other field stays as it is; any other
/// answer stays as it is.
pub proof fn only_codes_are_taken_out(content: Json, fields: Set<Seq<char>>, level: u8, name: Seq<char>)
    ensures
        content matches Json::Object(m) ==> (without_codes(content, fields, level) matches Json::Object(
            r,
        ) && (r.contains_key(name) <==> m.contains_key(name) && !names_a_code(name, fields, level)) && (
        r.contains_key(name) ==> r[name] == m[name])),
        !(content is Object) ==> without_codes(content, fields, level) == content,
{
    if is_field_code_name(name, fields) {
        let f = choose|f: Seq<char>|
            #![trigger fields.contains(f)]
            fields.contains(f) && (name == start_code_field(f) || name == end_code_field(f));
        code_fields_are_called_after_the_field(f, f);
        assert(fields.contains(f));
    }
    if exists|f: Seq<char>| #[trigger]
        fields.contains(f) && (name == "code_"@ + f + "_start"@ || name == "code_"@ + f + "_end"@) {
        let f = choose|f: Seq<char>| #[trigger]
            fields.contains(f) && (name == "code_"@ + f + "_start"@ || name == "code_"@ + f + "_end"@);
        code_fields_are_called_after_the_field(f, f);
        assert(fields.contains(f));
    }
    assert(is_code_name(name, fields, level) <==> names_a_code(name, fields, level));
}

// ---------------------------------------------------------------------------
// What the model is told
// ---------------------------------------------------------------------------
/// The answer repeats the code of a field before and behind it.
pub open spec fn got_right(content: Json, codes: Map<Seq<char>, Seq<char>>, f: Seq<char>) -> bool {
    &&& codes.contains_key(f)
    &&& text_field(content, "code_"@ + f + "_start"@) == Some(codes[f])
    &&& text_field(content, "code_"@ + f + "_end"@) == Some(codes[f])
}

/// Of a list of fields those are taken that the answer got right, in their order.
pub proof fn right_fields_in_order(
    content: Json,
    a: Seq<Seq<char>>,
    b: Seq<Seq<char>>,
    f: Seq<char>,
    codes: Map<Seq<char>, Seq<char>>,
)
    ensures
        validated(content, a + b, codes) == validated(content, a, codes) + validated(content, b, codes),
        codes.contains_key(f) ==> validated(content, seq![f], codes) == if got_right(content, codes, f) {
            seq![f]
        } else {
            Seq::empty()
        },
    decreases b.len(),
{
    code_fields_are_called_after_the_field(f, f);
    reveal_with_fuel(validated, 2);
    assert(seq![f].drop_last() =~= Seq::<Seq<char>>::empty());
    assert(Seq::<Seq<char>>::empty().push(f) =~= seq![f]);
    if b.len() == 0 {
        assert(a + b =~= a);
        assert(validated(content, a, codes) + validated(content, b, codes) =~= validated(
            content,
            a,
            codes,
        ));
    } else {
        assert((a + b).drop_last() =~= a + b.drop_last());
        assert((a + b).last() == b.last());
        right_fields_in_order(content, a, b.drop_last(), f, codes);
        assert(validated(content, a + b, codes) =~= validated(content, a, codes) + validated(
            content,
            b,
            codes,
        ));
    }
}

proof fn validated_iff_right(content: Json, keys: Seq<Seq<char>>, codes: Map<Seq<char>, Seq<char>>, f: Seq<char>)
    requires
        forall|i: int| 0 <= i < keys.len() ==> codes.contains_key(#[trigger] keys[i]),
    ensures
        validated(content, keys, codes).contains(f) <==> keys.contains(f) && got_right(content, codes, f),
    decreases keys.len(),
{
    if keys.len() > 0 {
        let rest = keys.drop_last();
        let last = keys.last();
        let before = validated(content, rest, codes);
        let all = validated(content, keys, codes);
        assert(codes.contains_key(keys[keys.len() - 1]));
        assert forall|i: int| 0 <= i < rest.len() implies codes.contains_key(#[trigger] rest[i]) by {
            assert(rest[i] == keys[i]);
        }
        validated_iff_right(content, rest, codes, f);
        code_fields_are_called_after_the_field(last, last);
        assert(keys.contains(f) <==> rest.contains(f) || f == last) by {
            if keys.contains(f) {
                let i = choose|i: int| 0 <= i < keys.len() && keys[i] == f;
                if i < rest.len() {
                    assert(rest[i] == f);
                }
            }
            if rest.contains(f) {
                let i = choose|i: int| 0 <= i < rest.len() && rest[i] == f;
                assert(keys[i] == f);
            }
            assert(keys[keys.len() - 1] == last);
        }
        if got_right(content, codes, last) {
            assert(all == before.push(last));
            assert(all.contains(f) <==> before.contains(f) || f == last) by {
                if before.contains(f) {
                    let i = choose|i: int| 0 <= i < before.len() && before[i] == f;
                    assert(all[i] == f);
                }
                assert(all[all.len() - 1] == last);
            }
        } else {
            assert(all == before);
        }
    }
}

/// Of a list of fields those are shown that the answer gives, in their order, each as an
/// element.
pub proof fn given_fields_are_shown(content: Json, a: Seq<Seq<char>>, b: Seq<Seq<char>>, f: Seq<char>)
    ensures
        shown_fields(content, a + b) == shown_fields(content, a) + shown_fields(content, b),
        shown_fields(content, seq![f]) == match field_of(content, f) {
            Some(v) => seq!["<"@ + f + ">"@ + shortened(plain_text(v)) + "</"@ + f + ">"@],
            None => Seq::empty(),
        },
    decreases b.len(),
{
    reveal_with_fuel(shown_fields, 2);
    assert(seq![f].drop_last() =~= Seq::<Seq<char>>::empty());
    if field_of(content, f) is Some {
        let v = field_of(content, f)->Some_0;
        shown_as_element(f, v);
        let one = seq!["<"@ + f + ">"@ + shortened(plain_text(v)) + "</"@ + f + ">"@];
        assert(Seq::<Seq<char>>::empty().push(one[0]) =~= one);
    }
    if b.len() == 0 {
        assert(a + b =~= a);
        assert(shown_fields(content, a) + shown_fields(content, b) =~= shown_fields(content, a));
    } else {
        assert((a + b).drop_last() =~= a + b.drop_last());
        assert((a + b).last() == b.last());
        given_fields_are_shown(content, a, b.drop_last(), f);
        assert(shown_fields(content, a + b) =~= shown_fields(content, a) + shown_fields(content, b));
    }
}

proof fn shown_as_element(f: Seq<char>, v: Json)
    ensures
        shown_field(f, v) == "<"@ + f + ">"@ + shortened(plain_text(v)) + "</"@ + f + ">"@,
{
    let t = shortened(plain_text(v));
    let parts = seq!["<"@, f, ">"@, t, "</"@, f, ">"@];
    let first = seq!["<"@, f, ">"@];
    let second = seq![t, "</"@, f];
    glued_three("<"@, f, ">"@);
    glued_three(t, "</"@, f);
    glued_in_lots(first, second, ">"@);
    glued_in_lots(first + second, seq![">"@], ">"@);
    assert(first + second + seq![">"@] =~= parts);
    assert(glued(parts) =~= "<"@ + f + ">"@ + t + "</"@ + f + ">"@);
}

proof fn shown_iff_given(content: Json, fields: Seq<Seq<char>>, k: int)
    requires
        0 <= k < fields.len(),
        field_of(content, fields[k]) is Some,
    ensures
        shown_fields(content, fields).contains(
            shown_field(fields[k], field_of(content, fields[k])->Some_0),
        ),
    decreases fields.len(),
{
    let one = shown_field(fields[k], field_of(content, fields[k])->Some_0);
    let all = shown_fields(content, fields);
    let before = shown_fields(content, fields.drop_last());
    if k == fields.len() - 1 {
        assert(all[all.len() - 1] == one);
    } else {
        shown_iff_given(content, fields.drop_last(), k);
        let i = choose|i: int| 0 <= i < before.len() && before[i] == one;
        assert(all[i] == one);
    }
}

proof fn nothing_shown(content: Json, fields: Seq<Seq<char>>)
    requires
        forall|i: int| 0 <= i < fields.len() ==> field_of(content, #[trigger] fields[i]) is None,
    ensures
        shown_fields(content, fields).len() == 0,
    decreases fields.len(),
{
    if fields.len() > 0 {
        let rest = fields.drop_last();
        assert forall|i: int| 0 <= i < rest.len() implies field_of(content, #[trigger] rest[i]) is None by {
            assert(rest[i] == fields[i]);
        }
        nothing_shown(content, rest);
        assert(field_of(content, fields[fields.len() - 1]) is None);
    }
}

proof fn stands_in(whole: Seq<char>, middle: Seq<char>, part: Seq<char>)
    requires
        contains_text(whole, middle),
        contains_text(middle, part),
    ensures
        contains_text(whole, part),
{
    contained_is_between(whole, middle);
    contained_is_between(middle, part);
    let (a, b) = choose|a: Seq<char>, b: Seq<char>| whole == #[trigger] (a + middle + b);
    let (c, d) = choose|c: Seq<char>, d: Seq<char>| middle == #[trigger] (c + part + d);
    assert(whole =~= (a + c) + part + (d + b));
    contained_is_between(whole, part);
}

proof fn joined_holds(parts: Seq<Seq<char>>, sep: Seq<char>, k: int)
    requires
        0 <= k < parts.len(),
    ensures
        contains_text(joined(parts, sep), parts[k]),
    decreases parts.len(),
{
    let all = joined(parts, sep);
    let none = Seq::<char>::empty();
    if parts.len() == 1 {
        assert(all =~= none + parts[k] + none);
    } else if k == parts.len() - 1 {
        let before = joined(parts.drop_last(), sep) + sep;
        assert(all =~= before + parts[k] + none);
    } else {
        let before = joined(parts.drop_last(), sep);
        joined_holds(parts.drop_last(), sep, k);
        assert(all =~= none + before + (sep + parts.last()));
        contained_is_between(all, before);
        stands_in(all, before, parts[k]);
    }
    contained_is_between(all, parts[k]);
}

/// The model is told something exactly where it got a field right and gave it. It is then
/// told every such field with what it wrote there, and the name of every other field of
/// the schema.
pub proof fn note_tells_right_and_open_fields(
    content: Json,
    rows: Seq<Row>,
    codes: Map<Seq<char>, Seq<char>>,
    f: Seq<char>,
    i: int,
)
    requires
        codes.dom().finite(),
        field_names(rows).finite(),
        0 <= i < rows.len(),
    ensures
        retry_note(content, rows, codes) is None <==> forall|g: Seq<char>|
            !(#[trigger] got_right(content, codes, g) && field_of(content, g) is Some),
        got_right(content, codes, f) ==> (field_of(content, f) matches Some(v) ==> (retry_note(
            content,
            rows,
            codes,
        ) matches Some(note) && contains_text(
            note,
            "<"@ + f + ">"@ + shortened(plain_text(v)) + "</"@ + f + ">"@,
        ))),
        !got_right(content, codes, rows[i].field) ==> (retry_note(content, rows, codes) matches Some(note)
            ==> contains_text(note, rows[i].field)),
{
    let keys = in_order(codes.dom());
    order_exists(codes.dom());
    assert forall|j: int| 0 <= j < keys.len() implies codes.contains_key(#[trigger] keys[j]) by {
        assert(keys.contains(keys[j]));
    }
    let good = validated(content, keys, codes);
    let shown = shown_fields(content, good);
    let left = field_names(rows).difference(good.to_set());
    let open = in_order(left);
    order_exists(left);
    let open_text = if open.len() == 0 {
        "all fields"@
    } else {
        joined(open, ", "@)
    };
    let parts = seq![
        "\n\n[RETRY CONTEXT]\nYou previously produced these valid fields:\n"@,
        joined(shown, "\n"@),
        "\n\nPlease complete: "@,
        open_text,
    ];
    let note = glued(parts);
    part_stands(parts, 1);
    part_stands(parts, 3);
    assert forall|g: Seq<char>| #[trigger] got_right(content, codes, g) && field_of(content, g) is Some implies
    shown.contains(shown_field(g, field_of(content, g)->Some_0)) by {
        assert(keys.contains(g));
        validated_iff_right(content, keys, codes, g);
        let k = choose|k: int| 0 <= k < good.len() && good[k] == g;
        shown_iff_given(content, good, k);
    }
    if forall|g: Seq<char>| !(#[trigger] got_right(content, codes, g) && field_of(content, g) is Some) {
        assert forall|k: int| 0 <= k < good.len() implies field_of(content, #[trigger] good[k]) is None by {
            assert(good.contains(good[k]));
            validated_iff_right(content, keys, codes, good[k]);
            assert(got_right(content, codes, good[k]));
        }
        nothing_shown(content, good);
    }
    if got_right(content, codes, f) && field_of(content, f) is Some {
        let v = field_of(content, f)->Some_0;
        let one = shown_field(f, v);
        shown_as_element(f, v);
        let k = choose|k: int| 0 <= k < shown.len() && shown[k] == one;
        joined_holds(shown, "\n"@, k);
        stands_in(note, joined(shown, "\n"@), one);
    }
    if !got_right(content, codes, rows[i].field) {
        let g = rows[i].field;
        validated_iff_right(content, keys, codes, g);
        assert(!good.contains(g));
        assert(field_names(rows).contains(g));
        assert(left.contains(g));
        assert(open.contains(g));
        let k = choose|k: int| 0 <= k < open.len() && open[k] == g;
        joined_holds(open, ", "@, k);
        stands_in(note, open_text, g);
    }
}

/// A text of up to 500 bytes is shown whole. Of a longer one as many bytes are shown as
/// can be cut off up to 500, with three dots behind them.
pub proof fn long_texts_are_shortened(s: Seq<char>, at: int)
    ensures
        byte_len(s) <= 500 ==> shortened(s) == s,
        byte_len(s) > 500 && 0 <= at <= 500 && can_cut(s, at) && (forall|k: int|
            at < k <= 500 ==> !(#[trigger] can_cut(s, k))) ==> shortened(s) == head_bytes(s, at) + "..."@,
{
    if byte_len(s) > 500 && 0 <= at <= 500 && can_cut(s, at) && (forall|k: int|
        at < k <= 500 ==> !(#[trigger] can_cut(s, k))) {
        cut_up_to_is_cut(s, 500);
        cut_up_to_is_last(s, 500, at);
        assert(cut_up_to(s, 500) == at);
        glued_two(head_bytes(s, at), "..."@);
    }
}

/// The names of the fields in a schema are those of its rows.
pub proof fn schema_names_its_rows(rows: Seq<Row>, f: Seq<char>)
    ensures
        field_names(rows).contains(f) <==> exists|i: int| 0 <= i < rows.len() && (#[trigger] rows[i]).field == f,
{
}

/// What the model is told, in its order: the right fields on a line each, and behind them
/// the names of the others, with a comma between each two, or that they are all.
pub proof fn note_in_its_order(content: Json, rows: Seq<Row>, codes: Map<Seq<char>, Seq<char>>, shown: Seq<Seq<char>>, open: Seq<Seq<char>>)
    requires
        shown == shown_fields(content, validated(content, in_order(codes.dom()), codes)),
        open == in_order(
            field_names(rows).difference(validated(content, in_order(codes.dom()), codes).to_set()),
        ),
    ensures
        shown.len() == 0 ==> retry_note(content, rows, codes) is None,
        shown.len() > 0 && open.len() > 0 ==> retry_note(content, rows, codes) == Some(
            "\n\n[RETRY CONTEXT]\nYou previously produced these valid fields:\n"@ + joined(shown, "\n"@)
                + "\n\nPlease complete: "@ + joined(open, ", "@),
        ),
        shown.len() > 0 && open.len() == 0 ==> retry_note(content, rows, codes) == Some(
            "\n\n[RETRY CONTEXT]\nYou previously produced these valid fields:\n"@ + joined(shown, "\n"@)
                + "\n\nPlease complete: "@ + "all fields"@,
        ),
{
    let head = "\n\n[RETRY CONTEXT]\nYou previously produced these valid fields:\n"@;
    let rest = if open.len() == 0 {
        "all fields"@
    } else {
        joined(open, ", "@)
    };
    let first = seq![head, joined(shown, "\n"@), "\n\nPlease complete: "@];
    glued_three(head, joined(shown, "\n"@), "\n\nPlease complete: "@);
    assert(seq![head, joined(shown, "\n"@), "\n\nPlease complete: "@, rest].drop_last() =~= first);
}

}
