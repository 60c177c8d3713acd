//! Laws of whole answers: what a model writes as it was shown is what is read.
use vstd::prelude::*;
use crate::document_laws::{are_written, document, has_no_tag, laid_out_answer_is_read, meanings_under, says_all};
use crate::document_laws::Piece;
use crate::json::{field_of, parsed_json, text_field, Json};
use crate::prompt_check::{is_missing, only_thinking_is_taken_out, passes, plain_answer_is_kept, required_texts};
use crate::prompt_check::without_thinking;
use crate::prompt_exec::{read_as, PromptSession, Verdict};
use crate::prompt_laws::{names_a_code, only_codes_are_taken_out, what_passes};
use crate::prompt_text::{code_texts, end_code_field, example, example_line, example_lines};
use crate::prompt_text::{start_code_field, wants_xml, Asked, Codes};
use crate::rewrite::glued;
use crate::text::{contains_text, is_white, occurs_at, trim, trim_end, trim_start, trim_twice};
use crate::xml::{answer, children, element, with_child, MAX_TAGS};
use crate::xml_laws::{element_becomes_child, find_char, is_name, no_tag_inside, nothing_behind, part_chars};
use crate::xml_laws::{response_wrapper_is_dropped, text_means_itself, written};

verus! {

broadcast use vstd::seq_lib::group_seq_properties;

// ---------------------------------------------------------------------------
// Fields of an answer
// ---------------------------------------------------------------------------
/// A field that is read as it was written: its name is a tag name other than that
/// of the answer itself, and its text holds no tag.
pub open spec fn is_readable(f: Asked) -> bool {
    &&& is_name(f.name)
    &&& f.name != "response"@
    &&& forall|i: int| 0 <= i < f.text.len() ==> #[trigger] f.text[i] != '<'
}

/// Fields that are read as they were written: at least one, none twice, and no more
/// than are looked at.
pub open spec fn are_readable(fields: Seq<Asked>) -> bool {
    &&& 0 < fields.len() <= MAX_TAGS
    &&& forall|i: int| 0 <= i < fields.len() ==> is_readable(#[trigger] fields[i])
    &&& forall|i: int, j: int|
        0 <= i < j < fields.len() ==> (#[trigger] fields[i]).name != (#[trigger] fields[j]).name
}

/// What the fields say, without the whitespace around their texts.
pub open spec fn values_of(fields: Seq<Asked>) -> Map<Seq<char>, Json>
    decreases fields.len(),
{
    if fields.len() == 0 {
        Map::empty()
    } else {
        values_of(fields.drop_last()).insert(
            fields.last().name,
            Json::String(trim(fields.last().text)),
        )
    }
}

proof fn values_have_names(fields: Seq<Asked>, name: Seq<char>)
    ensures
        values_of(fields).contains_key(name) <==> exists|i: int|
            0 <= i < fields.len() && (#[trigger] fields[i]).name == name,
    decreases fields.len(),
{
    if fields.len() > 0 {
        let rest = fields.drop_last();
        values_have_names(rest, name);
        if exists|i: int| 0 <= i < fields.len() && (#[trigger] fields[i]).name == name {
            let i = choose|i: int| 0 <= i < fields.len() && (#[trigger] fields[i]).name == name;
            if i < rest.len() {
                assert(rest[i].name == name);
            }
        }
        if exists|i: int| 0 <= i < rest.len() && (#[trigger] rest[i]).name == name {
            let i = choose|i: int| 0 <= i < rest.len() && (#[trigger] rest[i]).name == name;
            assert(fields[i].name == name);
        }
        if fields.last().name == name {
            assert(fields[fields.len() - 1].name == name);
        }
    }
}

proof fn value_of_field(fields: Seq<Asked>, i: int)
    requires
        0 <= i < fields.len(),
        forall|a: int, b: int|
            0 <= a < b < fields.len() ==> (#[trigger] fields[a]).name != (#[trigger] fields[b]).name,
    ensures
        values_of(fields).contains_key(fields[i].name),
        values_of(fields)[fields[i].name] == Json::String(trim(fields[i].text)),
    decreases fields.len(),
{
    if i < fields.len() - 1 {
        let rest = fields.drop_last();
        assert forall|a: int, b: int| 0 <= a < b < rest.len() implies (#[trigger] rest[a]).name != (
        #[trigger] rest[b]).name by {
            assert(fields[a].name != fields[b].name);
        }
        value_of_field(rest, i);
        assert(fields[i].name != fields[fields.len() - 1].name);
    }
}

// ---------------------------------------------------------------------------
// The text of an answer
// ---------------------------------------------------------------------------
/// What stands between two fields of an answer.
spec fn gap() -> Seq<char> {
    seq!['\n', ' ', ' ']
}

spec fn field_text(f: Asked) -> Seq<char> {
    written(f.name, Seq::empty(), f.text)
}

/// The fields of an answer, without the space around them.
spec fn body(fields: Seq<Asked>) -> Seq<char>
    decreases fields.len(),
{
    if fields.len() == 0 {
        Seq::empty()
    } else if fields.len() == 1 {
        field_text(fields[0])
    } else {
        body(fields.drop_last()) + gap() + field_text(fields.last())
    }
}

proof fn glued_push(parts: Seq<Seq<char>>, p: Seq<char>)
    ensures
        glued(parts.push(p)) == glued(parts) + p,
{
    assert(parts.push(p).drop_last() =~= parts);
}

proof fn line_is_field(f: Asked, last: bool)
    ensures
        example_line(true, f, last) == seq![' ', ' '] + field_text(f) + seq!['\n'],
{
    reveal_strlit("  <");
    reveal_strlit(">");
    reveal_strlit("</");
    reveal_strlit(">\n");
    let none = Seq::<Seq<char>>::empty();
    let p1 = seq!["  <"@];
    let p2 = seq!["  <"@, f.name];
    let p3 = seq!["  <"@, f.name, ">"@];
    let p4 = seq!["  <"@, f.name, ">"@, f.text];
    let p5 = seq!["  <"@, f.name, ">"@, f.text, "</"@];
    let p6 = seq!["  <"@, f.name, ">"@, f.text, "</"@, f.name];
    let p7 = seq!["  <"@, f.name, ">"@, f.text, "</"@, f.name, ">\n"@];
    glued_push(none, "  <"@);
    glued_push(p1, f.name);
    glued_push(p2, ">"@);
    glued_push(p3, f.text);
    glued_push(p4, "</"@);
    glued_push(p5, f.name);
    glued_push(p6, ">\n"@);
    assert(none.push("  <"@) =~= p1);
    assert(p1.push(f.name) =~= p2);
    assert(p2.push(">"@) =~= p3);
    assert(p3.push(f.text) =~= p4);
    assert(p4.push("</"@) =~= p5);
    assert(p5.push(f.name) =~= p6);
    assert(p6.push(">\n"@) =~= p7);
    assert(glued(p7) =~= seq![' ', ' '] + field_text(f) + seq!['\n']);
}

proof fn lines_without_last(fields: Seq<Asked>)
    requires
        fields.len() > 0,
    ensures
        glued(example_lines(true, fields)) == glued(example_lines(true, fields.drop_last()))
            + example_line(true, fields.last(), true),
{
    let lines = example_lines(true, fields);
    let fewer = example_lines(true, fields.drop_last());
    assert(lines.drop_last() =~= fewer) by {
        assert forall|i: int| 0 <= i < fewer.len() implies lines.drop_last()[i] == fewer[i] by {
            line_is_field(fields[i], i == fields.len() - 1);
            line_is_field(fields[i], i == fields.len() - 2);
        }
    }
}

proof fn lines_are_body(fields: Seq<Asked>)
    requires
        fields.len() > 0,
    ensures
        seq!['\n'] + glued(example_lines(true, fields)) == gap() + body(fields) + seq!['\n'],
    decreases fields.len(),
{
    let f = fields.last();
    lines_without_last(fields);
    line_is_field(f, true);
    if fields.len() == 1 {
        assert(glued(example_lines(true, fields.drop_last())) =~= Seq::empty());
        assert(seq!['\n'] + glued(example_lines(true, fields)) =~= gap() + field_text(f) + seq!['\n']);
    } else {
        lines_are_body(fields.drop_last());
        let before = body(fields.drop_last());
        assert(seq!['\n'] + glued(example_lines(true, fields)) =~= (gap() + before + seq!['\n']) + (seq![
            ' ',
            ' ',
        ] + field_text(f) + seq!['\n']));
        assert((gap() + before + seq!['\n']) + (seq![' ', ' '] + field_text(f) + seq!['\n']) =~= gap() + (
        before + gap() + field_text(f)) + seq!['\n']);
    }
}

/// No field closes the answer.
#[verifier::rlimit(40)]
proof fn line_closes_nothing(f: Asked, j: int)
    requires
        is_readable(f),
    ensures
        !occurs_at(seq![' ', ' '] + field_text(f) + seq!['\n'], "</response>"@, j),
{
    reveal_strlit("</response>");
    reveal_strlit("response");
    let line = seq![' ', ' '] + field_text(f) + seq!['\n'];
    let end = "</response>"@;
    let n = f.name.len() as int;
    let t = f.text.len() as int;
    let c = 4 + n + t;
    if occurs_at(line, end, j) {
        part_chars(line, end, j);
        assert(line[j + 0] == end[0] && line[j + 1] == end[1]);
        assert(line.len() == c + 4 + n);
        assert forall|i: int| 0 <= i < n implies line[3 + i] == f.name[i] && line[c + 2 + i]
            == f.name[i] by {}
        assert forall|i: int| 0 <= i < t implies line[4 + n + i] == f.text[i] by {}
        assert(line[c] == '<' && line[c + 1] == '/' && line[c + 2 + n] == '>');
        if j != c {
            if 3 <= j < 3 + n {
                assert(line[3 + (j - 3)] == f.name[j - 3]);
            } else if 4 + n <= j < c {
                assert(line[4 + n + (j - 4 - n)] == f.text[j - 4 - n]);
            } else if c + 2 <= j < c + 2 + n {
                assert(line[c + 2 + (j - c - 2)] == f.name[j - c - 2]);
            } else if j == 2 {
                assert(line[3] == f.name[0]);
            }
            assert(false);
        }
        if n < 8 {
            assert(line[j + (2 + n)] == end[2 + n]);
        } else if n > 8 {
            assert(line[c + 2 + 8] == f.name[8]);
            assert(line[j + 10] == end[10]);
        } else {
            assert forall|i: int| 0 <= i < 8 implies f.name[i] == "response"@[i] by {
                assert(line[c + 2 + i] == f.name[i]);
                assert(line[j + (2 + i)] == end[2 + i]);
            }
            assert(f.name =~= "response"@);
        }
    }
}

proof fn fields_close_nothing(fields: Seq<Asked>)
    requires
        forall|i: int| 0 <= i < fields.len() ==> is_readable(#[trigger] fields[i]),
    ensures
        forall|j: int|
            !occurs_at(seq!['\n'] + glued(example_lines(true, fields)), "</response>"@, j),
    decreases fields.len(),
{
    reveal_strlit("</response>");
    let end = "</response>"@;
    let all = seq!['\n'] + glued(example_lines(true, fields));
    if fields.len() == 0 {
        assert(all.len() == 1);
    } else {
        let rest = fields.drop_last();
        let before = seq!['\n'] + glued(example_lines(true, rest));
        let line = seq![' ', ' '] + field_text(fields.last()) + seq!['\n'];
        fields_close_nothing(rest);
        lines_without_last(fields);
        line_is_field(fields.last(), true);
        assert(all =~= before + line);
        if rest.len() > 0 {
            lines_without_last(rest);
            line_is_field(rest.last(), true);
        }
        assert(before.last() == '\n');
        assert(is_readable(fields[fields.len() - 1]));
        assert forall|j: int| !occurs_at(all, end, j) by {
            if occurs_at(all, end, j) {
                part_chars(all, end, j);
                let edge = before.len() as int;
                if j >= edge {
                    assert(line.subrange(j - edge, j - edge + end.len()) =~= all.subrange(
                        j,
                        j + end.len(),
                    ));
                    line_closes_nothing(fields.last(), j - edge);
                } else if j + end.len() > edge {
                    assert(all[edge - 1] == '\n');
                    assert(all[j + (edge - 1 - j)] == end[edge - 1 - j]);
                } else {
                    assert(before.subrange(j, j + end.len()) =~= all.subrange(j, j + end.len()));
                    assert(occurs_at(before, end, j));
                }
            }
        }
    }
}

/// The first fields of an answer stand at its start, and the next behind them.
proof fn body_starts(fields: Seq<Asked>, k: int)
    requires
        1 <= k <= fields.len(),
    ensures
        occurs_at(body(fields), body(fields.take(k)), 0),
        k < fields.len() ==> occurs_at(
            body(fields),
            gap() + field_text(fields[k]),
            body(fields.take(k)).len() as int,
        ),
    decreases fields.len(),
{
    let s = body(fields);
    let start = body(fields.take(k));
    let at = start.len() as int;
    if k == fields.len() {
        assert(fields.take(k) =~= fields);
        assert(s.subrange(0, s.len() as int) =~= s);
    } else {
        let rest = fields.drop_last();
        let before = body(rest);
        let next = gap() + field_text(fields.last());
        assert(rest.take(k) =~= fields.take(k));
        body_starts(rest, k);
        assert(s =~= before + next);
        assert(s.subrange(0, at) =~= before.subrange(0, at));
        if k == fields.len() - 1 {
            assert(rest =~= fields.take(k));
            assert(s.subrange(at, at + next.len()) =~= next);
        } else {
            let piece = gap() + field_text(fields[k]);
            assert(rest[k] == fields[k]);
            assert(s.subrange(at, at + piece.len()) =~= before.subrange(at, at + piece.len()));
        }
    }
}

/// A field that stands in an answer is read.
proof fn field_is_read(s: Seq<char>, pos: int, tags: nat, known: Map<Seq<char>, Json>, f: Asked)
    requires
        tags > 0,
        is_readable(f),
        occurs_at(s, field_text(f), pos),
        !known.contains_key(f.name),
    ensures
        children(s, pos, tags, known) == children(
            s,
            pos + field_text(f).len(),
            (tags - 1) as nat,
            known.insert(f.name, Json::String(trim(f.text))),
        ),
{
    no_tag_inside(f.text, f.name);
    text_means_itself(f.text);
    element_becomes_child(s, pos, tags, known, f.name, Seq::empty(), f.text);
    assert(with_child(known, f.name, element(f.text)) == known.insert(
        f.name,
        Json::String(trim(f.text)),
    ));
}

proof fn first_fields_are_read(fields: Seq<Asked>, k: int)
    requires
        are_readable(fields),
        1 <= k <= fields.len(),
    ensures
        children(body(fields), 0, MAX_TAGS as nat, Map::empty()) == children(
            body(fields),
            body(fields.take(k)).len() as int,
            (MAX_TAGS - k) as nat,
            values_of(fields.take(k)),
        ),
    decreases k,
{
    let s = body(fields);
    let some = fields.take(k);
    let f = fields[k - 1];
    assert(is_readable(f));
    assert(some.last() == f);
    if k == 1 {
        body_starts(fields, 1);
        assert(some[0] == f);
        field_is_read(s, 0, MAX_TAGS as nat, Map::empty(), f);
        assert(some.drop_last() =~= Seq::<Asked>::empty());
        assert(values_of(some.drop_last()) == Map::<Seq<char>, Json>::empty());
    } else {
        let fewer = fields.take(k - 1);
        let known = values_of(fewer);
        let pos = body(fewer).len() as int;
        let piece = gap() + field_text(f);
        first_fields_are_read(fields, k - 1);
        body_starts(fields, k - 1);
        assert(some.drop_last() =~= fewer);
        part_chars(s, piece, pos);
        assert(piece[0] == '\n' && piece[1] == ' ' && piece[2] == ' ' && piece[3] == '<');
        assert(s[pos + 0] == '\n' && s[pos + 1] == ' ' && s[pos + 2] == ' ' && s[pos + 3] == '<');
        find_char(s, '<', pos, pos + 3);
        find_char(s, '<', pos + 3, pos + 3);
        assert(occurs_at(s, field_text(f), pos + 3)) by {
            assert(s.subrange(pos + 3, pos + 3 + field_text(f).len()) =~= field_text(f)) by {
                assert forall|i: int| 0 <= i < field_text(f).len() implies s.subrange(
                    pos + 3,
                    pos + 3 + field_text(f).len(),
                )[i] == field_text(f)[i] by {
                    assert(s[pos + (3 + i)] == piece[3 + i]);
                }
            }
        }
        assert(children(s, pos, (MAX_TAGS - k + 1) as nat, known) == children(
            s,
            pos + 3,
            (MAX_TAGS - k + 1) as nat,
            known,
        ));
        values_have_names(fewer, f.name);
        assert(!known.contains_key(f.name)) by {
            if known.contains_key(f.name) {
                let i = choose|i: int| 0 <= i < fewer.len() && (#[trigger] fewer[i]).name == f.name;
                assert(fields[i].name == fields[k - 1].name);
            }
        }
        field_is_read(s, pos + 3, (MAX_TAGS - k + 1) as nat, known, f);
        assert(body(some).len() == pos + 3 + field_text(f).len());
    }
}

proof fn trim_around(s: Seq<char>, core: Seq<char>)
    requires
        s == gap() + core + seq!['\n'],
        core.len() > 0,
        !is_white(core[0]),
        !is_white(core.last()),
    ensures
        trim(s) == core,
{
    let tail = core + seq!['\n'];
    reveal_with_fuel(trim_start, 4);
    assert(s[0] == '\n');
    assert(s.drop_first()[0] == ' ');
    assert(s.drop_first().drop_first()[0] == ' ');
    assert(s.drop_first().drop_first().drop_first() =~= tail);
    assert(tail[0] == core[0]);
    assert(trim_start(s) == tail);
    reveal_with_fuel(trim_end, 2);
    assert(tail.last() == '\n');
    assert(tail.drop_last() =~= core);
}

proof fn body_ends(fields: Seq<Asked>)
    requires
        fields.len() > 0,
    ensures
        body(fields).len() > 0,
        body(fields)[0] == '<',
        body(fields).last() == '>',
    decreases fields.len(),
{
    let f = field_text(fields.last());
    assert(f[0] == '<' && f.last() == '>');
    if fields.len() > 1 {
        body_ends(fields.drop_last());
    }
}

proof fn example_parts(fields: Seq<Asked>)
    ensures
        example(true, fields) == "<response>"@ + (seq!['\n'] + glued(example_lines(true, fields)))
            + "</response>"@,
{
    reveal_strlit("\n");
    let lines = glued(example_lines(true, fields));
    let none = Seq::<Seq<char>>::empty();
    let p1 = seq!["<response>"@];
    let p2 = seq!["<response>"@, "\n"@];
    let p3 = seq!["<response>"@, "\n"@, lines];
    let p4 = seq!["<response>"@, "\n"@, lines, "</response>"@];
    glued_push(none, "<response>"@);
    glued_push(p1, "\n"@);
    glued_push(p2, lines);
    glued_push(p3, "</response>"@);
    assert(none.push("<response>"@) =~= p1);
    assert(p1.push("\n"@) =~= p2);
    assert(p2.push(lines) =~= p3);
    assert(p3.push("</response>"@) =~= p4);
    assert("\n"@ =~= seq!['\n']);
    assert(glued(p4) =~= "<response>"@ + (seq!['\n'] + lines) + "</response>"@);
}

// ---------------------------------------------------------------------------
// Laws
// ---------------------------------------------------------------------------
/// An XML answer that is written as the prompt shows it is read as its fields.
pub proof fn answer_is_read(fields: Seq<Asked>)
    requires
        are_readable(fields),
    ensures
        answer(example(true, fields)) == Some(Json::Object(values_of(fields))),
{
    let s = example(true, fields);
    let inner = seq!['\n'] + glued(example_lines(true, fields));
    let core = body(fields);
    let values = values_of(fields);
    reveal_strlit("<response>");
    reveal_strlit("</response>");
    example_parts(fields);
    fields_close_nothing(fields);
    assert(s.subrange(0, 10) =~= "<response>"@);
    let to = 10int + inner.len();
    assert(s.subrange(10, to) =~= inner);
    assert(s.subrange(to, to + 11) =~= "</response>"@);
    response_wrapper_is_dropped(s, 0, inner);
    lines_are_body(fields);
    body_ends(fields);
    trim_around(inner, core);
    first_fields_are_read(fields, fields.len() as int);
    assert(fields.take(fields.len() as int) =~= fields);
    nothing_behind(core, (MAX_TAGS - fields.len()) as nat, values);
    values_have_names(fields, fields[0].name);
    assert(values.contains_key(fields[0].name));
    assert(!(values =~= Map::<Seq<char>, Json>::empty()));
    assert(element(inner) == Json::Object(values));
    values_have_names(fields, "response"@);
    assert(!values.contains_key("response"@)) by {
        if values.contains_key("response"@) {
            let i = choose|i: int| 0 <= i < fields.len() && (#[trigger] fields[i]).name == "response"@;
            assert(is_readable(fields[i]));
        }
    }
}

/// An answer gives a text for a name, apart from the whitespace around it.
pub open spec fn gives(fields: Seq<Asked>, name: Seq<char>, text: Seq<char>) -> bool {
    exists|i: int|
        0 <= i < fields.len() && (#[trigger] fields[i]).name == name && trim(fields[i].text) == text
}

proof fn given_is_field(fields: Seq<Asked>, name: Seq<char>, text: Seq<char>)
    requires
        are_readable(fields),
        gives(fields, name, text),
    ensures
        text_field(Json::Object(values_of(fields)), name) == Some(text),
{
    let i = choose|i: int|
        0 <= i < fields.len() && (#[trigger] fields[i]).name == name && trim(fields[i].text) == text;
    value_of_field(fields, i);
}

/// An answer repeats all the codes that it is checked for.
pub open spec fn repeats_codes(
    fields: Seq<Asked>,
    level: u8,
    field_codes: Map<Seq<char>, Seq<char>>,
    codes: Codes,
) -> bool {
    &&& level <= 1 ==> forall|f: Seq<char>| #[trigger]
        field_codes.contains_key(f) ==> gives(fields, start_code_field(f), field_codes[f]) && gives(
            fields,
            end_code_field(f),
            field_codes[f],
        )
    &&& level >= 2 ==> {
        &&& gives(fields, "one_initial_code"@, codes.initial)
        &&& gives(fields, "one_middle_code"@, codes.middle)
        &&& gives(fields, "one_end_code"@, codes.end)
    }
    &&& level >= 3 ==> {
        &&& gives(fields, "two_initial_code"@, codes.initial)
        &&& gives(fields, "two_middle_code"@, codes.middle)
        &&& gives(fields, "two_end_code"@, codes.end)
    }
}

/// An answer gives all the fields that are required.
pub open spec fn gives_required(fields: Seq<Asked>, required: Seq<Seq<char>>) -> bool {
    forall|k: int|
        0 <= k < required.len() ==> exists|i: int|
            0 <= i < fields.len() && (#[trigger] fields[i]).name == #[trigger] required[k] && trim(
                fields[i].text,
            ).len() > 0
}

/// An XML answer that is written as the prompt shows it, repeats the codes and gives
/// the required fields passes.
pub proof fn complete_answer_passes(
    fields: Seq<Asked>,
    level: u8,
    field_codes: Map<Seq<char>, Seq<char>>,
    codes: Codes,
    required: Option<Seq<Seq<char>>>,
)
    requires
        are_readable(fields),
        repeats_codes(fields, level, field_codes, codes),
        required matches Some(r) ==> gives_required(fields, r),
    ensures
        answer(example(true, fields)) matches Some(content) && passes(
            content,
            level,
            field_codes,
            codes,
            required,
        ),
{
    answer_is_read(fields);
    let content = Json::Object(values_of(fields));
    if level <= 1 {
        assert forall|f: Seq<char>| #[trigger] field_codes.contains_key(f) implies text_field(
            content,
            start_code_field(f),
        ) == Some(field_codes[f]) && text_field(content, end_code_field(f)) == Some(field_codes[f]) by {
            given_is_field(fields, start_code_field(f), field_codes[f]);
            given_is_field(fields, end_code_field(f), field_codes[f]);
        }
    }
    if level >= 2 {
        given_is_field(fields, "one_initial_code"@, codes.initial);
        given_is_field(fields, "one_middle_code"@, codes.middle);
        given_is_field(fields, "one_end_code"@, codes.end);
    }
    if level >= 3 {
        given_is_field(fields, "two_initial_code"@, codes.initial);
        given_is_field(fields, "two_middle_code"@, codes.middle);
        given_is_field(fields, "two_end_code"@, codes.end);
    }
    if required is Some {
        let names = required->Some_0;
        assert forall|k: int| 0 <= k < names.len() implies !is_missing(
            field_of(content, #[trigger] names[k]),
        ) by {
            let i = choose|i: int|
                0 <= i < fields.len() && (#[trigger] fields[i]).name == names[k] && trim(
                    fields[i].text,
                ).len() > 0;
            value_of_field(fields, i);
            trim_twice(fields[i].text);
        }
    }
}

/// An XML answer that is written as the prompt shows it, but has something else in
/// the place of a code, does not pass.
pub proof fn wrong_code_fails(
    fields: Seq<Asked>,
    level: u8,
    field_codes: Map<Seq<char>, Seq<char>>,
    codes: Codes,
    required: Option<Seq<Seq<char>>>,
    field: Seq<char>,
    text: Seq<char>,
)
    requires
        are_readable(fields),
        level <= 1,
        field_codes.contains_key(field),
        text != field_codes[field],
        gives(fields, start_code_field(field), text) || gives(fields, end_code_field(field), text),
    ensures
        answer(example(true, fields)) matches Some(content) && !passes(
            content,
            level,
            field_codes,
            codes,
            required,
        ),
{
    answer_is_read(fields);
    if gives(fields, start_code_field(field), text) {
        given_is_field(fields, start_code_field(field), text);
    } else {
        given_is_field(fields, end_code_field(field), text);
    }
}

/// A session for XML answers accepts an answer that is written as the prompt shows
/// it, repeats the codes, gives the required fields and does not think.
pub proof fn session_accepts_complete_answer<B>(session: PromptSession<B>, fields: Seq<Asked>)
    requires
        wants_xml(session.format()),
        are_readable(fields),
        repeats_codes(fields, session.level, code_texts(session.field_codes@), session.codes@),
        required_texts(session.options.required_fields) matches Some(r) ==> gives_required(fields, r),
        !contains_text(example(true, fields), "<think>"@),
    ensures
        session.accepts(
            read_as(wants_xml(session.format()), without_thinking(example(true, fields))),
        ),
{
    plain_answer_is_kept(example(true, fields));
    complete_answer_passes(
        fields,
        session.level,
        code_texts(session.field_codes@),
        session.codes@,
        required_texts(session.options.required_fields),
    );
}

/// Thinking makes no difference to what is read of an answer, wherever it stands in it:
/// the answer is read as if it were not there.
pub proof fn thinking_makes_no_difference(xml: bool, a: Seq<char>, t: Seq<char>, b: Seq<char>)
    requires
        !contains_text(a, "<think>"@),
        !contains_text(t, "</think>"@),
    ensures
        read_as(xml, without_thinking(a + "<think>"@ + t + "</think>"@ + b)) == read_as(
            xml,
            without_thinking(a + b),
        ),
        !contains_text(a + b, "<think>"@) ==> read_as(
            xml,
            without_thinking(a + "<think>"@ + t + "</think>"@ + b),
        ) == read_as(xml, a + b),
{
    only_thinking_is_taken_out(a, t, b);
}

/// A session accepts what could be read and passes with its own level, codes and required
/// fields, and nothing that could not be read. XML is read as XML and anything else as
/// JSON.
pub proof fn session_checks_with_its_own<B>(session: PromptSession<B>, content: Json, text: Seq<char>)
    ensures
        !session.accepts(None),
        session.accepts(Some(content)) <==> passes(
            content,
            session.level,
            code_texts(session.field_codes@),
            session.codes@,
            required_texts(session.options.required_fields),
        ),
        read_as(true, text) == answer(text),
        read_as(false, text) == parsed_json(text),
{
}

/// One element gives a text for a name, apart from the whitespace around it.
pub open spec fn says_once(pieces: Seq<Piece>, name: Seq<char>, text: Seq<char>) -> bool {
    meanings_under(pieces, name) == seq![Json::String(text)]
}

/// Elements repeat all the codes that an answer is checked for.
pub open spec fn say_codes(
    pieces: Seq<Piece>,
    level: u8,
    field_codes: Map<Seq<char>, Seq<char>>,
    codes: Codes,
) -> bool {
    &&& level <= 1 ==> forall|f: Seq<char>| #[trigger]
        field_codes.contains_key(f) ==> says_once(pieces, "code_"@ + f + "_start"@, field_codes[f])
            && says_once(pieces, "code_"@ + f + "_end"@, field_codes[f])
    &&& level >= 2 ==> {
        &&& says_once(pieces, "one_initial_code"@, codes.initial)
        &&& says_once(pieces, "one_middle_code"@, codes.middle)
        &&& says_once(pieces, "one_end_code"@, codes.end)
    }
    &&& level >= 3 ==> {
        &&& says_once(pieces, "two_initial_code"@, codes.initial)
        &&& says_once(pieces, "two_middle_code"@, codes.middle)
        &&& says_once(pieces, "two_end_code"@, codes.end)
    }
}

/// Elements give all the fields that are required: more than one of a name, or one that
/// is not empty.
pub open spec fn say_required(pieces: Seq<Piece>, required: Seq<Seq<char>>) -> bool {
    forall|k: int|
        0 <= k < required.len() ==> {
            let all = meanings_under(pieces, #[trigger] required[k]);
            all.len() > 1 || (all.len() == 1 && !is_missing(Some(all[0])))
        }
}

proof fn said_once_is_field(m: Map<Seq<char>, Json>, pieces: Seq<Piece>, name: Seq<char>, text: Seq<char>)
    requires
        says_all(m, pieces),
        says_once(pieces, name, text),
    ensures
        text_field(Json::Object(m), name) == Some(text),
{
    let all = meanings_under(pieces, name);
    assert(all.len() == 1 && all[0] == Json::String(text));
    assert(m.contains_key(name));
}

/// A session for XML answers accepts an answer that repeats the codes and gives the
/// required fields, however it is laid out, and with whatever thinking in it: `a` and `b`
/// are what stands before and behind the thinking.
pub proof fn session_accepts_however_laid_out<B>(
    session: PromptSession<B>,
    a: Seq<char>,
    t: Seq<char>,
    b: Seq<char>,
    before: Seq<char>,
    pieces: Seq<Piece>,
    tail: Seq<char>,
    behind: Seq<char>,
)
    requires
        a + b == before + "<response>"@ + (document(pieces) + tail) + "</response>"@ + behind,
        !contains_text(a + b, "<think>"@),
        !contains_text(a, "<think>"@),
        !contains_text(t, "</think>"@),
        !contains_text(before, "<response>"@),
        are_written(pieces),
        has_no_tag(tail),
        !contains_text(document(pieces) + tail, "</response>"@),
        forall|i: int| 0 <= i < pieces.len() ==> (#[trigger] pieces[i]).name != "response"@,
        say_codes(pieces, session.level, code_texts(session.field_codes@), session.codes@),
        required_texts(session.options.required_fields) matches Some(r) ==> say_required(pieces, r),
    ensures
        session.accepts(read_as(true, without_thinking(a + "<think>"@ + t + "</think>"@ + b))),
        session.accepts(read_as(true, a + b)),
        answer(a + b) matches Some(Json::Object(m)) && says_all(m, pieces),
{
    only_thinking_is_taken_out(a, t, b);
    laid_out_answer_is_read(before, pieces, tail, behind);
    let m = answer(a + b)->Some_0->Object_0;
    let content = Json::Object(m);
    let level = session.level;
    let field_codes = code_texts(session.field_codes@);
    let codes = session.codes@;
    let required = required_texts(session.options.required_fields);
    what_passes(content, level, field_codes, codes, required);
    if level <= 1 {
        assert forall|f: Seq<char>| #[trigger] field_codes.contains_key(f) implies text_field(
            content,
            "code_"@ + f + "_start"@,
        ) == Some(field_codes[f]) && text_field(content, "code_"@ + f + "_end"@) == Some(
            field_codes[f],
        ) by {
            said_once_is_field(m, pieces, "code_"@ + f + "_start"@, field_codes[f]);
            said_once_is_field(m, pieces, "code_"@ + f + "_end"@, field_codes[f]);
        }
    }
    if level >= 2 {
        said_once_is_field(m, pieces, "one_initial_code"@, codes.initial);
        said_once_is_field(m, pieces, "one_middle_code"@, codes.middle);
        said_once_is_field(m, pieces, "one_end_code"@, codes.end);
    }
    if level >= 3 {
        said_once_is_field(m, pieces, "two_initial_code"@, codes.initial);
        said_once_is_field(m, pieces, "two_middle_code"@, codes.middle);
        said_once_is_field(m, pieces, "two_end_code"@, codes.end);
    }
    if required is Some {
        let names = required->Some_0;
        assert forall|k: int| 0 <= k < names.len() implies !is_missing(
            field_of(content, #[trigger] names[k]),
        ) by {
            let all = meanings_under(pieces, names[k]);
            assert(m.contains_key(names[k]));
        }
    }
}

/// An answer is accepted exactly where it passes. What is then handed on has every field
/// of the answer but the codes, as it was, and the session stays as it is. An answer that
/// is not accepted takes one try, and there is another exactly where one is left.
pub proof fn answers_come_to_a_verdict<B>(
    session: PromptSession<B>,
    after: PromptSession<B>,
    verdict: Verdict,
    content: Option<Json>,
    name: Seq<char>,
)
    requires
        session.comes_to(after, verdict, content),
    ensures
        verdict is Accepted <==> (content matches Some(c) && passes(
            c,
            session.level,
            code_texts(session.field_codes@),
            session.codes@,
            required_texts(session.options.required_fields),
        )),
        verdict matches Verdict::Accepted(v) ==> {
            &&& after == session
            &&& names_a_code(name, session.field_codes@.dom(), session.level) ==> field_of(v@, name) is None
            &&& !names_a_code(name, session.field_codes@.dom(), session.level) ==> field_of(v@, name)
                == field_of(content->Some_0, name)
            &&& !(content->Some_0 is Object) ==> v@ == content->Some_0
        },
        !(verdict is Accepted) ==> after.retry == session.retry + 1 && after.max_retries
            == session.max_retries && after.codes == session.codes && after.field_codes
            == session.field_codes && after.level == session.level && after.template == session.template,
        verdict is Retry <==> !session.accepts(content) && session.retry < session.max_retries,
        verdict is GaveUp <==> !session.accepts(content) && session.retry >= session.max_retries,
        verdict matches Verdict::Retry { pause } ==> pause == (session.options.retry_backoff is Some),
{
    if session.accepts(content) {
        only_codes_are_taken_out(content->Some_0, session.field_codes@.dom(), session.level, name);
    }
}

}
