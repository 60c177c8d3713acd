//! Reading the XML-like answers of a model into JSON values.
use vstd::prelude::*;
use vstd::slice::slice_subrange;
use crate::json::{json_entries, json_items, json_value_view, Json};
use crate::json::JsonValue;
use crate::string_map::StringMap;
use crate::text::{chars_of, find_in, string_of, strip_end_slice, trim_slice};
use crate::text::{trim_start_slice, until_white_slice};
use crate::text::{find_from, find_from_is_first, strip_end, trim, trim_len, trim_start, until_white};

verus! {

broadcast use vstd::seq_lib::group_seq_properties;

/// How many tags are looked at on one level.
pub const MAX_TAGS: usize = 10000;

/// How many tags are looked at in the search for a closing tag.
pub const MAX_NESTING_ITERATIONS: usize = 10000;

// ---------------------------------------------------------------------------
// What a text means
// ---------------------------------------------------------------------------
/// The name in a tag: what stands before the first whitespace, without slashes
/// at the end. Attributes are not looked at.
pub open spec fn tag_name(tag: Seq<char>) -> Seq<char> {
    let word = if trim_start(tag).len() == 0 {
        tag
    } else {
        until_white(trim_start(tag))
    };
    strip_end(word, '/')
}

/// The start of an opening tag.
pub open spec fn opening(name: Seq<char>) -> Seq<char> {
    seq!['<'] + name
}

/// A closing tag.
pub open spec fn closing(name: Seq<char>) -> Seq<char> {
    seq!['<', '/'] + name + seq!['>']
}

/// A tag that opens no element: a closing tag, a comment or a processing
/// instruction.
pub open spec fn is_skipped(tag: Seq<char>) -> bool {
    tag.len() > 0 && (tag[0] == '/' || tag[0] == '!' || tag[0] == '?')
}

/// A tag that starts a comment.
pub open spec fn is_comment(tag: Seq<char>) -> bool {
    tag.len() >= 3 && tag[0] == '!' && tag[1] == '-' && tag[2] == '-'
}

/// Where reading goes on behind what opens no element, which starts at `open` and
/// has its first '>' at `end`: a comment reaches to the next `-->`, a processing
/// instruction to the next `?>`. One that does not end is taken for a tag.
pub open spec fn behind_skipped(s: Seq<char>, open: int, end: int) -> int {
    let tag = s.subrange(open + 1, end);
    if is_comment(tag) {
        match find_from(s, "-->"@, open + 4) {
            Some(i) => i + 3,
            None => end + 1,
        }
    } else if tag[0] == '?' {
        match find_from(s, "?>"@, open + 1) {
            Some(i) => i + 2,
            None => end + 1,
        }
    } else {
        end + 1
    }
}

/// A tag that is an element with nothing in it.
pub open spec fn is_self_closing(tag: Seq<char>) -> bool {
    tag.len() > 0 && tag.last() == '/'
}

/// The start of an opening tag at `at` goes on as one: the name ends there.
pub open spec fn name_ends(s: Seq<char>, at: int) -> bool {
    0 <= at < s.len() && (s[at] == '>' || s[at] == ' ' || s[at] == '/')
}

/// Where the tag stands that closes the element `name`, when `depth` elements of
/// that name are open at `pos` and `tries` tags may still be looked at.
pub open spec fn close_of(s: Seq<char>, name: Seq<char>, pos: int, depth: nat, tries: nat) -> Option<int>
    decreases tries,
{
    if tries == 0 {
        None
    } else {
        match (find_from(s, opening(name), pos), find_from(s, closing(name), pos)) {
            (_, None) => None,
            (Some(o), Some(c)) if o < c => {
                let deeper = if name_ends(s, o + opening(name).len()) {
                    depth + 1
                } else {
                    depth
                };
                close_of(s, name, o + 1, deeper, (tries - 1) as nat)
            },
            (_, Some(c)) => if depth <= 1 {
                Some(c)
            } else {
                close_of(s, name, c + 1, (depth - 1) as nat, (tries - 1) as nat)
            },
        }
    }
}

/// A child is added to an element: the first of its name stands by itself, and
/// further ones of the same name make an array.
pub open spec fn with_child(m: Map<Seq<char>, Json>, name: Seq<char>, child: Json) -> Map<Seq<char>, Json> {
    if m.contains_key(name) {
        match m[name] {
            Json::Array(a) => m.insert(name, Json::Array(a.push(child))),
            old => m.insert(name, Json::Array(seq![old, child])),
        }
    } else {
        m.insert(name, child)
    }
}

/// What the inside of an element means: its children, or the text where there
/// are none.
pub open spec fn element(content: Seq<char>) -> Json
    decreases content.len(), 1int, 0nat,
{
    let s = trim(content);
    proof {
        trim_len(content);
    }
    let m = children(s, 0, MAX_TAGS as nat, Map::empty());
    if m =~= Map::<Seq<char>, Json>::empty() {
        Json::String(s)
    } else {
        Json::Object(m)
    }
}

/// The children from `pos` on, added to those found before, when `tags` tags may
/// still be looked at.
pub open spec fn children(s: Seq<char>, pos: int, tags: nat, found: Map<Seq<char>, Json>) -> Map<
    Seq<char>,
    Json,
>
    decreases s.len(), 0int, tags,
{
    match find_from(s, seq!['<'], pos) {
        Some(open) if tags > 0 && 0 <= open => match find_from(s, seq!['>'], open + 1) {
            Some(end) if open < end < s.len() => {
                let tag = s.subrange(open + 1, end);
                let name = tag_name(tag);
                let rest = (tags - 1) as nat;
                if is_skipped(tag) {
                    children(s, behind_skipped(s, open, end), rest, found)
                } else if is_self_closing(tag) {
                    children(s, end + 1, rest, with_child(found, name, Json::String(Seq::empty())))
                } else {
                    match close_of(s, name, end + 1, 1, MAX_NESTING_ITERATIONS as nat) {
                        Some(close) if end < close <= s.len() => {
                            let child = element(s.subrange(end + 1, close));
                            children(s, close + closing(name).len(), rest, with_child(found, name, child))
                        },
                        _ => children(s, end + 1, rest, found),
                    }
                }
            },
            _ => found,
        },
        _ => found,
    }
}

/// The part of an answer that is read: what stands between the first
/// `<response>` and the next `</response>`, or else the whole.
pub open spec fn response_part(s: Seq<char>) -> Seq<char> {
    match find_from(s, "<response>"@, 0) {
        Some(start) => match find_from(s, "</response>"@, start + 10) {
            Some(end) => s.subrange(start + 10, end),
            None => s,
        },
        None => s,
    }
}

/// What an answer means. An object whose one field is the object `response` is
/// taken for that object.
pub open spec fn answer(s: Seq<char>) -> Option<Json> {
    match element(response_part(s)) {
        Json::Object(m) => {
            if m =~= Map::<Seq<char>, Json>::empty() {
                None
            } else if m.dom().len() == 1 && m.contains_key("response"@) && m["response"@] is Object {
                Some(m["response"@])
            } else {
                Some(Json::Object(m))
            }
        },
        other => Some(other),
    }
}

// ---------------------------------------------------------------------------
// Reading
// ---------------------------------------------------------------------------
/// The name in a tag.
fn read_tag_name(tag: &[char]) -> (r: &[char])
    ensures
        r@ == tag_name(tag@),
{
    let start = trim_start_slice(tag);
    if start.len() == 0 {
        strip_end_slice(tag, '/')
    } else {
        strip_end_slice(until_white_slice(start), '/')
    }
}

/// A closing tag.
fn closing_tag(name: &[char]) -> (r: Vec<char>)
    ensures
        r@ == closing(name@),
{
    let mut r: Vec<char> = Vec::new();
    r.push('<');
    r.push('/');
    r.extend_from_slice(name);
    r.push('>');
    assert(r@ =~= closing(name@));
    r
}

/// The start of an opening tag.
fn opening_tag(name: &[char]) -> (r: Vec<char>)
    ensures
        r@ == opening(name@),
{
    let mut r: Vec<char> = Vec::new();
    r.push('<');
    r.extend_from_slice(name);
    assert(r@ =~= opening(name@));
    r
}

/// Where the tag stands that closes the element `name` opened before `from`.
fn find_close(s: &[char], name: &[char], from: usize) -> (r: Option<usize>)
    requires
        from <= s@.len(),
    ensures
        match r {
            Some(c) => close_of(s@, name@, from as int, 1, MAX_NESTING_ITERATIONS as nat) == Some(c as int)
                && from <= c && c + closing(name@).len() <= s@.len(),
            None => close_of(s@, name@, from as int, 1, MAX_NESTING_ITERATIONS as nat) is None,
        },
{
    let close_tag = closing_tag(name);
    let open_tag = opening_tag(name);
    let total: usize = s.len();
    let mut depth: usize = 1;
    let mut pos: usize = from;
    let mut tries: usize = MAX_NESTING_ITERATIONS;
    while tries > 0
        invariant
            total == s@.len(),
            close_tag@ == closing(name@),
            open_tag@ == opening(name@),
            from <= pos <= total,
            1 <= depth,
            tries <= MAX_NESTING_ITERATIONS,
            depth + tries <= MAX_NESTING_ITERATIONS + 1,
            close_of(s@, name@, from as int, 1, MAX_NESTING_ITERATIONS as nat) == close_of(
                s@,
                name@,
                pos as int,
                depth as nat,
                tries as nat,
            ),
        decreases tries,
    {
        proof {
            find_from_is_first(s@, open_tag@, pos as int);
            find_from_is_first(s@, close_tag@, pos as int);
        }
        let next_open = find_in(s, open_tag.as_slice(), pos);
        let next_close = find_in(s, close_tag.as_slice(), pos);
        match (next_open, next_close) {
            (_, None) => {
                return None;
            },
            (Some(o), Some(c)) => {
                if o < c {
                    let at: usize = o + open_tag.len();
                    if at < total && (s[at] == '>' || s[at] == ' ' || s[at] == '/') {
                        depth += 1;
                    }
                    pos = o + 1;
                } else if depth == 1 {
                    return Some(c);
                } else {
                    depth -= 1;
                    pos = c + 1;
                }
            },
            (None, Some(c)) => {
                if depth == 1 {
                    return Some(c);
                } else {
                    depth -= 1;
                    pos = c + 1;
                }
            },
        }
        tries -= 1;
    }
    None
}

/// Where reading goes on behind `tag`, which opens no element and stands from `open`
/// to `end`.
fn find_behind(s: &[char], tag: &[char], open: usize, end: usize) -> (r: usize)
    requires
        open < end < s@.len(),
        tag@ == s@.subrange(open + 1, end as int),
        tag@.len() > 0,
    ensures
        r == behind_skipped(s@, open as int, end as int),
        r <= s@.len(),
{
    let total: usize = s.len();
    assert(total == s@.len());
    if tag.len() >= 3 && tag[0] == '!' && tag[1] == '-' && tag[2] == '-' {
        let mark = chars_of("-->");
        proof {
            reveal_strlit("-->");
            find_from_is_first(s@, mark@, open + 4);
        }
        match find_in(s, mark.as_slice(), open + 4) {
            Some(i) => i + 3,
            None => end + 1,
        }
    } else if tag[0] == '?' {
        let mark = chars_of("?>");
        proof {
            reveal_strlit("?>");
            find_from_is_first(s@, mark@, open + 1);
        }
        match find_in(s, mark.as_slice(), open + 1) {
            Some(i) => i + 2,
            None => end + 1,
        }
    } else {
        end + 1
    }
}

/// Adds a child to the children of an element.
fn add_child(found: &mut StringMap<JsonValue>, name: String, child: JsonValue)
    ensures
        json_entries(final(found)@) == with_child(json_entries(old(found)@), name@, child@),
{
    broadcast use json_value_view;

    let ghost before = found@;
    let ghost kept = name@;
    match found.remove(name.as_str()) {
        Some(JsonValue::Array(items)) => {
            let mut items = items;
            let ghost old_items = items@;
            items.push(child);
            assert(json_items(items@) =~= json_items(old_items).push(child@));
            found.insert(name, JsonValue::Array(items));
        },
        Some(old) => {
            let mut items: Vec<JsonValue> = Vec::new();
            items.push(old);
            items.push(child);
            assert(json_items(items@) =~= seq![old@, child@]);
            found.insert(name, JsonValue::Array(items));
        },
        None => {
            found.insert(name, child);
        },
    }
    assert(json_entries(found@) =~= with_child(json_entries(before), kept, child@));
}

/// Reads the inside of an element.
pub fn parse_element(content: &[char]) -> (r: JsonValue)
    ensures
        r@ == element(content@),
    decreases content@.len(),
{
    broadcast use json_value_view;

    proof {
        trim_len(content@);
    }
    let s = trim_slice(content);
    let lt: Vec<char> = vec!['<'];
    let gt: Vec<char> = vec!['>'];
    assert(lt@ =~= seq!['<']);
    assert(gt@ =~= seq!['>']);
    let total: usize = s.len();
    let mut result: StringMap<JsonValue> = StringMap::new();
    let mut pos: usize = 0;
    let mut tags: usize = MAX_TAGS;
    let ghost all = children(s@, 0, MAX_TAGS as nat, Map::empty());
    assert(json_entries(result@) =~= Map::<Seq<char>, Json>::empty());
    loop
        invariant
            total == s@.len(),
            s@ == trim(content@),
            s@.len() <= content@.len(),
            lt@ == seq!['<'],
            gt@ == seq!['>'],
            pos <= total,
            all == children(s@, pos as int, tags as nat, json_entries(result@)),
        ensures
            all == json_entries(result@),
        decreases tags,
    {
        proof {
            find_from_is_first(s@, lt@, pos as int);
        }
        let open: usize = match find_in(s, lt.as_slice(), pos) {
            Some(i) => i,
            None => {
                break;
            },
        };
        if tags == 0 {
            break;
        }
        proof {
            find_from_is_first(s@, gt@, open + 1);
        }
        let end: usize = match find_in(s, gt.as_slice(), open + 1) {
            Some(i) => i,
            None => {
                break;
            },
        };
        let tag = slice_subrange(s, open + 1, end);
        let name = read_tag_name(tag);
        tags -= 1;
        if tag.len() > 0 && (tag[0] == '/' || tag[0] == '!' || tag[0] == '?') {
            pos = find_behind(s, tag, open, end);
        } else if tag.len() > 0 && tag[tag.len() - 1] == '/' {
            let empty = String::new();
            let nothing = JsonValue::String(empty);
            proof {
                json_value_view(nothing);
            }
            assert(nothing@ == Json::String(Seq::empty()));
            add_child(&mut result, string_of(name), nothing);
            pos = end + 1;
        } else {
            match find_close(s, name, end + 1) {
                Some(close) => {
                    let inner = slice_subrange(s, end + 1, close);
                    let child = parse_element(inner);
                    add_child(&mut result, string_of(name), child);
                    pos = close + name.len() + 3;
                },
                None => {
                    pos = end + 1;
                },
            }
        }
    }
    assert(json_entries(result@) =~= Map::<Seq<char>, Json>::empty() <==> result@ =~= Map::<
        Seq<char>,
        JsonValue,
    >::empty()) by {
        assert(json_entries(result@).dom() =~= result@.dom());
    }
    if result.is_empty() {
        JsonValue::String(string_of(s))
    } else {
        JsonValue::Object(result)
    }
}

/// Reads an XML-like answer:
///
/// - `<tag>content</tag>` is an object with the field `tag`,
/// - elements inside an element are fields of an object inside the object,
/// - elements of the same name become an array,
/// - attributes are not looked at,
/// - comments and processing instructions are skipped.
pub fn parse_xml_to_json(xml: &str) -> (r: Option<JsonValue>)
    ensures
        match r {
            Some(v) => answer(xml@) == Some(v@),
            None => answer(xml@) is None,
        },
{
    broadcast use json_value_view;

    let s = chars_of(xml);
    let total: usize = s.len();
    let start_tag = chars_of("<response>");
    let end_tag = chars_of("</response>");
    proof {
        reveal_strlit("<response>");
        find_from_is_first(s@, start_tag@, 0);
    }
    let content = match find_in(s.as_slice(), start_tag.as_slice(), 0) {
        Some(start) => {
            let from: usize = start + 10;
            proof {
                find_from_is_first(s@, end_tag@, from as int);
            }
            match find_in(s.as_slice(), end_tag.as_slice(), from) {
                Some(end) => slice_subrange(s.as_slice(), from, end),
                None => s.as_slice(),
            }
        },
        None => s.as_slice(),
    };
    assert(content@ == response_part(xml@));
    match parse_element(content) {
        JsonValue::Object(map) => {
            let mut map = map;
            assert(json_entries(map@).dom() =~= map@.dom());
            assert(json_entries(map@) =~= Map::<Seq<char>, Json>::empty() <==> map@ =~= Map::<
                Seq<char>,
                JsonValue,
            >::empty());
            if map.is_empty() {
                return None;
            }
            if map.len() == 1 {
                let wrapped = match map.get("response") {
                    Some(JsonValue::Object(_)) => true,
                    _ => false,
                };
                if wrapped {
                    return map.remove("response");
                }
            }
            Some(JsonValue::Object(map))
        },
        other => Some(other),
    }
}

}
