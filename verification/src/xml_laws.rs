//! Laws of reading XML-like answers.
use vstd::prelude::*;
use crate::json::Json;
use crate::text::{find_from, find_from_at, find_from_is_first, find_from_none, is_white, occurs_at};
use crate::text::{strip_end, trim, trim_keeps, trim_start, trim_within, until_white, word_ends_at_white};
use crate::xml::{children, close_of, closing, element, is_comment, is_self_closing, is_skipped, name_ends};
use crate::xml::{opening, response_part, tag_name, with_child, MAX_NESTING_ITERATIONS, MAX_TAGS};

verus! {

broadcast use vstd::seq_lib::group_seq_properties;

// ---------------------------------------------------------------------------
// The parts of an element
// ---------------------------------------------------------------------------
/// A tag name: not empty, without whitespace and angle brackets, without a slash at
/// its ends, and no start of a comment or a processing instruction.
pub open spec fn is_name(name: Seq<char>) -> bool {
    &&& name.len() > 0
    &&& name[0] != '!' && name[0] != '?' && name[0] != '/' && name.last() != '/'
    &&& forall|i: int|
        0 <= i < name.len() ==> !is_white(#[trigger] name[i]) && name[i] != '<' && name[i] != '>'
}

/// What may follow the name in an opening tag: nothing, or whitespace and then
/// anything that does not close the tag.
pub open spec fn is_attributes(attrs: Seq<char>) -> bool {
    &&& attrs.len() > 0 ==> is_white(attrs[0]) && attrs.last() != '/'
    &&& forall|i: int| 0 <= i < attrs.len() ==> #[trigger] attrs[i] != '>'
}

/// How many elements `name` are open at the end of `inner`, and how many tags may
/// then still be looked at, when `depth` are open at `pos` and `tries` tags may be
/// looked at; none where the first is closed before the end.
pub open spec fn open_behind(inner: Seq<char>, name: Seq<char>, pos: int, depth: nat, tries: nat) -> Option<(nat, nat)>
    decreases tries,
{
    if tries == 0 {
        None
    } else {
        match (find_from(inner, opening(name), pos), find_from(inner, closing(name), pos)) {
            (None, None) => Some((depth, tries)),
            (Some(o), None) => open_behind(
                inner,
                name,
                o + 1,
                if name_ends(inner, o + opening(name).len()) {
                    depth + 1
                } else {
                    depth
                },
                (tries - 1) as nat,
            ),
            (Some(o), Some(c)) if o < c => open_behind(
                inner,
                name,
                o + 1,
                if name_ends(inner, o + opening(name).len()) {
                    depth + 1
                } else {
                    depth
                },
                (tries - 1) as nat,
            ),
            (_, Some(c)) => if depth <= 1 {
                None
            } else {
                open_behind(inner, name, c + 1, (depth - 1) as nat, (tries - 1) as nat)
            },
        }
    }
}

/// Inside an element, every other element of its name that is opened is closed
/// again, and their tags are not too many to look at.
pub open spec fn is_inside(inner: Seq<char>, name: Seq<char>) -> bool {
    open_behind(inner, name, 0, 1, MAX_NESTING_ITERATIONS as nat) matches Some((depth, _)) && depth == 1
}

/// A text without tags of a name is inside an element of that name.
pub proof fn inside_without_tags(inner: Seq<char>, name: Seq<char>)
    requires
        forall|i: int|
            #![auto]
            !occurs_at(inner, opening(name), i) && !occurs_at(inner, closing(name), i),
    ensures
        is_inside(inner, name),
{
    find_from_none(inner, opening(name), 0);
    find_from_none(inner, closing(name), 0);
}

/// An opening tag.
pub open spec fn open_tag(name: Seq<char>, attrs: Seq<char>) -> Seq<char> {
    seq!['<'] + (name + attrs) + seq!['>']
}

/// An element.
pub open spec fn written(name: Seq<char>, attrs: Seq<char>, inner: Seq<char>) -> Seq<char> {
    open_tag(name, attrs) + inner + closing(name)
}

pub(crate) proof fn one_char(s: Seq<char>, c: char, i: int)
    ensures
        occurs_at(s, seq![c], i) <==> 0 <= i < s.len() && s[i] == c,
{
    if 0 <= i < s.len() {
        assert(s.subrange(i, i + 1) =~= seq![s[i]]);
        assert(seq![s[i]][0] == s[i] && seq![c][0] == c);
    }
}

pub(crate) proof fn find_char(s: Seq<char>, c: char, from: int, at: int)
    requires
        0 <= from <= at < s.len(),
        s[at] == c,
        forall|i: int| from <= i < at ==> s[i] != c,
    ensures
        find_from(s, seq![c], from) == Some(at),
{
    one_char(s, c, at);
    assert forall|i: int| from <= i < at implies !occurs_at(s, seq![c], i) by {
        one_char(s, c, i);
    }
    find_from_at(s, seq![c], from, at);
}

/// A part of a text, character by character.
pub(crate) proof fn part_chars(s: Seq<char>, part: Seq<char>, pos: int)
    requires
        occurs_at(s, part, pos),
    ensures
        0 <= pos,
        pos + part.len() <= s.len(),
        forall|i: int| 0 <= i < part.len() ==> s[pos + i] == #[trigger] part[i],
{
    assert forall|i: int| 0 <= i < part.len() implies s[pos + i] == #[trigger] part[i] by {
        assert(s.subrange(pos, pos + part.len())[i] == s[pos + i]);
    }
}

proof fn until_white_of(name: Seq<char>, attrs: Seq<char>)
    requires
        forall|i: int| 0 <= i < name.len() ==> !is_white(#[trigger] name[i]),
        attrs.len() > 0 ==> is_white(attrs[0]),
    ensures
        until_white(name + attrs) == name,
{
    word_ends_at_white(name, attrs);
}

proof fn name_of_tag(name: Seq<char>, attrs: Seq<char>)
    requires
        is_name(name),
        is_attributes(attrs),
    ensures
        tag_name(name + attrs) == name,
        !is_skipped(name + attrs),
        !is_self_closing(name + attrs),
{
    let tag = name + attrs;
    assert(tag[0] == name[0]);
    assert(trim_start(tag) == tag);
    until_white_of(name, attrs);
    assert(name.last() != '/');
    assert(strip_end(name, '/') == name);
    if attrs.len() > 0 {
        assert(tag.last() == attrs.last());
    } else {
        assert(tag.last() == name.last());
    }
}

/// What stands inside an element, and the tag that closes it.
proof fn inside_and_close(s: Seq<char>, name: Seq<char>, inner: Seq<char>, from: int)
    requires
        is_name(name),
        occurs_at(s, inner + closing(name), from),
    ensures
        0 <= from,
        from + inner.len() + closing(name).len() <= s.len(),
        s.subrange(from, from + inner.len()) == inner,
        occurs_at(s, closing(name), from + inner.len()),
        s[from + inner.len()] == '<',
        !occurs_at(s, opening(name), from + inner.len()),
        forall|i: int| 0 < i < closing(name).len() ==> closing(name)[i] != '<',
        forall|i: int| 0 < i < opening(name).len() ==> opening(name)[i] != '<',
{
    let close = closing(name);
    let open = opening(name);
    let both = inner + close;
    let at = from + inner.len();
    part_chars(s, both, from);
    assert(s.subrange(at, at + close.len()) =~= close) by {
        assert forall|i: int| 0 <= i < close.len() implies s.subrange(at, at + close.len())[i]
            == close[i] by {
            assert(both[inner.len() + i] == close[i]);
        }
    }
    assert(s.subrange(from, at) =~= inner) by {
        assert forall|i: int| 0 <= i < inner.len() implies s.subrange(from, at)[i] == inner[i] by {
            assert(both[i] == inner[i]);
        }
    }
    assert(both[inner.len() as int] == close[0] && both[inner.len() + 1int] == close[1]);
    assert(s[from + inner.len()] == close[0] && s[from + (inner.len() + 1int)] == close[1]);
    assert(close[0] == '<' && close[1] == '/' && open[0] == '<' && open[1] == name[0]);
    if occurs_at(s, open, at) {
        part_chars(s, open, at);
        assert(s[at + 1] == open[1]);
    }
    assert forall|i: int| 0 < i < close.len() implies close[i] != '<' by {
        if 2 <= i < 2 + name.len() {
            assert(close[i] == name[i - 2]);
        }
    }
    assert forall|i: int| 0 < i < open.len() implies open[i] != '<' by {
        assert(open[i] == name[i - 1]);
    }
}

/// Where a tag stands inside an element, it stands in the whole.
proof fn found_inside(s: Seq<char>, inner: Seq<char>, pat: Seq<char>, from: int, pos: int)
    requires
        0 <= from,
        0 <= pos <= inner.len(),
        from + inner.len() < s.len(),
        s.subrange(from, from + inner.len()) == inner,
        s[from + inner.len()] == '<',
        pat.len() > 0,
        forall|i: int| 0 < i < pat.len() ==> pat[i] != '<',
    ensures
        match find_from(inner, pat, pos) {
            Some(i) => pos <= i < inner.len() && find_from(s, pat, from + pos) == Some(from + i),
            None => forall|j: int| from + pos <= j < from + inner.len() ==> !occurs_at(s, pat, j),
        },
{
    let at = from + inner.len();
    find_from_is_first(inner, pat, pos);
    assert forall|j: int| from + pos <= j < at && occurs_at(s, pat, j) implies occurs_at(
        inner,
        pat,
        j - from,
    ) by {
        inside_or_across(s, inner, pat, from, j);
    }
    match find_from(inner, pat, pos) {
        Some(i) => {
            assert(s.subrange(from + i, from + i + pat.len()) =~= inner.subrange(i, i + pat.len()));
            assert(occurs_at(s, pat, from + i));
            assert forall|j: int| from + pos <= j < from + i implies !occurs_at(s, pat, j) by {
                if occurs_at(s, pat, j) {
                    assert(occurs_at(inner, pat, j - from));
                }
            }
            find_from_at(s, pat, from + pos, from + i);
        },
        None => {
            assert forall|j: int| from + pos <= j < at implies !occurs_at(s, pat, j) by {
                if occurs_at(s, pat, j) {
                    assert(occurs_at(inner, pat, j - from));
                }
            }
        },
    }
}

/// Whatever is open inside an element, the search for its closing tag goes on behind
/// it with that.
proof fn close_behind(s: Seq<char>, name: Seq<char>, inner: Seq<char>, from: int, pos: int, depth: nat, tries: nat)
    requires
        is_name(name),
        occurs_at(s, inner + closing(name), from),
        0 <= pos <= inner.len(),
        depth >= 1,
        open_behind(inner, name, pos, depth, tries) is Some,
    ensures
        open_behind(inner, name, pos, depth, tries)->Some_0.0 == 1 ==> close_of(
            s,
            name,
            from + pos,
            depth,
            tries,
        ) == Some(from + inner.len()),
    decreases tries,
{
    let open = opening(name);
    let close = closing(name);
    let at = from + inner.len();
    inside_and_close(s, name, inner, from);
    found_inside(s, inner, open, from, pos);
    found_inside(s, inner, close, from, pos);
    let o = find_from(inner, open, pos);
    let c = find_from(inner, close, pos);
    if c is None {
        find_from_at(s, close, from + pos, at);
    }
    find_from_is_first(s, open, from + pos);
    if o is Some && (c is None || o->Some_0 < c->Some_0) {
        let i = o->Some_0;
        find_from_is_first(inner, open, pos);
        let end = i + open.len();
        assert(name_ends(inner, end) == name_ends(s, from + end)) by {
            if end < inner.len() {
                assert(s.subrange(from, at)[end] == s[from + end]);
            }
        }
        let deeper = if name_ends(inner, end) {
            depth + 1
        } else {
            depth
        };
        close_behind(s, name, inner, from, i + 1, deeper, (tries - 1) as nat);
    } else if c is Some {
        let i = c->Some_0;
        close_behind(s, name, inner, from, i + 1, (depth - 1) as nat, (tries - 1) as nat);
    }
}

/// Behind an opening tag, the tag that closes the element is found.
proof fn close_is_found(s: Seq<char>, name: Seq<char>, inner: Seq<char>, from: int)
    requires
        is_name(name),
        is_inside(inner, name),
        occurs_at(s, inner + closing(name), from),
    ensures
        close_of(s, name, from, 1, MAX_NESTING_ITERATIONS as nat) == Some(from + inner.len()),
{
    close_behind(s, name, inner, from, 0, 1, MAX_NESTING_ITERATIONS as nat);
}

/// A pattern with no '<' but at its start, found before a closing tag, lies
/// inside what stands before the tag.
proof fn inside_or_across(s: Seq<char>, inner: Seq<char>, pat: Seq<char>, from: int, j: int)
    requires
        0 <= from <= j < from + inner.len(),
        from + inner.len() < s.len(),
        s.subrange(from, from + inner.len()) == inner,
        s[from + inner.len()] == '<',
        occurs_at(s, pat, j),
        forall|i: int| 0 < i < pat.len() ==> pat[i] != '<',
    ensures
        occurs_at(inner, pat, j - from),
{
    part_chars(s, pat, j);
    let at = from + inner.len();
    if j + pat.len() > at {
        assert(s[j + (at - j)] == pat[at - j]);
    }
    assert forall|i: int| 0 <= i < inner.len() implies s[from + i] == inner[i] by {
        assert(s.subrange(from, at)[i] == s[from + i]);
    }
    assert(inner.subrange(j - from, j - from + pat.len()) =~= pat) by {
        assert forall|i: int| 0 <= i < pat.len() implies inner.subrange(
            j - from,
            j - from + pat.len(),
        )[i] == pat[i] by {
            assert(s[from + (j - from + i)] == inner[j - from + i]);
            assert(s[j + i] == pat[i]);
        }
    }
}

// ---------------------------------------------------------------------------
// Laws
// ---------------------------------------------------------------------------
/// A text without tags means itself, without the whitespace around it.
pub proof fn text_means_itself(content: Seq<char>)
    requires
        forall|i: int| 0 <= i < content.len() ==> #[trigger] content[i] != '<',
    ensures
        element(content) == Json::String(trim(content)),
{
    let s = trim(content);
    trim_within(content);
    let (a, b) = choose|a: int, b: int|
        0 <= a <= b <= content.len() && trim(content) == #[trigger] content.subrange(a, b);
    assert forall|i: int| 0 <= i implies !occurs_at(s, seq!['<'], i) by {
        one_char(s, '<', i);
        if i < s.len() {
            assert(s[i] == content[a + i]);
        }
    }
    find_from_none(s, seq!['<'], 0);
    assert(children(s, 0, MAX_TAGS as nat, Map::empty()) == Map::<Seq<char>, Json>::empty());
}

/// An element adds its content, under its name, to the children of the element
/// around it. Its attributes make no difference.
pub proof fn element_becomes_child(
    s: Seq<char>,
    pos: int,
    tags: nat,
    found: Map<Seq<char>, Json>,
    name: Seq<char>,
    attrs: Seq<char>,
    inner: Seq<char>,
)
    requires
        tags > 0,
        is_name(name),
        is_attributes(attrs),
        is_inside(inner, name),
        occurs_at(s, written(name, attrs, inner), pos),
    ensures
        children(s, pos, tags, found) == children(
            s,
            pos + written(name, attrs, inner).len(),
            (tags - 1) as nat,
            with_child(found, name, element(inner)),
        ),
{
    let whole = written(name, attrs, inner);
    let tag = name + attrs;
    let end = pos + 1 + tag.len();
    part_chars(s, whole, pos);
    assert(whole[0] == '<');
    find_char(s, '<', pos, pos);
    assert(whole[1 + tag.len() as int] == '>');
    assert forall|i: int| pos + 1 <= i < end implies s[i] != '>' by {
        assert(s[pos + (i - pos)] == whole[i - pos]);
        assert(whole[i - pos] == tag[i - pos - 1]);
        if i - pos - 1 < name.len() {
            assert(tag[i - pos - 1] == name[i - pos - 1]);
        } else {
            assert(tag[i - pos - 1] == attrs[i - pos - 1 - name.len()]);
        }
    }
    assert(s[end] == '>') by {
        assert(s[pos + (1 + tag.len())] == whole[1 + tag.len() as int]);
    }
    find_char(s, '>', pos + 1, end);
    assert(s.subrange(pos + 1, end) =~= tag) by {
        assert forall|i: int| 0 <= i < tag.len() implies s.subrange(pos + 1, end)[i] == tag[i] by {
            assert(s[pos + (1 + i)] == whole[1 + i]);
            assert(whole[1 + i] == tag[i]);
        }
    }
    name_of_tag(name, attrs);
    let rest = inner + closing(name);
    assert(occurs_at(s, rest, end + 1)) by {
        assert(s.subrange(end + 1, end + 1 + rest.len()) =~= rest) by {
            assert forall|i: int| 0 <= i < rest.len() implies s.subrange(
                end + 1,
                end + 1 + rest.len(),
            )[i] == rest[i] by {
                assert(s[pos + (2 + tag.len() + i)] == whole[2 + tag.len() + i]);
                assert(whole[2 + tag.len() + i] == rest[i]);
            }
        }
    }
    close_is_found(s, name, inner, end + 1);
    let close = end + 1 + inner.len();
    assert(s.subrange(end + 1, close) =~= inner) by {
        part_chars(s, rest, end + 1);
        assert forall|i: int| 0 <= i < inner.len() implies s.subrange(end + 1, close)[i] == inner[i] by {
            assert(s[end + 1 + i] == rest[i]);
        }
    }
    assert(close + closing(name).len() == pos + whole.len());
}

/// An element whose tag has a name adds its content under that name.
pub(crate) proof fn tag_becomes_child(
    s: Seq<char>,
    pos: int,
    tags: nat,
    found: Map<Seq<char>, Json>,
    tag: Seq<char>,
    name: Seq<char>,
    inner: Seq<char>,
)
    requires
        tags > 0,
        is_name(name),
        forall|i: int| 0 <= i < tag.len() ==> #[trigger] tag[i] != '>',
        tag_name(tag) == name,
        !is_skipped(tag),
        !is_self_closing(tag),
        is_inside(inner, name),
        occurs_at(s, (seq!['<'] + tag + seq!['>']) + (inner + closing(name)), pos),
    ensures
        children(s, pos, tags, found) == children(
            s,
            pos + 2 + tag.len() + inner.len() + closing(name).len(),
            (tags - 1) as nat,
            with_child(found, name, element(inner)),
        ),
{
    let open = seq!['<'] + tag + seq!['>'];
    second_part(s, open, inner + closing(name), pos);
    tag_is_read(s, pos, tag);
    let end = pos + 1 + tag.len();
    inside_and_close(s, name, inner, end + 1);
    close_is_found(s, name, inner, end + 1);
}

/// A lone closing tag or a declaration adds nothing.
pub proof fn other_tags_are_skipped(s: Seq<char>, pos: int, tags: nat, found: Map<Seq<char>, Json>, tag: Seq<char>)
    requires
        tags > 0,
        tag.len() > 0,
        tag[0] == '/' || tag[0] == '!' && !(tag.len() >= 3 && tag[1] == '-' && tag[2] == '-'),
        forall|i: int| 0 <= i < tag.len() ==> #[trigger] tag[i] != '>',
        occurs_at(s, seq!['<'] + tag + seq!['>'], pos),
    ensures
        children(s, pos, tags, found) == children(s, pos + tag.len() + 2, (tags - 1) as nat, found),
{
    tag_is_read(s, pos, tag);
}

/// A comment or a processing instruction that does not end is taken for a tag, which
/// adds nothing: reading goes on behind its first '>'.
pub proof fn unended_is_a_tag(s: Seq<char>, pos: int, tags: nat, found: Map<Seq<char>, Json>, tag: Seq<char>)
    requires
        tags > 0,
        tag.len() >= 3 && tag[0] == '!' && tag[1] == '-' && tag[2] == '-' && (forall|j: int|
            pos + 4 <= j ==> !occurs_at(s, "-->"@, j)) || tag.len() > 0 && tag[0] == '?' && (forall|
            j: int,
        |
            pos + 1 <= j ==> !occurs_at(s, "?>"@, j)),
        forall|i: int| 0 <= i < tag.len() ==> #[trigger] tag[i] != '>',
        occurs_at(s, seq!['<'] + tag + seq!['>'], pos),
    ensures
        children(s, pos, tags, found) == children(s, pos + tag.len() + 2, (tags - 1) as nat, found),
{
    tag_is_read(s, pos, tag);
    if tag[0] == '!' {
        find_from_none(s, "-->"@, pos + 4);
    } else {
        find_from_none(s, "?>"@, pos + 1);
    }
}

/// A tag that starts with `start` is read up to the first '>'.
proof fn tag_starts(s: Seq<char>, pos: int, start: Seq<char>, close: int)
    requires
        start.len() > 1,
        start[0] == '<',
        forall|i: int| 0 <= i < start.len() ==> #[trigger] start[i] != '>',
        occurs_at(s, start, pos),
        pos < close < s.len(),
        s[close] == '>',
    ensures
        find_from(s, seq!['<'], pos) == Some(pos),
        find_from(s, seq!['>'], pos + 1) matches Some(end) && pos + start.len() <= end < s.len()
            && forall|i: int|
            0 <= i < start.len() - 1 ==> #[trigger] s.subrange(pos + 1, end)[i] == start[i + 1],
{
    part_chars(s, start, pos);
    assert(s[pos + 0] == start[0]);
    find_char(s, '<', pos, pos);
    one_char(s, '>', close);
    find_from_is_first(s, seq!['>'], pos + 1);
    let end = find_from(s, seq!['>'], pos + 1)->Some_0;
    one_char(s, '>', end);
    if end < pos + start.len() {
        assert(s[pos + (end - pos)] == start[end - pos]);
    }
    assert forall|i: int| 0 <= i < start.len() - 1 implies #[trigger] s.subrange(pos + 1, end)[i]
        == start[i + 1] by {
        assert(s[pos + (i + 1)] == start[i + 1]);
    }
}

/// The first `mark` behind `from` is the one that stands behind `text`.
proof fn mark_is_first(s: Seq<char>, text: Seq<char>, mark: Seq<char>, from: int)
    requires
        0 <= from,
        occurs_at(s, text + mark, from),
        forall|i: int| 0 <= i < text.len() ==> !occurs_at(text + mark, mark, i),
    ensures
        find_from(s, mark, from) == Some(from + text.len()),
{
    let both = text + mark;
    let at = from + text.len();
    assert(s.subrange(at, at + mark.len()) =~= mark) by {
        part_chars(s, both, from);
        assert forall|i: int| 0 <= i < mark.len() implies s.subrange(at, at + mark.len())[i] == mark[i] by {
            assert(s[from + (text.len() + i)] == both[text.len() + i]);
        }
    }
    assert forall|j: int| from <= j < at implies !occurs_at(s, mark, j) by {
        if occurs_at(s, mark, j) {
            let i = j - from;
            assert(!occurs_at(both, mark, i));
            assert(both =~= s.subrange(from, from + both.len()));
            assert(both.subrange(i, i + mark.len()) =~= s.subrange(j, j + mark.len()));
        }
    }
    find_from_at(s, mark, from, at);
}

/// A part of a text that is made of two stands behind the first.
pub(crate) proof fn second_part(s: Seq<char>, a: Seq<char>, b: Seq<char>, pos: int)
    requires
        occurs_at(s, a + b, pos),
    ensures
        occurs_at(s, a, pos),
        occurs_at(s, b, pos + a.len()),
{
    let both = a + b;
    part_chars(s, both, pos);
    assert(s.subrange(pos, pos + a.len()) =~= a) by {
        assert forall|i: int| 0 <= i < a.len() implies s.subrange(pos, pos + a.len())[i] == a[i] by {
            assert(s[pos + i] == both[i]);
        }
    }
    let at = pos + a.len();
    assert(s.subrange(at, at + b.len()) =~= b) by {
        assert forall|i: int| 0 <= i < b.len() implies s.subrange(at, at + b.len())[i] == b[i] by {
            assert(s[pos + (a.len() + i)] == both[a.len() + i]);
        }
    }
}

/// A comment adds nothing, whatever stands in it.
pub proof fn comment_is_skipped(s: Seq<char>, pos: int, tags: nat, found: Map<Seq<char>, Json>, text: Seq<char>)
    requires
        tags > 0,
        forall|i: int| 0 <= i < text.len() ==> !occurs_at(text + "-->"@, "-->"@, i),
        occurs_at(s, "<!--"@ + (text + "-->"@), pos),
    ensures
        children(s, pos, tags, found) == children(s, pos + text.len() + 7, (tags - 1) as nat, found),
{
    reveal_strlit("<!--");
    reveal_strlit("-->");
    let rest = text + "-->"@;
    second_part(s, "<!--"@, rest, pos);
    mark_is_first(s, text, "-->"@, pos + 4);
    part_chars(s, rest, pos + 4);
    assert(s[pos + 4 + (text.len() + 2)] == rest[text.len() + 2int]);
    tag_starts(s, pos, "<!--"@, pos + 4 + text.len() + 2);
    let end = find_from(s, seq!['>'], pos + 1)->Some_0;
    let tag = s.subrange(pos + 1, end);
    assert(tag[0] == "<!--"@[1] && tag[1] == "<!--"@[2] && tag[2] == "<!--"@[3]);
    assert(is_comment(tag) && is_skipped(tag));
}

/// A processing instruction adds nothing, whatever stands in it.
pub proof fn instruction_is_skipped(s: Seq<char>, pos: int, tags: nat, found: Map<Seq<char>, Json>, text: Seq<char>)
    requires
        tags > 0,
        forall|i: int| 0 <= i < text.len() ==> !occurs_at(text + "?>"@, "?>"@, i),
        text.len() > 0 ==> text[0] != '>',
        occurs_at(s, "<?"@ + (text + "?>"@), pos),
    ensures
        children(s, pos, tags, found) == children(s, pos + text.len() + 4, (tags - 1) as nat, found),
{
    reveal_strlit("<?");
    reveal_strlit("?>");
    let mark = "?>"@;
    let rest = text + mark;
    second_part(s, "<?"@, rest, pos);
    part_chars(s, "<?"@, pos);
    part_chars(s, rest, pos + 2);
    assert(s[pos + 1] == "<?"@[1]);
    assert(s[pos + 2 + (text.len() + 1)] == rest[text.len() + 1int]);
    tag_starts(s, pos, "<?"@, pos + 2 + text.len() + 1);
    let end = find_from(s, seq!['>'], pos + 1)->Some_0;
    let tag = s.subrange(pos + 1, end);
    assert(tag[0] == "<?"@[1]);
    assert(is_skipped(tag) && !is_comment(tag));
    mark_is_first(s, text, mark, pos + 2);
    assert(s[pos + 2 + 0] == rest[0]);
    assert(!occurs_at(s, mark, pos + 1)) by {
        if occurs_at(s, mark, pos + 1) {
            part_chars(s, mark, pos + 1);
            assert(s[pos + 1 + 1] == mark[1]);
        }
    }
    assert(find_from(s, mark, pos + 1) == find_from(s, mark, pos + 2));
}

pub(crate) proof fn tag_is_read(s: Seq<char>, pos: int, tag: Seq<char>)
    requires
        forall|i: int| 0 <= i < tag.len() ==> #[trigger] tag[i] != '>',
        occurs_at(s, seq!['<'] + tag + seq!['>'], pos),
    ensures
        find_from(s, seq!['<'], pos) == Some(pos),
        find_from(s, seq!['>'], pos + 1) == Some(pos + 1 + tag.len()),
        s.subrange(pos + 1, pos + 1 + tag.len()) == tag,
        0 <= pos,
        pos + tag.len() + 2 <= s.len(),
{
    let whole = seq!['<'] + tag + seq!['>'];
    let end = pos + 1 + tag.len();
    part_chars(s, whole, pos);
    assert(whole[0] == '<' && whole[1 + tag.len() as int] == '>');
    find_char(s, '<', pos, pos);
    assert forall|i: int| pos + 1 <= i < end implies s[i] != '>' by {
        assert(s[pos + (i - pos)] == whole[i - pos]);
        assert(whole[i - pos] == tag[i - pos - 1]);
    }
    assert(s[end] == '>') by {
        assert(s[pos + (1 + tag.len())] == whole[1 + tag.len() as int]);
    }
    find_char(s, '>', pos + 1, end);
    assert(s.subrange(pos + 1, end) =~= tag) by {
        assert forall|i: int| 0 <= i < tag.len() implies s.subrange(pos + 1, end)[i] == tag[i] by {
            assert(s[pos + (1 + i)] == whole[1 + i]);
            assert(whole[1 + i] == tag[i]);
        }
    }
}

/// A tag that closes itself.
pub open spec fn self_closed(name: Seq<char>) -> Seq<char> {
    seq!['<'] + name.push('/') + seq!['>']
}

/// A tag that closes itself adds an empty text under its name.
pub proof fn self_closing_tag_is_empty(s: Seq<char>, pos: int, tags: nat, found: Map<Seq<char>, Json>, name: Seq<char>)
    requires
        tags > 0,
        is_name(name),
        occurs_at(s, self_closed(name), pos),
    ensures
        children(s, pos, tags, found) == children(
            s,
            pos + name.len() + 3,
            (tags - 1) as nat,
            with_child(found, name, Json::String(Seq::empty())),
        ),
{
    let tag = name.push('/');
    tag_is_read(s, pos, tag);
    assert(tag[0] == name[0]);
    assert(trim_start(tag) == tag);
    until_white_of(tag, Seq::empty());
    assert(tag + Seq::<char>::empty() =~= tag);
    assert(tag.drop_last() =~= name);
    assert(name.last() != '/');
    reveal_with_fuel(strip_end, 3);
}

/// An element by itself is an object with one field.
pub proof fn element_alone(name: Seq<char>, attrs: Seq<char>, inner: Seq<char>)
    requires
        is_name(name),
        is_attributes(attrs),
        is_inside(inner, name),
    ensures
        element(written(name, attrs, inner)) == Json::Object(map![name => element(inner)]),
{
    let s = written(name, attrs, inner);
    assert(s[0] == '<' && s.last() == '>');
    trim_keeps(s);
    assert(s.subrange(0, s.len() as int) =~= s);
    element_becomes_child(s, 0, MAX_TAGS as nat, Map::empty(), name, attrs, inner);
    let m = with_child(Map::empty(), name, element(inner));
    nothing_behind(s, (MAX_TAGS - 1) as nat, m);
    assert(m =~= map![name => element(inner)]);
    assert(m.contains_key(name));
    assert(!(m =~= Map::<Seq<char>, Json>::empty()));
}

/// Behind the end of a text there is no child.
pub(crate) proof fn nothing_behind(s: Seq<char>, tags: nat, found: Map<Seq<char>, Json>)
    ensures
        children(s, s.len() as int, tags, found) == found,
{
}

/// `<tag>content</tag>` is an object whose field `tag` is the content.
pub proof fn simple_tag_is_field(name: Seq<char>, content: Seq<char>)
    requires
        is_name(name),
        forall|i: int| 0 <= i < content.len() ==> #[trigger] content[i] != '<',
    ensures
        element(written(name, Seq::empty(), content)) == Json::Object(
            map![name => Json::String(trim(content))],
        ),
{
    text_means_itself(content);
    no_tag_inside(content, name);
    element_alone(name, Seq::empty(), content);
}

pub(crate) proof fn no_tag_inside(content: Seq<char>, name: Seq<char>)
    requires
        forall|i: int| 0 <= i < content.len() ==> #[trigger] content[i] != '<',
    ensures
        is_inside(content, name),
{
    assert forall|i: int|
        #![auto]
        !occurs_at(content, opening(name), i) && !occurs_at(content, closing(name), i) by {
        if occurs_at(content, opening(name), i) {
            part_chars(content, opening(name), i);
            assert(content[i + 0] == opening(name)[0]);
        }
        if occurs_at(content, closing(name), i) {
            part_chars(content, closing(name), i);
            assert(content[i + 0] == closing(name)[0]);
        }
    }
    inside_without_tags(content, name);
}

/// An element of a name: with something inside, or a tag that closes itself.
pub open spec fn one_element(name: Seq<char>, inner: Option<Seq<char>>) -> Seq<char> {
    match inner {
        Some(i) => written(name, Seq::empty(), i),
        None => self_closed(name),
    }
}

/// What an element of a name means by itself.
pub open spec fn one_meaning(inner: Option<Seq<char>>) -> Json {
    match inner {
        Some(i) => element(i),
        None => Json::String(Seq::empty()),
    }
}

/// What stands inside an element belongs there.
pub open spec fn one_inside(name: Seq<char>, inner: Option<Seq<char>>) -> bool {
    match inner {
        Some(i) => is_inside(i, name),
        None => true,
    }
}

/// Elements of one name, one after another.
pub open spec fn repeated(name: Seq<char>, inners: Seq<Option<Seq<char>>>) -> Seq<char>
    decreases inners.len(),
{
    if inners.len() == 0 {
        Seq::empty()
    } else {
        repeated(name, inners.drop_last()) + one_element(name, inners.last())
    }
}

/// What elements of one name mean, one after another.
pub open spec fn meanings(inners: Seq<Option<Seq<char>>>) -> Seq<Json> {
    inners.map_values(|inner: Option<Seq<char>>| one_meaning(inner))
}

/// What elements of one name mean together: one by itself, more an array.
spec fn together(inners: Seq<Option<Seq<char>>>) -> Json {
    if inners.len() == 1 {
        one_meaning(inners[0])
    } else {
        Json::Array(meanings(inners))
    }
}

proof fn one_becomes_child(
    s: Seq<char>,
    pos: int,
    tags: nat,
    found: Map<Seq<char>, Json>,
    name: Seq<char>,
    inner: Option<Seq<char>>,
)
    requires
        tags > 0,
        is_name(name),
        one_inside(name, inner),
        occurs_at(s, one_element(name, inner), pos),
    ensures
        children(s, pos, tags, found) == children(
            s,
            pos + one_element(name, inner).len(),
            (tags - 1) as nat,
            with_child(found, name, one_meaning(inner)),
        ),
{
    match inner {
        Some(i) => {
            element_becomes_child(s, pos, tags, found, name, Seq::empty(), i);
        },
        None => {
            self_closing_tag_is_empty(s, pos, tags, found, name);
        },
    }
}

proof fn repeated_starts(name: Seq<char>, inners: Seq<Option<Seq<char>>>, k: int)
    requires
        0 <= k < inners.len(),
    ensures
        occurs_at(
            repeated(name, inners),
            one_element(name, inners[k]),
            repeated(name, inners.take(k)).len() as int,
        ),
        repeated(name, inners.take(k + 1)).len() == repeated(name, inners.take(k)).len() + one_element(
            name,
            inners[k],
        ).len(),
    decreases inners.len(),
{
    let s = repeated(name, inners);
    let rest = inners.drop_last();
    let before = repeated(name, rest);
    let piece = one_element(name, inners[k]);
    let at = repeated(name, inners.take(k)).len() as int;
    assert(inners.take(k + 1).drop_last() =~= inners.take(k));
    if k == inners.len() - 1 {
        assert(rest =~= inners.take(k));
        assert(s.subrange(at, at + piece.len()) =~= piece);
    } else {
        repeated_starts(name, rest, k);
        assert(rest.take(k) =~= inners.take(k));
        assert(rest[k] == inners[k]);
        assert(s.subrange(at, at + piece.len()) =~= before.subrange(at, at + piece.len()));
    }
}

/// One more element joins those of its name.
proof fn one_joins(name: Seq<char>, fewer: Seq<Option<Seq<char>>>, last: Option<Seq<char>>)
    requires
        fewer.len() >= 1,
    ensures
        with_child(map![name => together(fewer)], name, one_meaning(last)) == map![
            name => together(fewer.push(last))
        ],
{
    let known = map![name => together(fewer)];
    let more = fewer.push(last);
    assert(known[name] == together(fewer));
    assert(one_meaning(fewer[0]) is Array ==> false);
    if fewer.len() == 1 {
        assert(meanings(more) =~= seq![one_meaning(fewer[0]), one_meaning(last)]);
    } else {
        assert(meanings(more) =~= meanings(fewer).push(one_meaning(last)));
    }
    assert(with_child(known, name, one_meaning(last)) =~= map![name => together(more)]);
}

proof fn first_are_together(name: Seq<char>, inners: Seq<Option<Seq<char>>>, k: int)
    requires
        is_name(name),
        forall|i: int| 0 <= i < inners.len() ==> one_inside(name, #[trigger] inners[i]),
        1 <= k <= inners.len() <= MAX_TAGS,
    ensures
        children(repeated(name, inners), 0, MAX_TAGS as nat, Map::empty()) == children(
            repeated(name, inners),
            repeated(name, inners.take(k)).len() as int,
            (MAX_TAGS - k) as nat,
            map![name => together(inners.take(k))],
        ),
    decreases k,
{
    let s = repeated(name, inners);
    let some = inners.take(k);
    let fewer = inners.take(k - 1);
    let last = inners[k - 1];
    repeated_starts(name, inners, k - 1);
    let pos = repeated(name, fewer).len() as int;
    if k == 1 {
        assert(fewer =~= Seq::<Option<Seq<char>>>::empty());
        one_becomes_child(s, 0, MAX_TAGS as nat, Map::empty(), name, last);
        assert(with_child(Map::empty(), name, one_meaning(last)) =~= map![name => together(some)]);
    } else {
        first_are_together(name, inners, k - 1);
        let known = map![name => together(fewer)];
        one_becomes_child(s, pos, (MAX_TAGS - k + 1) as nat, known, name, last);
        one_joins(name, fewer, last);
        assert(some =~= fewer.push(last));
    }
}

/// Elements of the same name are an array, which stands under the name, whether they
/// hold something or close themselves.
pub proof fn same_names_make_array(name: Seq<char>, inners: Seq<Option<Seq<char>>>)
    requires
        is_name(name),
        forall|i: int| 0 <= i < inners.len() ==> one_inside(name, #[trigger] inners[i]),
        2 <= inners.len() <= MAX_TAGS,
    ensures
        element(repeated(name, inners)) == Json::Object(
            map![name => Json::Array(meanings(inners))],
        ),
{
    let s = repeated(name, inners);
    let n = inners.len() as int;
    let first = one_element(name, inners[0]);
    repeated_starts(name, inners, 0);
    part_chars(s, first, 0);
    assert(first[0] == '<');
    assert(s[0int + 0] == '<');
    assert(one_element(name, inners.last()).last() == '>');
    assert(s.last() == '>');
    trim_keeps(s);
    first_are_together(name, inners, n);
    assert(inners.take(n) =~= inners);
    let m = map![name => together(inners)];
    nothing_behind(s, (MAX_TAGS - n) as nat, m);
    assert(m.contains_key(name));
    assert(!(m =~= Map::<Seq<char>, Json>::empty()));
}

/// An element inside another of the same name belongs to it.
pub proof fn same_name_may_be_nested(name: Seq<char>, inner: Seq<char>)
    requires
        is_name(name),
        forall|i: int|
            #![auto]
            !occurs_at(inner, opening(name), i) && !occurs_at(inner, closing(name), i),
    ensures
        element(written(name, Seq::empty(), written(name, Seq::empty(), inner))) == Json::Object(
            map![name => Json::Object(map![name => element(inner)])],
        ),
{
    let none = Seq::<char>::empty();
    let within = written(name, none, inner);
    inside_without_tags(inner, name);
    element_alone(name, none, inner);
    nested_is_inside(name, inner);
    element_alone(name, none, within);
}

/// An element is inside another of the same name.
proof fn nested_is_inside(name: Seq<char>, inner: Seq<char>)
    requires
        is_name(name),
        forall|i: int|
            #![auto]
            !occurs_at(inner, opening(name), i) && !occurs_at(inner, closing(name), i),
    ensures
        is_inside(written(name, Seq::empty(), inner), name),
{
    let open = opening(name);
    let close = closing(name);
    let s = written(name, Seq::empty(), inner);
    let n = name.len() as int;
    let from = n + 2;
    let at = from + inner.len();
    assert(s =~= open + seq!['>'] + inner + close);
    assert(s.subrange(0, n + 1) =~= open);
    assert(s.subrange(from, from + inner.len() + close.len()) =~= inner + close);
    inside_and_close(s, name, inner, from);
    assert forall|j: int| 0 < j && j != at implies !occurs_at(s, open, j) && !occurs_at(s, close, j) by {
        if occurs_at(s, open, j) || occurs_at(s, close, j) {
            let pat = if occurs_at(s, open, j) {
                open
            } else {
                close
            };
            part_chars(s, pat, j);
            assert(pat[0] == '<');
            assert(s[j + 0] == '<');
            if j < from {
                assert(j <= n ==> s[j] == name[j - 1]);
            } else if j < at {
                inside_or_across(s, inner, pat, from, j);
            } else {
                assert(s[j] == close[j - at]);
            }
        }
    }
    assert(!occurs_at(s, close, 0)) by {
        if occurs_at(s, close, 0) {
            part_chars(s, close, 0);
            assert(s[0int + 1] == close[1]);
            assert(s[1] == name[0]);
        }
    }
    assert(occurs_at(s, open, 0));
    find_from_at(s, open, 0, 0);
    find_from_at(s, close, 0, at);
    assert(name_ends(s, 0int + open.len()));
    find_from_none(s, open, 1);
    find_from_at(s, close, 1, at);
    find_from_none(s, open, at + 1);
    find_from_none(s, close, at + 1);
    reveal_with_fuel(open_behind, 4);
}

/// Elements of different names are fields of one object.
pub proof fn different_names_are_fields(a: Seq<char>, first: Seq<char>, b: Seq<char>, second: Seq<char>)
    requires
        a != b,
        is_name(a),
        is_name(b),
        is_inside(first, a),
        is_inside(second, b),
    ensures
        element(written(a, Seq::empty(), first) + written(b, Seq::empty(), second)) == Json::Object(
            map![a => element(first), b => element(second)],
        ),
{
    let none = Seq::<char>::empty();
    let x = written(a, none, first);
    let y = written(b, none, second);
    let s = x + y;
    assert(x[0] == '<' && y.last() == '>');
    assert(s[0] == x[0] && s.last() == y.last());
    trim_keeps(s);
    assert(s.subrange(0, x.len() as int) =~= x);
    assert(s.subrange(x.len() as int, s.len() as int) =~= y);
    element_becomes_child(s, 0, MAX_TAGS as nat, Map::empty(), a, none, first);
    let m1 = with_child(Map::empty(), a, element(first));
    element_becomes_child(s, x.len() as int, (MAX_TAGS - 1) as nat, m1, b, none, second);
    let m2 = with_child(m1, b, element(second));
    nothing_behind(s, (MAX_TAGS - 2) as nat, m2);
    assert(m2 =~= map![a => element(first), b => element(second)]);
    assert(m2.contains_key(a));
    assert(!(m2 =~= Map::<Seq<char>, Json>::empty()));
}

/// Of an answer with a `<response>` around it only the inside is read, whatever
/// stands before and behind.
pub proof fn response_wrapper_is_dropped(s: Seq<char>, at: int, inner: Seq<char>)
    requires
        occurs_at(s, "<response>"@, at),
        forall|i: int| 0 <= i < at ==> !occurs_at(s, "<response>"@, i),
        occurs_at(s, inner, at + 10),
        occurs_at(s, "</response>"@, at + 10 + inner.len()),
        forall|i: int| !occurs_at(inner, "</response>"@, i),
    ensures
        response_part(s) == inner,
{
    reveal_strlit("<response>");
    reveal_strlit("</response>");
    let end = "</response>"@;
    let from = at + 10;
    let to = from + inner.len();
    find_from_at(s, "<response>"@, 0, at);
    part_chars(s, end, to);
    assert(s[to + 0] == end[0]);
    assert forall|j: int| from <= j < to implies !occurs_at(s, end, j) by {
        if occurs_at(s, end, j) {
            inside_or_across(s, inner, end, from, j);
        }
    }
    find_from_at(s, end, from, to);
}

}
