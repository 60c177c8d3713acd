//! Laws of whole documents: what is read of elements, however they are laid out.
use vstd::prelude::*;
use crate::json::Json;
use crate::rewrite::find_in_rest;
use crate::text::{contains_text, find_from, find_from_is_first, find_from_none, found_behind, is_blank};
use crate::text::{is_white, occurs_at, trim, trim_end, trim_ignores_white_around};
use crate::text::{trailing_is_stripped, trim_end_last, trim_end_part, trim_keeps, trim_start, trim_start_head};
use crate::text::{trim_start_of, trim_start_part, word_ends_at_white};
use crate::xml::{answer, behind_skipped, children, close_of, closing, element, is_self_closing, is_skipped};
use crate::xml::{name_ends, opening, response_part, tag_name, with_child, MAX_NESTING_ITERATIONS, MAX_TAGS};
use crate::xml_laws::{element_becomes_child, find_char, is_attributes, is_inside, is_name, nothing_behind};
use crate::xml_laws::{one_char, open_behind, part_chars, response_wrapper_is_dropped, second_part};
use crate::xml_laws::{tag_becomes_child, tag_is_read, text_means_itself, written};

verus! {

broadcast use vstd::seq_lib::group_seq_properties;

// ---------------------------------------------------------------------------
// Between elements
// ---------------------------------------------------------------------------
proof fn find_passes(s: Seq<char>, pos: int, i: int)
    requires
        0 <= pos <= i <= s.len(),
        forall|j: int| pos <= j < i ==> #[trigger] s[j] != '<',
    ensures
        find_from(s, seq!['<'], pos) == find_from(s, seq!['<'], i),
    decreases i - pos,
{
    if pos < i {
        one_char(s, '<', pos);
        assert(s[pos] != '<');
        find_passes(s, pos + 1, i);
    }
}

/// Text between two elements makes no difference, whatever it is and however long,
/// as long as no tag starts in it.
pub proof fn text_between_is_passed(s: Seq<char>, pos: int, i: int, tags: nat, found: Map<Seq<char>, Json>)
    requires
        0 <= pos <= i <= s.len(),
        forall|j: int| pos <= j < i ==> #[trigger] s[j] != '<',
    ensures
        children(s, pos, tags, found) == children(s, i, tags, found),
{
    find_passes(s, pos, i);
}

/// Whitespace around the inside of an element makes no difference.
pub proof fn space_around_is_passed(before: Seq<char>, content: Seq<char>, behind: Seq<char>)
    requires
        is_blank(before),
        is_blank(behind),
    ensures
        element(before + content + behind) == element(content),
{
    trim_ignores_white_around(before, content, behind);
}

/// The inside of an element is either an object that is not empty, or its whole text but
/// for the whitespace around it: that text wherever no child is found in it, whatever tags
/// stand there, and otherwise the children.
pub proof fn inside_is_children_or_text(content: Seq<char>)
    ensures
        element(content) matches Json::String(t) ==> t == trim(content),
        element(content) matches Json::Object(m) ==> m == children(trim(content), 0, 10000, Map::empty()),
        element(content) matches Json::Object(m) ==> m != Map::<Seq<char>, Json>::empty(),
        element(content) is String || element(content) is Object,
        (forall|name: Seq<char>|
            !(#[trigger] children(trim(content), 0, 10000, Map::empty()).contains_key(name))) ==> element(
            content,
        ) == Json::String(trim(content)),
{
    let m = children(trim(content), 0, 10000, Map::empty());
    if forall|name: Seq<char>| !(#[trigger] m.contains_key(name)) {
        assert(m =~= Map::<Seq<char>, Json>::empty());
    }
}

/// A tag that is never closed adds nothing: what follows it is read as if it were not
/// there.
pub proof fn unclosed_tag_is_passed(
    s: Seq<char>,
    pos: int,
    tags: nat,
    found: Map<Seq<char>, Json>,
    lead: Seq<char>,
    name: Seq<char>,
    attrs: Seq<char>,
)
    requires
        tags > 0,
        is_blank(lead),
        is_name(name),
        is_attributes(attrs),
        occurs_at(s, seq!['<'] + (lead + name + attrs) + seq!['>'], pos),
        forall|j: int| pos <= j ==> !occurs_at(s, seq!['<', '/'] + name + seq!['>'], j),
    ensures
        children(s, pos, tags, found) == children(
            s,
            pos + lead.len() + name.len() + attrs.len() + 2,
            (tags - 1) as nat,
            found,
        ),
{
    let tag = lead + name + attrs;
    tag_chars(lead, name, attrs);
    tag_is_read(s, pos, tag);
    let end = pos + 1 + tag.len();
    plain_tag(lead, name, attrs);
    find_from_none(s, closing(name), end + 1);
}

/// Whatever stands in a tag, where nothing closes it, it adds nothing and reading goes on
/// behind it.
pub proof fn tag_without_end_is_passed(s: Seq<char>, pos: int, tags: nat, found: Map<Seq<char>, Json>, tag: Seq<char>)
    requires
        tags > 0,
        tag.len() > 0 ==> tag[0] != '/' && tag[0] != '!' && tag[0] != '?' && tag.last() != '/',
        forall|i: int| 0 <= i < tag.len() ==> #[trigger] tag[i] != '>',
        occurs_at(s, seq!['<'] + tag + seq!['>'], pos),
        forall|j: int| pos <= j ==> !occurs_at(s, seq!['<', '/'] + tag_name(tag) + seq!['>'], j),
    ensures
        children(s, pos, tags, found) == children(s, pos + tag.len() + 2, (tags - 1) as nat, found),
        is_blank(tag) ==> tag_name(tag) == tag,
{
    tag_is_read(s, pos, tag);
    let end = pos + 1 + tag.len();
    find_from_none(s, closing(tag_name(tag)), end + 1);
    if is_blank(tag) {
        let none = Seq::<char>::empty();
        trim_start_of(tag, none);
        assert(tag + none =~= tag);
        trailing_is_stripped(tag, '/', none);
    }
}

/// Behind a '<' without a '>' nothing more is read, and nothing where no tag may be
/// looked at any more.
pub proof fn reading_ends(s: Seq<char>, pos: int, tags: nat, found: Map<Seq<char>, Json>)
    requires
        0 <= pos < s.len(),
        s[pos] == '<',
    ensures
        (forall|j: int| pos <= j < s.len() ==> #[trigger] s[j] != '>') ==> children(s, pos, tags, found)
            == found,
        children(s, pos, 0, found) == found,
{
    find_char(s, '<', pos, pos);
    if forall|j: int| pos <= j < s.len() ==> #[trigger] s[j] != '>' {
        assert forall|j: int| pos + 1 <= j implies !occurs_at(s, seq!['>'], j) by {
            one_char(s, '>', j);
        }
        find_from_none(s, seq!['>'], pos + 1);
    }
}

proof fn tag_chars(lead: Seq<char>, name: Seq<char>, attrs: Seq<char>)
    requires
        is_blank(lead),
        is_name(name),
        is_attributes(attrs),
    ensures
        forall|i: int|
            0 <= i < (lead + name + attrs).len() ==> #[trigger] (lead + name + attrs)[i] != '>',
{
    let tag = lead + name + attrs;
    assert forall|i: int| 0 <= i < tag.len() implies #[trigger] tag[i] != '>' by {
        if i < lead.len() {
            assert(tag[i] == lead[i]);
        } else if i < lead.len() + name.len() {
            assert(tag[i] == name[i - lead.len()]);
        } else {
            assert(tag[i] == attrs[i - lead.len() - name.len()]);
        }
    }
}

proof fn tag_begins(lead: Seq<char>, name: Seq<char>, rest: Seq<char>)
    requires
        is_blank(lead),
        is_name(name),
    ensures
        !is_skipped(lead + name + rest),
        trim_start(lead + name + rest) == name + rest,
{
    let tag = lead + name + rest;
    assert(tag =~= lead + (name + rest));
    assert((name + rest)[0] == name[0]);
    trim_start_of(lead, name + rest);
    if lead.len() > 0 {
        assert(tag[0] == lead[0]);
    } else {
        assert(tag[0] == name[0]);
    }
}

proof fn plain_tag(lead: Seq<char>, name: Seq<char>, attrs: Seq<char>)
    requires
        is_blank(lead),
        is_name(name),
        is_attributes(attrs),
    ensures
        tag_name(lead + name + attrs) == name,
        !is_skipped(lead + name + attrs),
        !is_self_closing(lead + name + attrs),
{
    let tag = lead + name + attrs;
    let none = Seq::<char>::empty();
    tag_begins(lead, name, attrs);
    word_ends_at_white(name, attrs);
    trailing_is_stripped(name, '/', none);
    assert(name + none =~= name);
    if attrs.len() > 0 {
        assert(tag.last() == attrs.last());
    } else {
        assert(tag.last() == name.last());
    }
}

// ---------------------------------------------------------------------------
// Elements inside others of the same name
// ---------------------------------------------------------------------------
/// An element of a name is opened at `i`: behind the name the tag ends, or a space or
/// a slash follows.
pub open spec fn opens_at(s: Seq<char>, name: Seq<char>, i: int) -> bool {
    &&& occurs_at(s, seq!['<'] + name, i)
    &&& i + 1 + name.len() < s.len()
    &&& s[i + 1 + name.len()] == '>' || s[i + 1 + name.len()] == ' ' || s[i + 1 + name.len()] == '/'
}

/// An element of a name is closed at `i`.
pub open spec fn closes_at(s: Seq<char>, name: Seq<char>, i: int) -> bool {
    occurs_at(s, seq!['<', '/'] + name + seq!['>'], i)
}

/// How many more elements of a name are opened than closed before `n`.
pub open spec fn balance(s: Seq<char>, name: Seq<char>, n: int) -> int
    decreases n,
{
    if n <= 0 {
        0
    } else {
        balance(s, name, n - 1) + (if opens_at(s, name, n - 1) {
            1int
        } else {
            0
        }) - (if closes_at(s, name, n - 1) {
            1int
        } else {
            0
        })
    }
}

/// How many tags before `n` start as one of a name does.
pub open spec fn tags_like(s: Seq<char>, name: Seq<char>, n: int) -> int
    decreases n,
{
    if n <= 0 {
        0
    } else {
        tags_like(s, name, n - 1) + (if occurs_at(s, seq!['<'] + name, n - 1) || closes_at(
            s,
            name,
            n - 1,
        ) {
            1int
        } else {
            0
        })
    }
}

/// Every element of a name that is opened in a text is closed in it, none is closed
/// that was not opened, and there are not too many tags to look at.
pub open spec fn is_balanced(inner: Seq<char>, name: Seq<char>) -> bool {
    &&& balance(inner, name, inner.len() as int) == 0
    &&& forall|n: int| 0 <= n <= inner.len() ==> #[trigger] balance(inner, name, n) >= 0
    &&& tags_like(inner, name, inner.len() as int) < 10000
}

proof fn quiet(s: Seq<char>, name: Seq<char>, a: int, b: int)
    requires
        0 <= a <= b,
        forall|j: int|
            a <= j < b ==> !(#[trigger] occurs_at(s, opening(name), j)) && !closes_at(s, name, j),
    ensures
        balance(s, name, b) == balance(s, name, a),
        tags_like(s, name, b) == tags_like(s, name, a),
    decreases b - a,
{
    if a < b {
        quiet(s, name, a, b - 1);
        assert(!occurs_at(s, opening(name), b - 1));
    }
}

proof fn tags_only_grow(s: Seq<char>, name: Seq<char>, a: int, b: int)
    requires
        0 <= a <= b,
    ensures
        tags_like(s, name, a) <= tags_like(s, name, b),
    decreases b - a,
{
    if a < b {
        tags_only_grow(s, name, a, b - 1);
    }
}

proof fn not_both(s: Seq<char>, name: Seq<char>, i: int)
    requires
        is_name(name),
        occurs_at(s, seq!['<'] + name, i),
    ensures
        !closes_at(s, name, i),
{
    let open = seq!['<'] + name;
    let close = seq!['<', '/'] + name + seq!['>'];
    if closes_at(s, name, i) {
        part_chars(s, open, i);
        part_chars(s, close, i);
        assert(s[i + 1] == open[1] && s[i + 1] == close[1]);
        assert(open[1] == name[0] && close[1] == '/');
    }
}

proof fn balance_is_counted(inner: Seq<char>, name: Seq<char>, pos: int, depth: nat, tries: nat)
    requires
        is_name(name),
        is_balanced(inner, name),
        0 <= pos <= inner.len(),
        depth == 1 + balance(inner, name, pos),
        tries > tags_like(inner, name, inner.len() as int) - tags_like(inner, name, pos),
    ensures
        open_behind(inner, name, pos, depth, tries) matches Some((d, _)) && d == 1,
    decreases tries,
{
    let n = inner.len() as int;
    let open = opening(name);
    let close = closing(name);
    tags_only_grow(inner, name, pos, n);
    find_from_is_first(inner, open, pos);
    find_from_is_first(inner, close, pos);
    let o = find_from(inner, open, pos);
    let c = find_from(inner, close, pos);
    if o is None && c is None {
        quiet(inner, name, pos, n);
    } else if o is Some && (c is None || o->Some_0 < c->Some_0) {
        let i = o->Some_0;
        assert(i < n) by {
            part_chars(inner, open, i);
        }
        quiet(inner, name, pos, i);
        not_both(inner, name, i);
        tags_only_grow(inner, name, i + 1, n);
        let deeper = if opens_at(inner, name, i) {
            depth + 1
        } else {
            depth
        };
        balance_is_counted(inner, name, i + 1, deeper, (tries - 1) as nat);
    } else {
        let i = c->Some_0;
        assert(i < n) by {
            part_chars(inner, close, i);
        }
        if occurs_at(inner, open, i) {
            not_both(inner, name, i);
        }
        quiet(inner, name, pos, i);
        tags_only_grow(inner, name, i + 1, n);
        assert(balance(inner, name, i + 1) >= 0);
        balance_is_counted(inner, name, i + 1, (depth - 1) as nat, (tries - 1) as nat);
    }
}

/// A text in which every element of a name is closed that is opened is the inside of
/// an element of that name, to whatever depth they stand in each other.
pub proof fn balanced_is_inside(inner: Seq<char>, name: Seq<char>)
    requires
        is_name(name),
        is_balanced(inner, name),
    ensures
        is_inside(inner, name),
{
    balance_is_counted(inner, name, 0, 1, 10000);
}

proof fn never_closed(s: Seq<char>, name: Seq<char>, from: int, pos: int, depth: nat, tries: nat)
    requires
        is_name(name),
        0 <= from <= s.len(),
        0 <= pos <= s.len() - from,
        forall|n: int| 0 <= n <= s.len() - from ==> #[trigger] balance(s.skip(from), name, n) >= 0,
        depth == 1 + balance(s.skip(from), name, pos),
    ensures
        close_of(s, name, from + pos, depth, tries) is None,
    decreases tries,
{
    let rest = s.skip(from);
    let open = opening(name);
    let close = closing(name);
    if tries > 0 {
        find_in_rest(s, open, from, pos);
        find_in_rest(s, close, from, pos);
        find_from_is_first(rest, open, pos);
        find_from_is_first(rest, close, pos);
        let o = find_from(rest, open, pos);
        let c = find_from(rest, close, pos);
        if c is Some {
            part_chars(rest, close, c->Some_0);
            if o is Some && o->Some_0 < c->Some_0 {
                let i = o->Some_0;
                quiet(rest, name, pos, i);
                not_both(rest, name, i);
                let end = i + open.len();
                assert(opens_at(rest, name, i) == name_ends(s, from + end)) by {
                    assert(rest[end] == s[from + end]);
                }
                let deeper = if opens_at(rest, name, i) {
                    depth + 1
                } else {
                    depth
                };
                never_closed(s, name, from, i + 1, deeper, (tries - 1) as nat);
            } else {
                let i = c->Some_0;
                if occurs_at(rest, open, i) {
                    not_both(rest, name, i);
                }
                quiet(rest, name, pos, i);
                assert(balance(rest, name, i + 1) >= 0);
                never_closed(s, name, from, i + 1, (depth - 1) as nat, (tries - 1) as nat);
            }
        }
    }
}

/// A tag behind which never more elements of its name are closed than opened is itself not
/// closed: it adds nothing, and what follows it is read as if it were not there.
pub proof fn unbalanced_tag_is_passed(
    s: Seq<char>,
    pos: int,
    tags: nat,
    found: Map<Seq<char>, Json>,
    lead: Seq<char>,
    name: Seq<char>,
    attrs: Seq<char>,
)
    requires
        tags > 0,
        is_blank(lead),
        is_name(name),
        is_attributes(attrs),
        occurs_at(s, seq!['<'] + (lead + name + attrs) + seq!['>'], pos),
        forall|n: int|
            0 <= n <= s.len() - pos - lead.len() - name.len() - attrs.len() - 2 ==> #[trigger] balance(
                s.skip(pos + lead.len() + name.len() + attrs.len() + 2),
                name,
                n,
            ) >= 0,
    ensures
        children(s, pos, tags, found) == children(
            s,
            pos + lead.len() + name.len() + attrs.len() + 2,
            (tags - 1) as nat,
            found,
        ),
{
    let tag = lead + name + attrs;
    tag_chars(lead, name, attrs);
    tag_is_read(s, pos, tag);
    let from = pos + lead.len() + name.len() + attrs.len() + 2;
    plain_tag(lead, name, attrs);
    never_closed(s, name, from, 0, 1, 10000);
}

// ---------------------------------------------------------------------------
// Documents
// ---------------------------------------------------------------------------
/// An element as it is written: the text before it, what stands before its name in its
/// tag, its name, what follows the name, and what stands inside; none where the tag closes
/// itself.
#[verifier::ext_equal]
pub struct Piece {
    pub gap: Seq<char>,
    pub lead: Seq<char>,
    pub name: Seq<char>,
    pub attrs: Seq<char>,
    pub inner: Option<Seq<char>>,
}

/// The text of an element.
pub open spec fn tags_of(p: Piece) -> Seq<char> {
    match p.inner {
        Some(i) => seq!['<'] + (p.lead + p.name + p.attrs) + seq!['>'] + i + (seq!['<', '/'] + p.name
            + seq!['>']),
        None => seq!['<'] + (p.lead + p.name + p.attrs).push('/') + seq!['>'],
    }
}

/// The text of elements, one after another, each with the text before it.
pub open spec fn document(pieces: Seq<Piece>) -> Seq<char>
    decreases pieces.len(),
{
    if pieces.len() == 0 {
        Seq::empty()
    } else {
        document(pieces.drop_last()) + (pieces.last().gap + tags_of(pieces.last()))
    }
}

/// No tag starts in a text.
pub open spec fn has_no_tag(s: Seq<char>) -> bool {
    forall|i: int| 0 <= i < s.len() ==> #[trigger] s[i] != '<'
}

/// An element that is written well: with a name, before which only whitespace stands,
/// without a '>' among its attributes, and closed where it ends.
pub open spec fn is_written(p: Piece) -> bool {
    &&& has_no_tag(p.gap)
    &&& is_blank(p.lead)
    &&& is_name(p.name)
    &&& is_attributes(p.attrs)
    &&& p.inner matches Some(i) ==> is_balanced(i, p.name)
}

/// Some elements that are written well, no more than are looked at.
pub open spec fn are_written(pieces: Seq<Piece>) -> bool {
    &&& 0 < pieces.len() <= 10000
    &&& forall|i: int| 0 <= i < pieces.len() ==> is_written(#[trigger] pieces[i])
}

/// What an element means by itself.
pub open spec fn meaning(p: Piece) -> Json {
    match p.inner {
        Some(i) => element(i),
        None => Json::String(Seq::empty()),
    }
}

/// What the elements of a name mean, in their order.
pub open spec fn meanings_under(pieces: Seq<Piece>, name: Seq<char>) -> Seq<Json>
    decreases pieces.len(),
{
    if pieces.len() == 0 {
        Seq::empty()
    } else if pieces.last().name == name {
        meanings_under(pieces.drop_last(), name).push(meaning(pieces.last()))
    } else {
        meanings_under(pieces.drop_last(), name)
    }
}

/// An object that says what elements say: under each of their names what the one
/// element means, or an array of what all of them mean, and nothing under other names.
pub open spec fn says_all(m: Map<Seq<char>, Json>, pieces: Seq<Piece>) -> bool {
    forall|name: Seq<char>|
        {
            let all = meanings_under(pieces, name);
            &&& #[trigger] m.contains_key(name) <==> all.len() > 0
            &&& all.len() == 1 ==> m[name] == all[0]
            &&& all.len() > 1 ==> m[name] == Json::Array(all)
        }
}

/// The children that elements make, one after another.
spec fn collected(pieces: Seq<Piece>) -> Map<Seq<char>, Json>
    decreases pieces.len(),
{
    if pieces.len() == 0 {
        Map::empty()
    } else {
        with_child(collected(pieces.drop_last()), pieces.last().name, meaning(pieces.last()))
    }
}

proof fn no_meaning_is_array(p: Piece)
    ensures
        !(meaning(p) is Array),
{
    if p.inner is Some {
        let i = p.inner->Some_0;
        assert(element(i) is String || element(i) is Object);
    }
}

proof fn collected_says_all(pieces: Seq<Piece>)
    ensures
        says_all(collected(pieces), pieces),
    decreases pieces.len(),
{
    let m = collected(pieces);
    if pieces.len() > 0 {
        let rest = pieces.drop_last();
        let last = pieces.last();
        let before = collected(rest);
        collected_says_all(rest);
        no_meaning_is_array(last);
        let held = meanings_under(rest, last.name);
        assert(before.contains_key(last.name) <==> held.len() > 0);
        if held.len() == 1 {
            first_is_no_array(rest, last.name);
            assert(seq![held[0], meaning(last)] =~= held.push(meaning(last)));
        }
        assert forall|name: Seq<char>|
            {
                let all = meanings_under(pieces, name);
                &&& #[trigger] m.contains_key(name) <==> all.len() > 0
                &&& all.len() == 1 ==> m[name] == all[0]
                &&& all.len() > 1 ==> m[name] == Json::Array(all)
            } by {
            assert(before.contains_key(name) <==> meanings_under(rest, name).len() > 0);
        }
    }
}

proof fn first_is_no_array(pieces: Seq<Piece>, name: Seq<char>)
    requires
        meanings_under(pieces, name).len() > 0,
    ensures
        !(meanings_under(pieces, name)[0] is Array),
    decreases pieces.len(),
{
    if pieces.len() > 0 {
        no_meaning_is_array(pieces.last());
        if meanings_under(pieces.drop_last(), name).len() > 0 {
            first_is_no_array(pieces.drop_last(), name);
        }
    }
}

proof fn piece_becomes_child(s: Seq<char>, pos: int, tags: nat, found: Map<Seq<char>, Json>, p: Piece)
    requires
        tags > 0,
        is_written(p),
        occurs_at(s, tags_of(p), pos),
    ensures
        children(s, pos, tags, found) == children(
            s,
            pos + tags_of(p).len(),
            (tags - 1) as nat,
            with_child(found, p.name, meaning(p)),
        ),
{
    match p.inner {
        Some(i) => {
            let tag = p.lead + p.name + p.attrs;
            balanced_is_inside(i, p.name);
            tag_chars(p.lead, p.name, p.attrs);
            plain_tag(p.lead, p.name, p.attrs);
            assert(tags_of(p) =~= (seq!['<'] + tag + seq!['>']) + (i + closing(p.name)));
            tag_becomes_child(s, pos, tags, found, tag, p.name, i);
        },
        None => {
            let word = p.lead + p.name + p.attrs;
            let tag = word.push('/');
            tag_chars(p.lead, p.name, p.attrs);
            assert forall|i: int| 0 <= i < tag.len() implies #[trigger] tag[i] != '>' by {
                if i < word.len() {
                    assert(tag[i] == word[i]);
                }
            }
            tag_is_read(s, pos, tag);
            self_closing_name(p.lead, p.name, p.attrs);
        },
    }
}

proof fn self_closing_name(lead: Seq<char>, name: Seq<char>, attrs: Seq<char>)
    requires
        is_blank(lead),
        is_name(name),
        is_attributes(attrs),
    ensures
        tag_name((lead + name + attrs).push('/')) == name,
        !is_skipped((lead + name + attrs).push('/')),
        is_self_closing((lead + name + attrs).push('/')),
{
    let rest = attrs.push('/');
    let tag = (lead + name + attrs).push('/');
    let none = Seq::<char>::empty();
    assert(tag =~= lead + name + rest);
    tag_begins(lead, name, rest);
    if attrs.len() == 0 {
        let word = name + rest;
        assert(rest =~= seq!['/']);
        assert forall|i: int| 0 <= i < word.len() implies !is_white(#[trigger] word[i]) by {
            if i < name.len() {
                assert(word[i] == name[i]);
            } else {
                assert(word[i] == '/');
            }
        }
        word_ends_at_white(word, none);
        assert(word + none =~= word);
        trailing_is_stripped(name, '/', rest);
    } else {
        assert(rest[0] == attrs[0]);
        word_ends_at_white(name, rest);
        trailing_is_stripped(name, '/', none);
        assert(name + none =~= name);
    }
}

/// The first elements of a document stand at its start, and the next behind them.
proof fn document_starts(pieces: Seq<Piece>, k: int)
    requires
        0 <= k < pieces.len(),
    ensures
        occurs_at(
            document(pieces),
            pieces[k].gap + tags_of(pieces[k]),
            document(pieces.take(k)).len() as int,
        ),
        document(pieces.take(k + 1)).len() == document(pieces.take(k)).len() + pieces[k].gap.len()
            + tags_of(pieces[k]).len(),
    decreases pieces.len(),
{
    let s = document(pieces);
    let rest = pieces.drop_last();
    let before = document(rest);
    let piece = pieces[k].gap + tags_of(pieces[k]);
    let at = document(pieces.take(k)).len() as int;
    assert(pieces.take(k + 1).drop_last() =~= pieces.take(k));
    if k == pieces.len() - 1 {
        assert(rest =~= pieces.take(k));
        assert(s.subrange(at, at + piece.len()) =~= piece);
    } else {
        document_starts(rest, k);
        assert(rest.take(k) =~= pieces.take(k));
        assert(rest[k] == pieces[k]);
        assert(s.subrange(at, at + piece.len()) =~= before.subrange(at, at + piece.len()));
    }
}

proof fn first_pieces_are_read(pieces: Seq<Piece>, tail: Seq<char>, k: int)
    requires
        are_written(pieces),
        0 <= k <= pieces.len(),
    ensures
        children(document(pieces) + tail, 0, 10000, Map::empty()) == children(
            document(pieces) + tail,
            document(pieces.take(k)).len() as int,
            (10000 - k) as nat,
            collected(pieces.take(k)),
        ),
        document(pieces.take(k)).len() <= document(pieces).len(),
    decreases k,
{
    let doc = document(pieces);
    let s = doc + tail;
    if k == 0 {
        assert(pieces.take(0) =~= Seq::<Piece>::empty());
    } else {
        let p = pieces[k - 1];
        let fewer = pieces.take(k - 1);
        let pos = document(fewer).len() as int;
        let piece = p.gap + tags_of(p);
        first_pieces_are_read(pieces, tail, k - 1);
        document_starts(pieces, k - 1);
        assert(pieces.take(k).drop_last() =~= fewer);
        assert(is_written(p));
        assert(s.subrange(pos, pos + piece.len()) =~= doc.subrange(pos, pos + piece.len()));
        second_part(s, p.gap, tags_of(p), pos);
        let start = pos + p.gap.len();
        part_chars(s, p.gap, pos);
        assert forall|j: int| pos <= j < start implies #[trigger] s[j] != '<' by {
            assert(s[pos + (j - pos)] == p.gap[j - pos]);
        }
        text_between_is_passed(s, pos, start, (10001 - k) as nat, collected(fewer));
        piece_becomes_child(s, start, (10001 - k) as nat, collected(fewer), p);
    }
}

proof fn trimmed_document_is_read(pieces: Seq<Piece>, tail: Seq<char>)
    requires
        are_written(pieces),
        has_no_tag(tail),
    ensures
        children(document(pieces) + tail, 0, 10000, Map::empty()) == collected(pieces),
{
    let s = document(pieces) + tail;
    let n = pieces.len() as int;
    let at = document(pieces).len() as int;
    first_pieces_are_read(pieces, tail, n);
    assert(pieces.take(n) =~= pieces);
    assert forall|j: int| at <= j < s.len() implies #[trigger] s[j] != '<' by {
        assert(s[j] == tail[j - at]);
    }
    text_between_is_passed(s, at, s.len() as int, (10000 - n) as nat, collected(pieces));
    nothing_behind(s, (10000 - n) as nat, collected(pieces));
}

/// The same elements with another text before the first.
spec fn with_gap(pieces: Seq<Piece>, gap: Seq<char>) -> Seq<Piece> {
    pieces.update(0, Piece { gap, ..pieces[0] })
}

proof fn gap_of_first(pieces: Seq<Piece>, gap: Seq<char>, rest: Seq<char>)
    requires
        pieces.len() > 0,
        pieces[0].gap == gap + rest,
    ensures
        document(pieces) == gap + document(with_gap(pieces, rest)),
        collected(pieces) == collected(with_gap(pieces, rest)),
    decreases pieces.len(),
{
    let other = with_gap(pieces, rest);
    if pieces.len() == 1 {
        assert(pieces.drop_last() =~= Seq::<Piece>::empty());
        assert(other.drop_last() =~= Seq::<Piece>::empty());
        reveal_with_fuel(document, 2);
        reveal_with_fuel(collected, 2);
        assert(tags_of(other.last()) == tags_of(pieces.last()));
        assert(document(other) =~= rest + tags_of(pieces.last()));
        assert(document(pieces) =~= gap + rest + tags_of(pieces.last()));
        assert(document(pieces) =~= gap + document(other));
    } else {
        gap_of_first(pieces.drop_last(), gap, rest);
        assert(other.drop_last() =~= with_gap(pieces.drop_last(), rest));
        assert(document(pieces) =~= gap + document(other));
    }
}

proof fn document_ends(pieces: Seq<Piece>)
    requires
        pieces.len() > 0,
    ensures
        document(pieces).len() > 0,
        document(pieces).last() == '>',
{
    assert(tags_of(pieces.last()).last() == '>');
    assert(document(pieces).last() == tags_of(pieces.last()).last());
}

proof fn document_begins(pieces: Seq<Piece>)
    requires
        pieces.len() > 0,
        pieces[0].gap.len() > 0 ==> !is_white(pieces[0].gap[0]),
    ensures
        document(pieces).len() > 0,
        !is_white(document(pieces)[0]),
{
    let p = pieces[0];
    let piece = p.gap + tags_of(p);
    document_starts(pieces, 0);
    part_chars(document(pieces), piece, 0);
    assert(pieces.take(0) =~= Seq::<Piece>::empty());
    assert(tags_of(p)[0] == '<');
    assert(piece[0] == (if p.gap.len() > 0 {
        p.gap[0]
    } else {
        '<'
    }));
    assert(document(pieces)[0int + 0] == piece[0]);
}

/// A document is read as what its elements say, however it is laid out: whatever text
/// without a tag stands before, between and behind the elements, and whatever
/// attributes they have.
pub proof fn document_is_read(pieces: Seq<Piece>, tail: Seq<char>)
    requires
        are_written(pieces),
        has_no_tag(tail),
    ensures
        element(document(pieces) + tail) matches Json::Object(m) && says_all(m, pieces),
{
    let first = pieces[0];
    let white = trim_start_part(first.gap);
    let gap = trim_start(first.gap);
    let slim = with_gap(pieces, gap);
    let end = trim_end(tail);
    let behind = trim_end_part(tail);
    trim_end_last(tail);
    gap_of_first(pieces, white, gap);
    assert(is_written(first));
    assert forall|i: int| 0 <= i < gap.len() implies #[trigger] gap[i] != '<' by {
        assert(first.gap[white.len() + i] == gap[i]);
    }
    assert forall|i: int| 0 <= i < slim.len() implies is_written(#[trigger] slim[i]) by {
        assert(is_written(pieces[i]));
    }
    assert forall|i: int| 0 <= i < end.len() implies #[trigger] end[i] != '<' by {
        assert(tail[i] == end[i]);
    }
    let s = document(slim) + end;
    trim_start_head(first.gap);
    document_begins(slim);
    document_ends(slim);
    assert(document(pieces) + tail =~= white + s + behind);
    assert(s[0] == document(slim)[0]);
    assert(s.last() == (if end.len() > 0 {
        end.last()
    } else {
        document(slim).last()
    }));
    trim_keeps(s);
    trim_ignores_white_around(white, s, behind);
    trimmed_document_is_read(slim, end);
    collected_says_all(pieces);
    let m = collected(pieces);
    last_has_meaning(pieces);
    assert(m.contains_key(pieces.last().name));
}

proof fn last_has_meaning(pieces: Seq<Piece>)
    requires
        pieces.len() > 0,
    ensures
        meanings_under(pieces, pieces.last().name).len() > 0,
{
}

/// Two elements of different names are the two fields of an object, whatever text without
/// a tag stands between them.
pub proof fn gap_between_elements_makes_no_difference(
    a: Seq<char>,
    first: Seq<char>,
    gap: Seq<char>,
    b: Seq<char>,
    second: Seq<char>,
)
    requires
        a != b,
        is_name(a),
        is_name(b),
        is_inside(first, a),
        is_inside(second, b),
        has_no_tag(gap),
    ensures
        element(written(a, Seq::empty(), first) + gap + written(b, Seq::empty(), second))
            == Json::Object(map![a => element(first), b => element(second)]),
{
    let none = Seq::<char>::empty();
    let x = written(a, none, first);
    let y = written(b, none, second);
    let s = x + gap + y;
    let pos = x.len() as int;
    let at = pos + gap.len();
    assert(x[0] == '<' && y.last() == '>');
    assert(s[0] == x[0] && s.last() == y.last());
    trim_keeps(s);
    assert(s.subrange(0, pos) =~= x);
    assert(s.subrange(at, at + y.len()) =~= y);
    element_becomes_child(s, 0, MAX_TAGS as nat, Map::empty(), a, none, first);
    let m1 = with_child(Map::empty(), a, element(first));
    assert forall|j: int| pos <= j < at implies #[trigger] s[j] != '<' by {
        assert(s[j] == gap[j - pos]);
    }
    text_between_is_passed(s, pos, at, (MAX_TAGS - 1) as nat, m1);
    element_becomes_child(s, at, (MAX_TAGS - 1) as nat, m1, b, none, second);
    let m2 = with_child(m1, b, element(second));
    nothing_behind(s, (MAX_TAGS - 2) as nat, m2);
    assert(m2 =~= map![a => element(first), b => element(second)]);
    assert(m2.contains_key(a));
}

// ---------------------------------------------------------------------------
// Answers
// ---------------------------------------------------------------------------
/// Of an answer the part between the first `<response>` and the next `</response>` is
/// read, whatever stands around it, and otherwise the whole.
pub proof fn part_between_is_read(before: Seq<char>, inner: Seq<char>, behind: Seq<char>)
    requires
        !contains_text(before, "<response>"@),
        !contains_text(inner, "</response>"@),
    ensures
        response_part(before + "<response>"@ + inner + "</response>"@ + behind) == inner,
        response_part(before + "<response>"@ + inner) == before + "<response>"@ + inner,
        response_part(before) == before,
{
    reveal_strlit("<response>");
    reveal_strlit("</response>");
    let start = "<response>"@;
    let end = "</response>"@;
    let s = before + start + inner + end + behind;
    let part = before + start + inner;
    let at = before.len() as int;
    found_behind(before, start, inner);
    found_behind(before, start, inner + end + behind);
    assert(s =~= before + start + (inner + end + behind));
    find_from_is_first(s, start, 0);
    find_from_is_first(inner, end, 0);
    assert(s.subrange(at + 10, at + 10 + inner.len()) =~= inner);
    assert(s.subrange(at + 10 + inner.len(), at + 10 + inner.len() + 11) =~= end);
    assert forall|i: int| !occurs_at(inner, end, i) by {
        if occurs_at(inner, end, i) {
            assert(0 <= i);
        }
    }
    response_wrapper_is_dropped(s, at, inner);
    assert forall|j: int| at + 10 <= j implies !occurs_at(part, end, j) by {
        if occurs_at(part, end, j) {
            assert(inner.subrange(j - at - 10, j - at + 1) =~= part.subrange(j, j + 11));
            assert(occurs_at(inner, end, j - at - 10));
        }
    }
    find_from_none(part, end, at + 10);
}

proof fn children_are_finite(s: Seq<char>, pos: int, tags: nat, found: Map<Seq<char>, Json>)
    requires
        found.dom().finite(),
    ensures
        children(s, pos, tags, found).dom().finite(),
    decreases tags,
{
    let open = find_from(s, seq!['<'], pos);
    if open is Some && tags > 0 && 0 <= open->Some_0 {
        let o = open->Some_0;
        let end = find_from(s, seq!['>'], o + 1);
        if end is Some && o < end->Some_0 < s.len() {
            let e = end->Some_0;
            let tag = s.subrange(o + 1, e);
            let name = tag_name(tag);
            let rest = (tags - 1) as nat;
            if is_skipped(tag) {
                children_are_finite(s, behind_skipped(s, o, e), rest, found);
            } else if is_self_closing(tag) {
                children_are_finite(
                    s,
                    e + 1,
                    rest,
                    with_child(found, name, Json::String(Seq::empty())),
                );
            } else {
                let close = close_of(s, name, e + 1, 1, MAX_NESTING_ITERATIONS as nat);
                if close is Some && e < close->Some_0 <= s.len() {
                    let c = close->Some_0;
                    let child = element(s.subrange(e + 1, c));
                    children_are_finite(
                        s,
                        c + closing(name).len(),
                        rest,
                        with_child(found, name, child),
                    );
                } else {
                    children_are_finite(s, e + 1, rest, found);
                }
            }
        }
    }
}

/// Every answer is read: as what its part says. Only where that is an object whose one
/// field is the object `response`, the answer is that object.
pub proof fn answer_is_what_its_part_says(s: Seq<char>, inner: Json)
    ensures
        answer(s) is Some,
        inner is Object && element(response_part(s)) == Json::Object(map!["response"@ => inner]) ==> answer(
            s,
        ) == Some(inner),
        answer(s) == Some(element(response_part(s))) || (exists|other: Json|
            other is Object && element(response_part(s)) == Json::Object(
                #[trigger] map!["response"@ => other],
            )),
{
    let name = "response"@;
    let v = element(response_part(s));
    if v is Object {
        let m = v->Object_0;
        assert(!(m =~= Map::<Seq<char>, Json>::empty()));
        if inner is Object && m == map![name => inner] {
            assert(m.dom() =~= set![name]);
            assert(m[name] == inner);
        }
        if m.dom().len() == 1 && m.contains_key(name) && m[name] is Object {
            children_are_finite(trim(response_part(s)), 0, MAX_TAGS as nat, Map::empty());
            vstd::set_lib::lemma_set_empty_equivalency_len(m.dom().remove(name));
            assert(m.dom() =~= set![name]);
            assert(m =~= map![name => m[name]]);
        }
    }
}

/// An answer of plain text is that text, without the whitespace around it.
pub proof fn plain_text_is_the_answer(s: Seq<char>)
    requires
        has_no_tag(s),
    ensures
        answer(s) == Some(Json::String(trim(s))),
{
    reveal_strlit("<response>");
    let start = "<response>"@;
    find_from_is_first(s, start, 0);
    if contains_text(s, start) {
        let i = find_from(s, start, 0)->Some_0;
        part_chars(s, start, i);
        assert(s[i + 0] == start[0]);
    }
    text_means_itself(s);
}

/// An answer is read as what its elements say, however it is laid out: whatever stands
/// before `<response>` and behind `</response>`, and whatever text without a tag before,
/// between and behind the elements.
pub proof fn laid_out_answer_is_read(before: Seq<char>, pieces: Seq<Piece>, tail: Seq<char>, behind: Seq<char>)
    requires
        !contains_text(before, "<response>"@),
        are_written(pieces),
        has_no_tag(tail),
        !contains_text(document(pieces) + tail, "</response>"@),
        forall|i: int| 0 <= i < pieces.len() ==> (#[trigger] pieces[i]).name != "response"@,
    ensures
        answer(before + "<response>"@ + (document(pieces) + tail) + "</response>"@ + behind) matches Some(
            Json::Object(m),
        ) && says_all(m, pieces),
{
    let s = before + "<response>"@ + (document(pieces) + tail) + "</response>"@ + behind;
    part_between_is_read(before, document(pieces) + tail, behind);
    document_is_read(pieces, tail);
    no_meaning_without_name(pieces, "response"@);
    let m = element(document(pieces) + tail)->Object_0;
    assert(!m.contains_key("response"@));
    assert(!(m =~= Map::<Seq<char>, Json>::empty()));
}

proof fn no_meaning_without_name(pieces: Seq<Piece>, name: Seq<char>)
    requires
        forall|i: int| 0 <= i < pieces.len() ==> (#[trigger] pieces[i]).name != name,
    ensures
        meanings_under(pieces, name).len() == 0,
    decreases pieces.len(),
{
    if pieces.len() > 0 {
        assert(pieces[pieces.len() - 1].name != name);
        assert forall|i: int| 0 <= i < pieces.len() - 1 implies (#[trigger] pieces.drop_last()[i]).name
            != name by {
            assert(pieces[i].name != name);
        }
        no_meaning_without_name(pieces.drop_last(), name);
    }
}

/// What an element says under a name that only it has: what stands inside it.
pub proof fn single_element_is_field(pieces: Seq<Piece>, m: Map<Seq<char>, Json>, k: int)
    requires
        0 <= k < pieces.len(),
        says_all(m, pieces),
        forall|i: int| 0 <= i < pieces.len() && i != k ==> (#[trigger] pieces[i]).name != pieces[k].name,
    ensures
        m.contains_key(pieces[k].name),
        pieces[k].inner matches Some(i) ==> m[pieces[k].name] == element(i),
        pieces[k].inner is None ==> m[pieces[k].name] == Json::String(Seq::empty()),
{
    only_meaning(pieces, k);
    let name = pieces[k].name;
    assert(m.contains_key(name) <==> meanings_under(pieces, name).len() > 0);
}

proof fn only_meaning(pieces: Seq<Piece>, k: int)
    requires
        0 <= k < pieces.len(),
        forall|i: int| 0 <= i < pieces.len() && i != k ==> (#[trigger] pieces[i]).name != pieces[k].name,
    ensures
        meanings_under(pieces, pieces[k].name) == seq![meaning(pieces[k])],
    decreases pieces.len(),
{
    let rest = pieces.drop_last();
    let name = pieces[k].name;
    if k == pieces.len() - 1 {
        assert forall|i: int| 0 <= i < rest.len() implies (#[trigger] rest[i]).name != name by {
            assert(pieces[i].name != name);
        }
        no_meaning_without_name(rest, name);
        assert(meanings_under(rest, name) =~= Seq::<Json>::empty());
        assert(meanings_under(pieces, name) =~= seq![meaning(pieces[k])]);
    } else {
        assert(rest[k] == pieces[k]);
        assert forall|i: int| 0 <= i < rest.len() && i != k implies (#[trigger] rest[i]).name
            != rest[k].name by {
            assert(pieces[i].name != name);
        }
        assert(pieces[pieces.len() - 1].name != name);
        only_meaning(rest, k);
    }
}

}
