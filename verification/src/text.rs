//! Texts as sequences of characters: searching and trimming.
use vstd::prelude::*;
use vstd::slice::slice_subrange;

verus! {

broadcast use vstd::seq_lib::group_seq_properties;

/// `String::push` appends one character.
pub assume_specification[ std::string::String::push ](text: &mut std::string::String, c: char)
    ensures
        final(text)@ == old(text)@.push(c),
;

// ---------------------------------------------------------------------------
// Characters and strings
// ---------------------------------------------------------------------------
/// The characters of a text.
pub fn chars_of(text: &str) -> (r: Vec<char>)
    ensures
        r@ == text@,
{
    let mut r: Vec<char> = Vec::new();
    for c in it: text.chars()
        invariant
            r@ == text@.take(it.index()),
            it.seq() == text@,
    {
        r.push(c);
        assert(text@.take(it.index() + 1) == text@.take(it.index()).push(c));
    }
    assert(text@.take(text@.len() as int) == text@);
    r
}

/// The text made of the given characters.
pub fn string_of(chars: &[char]) -> (r: String)
    ensures
        r@ == chars@,
{
    let mut r = String::new();
    for i in 0..chars.len()
        invariant
            r@ == chars@.take(i as int),
    {
        r.push(chars[i]);
        assert(chars@.take(i + 1) == chars@.take(i as int).push(chars@[i as int]));
    }
    assert(chars@.take(chars@.len() as int) == chars@);
    r
}

/// Whether two texts are the same.
pub fn same_text(a: &str, b: &str) -> (r: bool)
    ensures
        r == (a@ == b@),
{
    a.to_owned() == b.to_owned()
}

// ---------------------------------------------------------------------------
// Searching
// ---------------------------------------------------------------------------
/// `pat` stands in `s` at position `i`.
pub open spec fn occurs_at(s: Seq<char>, pat: Seq<char>, i: int) -> bool {
    0 <= i && i + pat.len() <= s.len() && s.subrange(i, i + pat.len()) == pat
}

/// The first position at or after `from` where `pat` stands in `s`.
pub open spec fn find_from(s: Seq<char>, pat: Seq<char>, from: int) -> Option<int>
    decreases s.len() - from + 1,
{
    if from < 0 || from + pat.len() > s.len() {
        None
    } else if occurs_at(s, pat, from) {
        Some(from)
    } else {
        find_from(s, pat, from + 1)
    }
}

/// Whether `pat` stands anywhere in `s`.
pub open spec fn contains_text(s: Seq<char>, pat: Seq<char>) -> bool {
    find_from(s, pat, 0) is Some
}

/// What `find_from` finds is an occurrence, and no earlier one was passed over.
pub proof fn find_from_is_first(s: Seq<char>, pat: Seq<char>, from: int)
    requires
        0 <= from,
    ensures
        find_from(s, pat, from) matches Some(i) ==> from <= i && occurs_at(s, pat, i) && (forall|j: int|
            from <= j < i ==> !occurs_at(s, pat, j)),
        find_from(s, pat, from) is None ==> (forall|j: int| from <= j ==> !occurs_at(s, pat, j)),
    decreases s.len() - from + 1,
{
    if from + pat.len() <= s.len() && !occurs_at(s, pat, from) {
        find_from_is_first(s, pat, from + 1);
    }
}

/// An occurrence with none before it is the one that `find_from` finds.
pub proof fn find_from_at(s: Seq<char>, pat: Seq<char>, from: int, i: int)
    requires
        0 <= from <= i,
        occurs_at(s, pat, i),
        forall|j: int| from <= j < i ==> !occurs_at(s, pat, j),
    ensures
        find_from(s, pat, from) == Some(i),
    decreases i - from,
{
    if from < i {
        assert(!occurs_at(s, pat, from));
        find_from_at(s, pat, from + 1, i);
    }
}

/// Where there is no occurrence, `find_from` finds none.
pub proof fn find_from_none(s: Seq<char>, pat: Seq<char>, from: int)
    requires
        forall|j: int| from <= j ==> !occurs_at(s, pat, j),
    ensures
        find_from(s, pat, from) is None,
    decreases s.len() - from + 1,
{
    if 0 <= from && from + pat.len() <= s.len() {
        assert(!occurs_at(s, pat, from));
        find_from_none(s, pat, from + 1);
    }
}

/// Whether `pat` stands in `s` at position `i`.
pub fn matches_at(s: &[char], pat: &[char], i: usize) -> (r: bool)
    requires
        i + pat@.len() <= s@.len(),
    ensures
        r == occurs_at(s@, pat@, i as int),
{
    let total: usize = s.len();
    for k in 0..pat.len()
        invariant
            total == s@.len(),
            i + pat@.len() <= total,
            forall|j: int| 0 <= j < k ==> s@[i + j] == pat@[j],
    {
        if s[i + k] != pat[k] {
            assert(s@.subrange(i as int, i + pat@.len())[k as int] != pat@[k as int]);
            return false;
        }
    }
    assert(s@.subrange(i as int, i + pat@.len()) =~= pat@);
    true
}

/// The first position at or after `from` where `pat` stands in `s`.
pub fn find_in(s: &[char], pat: &[char], from: usize) -> (r: Option<usize>)
    ensures
        match r {
            Some(i) => find_from(s@, pat@, from as int) == Some(i as int),
            None => find_from(s@, pat@, from as int) is None,
        },
{
    if pat.len() > s.len() {
        return None;
    }
    let last: usize = s.len() - pat.len();
    let mut i: usize = from;
    while i <= last
        invariant
            last + pat@.len() == s@.len(),
            from <= i,
            find_from(s@, pat@, from as int) == find_from(s@, pat@, i as int),
        decreases last + 1 - i,
    {
        if matches_at(s, pat, i) {
            return Some(i);
        }
        if i == last {
            assert(find_from(s@, pat@, i + 1) is None);
            return None;
        }
        i += 1;
    }
    None
}

// ---------------------------------------------------------------------------
// Whitespace
// ---------------------------------------------------------------------------
/// The characters with the Unicode property White_Space.
pub open spec fn is_white(c: char) -> bool {
    let n = c as u32;
    ||| 0x9 <= n <= 0xd
    ||| n == 0x20
    ||| n == 0x85
    ||| n == 0xa0
    ||| n == 0x1680
    ||| 0x2000 <= n <= 0x200a
    ||| n == 0x2028
    ||| n == 0x2029
    ||| n == 0x202f
    ||| n == 0x205f
    ||| n == 0x3000
}

/// Whether a character has the Unicode property White_Space.
pub fn is_white_space(c: char) -> (r: bool)
    ensures
        r == is_white(c),
{
    let n: u32 = c as u32;
    (0x9 <= n && n <= 0xd) || n == 0x20 || n == 0x85 || n == 0xa0 || n == 0x1680 || (0x2000 <= n
        && n <= 0x200a) || n == 0x2028 || n == 0x2029 || n == 0x202f || n == 0x205f || n == 0x3000
}

/// `s` without the whitespace at its start.
pub open spec fn trim_start(s: Seq<char>) -> Seq<char>
    decreases s.len(),
{
    if s.len() > 0 && is_white(s[0]) {
        trim_start(s.drop_first())
    } else {
        s
    }
}

/// `s` without the whitespace at its end.
pub open spec fn trim_end(s: Seq<char>) -> Seq<char>
    decreases s.len(),
{
    if s.len() > 0 && is_white(s.last()) {
        trim_end(s.drop_last())
    } else {
        s
    }
}

/// `s` without the whitespace at its two ends.
pub open spec fn trim(s: Seq<char>) -> Seq<char> {
    trim_end(trim_start(s))
}

/// The characters of `s` before the first whitespace.
pub open spec fn until_white(s: Seq<char>) -> Seq<char>
    decreases s.len(),
{
    if s.len() == 0 || is_white(s[0]) {
        Seq::empty()
    } else {
        seq![s[0]] + until_white(s.drop_first())
    }
}

/// `s` without the trailing characters equal to `c`.
pub open spec fn strip_end(s: Seq<char>, c: char) -> Seq<char>
    decreases s.len(),
{
    if s.len() > 0 && s.last() == c {
        strip_end(s.drop_last(), c)
    } else {
        s
    }
}

/// Trimming never lengthens a text.
pub proof fn trim_len(s: Seq<char>)
    ensures
        trim(s).len() <= s.len(),
{
    trim_start_len(s);
    trim_end_len(trim_start(s));
}

proof fn trim_start_len(s: Seq<char>)
    ensures
        trim_start(s).len() <= s.len(),
    decreases s.len(),
{
    if s.len() > 0 && is_white(s[0]) {
        trim_start_len(s.drop_first());
    }
}

proof fn trim_end_len(s: Seq<char>)
    ensures
        trim_end(s).len() <= s.len(),
    decreases s.len(),
{
    if s.len() > 0 && is_white(s.last()) {
        trim_end_len(s.drop_last());
    }
}

/// A text that starts and ends with something other than whitespace is not
/// changed by trimming.
pub proof fn trim_keeps(s: Seq<char>)
    requires
        s.len() > 0 ==> !is_white(s[0]) && !is_white(s.last()),
    ensures
        trim(s) == s,
{
}

/// What is left after trimming holds no whitespace at its ends.
pub proof fn trim_ends(s: Seq<char>)
    ensures
        trim(s).len() > 0 ==> !is_white(trim(s)[0]) && !is_white(trim(s).last()),
{
    trim_start_head(s);
    trim_end_head(trim_start(s));
    trim_end_last(trim_start(s));
}

pub(crate) proof fn trim_start_head(s: Seq<char>)
    ensures
        trim_start(s).len() > 0 ==> !is_white(trim_start(s)[0]),
    decreases s.len(),
{
    if s.len() > 0 && is_white(s[0]) {
        trim_start_head(s.drop_first());
    }
}

proof fn trim_end_head(s: Seq<char>)
    ensures
        trim_end(s).len() > 0 ==> trim_end(s)[0] == s[0],
    decreases s.len(),
{
    if s.len() > 0 && is_white(s.last()) {
        trim_end_head(s.drop_last());
    }
}

pub(crate) proof fn trim_end_last(s: Seq<char>)
    ensures
        trim_end(s).len() > 0 ==> !is_white(trim_end(s).last()),
    decreases s.len(),
{
    if s.len() > 0 && is_white(s.last()) {
        trim_end_last(s.drop_last());
    }
}

/// Trimming twice is trimming once.
pub proof fn trim_twice(s: Seq<char>)
    ensures
        trim(trim(s)) == trim(s),
{
    trim_ends(s);
    trim_keeps(trim(s));
}

/// Every character of a trimmed text is one of the text.
pub proof fn trim_within(s: Seq<char>)
    ensures
        exists|a: int, b: int| 0 <= a <= b <= s.len() && trim(s) == #[trigger] s.subrange(a, b),
{
    let a = trim_start_cut(s);
    let t = trim_start(s);
    let n = trim_end_cut(t);
    assert(trim(s) =~= s.subrange(a, a + n));
}

proof fn trim_start_cut(s: Seq<char>) -> (a: int)
    ensures
        0 <= a <= s.len(),
        trim_start(s) == s.subrange(a, s.len() as int),
    decreases s.len(),
{
    if s.len() > 0 && is_white(s[0]) {
        let b = trim_start_cut(s.drop_first());
        assert(s.drop_first().subrange(b, s.len() - 1) =~= s.subrange(b + 1, s.len() as int));
        b + 1
    } else {
        assert(s.subrange(0, s.len() as int) =~= s);
        0
    }
}

proof fn trim_end_cut(s: Seq<char>) -> (n: int)
    ensures
        0 <= n <= s.len(),
        trim_end(s) == s.subrange(0, n),
    decreases s.len(),
{
    if s.len() > 0 && is_white(s.last()) {
        let n = trim_end_cut(s.drop_last());
        assert(s.drop_last().subrange(0, n) =~= s.subrange(0, n));
        n
    } else {
        assert(s.subrange(0, s.len() as int) =~= s);
        s.len() as int
    }
}

/// `s` without the whitespace at its start.
pub fn trim_start_slice(s: &[char]) -> (r: &[char])
    ensures
        r@ == trim_start(s@),
{
    let mut i: usize = 0;
    assert(s@.skip(0) == s@);
    while i < s.len() && is_white_space(s[i])
        invariant
            i <= s@.len(),
            trim_start(s@) == trim_start(s@.skip(i as int)),
        decreases s@.len() - i,
    {
        assert(s@.skip(i as int).drop_first() == s@.skip(i + 1));
        i += 1;
    }
    slice_subrange(s, i, s.len())
}

/// `s` without the whitespace at its two ends.
pub fn trim_slice(s: &[char]) -> (r: &[char])
    ensures
        r@ == trim(s@),
{
    let t = trim_start_slice(s);
    let mut n: usize = t.len();
    assert(t@.take(n as int) == t@);
    while n > 0 && is_white_space(t[n - 1])
        invariant
            n <= t@.len(),
            trim_end(t@) == trim_end(t@.take(n as int)),
        decreases n,
    {
        assert(t@.take(n as int).drop_last() == t@.take(n - 1));
        n -= 1;
    }
    slice_subrange(t, 0, n)
}

/// A text without the whitespace at its two ends.
pub fn trimmed(text: &str) -> (r: String)
    ensures
        r@ == trim(text@),
{
    let chars = chars_of(text);
    string_of(trim_slice(chars.as_slice()))
}

/// The characters of `s` before the first whitespace.
pub fn until_white_slice(s: &[char]) -> (r: &[char])
    ensures
        r@ == until_white(s@),
{
    let mut i: usize = 0;
    assert(s@.skip(0) == s@);
    assert(s@.take(0) + until_white(s@.skip(0)) =~= until_white(s@));
    while i < s.len() && !is_white_space(s[i])
        invariant
            i <= s@.len(),
            until_white(s@) == s@.take(i as int) + until_white(s@.skip(i as int)),
        decreases s@.len() - i,
    {
        assert(s@.skip(i as int).drop_first() == s@.skip(i + 1));
        assert(s@.take(i as int) + (seq![s@[i as int]] + until_white(s@.skip(i + 1))) =~= s@.take(
            i + 1,
        ) + until_white(s@.skip(i + 1)));
        i += 1;
    }
    assert(s@.take(i as int) + Seq::<char>::empty() =~= s@.take(i as int));
    slice_subrange(s, 0, i)
}

/// `s` without the trailing characters equal to `c`.
pub fn strip_end_slice(s: &[char], c: char) -> (r: &[char])
    ensures
        r@ == strip_end(s@, c),
{
    let mut n: usize = s.len();
    assert(s@.take(n as int) == s@);
    while n > 0 && s[n - 1] == c
        invariant
            n <= s@.len(),
            strip_end(s@, c) == strip_end(s@.take(n as int), c),
        decreases n,
    {
        assert(s@.take(n as int).drop_last() == s@.take(n - 1));
        n -= 1;
    }
    slice_subrange(s, 0, n)
}

// ---------------------------------------------------------------------------
// Laws
// ---------------------------------------------------------------------------
/// A text stands between any two others, and where it stands the three make up the
/// whole.
pub proof fn occurs_between(a: Seq<char>, pat: Seq<char>, b: Seq<char>, s: Seq<char>, i: int)
    ensures
        occurs_at(a + pat + b, pat, a.len() as int),
        occurs_at(s, pat, i) ==> 0 <= i <= s.len() && s == s.take(i) + pat + s.skip(i + pat.len()),
{
    let whole = a + pat + b;
    assert(whole.subrange(a.len() as int, (a.len() + pat.len()) as int) =~= pat);
    if occurs_at(s, pat, i) {
        assert(s =~= s.take(i) + s.subrange(i, i + pat.len()) + s.skip(i + pat.len()));
    }
}

/// A text is contained in another exactly where something stands before it and
/// something behind.
pub proof fn contained_is_between(s: Seq<char>, pat: Seq<char>)
    ensures
        contains_text(s, pat) <==> exists|a: Seq<char>, b: Seq<char>| s == #[trigger] (a + pat + b),
{
    find_from_is_first(s, pat, 0);
    if contains_text(s, pat) {
        let i = find_from(s, pat, 0)->Some_0;
        occurs_between(Seq::empty(), pat, Seq::empty(), s, i);
        assert(s == s.take(i) + pat + s.skip(i + pat.len()));
    }
    if exists|a: Seq<char>, b: Seq<char>| s == #[trigger] (a + pat + b) {
        let (a, b) = choose|a: Seq<char>, b: Seq<char>| s == #[trigger] (a + pat + b);
        occurs_between(a, pat, b, s, 0);
        assert(occurs_at(s, pat, a.len() as int));
    }
}

/// A pattern whose first character comes in it only once is first found behind a text
/// that does not hold it.
pub proof fn found_behind(a: Seq<char>, pat: Seq<char>, b: Seq<char>)
    requires
        pat.len() > 0,
        forall|i: int| 0 < i < pat.len() ==> #[trigger] pat[i] != pat[0],
        !contains_text(a, pat),
    ensures
        find_from(a + pat + b, pat, 0) == Some(a.len() as int),
{
    let s = a + pat + b;
    let n = a.len() as int;
    occurs_between(a, pat, b, s, n);
    find_from_is_first(a, pat, 0);
    assert forall|j: int| 0 <= j < n implies !occurs_at(s, pat, j) by {
        if occurs_at(s, pat, j) {
            let part = s.subrange(j, j + pat.len());
            if j + pat.len() > n {
                assert(part[n - j] == s[n]);
                assert(s[n] == pat[0]);
                assert(pat[n - j] != pat[0]);
            } else {
                assert(a.subrange(j, j + pat.len()) =~= part);
                assert(occurs_at(a, pat, j));
            }
        }
    }
    find_from_at(s, pat, 0, n);
}

/// Of the ASCII characters the blank, the tab and those that end a line or a page are
/// whitespace; of the others those that Unicode names.
pub proof fn white_characters(c: char)
    ensures
        is_white(c) <==> c == ' ' || c == '\t' || c == '\n' || c == '\x0b' || c == '\x0c' || c == '\r'
            || c == '\u{85}' || c == '\u{a0}' || c == '\u{1680}' || ('\u{2000}' <= c && c <= '\u{200a}')
            || c == '\u{2028}' || c == '\u{2029}' || c == '\u{202f}' || c == '\u{205f}' || c
            == '\u{3000}',
{
}

/// A text of nothing but whitespace.
pub open spec fn is_blank(s: Seq<char>) -> bool {
    forall|i: int| 0 <= i < s.len() ==> is_white(#[trigger] s[i])
}

/// Whitespace at the start is taken off, and no more.
pub proof fn trim_start_of(before: Seq<char>, rest: Seq<char>)
    requires
        is_blank(before),
        rest.len() > 0 ==> !is_white(rest[0]),
    ensures
        trim_start(before + rest) == rest,
    decreases before.len(),
{
    let s = before + rest;
    if before.len() == 0 {
        assert(s =~= rest);
    } else {
        assert(s[0] == before[0]);
        assert(s.drop_first() =~= before.drop_first() + rest);
        trim_start_of(before.drop_first(), rest);
    }
}

/// Whitespace at the end is taken off, and no more.
pub proof fn trim_end_of(rest: Seq<char>, behind: Seq<char>)
    requires
        is_blank(behind),
        rest.len() > 0 ==> !is_white(rest.last()),
    ensures
        trim_end(rest + behind) == rest,
    decreases behind.len(),
{
    let s = rest + behind;
    if behind.len() == 0 {
        assert(s =~= rest);
    } else {
        assert(s.last() == behind.last());
        assert(s.drop_last() =~= rest + behind.drop_last());
        trim_end_of(rest, behind.drop_last());
    }
}

/// Trimming leaves what stands between the whitespace at the two ends, all of it and
/// nothing else.
pub proof fn trim_leaves_the_middle(before: Seq<char>, middle: Seq<char>, behind: Seq<char>)
    requires
        is_blank(before),
        is_blank(behind),
        middle.len() > 0 ==> !is_white(middle[0]) && !is_white(middle.last()),
    ensures
        trim(before + middle + behind) == middle,
{
    let none = Seq::<char>::empty();
    if middle.len() == 0 {
        let all = before + middle + behind;
        assert(is_blank(all));
        trim_start_of(all, none);
        assert(all + none =~= all);
        assert(middle =~= none);
    } else {
        assert(before + middle + behind =~= before + (middle + behind));
        trim_start_of(before, middle + behind);
        trim_end_of(middle, behind);
    }
}

/// What trimming takes off at the two ends.
pub(crate) proof fn trim_parts(s: Seq<char>) -> (ends: (Seq<char>, Seq<char>))
    ensures
        is_blank(ends.0),
        is_blank(ends.1),
        s == ends.0 + trim(s) + ends.1,
{
    let a = trim_start_part(s);
    let b = trim_end_part(trim_start(s));
    assert(a + (trim(s) + b) =~= a + trim(s) + b);
    (a, b)
}

pub(crate) proof fn trim_start_part(s: Seq<char>) -> (a: Seq<char>)
    ensures
        is_blank(a),
        s == a + trim_start(s),
    decreases s.len(),
{
    if s.len() > 0 && is_white(s[0]) {
        let rest = trim_start_part(s.drop_first());
        let a = seq![s[0]] + rest;
        assert(s =~= seq![s[0]] + s.drop_first());
        assert(s =~= a + trim_start(s));
        assert forall|i: int| 0 <= i < a.len() implies is_white(#[trigger] a[i]) by {
            if i > 0 {
                assert(a[i] == rest[i - 1]);
            }
        }
        a
    } else {
        assert(s =~= Seq::<char>::empty() + s);
        Seq::empty()
    }
}

pub(crate) proof fn trim_end_part(s: Seq<char>) -> (b: Seq<char>)
    ensures
        is_blank(b),
        s == trim_end(s) + b,
    decreases s.len(),
{
    if s.len() > 0 && is_white(s.last()) {
        let rest = trim_end_part(s.drop_last());
        let b = rest.push(s.last());
        assert(s =~= s.drop_last().push(s.last()));
        assert(s =~= trim_end(s) + b);
        b
    } else {
        assert(s =~= s + Seq::<char>::empty());
        Seq::empty()
    }
}

/// More whitespace around a text makes no difference to trimming it.
pub proof fn trim_ignores_white_around(before: Seq<char>, s: Seq<char>, behind: Seq<char>)
    requires
        is_blank(before),
        is_blank(behind),
    ensures
        trim(before + s + behind) == trim(s),
{
    let (a, b) = trim_parts(s);
    trim_ends(s);
    assert(before + s + behind =~= (before + a) + trim(s) + (b + behind));
    assert forall|i: int| 0 <= i < (before + a).len() implies is_white(#[trigger] (before + a)[i]) by {
        if i >= before.len() {
            assert((before + a)[i] == a[i - before.len()]);
        } else {
            assert((before + a)[i] == before[i]);
        }
    }
    assert forall|i: int| 0 <= i < (b + behind).len() implies is_white(#[trigger] (b + behind)[i]) by {
        if i >= b.len() {
            assert((b + behind)[i] == behind[i - b.len()]);
        } else {
            assert((b + behind)[i] == b[i]);
        }
    }
    trim_leaves_the_middle(before + a, trim(s), b + behind);
}

/// Nothing is left of a text exactly where it is all whitespace.
pub proof fn blank_is_trimmed_away(s: Seq<char>)
    ensures
        trim(s).len() == 0 <==> is_blank(s),
{
    let none = Seq::<char>::empty();
    let (a, b) = trim_parts(s);
    if is_blank(s) {
        trim_leaves_the_middle(s, none, none);
        assert(s + none + none =~= s);
    }
    if trim(s).len() == 0 {
        assert(s =~= a + b);
        assert forall|i: int| 0 <= i < s.len() implies is_white(#[trigger] s[i]) by {
            if i < a.len() {
                assert(s[i] == a[i]);
            } else {
                assert(s[i] == b[i - a.len()]);
            }
        }
    }
}

/// The first word of a text is all that stands before its first whitespace.
pub proof fn word_ends_at_white(word: Seq<char>, rest: Seq<char>)
    requires
        forall|i: int| 0 <= i < word.len() ==> !is_white(#[trigger] word[i]),
        rest.len() > 0 ==> is_white(rest[0]),
    ensures
        until_white(word + rest) == word,
    decreases word.len(),
{
    let s = word + rest;
    if word.len() == 0 {
        assert(s =~= rest);
    } else {
        assert(s.drop_first() =~= word.drop_first() + rest);
        word_ends_at_white(word.drop_first(), rest);
        assert(seq![word[0]] + word.drop_first() =~= word);
    }
}

/// All of a trailing character is stripped, and nothing else.
pub proof fn trailing_is_stripped(s: Seq<char>, c: char, tail: Seq<char>)
    requires
        s.len() > 0 ==> s.last() != c,
        forall|i: int| 0 <= i < tail.len() ==> #[trigger] tail[i] == c,
    ensures
        strip_end(s + tail, c) == s,
    decreases tail.len(),
{
    let all = s + tail;
    if tail.len() == 0 {
        assert(all =~= s);
    } else {
        assert(all.last() == tail[tail.len() - 1]);
        assert(all.drop_last() =~= s + tail.drop_last());
        trailing_is_stripped(s, c, tail.drop_last());
    }
}

}
