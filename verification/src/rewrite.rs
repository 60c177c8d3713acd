//! Texts made from texts: replacing, joining, cutting, and decimal numerals.
use vstd::prelude::*;
use vstd::slice::slice_subrange;
use vstd::string::*;
use vstd::utf8::*;
use crate::text::{chars_of, find_in, string_of};
use crate::text::{contains_text, find_from, find_from_at, find_from_is_first, occurs_at, occurs_between};

verus! {

broadcast use vstd::seq_lib::group_seq_properties;

// ---------------------------------------------------------------------------
// Replacing
// ---------------------------------------------------------------------------
/// `s` from `pos` on, with every occurrence of `pat`, taken from left to right
/// without overlap, replaced by `with`.
pub open spec fn replaced_from(s: Seq<char>, pat: Seq<char>, with: Seq<char>, pos: int) -> Seq<char>
    decreases s.len() - pos,
{
    match find_from(s, pat, pos) {
        Some(i) if pos <= i && i + pat.len() <= s.len() && pat.len() > 0 => s.subrange(pos, i) + with
            + replaced_from(s, pat, with, i + pat.len()),
        _ => s.skip(pos),
    }
}

/// `s` with every occurrence of the non-empty text `pat` replaced by `with`.
pub open spec fn replaced(s: Seq<char>, pat: Seq<char>, with: Seq<char>) -> Seq<char> {
    replaced_from(s, pat, with, 0)
}

/// A text with every occurrence of the non-empty text `pat` replaced by `with`.
pub fn replace_all(text: &str, pat: &str, with: &str) -> (r: String)
    requires
        pat@.len() > 0,
    ensures
        r@ == replaced(text@, pat@, with@),
{
    let s = chars_of(text);
    let p = chars_of(pat);
    let mut r = String::new();
    let total: usize = s.len();
    let mut pos: usize = 0;
    assert(r@ + replaced_from(s@, p@, with@, 0) =~= replaced_from(s@, p@, with@, 0));
    loop
        invariant
            s@ == text@,
            p@ == pat@,
            p@.len() > 0,
            total == s@.len(),
            pos <= total,
            replaced(s@, p@, with@) == r@ + replaced_from(s@, p@, with@, pos as int),
        decreases s@.len() - pos,
    {
        proof {
            find_from_is_first(s@, p@, pos as int);
        }
        match find_in(s.as_slice(), p.as_slice(), pos) {
            Some(i) => {
                let ghost before = r@;
                let between = string_of(slice_subrange(s.as_slice(), pos, i));
                r.append(between.as_str());
                r.append(with);
                assert(before + (s@.subrange(pos as int, i as int) + with@ + replaced_from(
                    s@,
                    p@,
                    with@,
                    i + p@.len(),
                )) =~= r@ + replaced_from(s@, p@, with@, i + p@.len()));
                pos = i + p.len();
            },
            None => {
                let rest = string_of(slice_subrange(s.as_slice(), pos, s.len()));
                assert(rest@ == s@.skip(pos as int));
                r.append(rest.as_str());
                return r;
            },
        }
    }
}

/// `s` without the character `c`.
pub open spec fn without_char(s: Seq<char>, c: char) -> Seq<char> {
    s.filter(|x: char| x != c)
}

/// A text without the character `c`.
pub fn remove_char(text: &str, c: char) -> (r: String)
    ensures
        r@ == without_char(text@, c),
{
    let s = chars_of(text);
    let mut r = String::new();
    reveal_with_fuel(Seq::<_>::filter, 1);
    assert(s@.take(0) =~= Seq::<char>::empty());
    for i in 0..s.len()
        invariant
            s@ == text@,
            r@ == without_char(s@.take(i as int), c),
    {
        reveal_with_fuel(Seq::<_>::filter, 1);
        assert(s@.take(i + 1).drop_last() == s@.take(i as int));
        assert(s@.take(i + 1).last() == s@[i as int]);
        if s[i] != c {
            r.push(s[i]);
        }
    }
    assert(s@.take(s@.len() as int) == s@);
    r
}

// ---------------------------------------------------------------------------
// Joining and cutting
// ---------------------------------------------------------------------------
/// The parts one after another, with `sep` between each two.
pub open spec fn joined(parts: Seq<Seq<char>>, sep: Seq<char>) -> Seq<char>
    decreases parts.len(),
{
    if parts.len() == 0 {
        Seq::empty()
    } else if parts.len() == 1 {
        parts[0]
    } else {
        joined(parts.drop_last(), sep) + sep + parts.last()
    }
}

/// The texts that a sequence of strings holds.
pub open spec fn texts(parts: Seq<String>) -> Seq<Seq<char>> {
    parts.map_values(|s: String| s@)
}

/// The parts one after another, with `sep` between each two.
pub fn join(parts: &Vec<String>, sep: &str) -> (r: String)
    ensures
        r@ == joined(texts(parts@), sep@),
{
    let mut r = String::new();
    for i in 0..parts.len()
        invariant
            r@ == joined(texts(parts@).take(i as int), sep@),
    {
        let ghost all = texts(parts@);
        assert(all.take(i + 1).drop_last() == all.take(i as int));
        assert(all.take(i + 1).last() == parts@[i as int]@);
        if i > 0 {
            r.append(sep);
        } else {
            assert(r@ + parts@[0]@ =~= parts@[0]@);
        }
        r.append(parts[i].as_str());
    }
    assert(texts(parts@).take(parts@.len() as int) == texts(parts@));
    r
}

/// The parts one after another.
pub open spec fn glued(parts: Seq<Seq<char>>) -> Seq<char>
    decreases parts.len(),
{
    if parts.len() == 0 {
        Seq::empty()
    } else {
        glued(parts.drop_last()) + parts.last()
    }
}

/// The texts that a sequence of string slices holds.
pub open spec fn slices(parts: Seq<&str>) -> Seq<Seq<char>> {
    parts.map_values(|s: &str| s@)
}

/// The parts one after another.
pub fn glue(parts: &Vec<&str>) -> (r: String)
    ensures
        r@ == glued(slices(parts@)),
{
    let mut r = String::new();
    for i in 0..parts.len()
        invariant
            r@ == glued(slices(parts@).take(i as int)),
    {
        let ghost all = slices(parts@);
        assert(all.take(i + 1).drop_last() == all.take(i as int));
        assert(all.take(i + 1).last() == parts@[i as int]@);
        r.append(parts[i]);
    }
    assert(slices(parts@).take(parts@.len() as int) == slices(parts@));
    r
}

/// At most the first `n` characters.
pub open spec fn first_chars(s: Seq<char>, n: int) -> Seq<char> {
    if s.len() <= n {
        s
    } else {
        s.take(n)
    }
}

/// At most the first `n` characters of a text.
pub fn take_chars(text: &str, n: usize) -> (r: String)
    ensures
        r@ == first_chars(text@, n as int),
{
    let s = chars_of(text);
    let end: usize = if s.len() <= n {
        s.len()
    } else {
        n
    };
    assert(s@.subrange(0, end as int) =~= first_chars(text@, n as int));
    string_of(slice_subrange(s.as_slice(), 0, end))
}

/// How many bytes a text takes in UTF-8.
pub open spec fn byte_len(s: Seq<char>) -> nat {
    encode_utf8(s).len()
}

/// How many bytes a text takes in UTF-8.
pub fn bytes_in(text: &str) -> (r: usize)
    ensures
        r == byte_len(text@),
{
    text.as_bytes().len()
}

/// A text can be cut before its byte number `at` without breaking a character.
pub open spec fn can_cut(s: Seq<char>, at: int) -> bool {
    is_char_boundary(encode_utf8(s), at)
}

/// The text that the first `at` bytes of `s` spell.
pub open spec fn head_bytes(s: Seq<char>, at: int) -> Seq<char> {
    decode_utf8(encode_utf8(s).subrange(0, at))
}

/// The text that the bytes of `s` from number `at` on spell.
pub open spec fn tail_bytes(s: Seq<char>, at: int) -> Seq<char> {
    decode_utf8(encode_utf8(s).subrange(at, encode_utf8(s).len() as int))
}

/// The last place up to `n` at which a text can be cut.
pub open spec fn cut_up_to(s: Seq<char>, n: nat) -> nat
    decreases n,
{
    if n == 0 || can_cut(s, n as int) {
        n
    } else {
        cut_up_to(s, (n - 1) as nat)
    }
}

/// The first place from `n` on at which a text can be cut.
pub open spec fn cut_from(s: Seq<char>, n: nat) -> nat
    decreases byte_len(s) - n,
{
    if n >= byte_len(s) {
        byte_len(s)
    } else if can_cut(s, n as int) {
        n
    } else {
        cut_from(s, n + 1)
    }
}

/// A text can be cut at the last place up to `n`.
pub proof fn cut_up_to_is_cut(s: Seq<char>, n: nat)
    ensures
        cut_up_to(s, n) <= n,
        can_cut(s, cut_up_to(s, n) as int),
    decreases n,
{
    encode_utf8_valid_utf8(s);
    is_char_boundary_start_end_of_seq(encode_utf8(s));
    if n > 0 && !can_cut(s, n as int) {
        cut_up_to_is_cut(s, (n - 1) as nat);
    }
}

/// A text can be cut at the first place from `n` on.
pub proof fn cut_from_is_cut(s: Seq<char>, n: nat)
    requires
        n <= byte_len(s),
    ensures
        n <= cut_from(s, n) <= byte_len(s),
        can_cut(s, cut_from(s, n) as int),
    decreases byte_len(s) - n,
{
    encode_utf8_valid_utf8(s);
    is_char_boundary_start_end_of_seq(encode_utf8(s));
    if n < byte_len(s) && !can_cut(s, n as int) {
        cut_from_is_cut(s, n + 1);
    }
}

/// The last place up to `n` at which a text can be cut.
pub fn find_cut_up_to(text: &str, n: usize) -> (r: usize)
    ensures
        r == cut_up_to(text@, n as nat),
        r <= n,
        can_cut(text@, r as int),
{
    let mut at: usize = n;
    while at > 0 && !text.is_char_boundary(at)
        invariant
            at <= n,
            cut_up_to(text@, n as nat) == cut_up_to(text@, at as nat),
        decreases at,
    {
        at -= 1;
    }
    proof {
        cut_up_to_is_cut(text@, n as nat);
    }
    at
}

/// The first place from `n` on at which a text can be cut.
pub fn find_cut_from(text: &str, n: usize) -> (r: usize)
    requires
        n <= byte_len(text@),
    ensures
        r == cut_from(text@, n as nat),
        n <= r <= byte_len(text@),
        can_cut(text@, r as int),
{
    let total: usize = bytes_in(text);
    let mut at: usize = n;
    while at < total && !text.is_char_boundary(at)
        invariant
            total == byte_len(text@),
            n <= at <= total,
            cut_from(text@, n as nat) == cut_from(text@, at as nat),
        decreases total - at,
    {
        at += 1;
    }
    proof {
        cut_from_is_cut(text@, n as nat);
    }
    at
}

/// The first `at` bytes of a text.
pub fn cut_head(text: &str, at: usize) -> (r: String)
    requires
        can_cut(text@, at as int),
    ensures
        r@ == head_bytes(text@, at as int),
{
    let (head, tail) = text.split_at(at);
    proof {
        encode_utf8_decode_utf8(head@);
    }
    head.to_owned()
}

/// The bytes of a text from number `at` on.
pub fn cut_tail(text: &str, at: usize) -> (r: String)
    requires
        can_cut(text@, at as int),
    ensures
        r@ == tail_bytes(text@, at as int),
{
    let (head, tail) = text.split_at(at);
    proof {
        encode_utf8_decode_utf8(tail@);
    }
    tail.to_owned()
}

// ---------------------------------------------------------------------------
// Decimal numerals
// ---------------------------------------------------------------------------
/// The decimal digit for a number under ten.
pub open spec fn digit(n: nat) -> char {
    (48 + n) as char
}

/// The decimal numeral of a natural number.
pub open spec fn decimal(n: nat) -> Seq<char>
    decreases n,
{
    if n < 10 {
        seq![digit(n)]
    } else {
        decimal(n / 10).push(digit(n % 10))
    }
}

/// The decimal numeral of an integer, with a minus sign before a negative one.
pub open spec fn signed_decimal(n: int) -> Seq<char> {
    if n < 0 {
        seq!['-'] + decimal((-n) as nat)
    } else {
        decimal(n as nat)
    }
}

/// Different numbers have different numerals.
pub proof fn decimal_is_unique(a: nat, b: nat)
    requires
        decimal(a) == decimal(b),
    ensures
        a == b,
    decreases a,
{
    decimal_len(a);
    decimal_len(b);
    if a >= 10 && b >= 10 {
        assert(decimal(a).drop_last() =~= decimal(a / 10));
        assert(decimal(b).drop_last() =~= decimal(b / 10));
        assert(decimal(a).last() == digit(a % 10) && decimal(b).last() == digit(b % 10));
        decimal_is_unique(a / 10, b / 10);
    } else if a < 10 && b < 10 {
        assert(decimal(a)[0] == digit(a) && decimal(b)[0] == digit(b));
    }
}

proof fn decimal_len(n: nat)
    ensures
        decimal(n).len() >= 1,
        decimal(n).len() == 1 <==> n < 10,
    decreases n,
{
    if n >= 10 {
        decimal_len(n / 10);
    }
}

/// Writes the decimal numeral of `n` behind `r`.
fn push_decimal(r: &mut String, n: u128)
    ensures
        final(r)@ == old(r)@ + decimal(n as nat),
    decreases n,
{
    let last: u8 = (n % 10) as u8;
    if n >= 10 {
        push_decimal(r, n / 10);
    }
    let c: u8 = 48 + last;
    assert(c as char == digit((n % 10) as nat));
    r.push(c as char);
    assert(r@ =~= old(r)@ + decimal(n as nat));
}

/// The decimal numeral of a natural number.
pub fn decimal_of(n: u128) -> (r: String)
    ensures
        r@ == decimal(n as nat),
{
    let mut r = String::new();
    push_decimal(&mut r, n);
    assert(r@ =~= decimal(n as nat));
    r
}

/// The decimal numeral of an integer.
pub fn signed_decimal_of(n: i64) -> (r: String)
    ensures
        r@ == signed_decimal(n as int),
{
    if n < 0 {
        let mut r = String::new();
        r.push('-');
        let wide: i128 = -(n as i128);
        push_decimal(&mut r, wide as u128);
        assert(r@ =~= signed_decimal(n as int));
        r
    } else {
        decimal_of(n as u128)
    }
}

// ---------------------------------------------------------------------------
// Laws
// ---------------------------------------------------------------------------
pub(crate) proof fn find_in_rest(s: Seq<char>, pat: Seq<char>, k: int, from: int)
    requires
        0 <= k <= s.len(),
        0 <= from,
    ensures
        find_from(s, pat, k + from) == match find_from(s.skip(k), pat, from) {
            Some(i) => Some(i + k),
            None => None,
        },
    decreases s.len() - k - from + 1,
{
    let rest = s.skip(k);
    if from + pat.len() <= rest.len() {
        assert(rest.subrange(from, from + pat.len()) =~= s.subrange(k + from, k + from + pat.len()));
        find_in_rest(s, pat, k, from + 1);
    }
}

proof fn replaced_in_rest(s: Seq<char>, pat: Seq<char>, with: Seq<char>, k: int, pos: int)
    requires
        0 <= k,
        0 <= pos,
        k + pos <= s.len(),
    ensures
        replaced_from(s, pat, with, k + pos) == replaced_from(s.skip(k), pat, with, pos),
    decreases s.len() - k - pos,
{
    let rest = s.skip(k);
    find_in_rest(s, pat, k, pos);
    find_from_is_first(rest, pat, pos);
    match find_from(rest, pat, pos) {
        Some(i) => {
            if pat.len() > 0 {
                replaced_in_rest(s, pat, with, k, i + pat.len());
                assert(rest.subrange(pos, i) =~= s.subrange(k + pos, k + i));
            } else {
                assert(rest.skip(pos) =~= s.skip(k + pos));
            }
        },
        None => {
            assert(rest.skip(pos) =~= s.skip(k + pos));
        },
    }
}

/// Replacing goes on behind each replaced part: of a text whose first `pat` stands
/// behind `a`, what stands before it is kept, `with` takes its place, and the rest is
/// replaced likewise.
pub proof fn replaced_one_after_another(a: Seq<char>, pat: Seq<char>, b: Seq<char>, with: Seq<char>)
    requires
        pat.len() > 0,
        forall|j: int| 0 <= j < a.len() ==> !occurs_at(a + pat + b, pat, j),
    ensures
        replaced(a + pat + b, pat, with) == a + with + replaced(b, pat, with),
{
    let s = a + pat + b;
    let n = a.len() as int;
    occurs_between(a, pat, b, s, 0);
    find_from_at(s, pat, 0, n);
    replaced_in_rest(s, pat, with, n + pat.len(), 0);
    assert(s.skip(n + pat.len()) =~= b);
    assert(s.subrange(0, n) =~= a);
}

/// A text that does not hold what is replaced stays as it is.
pub proof fn nothing_to_replace(s: Seq<char>, pat: Seq<char>, with: Seq<char>)
    requires
        !contains_text(s, pat),
    ensures
        replaced(s, pat, with) == s,
{
    assert(s.skip(0) =~= s);
}

/// Taking a character out of two texts, one behind the other, takes it out of each;
/// of a single character it leaves nothing where that is the one, and else all.
pub proof fn character_is_taken_out(a: Seq<char>, b: Seq<char>, c: char, x: char)
    ensures
        without_char(a + b, c) == without_char(a, c) + without_char(b, c),
        without_char(seq![x], c) == if x == c {
            Seq::<char>::empty()
        } else {
            seq![x]
        },
{
    Seq::filter_distributes_over_add(a, b, |y: char| y != c);
    reveal_with_fuel(Seq::<_>::filter, 2);
    assert(seq![x].drop_last() =~= Seq::<char>::empty());
    assert(seq![x].last() == x);
    assert(Seq::<char>::empty().push(x) =~= seq![x]);
}

/// A text that does not hold a character stays as it is when that is taken out.
pub proof fn nothing_to_take_out(s: Seq<char>, c: char)
    requires
        forall|i: int| 0 <= i < s.len() ==> #[trigger] s[i] != c,
    ensures
        without_char(s, c) == s,
    decreases s.len(),
{
    reveal_with_fuel(Seq::<_>::filter, 2);
    if s.len() > 0 {
        nothing_to_take_out(s.drop_last(), c);
        assert(s.drop_last().push(s.last()) =~= s);
    } else {
        assert(without_char(s, c) =~= s);
    }
}

/// Parts that are joined in two lots are joined to each other; one part is itself.
pub proof fn joined_in_lots(a: Seq<Seq<char>>, b: Seq<Seq<char>>, sep: Seq<char>, p: Seq<char>)
    ensures
        a.len() > 0 && b.len() > 0 ==> joined(a + b, sep) == joined(a, sep) + sep + joined(b, sep),
        joined(seq![p], sep) == p,
        joined(Seq::empty(), sep) == Seq::<char>::empty(),
    decreases b.len(),
{
    if a.len() > 0 && b.len() > 0 {
        assert((a + b).drop_last() =~= a + b.drop_last());
        assert((a + b).last() == b.last());
        if b.len() == 1 {
            assert(b.drop_last() =~= Seq::<Seq<char>>::empty());
            assert(a + b.drop_last() =~= a);
        } else {
            joined_in_lots(a, b.drop_last(), sep, p);
            assert(joined(a + b, sep) =~= joined(a, sep) + sep + joined(b, sep));
        }
    }
}

/// Parts that are put together in two lots stand one behind the other; one part is
/// itself.
pub proof fn glued_in_lots(a: Seq<Seq<char>>, b: Seq<Seq<char>>, p: Seq<char>)
    ensures
        glued(a + b) == glued(a) + glued(b),
        glued(seq![p]) == p,
        glued(Seq::empty()) == Seq::<char>::empty(),
    decreases b.len(),
{
    reveal_with_fuel(glued, 2);
    assert(seq![p].drop_last() =~= Seq::<Seq<char>>::empty());
    assert(Seq::<char>::empty() + p =~= p);
    if b.len() == 0 {
        assert(a + b =~= a);
        assert(glued(a) + glued(b) =~= glued(a));
    } else {
        assert((a + b).drop_last() =~= a + b.drop_last());
        assert((a + b).last() == b.last());
        glued_in_lots(a, b.drop_last(), p);
        assert(glued(a + b) =~= glued(a) + glued(b));
    }
}

/// Of a text as many first characters are left as are asked for, or all where there
/// are no more.
pub proof fn first_characters_are_left(s: Seq<char>, n: int)
    requires
        0 <= n,
    ensures
        first_chars(s, n).len() == if s.len() < n {
            s.len() as int
        } else {
            n
        },
        forall|i: int| 0 <= i < first_chars(s, n).len() ==> #[trigger] first_chars(s, n)[i] == s[i],
{
}

/// A text that is cut is made up of the two parts, and the first takes as many bytes
/// as were cut off.
pub proof fn cut_parts_make_the_whole(s: Seq<char>, at: int)
    requires
        can_cut(s, at),
    ensures
        head_bytes(s, at) + tail_bytes(s, at) == s,
        byte_len(head_bytes(s, at)) == at,
{
    let bytes = encode_utf8(s);
    encode_utf8_valid_utf8(s);
    valid_utf8_split(bytes, at);
    decode_utf8_encode_utf8(bytes.subrange(0, at));
    decode_utf8_split(bytes, at);
    encode_utf8_decode_utf8(s);
}

/// Between the place up to which a text is cut and `n` there is no other place to cut
/// it.
pub proof fn cut_up_to_is_last(s: Seq<char>, n: nat, at: int)
    requires
        0 <= at <= n,
        can_cut(s, at),
    ensures
        at <= cut_up_to(s, n),
    decreases n,
{
    if n > 0 && !can_cut(s, n as int) {
        cut_up_to_is_last(s, (n - 1) as nat, at);
    }
}

/// Between `n` and the place from which a text is cut there is no other place to cut
/// it.
pub proof fn cut_from_is_first(s: Seq<char>, n: nat, at: int)
    requires
        n <= at <= byte_len(s),
        can_cut(s, at),
    ensures
        cut_from(s, n) <= at,
    decreases byte_len(s) - n,
{
    if n < byte_len(s) && !can_cut(s, n as int) {
        cut_from_is_first(s, n + 1, at);
    }
}

/// The number that decimal digits stand for, the last the ones.
pub open spec fn number_of(digits: Seq<char>) -> int
    decreases digits.len(),
{
    if digits.len() == 0 {
        0
    } else {
        10 * number_of(digits.drop_last()) + (digits.last() as u32 - '0' as u32)
    }
}

/// A decimal numeral stands for its number, is made of digits, and starts with a zero
/// only where it is zero.
pub proof fn decimal_is_the_number(n: nat)
    ensures
        number_of(decimal(n)) == n,
        decimal(n).len() > 0,
        forall|i: int| 0 <= i < decimal(n).len() ==> '0' <= #[trigger] decimal(n)[i] && decimal(n)[i] <= '9',
        decimal(n)[0] == '0' <==> n == 0,
    decreases n,
{
    let s = decimal(n);
    let last = if n < 10 {
        n
    } else {
        n % 10
    };
    assert(s.last() == digit(last));
    assert(digit(last) as u32 == 48 + last);
    if n < 10 {
        assert(s.drop_last() =~= Seq::<char>::empty());
        reveal_with_fuel(number_of, 2);
    } else {
        decimal_is_the_number(n / 10);
        assert(s.drop_last() =~= decimal(n / 10));
        assert(s[0] == decimal(n / 10)[0]);
        assert forall|i: int| 0 <= i < s.len() implies '0' <= #[trigger] s[i] && s[i] <= '9' by {
            if i < s.len() - 1 {
                assert(s[i] == decimal(n / 10)[i]);
            }
        }
    }
}

/// The numeral of a negative number is that of its opposite behind a minus sign.
pub proof fn signed_numerals(n: int)
    ensures
        n >= 0 ==> signed_decimal(n) == decimal(n as nat),
        n > 0 ==> signed_decimal(-n) == seq!['-'] + signed_decimal(n),
{
}

}
