//! Operations on text, specified over sequences of characters.

use vstd::prelude::*;
use vstd::string::*;
use vstd::utf8::*;

verus! {

/// `part` stands in `whole` at position `at`.
pub open spec fn occurs_at(whole: Seq<char>, part: Seq<char>, at: int) -> bool {
    0 <= at && at + part.len() <= whole.len() && whole.subrange(at, at + part.len()) == part
}

/// `part` stands somewhere in `whole`.
pub open spec fn contains_text(whole: Seq<char>, part: Seq<char>) -> bool {
    exists|at: int| #[trigger] occurs_at(whole, part, at)
}

/// `whole` begins with `prefix`.
pub open spec fn begins_with(whole: Seq<char>, prefix: Seq<char>) -> bool {
    occurs_at(whole, prefix, 0)
}

/// `text` with every occurrence of `pattern`, taken from the left and without
/// overlap, replaced by `by`.
pub open spec fn replaced(text: Seq<char>, pattern: Seq<char>, by: Seq<char>) -> Seq<char>
    decreases text.len(),
{
    if text.len() == 0 || pattern.len() == 0 {
        text
    } else if begins_with(text, pattern) {
        by + replaced(text.skip(pattern.len() as int), pattern, by)
    } else {
        seq![text[0]] + replaced(text.skip(1), pattern, by)
    }
}

/// The first `limit` characters of `text`, or all of them.
pub open spec fn truncated(text: Seq<char>, limit: nat) -> Seq<char> {
    if text.len() <= limit {
        text
    } else {
        text.take(limit as int)
    }
}

/// The characters with the Unicode property `White_Space`.
pub open spec fn is_white_space(c: char) -> bool {
    ||| '\u{9}' <= c <= '\u{d}'
    ||| c == '\u{20}'
    ||| c == '\u{85}'
    ||| c == '\u{a0}'
    ||| c == '\u{1680}'
    ||| '\u{2000}' <= c <= '\u{200a}'
    ||| c == '\u{2028}'
    ||| c == '\u{2029}'
    ||| c == '\u{202f}'
    ||| c == '\u{205f}'
    ||| c == '\u{3000}'
}

/// `text` without the white space at its end.
pub open spec fn trimmed_end(text: Seq<char>) -> Seq<char>
    decreases text.len(),
{
    if text.len() > 0 && is_white_space(text.last()) {
        trimmed_end(text.drop_last())
    } else {
        text
    }
}

/// The decimal digit for `d`.
pub open spec fn digit(d: nat) -> char {
    if d == 0 {
        '0'
    } else if d == 1 {
        '1'
    } else if d == 2 {
        '2'
    } else if d == 3 {
        '3'
    } else if d == 4 {
        '4'
    } else if d == 5 {
        '5'
    } else if d == 6 {
        '6'
    } else if d == 7 {
        '7'
    } else if d == 8 {
        '8'
    } else {
        '9'
    }
}

/// `n` in decimal notation, without leading zeros.
pub open spec fn decimal(n: nat) -> Seq<char>
    decreases n,
{
    if n < 10 {
        seq![digit(n)]
    } else {
        decimal(n / 10).push(digit(n % 10))
    }
}

/// The characters of `s`.
pub(crate) fn chars_of(s: &str) -> (chars: Vec<char>)
    ensures
        chars@ == s@,
{
    let mut chars: Vec<char> = Vec::new();
    for c in it: s.chars()
        invariant
            it.seq() == s@,
            chars@ == s@.take(it.index()),
    {
        chars.push(c);
        assert(s@.take(it.index() + 1) == s@.take(it.index()).push(c));
    }
    assert(s@.take(s@.len() as int) == s@);
    chars
}

/// Whether the two texts are the same.
pub fn same_text(a: &str, b: &str) -> (same: bool)
    ensures
        same == (a@ == b@),
{
    let left = a.as_bytes();
    let right = b.as_bytes();
    proof {
        encode_utf8_decode_utf8(a@);
        encode_utf8_decode_utf8(b@);
    }
    if left.len() != right.len() {
        return false;
    }
    let mut i: usize = 0;
    while i < left.len()
        invariant
            i <= left.len(),
            left@ == encode_utf8(a@),
            right@ == encode_utf8(b@),
            left@.len() == right@.len(),
            left@.take(i as int) == right@.take(i as int),
        decreases left.len() - i,
    {
        if left[i] != right[i] {
            assert(left@[i as int] != right@[i as int]);
            return false;
        }
        assert(left@.take(i + 1) == left@.take(i as int).push(left@[i as int]));
        assert(right@.take(i + 1) == right@.take(i as int).push(right@[i as int]));
        i = i + 1;
    }
    assert(left@.take(left@.len() as int) == left@);
    assert(right@.take(right@.len() as int) == right@);
    true
}

/// Whether `part` stands in `whole` at position `at`.
fn found_at(whole: &Vec<char>, part: &Vec<char>, at: usize) -> (found: bool)
    requires
        at <= whole@.len(),
    ensures
        found == occurs_at(whole@, part@, at as int),
{
    if part.len() > whole.len() - at {
        return false;
    }
    let mut i: usize = 0;
    while i < part.len()
        invariant
            i <= part.len(),
            at + part.len() <= whole.len(),
            forall|j: int| 0 <= j < i ==> whole@[at + j] == part@[j],
        decreases part.len() - i,
    {
        if whole[at + i] != part[i] {
            assert(whole@.subrange(at as int, at + part@.len())[i as int] != part@[i as int]);
            return false;
        }
        i = i + 1;
    }
    assert(whole@.subrange(at as int, at + part@.len()) == part@);
    true
}

/// `text` with every occurrence of `pattern` replaced by `by`.
pub fn replace_all(text: &str, pattern: &str, by: &str) -> (result: String)
    requires
        pattern@.len() > 0,
    ensures
        result@ == replaced(text@, pattern@, by@),
{
    let chars = chars_of(text);
    let wanted = chars_of(pattern);
    let mut result = String::new();
    let mut start: usize = 0;
    let mut i: usize = 0;
    assert(text@.skip(0) == text@);
    assert(result@ + text@.subrange(0, 0) + replaced(text@, pattern@, by@) == replaced(
        text@,
        pattern@,
        by@,
    ));
    while i < chars.len()
        invariant
            chars@ == text@,
            wanted@ == pattern@,
            pattern@.len() > 0,
            start <= i <= chars.len(),
            result@ + text@.subrange(start as int, i as int) + replaced(
                text@.skip(i as int),
                pattern@,
                by@,
            ) == replaced(text@, pattern@, by@),
        decreases chars.len() - i,
    {
        let ghost rest = text@.skip(i as int);
        if found_at(&chars, &wanted, i) {
            assert(rest.subrange(0, pattern@.len() as int) == text@.subrange(
                i as int,
                i + pattern@.len(),
            ));
            assert(begins_with(rest, pattern@));
            result.append(text.substring_char(start, i));
            result.append(by);
            i = i + wanted.len();
            start = i;
            assert(rest.skip(pattern@.len() as int) == text@.skip(i as int));
        } else {
            assert(!begins_with(rest, pattern@)) by {
                if begins_with(rest, pattern@) {
                    assert(rest.subrange(0, pattern@.len() as int) == text@.subrange(
                        i as int,
                        i + pattern@.len(),
                    ));
                }
            }
            assert(rest.skip(1) == text@.skip(i + 1));
            i = i + 1;
        }
    }
    result.append(text.substring_char(start, chars.len()));
    result
}

/// The first `limit` characters of `text`, or all of them.
pub fn take_chars(text: &str, limit: usize) -> (result: String)
    ensures
        result@ == truncated(text@, limit as nat),
{
    let len = text.unicode_len();
    if len <= limit {
        text.to_owned()
    } else {
        text.substring_char(0, limit).to_owned()
    }
}

/// Whether `text` begins with `prefix`.
pub fn starts_with(text: &str, prefix: &str) -> (result: bool)
    ensures
        result == begins_with(text@, prefix@),
{
    let chars = chars_of(text);
    let wanted = chars_of(prefix);
    found_at(&chars, &wanted, 0)
}

/// What follows `prefix` in `text`, if `text` begins with it.
pub fn strip_prefix<'a>(text: &'a str, prefix: &str) -> (rest: Option<&'a str>)
    ensures
        rest is Some <==> begins_with(text@, prefix@),
        rest matches Some(r) ==> r@ == text@.skip(prefix@.len() as int),
{
    if starts_with(text, prefix) {
        let rest = text.substring_char(prefix.unicode_len(), text.unicode_len());
        assert(rest@ == text@.skip(prefix@.len() as int));
        Some(rest)
    } else {
        None
    }
}

/// Whether `c` is white space.
fn white_space(c: char) -> (result: bool)
    ensures
        result == is_white_space(c),
{
    ('\u{9}' <= c && c <= '\u{d}') || c == '\u{20}' || c == '\u{85}' || c == '\u{a0}' || c
        == '\u{1680}' || ('\u{2000}' <= c && c <= '\u{200a}') || c == '\u{2028}' || c == '\u{2029}'
        || c == '\u{202f}' || c == '\u{205f}' || c == '\u{3000}'
}

/// `text` without the white space at its end.
pub fn trim_end(text: &str) -> (result: &str)
    ensures
        result@ == trimmed_end(text@),
{
    let chars = chars_of(text);
    let mut end: usize = chars.len();
    assert(text@.take(text@.len() as int) == text@);
    while end > 0 && white_space(chars[end - 1])
        invariant
            chars@ == text@,
            end <= chars.len(),
            trimmed_end(text@.take(end as int)) == trimmed_end(text@),
        decreases end,
    {
        assert(text@.take(end as int).drop_last() == text@.take(end - 1));
        end = end - 1;
    }
    text.substring_char(0, end)
}

/// `n` in decimal notation.
pub fn to_decimal(n: u64) -> (result: String)
    ensures
        result@ == decimal(n as nat),
    decreases n,
{
    proof {
        reveal_strlit("0");
        reveal_strlit("1");
        reveal_strlit("2");
        reveal_strlit("3");
        reveal_strlit("4");
        reveal_strlit("5");
        reveal_strlit("6");
        reveal_strlit("7");
        reveal_strlit("8");
        reveal_strlit("9");
    }
    let mut result = if n < 10 {
        String::new()
    } else {
        to_decimal(n / 10)
    };
    let last = n % 10;
    let symbol = if last == 0 {
        "0"
    } else if last == 1 {
        "1"
    } else if last == 2 {
        "2"
    } else if last == 3 {
        "3"
    } else if last == 4 {
        "4"
    } else if last == 5 {
        "5"
    } else if last == 6 {
        "6"
    } else if last == 7 {
        "7"
    } else if last == 8 {
        "8"
    } else {
        "9"
    };
    result.append(symbol);
    assert(result@ == decimal(n as nat));
    result
}

/// `a` followed by `b`.
pub fn join2(a: &str, b: &str) -> (result: String)
    ensures
        result@ == a@ + b@,
{
    let mut result = a.to_owned();
    result.append(b);
    result
}

/// `a`, `b` and `c`, one after the other.
pub fn join3(a: &str, b: &str, c: &str) -> (result: String)
    ensures
        result@ == a@ + b@ + c@,
{
    let mut result = join2(a, b);
    result.append(c);
    result
}

/// The number that a text of decimal digits stands for.
pub open spec fn read_decimal(text: Seq<char>) -> int
    decreases text.len(),
{
    if text.len() == 0 {
        0
    } else {
        10 * read_decimal(text.drop_last()) + (text.last() as int - '0' as int)
    }
}

/// Decimal notation reads back as the number, holds digits only, and has no zero in front but
/// for the number zero itself.
pub proof fn law_decimal_reads_back(n: nat)
    ensures
        read_decimal(decimal(n)) == n,
        decimal(n).len() > 0,
        forall|i: int| 0 <= i < decimal(n).len() ==> '0' <= #[trigger] decimal(n)[i] <= '9',
        decimal(n)[0] == '0' ==> n == 0,
    decreases n,
{
    let text = decimal(n);
    if n < 10 {
        assert(text.drop_last() =~= Seq::empty());
        assert(read_decimal(text.drop_last()) == 0);
    } else {
        law_decimal_reads_back(n / 10);
        assert(text.drop_last() =~= decimal(n / 10));
        assert(text[0] == decimal(n / 10)[0]);
    }
}

/// A text that begins with another is that one followed by the rest, and the other way round,
/// however long they are.
pub proof fn law_prefix_and_rest(prefix: Seq<char>, rest: Seq<char>, text: Seq<char>)
    ensures
        begins_with(prefix + rest, prefix),
        (prefix + rest).skip(prefix.len() as int) == rest,
        begins_with(text, prefix) ==> text == prefix + text.skip(prefix.len() as int),
{
    assert((prefix + rest).subrange(0, prefix.len() as int) =~= prefix);
    assert((prefix + rest).skip(prefix.len() as int) =~= rest);
    if begins_with(text, prefix) {
        assert(text =~= text.subrange(0, prefix.len() as int) + text.skip(prefix.len() as int));
    }
}

/// A text holds another if and only if it is something, the other one and something more.
pub proof fn law_text_around_a_part(before: Seq<char>, part: Seq<char>, after: Seq<char>)
    ensures
        contains_text(before + part + after, part),
        forall|text: Seq<char>| #[trigger]
            contains_text(text, part) ==> exists|a: Seq<char>, b: Seq<char>|
                text == #[trigger] (a + part + b),
{
    let whole = before + part + after;
    assert(whole.subrange(before.len() as int, (before.len() + part.len()) as int) =~= part);
    assert(occurs_at(whole, part, before.len() as int));
    assert forall|text: Seq<char>| #[trigger] contains_text(text, part) implies exists|
        a: Seq<char>,
        b: Seq<char>,
    | text == #[trigger] (a + part + b) by {
        let at = choose|at: int| occurs_at(text, part, at);
        assert(text =~= text.take(at) + part + text.skip(at + part.len()));
    }
}

/// A text that is short enough is kept whole, and of a longer one exactly the first characters.
pub proof fn law_truncated_is_the_beginning(text: Seq<char>, limit: nat)
    ensures
        text.len() <= limit ==> truncated(text, limit) == text,
        text.len() > limit ==> truncated(text, limit).len() == limit && exists|rest: Seq<char>|
            text == #[trigger] (truncated(text, limit) + rest),
{
    if text.len() > limit {
        assert(text =~= truncated(text, limit) + text.skip(limit as int));
    }
}

/// White space is tab, line feed, vertical tab, form feed, carriage return, space, and what
/// Unicode counts as such beyond ASCII.
pub proof fn law_white_space_is_that_of_unicode(c: char)
    ensures
        is_white_space(c) <==> {
            let code = c as int;
            9 <= code <= 13 || code == 32 || code == 133 || code == 160 || code == 5760 || 8192
                <= code <= 8202 || code == 8232 || code == 8233 || code == 8239 || code == 8287
                || code == 12288
        },
{
}

/// Trimming takes the white space at the end and nothing else, however long the text is.
pub proof fn law_trimming_takes_the_tail(text: Seq<char>, tail: Seq<char>)
    requires
        text.len() == 0 || !is_white_space(text.last()),
        forall|i: int| 0 <= i < tail.len() ==> is_white_space(#[trigger] tail[i]),
    ensures
        trimmed_end(text + tail) == text,
    decreases tail.len(),
{
    if tail.len() == 0 {
        assert(text + tail =~= text);
    } else {
        law_trimming_takes_the_tail(text, tail.drop_last());
        assert((text + tail).drop_last() =~= text + tail.drop_last());
        assert((text + tail).last() == tail.last());
    }
}

/// What is trimmed is the beginning of the text, does not end in white space, and is followed by
/// white space only.
pub proof fn law_trimmed_is_the_beginning(text: Seq<char>)
    ensures
        trimmed_end(text).len() <= text.len(),
        text.take(trimmed_end(text).len() as int) == trimmed_end(text),
        trimmed_end(text).len() == 0 || !is_white_space(trimmed_end(text).last()),
        forall|i: int|
            trimmed_end(text).len() <= i < text.len() ==> is_white_space(#[trigger] text[i]),
    decreases text.len(),
{
    if text.len() > 0 && is_white_space(text.last()) {
        law_trimmed_is_the_beginning(text.drop_last());
        let kept = trimmed_end(text).len() as int;
        assert(text.take(kept) =~= text.drop_last().take(kept));
        assert forall|i: int| kept <= i < text.len() implies is_white_space(#[trigger] text[i]) by {
            if i < text.len() - 1 {
                assert(text.drop_last()[i] == text[i]);
            }
        }
    } else {
        assert(text.take(text.len() as int) =~= text);
    }
}

/// Replacing leaves what stands before the first occurrence as it is, puts the other text in its
/// place, and goes on after it.
pub proof fn law_first_occurrence_is_replaced(
    before: Seq<char>,
    pattern: Seq<char>,
    after: Seq<char>,
    by: Seq<char>,
)
    requires
        pattern.len() > 0,
        forall|i: int|
            0 <= i < before.len() ==> !#[trigger] occurs_at(before + pattern + after, pattern, i),
    ensures
        replaced(before + pattern + after, pattern, by) == before + by + replaced(
            after,
            pattern,
            by,
        ),
    decreases before.len(),
{
    let text = before + pattern + after;
    if before.len() == 0 {
        assert(text.subrange(0, pattern.len() as int) =~= pattern);
        assert(text.skip(pattern.len() as int) =~= after);
        assert(before + by + replaced(after, pattern, by) =~= by + replaced(after, pattern, by));
    } else {
        let rest = before.skip(1);
        assert(text.skip(1) =~= rest + pattern + after);
        assert(!occurs_at(text, pattern, 0));
        assert forall|i: int| 0 <= i < rest.len() implies !#[trigger] occurs_at(
            rest + pattern + after,
            pattern,
            i,
        ) by {
            assert(!occurs_at(text, pattern, i + 1));
            assert((rest + pattern + after).subrange(i, i + pattern.len()) =~= text.subrange(
                i + 1,
                i + 1 + pattern.len(),
            ));
        }
        law_first_occurrence_is_replaced(rest, pattern, after, by);
        assert(seq![text[0]] + (rest + by + replaced(after, pattern, by)) =~= before + by
            + replaced(after, pattern, by));
    }
}

} // verus!
