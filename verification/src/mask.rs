//! Keeping API keys out of what the caller gets to see.

use vstd::prelude::*;
use vstd::string::*;
use vstd::utf8::*;

use crate::text::{
    begins_with, contains_text, law_first_occurrence_is_replaced, occurs_at, replace_all, replaced,
};

verus! {

/// Keys of at most this many bytes are not shown at all.
pub const SHORT_KEY_BYTES: usize = 10;

/// How many bytes of a longer key's beginning are shown.
pub const SHOWN_HEAD_BYTES: usize = 6;

/// How many bytes of a longer key's end are shown.
pub const SHOWN_TAIL_BYTES: usize = 4;

/// A key can be masked: the shown parts of a long one begin and end between
/// characters.
pub open spec fn maskable(key: Seq<char>) -> bool {
    let bytes = encode_utf8(key);
    bytes.len() > SHORT_KEY_BYTES ==> {
        &&& is_char_boundary(bytes, SHOWN_HEAD_BYTES as int)
        &&& is_char_boundary(bytes, bytes.len() - SHOWN_TAIL_BYTES)
    }
}

/// The form in which a key is shown: nothing for no key, dots for a short one, and
/// dots between the two ends of a long one.
pub open spec fn masked(key: Seq<char>) -> Seq<char> {
    let bytes = encode_utf8(key);
    if key.len() == 0 {
        Seq::empty()
    } else if bytes.len() > SHORT_KEY_BYTES {
        decode_utf8(bytes.take(SHOWN_HEAD_BYTES as int)) + "..."@ + decode_utf8(
            bytes.skip(bytes.len() - SHOWN_TAIL_BYTES),
        )
    } else {
        "..."@
    }
}

/// A message without the key in it.
pub open spec fn redacted(message: Seq<char>, key: Seq<char>) -> Seq<char> {
    replaced(message, key, "[REDACTED]"@)
}

/// Whether `mask_api_key` can show the key.
pub fn is_maskable(key: &str) -> (result: bool)
    ensures
        result == maskable(key@),
{
    let bytes = key.as_bytes();
    let len = bytes.len();
    if len > SHORT_KEY_BYTES {
        key.is_char_boundary(SHOWN_HEAD_BYTES) && key.is_char_boundary(len - SHOWN_TAIL_BYTES)
    } else {
        true
    }
}

/// The form in which a key may be shown.
pub fn mask_api_key(key: &str) -> (result: String)
    requires
        maskable(key@),
    ensures
        result@ == masked(key@),
{
    if key.is_empty() {
        return String::new();
    }
    let bytes = key.as_bytes();
    let len = bytes.len();
    if len > SHORT_KEY_BYTES {
        let head = key.split_at(SHOWN_HEAD_BYTES).0;
        let tail = key.split_at(len - SHOWN_TAIL_BYTES).1;
        proof {
            let all = encode_utf8(key@);
            encode_utf8_decode_utf8(head@);
            encode_utf8_decode_utf8(tail@);
            assert(encode_utf8(head@) == all.take(SHOWN_HEAD_BYTES as int));
            assert(encode_utf8(tail@) == all.skip(all.len() - SHOWN_TAIL_BYTES));
        }
        let mut result = head.to_owned();
        result.append("...");
        result.append(tail);
        result
    } else {
        "...".to_owned()
    }
}

/// `s` without the key in it.
pub fn redact(s: String, key: &str) -> (result: String)
    ensures
        result@ == redacted(s@, key@),
{
    if key.is_empty() {
        proof {
            assert(redacted(s@, key@) == s@);
        }
        s
    } else {
        replace_all(s.as_str(), key, "[REDACTED]")
    }
}

/// Encoding two texts one after the other is encoding each of them.
proof fn lemma_encode_concat(a: Seq<char>, b: Seq<char>)
    ensures
        encode_utf8(a + b) == encode_utf8(a) + encode_utf8(b),
    decreases a.len(),
{
    if a.len() == 0 {
        assert(a + b == b);
    } else {
        lemma_encode_concat(a.drop_first(), b);
        assert((a + b).drop_first() == a.drop_first() + b);
    }
}

/// The bytes of the shown form of a long key.
proof fn lemma_masked_bytes(key: Seq<char>)
    requires
        maskable(key),
        encode_utf8(key).len() > SHORT_KEY_BYTES,
    ensures
        encode_utf8(masked(key)) == encode_utf8(key).take(SHOWN_HEAD_BYTES as int) + encode_utf8(
            "..."@,
        ) + encode_utf8(key).skip(encode_utf8(key).len() - SHOWN_TAIL_BYTES),
        encode_utf8("..."@).len() == 3,
{
    let bytes = encode_utf8(key);
    let head = bytes.take(SHOWN_HEAD_BYTES as int);
    let tail = bytes.skip(bytes.len() - SHOWN_TAIL_BYTES);
    encode_utf8_valid_utf8(key);
    valid_utf8_split(bytes, SHOWN_HEAD_BYTES as int);
    valid_utf8_split(bytes, bytes.len() - SHOWN_TAIL_BYTES);
    assert(head == bytes.subrange(0, SHOWN_HEAD_BYTES as int));
    assert(tail == bytes.subrange(bytes.len() - SHOWN_TAIL_BYTES, bytes.len() as int));
    decode_utf8_encode_utf8(head);
    decode_utf8_encode_utf8(tail);
    lemma_encode_concat(decode_utf8(head), "..."@);
    lemma_encode_concat(decode_utf8(head) + "..."@, decode_utf8(tail));
    reveal_strlit("...");
    is_ascii_chars_encode_utf8("..."@);
}

/// A key of ASCII characters can always be masked, and a long one is shown as its
/// first six characters, three dots and its last four characters.
pub proof fn law_ascii_key_is_masked(key: Seq<char>)
    requires
        is_ascii_chars(key),
    ensures
        maskable(key),
        key.len() > 10 ==> masked(key) == key.take(6) + "..."@ + key.skip(key.len() - 4),
        0 < key.len() <= 10 ==> masked(key) == "..."@,
        key.len() == 0 ==> masked(key).len() == 0,
{
    let bytes = encode_utf8(key);
    is_ascii_chars_encode_utf8(key);
    encode_utf8_valid_utf8(key);
    if key.len() > SHORT_KEY_BYTES {
        let cut = key.len() - SHOWN_TAIL_BYTES;
        assert(bytes[SHOWN_HEAD_BYTES as int] == key[SHOWN_HEAD_BYTES as int] as u8);
        assert(bytes[cut] == key[cut] as u8);
        is_char_boundary_iff_not_is_continuation_byte(bytes, SHOWN_HEAD_BYTES as int);
        is_char_boundary_iff_not_is_continuation_byte(bytes, cut);
        let head = key.take(SHOWN_HEAD_BYTES as int);
        let tail = key.skip(cut);
        is_ascii_chars_encode_utf8(head);
        is_ascii_chars_encode_utf8(tail);
        assert(encode_utf8(head) == bytes.take(SHOWN_HEAD_BYTES as int)) by {
            assert forall|i: int| 0 <= i < head.len() implies encode_utf8(head)[i] == bytes[i] by {
                assert(head[i] == key[i]);
            }
        }
        assert(encode_utf8(tail) == bytes.skip(cut)) by {
            assert forall|i: int| 0 <= i < tail.len() implies encode_utf8(tail)[i] == bytes[cut
                + i] by {
                assert(tail[i] == key[cut + i]);
            }
        }
        encode_utf8_decode_utf8(head);
        encode_utf8_decode_utf8(tail);
    }
}

/// The shown form of a key of any characters: nothing of none, three dots of at most ten bytes,
/// and of more the first six bytes, three dots and the last four. It is to be had if and only if
/// these cut no character.
pub proof fn law_key_shows_ten_bytes(key: Seq<char>)
    ensures
        maskable(key) <==> encode_utf8(key).len() <= 10 || (is_char_boundary(encode_utf8(key), 6)
            && is_char_boundary(encode_utf8(key), encode_utf8(key).len() - 4)),
        key.len() == 0 ==> masked(key).len() == 0,
        key.len() > 0 && encode_utf8(key).len() <= 10 ==> masked(key) == "..."@,
        maskable(key) && encode_utf8(key).len() > 10 ==> encode_utf8(masked(key)) == encode_utf8(
            key,
        ).take(6) + encode_utf8("..."@) + encode_utf8(key).skip(encode_utf8(key).len() - 4),
{
    if maskable(key) && encode_utf8(key).len() > 10 {
        lemma_masked_bytes(key);
    }
}

/// The shown form of a key is never the key itself, unless the key has that form:
/// three dots alone, or thirteen bytes with three dots in the middle.
pub proof fn law_masked_key_is_not_the_key(key: Seq<char>)
    requires
        key.len() > 0,
        maskable(key),
    ensures
        masked(key) == key <==> {
            ||| key == "..."@
            ||| encode_utf8(key).len() == 13 && encode_utf8(key).subrange(6, 9) == encode_utf8(
                "..."@,
            )
        },
{
    let bytes = encode_utf8(key);
    reveal_strlit("...");
    is_ascii_chars_encode_utf8("..."@);
    if bytes.len() > SHORT_KEY_BYTES {
        lemma_masked_bytes(key);
        let shown = encode_utf8(masked(key));
        assert(shown.subrange(6, 9) == encode_utf8("..."@));
        if bytes.len() == 13 && bytes.subrange(6, 9) == encode_utf8("..."@) {
            assert(bytes == bytes.take(6) + bytes.subrange(6, 9) + bytes.skip(9));
            encode_utf8_decode_utf8(key);
            encode_utf8_decode_utf8(masked(key));
        }
    }
}

/// Of a key longer than thirteen bytes the shown form keeps ten bytes, and the key
/// does not occur in it.
pub proof fn law_long_key_is_hidden(key: Seq<char>)
    requires
        maskable(key),
        encode_utf8(key).len() > 13,
    ensures
        encode_utf8(masked(key)).len() == 13,
        !contains_text(masked(key), key),
{
    lemma_masked_bytes(key);
    let shown = masked(key);
    if contains_text(shown, key) {
        let at = choose|at: int| occurs_at(shown, key, at);
        lemma_part_is_no_longer(shown, key, at);
    }
}

/// A key without dots does not occur in its shown form.
pub proof fn law_key_without_dots_is_hidden(key: Seq<char>)
    requires
        key.len() > 0,
        maskable(key),
        !key.contains('.'),
    ensures
        !contains_text(masked(key), key),
{
    let bytes = encode_utf8(key);
    let shown = masked(key);
    reveal_strlit("...");
    if contains_text(shown, key) {
        let at = choose|at: int| occurs_at(shown, key, at);
        let found = shown.subrange(at, at + key.len());
        if bytes.len() > SHORT_KEY_BYTES {
            let head = bytes.take(SHOWN_HEAD_BYTES as int);
            let tail = bytes.skip(bytes.len() - SHOWN_TAIL_BYTES);
            encode_utf8_valid_utf8(key);
            valid_utf8_split(bytes, SHOWN_HEAD_BYTES as int);
            valid_utf8_split(bytes, bytes.len() - SHOWN_TAIL_BYTES);
            assert(head == bytes.subrange(0, SHOWN_HEAD_BYTES as int));
            assert(tail == bytes.subrange(bytes.len() - SHOWN_TAIL_BYTES, bytes.len() as int));
            decode_utf8_encode_utf8(head);
            decode_utf8_encode_utf8(tail);
            let first = decode_utf8(head);
            let last = decode_utf8(tail);
            let dots = first.len() as int;
            if at + key.len() <= dots {
                assert(found == first.subrange(at, at + key.len()));
                lemma_part_is_no_longer(first, key, at);
            } else if at >= dots + 3 {
                let shifted = at - dots - 3;
                assert(found == last.subrange(shifted, shifted + key.len()));
                lemma_part_is_no_longer(last, key, shifted);
            } else {
                let dot = if at >= dots {
                    at
                } else {
                    dots
                };
                assert(found[dot - at] == '.');
            }
        } else {
            assert(found[0] == '.');
        }
    }
}

/// A part of a text has no more bytes than the text.
proof fn lemma_part_is_no_longer(text: Seq<char>, part: Seq<char>, at: int)
    requires
        occurs_at(text, part, at),
    ensures
        encode_utf8(part).len() <= encode_utf8(text).len(),
{
    let before = text.take(at);
    let after = text.skip(at + part.len());
    assert(text == before + part + after);
    lemma_encode_concat(before, part);
    lemma_encode_concat(before + part, after);
}

/// A message in which the key does not occur is not changed.
pub proof fn law_message_without_key_is_kept(message: Seq<char>, key: Seq<char>)
    requires
        !contains_text(message, key),
    ensures
        redacted(message, key) == message,
    decreases message.len(),
{
    if message.len() > 0 && key.len() > 0 {
        assert(!begins_with(message, key));
        let rest = message.skip(1);
        assert(!contains_text(rest, key)) by {
            if contains_text(rest, key) {
                let at = choose|at: int| occurs_at(rest, key, at);
                assert(rest.subrange(at, at + key.len()) == message.subrange(
                    at + 1,
                    at + 1 + key.len(),
                ));
                assert(occurs_at(message, key, at + 1));
            }
        }
        law_message_without_key_is_kept(rest, key);
        assert(seq![message[0]] + rest == message);
    }
}

/// Of a message, what stands before the first occurrence of the key is kept, the marker stands in
/// its place, and the rest is treated alike.
pub proof fn law_redaction_puts_the_marker(before: Seq<char>, key: Seq<char>, after: Seq<char>)
    requires
        key.len() > 0,
        forall|i: int|
            0 <= i < before.len() ==> !#[trigger] occurs_at(before + key + after, key, i),
    ensures
        redacted(before + key + after, key) == before + "[REDACTED]"@ + redacted(after, key),
{
    law_first_occurrence_is_replaced(before, key, after, "[REDACTED]"@);
}

/// Without a key, a message is kept as it is.
pub proof fn law_no_key_changes_nothing(message: Seq<char>)
    ensures
        redacted(message, Seq::empty()) == message,
{
}

/// No occurrence of `key` can share a character with an occurrence of `marker` that
/// was put between two other texts.
pub open spec fn clear_of(marker: Seq<char>, key: Seq<char>) -> bool {
    forall|before: Seq<char>, after: Seq<char>, at: int|
        #[trigger] occurs_at(before + marker + after, key, at) ==> at + key.len() <= before.len()
            || at >= before.len() + marker.len()
}

/// Where the text is not copied unchanged, it is copied up to the first occurrence
/// of the pattern, which is replaced.
proof fn lemma_first_replacement(text: Seq<char>, pattern: Seq<char>, by: Seq<char>) -> (at: int)
    requires
        pattern.len() > 0,
        replaced(text, pattern, by) != text,
    ensures
        occurs_at(text, pattern, at),
        forall|i: int| 0 <= i < at ==> !#[trigger] occurs_at(text, pattern, i),
        replaced(text, pattern, by) == text.take(at) + by + replaced(
            text.skip(at + pattern.len()),
            pattern,
            by,
        ),
    decreases text.len(),
{
    if begins_with(text, pattern) {
        let tail = replaced(text.skip(pattern.len() as int), pattern, by);
        assert(text.take(0) + by + tail == by + tail);
        0
    } else {
        let rest = text.skip(1);
        assert(seq![text[0]] + rest == text);
        let inner = lemma_first_replacement(rest, pattern, by);
        let at = inner + 1;
        let tail = replaced(rest.skip(inner + pattern.len()), pattern, by);
        assert(rest.skip(inner + pattern.len()) == text.skip(at + pattern.len()));
        assert(seq![text[0]] + (rest.take(inner) + by + tail) == text.take(at) + by + tail);
        assert(rest.subrange(inner, inner + pattern.len()) == text.subrange(
            at,
            at + pattern.len(),
        ));
        assert forall|i: int| 0 <= i < at implies !#[trigger] occurs_at(text, pattern, i) by {
            if i > 0 && occurs_at(text, pattern, i) {
                assert(rest.subrange(i - 1, i - 1 + pattern.len()) == text.subrange(
                    i,
                    i + pattern.len(),
                ));
                assert(occurs_at(rest, pattern, i - 1));
            }
        }
        at
    }
}

/// A text that is left as it is does not hold the pattern.
proof fn lemma_unchanged_means_absent(text: Seq<char>, pattern: Seq<char>, by: Seq<char>)
    requires
        pattern.len() > 0,
        !contains_text(by, pattern),
        replaced(text, pattern, by) == text,
    ensures
        !contains_text(text, pattern),
    decreases text.len(),
{
    if text.len() > 0 {
        if begins_with(text, pattern) {
            let n = pattern.len() as int;
            let tail = replaced(text.skip(n), pattern, by);
            assert(text == by + tail);
            if by.len() >= n {
                assert(by.subrange(0, n) == text.subrange(0, n));
                assert(occurs_at(by, pattern, 0));
            } else {
                lemma_replaced_no_longer(text.skip(n), pattern, by);
            }
        } else {
            let rest = text.skip(1);
            let out = replaced(rest, pattern, by);
            assert((seq![text[0]] + out).skip(1) == out);
            lemma_unchanged_means_absent(rest, pattern, by);
            if contains_text(text, pattern) {
                let at = choose|at: int| occurs_at(text, pattern, at);
                assert(rest.subrange(at - 1, at - 1 + pattern.len()) == text.subrange(
                    at,
                    at + pattern.len(),
                ));
                assert(occurs_at(rest, pattern, at - 1));
            }
        }
    }
}

/// Replacing a pattern by something shorter does not make a text longer.
proof fn lemma_replaced_no_longer(text: Seq<char>, pattern: Seq<char>, by: Seq<char>)
    requires
        by.len() <= pattern.len(),
    ensures
        replaced(text, pattern, by).len() <= text.len(),
    decreases text.len(),
{
    if text.len() > 0 && pattern.len() > 0 {
        if begins_with(text, pattern) {
            lemma_replaced_no_longer(text.skip(pattern.len() as int), pattern, by);
        } else {
            lemma_replaced_no_longer(text.skip(1), pattern, by);
        }
    }
}

/// After redaction the key does not occur in the message, unless it can overlap the
/// marker that stands in its place.
pub proof fn law_redacted_message_has_no_key(message: Seq<char>, key: Seq<char>)
    requires
        key.len() > 0,
        clear_of("[REDACTED]"@, key),
    ensures
        !contains_text(redacted(message, key), key),
    decreases message.len(),
{
    let marker = "[REDACTED]"@;
    let out = redacted(message, key);
    reveal_strlit("[REDACTED]");
    assert(!contains_text(marker, key)) by {
        if contains_text(marker, key) {
            let at = choose|at: int| occurs_at(marker, key, at);
            let none = Seq::<char>::empty();
            assert(none + marker + none == marker);
            assert(occurs_at(none + marker + none, key, at));
        }
    }
    if out == message {
        lemma_unchanged_means_absent(message, key, marker);
    } else {
        let first = lemma_first_replacement(message, key, marker);
        let before = message.take(first);
        let rest = message.skip(first + key.len());
        let after = redacted(rest, key);
        law_redacted_message_has_no_key(rest, key);
        if contains_text(out, key) {
            let at = choose|at: int| occurs_at(out, key, at);
            assert(occurs_at(before + marker + after, key, at));
            if at + key.len() <= before.len() {
                assert(message.subrange(at, at + key.len()) == out.subrange(at, at + key.len()));
                assert(occurs_at(message, key, at));
            } else {
                let shifted = at - before.len() - marker.len();
                assert(after.subrange(shifted, shifted + key.len()) == out.subrange(
                    at,
                    at + key.len(),
                ));
                assert(occurs_at(after, key, shifted));
            }
        }
    }
}

/// A key without square brackets that is no part of the word between them cannot
/// overlap the marker.
pub proof fn law_plain_key_is_clear_of_marker(key: Seq<char>)
    requires
        key.len() > 0,
        !key.contains('['),
        !key.contains(']'),
        !contains_text("REDACTED"@, key),
    ensures
        clear_of("[REDACTED]"@, key),
{
    let marker = "[REDACTED]"@;
    reveal_strlit("[REDACTED]");
    reveal_strlit("REDACTED");
    assert forall|before: Seq<char>, after: Seq<char>, at: int|
        #[trigger] occurs_at(before + marker + after, key, at) implies at + key.len()
        <= before.len() || at >= before.len() + marker.len() by {
        let whole = before + marker + after;
        let open = before.len() as int;
        let close = open + 9;
        assert(whole[open] == '[');
        assert(whole[close] == ']');
        let found = whole.subrange(at, at + key.len());
        if at + key.len() > open && at < open + 10 {
            if at <= open {
                assert(found[open - at] == '[');
                assert(key.contains('['));
            } else if at + key.len() > close {
                assert(found[close - at] == ']');
                assert(key.contains(']'));
            } else {
                let inside = at - open - 1;
                assert("REDACTED"@ =~= marker.subrange(1, 9));
                assert("REDACTED"@.subrange(inside, inside + key.len()) =~= found);
                assert(occurs_at("REDACTED"@, key, inside));
            }
        }
    }
}

} // verus!
