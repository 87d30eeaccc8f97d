//! Strings as sequences of characters.

use vstd::prelude::*;
use vstd::string::*;
use vstd::utf8::*;

verus! {

/// The characters of a string, in order.
pub fn to_chars(s: &str) -> (chars: Vec<char>)
    ensures
        chars@ == s@,
{
    let mut chars: Vec<char> = Vec::new();
    for c in it: s.chars()
        invariant
            chars@ == it.seq().take(it.index()),
            it.seq() == s@,
    {
        chars.push(c);
    }
    chars
}

/// Whether two strings hold the same characters.
pub fn same_text(a: &str, b: &str) -> (same: bool)
    ensures
        same == (a@ == b@),
{
    let x = a.as_bytes();
    let y = b.as_bytes();
    proof {
        encode_utf8_decode_utf8(a@);
        encode_utf8_decode_utf8(b@);
    }
    if x.len() != y.len() {
        return false;
    }
    let mut i: usize = 0;
    while i < x.len()
        invariant
            x@.len() == y@.len(),
            i <= x@.len(),
            forall|k: int| 0 <= k < i ==> x@[k] == y@[k],
            a@ == b@ ==> x@ == y@,
        decreases x@.len() - i,
    {
        if x[i] != y[i] {
            assert(x@[i as int] != y@[i as int]);
            return false;
        }
        i += 1;
    }
    assert(x@ =~= y@);
    true
}

/// Position of the last occurrence of a character in a text, or -1 where it
/// does not occur.
pub open spec fn last_index_of(text: Seq<char>, wanted: char) -> int
    decreases text.len(),
{
    if text.len() == 0 {
        -1
    } else if text.last() == wanted {
        text.len() - 1
    } else {
        last_index_of(text.drop_last(), wanted)
    }
}

/// The last occurrence is an occurrence, and none follows it.
pub proof fn lemma_last_index_of(text: Seq<char>, wanted: char)
    ensures
        -1 <= last_index_of(text, wanted) < text.len(),
        last_index_of(text, wanted) >= 0 ==> text[last_index_of(text, wanted)] == wanted,
        forall|k: int| last_index_of(text, wanted) < k < text.len() ==> text[k] != wanted,
    decreases text.len(),
{
    if text.len() > 0 && text.last() != wanted {
        let shorter = text.drop_last();
        lemma_last_index_of(shorter, wanted);
        assert forall|k: int| last_index_of(text, wanted) < k < text.len() implies text[k]
            != wanted by {
            if k < shorter.len() {
                assert(text[k] == shorter[k]);
            }
        }
    }
}

/// Looks for the last occurrence of a character among the first `upto`
/// characters.
pub fn find_last(chars: &Vec<char>, upto: usize, wanted: char) -> (found: Option<usize>)
    requires
        upto <= chars@.len(),
    ensures
        match found {
            Some(at) => at == last_index_of(chars@.take(upto as int), wanted),
            None => last_index_of(chars@.take(upto as int), wanted) == -1,
        },
{
    let mut i: usize = upto;
    while i > 0
        invariant
            i <= upto <= chars@.len(),
            last_index_of(chars@.take(upto as int), wanted) == last_index_of(
                chars@.take(i as int),
                wanted,
            ),
        decreases i,
    {
        proof {
            assert(chars@.take(i as int).drop_last() =~= chars@.take(i - 1));
        }
        if chars[i - 1] == wanted {
            return Some(i - 1);
        }
        i -= 1;
    }
    None
}

/// The character is white space: a code point with the Unicode property
/// `White_Space`.
pub open spec fn is_space(c: char) -> bool {
    let code = c as u32;
    ||| 0x09 <= code <= 0x0D
    ||| code == 0x20
    ||| code == 0x85
    ||| code == 0xA0
    ||| code == 0x1680
    ||| 0x2000 <= code <= 0x200A
    ||| code == 0x2028
    ||| code == 0x2029
    ||| code == 0x202F
    ||| code == 0x205F
    ||| code == 0x3000
}

/// How many white space characters lead the text.
pub open spec fn leading_spaces(text: Seq<char>) -> int
    decreases text.len(),
{
    if text.len() == 0 || !is_space(text[0]) {
        0
    } else {
        1 + leading_spaces(text.drop_first())
    }
}

/// Where the text ends once the white space at its end is left out.
pub open spec fn content_end(text: Seq<char>) -> int
    decreases text.len(),
{
    if text.len() == 0 || !is_space(text.last()) {
        text.len() as int
    } else {
        content_end(text.drop_last())
    }
}

/// The text without the white space at its start and at its end.
pub open spec fn trimmed(text: Seq<char>) -> Seq<char> {
    if leading_spaces(text) >= content_end(text) {
        Seq::empty()
    } else {
        text.subrange(leading_spaces(text), content_end(text))
    }
}

/// The text holds nothing but white space.
pub open spec fn is_blank(text: Seq<char>) -> bool {
    trimmed(text).len() == 0
}

/// Whether a character is white space.
pub fn is_whitespace(c: char) -> (yes: bool)
    ensures
        yes == is_space(c),
{
    let code: u32 = c as u32;
    (0x09 <= code && code <= 0x0D) || code == 0x20 || code == 0x85 || code == 0xA0 || code
        == 0x1680 || (0x2000 <= code && code <= 0x200A) || code == 0x2028 || code == 0x2029
        || code == 0x202F || code == 0x205F || code == 0x3000
}

/// Where the trimmed text starts and ends among the characters.
pub fn trim_bounds(chars: &Vec<char>) -> (bounds: (usize, usize))
    ensures
        bounds.0 <= bounds.1 <= chars@.len(),
        chars@.subrange(bounds.0 as int, bounds.1 as int) == trimmed(chars@),
{
    let n: usize = chars.len();
    let mut start: usize = 0;
    proof {
        assert(chars@.skip(0) =~= chars@);
        assert(chars@.take(n as int) =~= chars@);
    }
    while start < n && is_whitespace(chars[start])
        invariant
            start <= n == chars@.len(),
            forall|k: int| 0 <= k < start ==> is_space(chars@[k]),
            leading_spaces(chars@) == start + leading_spaces(chars@.skip(start as int)),
        decreases n - start,
    {
        proof {
            assert(chars@.skip(start as int)[0] == chars@[start as int]);
            assert(chars@.skip(start as int).drop_first() =~= chars@.skip(start + 1));
        }
        start += 1;
    }
    proof {
        if start < n {
            assert(chars@.skip(start as int)[0] == chars@[start as int]);
        }
        assert(leading_spaces(chars@) == start);
    }
    let mut end: usize = n;
    while end > start && is_whitespace(chars[end - 1])
        invariant
            start <= end <= n == chars@.len(),
            content_end(chars@) == content_end(chars@.take(end as int)),
            leading_spaces(chars@) == start,
            start < n ==> !is_space(chars@[start as int]),
            forall|k: int| 0 <= k < start ==> is_space(chars@[k]),
        decreases end,
    {
        proof {
            assert(chars@.take(end as int).drop_last() =~= chars@.take(end - 1));
        }
        end -= 1;
    }
    proof {
        lemma_content_end_after_spaces(chars@, start as int, end as int);
        if start >= content_end(chars@) {
            assert(chars@.subrange(start as int, end as int) =~= Seq::<char>::empty());
        }
    }
    (start, end)
}

/// Where scanning back from `end` stops, given that everything before
/// `start` is white space and scanning stopped at `end`.
proof fn lemma_content_end_after_spaces(text: Seq<char>, start: int, end: int)
    requires
        0 <= start <= end <= text.len(),
        content_end(text) == content_end(text.take(end)),
        end > start ==> !is_space(text[end - 1]),
        forall|k: int| 0 <= k < start ==> is_space(text[k]),
    ensures
        end > start ==> content_end(text) == end,
        end == start ==> content_end(text) <= start,
    decreases end,
{
    let head = text.take(end);
    if end > start {
        assert(head.last() == text[end - 1]);
    } else if end > 0 {
        assert(head.last() == text[end - 1]);
        assert(head.drop_last() =~= text.take(end - 1));
        lemma_content_end_bounded(text.take(end - 1));
    }
}

/// The content never ends behind the text.
proof fn lemma_content_end_bounded(text: Seq<char>)
    ensures
        0 <= content_end(text) <= text.len(),
    decreases text.len(),
{
    if text.len() > 0 && is_space(text.last()) {
        lemma_content_end_bounded(text.drop_last());
    }
}

/// The text without the white space at its start and at its end.
pub fn trim(text: &str) -> (inner: &str)
    ensures
        inner@ == trimmed(text@),
{
    let chars = to_chars(text);
    let (start, end) = trim_bounds(&chars);
    text.substring_char(start, end)
}

/// The pattern stands in the text at this position.
pub open spec fn occurs_at(text: Seq<char>, pattern: Seq<char>, at: int) -> bool {
    0 <= at && at + pattern.len() <= text.len() && text.subrange(at, at + pattern.len())
        == pattern
}

/// The first position from `from` on at which the pattern stands in the
/// text, or -1 where it stands nowhere from there on.
pub open spec fn first_occurrence(text: Seq<char>, pattern: Seq<char>, from: int) -> int
    decreases text.len() + 1 - from,
{
    if from < 0 || from + pattern.len() > text.len() {
        -1
    } else if occurs_at(text, pattern, from) {
        from
    } else {
        first_occurrence(text, pattern, from + 1)
    }
}

/// The text ends with the suffix.
pub open spec fn has_suffix(text: Seq<char>, suffix: Seq<char>) -> bool {
    text.len() >= suffix.len() && text.skip(text.len() - suffix.len()) == suffix
}

/// Whether the pattern stands among the characters at `at`, within the
/// first `upto` of them.
pub fn matches_at(chars: &Vec<char>, upto: usize, pattern: &Vec<char>, at: usize) -> (yes: bool)
    requires
        upto <= chars@.len(),
    ensures
        yes == occurs_at(chars@.take(upto as int), pattern@, at as int),
{
    let m: usize = pattern.len();
    if at > upto || m > upto - at {
        return false;
    }
    let ghost window = chars@.take(upto as int).subrange(at as int, at + m);
    let mut k: usize = 0;
    while k < m
        invariant
            k <= m == pattern@.len(),
            at + m <= upto <= chars@.len(),
            window == chars@.take(upto as int).subrange(at as int, at + m),
            forall|j: int| 0 <= j < k ==> window[j] == pattern@[j],
        decreases m - k,
    {
        if chars[at + k] != pattern[k] {
            assert(window[k as int] != pattern@[k as int]);
            return false;
        }
        k += 1;
    }
    assert(window =~= pattern@);
    true
}

/// Looks for the first position from `from` on at which the pattern stands
/// among the first `upto` characters.
pub fn find_first(chars: &Vec<char>, upto: usize, pattern: &Vec<char>, from: usize) -> (found:
    Option<usize>)
    requires
        from <= upto <= chars@.len(),
    ensures
        match found {
            Some(at) => at == first_occurrence(chars@.take(upto as int), pattern@, from as int)
                && from <= at && at + pattern@.len() <= upto,
            None => first_occurrence(chars@.take(upto as int), pattern@, from as int) == -1,
        },
{
    let m: usize = pattern.len();
    let ghost text = chars@.take(upto as int);
    let mut at: usize = from;
    while m <= upto - at
        invariant
            from <= at <= upto <= chars@.len(),
            m == pattern@.len(),
            text == chars@.take(upto as int),
            first_occurrence(text, pattern@, from as int) == first_occurrence(
                text,
                pattern@,
                at as int,
            ),
        decreases upto - at,
    {
        if matches_at(chars, upto, pattern, at) {
            return Some(at);
        }
        proof {
            if m == 0 {
                assert(text.subrange(at as int, at as int) =~= pattern@);
            }
        }
        at += 1;
    }
    None
}

/// Whether the characters from `from` up to `to` end with the suffix.
pub fn ends_with(chars: &Vec<char>, from: usize, to: usize, suffix: &Vec<char>) -> (yes: bool)
    requires
        from <= to <= chars@.len(),
    ensures
        yes == has_suffix(chars@.subrange(from as int, to as int), suffix@),
{
    let m: usize = suffix.len();
    if m > to - from {
        return false;
    }
    let yes = matches_at(chars, to, suffix, to - m);
    proof {
        let text = chars@.subrange(from as int, to as int);
        assert(text.skip(text.len() - m) =~= chars@.take(to as int).subrange(to - m, to as int));
    }
    yes
}

} // verus!
