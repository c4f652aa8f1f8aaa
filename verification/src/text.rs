//! Operations on text, stated over the characters of a string.

use vstd::prelude::*;
use vstd::utf8::{encode_utf8, encode_utf8_decode_utf8};

verus! {

/// The characters that Unicode gives the property `White_Space`.
pub open spec fn is_white_space(c: char) -> bool {
    ||| '\u{9}' <= c <= '\u{d}'
    ||| c == '\u{20}'
    ||| c == '\u{85}'
    ||| c == '\u{a0}'
    ||| c == '\u{1680}'
    ||| '\u{2000}' <= c <= '\u{200a}'
    ||| c == '\u{2028}'
    ||| c == '\u{2029}'
    ||| c == '\u{202f}'
    ||| c == '\u{205f}'
    ||| c == '\u{3000}'
}

/// `s` without the white space at its two ends.
pub open spec fn trimmed(s: Seq<char>) -> Seq<char>
    decreases s.len(),
{
    if s.len() == 0 {
        s
    } else if is_white_space(s[0]) {
        trimmed(s.drop_first())
    } else if is_white_space(s.last()) {
        trimmed(s.drop_last())
    } else {
        s
    }
}

/// The capital of an ASCII letter; any other character is its own.
pub open spec fn ascii_upper(c: char) -> char {
    if 'a' <= c <= 'z' {
        (c as u32 - 32) as char
    } else {
        c
    }
}

/// `s` with every ASCII letter made a capital.
pub open spec fn ascii_uppercase(s: Seq<char>) -> Seq<char> {
    Seq::new(s.len(), |i: int| ascii_upper(s[i]))
}

/// The position of the first `mark` in `s`, or the length of `s` where it holds none.
pub open spec fn first_index(s: Seq<char>, mark: char) -> int
    decreases s.len(),
{
    if s.len() == 0 || s[0] == mark {
        0
    } else {
        1 + first_index(s.drop_first(), mark)
    }
}

/// What stands before and after the first `mark` of `s`.
pub open spec fn split_at_first(s: Seq<char>, mark: char) -> Option<(Seq<char>, Seq<char>)> {
    let at = first_index(s, mark);
    if at < s.len() {
        Some((s.subrange(0, at), s.subrange(at + 1, s.len() as int)))
    } else {
        None
    }
}

/// The words of `s`: what stands between its spaces.
pub open spec fn words(s: Seq<char>) -> Seq<Seq<char>>
    decreases s.len(),
{
    proof {
        lemma_first_index_bounds(s, ' ');
    }
    match split_at_first(s, ' ') {
        Some((word, rest)) => if word.len() == 0 {
            words(rest)
        } else {
            seq![word] + words(rest)
        },
        None => if s.len() == 0 {
            seq![]
        } else {
            seq![s]
        },
    }
}

/// What the strings hold, in order.
pub open spec fn texts(strings: Seq<String>) -> Seq<Seq<char>> {
    Seq::new(strings.len(), |i: int| strings[i]@)
}

/// The first position of a mark is one of the text, or its end.
pub proof fn lemma_first_index_bounds(s: Seq<char>, mark: char)
    ensures
        0 <= first_index(s, mark) <= s.len(),
    decreases s.len(),
{
    if s.len() != 0 && s[0] != mark {
        lemma_first_index_bounds(s.drop_first(), mark);
    }
}

/// A mark that `before` does not hold is first found where it is first found in what follows.
pub proof fn lemma_first_index_after(before: Seq<char>, mark: char, after: Seq<char>)
    requires
        !before.contains(mark),
    ensures
        first_index(before + after, mark) == before.len() + first_index(after, mark),
    decreases before.len(),
{
    if before.len() == 0 {
        assert(before + after == after);
    } else {
        assert(before[0] != mark);
        assert((before + after).drop_first() == before.drop_first() + after);
        assert(!before.drop_first().contains(mark)) by {
            if before.drop_first().contains(mark) {
                let i = choose|i: int|
                    0 <= i < before.drop_first().len() && before.drop_first()[i] == mark;
                assert(before[i + 1] == mark);
            }
        }
        lemma_first_index_after(before.drop_first(), mark, after);
    }
}

/// `String::push` appends one character to a string.
pub assume_specification[ String::push ](s: &mut String, ch: char)
    ensures
        final(s)@ == old(s)@.push(ch),
;

/// The characters of `s`, in order.
pub(crate) fn chars_of(s: &str) -> (chars: Vec<char>)
    ensures
        chars@ == s@,
{
    let mut chars: Vec<char> = Vec::new();
    for c in iter: s.chars()
        invariant
            iter.seq() == s@,
            chars@ == s@.take(iter.index()),
    {
        chars.push(c);
    }
    chars
}

/// The string made of `chars[from..to]`.
pub(crate) fn string_of(chars: &Vec<char>, from: usize, to: usize) -> (s: String)
    requires
        from <= to <= chars@.len(),
    ensures
        s@ == chars@.subrange(from as int, to as int),
{
    let mut s = String::new();
    for i in from..to
        invariant
            from <= to <= chars@.len(),
            s@ == chars@.subrange(from as int, i as int),
    {
        s.push(chars[i]);
    }
    s
}

/// Two strings are equal as soon as their encodings are.
pub proof fn lemma_encoding_is_injective(a: Seq<char>, b: Seq<char>)
    requires
        encode_utf8(a) == encode_utf8(b),
    ensures
        a == b,
{
    encode_utf8_decode_utf8(a);
    encode_utf8_decode_utf8(b);
}

/// Whether two strings hold the same characters.
pub fn same_text(a: &str, b: &str) -> (same: bool)
    ensures
        same == (a@ == b@),
{
    let left = a.as_bytes();
    let right = b.as_bytes();
    if left.len() != right.len() {
        return false;
    }
    for i in 0..left.len()
        invariant
            left@ == encode_utf8(a@),
            right@ == encode_utf8(b@),
            left@.len() == right@.len(),
            left@.take(i as int) == right@.take(i as int),
    {
        if left[i] != right[i] {
            return false;
        }
        assert(left@.take(i + 1) == left@.take(i as int).push(left@[i as int]));
        assert(right@.take(i + 1) == right@.take(i as int).push(right@[i as int]));
    }
    proof {
        assert(left@.take(left@.len() as int) == left@);
        assert(right@.take(right@.len() as int) == right@);
        lemma_encoding_is_injective(a@, b@);
    }
    true
}

/// Whether `list` holds `s`.
pub fn lists_text(list: &Vec<String>, s: &str) -> (lists: bool)
    ensures
        lists == texts(list@).contains(s@),
{
    for i in 0..list.len()
        invariant
            forall|j: int| 0 <= j < i ==> (#[trigger] list@[j])@ != s@,
    {
        if same_text(list[i].as_str(), s) {
            assert(texts(list@)[i as int] == s@);
            return true;
        }
    }
    assert forall|j: int| 0 <= j < texts(list@).len() implies texts(list@)[j] != s@ by {
        assert(list@[j]@ != s@);
    }
    false
}

/// A copy of the strings.
pub(crate) fn copy_texts(list: &Vec<String>) -> (copy: Vec<String>)
    ensures
        texts(copy@) == texts(list@),
{
    let mut copy: Vec<String> = Vec::new();
    for i in 0..list.len()
        invariant
            copy@.len() == i,
            forall|j: int| 0 <= j < i ==> (#[trigger] copy@[j])@ == list@[j]@,
    {
        copy.push(list[i].clone());
    }
    assert(texts(copy@) =~= texts(list@));
    copy
}

/// What an optional string holds.
pub open spec fn optional_text(s: Option<String>) -> Option<Seq<char>> {
    match s {
        Some(text) => Some(text@),
        None => None,
    }
}

/// A copy of an optional string.
pub(crate) fn copy_optional(s: &Option<String>) -> (copy: Option<String>)
    ensures
        optional_text(copy) == optional_text(*s),
{
    match s {
        Some(text) => Some(text.clone()),
        None => None,
    }
}

/// The string that holds `a` and then `b`.
pub(crate) fn joined(a: &str, b: &str) -> (s: String)
    ensures
        s@ == a@ + b@,
{
    let mut s = String::from_str(a);
    s.append(b);
    s
}

fn white_space(c: char) -> (is: bool)
    ensures
        is == is_white_space(c),
{
    ('\u{9}' <= c && c <= '\u{d}') || c == '\u{20}' || c == '\u{85}' || c == '\u{a0}' || c
        == '\u{1680}' || ('\u{2000}' <= c && c <= '\u{200a}') || c == '\u{2028}' || c == '\u{2029}'
        || c == '\u{202f}' || c == '\u{205f}' || c == '\u{3000}'
}

/// `s` without the white space at its two ends.
pub fn trim(s: &str) -> (t: String)
    ensures
        t@ == trimmed(s@),
{
    let chars = chars_of(s);
    let mut from: usize = 0;
    let mut to: usize = chars.len();
    assert(chars@.subrange(0, to as int) == s@);
    while from < to && white_space(chars[from])
        invariant
            from <= to == chars@.len(),
            trimmed(chars@.subrange(from as int, to as int)) == trimmed(s@),
        decreases to - from,
    {
        assert(chars@.subrange(from as int, to as int).drop_first() == chars@.subrange(
            from + 1,
            to as int,
        ));
        from += 1;
    }
    while from < to && white_space(chars[to - 1])
        invariant
            from <= to <= chars@.len(),
            from < to ==> !is_white_space(chars@[from as int]),
            trimmed(chars@.subrange(from as int, to as int)) == trimmed(s@),
        decreases to - from,
    {
        assert(chars@.subrange(from as int, to as int).drop_last() == chars@.subrange(
            from as int,
            to - 1,
        ));
        to -= 1;
    }
    string_of(&chars, from, to)
}

/// `s` with every ASCII letter made a capital.
pub fn to_ascii_uppercase(s: &str) -> (upper: String)
    ensures
        upper@ == ascii_uppercase(s@),
{
    let chars = chars_of(s);
    let mut upper = String::new();
    for i in 0..chars.len()
        invariant
            chars@ == s@,
            upper@ == ascii_uppercase(s@.take(i as int)),
    {
        let c = chars[i];
        if 'a' <= c && c <= 'z' {
            let code: u8 = c as u8 - 32;
            upper.push(code as char);
        } else {
            upper.push(c);
        }
    }
    assert(s@.take(s@.len() as int) == s@);
    upper
}

/// Whether two strings differ at most in the case of their ASCII letters.
pub fn eq_ignore_ascii_case(a: &str, b: &str) -> (same: bool)
    ensures
        same == (ascii_uppercase(a@) == ascii_uppercase(b@)),
{
    same_text(to_ascii_uppercase(a).as_str(), to_ascii_uppercase(b).as_str())
}

/// What stands before and after the first `mark` of `s`.
pub fn split_once(s: &str, mark: char) -> (halves: Option<(String, String)>)
    ensures
        match halves {
            Some((before, after)) => split_at_first(s@, mark) == Some((before@, after@)),
            None => split_at_first(s@, mark) is None,
        },
{
    let chars = chars_of(s);
    let mut at: usize = 0;
    assert(s@.subrange(0, s@.len() as int) == s@);
    while at < chars.len() && chars[at] != mark
        invariant
            chars@ == s@,
            at <= s@.len(),
            first_index(s@, mark) == at + first_index(s@.subrange(at as int, s@.len() as int), mark),
        decreases s@.len() - at,
    {
        assert(s@.subrange(at as int, s@.len() as int).drop_first() == s@.subrange(
            at + 1,
            s@.len() as int,
        ));
        at += 1;
    }
    if at < chars.len() {
        Some((string_of(&chars, 0, at), string_of(&chars, at + 1, chars.len())))
    } else {
        None
    }
}

/// The words of `s`: what stands between its spaces.
pub fn split_words(s: &str) -> (list: Vec<String>)
    ensures
        texts(list@) == words(s@),
{
    let chars = chars_of(s);
    let mut list: Vec<String> = Vec::new();
    let mut from: usize = 0;
    assert(chars@.skip(0) == s@);
    assert(texts(list@) + words(s@) == words(s@));
    loop
        invariant
            chars@ == s@,
            from <= chars@.len(),
            texts(list@) + words(chars@.skip(from as int)) == words(s@),
        decreases chars@.len() - from,
    {
        let ghost rest = chars@.skip(from as int);
        let ghost before = texts(list@);
        let mut to: usize = from;
        while to < chars.len() && chars[to] != ' '
            invariant
                from <= to <= chars@.len(),
                rest == chars@.skip(from as int),
                first_index(rest, ' ') == to - from + first_index(chars@.skip(to as int), ' '),
            decreases chars@.len() - to,
        {
            assert(chars@.skip(to as int).drop_first() == chars@.skip(to + 1));
            to += 1;
        }
        assert(first_index(rest, ' ') == to - from);
        let ghost word = rest.subrange(0, to - from);
        assert(chars@.subrange(from as int, to as int) == word);
        if from < to {
            list.push(string_of(&chars, from, to));
            assert(texts(list@) == before + seq![word]);
        }
        if to == chars.len() {
            assert(word == rest);
            assert(texts(list@) == words(s@));
            return list;
        }
        assert(rest.subrange(to - from + 1, rest.len() as int) == chars@.skip(to + 1));
        assert(texts(list@) + words(chars@.skip(to + 1)) == before + words(rest));
        from = to + 1;
    }
}

} // verus!
