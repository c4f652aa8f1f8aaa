//! What the operations on text come to.

use crate::hashing::{hash_of, hex, hex_digit, sha256};
use crate::laws::terms::{
    blank, caseless, digit_value, hashes, number_of, same_letter, trims_to, white, writes_bytes,
};
use crate::managed::{decimal, masked};
use crate::minting::{id_of, secret_of};
use crate::text::{
    ascii_upper, ascii_uppercase, first_index, is_white_space, lemma_first_index_after,
    lemma_first_index_bounds, optional_text, split_at_first, texts, trimmed, words,
};
use vstd::prelude::*;
use vstd::utf8::encode_utf8;

verus! {

/// White space is what Unicode says it is.
pub proof fn law_white_space(c: char)
    ensures
        is_white_space(c) <==> white(c),
{
}

/// Trimming leaves what stands between the white space at the two ends, and only that.
pub proof fn law_trimming(s: Seq<char>, t: Seq<char>)
    ensures
        trimmed(s) == t <==> trims_to(s, t),
{
    lemma_trimmed_is_left(s);
    if trims_to(s, t) {
        let (before, after) = choose|before: Seq<char>, after: Seq<char>|
            blank(before) && blank(after) && s == #[trigger] ((before + t) + after);
        lemma_left_is_trimmed(before, t, after);
    }
}

proof fn lemma_trimmed_is_left(s: Seq<char>)
    ensures
        trims_to(s, trimmed(s)),
    decreases s.len(),
{
    let t = trimmed(s);
    if s.len() > 0 {
        law_white_space(s[0]);
        law_white_space(s.last());
    }
    if s.len() == 0 {
        let none = Seq::<char>::empty();
        assert(blank(none));
        assert(s =~= (none + t) + none);
    } else if is_white_space(s[0]) {
        lemma_trimmed_is_left(s.drop_first());
        let (before, after) = choose|before: Seq<char>, after: Seq<char>|
            blank(before) && blank(after) && s.drop_first() == #[trigger] ((before + t) + after);
        let longer = seq![s[0]] + before;
        assert forall|i: int| 0 <= i < longer.len() implies white(#[trigger] longer[i]) by {
            if i > 0 {
                assert(longer[i] == before[i - 1]);
            }
        }
        assert(blank(longer));
        assert(s =~= seq![s[0]] + s.drop_first());
        assert(s =~= (longer + t) + after);
    } else if is_white_space(s.last()) {
        lemma_trimmed_is_left(s.drop_last());
        let (before, after) = choose|before: Seq<char>, after: Seq<char>|
            blank(before) && blank(after) && s.drop_last() == #[trigger] ((before + t) + after);
        let longer = after + seq![s.last()];
        assert forall|i: int| 0 <= i < longer.len() implies white(#[trigger] longer[i]) by {
            if i < after.len() {
                assert(longer[i] == after[i]);
            }
        }
        assert(blank(longer));
        assert(s =~= s.drop_last() + seq![s.last()]);
        assert(s =~= (before + t) + longer);
    } else {
        let none = Seq::<char>::empty();
        assert(blank(none));
        assert(s =~= (none + t) + none);
    }
}

proof fn lemma_left_is_trimmed(before: Seq<char>, t: Seq<char>, after: Seq<char>)
    requires
        blank(before),
        blank(after),
        t.len() > 0 ==> !white(t[0]) && !white(t.last()),
    ensures
        trimmed((before + t) + after) == t,
    decreases before.len() + after.len(),
{
    let s = (before + t) + after;
    if before.len() > 0 {
        assert(s[0] == before[0]);
        assert(white(before[0]));
        law_white_space(s[0]);
        assert(s.drop_first() =~= (before.drop_first() + t) + after);
        assert forall|i: int| 0 <= i < before.drop_first().len() implies white(
            #[trigger] before.drop_first()[i],
        ) by {
            assert(before.drop_first()[i] == before[i + 1]);
        }
        lemma_left_is_trimmed(before.drop_first(), t, after);
    } else if after.len() > 0 {
        assert(s.last() == after.last());
        assert(white(after[after.len() - 1]));
        law_white_space(s.last());
        assert(s.drop_last() =~= (before + t) + after.drop_last());
        assert forall|i: int| 0 <= i < after.drop_last().len() implies white(
            #[trigger] after.drop_last()[i],
        ) by {
            assert(after.drop_last()[i] == after[i]);
        }
        if t.len() == 0 {
            assert(s[0] == after[0]);
            assert(white(after[0]));
            law_white_space(s[0]);
            assert(s =~= after);
            assert forall|i: int| 0 <= i < after.drop_first().len() implies white(
                #[trigger] after.drop_first()[i],
            ) by {
                assert(after.drop_first()[i] == after[i + 1]);
            }
            lemma_left_is_trimmed(before, t, after.drop_first());
            assert(s.drop_first() =~= (before + t) + after.drop_first());
        } else {
            assert(s[0] == t[0]);
            law_white_space(s[0]);
            lemma_left_is_trimmed(before, t, after.drop_last());
        }
    } else {
        assert(s =~= t);
        if t.len() > 0 {
            law_white_space(t[0]);
            law_white_space(t.last());
        }
    }
}

/// The capitals of two texts are the same just where the texts are, but for the case of ASCII
/// letters.
pub proof fn law_capitals(a: Seq<char>, b: Seq<char>)
    ensures
        ascii_uppercase(a) == ascii_uppercase(b) <==> caseless(a, b),
        caseless(ascii_uppercase(a), a),
        forall|i: int|
            0 <= i < a.len() ==> !('a' <= #[trigger] ascii_uppercase(a)[i] <= 'z'),
{
    if ascii_uppercase(a) == ascii_uppercase(b) {
        assert(a.len() == ascii_uppercase(a).len());
        assert(b.len() == ascii_uppercase(b).len());
        assert forall|i: int| 0 <= i < a.len() implies same_letter(#[trigger] a[i], b[i]) by {
            assert(ascii_uppercase(a)[i] == ascii_upper(a[i]));
            assert(ascii_uppercase(b)[i] == ascii_upper(b[i]));
        }
    }
    if caseless(a, b) {
        assert forall|i: int| 0 <= i < a.len() implies ascii_upper(#[trigger] a[i]) == ascii_upper(
            b[i],
        ) by {
            assert(same_letter(a[i], b[i]));
        }
        assert(ascii_uppercase(a) =~= ascii_uppercase(b));
    }
    assert forall|i: int| 0 <= i < a.len() implies same_letter(
        #[trigger] ascii_uppercase(a)[i],
        a[i],
    ) by {
    }
}

/// A text is split at the first mark that it holds, and where it holds none it is not split.
pub proof fn law_splitting(s: Seq<char>, mark: char, a: Seq<char>, b: Seq<char>)
    ensures
        split_at_first(s, mark) == Some((a, b)) <==> s == a + seq![mark] + b && !a.contains(mark),
        split_at_first(s, mark) is None <==> !s.contains(mark),
        first_index(a, mark) == a.len() <==> !a.contains(mark),
{
    lemma_first_index_bounds(s, mark);
    lemma_mark_found(s, mark);
    lemma_mark_found(a, mark);
    lemma_first_index_bounds(a, mark);
    let at = first_index(s, mark);
    if at < s.len() {
        assert(s =~= s.subrange(0, at) + seq![mark] + s.subrange(at + 1, s.len() as int));
    }
    if s == a + seq![mark] + b && !a.contains(mark) {
        let rest = seq![mark] + b;
        assert(s =~= a + rest);
        assert(rest[0] == mark);
        lemma_first_index_after(a, mark, rest);
        assert(s.subrange(0, at) =~= a);
        assert(s.subrange(at + 1, s.len() as int) =~= b);
    }
}

proof fn lemma_mark_found(s: Seq<char>, mark: char)
    ensures
        first_index(s, mark) < s.len() ==> s[first_index(s, mark)] == mark,
        forall|i: int| 0 <= i < first_index(s, mark) && i < s.len() ==> s[i] != mark,
        first_index(s, mark) < s.len() ==> s.contains(mark),
        first_index(s, mark) < s.len() ==> !s.subrange(0, first_index(s, mark)).contains(mark),
        first_index(s, mark) >= s.len() ==> !s.contains(mark),
    decreases s.len(),
{
    lemma_first_index_bounds(s, mark);
    if s.len() > 0 && s[0] != mark {
        let rest = s.drop_first();
        lemma_mark_found(rest, mark);
        lemma_first_index_bounds(rest, mark);
        assert forall|i: int| 0 <= i < first_index(s, mark) && i < s.len() implies s[i] != mark by {
            if i > 0 {
                assert(s[i] == rest[i - 1]);
            }
        }
        if first_index(s, mark) < s.len() {
            assert(s[first_index(s, mark)] == rest[first_index(rest, mark)]);
        }
    }
}

/// The words of a text are what stands between its spaces, of which there may be any number.
pub proof fn law_words(word: Seq<char>, rest: Seq<char>)
    ensures
        words(Seq::<char>::empty()) == Seq::<Seq<char>>::empty(),
        words(seq![' '] + rest) == words(rest),
        word.len() > 0 && !word.contains(' ') ==> words(word) == seq![word] && words(
            word + seq![' '] + rest,
        ) == seq![word] + words(rest),
{
    let none = Seq::<char>::empty();
    law_splitting(none, ' ', none, none);
    assert(seq![' '] + rest =~= none + seq![' '] + rest);
    law_splitting(seq![' '] + rest, ' ', none, rest);
    if word.len() > 0 && !word.contains(' ') {
        law_splitting(word, ' ', none, none);
        law_splitting(word + seq![' '] + rest, ' ', word, rest);
    }
}

/// What strings hold is what each of them holds, in order.
pub proof fn law_texts(strings: Seq<String>, i: int, s: Option<String>)
    ensures
        texts(strings).len() == strings.len(),
        0 <= i < strings.len() ==> texts(strings)[i] == strings[i]@,
        s matches Some(text) ==> optional_text(s) == Some(text@),
        s is None ==> optional_text(s) is None,
{
}

/// The digits of bytes are two for each, in small letters, and write them.
pub proof fn law_hexadecimal(bytes: Seq<u8>, s: Seq<char>)
    ensures
        hex(bytes) == s <==> writes_bytes(s, bytes),
{
    assert forall|i: int| 0 <= i < bytes.len() implies #[trigger] bytes[i] as int == 16
        * digit_value(hex(bytes)[2 * i]) + digit_value(hex(bytes)[2 * i + 1]) by {
        lemma_two_digits(bytes, i);
    }
    assert(writes_bytes(hex(bytes), bytes));
    if writes_bytes(s, bytes) {
        assert forall|k: int| 0 <= k < s.len() implies s[k] == hex(bytes)[k] by {
            let i = k / 2;
            assert(0 <= i < bytes.len());
            assert(bytes[i] as int == 16 * digit_value(s[2 * i]) + digit_value(s[2 * i + 1]));
            lemma_two_digits(bytes, i);
            lemma_same_digits(s[2 * i], s[2 * i + 1], hex(bytes)[2 * i], hex(bytes)[2 * i + 1]);
            assert(k == 2 * i || k == 2 * i + 1);
        }
        assert(s =~= hex(bytes));
    }
}

proof fn lemma_two_digits(bytes: Seq<u8>, i: int)
    requires
        0 <= i < bytes.len(),
    ensures
        hex(bytes)[2 * i] == hex_digit(bytes[i] / 16),
        hex(bytes)[2 * i + 1] == hex_digit(bytes[i] % 16),
        bytes[i] as int == 16 * digit_value(hex(bytes)[2 * i]) + digit_value(hex(bytes)[2 * i + 1]),
{
    assert((2 * i) / 2 == i && (2 * i + 1) / 2 == i);
    assert((2 * i) % 2 == 0 && (2 * i + 1) % 2 == 1);
}

/// Digits of the same number are the same.
proof fn lemma_same_digits(a: char, b: char, c: char, d: char)
    requires
        16 * digit_value(a) + digit_value(b) == 16 * digit_value(c) + digit_value(d),
        '0' <= a && a <= '9' || 'a' <= a && a <= 'f',
        '0' <= b && b <= '9' || 'a' <= b && b <= 'f',
        '0' <= c && c <= '9' || 'a' <= c && c <= 'f',
        '0' <= d && d <= '9' || 'a' <= d && d <= 'f',
    ensures
        a == c,
        b == d,
{
}

/// A secret is kept as the digits of the SHA-256 of its UTF-8.
pub proof fn law_hash(secret: Seq<char>, hash: Seq<char>)
    ensures
        hash_of(secret) == hash <==> hashes(secret, hash),
{
    law_hexadecimal(sha256(encode_utf8(secret)), hash);
}

/// The decimal digits of a number write it, without a zero before them.
pub proof fn law_decimal(n: nat)
    ensures
        number_of(decimal(n)) == n,
        decimal(n).len() > 0,
        decimal(n)[0] == '0' ==> n == 0,
        forall|i: int| 0 <= i < decimal(n).len() ==> '0' <= #[trigger] decimal(n)[i] <= '9',
    decreases n,
{
    let digits = decimal(n);
    if n < 10 {
        assert(digits.drop_last() =~= Seq::<char>::empty());
        assert(number_of(digits.drop_last()) == 0);
    } else {
        law_decimal(n / 10);
        assert(digits.drop_last() =~= decimal(n / 10));
        assert(digits[0] == decimal(n / 10)[0]);
    }
}

/// What is shown of a secret is its beginning and an ellipsis: eight characters, or as many as are
/// no more than a quarter of it.
pub proof fn law_mask(secret: Seq<char>, shown: int)
    requires
        0 <= shown <= 8,
        4 * shown <= secret.len(),
        shown == 8 || secret.len() < 4 * (shown + 1),
    ensures
        masked(secret) == secret.take(shown) + seq!['\u{2026}'],
{
    reveal_strlit("\u{2026}");
    assert("\u{2026}"@ =~= seq!['\u{2026}']);
    assert(secret.subrange(0, shown) =~= secret.take(shown));
}

/// The secret of a new key writes the first twenty-four random bytes behind `pba_`, and its name the
/// other eight.
pub proof fn law_new_secret(entropy: Seq<u8>, digits: Seq<char>, id: Seq<char>)
    requires
        entropy.len() == 32,
        writes_bytes(digits, entropy.take(24)),
        writes_bytes(id, entropy.skip(24)),
    ensures
        secret_of(entropy) == seq!['p', 'b', 'a', '_'] + digits,
        id_of(entropy) == id,
{
    reveal_strlit("pba_");
    assert("pba_"@ =~= seq!['p', 'b', 'a', '_']);
    assert(entropy.subrange(0, 24) =~= entropy.take(24));
    assert(entropy.subrange(24, 32) =~= entropy.skip(24));
    law_hexadecimal(entropy.take(24), digits);
    law_hexadecimal(entropy.skip(24), id);
}

} // verus!
