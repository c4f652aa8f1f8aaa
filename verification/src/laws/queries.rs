//! What queries say.

use crate::laws::texts::law_splitting;
use crate::query::{
    form_decoded, hex_value, leading_escape, parse_query, percent_decode, query_params,
    replaced_text, unescaped, with_pair, with_query,
};
use crate::string_map::StringMap;
use crate::text::{first_index, lemma_first_index_after, lemma_first_index_bounds};
use vstd::prelude::*;
use vstd::utf8::{
    char_u32_cast, decode_utf8, decode_utf8_encode_utf8, encode_scalar, encode_utf8,
    encode_utf8_decode_utf8, encode_utf8_valid_utf8, is_ascii_chars, is_ascii_chars_encode_utf8,
    valid_utf8,
};

verus! {

/// The hexadecimal digit of a value below sixteen.
pub open spec fn hex_char(value: u8) -> u8 {
    if value < 10 {
        (0x30 + value) as u8
    } else {
        (0x41 + value - 10) as u8
    }
}

/// The escape `%XX` of a byte.
pub open spec fn escape(byte: u8) -> Seq<u8> {
    seq![0x25, hex_char(byte / 16), hex_char(byte % 16)]
}

/// The escapes of all the bytes.
pub open spec fn escaped(bytes: Seq<u8>) -> Seq<u8>
    decreases bytes.len(),
{
    if bytes.len() == 0 {
        seq![]
    } else {
        escape(bytes[0]) + escaped(bytes.skip(1))
    }
}

/// A text as a client may write it into a query: every byte of it escaped.
pub open spec fn form_encoded(s: Seq<char>) -> Seq<char> {
    let bytes = escaped(encode_utf8(s));
    Seq::new(bytes.len(), |i: int| bytes[i] as char)
}

/// An escape stands for its byte, whatever follows it.
pub proof fn law_escape_is_undone(byte: u8, rest: Seq<u8>)
    ensures
        unescaped(escape(byte) + rest) == seq![byte] + unescaped(rest),
{
    let bytes = escape(byte) + rest;
    assert(bytes[0] == 0x25 && bytes[1] == hex_char(byte / 16) && bytes[2] == hex_char(byte % 16));
    assert(hex_value(hex_char(byte / 16)) == Some((byte / 16) as u8));
    assert(hex_value(hex_char(byte % 16)) == Some((byte % 16) as u8));
    assert((byte / 16) * 16 + byte % 16 == byte);
    assert(leading_escape(bytes) == Some(byte));
    assert(bytes.skip(3) == rest);
}

/// Bytes that are all escaped are read back, whatever they are.
pub proof fn law_escaped_bytes_are_read_back(bytes: Seq<u8>)
    ensures
        unescaped(escaped(bytes)) == bytes,
    decreases bytes.len(),
{
    if bytes.len() > 0 {
        law_escape_is_undone(bytes[0], escaped(bytes.skip(1)));
        law_escaped_bytes_are_read_back(bytes.skip(1));
        assert(seq![bytes[0]] + bytes.skip(1) == bytes);
    }
}

/// A `+` is a space.
pub proof fn law_plus_is_a_space(rest: Seq<u8>)
    ensures
        unescaped(seq![0x2bu8] + rest) == seq![0x20u8] + unescaped(rest),
{
    assert((seq![0x2bu8] + rest).skip(1) == rest);
}

/// A `%` that starts no escape stays as it is, and so does what follows it.
pub proof fn law_malformed_escape_stays(rest: Seq<u8>)
    requires
        rest.len() < 2 || hex_value(rest[0]) is None || hex_value(rest[1]) is None,
    ensures
        unescaped(seq![0x25u8] + rest) == seq![0x25u8] + unescaped(rest),
{
    let bytes = seq![0x25u8] + rest;
    if rest.len() >= 2 {
        assert(bytes[1] == rest[0] && bytes[2] == rest[1]);
    }
    assert(leading_escape(bytes) is None);
    assert(bytes.skip(1) == rest);
}

/// Bytes without `+` and `%` stand for themselves.
pub proof fn law_plain_bytes_are_kept(bytes: Seq<u8>)
    requires
        !bytes.contains(0x2b),
        !bytes.contains(0x25),
    ensures
        unescaped(bytes) == bytes,
    decreases bytes.len(),
{
    if bytes.len() > 0 {
        assert(bytes.contains(bytes[0]));
        let rest = bytes.skip(1);
        assert forall|b: u8| rest.contains(b) implies bytes.contains(b) by {
            let i = choose|i: int| 0 <= i < rest.len() && rest[i] == b;
            assert(bytes[i + 1] == b);
        }
        law_plain_bytes_are_kept(rest);
        assert(seq![bytes[0]] + rest == bytes);
    }
}

/// Whether an escape that bytes begin cannot reach beyond their end.
pub open spec fn ends_closed(bytes: Seq<u8>) -> bool {
    forall|i: int| bytes.len() - 2 <= i < bytes.len() && 0 <= i ==> bytes[i] != 0x25
}

/// Two parts of an encoding are decoded one by one, where no escape reaches from the first into the
/// second.
pub proof fn law_parts_are_unescaped_one_by_one(a: Seq<u8>, b: Seq<u8>)
    requires
        ends_closed(a),
    ensures
        unescaped(a + b) == unescaped(a) + unescaped(b),
    decreases a.len(),
{
    let both = a + b;
    if a.len() == 0 {
        assert(both == b);
        assert(unescaped(a) + unescaped(b) == unescaped(b));
    } else {
        assert(both[0] == a[0]);
        if a.len() >= 3 {
            assert(both[1] == a[1] && both[2] == a[2]);
        }
        assert(leading_escape(both) == leading_escape(a));
        match leading_escape(a) {
            Some(byte) => {
                assert(both.skip(3) == a.skip(3) + b);
                law_parts_are_unescaped_one_by_one(a.skip(3), b);
                assert(unescaped(both) == seq![byte] + unescaped(a.skip(3)) + unescaped(b));
            },
            None => {
                assert(both.skip(1) == a.skip(1) + b);
                law_parts_are_unescaped_one_by_one(a.skip(1), b);
                let first = if a[0] == 0x2b {
                    0x20u8
                } else {
                    a[0]
                };
                assert(unescaped(both) == seq![first] + unescaped(a.skip(1)) + unescaped(b));
            },
        }
    }
}

/// The encoding of two texts is that of the one and then that of the other.
proof fn lemma_encoding_appends(a: Seq<char>, b: Seq<char>)
    ensures
        encode_utf8(a + b) == encode_utf8(a) + encode_utf8(b),
    decreases a.len(),
{
    if a.len() == 0 {
        assert(a + b == b);
        assert(encode_utf8(a) + encode_utf8(b) == encode_utf8(b));
    } else {
        assert((a + b)[0] == a[0]);
        assert((a + b).drop_first() == a.drop_first() + b);
        lemma_encoding_appends(a.drop_first(), b);
        assert(encode_utf8(a + b) == encode_scalar(a[0] as u32) + encode_utf8(a.drop_first())
            + encode_utf8(b));
    }
}

/// Two parts of an encoded text are decoded one by one, where no escape reaches from the first into
/// the second and each stands for UTF-8.
pub proof fn law_parts_are_decoded_one_by_one(a: Seq<char>, b: Seq<char>)
    requires
        ends_closed(encode_utf8(a)),
        valid_utf8(unescaped(encode_utf8(a))),
        valid_utf8(unescaped(encode_utf8(b))),
    ensures
        form_decoded(a + b) == form_decoded(a) + form_decoded(b),
{
    let left = unescaped(encode_utf8(a));
    let right = unescaped(encode_utf8(b));
    lemma_encoding_appends(a, b);
    law_parts_are_unescaped_one_by_one(encode_utf8(a), encode_utf8(b));
    let text = decode_utf8(left) + decode_utf8(right);
    lemma_encoding_appends(decode_utf8(left), decode_utf8(right));
    decode_utf8_encode_utf8(left);
    decode_utf8_encode_utf8(right);
    encode_utf8_decode_utf8(text);
    encode_utf8_valid_utf8(text);
}

/// An ASCII byte in the encoding of a text is one of its characters.
proof fn lemma_ascii_byte_is_a_char(s: Seq<char>, byte: u8)
    requires
        byte < 0x80,
        encode_utf8(s).contains(byte),
    ensures
        s.contains(byte as char),
    decreases s.len(),
{
    if s.len() > 0 {
        let head = encode_scalar(s[0] as u32);
        let tail = encode_utf8(s.drop_first());
        let i = choose|i: int| 0 <= i < encode_utf8(s).len() && encode_utf8(s)[i] == byte;
        if i < head.len() {
            assert(head[i] == byte);
            let c = s[0];
            lemma_scalar_bytes(c as u32, i);
            char_u32_cast(c, c as u32);
            assert(c == byte as char);
        } else {
            assert(tail[i - head.len()] == byte);
            lemma_ascii_byte_is_a_char(s.drop_first(), byte);
            let j = choose|j: int| 0 <= j < s.drop_first().len() && s.drop_first()[j] == byte as char;
            assert(s[j + 1] == byte as char);
        }
    }
}

proof fn lemma_scalar_bytes(scalar: u32, i: int)
    requires
        0 <= i < encode_scalar(scalar).len(),
        encode_scalar(scalar)[i] < 0x80,
    ensures
        scalar == encode_scalar(scalar)[i],
{
    assert(scalar <= 0x7f ==> (scalar & 0x7f) as u8 == scalar) by (bit_vector);
    assert(0xc0u8 | ((scalar >> 6) & 0x1f) as u8 >= 0x80) by (bit_vector);
    assert(0xe0u8 | ((scalar >> 12) & 0x0f) as u8 >= 0x80) by (bit_vector);
    assert(0xf0u8 | ((scalar >> 18) & 0x07) as u8 >= 0x80) by (bit_vector);
    assert(0x80u8 | (scalar & 0x3f) as u8 >= 0x80) by (bit_vector);
    assert(0x80u8 | ((scalar >> 6) & 0x3f) as u8 >= 0x80) by (bit_vector);
    assert(0x80u8 | ((scalar >> 12) & 0x3f) as u8 >= 0x80) by (bit_vector);
}

/// A text without `+` and `%` stands for itself.
pub proof fn law_plain_text_is_kept(s: Seq<char>)
    requires
        !s.contains('+'),
        !s.contains('%'),
    ensures
        form_decoded(s) == s,
{
    let bytes = encode_utf8(s);
    if bytes.contains(0x2b) {
        lemma_ascii_byte_is_a_char(s, 0x2b);
    }
    if bytes.contains(0x25) {
        lemma_ascii_byte_is_a_char(s, 0x25);
    }
    law_plain_bytes_are_kept(bytes);
    encode_utf8_valid_utf8(s);
    encode_utf8_decode_utf8(s);
}

/// Escapes are made of `%` and hexadecimal digits.
proof fn lemma_escaped_bytes(bytes: Seq<u8>, i: int)
    requires
        0 <= i < escaped(bytes).len(),
    ensures
        escaped(bytes)[i] == 0x25 || 0x30 <= escaped(bytes)[i] <= 0x39 || 0x41 <= escaped(bytes)[i]
            <= 0x46,
    decreases bytes.len(),
{
    if bytes.len() > 0 && i >= 3 {
        lemma_escaped_bytes(bytes.skip(1), i - 3);
        assert(escaped(bytes)[i] == escaped(bytes.skip(1))[i - 3]);
    }
}

proof fn lemma_form_encoded(s: Seq<char>)
    ensures
        encode_utf8(form_encoded(s)) == escaped(encode_utf8(s)),
        !form_encoded(s).contains('&'),
        !form_encoded(s).contains('='),
{
    let bytes = escaped(encode_utf8(s));
    let chars = form_encoded(s);
    assert forall|i: int| 0 <= i < chars.len() implies 0 <= (#[trigger] chars[i] as u32) < 128
        && chars[i] != '&' && chars[i] != '=' && chars[i] as u8 == bytes[i] by {
        lemma_escaped_bytes(encode_utf8(s), i);
    }
    assert(is_ascii_chars(chars));
    is_ascii_chars_encode_utf8(chars);
    assert(encode_utf8(chars) =~= bytes);
}

/// A text that is escaped is read back, whatever it is.
pub proof fn law_encoded_text_is_read_back(s: Seq<char>)
    ensures
        form_decoded(form_encoded(s)) == s,
{
    lemma_form_encoded(s);
    law_escaped_bytes_are_read_back(encode_utf8(s));
    encode_utf8_valid_utf8(s);
    encode_utf8_decode_utf8(s);
}

/// A mark that stands nowhere in a text is not found in it.
proof fn lemma_absent_mark(s: Seq<char>, mark: char)
    requires
        !s.contains(mark),
    ensures
        first_index(s, mark) == s.len(),
{
    lemma_first_index_after(s, mark, seq![]);
    assert(s + Seq::<char>::empty() == s);
}

/// The first mark of `before` is the first one of all that starts with it.
proof fn lemma_first_index_within(before: Seq<char>, mark: char, after: Seq<char>)
    requires
        first_index(before, mark) < before.len(),
    ensures
        first_index(before + after, mark) == first_index(before, mark),
    decreases before.len(),
{
    if before[0] != mark {
        assert((before + after).drop_first() == before.drop_first() + after);
        lemma_first_index_within(before.drop_first(), mark, after);
    }
}

proof fn lemma_with_query_appends(
    params: Map<Seq<char>, Seq<char>>,
    query: Seq<char>,
    pair: Seq<char>,
)
    requires
        !pair.contains('&'),
    ensures
        with_query(params, query + seq!['&'] + pair) == with_pair(with_query(params, query), pair),
    decreases query.len(),
{
    let longer = query + seq!['&'] + pair;
    let at = first_index(query, '&');
    lemma_first_index_bounds(query, '&');
    lemma_absent_mark(pair, '&');
    if at < query.len() {
        let rest = query.subrange(at + 1, query.len() as int);
        assert(longer == query + (seq!['&'] + pair));
        lemma_first_index_within(query, '&', seq!['&'] + pair);
        assert(longer.subrange(0, at) == query.subrange(0, at));
        assert(longer.subrange(at + 1, longer.len() as int) == rest + seq!['&'] + pair);
        lemma_with_query_appends(with_pair(params, query.subrange(0, at)), rest, pair);
    } else {
        assert(!query.contains('&')) by {
            lemma_no_mark_before(query, '&');
        }
        lemma_first_index_after(query, '&', seq!['&'] + pair);
        assert(longer == query + (seq!['&'] + pair));
        assert((seq!['&'] + pair)[0] == '&');
        assert(first_index(longer, '&') == query.len());
        assert(longer.subrange(0, query.len() as int) == query);
        assert(longer.subrange(query.len() as int + 1, longer.len() as int) == pair);
        assert(with_query(with_pair(params, query), pair) == with_pair(
            with_pair(params, query),
            pair,
        ));
    }
}

proof fn lemma_no_mark_before(s: Seq<char>, mark: char)
    ensures
        forall|i: int| 0 <= i < first_index(s, mark) ==> s[i] != mark,
    decreases s.len(),
{
    if s.len() > 0 && s[0] != mark {
        lemma_no_mark_before(s.drop_first(), mark);
        lemma_first_index_bounds(s.drop_first(), mark);
        assert forall|i: int| 0 <= i < first_index(s, mark) implies s[i] != mark by {
            if i > 0 {
                assert(s.drop_first()[i - 1] == s[i]);
            }
        }
    }
}

/// One more pair at the end of a query is read after all the others, and changes what they say of
/// its name alone. An empty one changes nothing.
pub proof fn law_last_pair_is_read_last(query: Seq<char>, pair: Seq<char>)
    requires
        !pair.contains('&'),
    ensures
        query_params(query + seq!['&'] + pair) == with_pair(query_params(query), pair),
{
    lemma_with_query_appends(Map::empty(), query, pair);
}

/// A query of one pair says what the pair says, and the empty query nothing.
pub proof fn law_single_pair(pair: Seq<char>)
    requires
        !pair.contains('&'),
    ensures
        query_params(pair) == with_pair(Map::empty(), pair),
        query_params(Seq::empty()) == Map::<Seq<char>, Seq<char>>::empty(),
{
    lemma_absent_mark(pair, '&');
}

/// Of several pairs of one name the last counts.
pub proof fn law_later_duplicate_wins(query: Seq<char>, name: Seq<char>, value: Seq<char>)
    requires
        !name.contains('&'),
        !name.contains('='),
        !value.contains('&'),
    ensures
        query_params(query + seq!['&'] + (name + seq!['='] + value)) == query_params(query).insert(
            form_decoded(name),
            form_decoded(value),
        ),
{
    let pair = name + seq!['='] + value;
    assert(!pair.contains('&')) by {
        if pair.contains('&') {
            let i = choose|i: int| 0 <= i < pair.len() && pair[i] == '&';
            if i < name.len() {
                assert(name[i] == '&');
            } else if i > name.len() {
                assert(value[i - name.len() - 1] == '&');
            }
        }
    }
    law_last_pair_is_read_last(query, pair);
    lemma_first_index_after(name, '=', seq!['='] + value);
    assert(pair == name + (seq!['='] + value));
    assert((seq!['='] + value)[0] == '=');
    assert(pair.subrange(0, name.len() as int) == name);
    assert(pair.subrange(name.len() as int + 1, pair.len() as int) == value);
}

/// A name without `=` has the empty value.
pub proof fn law_bare_name_has_empty_value(query: Seq<char>, name: Seq<char>)
    requires
        name.len() > 0,
        !name.contains('&'),
        !name.contains('='),
    ensures
        query_params(query + seq!['&'] + name) == query_params(query).insert(
            form_decoded(name),
            Seq::<char>::empty(),
        ),
{
    law_last_pair_is_read_last(query, name);
    lemma_absent_mark(name, '=');
    law_plain_text_is_kept(Seq::empty());
}

/// A name and a value that a client escapes are read back, whatever they are and whatever stands
/// before them.
pub proof fn law_encoded_pair_is_read_back(query: Seq<char>, name: Seq<char>, value: Seq<char>)
    ensures
        query_params(
            query + seq!['&'] + (form_encoded(name) + seq!['='] + form_encoded(value)),
        ) == query_params(query).insert(name, value),
{
    lemma_form_encoded(name);
    lemma_form_encoded(value);
    law_encoded_text_is_read_back(name);
    law_encoded_text_is_read_back(value);
    law_later_duplicate_wins(query, form_encoded(name), form_encoded(value));
}

/// The value of a byte as a hexadecimal digit, of either case.
pub open spec fn nibble(byte: u8) -> Option<int> {
    if '0' as int <= byte && byte <= '9' as int {
        Some(byte - '0' as int)
    } else if 'a' as int <= byte && byte <= 'f' as int {
        Some(byte - 'a' as int + 10)
    } else if 'A' as int <= byte && byte <= 'F' as int {
        Some(byte - 'A' as int + 10)
    } else {
        None
    }
}

/// Bytes are decoded from left to right: an escape with digits of either case is the byte that they
/// write, a `+` a space, and every other byte itself, a `%` that begins no escape too.
pub proof fn law_decoding_step(first: u8, rest: Seq<u8>)
    ensures
        unescaped(Seq::empty()) == Seq::<u8>::empty(),
        first == 0x25 && rest.len() >= 2 && nibble(rest[0]) is Some && nibble(rest[1]) is Some
            ==> unescaped(seq![first] + rest) == seq![
            (16 * nibble(rest[0])->0 + nibble(rest[1])->0) as u8,
        ] + unescaped(rest.skip(2)),
        first == 0x25 && (rest.len() < 2 || nibble(rest[0]) is None || nibble(rest[1]) is None)
            ==> unescaped(seq![first] + rest) == seq![first] + unescaped(rest),
        first == 0x2b ==> unescaped(seq![first] + rest) == seq![0x20u8] + unescaped(rest),
        first != 0x25 && first != 0x2b ==> unescaped(seq![first] + rest) == seq![first]
            + unescaped(rest),
{
    let bytes = seq![first] + rest;
    assert(bytes[0] == first);
    assert(bytes.skip(1) =~= rest);
    if rest.len() >= 2 {
        assert(bytes[1] == rest[0] && bytes[2] == rest[1]);
        assert(bytes.skip(3) =~= rest.skip(2));
    }
}

/// What is decoded is the text that the bytes are the UTF-8 of, where they are any.
pub proof fn law_decoded_text(s: Seq<char>, t: Seq<char>)
    ensures
        valid_utf8(unescaped(encode_utf8(s))) ==> (form_decoded(s) == t <==> encode_utf8(t)
            == unescaped(encode_utf8(s))),
        !valid_utf8(unescaped(encode_utf8(s))) ==> form_decoded(s) == replaced_text(
            unescaped(encode_utf8(s)),
        ),
{
    let bytes = unescaped(encode_utf8(s));
    if valid_utf8(bytes) {
        decode_utf8_encode_utf8(bytes);
        encode_utf8_decode_utf8(t);
    }
}

/// One more pair sets its name to its value, both decoded; a pair without `=` sets its name to
/// nothing, and an empty pair sets none.
pub proof fn law_pair(params: Map<Seq<char>, Seq<char>>, name: Seq<char>, value: Seq<char>)
    requires
        !name.contains('='),
    ensures
        with_pair(params, name + seq!['='] + value) == params.insert(
            form_decoded(name),
            form_decoded(value),
        ),
        name.len() > 0 ==> with_pair(params, name) == params.insert(
            form_decoded(name),
            Seq::<char>::empty(),
        ),
        with_pair(params, Seq::empty()) == params,
{
    law_splitting(name + seq!['='] + value, '=', name, value);
    law_splitting(name, '=', name, value);
    law_plain_text_is_kept(Seq::empty());
}

/// A query is read pair by pair, from left to right.
pub proof fn law_pairs(params: Map<Seq<char>, Seq<char>>, pair: Seq<char>, rest: Seq<char>)
    requires
        !pair.contains('&'),
    ensures
        query_params(pair) == with_pair(Map::empty(), pair),
        with_query(params, pair) == with_pair(params, pair),
        with_query(params, pair + seq!['&'] + rest) == with_query(with_pair(params, pair), rest),
        query_params(pair + seq!['&'] + rest) == with_query(
            with_pair(Map::empty(), pair),
            rest,
        ),
{
    law_splitting(pair, '&', pair, rest);
    law_splitting(pair + seq!['&'] + rest, '&', pair, rest);
}

/// A call of `percent_decode` returns the decoded text, and one of `parse_query` the parameters of
/// the query.
pub proof fn law_query_calls(s: &str, t: String, query: &str, params: StringMap)
    requires
        call_ensures(percent_decode, (s,), t),
        call_ensures(parse_query, (query,), params),
    ensures
        t@ == form_decoded(s@),
        params@ == query_params(query@),
{
}

} // verus!
