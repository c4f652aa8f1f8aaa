//! Query strings: `name=value` pairs joined by `&`, with form-urlencoded names and values.

use crate::string_map::StringMap;
use crate::text::{
    chars_of, first_index, lemma_first_index_bounds, split_at_first, split_once, string_of,
};
use vstd::prelude::*;
use vstd::utf8::{decode_utf8, encode_utf8, valid_utf8};

verus! {

/// The value of a hexadecimal digit, of either case.
pub open spec fn hex_value(digit: u8) -> Option<u8> {
    if 0x30 <= digit <= 0x39 {
        Some((digit - 0x30) as u8)
    } else if 0x41 <= digit <= 0x46 {
        Some((digit - 0x41 + 10) as u8)
    } else if 0x61 <= digit <= 0x66 {
        Some((digit - 0x61 + 10) as u8)
    } else {
        None
    }
}

/// The byte that `bytes` starts with in the form `%XX`, if it does.
pub open spec fn leading_escape(bytes: Seq<u8>) -> Option<u8> {
    if bytes.len() >= 3 && bytes[0] == 0x25 {
        match (hex_value(bytes[1]), hex_value(bytes[2])) {
            (Some(hi), Some(lo)) => Some((hi * 16 + lo) as u8),
            _ => None,
        }
    } else {
        None
    }
}

/// `bytes` with each `+` made a space and each `%XX` the byte it stands for. A `%` that starts no
/// escape stays as it is.
pub open spec fn unescaped(bytes: Seq<u8>) -> Seq<u8>
    decreases bytes.len(),
{
    if bytes.len() == 0 {
        seq![]
    } else {
        match leading_escape(bytes) {
            Some(byte) => seq![byte] + unescaped(bytes.skip(3)),
            None => seq![if bytes[0] == 0x2b { 0x20u8 } else { bytes[0] }] + unescaped(bytes.skip(1)),
        }
    }
}

/// The text that `String::from_utf8_lossy` makes of bytes that are not UTF-8.
pub uninterp spec fn replaced_text(bytes: Seq<u8>) -> Seq<char>;

/// The text that `bytes` encode. Where they are not UTF-8, the parts that are not are replaced.
pub open spec fn lossy_text(bytes: Seq<u8>) -> Seq<char> {
    if valid_utf8(bytes) {
        decode_utf8(bytes)
    } else {
        replaced_text(bytes)
    }
}

/// The text that a form-urlencoded text stands for.
pub open spec fn form_decoded(s: Seq<char>) -> Seq<char> {
    lossy_text(unescaped(encode_utf8(s)))
}

/// The name and the value of a pair, still encoded. A pair without `=` is a name alone.
pub open spec fn name_and_value(pair: Seq<char>) -> (Seq<char>, Seq<char>) {
    match split_at_first(pair, '=') {
        Some(halves) => halves,
        None => (pair, seq![]),
    }
}

/// `params` after one more pair of a query. An empty pair says nothing.
pub open spec fn with_pair(params: Map<Seq<char>, Seq<char>>, pair: Seq<char>) -> Map<
    Seq<char>,
    Seq<char>,
> {
    if pair.len() == 0 {
        params
    } else {
        let (name, value) = name_and_value(pair);
        params.insert(form_decoded(name), form_decoded(value))
    }
}

/// `params` after all the pairs of `query`, from left to right.
pub open spec fn with_query(params: Map<Seq<char>, Seq<char>>, query: Seq<char>) -> Map<
    Seq<char>,
    Seq<char>,
>
    decreases query.len(),
{
    proof {
        lemma_first_index_bounds(query, '&');
    }
    match split_at_first(query, '&') {
        Some((pair, rest)) => with_query(with_pair(params, pair), rest),
        None => with_pair(params, query),
    }
}

/// The parameters of a query.
pub open spec fn query_params(query: Seq<char>) -> Map<Seq<char>, Seq<char>> {
    with_query(Map::empty(), query)
}

/// `String::from_utf8_lossy` gives the text that UTF-8 bytes encode. Of other bytes its
/// documentation says that invalid parts become U+FFFD, without saying how many of them; there
/// the text has a name.
#[verifier::external_body]
fn from_utf8_lossy(bytes: Vec<u8>) -> (text: String)
    ensures
        valid_utf8(bytes@) ==> text@ == decode_utf8(bytes@),
        !valid_utf8(bytes@) ==> text@ == replaced_text(bytes@),
{
    String::from_utf8_lossy(&bytes).into_owned()
}

fn hex_digit(digit: u8) -> (value: Option<u8>)
    ensures
        value == hex_value(digit),
{
    if 0x30 <= digit && digit <= 0x39 {
        Some(digit - 0x30)
    } else if 0x41 <= digit && digit <= 0x46 {
        Some(digit - 0x41 + 10)
    } else if 0x61 <= digit && digit <= 0x66 {
        Some(digit - 0x61 + 10)
    } else {
        None
    }
}

/// `bytes` with each `+` made a space and each `%XX` the byte it stands for. A `%` that starts no
/// escape stays as it is.
pub fn unescape(bytes: &[u8]) -> (out: Vec<u8>)
    ensures
        out@ == unescaped(bytes@),
{
    let mut out: Vec<u8> = Vec::with_capacity(bytes.len());
    let mut i: usize = 0;
    assert(bytes@.skip(0) == bytes@);
    while i < bytes.len()
        invariant
            i <= bytes@.len(),
            out@ + unescaped(bytes@.skip(i as int)) == unescaped(bytes@),
        decreases bytes@.len() - i,
    {
        let ghost rest = bytes@.skip(i as int);
        let ghost done = out@;
        let byte: u8 = bytes[i];
        if byte == 0x25 && bytes.len() - i > 2 {
            let hi: Option<u8> = hex_digit(bytes[i + 1]);
            let lo: Option<u8> = hex_digit(bytes[i + 2]);
            if let (Some(hi), Some(lo)) = (hi, lo) {
                out.push(hi * 16 + lo);
                assert(rest.skip(3) == bytes@.skip(i + 3));
                assert(out@ + unescaped(rest.skip(3)) == done + unescaped(rest));
                i += 3;
            } else {
                out.push(byte);
                assert(rest.skip(1) == bytes@.skip(i + 1));
                assert(out@ + unescaped(rest.skip(1)) == done + unescaped(rest));
                i += 1;
            }
        } else {
            out.push(if byte == 0x2b { 0x20 } else { byte });
            assert(rest.skip(1) == bytes@.skip(i + 1));
            assert(out@ + unescaped(rest.skip(1)) == done + unescaped(rest));
            i += 1;
        }
    }
    assert(bytes@.skip(i as int) == Seq::<u8>::empty());
    out
}

/// Decodes a form-urlencoded text: `+` is a space, `%XX` a byte, and a `%` that starts no escape
/// stays. Bytes that are then not UTF-8 are replaced.
pub fn percent_decode(s: &str) -> (text: String)
    ensures
        text@ == form_decoded(s@),
{
    from_utf8_lossy(unescape(s.as_bytes()))
}

/// Reads a query into its parameters. Of two pairs of one name the later counts, and a pair
/// without `=` gives its name the empty value.
pub fn parse_query(query: &str) -> (params: StringMap)
    ensures
        params@ == query_params(query@),
{
    let chars = chars_of(query);
    let mut params = StringMap::new();
    let mut from: usize = 0;
    assert(chars@.skip(0) == query@);
    loop
        invariant
            chars@ == query@,
            from <= chars@.len(),
            with_query(params@, chars@.skip(from as int)) == query_params(query@),
        decreases chars@.len() - from,
    {
        let ghost rest = chars@.skip(from as int);
        let ghost before = params@;
        let mut to: usize = from;
        while to < chars.len() && chars[to] != '&'
            invariant
                from <= to <= chars@.len(),
                rest == chars@.skip(from as int),
                first_index(rest, '&') == to - from + first_index(chars@.skip(to as int), '&'),
            decreases chars@.len() - to,
        {
            assert(chars@.skip(to as int).drop_first() == chars@.skip(to + 1));
            to += 1;
        }
        assert(first_index(rest, '&') == to - from);
        assert(chars@.subrange(from as int, to as int) == rest.subrange(0, to - from));
        if from < to {
            let pair = string_of(&chars, from, to);
            match split_once(pair.as_str(), '=') {
                Some((name, value)) => {
                    params.insert(percent_decode(name.as_str()), percent_decode(value.as_str()));
                },
                None => {
                    let empty = String::new();
                    params.insert(percent_decode(pair.as_str()), percent_decode(empty.as_str()));
                },
            }
        }
        assert(params@ == with_pair(before, rest.subrange(0, to - from)));
        if to == chars.len() {
            assert(rest.subrange(0, to - from) == rest);
            return params;
        }
        assert(rest.subrange(to - from + 1, rest.len() as int) == chars@.skip(to + 1));
        from = to + 1;
    }
}

} // verus!
