//! Addresses: percent-encoding, the addresses of the REST API, the path of a public link
//! and the parameters of a direct link.

use vstd::prelude::*;
use vstd::utf8::*;

use crate::text::{
    chars_of, find, find_text, law_split_at_first, lemma_find_from, lemma_find_is, lemma_span,
    lemma_span_is, occurs_at, same_text, span, span_end, split_once, str_of, string_of, text_of,
};

verus! {

/// The resource of the public REST API that describes a public link.
pub const CLOUD_API: &'static str = "https://cloud-api.yandex.net/v1/disk/public/resources";

// ---------------------------------------------------------------- percent-encoding

/// A Latin letter or a decimal digit.
pub open spec fn is_alphanumeric(b: u8) -> bool {
    ||| 0x30 <= b <= 0x39
    ||| 0x41 <= b <= 0x5a
    ||| 0x61 <= b <= 0x7a
}

/// The numeral of a hexadecimal digit, with capital letters.
pub open spec fn hex_digit(n: int) -> char {
    if n < 10 {
        (0x30 + n) as char
    } else {
        (0x37 + n) as char
    }
}

/// The value of a hexadecimal digit, with letters of either case.
pub open spec fn hex_value(b: u8) -> Option<int> {
    if 0x30 <= b <= 0x39 {
        Some(b - 0x30)
    } else if 0x41 <= b <= 0x46 {
        Some(b - 0x37)
    } else if 0x61 <= b <= 0x66 {
        Some(b - 0x57)
    } else {
        None
    }
}

/// The percent-encoding of bytes: a letter or a digit stands for itself, and any other byte
/// is written as a percent sign and two hexadecimal digits.
pub open spec fn percent_encoded(bytes: Seq<u8>) -> Seq<char>
    decreases bytes.len(),
{
    if bytes.len() == 0 {
        Seq::empty()
    } else {
        let b = bytes[0];
        let head = if is_alphanumeric(b) {
            seq![b as char]
        } else {
            seq!['%', hex_digit(b as int / 16), hex_digit(b as int % 16)]
        };
        head + percent_encoded(bytes.drop_first())
    }
}

/// What percent-encoded bytes stand for: a percent sign with two hexadecimal digits behind
/// it is one byte, and any other byte stands for itself.
pub open spec fn percent_decoded(bytes: Seq<u8>) -> Seq<u8>
    decreases bytes.len(),
{
    if bytes.len() == 0 {
        Seq::empty()
    } else if bytes[0] == 0x25 && bytes.len() >= 3 && hex_value(bytes[1]) is Some && hex_value(
        bytes[2],
    ) is Some {
        seq![(hex_value(bytes[1])->0 * 16 + hex_value(bytes[2])->0) as u8] + percent_decoded(
            bytes.skip(3),
        )
    } else {
        seq![bytes[0]] + percent_decoded(bytes.drop_first())
    }
}

/// The percent-encoding of the UTF-8 form of a text.
pub open spec fn encoded_text(s: Seq<char>) -> Seq<char> {
    percent_encoded(encode_utf8(s))
}

/// `percent_encoding::utf8_percent_encode` with the set `NON_ALPHANUMERIC`, as a string:
/// every byte of the UTF-8 form of `s` other than a Latin letter or a decimal digit is
/// written as a percent sign and two capital hexadecimal digits.
#[verifier::external_body]
pub(crate) fn enc(s: &str) -> (encoded: String)
    ensures
        encoded@ == encoded_text(s@),
{
    percent_encoding::utf8_percent_encode(s, percent_encoding::NON_ALPHANUMERIC).to_string()
}

/// What `String::from_utf8_lossy` makes of bytes that are not UTF-8.
pub uninterp spec fn utf8_lossy(bytes: Seq<u8>) -> Seq<char>;

/// The text that a percent-encoded text stands for. Where the decoded bytes are not UTF-8,
/// the faulty ones are replaced.
pub open spec fn decoded_text(s: Seq<char>) -> Seq<char> {
    let bytes = percent_decoded(encode_utf8(s));
    if valid_utf8(bytes) {
        decode_utf8(bytes)
    } else {
        utf8_lossy(bytes)
    }
}

/// `percent_encoding::percent_decode_str` with `decode_utf8_lossy`: every percent sign with
/// two hexadecimal digits behind it becomes one byte, every other byte is kept, and the
/// result is read as UTF-8. Which replacement characters stand for bytes that are not UTF-8
/// is left to the name `utf8_lossy`.
#[verifier::external_body]
fn percent_decode(s: &str) -> (decoded: String)
    ensures
        decoded@ == ({
            let bytes = percent_decoded(encode_utf8(s@));
            if valid_utf8(bytes) {
                decode_utf8(bytes)
            } else {
                utf8_lossy(bytes)
            }
        }),
{
    percent_encoding::percent_decode_str(s).decode_utf8_lossy().into_owned()
}

// ---------------------------------------------------------------- the REST API

/// The address of a REST call on a public link: the resource, a suffix that names the call,
/// the link, and the path inside the link where there is one.
pub open spec fn cloud_address(
    suffix: Seq<char>,
    public_url: Seq<char>,
    path: Option<Seq<char>>,
) -> Seq<char> {
    let base = CLOUD_API@ + suffix + "?public_key="@ + encoded_text(public_url);
    match path {
        Some(p) => base + "&path="@ + encoded_text(p),
        None => base,
    }
}

/// The address of a REST call on a public link.
pub fn cloud_url(suffix: &str, public_url: &str, path: Option<&str>) -> (url: String)
    ensures
        url@ == cloud_address(suffix@, public_url@, str_of(path)),
{
    let mut u = CLOUD_API.to_string();
    u.append(suffix);
    u.append("?public_key=");
    u.append(enc(public_url).as_str());
    if let Some(p) = path {
        u.append("&path=");
        u.append(enc(p).as_str());
    }
    u
}

// ---------------------------------------------------------------- public links

/// What follows the first `://` of an address, or all of it where there is none.
pub open spec fn without_scheme(url: Seq<char>) -> Seq<char> {
    match find(url, "://"@) {
        Some(i) => url.skip(i + 3),
        None => url,
    }
}

/// The part of `s` from its first slash on, or a lone slash where it has none.
pub open spec fn from_slash(s: Seq<char>) -> Seq<char> {
    let k = span(s, '/', '/');
    if k < s.len() {
        s.skip(k)
    } else {
        seq!['/']
    }
}

/// The path of a public link, without the host, the query and the fragment.
pub open spec fn short_path(public_url: Seq<char>) -> Seq<char> {
    let path = from_slash(without_scheme(public_url));
    path.take(span(path, '?', '#'))
}

/// The path of a public link: `https://disk.yandex.ru/d/abc?x=1` gives `/d/abc`.
pub fn short_url_of(public_url: &str) -> (path: String)
    ensures
        path@ == short_path(public_url@),
{
    let chars = chars_of(public_url);
    let start: usize = match find_text(&chars, &chars_of("://"), 0) {
        Some(i) => {
            proof {
                reveal_strlit("://");
                lemma_find_from(chars@, "://"@, 0);
                assert(i + 3 <= chars.len());
            }
            i + 3
        },
        None => 0,
    };
    let ghost rest = without_scheme(public_url@);
    assert(rest == chars@.subrange(start as int, chars@.len() as int));
    let slash: usize = span_end(&chars, start, chars.len(), '/', '/');
    if slash == chars.len() {
        proof {
            let lone = seq!['/'];
            assert(from_slash(rest) == lone);
            lemma_span_is(lone, '?', '#', 1);
            assert(lone.take(1) == lone);
            reveal_strlit("/");
            assert("/"@ == lone);
        }
        return "/".to_string();
    }
    let ghost path = from_slash(rest);
    assert(path == chars@.subrange(slash as int, chars@.len() as int));
    let end: usize = span_end(&chars, slash, chars.len(), '?', '#');
    assert(path.take(end - slash) == chars@.subrange(slash as int, end as int));
    string_of(&chars, slash, end)
}

// ---------------------------------------------------------------- direct links

/// The value, as it is written, of the first pair in a query whose name is `key`. Pairs are
/// separated by `&`, and the name of a pair ends at its first `=`; a pair without `=` is
/// passed over.
pub open spec fn raw_param(query: Seq<char>, key: Seq<char>) -> Option<Seq<char>>
    decreases query.len(),
{
    let k = span(query, '&', '&');
    let pair = split_once(query.take(k), '=');
    if pair is Some && (pair->0).0 == key {
        Some((pair->0).1)
    } else if 0 <= k < query.len() {
        raw_param(query.skip(k + 1), key)
    } else {
        None
    }
}

/// The decoded value of the first parameter `key` in the query of an address.
pub open spec fn param_of(url: Seq<char>, key: Seq<char>) -> Option<Seq<char>> {
    match split_once(url, '?') {
        Some((_, query)) => match raw_param(query, key) {
            Some(value) => Some(decoded_text(value)),
            None => None,
        },
        None => None,
    }
}

/// The decoded value of the query parameter `key` of a direct link (`filename`, `fsize`, ...).
pub fn query_param(url: &str, key: &str) -> (value: Option<String>)
    ensures
        text_of(value) == param_of(url@, key@),
{
    let chars = chars_of(url);
    assert(chars@.subrange(0, chars@.len() as int) == chars@);
    let mark: usize = span_end(&chars, 0, chars.len(), '?', '?');
    if mark == chars.len() {
        return None;
    }
    let ghost query = chars@.skip(mark + 1);
    let mut start: usize = mark + 1;
    assert(query == chars@.subrange(start as int, chars@.len() as int));
    loop
        invariant
            start <= chars@.len(),
            chars@ == url@,
            split_once(url@, '?') is Some,
            (split_once(url@, '?')->0).1 == query,
            raw_param(query, key@) == raw_param(
                chars@.subrange(start as int, chars@.len() as int),
                key@,
            ),
        decreases chars@.len() - start,
    {
        let ghost rest = chars@.subrange(start as int, chars@.len() as int);
        let end: usize = span_end(&chars, start, chars.len(), '&', '&');
        let ghost pair = rest.take(end - start);
        assert(pair == chars@.subrange(start as int, end as int));
        let eq: usize = span_end(&chars, start, end, '=', '=');
        if eq < end {
            let name = string_of(&chars, start, eq);
            assert(pair.take(eq - start) == name@);
            if same_text(name.as_str(), key) {
                let value = string_of(&chars, eq + 1, end);
                assert(pair.skip(eq - start + 1) == value@);
                return Some(percent_decode(value.as_str()));
            }
        }
        if end == chars.len() {
            return None;
        }
        assert(rest.skip(end - start + 1) == chars@.subrange(end + 1, chars@.len() as int));
        start = end + 1;
    }
}

// ---------------------------------------------------------------- laws

/// A Latin letter, a decimal digit or a percent sign.
spec fn is_plain(c: char) -> bool {
    c == '%' || '0' <= c <= '9' || 'A' <= c <= 'Z' || 'a' <= c <= 'z'
}

/// A percent-encoding is made of Latin letters, decimal digits and percent signs.
proof fn lemma_encoded_alphabet(bytes: Seq<u8>)
    ensures
        forall|i: int|
            0 <= i < percent_encoded(bytes).len() ==> is_plain(
                #[trigger] percent_encoded(bytes)[i],
            ),
    decreases bytes.len(),
{
    if bytes.len() > 0 {
        let b = bytes[0];
        let whole = percent_encoded(bytes);
        let tail = percent_encoded(bytes.drop_first());
        lemma_encoded_alphabet(bytes.drop_first());
        assert forall|i: int| 0 <= i < whole.len() implies is_plain(#[trigger] whole[i]) by {
            if is_alphanumeric(b) {
                if i >= 1 {
                    assert(whole[i] == tail[i - 1]);
                }
            } else {
                if i >= 3 {
                    assert(whole[i] == tail[i - 3]);
                }
            }
        }
    }
}

/// Decoding takes back the encoding of bytes.
proof fn lemma_bytes_round_trip(bytes: Seq<u8>)
    ensures
        percent_decoded(encode_utf8(percent_encoded(bytes))) == bytes,
    decreases bytes.len(),
{
    let whole = percent_encoded(bytes);
    lemma_encoded_alphabet(bytes);
    is_ascii_chars_encode_utf8(whole);
    if bytes.len() > 0 {
        let b = bytes[0];
        let rest = bytes.drop_first();
        let tail = percent_encoded(rest);
        lemma_bytes_round_trip(rest);
        lemma_encoded_alphabet(rest);
        is_ascii_chars_encode_utf8(tail);
        let coded = encode_utf8(whole);
        if is_alphanumeric(b) {
            assert(whole == seq![b as char] + tail);
            assert(coded.drop_first() =~= encode_utf8(tail));
            assert(coded[0] == b);
        } else {
            let high = hex_digit(b as int / 16);
            let low = hex_digit(b as int % 16);
            assert(whole == seq!['%', high, low] + tail);
            assert(coded.skip(3) =~= encode_utf8(tail));
            assert(coded[0] == 0x25);
            assert(coded[1] == high as u8);
            assert(coded[2] == low as u8);
            assert(hex_value(coded[1]) == Some(b as int / 16));
            assert(hex_value(coded[2]) == Some(b as int % 16));
        }
        assert(percent_decoded(coded) =~= seq![b] + rest);
        assert(seq![b] + rest =~= bytes);
    } else {
        assert(whole == Seq::<char>::empty());
        assert(encode_utf8(whole) == Seq::<u8>::empty());
    }
}

/// A text is read back from its percent-encoding.
pub proof fn law_percent_round_trip(s: Seq<char>)
    ensures
        decoded_text(encoded_text(s)) == s,
{
    broadcast use {encode_utf8_decode_utf8, encode_utf8_valid_utf8};

    lemma_bytes_round_trip(encode_utf8(s));
}

/// The address of the REST resource has no query.
proof fn lemma_cloud_api_has_no_query()
    ensures
        forall|i: int| 0 <= i < CLOUD_API@.len() ==> CLOUD_API@[i] != '?',
{
    reveal_strlit("https://cloud-api.yandex.net/v1/disk/public/resources");
}

/// A pair at the start of a query: its name ends at its `=`, and the query goes on behind
/// its `&` or ends with it.
proof fn lemma_first_pair(name: Seq<char>, value: Seq<char>, rest: Seq<char>, key: Seq<char>)
    requires
        forall|i: int| 0 <= i < name.len() ==> name[i] != '=' && name[i] != '&',
        forall|i: int| 0 <= i < value.len() ==> value[i] != '&',
        rest.len() > 0 ==> rest[0] == '&',
    ensures
        raw_param(name + seq!['='] + value + rest, key) == (if name == key {
            Some(value)
        } else if rest.len() > 0 {
            raw_param(rest.skip(1), key)
        } else {
            None
        }),
{
    let pair = name + seq!['='] + value;
    let query = pair + rest;
    lemma_span_is(query, '&', '&', pair.len() as int);
    assert(query.take(pair.len() as int) == pair);
    lemma_span_is(pair, '=', '=', name.len() as int);
    assert(pair.take(name.len() as int) == name);
    assert(pair.skip(name.len() as int + 1) == value);
    if rest.len() > 0 {
        assert(query.skip(pair.len() as int + 1) == rest.skip(1));
    }
}

/// The parameters of an address with the query `name=value` followed by `rest`, which is
/// empty or starts with `&`.
proof fn lemma_params(
    base: Seq<char>,
    name: Seq<char>,
    value: Seq<char>,
    rest: Seq<char>,
    key: Seq<char>,
)
    requires
        !base.contains('?'),
        forall|i: int| 0 <= i < name.len() ==> name[i] != '=' && name[i] != '&',
        forall|i: int| 0 <= i < value.len() ==> value[i] != '&',
        rest.len() > 0 ==> rest[0] == '&',
    ensures
        param_of(base + seq!['?'] + name + seq!['='] + value + rest, key) == (if name == key {
            Some(decoded_text(value))
        } else if rest.len() > 0 {
            match raw_param(rest.skip(1), key) {
                Some(v) => Some(decoded_text(v)),
                None => None,
            }
        } else {
            None
        }),
{
    let query = name + seq!['='] + value + rest;
    let url = base + seq!['?'] + name + seq!['='] + value + rest;
    assert(url =~= base + seq!['?'] + query);
    assert forall|i: int| 0 <= i < base.len() implies url[i] != '?' by {
        assert(url[i] == base[i]);
    }
    lemma_span_is(url, '?', '?', base.len() as int);
    assert(url.skip(base.len() as int + 1) =~= query);
    lemma_first_pair(name, value, rest, key);
}

/// Both parameters of an address with the query `first=one&second=two` are found, each
/// decoded. Neither name may hold `=` or `&`, neither value `&`, nor the rest of the address
/// a question mark.
pub proof fn law_both_params_are_found(
    base: Seq<char>,
    first: Seq<char>,
    one: Seq<char>,
    second: Seq<char>,
    two: Seq<char>,
)
    requires
        !base.contains('?'),
        !first.contains('=') && !first.contains('&') && !second.contains('=') && !second.contains(
            '&',
        ),
        !one.contains('&') && !two.contains('&'),
        first != second,
    ensures
        ({
            let url = base + seq!['?'] + first + seq!['='] + one + seq!['&'] + second + seq!['=']
                + two;
            &&& param_of(url, first) == Some(decoded_text(one))
            &&& param_of(url, second) == Some(decoded_text(two))
        }),
{
    let url = base + seq!['?'] + first + seq!['='] + one + seq!['&'] + second + seq!['='] + two;
    let rest = seq!['&'] + second + seq!['='] + two;
    assert(url =~= base + seq!['?'] + first + seq!['='] + one + rest);
    lemma_params(base, first, one, rest, first);
    lemma_params(base, first, one, rest, second);
    assert(rest.skip(1) =~= second + seq!['='] + two + Seq::<char>::empty());
    lemma_first_pair(second, two, Seq::empty(), second);
}

/// A text without a percent sign stands for itself.
pub proof fn law_plain_text_decodes_to_itself(s: Seq<char>)
    requires
        !s.contains('%'),
    ensures
        decoded_text(s) == s,
{
    broadcast use {encode_utf8_decode_utf8, encode_utf8_valid_utf8};

    lemma_no_percent_byte(s);
    lemma_undecoded(encode_utf8(s));
}

/// The UTF-8 form of a character other than the percent sign has no byte of that sign.
proof fn lemma_no_percent_in_char(v: u32)
    requires
        v != 0x25,
    ensures
        forall|i: int| 0 <= i < encode_scalar(v).len() ==> #[trigger] encode_scalar(v)[i] != 0x25,
{
    assert((v <= 0x7f && v != 0x25) ==> (v & 0x7f) as u8 != 0x25) by (bit_vector);
    assert(0xC0 | ((v >> 6) & 0x1F) as u8 != 0x25) by (bit_vector);
    assert(0xE0 | ((v >> 12) & 0x0F) as u8 != 0x25) by (bit_vector);
    assert(0xF0 | ((v >> 18) & 0x7) as u8 != 0x25) by (bit_vector);
    assert(0x80 | (v & 0x3F) as u8 != 0x25) by (bit_vector);
    assert(0x80 | ((v >> 6) & 0x3F) as u8 != 0x25) by (bit_vector);
    assert(0x80 | ((v >> 12) & 0x3F) as u8 != 0x25) by (bit_vector);
}

/// The UTF-8 form of a text without a percent sign has no byte of that sign.
proof fn lemma_no_percent_byte(s: Seq<char>)
    requires
        !s.contains('%'),
    ensures
        forall|i: int| 0 <= i < encode_utf8(s).len() ==> encode_utf8(s)[i] != 0x25,
    decreases s.len(),
{
    if s.len() > 0 {
        let head = encode_scalar(s[0] as u32);
        let tail = s.drop_first();
        assert(s.contains(s[0]));
        char_u32_cast(s[0], s[0] as u32);
        lemma_no_percent_in_char(s[0] as u32);
        assert forall|i: int| 0 <= i < tail.len() implies tail[i] != '%' by {
            assert(s[i + 1] == tail[i]);
        }
        lemma_no_percent_byte(tail);
        assert forall|i: int| 0 <= i < encode_utf8(s).len() implies encode_utf8(s)[i] != 0x25 by {
            if i >= head.len() {
                assert(encode_utf8(s)[i] == encode_utf8(tail)[i - head.len()]);
            } else {
                assert(encode_utf8(s)[i] == head[i]);
            }
        }
    }
}

/// Bytes without a percent sign stand for themselves.
proof fn lemma_undecoded(bytes: Seq<u8>)
    requires
        forall|i: int| 0 <= i < bytes.len() ==> bytes[i] != 0x25,
    ensures
        percent_decoded(bytes) == bytes,
    decreases bytes.len(),
{
    if bytes.len() > 0 {
        lemma_undecoded(bytes.drop_first());
        assert(seq![bytes[0]] + bytes.drop_first() =~= bytes);
    }
}

/// The percent-encoding of a text holds none of the characters that divide an address.
pub proof fn law_encoded_text_is_one_value(s: Seq<char>)
    ensures
        !encoded_text(s).contains('&'),
        !encoded_text(s).contains('='),
        !encoded_text(s).contains('?'),
        !encoded_text(s).contains('#'),
{
    lemma_encoded_alphabet(encode_utf8(s));
}

/// The parameters of a REST address read back as the link and the path that it was made
/// from, and no path is read where none was given. The suffix must not start a query itself.
pub proof fn law_cloud_address_params(
    suffix: Seq<char>,
    public_url: Seq<char>,
    path: Option<Seq<char>>,
)
    requires
        !suffix.contains('?'),
    ensures
        param_of(cloud_address(suffix, public_url, path), "public_key"@) == Some(public_url),
        param_of(cloud_address(suffix, public_url, path), "path"@) == path,
{
    reveal_strlit("?public_key=");
    reveal_strlit("public_key");
    reveal_strlit("&path=");
    reveal_strlit("path");
    lemma_cloud_api_has_no_query();
    law_encoded_text_is_one_value(public_url);
    law_percent_round_trip(public_url);
    let host = CLOUD_API@ + suffix;
    assert forall|i: int| 0 <= i < host.len() implies host[i] != '?' by {
        if i >= CLOUD_API@.len() {
            assert(host[i] == suffix[i - CLOUD_API@.len()]);
        }
    }
    assert("?public_key="@ =~= seq!['?'] + "public_key"@ + seq!['=']);
    assert("public_key"@.len() != "path"@.len());
    let link = encoded_text(public_url);
    let url = cloud_address(suffix, public_url, path);
    match path {
        Some(p) => {
            let inner = encoded_text(p);
            assert("&path="@ =~= seq!['&'] + "path"@ + seq!['=']);
            assert(url =~= host + seq!['?'] + "public_key"@ + seq!['='] + link + seq!['&']
                + "path"@ + seq!['='] + inner);
            law_encoded_text_is_one_value(p);
            law_percent_round_trip(p);
            law_both_params_are_found(host, "public_key"@, link, "path"@, inner);
        },
        None => {
            let none = Seq::<char>::empty();
            assert(url =~= host + seq!['?'] + "public_key"@ + seq!['='] + link + none);
            lemma_params(host, "public_key"@, link, none, "public_key"@);
            lemma_params(host, "public_key"@, link, none, "path"@);
        },
    }
}

/// The path of a public link starts with a slash and has neither a query nor a fragment.
pub proof fn law_short_path_shape(public_url: Seq<char>)
    ensures
        short_path(public_url).len() > 0,
        short_path(public_url)[0] == '/',
        !short_path(public_url).contains('?'),
        !short_path(public_url).contains('#'),
{
    let rest = without_scheme(public_url);
    let path = from_slash(rest);
    lemma_span(rest, '/', '/');
    lemma_span(path, '?', '#');
    assert(path[0] == '/');
    if span(path, '?', '#') == 0 {
        assert(path[0] == '?' || path[0] == '#');
    }
}

/// A query or a fragment added to a public link does not change its path, as long as the
/// addition brings in neither the first `://` nor the first slash behind it.
pub proof fn law_short_path_ignores_query(public_url: Seq<char>, tail: Seq<char>)
    requires
        tail.len() > 0,
        tail[0] == '?' || tail[0] == '#',
        find(public_url + tail, "://"@) == find(public_url, "://"@),
        without_scheme(public_url).contains('/') || !tail.contains('/'),
    ensures
        short_path(public_url + tail) == short_path(public_url),
{
    reveal_strlit("://");
    lemma_find_from(public_url, "://"@, 0);
    let rest = without_scheme(public_url);
    let longer = without_scheme(public_url + tail);
    assert(longer =~= rest + tail);
    let path = from_slash(rest);
    let k = span(rest, '/', '/');
    lemma_span(rest, '/', '/');
    if k < rest.len() {
        assert forall|i: int| 0 <= i < k implies longer[i] != '/' by {
            assert(longer[i] == rest[i]);
        }
        lemma_span_is(longer, '/', '/', k);
        assert(from_slash(longer) =~= path + tail);
        let end = span(path, '?', '#');
        lemma_span(path, '?', '#');
        assert forall|i: int| 0 <= i < end implies (path + tail)[i] != '?' && (path + tail)[i]
            != '#' by {
            assert((path + tail)[i] == path[i]);
        }
        lemma_span_is(path + tail, '?', '#', end);
        assert((path + tail).take(end) =~= path.take(end));
    } else {
        assert(!rest.contains('/'));
        assert forall|i: int| 0 <= i < longer.len() implies longer[i] != '/' by {
            if i >= rest.len() {
                assert(longer[i] == tail[i - rest.len()]);
            } else {
                assert(longer[i] == rest[i]);
            }
        }
        lemma_span_is(longer, '/', '/', longer.len() as int);
    }
}

/// The address of a REST call starts with the REST resource, the suffix of the call and a
/// question mark, and has no parameter besides the link and the path, which comes last.
pub proof fn law_cloud_address_starts_with_call(
    suffix: Seq<char>,
    public_url: Seq<char>,
    path: Option<Seq<char>>,
    key: Seq<char>,
)
    requires
        !suffix.contains('?'),
        key != "public_key"@,
        key != "path"@,
    ensures
        ("https://cloud-api.yandex.net/v1/disk/public/resources"@ + suffix
            + "?"@).is_prefix_of(cloud_address(suffix, public_url, path)),
        param_of(cloud_address(suffix, public_url, path), key) is None,
        cloud_address(suffix, public_url, None)
            == "https://cloud-api.yandex.net/v1/disk/public/resources"@ + suffix
            + "?public_key="@ + encoded_text(public_url),
        path matches Some(p) ==> cloud_address(suffix, public_url, path) == cloud_address(
            suffix,
            public_url,
            None,
        ) + "&path="@ + encoded_text(p),
{
    reveal_strlit("?public_key=");
    reveal_strlit("public_key");
    reveal_strlit("&path=");
    reveal_strlit("path");
    reveal_strlit("?");
    lemma_cloud_api_has_no_query();
    law_encoded_text_is_one_value(public_url);
    let host = CLOUD_API@ + suffix;
    assert forall|i: int| 0 <= i < host.len() implies host[i] != '?' by {
        if i >= CLOUD_API@.len() {
            assert(host[i] == suffix[i - CLOUD_API@.len()]);
        }
    }
    assert("?public_key="@ =~= seq!['?'] + "public_key"@ + seq!['=']);
    let link = encoded_text(public_url);
    let url = cloud_address(suffix, public_url, path);
    let head = host + "?"@;
    assert(url.subrange(0, head.len() as int) =~= head);
    match path {
        Some(p) => {
            let inner = encoded_text(p);
            assert("&path="@ =~= seq!['&'] + "path"@ + seq!['=']);
            law_encoded_text_is_one_value(p);
            let rest = seq!['&'] + "path"@ + seq!['='] + inner;
            assert(url =~= host + seq!['?'] + "public_key"@ + seq!['='] + link + rest);
            lemma_params(host, "public_key"@, link, rest, key);
            assert(rest.skip(1) =~= "path"@ + seq!['='] + inner + Seq::<char>::empty());
            lemma_first_pair("path"@, inner, Seq::empty(), key);
        },
        None => {
            let none = Seq::<char>::empty();
            assert(url =~= host + seq!['?'] + "public_key"@ + seq!['='] + link + none);
            lemma_params(host, "public_key"@, link, none, key);
        },
    }
}

/// The query of an address behind its first question mark.
proof fn lemma_query(base: Seq<char>, query: Seq<char>)
    requires
        !base.contains('?'),
    ensures
        split_once(base + seq!['?'] + query, '?') == Some((base, query)),
        split_once(base, '?') is None,
{
    law_split_at_first(base, '?', query);
}

/// The pairs of a query are gone through in order. The first of the name that is looked for
/// counts, with its value decoded; a pair of another name and a word without a value are
/// passed over; and where nothing is left, or there is no query, there is no value.
pub proof fn law_pairs_in_order(
    base: Seq<char>,
    name: Seq<char>,
    value: Seq<char>,
    word: Seq<char>,
    more: Seq<char>,
    key: Seq<char>,
)
    requires
        !base.contains('?'),
        !name.contains('=') && !name.contains('&'),
        !value.contains('&'),
        !word.contains('=') && !word.contains('&'),
    ensures
        param_of(base, key) is None,
        ({
            let start = base + seq!['?'];
            let pair = name + seq!['='] + value;
            &&& name == key ==> {
                &&& param_of(start + pair, key) == Some(decoded_text(value))
                &&& param_of(start + (pair + seq!['&'] + more), key) == Some(decoded_text(value))
            }
            &&& name != key ==> {
                &&& param_of(start + pair, key) is None
                &&& param_of(start + (pair + seq!['&'] + more), key) == param_of(start + more, key)
            }
            &&& param_of(start + word, key) is None
            &&& param_of(start + (word + seq!['&'] + more), key) == param_of(start + more, key)
        }),
{
    let pair = name + seq!['='] + value;
    lemma_query(base, pair);
    lemma_query(base, pair + seq!['&'] + more);
    lemma_query(base, more);
    lemma_query(base, word);
    lemma_query(base, word + seq!['&'] + more);
    let none = Seq::<char>::empty();
    let rest = seq!['&'] + more;
    lemma_first_pair(name, value, none, key);
    assert(pair + none =~= pair);
    lemma_first_pair(name, value, rest, key);
    assert(pair + rest =~= pair + seq!['&'] + more);
    assert(rest.skip(1) =~= more);
    lemma_lone_word(word, key);
    let longer = word + seq!['&'] + more;
    assert forall|i: int| 0 <= i < word.len() implies longer[i] != '&' by {
        assert(longer[i] == word[i]);
        assert(word.contains(word[i]));
    }
    assert(longer[word.len() as int] == '&');
    lemma_span_is(longer, '&', '&', word.len() as int);
    assert(longer.take(word.len() as int) =~= word);
    assert(longer.skip(word.len() as int + 1) =~= more);
    law_split_at_first(word, '=', more);
}

/// A word without a value is no pair.
proof fn lemma_lone_word(word: Seq<char>, key: Seq<char>)
    requires
        !word.contains('=') && !word.contains('&'),
    ensures
        raw_param(word, key) is None,
{
    assert forall|i: int| 0 <= i < word.len() implies word[i] != '&' by {
        assert(word.contains(word[i]));
    }
    lemma_span_is(word, '&', '&', word.len() as int);
    assert(word.take(word.len() as int) =~= word);
    law_split_at_first(word, '=', word);
}

/// The path of a public link is what stands between the host and the query or fragment. The
/// scheme may be left out, and a lone slash stands for a path that is not there.
pub proof fn law_short_path_is_path(
    scheme: Seq<char>,
    host: Seq<char>,
    path: Seq<char>,
    tail: Seq<char>,
)
    requires
        find(scheme + "://"@, "://"@) == Some(scheme.len() as int),
        !host.contains('/'),
        path.len() > 0 && path[0] == '/',
        !path.contains('?') && !path.contains('#'),
        tail.len() > 0 ==> tail[0] == '?' || tail[0] == '#',
    ensures
        short_path(scheme + "://"@ + (host + path + tail)) == path,
        short_path(scheme + "://"@ + host) == "/"@,
        find(host + path + tail, "://"@) is None ==> short_path(host + path + tail) == path,
        short_path(host) == "/"@,
{
    reveal_strlit("://");
    reveal_strlit("/");
    lemma_path_of(host, path, tail);
    lemma_no_path(host);
    lemma_scheme_is_dropped(scheme, host + path + tail);
    lemma_scheme_is_dropped(scheme, host);
    lemma_find_from(host, "://"@, 0);
    if let Some(i) = find(host, "://"@) {
        assert(host.subrange(i, i + 3)[1] == host[i + 1]);
        assert("://"@[1] == '/');
        assert(host.contains(host[i + 1]));
    }
}

/// A scheme with its `://` is dropped.
proof fn lemma_scheme_is_dropped(scheme: Seq<char>, rest: Seq<char>)
    requires
        find(scheme + "://"@, "://"@) == Some(scheme.len() as int),
    ensures
        without_scheme(scheme + "://"@ + rest) == rest,
{
    reveal_strlit("://");
    let mark = "://"@;
    let head = scheme + mark;
    let url = head + rest;
    lemma_find_from(head, mark, 0);
    assert(url.subrange(scheme.len() as int, scheme.len() as int + 3) =~= mark);
    assert forall|j: int| 0 <= j < scheme.len() implies !occurs_at(url, mark, j) by {
        assert(!occurs_at(head, mark, j));
        assert(url.subrange(j, j + 3) =~= head.subrange(j, j + 3));
    }
    lemma_find_is(url, mark, 0, scheme.len() as int);
    assert(url.skip(scheme.len() as int + 3) =~= rest);
}

/// The path behind a host, up to the query or fragment.
proof fn lemma_path_of(host: Seq<char>, path: Seq<char>, tail: Seq<char>)
    requires
        !host.contains('/'),
        path.len() > 0 && path[0] == '/',
        !path.contains('?') && !path.contains('#'),
        tail.len() > 0 ==> tail[0] == '?' || tail[0] == '#',
    ensures
        ({
            let found = from_slash(host + path + tail);
            found.take(span(found, '?', '#')) == path
        }),
{
    let s = host + path + tail;
    assert forall|i: int| 0 <= i < host.len() implies s[i] != '/' by {
        assert(s[i] == host[i]);
        assert(host.contains(host[i]));
    }
    assert(s[host.len() as int] == '/');
    lemma_span_is(s, '/', '/', host.len() as int);
    let found = path + tail;
    assert(s.skip(host.len() as int) =~= found);
    assert forall|i: int| 0 <= i < path.len() implies found[i] != '?' && found[i] != '#' by {
        assert(found[i] == path[i]);
        assert(path.contains(path[i]));
    }
    if tail.len() > 0 {
        assert(found[path.len() as int] == tail[0]);
    }
    lemma_span_is(found, '?', '#', path.len() as int);
    assert(found.take(path.len() as int) =~= path);
}

/// A lone slash stands for the path of a host without one.
proof fn lemma_no_path(host: Seq<char>)
    requires
        !host.contains('/'),
    ensures
        ({
            let found = from_slash(host);
            found.take(span(found, '?', '#')) == "/"@
        }),
{
    reveal_strlit("/");
    assert forall|i: int| 0 <= i < host.len() implies host[i] != '/' by {
        assert(host.contains(host[i]));
    }
    lemma_span_is(host, '/', '/', host.len() as int);
    let lone = seq!['/'];
    lemma_span_is(lone, '?', '#', 1);
    assert(lone.take(1) =~= "/"@);
}

/// The hexadecimal digits with capital letters are those of the numeral system.
proof fn lemma_hex_digits(n: int)
    requires
        0 <= n < 16,
    ensures
        hex_digit(n) == "0123456789ABCDEF"@[n],
{
    reveal_strlit("0123456789ABCDEF");
}

/// Bytes are encoded one by one: a Latin letter or a decimal digit stands for itself, and any
/// other byte becomes a percent sign and its two hexadecimal digits.
pub proof fn law_bytes_are_encoded_one_by_one(b: u8, rest: Seq<u8>)
    ensures
        percent_encoded(Seq::empty()) == Seq::<char>::empty(),
        percent_encoded(seq![b] + rest) == (if '0' <= (b as char) <= '9' || 'A' <= (b as char)
            <= 'Z' || 'a' <= (b as char) <= 'z' {
            seq![b as char]
        } else {
            seq![
                '%',
                "0123456789ABCDEF"@[b as int / 16],
                "0123456789ABCDEF"@[b as int % 16],
            ]
        }) + percent_encoded(rest),
{
    lemma_hex_digits(b as int / 16);
    lemma_hex_digits(b as int % 16);
    assert((seq![b] + rest).drop_first() =~= rest);
}

/// Bytes are decoded from the front: a percent sign with two hexadecimal digits behind it is
/// the byte that they write, and any other byte stays. Bytes that are UTF-8 are then the text.
pub proof fn law_bytes_are_decoded_from_front(b: u8, high: u8, low: u8, rest: Seq<u8>, s: Seq<char>)
    ensures
        percent_decoded(Seq::empty()) == Seq::<u8>::empty(),
        b != 0x25 ==> percent_decoded(seq![b] + rest) == seq![b] + percent_decoded(rest),
        forall|h: int, l: int|
            0 <= h < 16 && 0 <= l < 16 && (high == #[trigger] "0123456789ABCDEF"@[h] as u8 || high
                == "0123456789abcdef"@[h] as u8) && (low == #[trigger] "0123456789ABCDEF"@[l] as u8
                || low == "0123456789abcdef"@[l] as u8) ==> percent_decoded(
                seq![0x25u8, high, low] + rest,
            ) == seq![(16 * h + l) as u8] + percent_decoded(rest),
        rest.len() < 2 || (exists|i: int|
            0 <= i < 2 && !('0' <= (#[trigger] rest[i] as char) <= '9') && !('A' <= (rest[i] as char)
                <= 'F') && !('a' <= (rest[i] as char) <= 'f')) ==> percent_decoded(
            seq![0x25u8] + rest,
        ) == seq![0x25u8] + percent_decoded(rest),
        ({
            let bytes = percent_decoded(encode_utf8(s));
            valid_utf8(bytes) ==> decoded_text(s) == decode_utf8(bytes)
        }),
{
    reveal_strlit("0123456789ABCDEF");
    reveal_strlit("0123456789abcdef");
    assert((seq![b] + rest).drop_first() =~= rest);
    let escape = seq![0x25u8, high, low] + rest;
    assert(escape.skip(3) =~= rest);
    let lone = seq![0x25u8] + rest;
    assert(lone.drop_first() =~= rest);
    if rest.len() >= 2 {
        assert(lone[1] == rest[0] && lone[2] == rest[1]);
    }
}

} // verus!
