//! The omnibox: deciding whether typed text is a URL, a bare host to be
//! reached over `https://`, or a query for a web search.

use vstd::prelude::*;
use vstd::utf8::encode_utf8;
use crate::text::{
    chars_of, contains_char, equals_str, has_prefix, is_ascii_alnum, starts_with, string_from_chars,
    trim_chars, trimmed, is_white_space, lemma_trimmed_fixed, lemma_trimmed_idempotent,
    lemma_trim_start_first, lemma_trim_end_prefix, trim_start, lemma_trimmed_ignores_padding,
};

verus! {

broadcast use vstd::string::group_string_axioms;

/// The upper-case hexadecimal digit for `d < 16`.
pub open spec fn hex_digit(d: int) -> char {
    seq!['0', '1', '2', '3', '4', '5', '6', '7', '8', '9', 'A', 'B', 'C', 'D', 'E', 'F'][d]
}

/// A byte that percent-encoding leaves as it is: an ASCII letter or digit,
/// or one of `-`, `.`, `_`, `~`.
pub open spec fn is_unreserved_byte(b: u8) -> bool {
    ||| (0x30 <= b && b <= 0x39)
    ||| (0x41 <= b && b <= 0x5A)
    ||| (0x61 <= b && b <= 0x7A)
    ||| b == 0x2D
    ||| b == 0x2E
    ||| b == 0x5F
    ||| b == 0x7E
}

/// The text that stands for one byte: the byte itself if it is unreserved,
/// else `%` and its two upper-case hexadecimal digits.
pub open spec fn percent_encoded_byte(b: u8) -> Seq<char> {
    if is_unreserved_byte(b) {
        seq![b as char]
    } else {
        seq!['%', hex_digit((b / 16) as int), hex_digit((b % 16) as int)]
    }
}

/// A hexadecimal digit names its value: `0`-`9` count from `0`, `A`-`F`
/// from ten.
pub proof fn lemma_hex_digit_value(d: int)
    requires
        0 <= d < 16,
    ensures
        ('0' <= hex_digit(d) && hex_digit(d) <= '9' && hex_digit(d) as int - ('0' as int) == d) || (
        'A' <= hex_digit(d) && hex_digit(d) <= 'F' && hex_digit(d) as int - ('A' as int) + 10 == d),
{
    let t = seq!['0', '1', '2', '3', '4', '5', '6', '7', '8', '9', 'A', 'B', 'C', 'D', 'E', 'F'];
    assert(hex_digit(d) == t[d]);
    if d == 0 { assert(t[0] == '0'); } else if d == 1 { assert(t[1] == '1'); }
    else if d == 2 { assert(t[2] == '2'); } else if d == 3 { assert(t[3] == '3'); }
    else if d == 4 { assert(t[4] == '4'); } else if d == 5 { assert(t[5] == '5'); }
    else if d == 6 { assert(t[6] == '6'); } else if d == 7 { assert(t[7] == '7'); }
    else if d == 8 { assert(t[8] == '8'); } else if d == 9 { assert(t[9] == '9'); }
    else if d == 10 { assert(t[10] == 'A'); } else if d == 11 { assert(t[11] == 'B'); }
    else if d == 12 { assert(t[12] == 'C'); } else if d == 13 { assert(t[13] == 'D'); }
    else if d == 14 { assert(t[14] == 'E'); } else { assert(t[15] == 'F'); }
}

/// Each byte is written as itself when it is an ASCII letter or digit or
/// one of `-`, `.`, `_`, `~`, and otherwise as `%` and two hexadecimal
/// digits whose value is the byte.
pub proof fn lemma_percent_encoded_byte_decodes(b: u8)
    ensures
        ((0x30 <= b && b <= 0x39) || (0x41 <= b && b <= 0x5A) || (0x61 <= b && b <= 0x7A)
            || b == 0x2D || b == 0x2E || b == 0x5F || b == 0x7E) ==> percent_encoded_byte(b)
            == seq![b as char],
        !((0x30 <= b && b <= 0x39) || (0x41 <= b && b <= 0x5A) || (0x61 <= b && b <= 0x7A)
            || b == 0x2D || b == 0x2E || b == 0x5F || b == 0x7E) ==> {
            let e = percent_encoded_byte(b);
            let hi = e[1] as int;
            let lo = e[2] as int;
            &&& e.len() == 3
            &&& e[0] == '%'
            &&& ('0' as int <= hi <= '9' as int || 'A' as int <= hi <= 'F' as int)
            &&& ('0' as int <= lo <= '9' as int || 'A' as int <= lo <= 'F' as int)
            &&& (if hi <= '9' as int { hi - '0' as int } else { hi - 'A' as int + 10 }) * 16 + (
            if lo <= '9' as int { lo - '0' as int } else { lo - 'A' as int + 10 }) == b
        },
{
    lemma_hex_digit_value((b / 16) as int);
    lemma_hex_digit_value((b % 16) as int);
}

/// Percent-encoding of a byte sequence, byte by byte.
pub open spec fn percent_encoded(bytes: Seq<u8>) -> Seq<char>
    decreases bytes.len(),
{
    if bytes.len() == 0 {
        Seq::empty()
    } else {
        percent_encoded_byte(bytes[0]) + percent_encoded(bytes.drop_first())
    }
}

/// `urlencoding::encode`: percent-encodes every byte of the UTF-8 encoding
/// of `data` except ASCII letters, digits and `-`, `_`, `.`, `~`, with
/// upper-case hexadecimal digits.
#[verifier::external_body]
fn url_encode(data: &str) -> (encoded: String)
    ensures
        encoded@ == percent_encoded(encode_utf8(data@)),
{
    urlencoding::encode(data).into_owned()
}

/// The number of characters of `t` before its first `/`.
pub open spec fn host_len(t: Seq<char>) -> nat
    decreases t.len(),
{
    if t.len() == 0 || t[0] == '/' {
        0
    } else {
        1 + host_len(t.drop_first())
    }
}

/// The part of `t` before its first `/` (all of `t` if it has none).
pub open spec fn host_part(t: Seq<char>) -> Seq<char> {
    t.take(host_len(t) as int)
}

/// A character that may stand in a host name with a dot.
pub open spec fn is_host_char(c: char) -> bool {
    is_ascii_alnum(c) || c == '.' || c == '-' || c == ':' || c == '_'
}

/// `host` reads as a host: `localhost`, `localhost:` and a port, or a
/// dotted name without spaces made only of ASCII letters, digits and
/// `.`, `-`, `:`, `_`.
pub open spec fn looks_like_host(host: Seq<char>) -> bool {
    ||| host == "localhost"@
    ||| has_prefix(host, "localhost:"@)
    ||| {
        &&& host.contains('.')
        &&& !host.contains(' ')
        &&& forall|i: int| 0 <= i < host.len() ==> is_host_char(#[trigger] host[i])
    }
}

/// `t` already names a scheme that the panel loads as it is.
pub open spec fn has_known_scheme(t: Seq<char>) -> bool {
    ||| has_prefix(t, "http://"@)
    ||| has_prefix(t, "https://"@)
    ||| has_prefix(t, "about:"@)
    ||| has_prefix(t, "file://"@)
}

/// The address that the omnibox gives for the typed `input`.
pub open spec fn resolved(input: Seq<char>) -> Seq<char> {
    let t = trimmed(input);
    if has_known_scheme(t) {
        t
    } else if looks_like_host(host_part(t)) {
        "https://"@ + t
    } else {
        "https://www.google.com/search?q="@ + percent_encoded(encode_utf8(t))
    }
}

/// A character that may stand in a percent-encoded query: an unreserved
/// character or a part of a `%` escape.
pub open spec fn is_query_safe_char(c: char) -> bool {
    is_ascii_alnum(c) || c == '-' || c == '.' || c == '_' || c == '~' || c == '%'
}

/// Percent-encoding yields only unreserved characters, `%` and upper-case
/// hexadecimal digits: no space or other whitespace is left in a query.
pub proof fn lemma_percent_encoded_query_safe(bytes: Seq<u8>)
    ensures
        forall|i: int|
            0 <= i < percent_encoded(bytes).len() ==> is_query_safe_char(
                #[trigger] percent_encoded(bytes)[i],
            ),
    decreases bytes.len(),
{
    if bytes.len() > 0 {
        lemma_percent_encoded_query_safe(bytes.drop_first());
        let head = percent_encoded_byte(bytes[0]);
        let tail = percent_encoded(bytes.drop_first());
        assert forall|i: int| 0 <= i < head.len() implies is_query_safe_char(#[trigger] head[i]) by {
            let b = bytes[0];
            if !is_unreserved_byte(b) {
                assert(0 <= b / 16 < 16);
                assert(0 <= b % 16 < 16);
            }
        }
        assert forall|i: int| 0 <= i < percent_encoded(bytes).len() implies is_query_safe_char(
            #[trigger] percent_encoded(bytes)[i],
        ) by {
            assert(percent_encoded(bytes) == head + tail);
            if i >= head.len() {
                assert(percent_encoded(bytes)[i] == tail[i - head.len()]);
            }
        }
    }
}

/// No character that may stand in a query is whitespace.
proof fn lemma_query_safe_not_white_space(c: char)
    requires
        is_query_safe_char(c),
    ensures
        !is_white_space(c),
{
}

/// The omnibox's answer needs no trimming.
proof fn lemma_resolved_trimmed(input: Seq<char>)
    ensures
        trimmed(resolved(input)) == resolved(input),
{
    let t = trimmed(input);
    lemma_trimmed_idempotent(input);
    lemma_trim_start_first(input);
    lemma_trim_end_prefix(trim_start(input));
    reveal_strlit("https://");
    reveal_strlit("https://www.google.com/search?q=");
    let r = resolved(input);
    if has_known_scheme(t) {
    } else if looks_like_host(host_part(t)) {
        if t.len() > 0 {
            assert(r.last() == t.last());
        }
        lemma_trimmed_fixed(r);
    } else {
        let q = percent_encoded(encode_utf8(t));
        lemma_percent_encoded_query_safe(encode_utf8(t));
        if q.len() > 0 {
            assert(r.last() == q.last());
            lemma_query_safe_not_white_space(q[q.len() - 1]);
        }
        lemma_trimmed_fixed(r);
    }
}

/// Every address that the omnibox gives starts with `http://`,
/// `https://`, `about:` or `file://`.
pub proof fn lemma_resolved_has_known_scheme(input: Seq<char>)
    ensures
        has_known_scheme(resolved(input)),
{
    let t = trimmed(input);
    let r = resolved(input);
    reveal_strlit("https://");
    reveal_strlit("https://www.google.com/search?q=");
    if has_known_scheme(t) {
    } else if looks_like_host(host_part(t)) {
        assert(r.take("https://"@.len() as int) == "https://"@);
    } else {
        assert(r.take("https://"@.len() as int) == "https://"@);
    }
}

/// Resolving an address that the omnibox gave yields it unchanged: a
/// second pass through the omnibox changes nothing.
pub proof fn lemma_resolved_idempotent(input: Seq<char>)
    ensures
        resolved(resolved(input)) == resolved(input),
{
    lemma_resolved_trimmed(input);
    lemma_resolved_has_known_scheme(input);
}

/// Every address that the omnibox gives starts with `http://`,
/// `https://`, `about:` or `file://`; and the trimmed input comes back
/// unchanged only when it already starts with one of these four.
pub proof fn lemma_result_starts_with_scheme(input: Seq<char>)
    ensures
        has_prefix(resolved(input), "http://"@) || has_prefix(resolved(input), "https://"@)
            || has_prefix(resolved(input), "about:"@) || has_prefix(resolved(input), "file://"@),
        resolved(input) == trimmed(input) <==> (has_prefix(trimmed(input), "http://"@)
            || has_prefix(trimmed(input), "https://"@) || has_prefix(trimmed(input), "about:"@)
            || has_prefix(trimmed(input), "file://"@)),
{
    lemma_resolved_has_known_scheme(input);
}

/// Surrounding whitespace does not change the address: padding the typed
/// text with whitespace before or after gives the same result.
pub proof fn lemma_resolved_ignores_padding(w: Seq<char>, s: Seq<char>)
    requires
        forall|i: int| 0 <= i < w.len() ==> is_white_space(#[trigger] w[i]),
    ensures
        resolved(w + s) == resolved(s),
        resolved(s + w) == resolved(s),
{
    lemma_trimmed_ignores_padding(w, s);
}

/// `host_len(t)` is the position of the first `/` in `t`, or its length
/// when there is none.
proof fn lemma_host_len(t: Seq<char>)
    ensures
        host_len(t) <= t.len(),
        forall|j: int| 0 <= j < host_len(t) ==> t[j] != '/',
        host_len(t) < t.len() ==> t[host_len(t) as int] == '/',
    decreases t.len(),
{
    if t.len() > 0 && t[0] != '/' {
        let r = t.drop_first();
        lemma_host_len(r);
        assert forall|j: int| 0 <= j < host_len(t) implies t[j] != '/' by {
            if j > 0 {
                assert(t[j] == r[j - 1]);
            }
        }
        if host_len(t) < t.len() {
            assert(t[host_len(t) as int] == r[host_len(r) as int]);
        }
    }
}

/// A character before the first `/` of `t` lies before the end of its
/// host part.
proof fn lemma_before_slash_in_host(t: Seq<char>, i: int)
    requires
        0 <= i < t.len(),
        forall|j: int| 0 <= j <= i ==> t[j] != '/',
    ensures
        i < host_len(t),
{
    lemma_host_len(t);
    if host_len(t) <= i {
        assert(t[host_len(t) as int] == '/');
    }
}

/// Typed text without a scheme whose part before the first `/` holds a dot
/// and only ASCII letters, digits, `.`, `-`, `:` and `_` is loaded as that
/// host over `https://`.
pub proof fn lemma_dotted_host_gets_https(input: Seq<char>)
    requires
        !has_prefix(trimmed(input), "http://"@),
        !has_prefix(trimmed(input), "https://"@),
        !has_prefix(trimmed(input), "about:"@),
        !has_prefix(trimmed(input), "file://"@),
        exists|i: int|
            0 <= i < trimmed(input).len() && #[trigger] trimmed(input)[i] == '.' && forall|j: int|
                0 <= j <= i ==> trimmed(input)[j] != '/',
        forall|i: int|
            0 <= i < trimmed(input).len() && (forall|j: int| 0 <= j <= i ==> trimmed(input)[j] != '/')
                ==> {
                let c = #[trigger] trimmed(input)[i];
                ||| ('0' <= c && c <= '9')
                ||| ('a' <= c && c <= 'z')
                ||| ('A' <= c && c <= 'Z')
                ||| c == '.'
                ||| c == '-'
                ||| c == ':'
                ||| c == '_'
            },
    ensures
        resolved(input) == "https://"@ + trimmed(input),
{
    let t = trimmed(input);
    lemma_host_len(t);
    let h = host_len(t);
    let host = host_part(t);
    let i = choose|i: int|
        0 <= i < t.len() && #[trigger] t[i] == '.' && forall|j: int| 0 <= j <= i ==> t[j] != '/';
    lemma_before_slash_in_host(t, i);
    assert(host[i] == '.');
    assert forall|k: int| 0 <= k < host.len() implies is_host_char(#[trigger] host[k]) by {
        assert(host[k] == t[k]);
        assert(forall|j: int| 0 <= j <= k ==> t[j] != '/');
    }
    assert(!host.contains(' ')) by {
        if host.contains(' ') {
            let k = choose|k: int| 0 <= k < host.len() && host[k] == ' ';
            assert(is_host_char(host[k]));
        }
    }
    assert(looks_like_host(host));
}

/// Typed text without a scheme that has a space before its first `/` is
/// searched for, unless it starts with `localhost:`; it is never loaded as
/// an address with a space in its host.
pub proof fn lemma_spaced_text_is_searched(input: Seq<char>)
    requires
        !has_prefix(trimmed(input), "http://"@),
        !has_prefix(trimmed(input), "https://"@),
        !has_prefix(trimmed(input), "about:"@),
        !has_prefix(trimmed(input), "file://"@),
        !has_prefix(trimmed(input), "localhost:"@),
        exists|i: int|
            0 <= i < trimmed(input).len() && #[trigger] trimmed(input)[i] == ' ' && forall|j: int|
                0 <= j <= i ==> trimmed(input)[j] != '/',
    ensures
        resolved(input) == "https://www.google.com/search?q="@ + percent_encoded(
            encode_utf8(trimmed(input)),
        ),
{
    let t = trimmed(input);
    lemma_host_len(t);
    let h = host_len(t);
    let host = host_part(t);
    let i = choose|i: int|
        0 <= i < t.len() && #[trigger] t[i] == ' ' && forall|j: int| 0 <= j <= i ==> t[j] != '/';
    lemma_before_slash_in_host(t, i);
    assert(host[i] == ' ');
    assert(host.contains(' '));
    reveal_strlit("localhost");
    reveal_strlit("localhost:");
    assert(host != "localhost"@) by {
        if host == "localhost"@ {
            assert("localhost"@[i] == ' ');
        }
    }
    assert(!has_prefix(host, "localhost:"@)) by {
        if has_prefix(host, "localhost:"@) {
            assert(t.take(10) == host.take(10));
        }
    }
    assert(!looks_like_host(host));
}

/// Typed text without a scheme that is `localhost`, or starts with
/// `localhost/` or `localhost:`, is loaded over `https://`.
pub proof fn lemma_localhost_gets_https(input: Seq<char>)
    requires
        !has_prefix(trimmed(input), "http://"@),
        !has_prefix(trimmed(input), "https://"@),
        !has_prefix(trimmed(input), "about:"@),
        !has_prefix(trimmed(input), "file://"@),
        trimmed(input) == "localhost"@ || has_prefix(trimmed(input), "localhost/"@) || has_prefix(
            trimmed(input),
            "localhost:"@,
        ),
    ensures
        resolved(input) == "https://"@ + trimmed(input),
{
    let t = trimmed(input);
    lemma_host_len(t);
    let h = host_len(t);
    let host = host_part(t);
    reveal_strlit("localhost");
    reveal_strlit("localhost/");
    reveal_strlit("localhost:");
    if has_prefix(t, "localhost:"@) {
        if h < 10 {
            assert(t[h as int] == "localhost:"@[h as int]);
        }
        assert(host.take(10) == t.take(10));
    } else {
        assert("localhost/"@ == "localhost"@.push('/'));
        if h < 9 {
            if t == "localhost"@ {
                assert(t[h as int] == "localhost"@[h as int]);
            } else {
                assert(t[h as int] == t.take(10)[h as int]);
            }
        }
        if h > 9 {
            assert(t[9] != '/');
            assert(t.take(10)[9] == '/');
        }
        assert(host == "localhost"@);
    }
}

/// Typed text without a scheme and without a dot before its first `/` is
/// searched for, unless it is `localhost` or starts with `localhost/` or
/// `localhost:`.
pub proof fn lemma_undotted_text_is_searched(input: Seq<char>)
    requires
        !has_prefix(trimmed(input), "http://"@),
        !has_prefix(trimmed(input), "https://"@),
        !has_prefix(trimmed(input), "about:"@),
        !has_prefix(trimmed(input), "file://"@),
        trimmed(input) != "localhost"@,
        !has_prefix(trimmed(input), "localhost/"@),
        !has_prefix(trimmed(input), "localhost:"@),
        forall|i: int|
            0 <= i < trimmed(input).len() && (forall|j: int| 0 <= j <= i ==> trimmed(input)[j] != '/')
                ==> #[trigger] trimmed(input)[i] != '.',
    ensures
        resolved(input) == "https://www.google.com/search?q="@ + percent_encoded(
            encode_utf8(trimmed(input)),
        ),
{
    let t = trimmed(input);
    lemma_host_len(t);
    let h = host_len(t);
    let host = host_part(t);
    reveal_strlit("localhost");
    reveal_strlit("localhost/");
    reveal_strlit("localhost:");
    assert(!host.contains('.')) by {
        if host.contains('.') {
            let k = choose|k: int| 0 <= k < host.len() && host[k] == '.';
            assert(host[k] == t[k]);
            assert(forall|j: int| 0 <= j <= k ==> t[j] != '/');
        }
    }
    assert("localhost/"@ == "localhost"@.push('/'));
    assert(host != "localhost"@) by {
        if host == "localhost"@ {
            if h < t.len() {
                assert(t.take(10) == host.push('/'));
            } else {
                assert(t == host);
            }
        }
    }
    assert(!has_prefix(host, "localhost:"@)) by {
        if has_prefix(host, "localhost:"@) {
            assert(t.take(10) == host.take(10));
        }
    }
}

/// The length of the part of `t` before its first `/`.
fn host_end(t: &Vec<char>) -> (n: usize)
    ensures
        n == host_len(t@),
        n <= t@.len(),
{
    let mut i: usize = 0;
    assert(t@.skip(0) == t@);
    while i < t.len() && t[i] != '/'
        invariant
            i <= t@.len(),
            host_len(t@) == i + host_len(t@.skip(i as int)),
        decreases t@.len() - i,
    {
        assert(t@.skip(i as int).drop_first() == t@.skip(i + 1));
        i = i + 1;
    }
    i
}

/// Whether every character of `h` may stand in a dotted host name.
fn all_host_chars(h: &Vec<char>) -> (b: bool)
    ensures
        b == forall|i: int| 0 <= i < h@.len() ==> is_host_char(#[trigger] h@[i]),
{
    let mut i: usize = 0;
    while i < h.len()
        invariant
            i <= h@.len(),
            forall|j: int| 0 <= j < i ==> is_host_char(#[trigger] h@[j]),
        decreases h@.len() - i,
    {
        let c = h[i];
        if !(c.is_ascii_alphanumeric() || c == '.' || c == '-' || c == ':' || c == '_') {
            return false;
        }
        i = i + 1;
    }
    true
}

/// Whether `host` reads as a host name.
fn host_looks_valid(host: &Vec<char>) -> (b: bool)
    ensures
        b == looks_like_host(host@),
{
    equals_str(host, "localhost") || starts_with(host, "localhost:") || (contains_char(host, '.')
        && !contains_char(host, ' ') && all_host_chars(host))
}

/// Chrome-style omnibox: turns what the user typed into the address to load.
///
/// Surrounding whitespace is dropped. Text that starts with `http://`,
/// `https://`, `about:` or `file://` is loaded as it is. Text whose part
/// before the first `/` reads as a host (`localhost`, `localhost:` and a
/// port, or a dotted name of host characters) gets `https://` in front.
/// Anything else becomes a Google search for the percent-encoded text.
pub fn resolve_omnibox_input(input: &str) -> (url: String)
    ensures
        url@ == resolved(input@),
{
    let v = chars_of(input);
    let t = trim_chars(&v);
    if starts_with(&t, "http://") || starts_with(&t, "https://") {
        return string_from_chars(&t);
    }
    if starts_with(&t, "about:") || starts_with(&t, "file://") {
        return string_from_chars(&t);
    }
    let n = host_end(&t);
    let host = {
        let mut h: Vec<char> = Vec::new();
        let mut i: usize = 0;
        while i < n
            invariant
                n <= t@.len(),
                i <= n,
                h@ == t@.take(i as int),
            decreases n - i,
        {
            h.push(t[i]);
            assert(t@.take(i + 1) == t@.take(i as int).push(t@[i as int]));
            i = i + 1;
        }
        h
    };
    if host_looks_valid(&host) {
        let mut out = "https://".to_owned();
        let rest = string_from_chars(&t);
        out.append(rest.as_str());
        out
    } else {
        let query = string_from_chars(&t);
        let encoded = url_encode(query.as_str());
        let mut out = "https://www.google.com/search?q=".to_owned();
        out.append(encoded.as_str());
        out
    }
}

} // verus!
