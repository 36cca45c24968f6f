//! Conversion between header mappings and the header map of the transport.

use vstd::prelude::*;
use vstd::string::StringSliceAdditionalSpecFns;
use vstd::utf8::{decode_utf8, encode_utf8, encode_utf8_decode_utf8};
use crate::error::HttpClientError;
use crate::method_utils::is_tchar;
use crate::string_map::{keys_unique, lemma_put_keeps_unique, put, StringMap, Text};
use crate::text::{ascii_lower, chars_of, lower_text, str_eq, string_of, to_lower};

verus! {

/// The header map of the transport, `reqwest::header::HeaderMap`. Nothing
/// is seen of its inside; what it holds is named by `header_map_entries`.
#[verifier::external_type_specification]
#[verifier::external_body]
#[verifier::reject_recursive_types(T)]
pub struct ExHeaderMap<T>(reqwest::header::HeaderMap<T>);

/// A header name of the transport, `reqwest::header::HeaderName`.
#[verifier::external_type_specification]
#[verifier::external_body]
pub struct ExHeaderName(reqwest::header::HeaderName);

/// A header value of the transport, `reqwest::header::HeaderValue`.
#[verifier::external_type_specification]
#[verifier::external_body]
pub struct ExHeaderValue(reqwest::header::HeaderValue);

/// The error of a header name that does not parse.
#[verifier::external_type_specification]
#[verifier::external_body]
pub struct ExInvalidHeaderName(reqwest::header::InvalidHeaderName);

/// The error of a header value that does not parse.
#[verifier::external_type_specification]
#[verifier::external_body]
pub struct ExInvalidHeaderValue(reqwest::header::InvalidHeaderValue);

/// The error of a header map that cannot grow.
#[verifier::external_type_specification]
#[verifier::external_body]
pub struct ExMaxSizeReached(reqwest::header::MaxSizeReached);

/// The number of headers up to which a header map takes every insertion.
/// The map of the transport holds at most 32768 slots, and where many names
/// collide it doubles its slots as soon as it holds a fifth of them, so from
/// 6554 entries on it may refuse an insertion, whatever room is left. Up to
/// this number of entries it refuses none.
pub const MAX_HEADERS: usize = 6553;

/// The largest capacity a header map can be made with: with a third more
/// slots than entries it fills the 32768 slots that a map can have.
pub const MAX_MAP_CAPACITY: usize = 24576;

/// Longest header name, in bytes.
pub const MAX_HEADER_NAME_LEN: usize = 65535;

/// The characters of a header name, which are always in lower case.
pub uninterp spec fn header_name_text(name: reqwest::header::HeaderName) -> Seq<char>;

/// The bytes of a header value.
pub uninterp spec fn header_value_bytes(value: reqwest::header::HeaderValue) -> Seq<u8>;

/// The name and value pairs of a header map, in the order in which the map
/// hands them out.
pub uninterp spec fn header_map_entries(map: reqwest::header::HeaderMap) -> Seq<(Text, Seq<u8>)>;

/// A header name as a caller may write it: a token, in either case, of
/// bounded length.
pub open spec fn is_header_name(s: Seq<char>) -> bool {
    1 <= s.len() <= MAX_HEADER_NAME_LEN && forall|i: int|
        0 <= i < s.len() ==> is_tchar(#[trigger] s[i])
}

/// A header name in its stored form: a token without capitals.
pub open spec fn is_lower_token(s: Seq<char>) -> bool {
    1 <= s.len() <= MAX_HEADER_NAME_LEN && forall|i: int|
        0 <= i < s.len() ==> is_tchar(#[trigger] s[i]) && !(65 <= (s[i] as u32) && (s[i] as u32)
            <= 90)
}

/// A text without ASCII capitals, as every header name is.
pub open spec fn is_lower_case(s: Seq<char>) -> bool {
    forall|i: int| 0 <= i < s.len() ==> !(65 <= (#[trigger] s[i] as u32) && (s[i] as u32) <= 90)
}

/// Every name among `e` is without capitals.
pub open spec fn names_lower_case<V>(e: Seq<(Text, V)>) -> bool {
    forall|i: int| 0 <= i < e.len() ==> is_lower_case((#[trigger] e[i]).0)
}

/// A character that may stand in a header value: anything but the control
/// characters, of which only the tab is let through.
pub open spec fn is_value_char(c: char) -> bool {
    ((c as u32) >= 32 && (c as u32) != 127) || (c as u32) == 9
}

pub open spec fn is_header_value(s: Seq<char>) -> bool {
    forall|i: int| 0 <= i < s.len() ==> is_value_char(#[trigger] s[i])
}

/// A header value that reads as text: printable ASCII and tabs only.
pub open spec fn is_visible_ascii(bytes: Seq<u8>) -> bool {
    forall|i: int| 0 <= i < bytes.len() ==> (32 <= (#[trigger] bytes[i]) < 127) || bytes[i] == 9
}

/// The header names that are recognised without parsing.
pub open spec fn is_common_header(s: Seq<char>) -> bool {
    s == "content-type"@ || s == "authorization"@ || s == "user-agent"@ || s == "accept"@ || s
        == "accept-encoding"@ || s == "cache-control"@ || s == "content-length"@ || s == "host"@
        || s == "referer"@ || s == "cookie"@ || s == "set-cookie"@ || s == "location"@ || s
        == "etag"@ || s == "last-modified"@ || s == "if-none-match"@ || s
        == "if-modified-since"@ || s == "x-api-key"@ || s == "x-auth-token"@ || s
        == "x-request-id"@ || s == "x-correlation-id"@ || s == "x-device-id"@ || s
        == "x-app-version"@ || s == "x-platform"@
}

/// What stands in the way of sending a header, if anything: its name is
/// looked at first, then its value.
pub open spec fn entry_error(entry: (Text, Text)) -> Option<HttpClientError> {
    if !is_header_name(entry.0) {
        Some(HttpClientError::InvalidHeaderName)
    } else if !is_header_value(entry.1) {
        Some(HttpClientError::InvalidHeaderValue)
    } else {
        None
    }
}

/// The error of the first header that cannot be sent.
pub open spec fn first_error(p: Seq<(Text, Text)>) -> Option<HttpClientError>
    decreases p.len(),
{
    if p.len() == 0 {
        None
    } else if entry_error(p[0]).is_some() {
        entry_error(p[0])
    } else {
        first_error(p.drop_first())
    }
}

/// The entries of the header map built from `p`: each name in lower case,
/// each value as its bytes, a later header replacing an earlier one of the
/// same name in its place.
pub open spec fn built_entries(p: Seq<(Text, Text)>) -> Seq<(Text, Seq<u8>)>
    decreases p.len(),
{
    if p.len() == 0 {
        Seq::empty()
    } else {
        put(built_entries(p.drop_last()), lower_text(p.last().0), encode_utf8(p.last().1))
    }
}

/// The response headers taken from the entries of a header map: a value that
/// does not read as text is skipped, and of several values under one name the
/// last one stays.
pub open spec fn extracted(e: Seq<(Text, Seq<u8>)>) -> Seq<(Text, Text)>
    decreases e.len(),
{
    if e.len() == 0 {
        Seq::empty()
    } else if is_visible_ascii(e.last().1) {
        put(extracted(e.drop_last()), e.last().0, decode_utf8(e.last().1))
    } else {
        extracted(e.drop_last())
    }
}

proof fn lemma_tchar_before_lowering(c: char)
    requires
        is_tchar(ascii_lower(c)),
    ensures
        is_tchar(c),
{
    if 65 <= (c as u32) && (c as u32) <= 90 {
        assert('A' <= c && c <= 'Z');
    }
}

proof fn lemma_first_error_skip(p: Seq<(Text, Text)>, i: int)
    requires
        0 <= i <= p.len(),
        forall|j: int| 0 <= j < i ==> entry_error(#[trigger] p[j]).is_none(),
    ensures
        first_error(p) == first_error(p.skip(i)),
    decreases i,
{
    if i == 0 {
        assert(p.skip(0) =~= p);
    } else {
        assert(entry_error(p[0]).is_none());
        let q = p.drop_first();
        assert forall|j: int| 0 <= j < i - 1 implies entry_error(#[trigger] q[j]).is_none() by {
            assert(q[j] == p[j + 1]);
        }
        lemma_first_error_skip(q, i - 1);
        assert(q.skip(i - 1) =~= p.skip(i));
    }
}

proof fn lemma_built_entries_unique(p: Seq<(Text, Text)>)
    ensures
        keys_unique(built_entries(p)),
        built_entries(p).len() <= p.len(),
    decreases p.len(),
{
    if p.len() > 0 {
        lemma_built_entries_unique(p.drop_last());
        lemma_put_keeps_unique(
            built_entries(p.drop_last()),
            lower_text(p.last().0),
            encode_utf8(p.last().1),
        );
    }
}

proof fn lemma_extracted_unique(e: Seq<(Text, Seq<u8>)>)
    ensures
        keys_unique(extracted(e)),
    decreases e.len(),
{
    if e.len() > 0 {
        lemma_extracted_unique(e.drop_last());
        if is_visible_ascii(e.last().1) {
            lemma_put_keeps_unique(extracted(e.drop_last()), e.last().0, decode_utf8(e.last().1));
        }
    }
}

/// The names that are extracted are names of the map, so none has a capital.
proof fn lemma_extracted_lower_case(e: Seq<(Text, Seq<u8>)>)
    requires
        names_lower_case(e),
    ensures
        names_lower_case(extracted(e)),
    decreases e.len(),
{
    if e.len() > 0 {
        let rest = e.drop_last();
        assert forall|i: int| 0 <= i < rest.len() implies is_lower_case((#[trigger] rest[i]).0) by {
            assert(rest[i] == e[i]);
        }
        lemma_extracted_lower_case(rest);
        if is_visible_ascii(e.last().1) {
            let acc = extracted(rest);
            let out = put(acc, e.last().0, decode_utf8(e.last().1));
            assert(is_lower_case(e[e.len() - 1].0));
            assert forall|i: int| 0 <= i < out.len() implies is_lower_case((#[trigger] out[i]).0) by {
                if i < acc.len() {
                    assert(is_lower_case(acc[i].0));
                }
            }
        }
    }
}

/// Parses a header name with `HeaderName::from_bytes`, on which
/// `HeaderName::from_str` rests.
///
/// Assumed of that function: it accepts exactly the tokens of one to 65535
/// bytes, and the name it builds reads as the input in lower case.
#[verifier::external_body]
fn header_name_from_str(key: &str) -> (r: Result<
    reqwest::header::HeaderName,
    reqwest::header::InvalidHeaderName,
>)
    ensures
        r.is_ok() <==> is_header_name(key@),
        r matches Ok(n) ==> header_name_text(n) == lower_text(key@),
{
    reqwest::header::HeaderName::from_bytes(key.as_bytes())
}

/// Makes a header name from a fixed string with `HeaderName::from_static`,
/// which panics on a string that is not a header name in lower case.
///
/// Assumed of that function: on a token without capitals it returns the
/// name that reads as that string.
#[verifier::external_body]
fn header_name_from_static(name: &'static str) -> (r: reqwest::header::HeaderName)
    requires
        is_lower_token(name@),
    ensures
        header_name_text(r) == name@,
{
    reqwest::header::HeaderName::from_static(name)
}

/// Parses a header value with `HeaderValue::from_str`.
///
/// Assumed of that function: it accepts exactly the strings without control
/// characters other than the tab, and the value it builds holds the bytes of
/// the input.
#[verifier::external_body]
fn header_value_from_str(value: &str) -> (r: Result<
    reqwest::header::HeaderValue,
    reqwest::header::InvalidHeaderValue,
>)
    ensures
        r.is_ok() <==> is_header_value(value@),
        r matches Ok(v) ==> header_value_bytes(v) == value.spec_bytes(),
{
    reqwest::header::HeaderValue::from_str(value)
}

/// Makes an empty header map with `HeaderMap::try_with_capacity`.
///
/// Assumed of that function: it succeeds exactly where the capacity is one
/// that a header map can have, and the map it makes is empty.
#[verifier::external_body]
fn header_map_try_with_capacity(capacity: usize) -> (r: Result<
    reqwest::header::HeaderMap,
    reqwest::header::MaxSizeReached,
>)
    ensures
        r.is_ok() <==> capacity <= MAX_MAP_CAPACITY,
        r matches Ok(map) ==> header_map_entries(map) == Seq::<(Text, Seq<u8>)>::empty(),
{
    reqwest::header::HeaderMap::try_with_capacity(capacity)
}

/// Sets a header with `HeaderMap::try_insert`, which fails where the map
/// cannot grow any further.
///
/// Assumed of that function: it succeeds on every map of fewer than 6553
/// entries; and where it succeeds on a map that holds one value under each
/// name, a name that is present keeps its place and takes the new value, and
/// a new name goes to the end. Nothing is claimed of a map on which it fails.
#[verifier::external_body]
fn header_map_try_insert(
    map: &mut reqwest::header::HeaderMap,
    name: reqwest::header::HeaderName,
    value: reqwest::header::HeaderValue,
) -> (r: Result<(), reqwest::header::MaxSizeReached>)
    ensures
        header_map_entries(*old(map)).len() < MAX_HEADERS ==> r.is_ok(),
        r.is_ok() && keys_unique(header_map_entries(*old(map))) ==> header_map_entries(
            *final(map),
        ) == put(header_map_entries(*old(map)), header_name_text(name), header_value_bytes(value)),
{
    match map.try_insert(name, value) {
        Ok(_) => Ok(()),
        Err(e) => Err(e),
    }
}

/// Hands out the pairs of a header map as `HeaderMap::iter` yields them, each
/// name as text from `HeaderName::as_str`, each value as text where
/// `HeaderValue::to_str` gives one.
///
/// Assumed of those functions: the pairs come in the order of the map's
/// entries; a name has no capital letter; a value reads as text exactly
/// where it is made of printable ASCII and tabs, and then the text has the
/// bytes of the value.
#[verifier::external_body]
fn header_map_pairs(map: &reqwest::header::HeaderMap) -> (pairs: Vec<(String, Option<String>)>)
    ensures
        pairs@.len() == header_map_entries(*map).len(),
        forall|i: int|
            0 <= i < pairs@.len() ==> {
                &&& (#[trigger] pairs@[i]).0@ == header_map_entries(*map)[i].0
                &&& is_lower_case(pairs@[i].0@)
                &&& pairs@[i].1.is_some() <==> is_visible_ascii(header_map_entries(*map)[i].1)
                &&& pairs@[i].1 matches Some(s) ==> encode_utf8(s@) == header_map_entries(
                    *map,
                )[i].1
            },
{
    let mut pairs = Vec::with_capacity(map.len());
    for (name, value) in map.iter() {
        let text = match value.to_str() {
            Ok(s) => Some(s.to_owned()),
            Err(_) => None,
        };
        pairs.push((name.as_str().to_owned(), text));
    }
    pairs
}

pub open spec fn pairs_text(v: Seq<(String, String)>) -> Seq<(Text, Text)> {
    Seq::new(v.len(), |i: int| (v[i].0@, v[i].1@))
}

/// What the conversion of the headers `p` to a header map owes. Up to 6553
/// headers the result is fixed: the map of `built_entries` where every header
/// can be sent, else the error of the first that cannot. Beyond that the map
/// may also refuse to grow, and beyond the largest capacity it always does.
pub open spec fn conversion_of(
    p: Seq<(Text, Text)>,
    r: Result<reqwest::header::HeaderMap, HttpClientError>,
) -> bool {
    match r {
        Ok(map) => p.len() <= MAX_MAP_CAPACITY && first_error(p).is_none() && header_map_entries(
            map,
        ) == built_entries(p),
        Err(e) => if p.len() > MAX_MAP_CAPACITY {
            e == HttpClientError::TooManyHeaders
        } else {
            first_error(p) == Some(e) || (e == HttpClientError::TooManyHeaders && p.len()
                > MAX_HEADERS)
        },
    }
}

pub struct HeaderUtils;

impl HeaderUtils {
    /// The fixed spelling of a common header name, where `lower` is one.
    fn common_header(lower: &str) -> (r: Option<&'static str>)
        ensures
            r.is_some() <==> is_common_header(lower@),
            r matches Some(name) ==> name@ == lower@ && is_lower_token(name@),
    {
        if str_eq(lower, "content-type") {
            proof {
                reveal_strlit("content-type");
            }
            Some("content-type")
        } else if str_eq(lower, "authorization") {
            proof {
                reveal_strlit("authorization");
            }
            Some("authorization")
        } else if str_eq(lower, "user-agent") {
            proof {
                reveal_strlit("user-agent");
            }
            Some("user-agent")
        } else if str_eq(lower, "accept") {
            proof {
                reveal_strlit("accept");
            }
            Some("accept")
        } else if str_eq(lower, "accept-encoding") {
            proof {
                reveal_strlit("accept-encoding");
            }
            Some("accept-encoding")
        } else if str_eq(lower, "cache-control") {
            proof {
                reveal_strlit("cache-control");
            }
            Some("cache-control")
        } else if str_eq(lower, "content-length") {
            proof {
                reveal_strlit("content-length");
            }
            Some("content-length")
        } else if str_eq(lower, "host") {
            proof {
                reveal_strlit("host");
            }
            Some("host")
        } else if str_eq(lower, "referer") {
            proof {
                reveal_strlit("referer");
            }
            Some("referer")
        } else if str_eq(lower, "cookie") {
            proof {
                reveal_strlit("cookie");
            }
            Some("cookie")
        } else if str_eq(lower, "set-cookie") {
            proof {
                reveal_strlit("set-cookie");
            }
            Some("set-cookie")
        } else if str_eq(lower, "location") {
            proof {
                reveal_strlit("location");
            }
            Some("location")
        } else if str_eq(lower, "etag") {
            proof {
                reveal_strlit("etag");
            }
            Some("etag")
        } else if str_eq(lower, "last-modified") {
            proof {
                reveal_strlit("last-modified");
            }
            Some("last-modified")
        } else if str_eq(lower, "if-none-match") {
            proof {
                reveal_strlit("if-none-match");
            }
            Some("if-none-match")
        } else if str_eq(lower, "if-modified-since") {
            proof {
                reveal_strlit("if-modified-since");
            }
            Some("if-modified-since")
        } else if str_eq(lower, "x-api-key") {
            proof {
                reveal_strlit("x-api-key");
            }
            Some("x-api-key")
        } else if str_eq(lower, "x-auth-token") {
            proof {
                reveal_strlit("x-auth-token");
            }
            Some("x-auth-token")
        } else if str_eq(lower, "x-request-id") {
            proof {
                reveal_strlit("x-request-id");
            }
            Some("x-request-id")
        } else if str_eq(lower, "x-correlation-id") {
            proof {
                reveal_strlit("x-correlation-id");
            }
            Some("x-correlation-id")
        } else if str_eq(lower, "x-device-id") {
            proof {
                reveal_strlit("x-device-id");
            }
            Some("x-device-id")
        } else if str_eq(lower, "x-app-version") {
            proof {
                reveal_strlit("x-app-version");
            }
            Some("x-app-version")
        } else if str_eq(lower, "x-platform") {
            proof {
                reveal_strlit("x-platform");
            }
            Some("x-platform")
        } else {
            None
        }
    }

    /// The header name for `key`. A common name, written in any case, is
    /// taken from a fixed table; any other name is parsed.
    pub fn get_optimized_header_name(key: &str) -> (r: Result<
        reqwest::header::HeaderName,
        HttpClientError,
    >)
        ensures
            r.is_ok() <==> is_header_name(key@),
            r matches Ok(name) ==> header_name_text(name) == lower_text(key@),
            r matches Err(e) ==> e == HttpClientError::InvalidHeaderName,
    {
        let chars = chars_of(key);
        let lower = string_of(&to_lower(&chars));
        match Self::common_header(lower.as_str()) {
            Some(name) => {
                proof {
                    assert forall|i: int| 0 <= i < key@.len() implies is_tchar(
                        #[trigger] key@[i],
                    ) by {
                        assert(name@.len() == key@.len());
                        assert(name@[i] == ascii_lower(key@[i]));
                        assert(is_tchar(name@[i]));
                        lemma_tchar_before_lowering(key@[i]);
                    }
                }
                Ok(header_name_from_static(name))
            },
            None => match header_name_from_str(key) {
                Ok(name) => Ok(name),
                Err(_) => Err(HttpClientError::InvalidHeaderName),
            },
        }
    }

    fn build(pairs: &Vec<(String, String)>) -> (r: Result<
        reqwest::header::HeaderMap,
        HttpClientError,
    >)
        ensures
            conversion_of(pairs_text(pairs@), r),
    {
        let n = pairs.len();
        let ghost p = pairs_text(pairs@);
        let mut map = match header_map_try_with_capacity(n) {
            Ok(map) => map,
            Err(_) => {
                return Err(HttpClientError::TooManyHeaders);
            },
        };
        let mut i: usize = 0;
        assert(p.take(0) =~= Seq::<(Text, Text)>::empty());
        while i < n
            invariant
                n == pairs@.len(),
                n <= MAX_MAP_CAPACITY,
                i <= n,
                p == pairs_text(pairs@),
                forall|j: int| 0 <= j < i ==> entry_error(#[trigger] p[j]).is_none(),
                header_map_entries(map) == built_entries(p.take(i as int)),
            decreases n - i,
        {
            proof {
                lemma_built_entries_unique(p.take(i as int));
                lemma_first_error_skip(p, i as int);
                assert(p.skip(i as int)[0] == p[i as int]);
                assert(p[i as int] == (pairs@[i as int].0@, pairs@[i as int].1@));
            }
            let name = match Self::get_optimized_header_name(pairs[i].0.as_str()) {
                Ok(name) => name,
                Err(e) => {
                    return Err(e);
                },
            };
            let value = match header_value_from_str(pairs[i].1.as_str()) {
                Ok(value) => value,
                Err(_) => {
                    return Err(HttpClientError::InvalidHeaderValue);
                },
            };
            match header_map_try_insert(&mut map, name, value) {
                Ok(()) => {},
                Err(_) => {
                    return Err(HttpClientError::TooManyHeaders);
                },
            }
            proof {
                let t = p.take(i + 1);
                assert(t.drop_last() =~= p.take(i as int));
                assert(t.last() == p[i as int]);
            }
            i = i + 1;
        }
        proof {
            lemma_first_error_skip(p, n as int);
            assert(p.take(n as int) =~= p);
        }
        Ok(map)
    }

    /// Converts request headers to a header map. The first header whose name
    /// or value cannot be sent fails the whole conversion. The conversion
    /// refuses only what the header map refuses: more headers than a map can
    /// be made for, or, beyond 6553 headers, an insertion that the map does
    /// not take.
    pub fn build_header_map(headers: &StringMap) -> (r: Result<
        reqwest::header::HeaderMap,
        HttpClientError,
    >)
        ensures
            conversion_of(headers@, r),
    {
        let pairs = headers.entries();
        assert(pairs_text(pairs@) =~= headers@);
        Self::build(pairs)
    }

    /// Converts a list of header pairs to a header map. Of two pairs with the
    /// same name, in any case, the later one stays.
    pub fn build_header_map_from_strings(headers: &Vec<(String, String)>) -> (r: Result<
        reqwest::header::HeaderMap,
        HttpClientError,
    >)
        ensures
            conversion_of(pairs_text(headers@), r),
    {
        Self::build(headers)
    }

    /// Converts response headers to a mapping from name to value. A value
    /// that does not read as text is skipped.
    pub fn extract_response_headers(response_headers: &reqwest::header::HeaderMap) -> (headers:
        StringMap)
        ensures
            headers.wf(),
            headers@ == extracted(header_map_entries(*response_headers)),
            names_lower_case(headers@),
    {
        let pairs = header_map_pairs(response_headers);
        let ghost e = header_map_entries(*response_headers);
        proof {
            assert forall|i: int| 0 <= i < e.len() implies is_lower_case((#[trigger] e[i]).0) by {
                assert(pairs@[i].0@ == e[i].0);
            }
            lemma_extracted_lower_case(e);
        }
        let mut headers = StringMap::new();
        let mut i: usize = 0;
        assert(e.take(0) =~= Seq::<(Text, Seq<u8>)>::empty());
        while i < pairs.len()
            invariant
                i <= pairs@.len(),
                pairs@.len() == e.len(),
                forall|j: int|
                    0 <= j < pairs@.len() ==> {
                        &&& (#[trigger] pairs@[j]).0@ == e[j].0
                        &&& pairs@[j].1.is_some() <==> is_visible_ascii(e[j].1)
                        &&& pairs@[j].1 matches Some(s) ==> encode_utf8(s@) == e[j].1
                    },
                headers.wf(),
                headers@ == extracted(e.take(i as int)),
            decreases pairs@.len() - i,
        {
            proof {
                let t = e.take(i + 1);
                assert(t.drop_last() =~= e.take(i as int));
                assert(t.last() == e[i as int]);
            }
            match &pairs[i].1 {
                Some(value) => {
                    proof {
                        encode_utf8_decode_utf8(value@);
                    }
                    headers.insert(pairs[i].0.clone(), value.clone());
                },
                None => {},
            }
            i = i + 1;
        }
        assert(e.take(pairs@.len() as int) =~= e);
        headers
    }
}

} // verus!
