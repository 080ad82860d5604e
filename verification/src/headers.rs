//! Headers of requests and answers.
use axum::http::HeaderMap;
use vstd::prelude::*;

verus! {

/// `axum::http::HeaderMap`, the headers of a request or an answer.
#[verifier::external_type_specification]
#[verifier::external_body]
#[verifier::reject_recursive_types(T)]
pub struct ExHeaderMap<T>(axum::http::HeaderMap<T>);

/// `axum::http::HeaderValue`, the value of a header.
#[verifier::external_type_specification]
#[verifier::external_body]
pub struct ExHeaderValue(axum::http::HeaderValue);

/// The values of each header, under its name in lower case, in their order.
pub uninterp spec fn header_contents(headers: HeaderMap) -> Map<Seq<char>, Seq<Seq<u8>>>;

/// The first value of the authorization header.
pub open spec fn authorization(headers: HeaderMap) -> Option<Seq<u8>> {
    if header_contents(headers).contains_key("authorization"@) {
        Some(header_contents(headers)["authorization"@][0])
    } else {
        None
    }
}

/// `HeaderMap::get`, with `AUTHORIZATION`: the bytes of the first value of that header, if it is
/// there.
#[verifier::external_body]
pub(crate) fn authorization_bytes(headers: &HeaderMap) -> (r: Option<Vec<u8>>)
    ensures
        match r {
            Some(bytes) => authorization(*headers) == Some(bytes@),
            None => authorization(*headers) is None,
        },
{
    headers.get(axum::http::header::AUTHORIZATION).map(|value| value.as_bytes().to_vec())
}

/// `HeaderMap::new`: headers without any.
#[verifier::external_body]
pub(crate) fn no_headers() -> (r: HeaderMap)
    ensures
        header_contents(r).dom() == Set::<Seq<char>>::empty(),
{
    HeaderMap::new()
}

/// The most names of headers to which another is added. The crate refuses to grow beyond a
/// larger number, which depends on how often names collide.
pub const MAX_HEADERS: usize = 4_096;

/// Whether a text is the name of a header in lower case, made of letters and hyphens.
pub open spec fn is_header_name(name: Seq<char>) -> bool {
    0 < name.len() <= 64 && forall|k: int|
        0 <= k < name.len() ==> ('a' <= #[trigger] name[k] <= 'z' || name[k] == '-')
}

/// Whether a text may be the value of a header: visible ASCII and spaces.
pub open spec fn is_header_value(value: Seq<char>) -> bool {
    forall|k: int| 0 <= k < value.len() ==> ' ' <= #[trigger] value[k] <= '~'
}

/// The bytes of an ASCII text.
pub open spec fn ascii_bytes(value: Seq<char>) -> Seq<u8> {
    value.map_values(|c: char| c as u8)
}

/// `HeaderMap::insert`, with `HeaderValue::from_static`: the header has this value and no other.
#[verifier::external_body]
pub(crate) fn insert_header(headers: &mut HeaderMap, name: &'static str, value: &'static str)
    requires
        header_contents(*old(headers)).dom().finite(),
        header_contents(*old(headers)).len() <= MAX_HEADERS,
        is_header_name(name@),
        is_header_value(value@),
    ensures
        header_contents(*final(headers)) == header_contents(*old(headers)).insert(
            name@,
            seq![ascii_bytes(value@)],
        ),
{
    headers.insert(name, axum::http::HeaderValue::from_static(value));
}

/// Whether a byte is visible ASCII, a space or a tab.
pub open spec fn is_text_byte(b: u8) -> bool {
    32 <= b < 127 || b == 9
}

/// The text of the value of a header; `None` where it holds other bytes than visible ASCII.
pub open spec fn header_text(bytes: Seq<u8>) -> Option<Seq<char>> {
    if forall|k: int| 0 <= k < bytes.len() ==> is_text_byte(#[trigger] bytes[k]) {
        Some(bytes.map_values(|b: u8| b as char))
    } else {
        None
    }
}

/// The text of the value of a header.
pub fn to_text(bytes: &Vec<u8>) -> (r: Option<String>)
    ensures
        match r {
            Some(s) => header_text(bytes@) == Some(s@),
            None => header_text(bytes@) is None,
        },
{
    let mut s = String::new();
    let mut i: usize = 0;
    while i < bytes.len()
        invariant
            i <= bytes@.len(),
            forall|k: int| 0 <= k < i ==> is_text_byte(#[trigger] bytes@[k]),
            s@ == bytes@.take(i as int).map_values(|b: u8| b as char),
        decreases bytes@.len() - i,
    {
        let b: u8 = bytes[i];
        if !((32 <= b && b < 127) || b == 9) {
            assert(!is_text_byte(bytes@[i as int]));
            return None;
        }
        s.push(b as char);
        assert(bytes@.take(i + 1).map_values(|b: u8| b as char) =~= bytes@.take(i as int).map_values(
            |b: u8| b as char,
        ).push(b as char));
        i += 1;
    }
    assert(bytes@.take(i as int) =~= bytes@);
    Some(s)
}

/// The value of a header is read as it is, where it is visible ASCII, spaces and tabs, and not at all
/// where it is not.
pub proof fn law_values_are_read_as_they_are(bytes: &Vec<u8>, r: Option<String>)
    requires
        call_ensures(to_text, (bytes,), r),
    ensures
        r is Some <==> forall|k: int|
            0 <= k < bytes@.len() ==> (32 <= #[trigger] bytes@[k] <= 126 || bytes@[k] == 9),
        r matches Some(s) ==> s@.len() == bytes@.len() && forall|k: int|
            0 <= k < bytes@.len() ==> #[trigger] s@[k] as int == bytes@[k],
{
    if r is None {
        let k = choose|k: int| 0 <= k < bytes@.len() && !is_text_byte(#[trigger] bytes@[k]);
        assert(!(32 <= bytes@[k] <= 126 || bytes@[k] == 9));
    } else {
        assert forall|k: int| 0 <= k < bytes@.len() implies (32 <= #[trigger] bytes@[k] <= 126
            || bytes@[k] == 9) by {
            assert(is_text_byte(bytes@[k]));
        }
    }
}

} // verus!
