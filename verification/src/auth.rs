//! Who may ask: the service token of the frontend, and the device key of a subscriber.
use crate::api::{self, Refusal, Status};
use crate::device_key;
use crate::headers;
use crate::text;
use axum::http::HeaderMap;
use vstd::prelude::*;

verus! {

pub const BFF_AUTH_FAILED_MESSAGE: &'static str = "服务凭证无效";

pub const AUTH_FAILED_MESSAGE: &'static str = "Bark Key 验证失败";

/// What stands behind the scheme of an authorization, without white space around it; `None`
/// where the scheme is another one than `Bearer`.
pub open spec fn bearer_text(authorization: Seq<char>) -> Option<Seq<char>> {
    match text::split_at_first(text::trimmed(authorization), ' ') {
        Some((scheme, rest)) => if text::ascii_lower(scheme) == text::ascii_lower("Bearer"@) {
            Some(text::trimmed(rest))
        } else {
            None
        },
        None => None,
    }
}

/// What a request shows as bearer, if its authorization is a readable text.
pub open spec fn bearer(headers: HeaderMap) -> Option<Seq<char>> {
    match headers::authorization(headers) {
        Some(bytes) => match headers::header_text(bytes) {
            Some(authorization) => bearer_text(authorization),
            None => None,
        },
        None => None,
    }
}

/// A token that is shown as bearer is read back, whatever the case of the scheme and however much
/// white space stands around the token.
pub proof fn law_bearer_is_read_back(scheme: Seq<char>, space: Seq<char>, token: Seq<char>)
    requires
        text::ascii_lower(scheme) == text::ascii_lower("Bearer"@),
        text::trimmed(space).len() == 0,
        token.len() > 0,
        text::trimmed(token) == token,
    ensures
        bearer_text(scheme + seq![' '] + space + token) == Some(token),
        bearer_text(scheme + seq![' '] + token) == Some(token),
{
    reveal_strlit("Bearer");
    assert("Bearer"@ =~= seq!['B', 'e', 'a', 'r', 'e', 'r']);
    assert(text::ascii_lower(scheme).len() == scheme.len());
    assert(text::ascii_lower("Bearer"@).len() == 6);
    assert forall|k: int| 0 <= k < 6 implies !text::is_space(#[trigger] scheme[k]) by {
        assert(text::ascii_lower(scheme)[k] == text::ascii_lower_char(scheme[k]));
        assert(text::ascii_lower("Bearer"@)[k] == text::ascii_lower_char("Bearer"@[k]));
    }
    text::lemma_trimmed_ends(token);
    lemma_spaces_before(space, token);
    lemma_bearer_parts(scheme, space + token);
    lemma_bearer_parts(scheme, token);
    assert(scheme + seq![' '] + space + token =~= scheme + seq![' '] + (space + token));
}

proof fn lemma_bearer_parts(scheme: Seq<char>, rest: Seq<char>)
    requires
        text::ascii_lower(scheme) == text::ascii_lower("Bearer"@),
        scheme.len() == 6,
        forall|k: int| 0 <= k < 6 ==> !text::is_space(#[trigger] scheme[k]),
        rest.len() > 0,
        !text::is_space(rest.last()),
    ensures
        bearer_text(scheme + seq![' '] + rest) == Some(text::trimmed(rest)),
{
    let all = scheme + seq![' '] + rest;
    assert(all[0] == scheme[0]);
    text::lemma_trimmed_fixed(all);
    assert forall|k: int| 0 <= k < 6 implies all[k] != ' ' by {
        assert(all[k] == scheme[k]);
        assert(!text::is_space(scheme[k]));
    }
    text::lemma_split_at_first(all, ' ', 6);
    assert(all.subrange(0, 6) =~= scheme);
    assert(all.subrange(7, all.len() as int) =~= rest);
}

/// White space before a trimmed text is trimmed away.
proof fn lemma_spaces_before(space: Seq<char>, token: Seq<char>)
    requires
        text::trimmed(space).len() == 0,
        token.len() > 0,
        !text::is_space(token[0]),
        !text::is_space(token.last()),
    ensures
        text::trimmed(space + token) == token,
    decreases space.len(),
{
    if space.len() == 0 {
        assert(space + token =~= token);
        text::lemma_trimmed_fixed(token);
    } else {
        text::lemma_trimmed_empty(space);
        assert(text::is_space(space[0]));
        text::lemma_all_spaces(space.drop_first());
        lemma_spaces_before(space.drop_first(), token);
        assert((space + token).drop_first() =~= space.drop_first() + token);
    }
}

/// What stands behind the scheme of an authorization.
pub fn parse_bearer<'a>(authorization: &'a str) -> (r: Option<&'a str>)
    ensures
        match r {
            Some(rest) => bearer_text(authorization@) == Some(rest@),
            None => bearer_text(authorization@) is None,
        },
{
    let trimmed = text::trim(authorization);
    match text::split_once(trimmed, ' ') {
        Some((scheme, rest)) => if text::eq_ignore_ascii_case(scheme, "Bearer") {
            Some(text::trim(rest))
        } else {
            None
        },
        None => None,
    }
}

/// What a request shows as bearer.
fn bearer_of(headers: &HeaderMap) -> (r: Option<String>)
    ensures
        match r {
            Some(shown) => bearer(*headers) == Some(shown@),
            None => bearer(*headers) is None,
        },
{
    match headers::authorization_bytes(headers) {
        Some(bytes) => match headers::to_text(&bytes) {
            Some(authorization) => match parse_bearer(authorization.as_str()) {
                Some(shown) => Some(shown.to_owned()),
                None => None,
            },
            None => None,
        },
        None => None,
    }
}

/// Whether two byte strings are the same, found without stopping at the first difference.
pub fn constant_time_eq(left: &[u8], right: &[u8]) -> (r: bool)
    ensures
        r == (left@ == right@),
{
    if left.len() != right.len() {
        return false;
    }
    let mut diff: u8 = 0;
    let mut i: usize = 0;
    while i < left.len()
        invariant
            left@.len() == right@.len(),
            i <= left@.len(),
            diff == 0 <==> forall|k: int| 0 <= k < i ==> left@[k] == right@[k],
        decreases left@.len() - i,
    {
        let a: u8 = left[i];
        let b: u8 = right[i];
        assert((diff | (a ^ b)) == 0 <==> diff == 0 && a == b) by (bit_vector);
        diff = diff | (a ^ b);
        i += 1;
    }
    assert(diff == 0 ==> left@ =~= right@);
    diff == 0
}

/// Whether a request shows the service token. An empty token is never shown.
pub open spec fn shows_service_token(headers: HeaderMap, expected: Seq<char>) -> bool {
    match bearer(headers) {
        Some(shown) => shown.len() > 0 && shown == expected,
        None => false,
    }
}

/// Lets a request pass that shows the service token, and refuses every other one in the same way.
pub fn require_bff_service_token(headers: &HeaderMap, expected: &str) -> (r: Result<(), Refusal>)
    ensures
        r is Ok <==> shows_service_token(*headers, expected@),
        r matches Err(refusal) ==> api::refused_with(
            refusal,
            Status::Unauthorized,
            BFF_AUTH_FAILED_MESSAGE@,
        ),
{
    let accepted = match bearer_of(headers) {
        Some(provided) => {
            proof {
                vstd::utf8::encode_utf8_decode_utf8(provided@);
                vstd::utf8::encode_utf8_decode_utf8(expected@);
            }
            !provided.as_str().is_empty() && constant_time_eq(
                provided.as_str().as_bytes(),
                expected.as_bytes(),
            )
        },
        None => false,
    };
    if accepted {
        Ok(())
    } else {
        Err((Status::Unauthorized, BFF_AUTH_FAILED_MESSAGE.to_owned()))
    }
}

/// The device key that a request shows.
pub open spec fn shown_device_key(headers: HeaderMap) -> Option<Seq<char>> {
    match bearer(headers) {
        Some(shown) => if device_key::is_device_key(shown) {
            Some(shown)
        } else {
            None
        },
        None => None,
    }
}

proof fn lemma_bearer_is_trimmed(headers: HeaderMap)
    ensures
        bearer(headers) matches Some(shown) ==> text::trimmed(shown) == shown,
{
    if let Some(bytes) = headers::authorization(headers) {
        if let Some(authorization) = headers::header_text(bytes) {
            if let Some((scheme, rest)) = text::split_at_first(text::trimmed(authorization), ' ') {
                text::lemma_trimmed_twice(rest);
            }
        }
    }
}

/// The device key that a request shows; a request without one is refused.
pub fn require_bearer(headers: &HeaderMap) -> (r: Result<String, Refusal>)
    ensures
        match r {
            Ok(key) => shown_device_key(*headers) == Some(key@),
            Err(refusal) => shown_device_key(*headers) is None && api::refused_with(
                refusal,
                Status::Unauthorized,
                AUTH_FAILED_MESSAGE@,
            ),
        },
{
    proof {
        lemma_bearer_is_trimmed(*headers);
    }
    match bearer_of(headers) {
        Some(shown) => match device_key::validate_device_key(shown.as_str()) {
            Ok(key) => Ok(key),
            Err(_) => Err((Status::Unauthorized, AUTH_FAILED_MESSAGE.to_owned())),
        },
        None => Err((Status::Unauthorized, AUTH_FAILED_MESSAGE.to_owned())),
    }
}

/// The device key that a request shows. A request without an authorization may pass without one.
pub fn optional_bearer(headers: &HeaderMap) -> (r: Result<Option<String>, Refusal>)
    ensures
        match r {
            Ok(None) => headers::authorization(*headers) is None,
            Ok(Some(key)) => headers::authorization(*headers) is Some && shown_device_key(*headers)
                == Some(key@),
            Err(refusal) => headers::authorization(*headers) is Some && shown_device_key(*headers)
                is None && api::refused_with(refusal, Status::Unauthorized, AUTH_FAILED_MESSAGE@),
        },
{
    match headers::authorization_bytes(headers) {
        None => Ok(None),
        Some(_) => match require_bearer(headers) {
            Ok(key) => Ok(Some(key)),
            Err(refusal) => Err(refusal),
        },
    }
}

/// Two byte strings are the same exactly where they are equally long and do not differ anywhere.
pub proof fn law_comparing_secrets(left: &[u8], right: &[u8], r: bool)
    requires
        call_ensures(constant_time_eq, (left, right), r),
    ensures
        r <==> left@.len() == right@.len() && forall|i: int|
            0 <= i < left@.len() ==> #[trigger] left@[i] == right@[i],
{
    if left@.len() == right@.len() && forall|i: int|
        0 <= i < left@.len() ==> #[trigger] left@[i] == right@[i] {
        assert(left@ =~= right@);
    }
}

/// What is read as bearer stands behind the word `Bearer`, in any case, and a space, and has no
/// white space around it.
pub proof fn law_bearer_stands_behind_its_scheme(authorization: &str, r: Option<&str>)
    requires
        call_ensures(parse_bearer, (authorization,), r),
        r is Some,
    ensures
        text::trimmed(r->0@) == r->0@,
        ({
            let shown = text::trimmed(authorization@);
            &&& shown.len() >= 7
            &&& text::ascii_lower(shown.take(6)) == text::ascii_lower("Bearer"@)
            &&& shown[6] == ' '
            &&& r->0@ == text::trimmed(shown.skip(7))
        }),
{
    reveal_strlit("Bearer");
    let shown = text::trimmed(authorization@);
    let (scheme, rest) = text::split_at_first(shown, ' ')->0;
    text::lemma_split_parts(shown, ' ');
    assert(text::ascii_lower(scheme).len() == scheme.len());
    assert(text::ascii_lower("Bearer"@).len() == 6);
    assert(shown.take(6) =~= scheme);
    assert(shown.skip(7) =~= rest);
    text::lemma_trimmed_twice(rest);
}

/// A request passes with the service token and with nothing else, and whoever does not show it is
/// refused alike.
pub proof fn law_service_token_is_needed(
    headers: &HeaderMap,
    expected: &str,
    r: Result<(), Refusal>,
    other: &HeaderMap,
    of_other: Result<(), Refusal>,
)
    requires
        call_ensures(require_bff_service_token, (headers, expected), r),
        call_ensures(require_bff_service_token, (other, expected), of_other),
    ensures
        r is Ok <==> bearer(*headers) == Some(expected@) && expected@.len() > 0,
        r is Err ==> r->Err_0.0 == Status::Unauthorized,
        r is Err && of_other is Err ==> r->Err_0.0 == of_other->Err_0.0 && r->Err_0.1@
            == of_other->Err_0.1@,
{
}

/// The device that asks is the one whose key the request shows, and no request passes that shows
/// none. Where a key is not needed, only a request without any authorization passes without one.
pub proof fn law_device_key_is_the_one_shown(
    headers: &HeaderMap,
    needed: Result<String, Refusal>,
    optional: Result<Option<String>, Refusal>,
)
    requires
        call_ensures(require_bearer, (headers,), needed),
        call_ensures(optional_bearer, (headers,), optional),
    ensures
        needed matches Ok(key) ==> bearer(*headers) == Some(key@) && device_key::is_device_key(
            key@,
        ),
        bearer(*headers) matches Some(key) ==> (device_key::is_device_key(key) ==> needed is Ok),
        needed is Err ==> needed->Err_0.0 == Status::Unauthorized,
        optional matches Ok(Some(key)) ==> (needed matches Ok(k) && k@ == key@),
        optional matches Ok(None) ==> headers::authorization(*headers) is None,
        headers::authorization(*headers) is None ==> optional matches Ok(None),
        headers::authorization(*headers) is Some ==> (optional is Ok <==> needed is Ok),
        optional is Err ==> optional->Err_0.0 == Status::Unauthorized,
{
}

/// Who may not pass is told in the same words, whatever is wrong.
pub proof fn law_words_to_strangers(
    headers: &HeaderMap,
    expected: &str,
    service: Result<(), Refusal>,
    needed: Result<String, Refusal>,
    optional: Result<Option<String>, Refusal>,
)
    requires
        call_ensures(require_bff_service_token, (headers, expected), service),
        call_ensures(require_bearer, (headers,), needed),
        call_ensures(optional_bearer, (headers,), optional),
    ensures
        service matches Err(refusal) ==> refusal.1@ == "服务凭证无效"@,
        needed matches Err(refusal) ==> refusal.1@ == "Bark Key 验证失败"@,
        optional matches Err(refusal) ==> refusal.1@ == "Bark Key 验证失败"@,
{
}

/// What a request shows is what its authorization, read as a text, has as bearer.
pub proof fn law_shown_bearer_is_that_of_the_authorization(
    headers: &HeaderMap,
    bytes: &Vec<u8>,
    authorization: Option<String>,
    text: &str,
    shown: Option<&str>,
)
    requires
        headers::authorization(*headers) == Some(bytes@),
        call_ensures(headers::to_text, (bytes,), authorization),
        authorization matches Some(a) ==> text@ == a@,
        call_ensures(parse_bearer, (text,), shown),
    ensures
        authorization is None ==> bearer(*headers) is None,
        authorization is Some ==> (bearer(*headers) is Some <==> shown is Some),
        authorization is Some && shown is Some ==> bearer(*headers) == Some(shown->0@),
{
}

} // verus!
