//! What may stand in a log of requests: keys and tokens are masked, bodies are cut.
use crate::json;
use crate::json::{JsonContents, JsonMember};
use crate::text;
use crate::urls;
use serde_json::Value;
use vstd::prelude::*;

verus! {

/// The most characters of a body that are logged.
pub const MAX_LOG_BODY_CHARS: usize = 2_048;

pub const DEVICE_KEY_QUERY: &'static str = "device_key";

pub const NOTIFICATION_PATH_MARKER: &'static str = "/notifications/";

/// The origin under which a URI without one is read.
pub const LOG_ORIGIN: &'static str = "http://log.invalid";

// ---------------------------------------------------------------------------
// Masking a text
// ---------------------------------------------------------------------------
/// The first three and the last three characters of a trimmed text, with stars between them;
/// of a short text only stars.
pub open spec fn masked(value: Seq<char>) -> Seq<char> {
    let v = text::trimmed(value);
    if v.len() <= 6 {
        seq!['*', '*', '*']
    } else {
        v.take(3) + seq!['*', '*', '*'] + v.skip(v.len() - 3)
    }
}

/// A text with its middle masked.
pub fn mask_middle(value: &str) -> (r: String)
    ensures
        r@ == masked(value@),
{
    let value = text::trim(value);
    let chars = text::to_chars(value);
    let n = chars.len();
    if n <= 6 {
        proof {
            reveal_strlit("***");
        }
        let r = "***".to_owned();
        assert(r@ =~= seq!['*', '*', '*']);
        r
    } else {
        proof {
            reveal_strlit("***");
        }
        let mut r = text::from_chars(&chars, 0, 3);
        r.append("***");
        r.append(text::from_chars(&chars, n - 3, n).as_str());
        assert(r@ =~= value@.take(3) + seq!['*', '*', '*'] + value@.skip(n - 3));
        r
    }
}

/// A masked text has at most nine characters, of which at most six are its own.
pub proof fn law_mask_shows_six_characters(value: Seq<char>)
    ensures
        masked(value).len() <= 9,
        masked(value).len() >= 3,
        text::trimmed(value).len() <= 6 ==> masked(value) == seq!['*', '*', '*'],
{
}

/// What lies between the first three and the last three characters does not show.
pub proof fn law_mask_hides_the_middle(a: Seq<char>, b: Seq<char>)
    requires
        text::trimmed(a).len() > 6,
        text::trimmed(b).len() > 6,
        text::trimmed(a).take(3) == text::trimmed(b).take(3),
        text::trimmed(a).skip(text::trimmed(a).len() - 3) == text::trimmed(b).skip(
            text::trimmed(b).len() - 3,
        ),
    ensures
        masked(a) == masked(b),
{
}

/// Masking a second time changes nothing.
pub proof fn law_mask_twice(value: Seq<char>)
    ensures
        masked(masked(value)) == masked(value),
{
    let v = text::trimmed(value);
    text::lemma_trimmed_ends(value);
    let m = masked(value);
    if v.len() > 6 {
        assert(m[0] == v[0]);
        assert(m.last() == v.last());
        text::lemma_trimmed_fixed(m);
        assert(m.take(3) =~= v.take(3));
        assert(m.skip(m.len() - 3) =~= v.skip(v.len() - 3));
    } else {
        text::lemma_trimmed_fixed(m);
    }
}

// ---------------------------------------------------------------------------
// Masking the token in the path of a notification
// ---------------------------------------------------------------------------
/// The last place at or before `at` where `part` stands in `s`.
pub open spec fn last_occurrence_from(s: Seq<char>, part: Seq<char>, at: int) -> Option<int>
    decreases at + 1,
{
    if at < 0 {
        None
    } else if text::occurs_at(s, part, at) {
        Some(at)
    } else {
        last_occurrence_from(s, part, at - 1)
    }
}

/// The last place where `part` stands in `s`.
pub open spec fn last_occurrence(s: Seq<char>, part: Seq<char>) -> Option<int> {
    last_occurrence_from(s, part, s.len() as int)
}

/// The length of what stands before the first slash.
pub open spec fn segment_len(s: Seq<char>) -> nat
    decreases s.len(),
{
    if s.len() == 0 || s[0] == '/' {
        0
    } else {
        1 + segment_len(s.drop_first())
    }
}

/// A path whose segment behind the last `/notifications/` is masked.
pub open spec fn masked_path(path: Seq<char>) -> Seq<char> {
    match last_occurrence(path, NOTIFICATION_PATH_MARKER@) {
        None => path,
        Some(at) => {
            let start = at + NOTIFICATION_PATH_MARKER@.len();
            let rest = path.skip(start);
            let n = segment_len(rest) as int;
            path.take(start) + masked(rest.take(n)) + rest.skip(n)
        },
    }
}

proof fn lemma_segment_len(s: Seq<char>, n: int)
    requires
        0 <= n <= s.len(),
        forall|k: int| 0 <= k < n ==> s[k] != '/',
        n < s.len() ==> s[n] == '/',
    ensures
        segment_len(s) == n,
    decreases s.len(),
{
    if n > 0 {
        let rest = s.drop_first();
        assert forall|k: int| 0 <= k < n - 1 implies rest[k] != '/' by {
            assert(rest[k] == s[k + 1]);
        }
        lemma_segment_len(rest, n - 1);
    }
}

/// A path with the token of a notification masked.
pub fn mask_notification_path(path: &str) -> (r: String)
    ensures
        r@ == masked_path(path@),
{
    let chars = text::to_chars(path);
    let marker = text::to_chars(NOTIFICATION_PATH_MARKER);
    let n = chars.len();
    let mut at: usize = n;
    while at > 0 && !text::occurs_in(&chars, &marker, at)
        invariant
            n == chars@.len(),
            at <= n,
            last_occurrence(chars@, marker@) == last_occurrence_from(chars@, marker@, at as int),
        decreases at,
    {
        at -= 1;
    }
    if !text::occurs_in(&chars, &marker, at) {
        assert(last_occurrence_from(chars@, marker@, -1) is None);
        return path.to_owned();
    }
    let start: usize = at + marker.len();
    let mut end: usize = start;
    while end < n && chars[end] != '/'
        invariant
            n == chars@.len(),
            start <= end <= n,
            forall|k: int| start <= k < end ==> chars@[k] != '/',
        decreases n - end,
    {
        end += 1;
    }
    let ghost rest = path@.skip(start as int);
    proof {
        assert forall|k: int| 0 <= k < end - start implies rest[k] != '/' by {
            assert(rest[k] == chars@[start + k]);
        }
        lemma_segment_len(rest, end - start);
        assert(rest.take(end - start) =~= chars@.subrange(start as int, end as int));
        assert(rest.skip(end - start) =~= chars@.subrange(end as int, n as int));
        assert(path@.take(start as int) =~= chars@.subrange(0, start as int));
    }
    let mut r = text::from_chars(&chars, 0, start);
    r.append(mask_middle(text::from_chars(&chars, start, end).as_str()).as_str());
    r.append(text::from_chars(&chars, end, n).as_str());
    r
}

/// What the last place is: `part` stands there, and nowhere behind it.
proof fn lemma_last_occurrence(s: Seq<char>, part: Seq<char>, from: int)
    requires
        from >= -1,
    ensures
        match last_occurrence_from(s, part, from) {
            Some(at) => 0 <= at <= from && text::occurs_at(s, part, at) && forall|j: int|
                at < j <= from ==> !text::occurs_at(s, part, j),
            None => forall|j: int| 0 <= j <= from ==> !text::occurs_at(s, part, j),
        },
    decreases from + 1,
{
    if from >= 0 && !text::occurs_at(s, part, from) {
        lemma_last_occurrence(s, part, from - 1);
    }
}

proof fn lemma_is_last_occurrence(s: Seq<char>, part: Seq<char>, from: int, at: int)
    requires
        0 <= at <= from,
        text::occurs_at(s, part, at),
        forall|j: int| at < j <= from ==> !text::occurs_at(s, part, j),
    ensures
        last_occurrence_from(s, part, from) == Some(at),
    decreases from,
{
    if at < from {
        lemma_is_last_occurrence(s, part, from - 1, at);
    }
}

proof fn lemma_segment_of(s: Seq<char>)
    ensures
        segment_len(s) <= s.len(),
        forall|k: int| 0 <= k < segment_len(s) ==> s[k] != '/',
        segment_len(s) < s.len() ==> s[segment_len(s) as int] == '/',
    decreases s.len(),
{
    if s.len() > 0 && s[0] != '/' {
        let rest = s.drop_first();
        lemma_segment_of(rest);
        assert forall|k: int| 0 <= k < segment_len(s) implies s[k] != '/' by {
            if k > 0 {
                assert(rest[k - 1] == s[k]);
            }
        }
        if segment_len(s) < s.len() {
            assert(rest[segment_len(rest) as int] == s[segment_len(s) as int]);
        }
    }
}

/// The token of a notification stands in a masked path only as its mask.
pub proof fn law_masked_path_hides_the_token(
    prefix: Seq<char>,
    token: Seq<char>,
    suffix: Seq<char>,
)
    requires
        forall|k: int| 0 <= k < token.len() ==> token[k] != '/',
        suffix.len() > 0 ==> suffix[0] == '/',
        last_occurrence(
            prefix + NOTIFICATION_PATH_MARKER@ + token + suffix,
            NOTIFICATION_PATH_MARKER@,
        ) == Some(prefix.len() as int),
    ensures
        masked_path(prefix + NOTIFICATION_PATH_MARKER@ + token + suffix) == prefix
            + NOTIFICATION_PATH_MARKER@ + masked(token) + suffix,
{
    let path = prefix + NOTIFICATION_PATH_MARKER@ + token + suffix;
    let start = (prefix.len() + NOTIFICATION_PATH_MARKER@.len()) as int;
    let rest = path.skip(start);
    assert(rest =~= token + suffix);
    lemma_segment_len(rest, token.len() as int);
    assert(rest.take(token.len() as int) =~= token);
    assert(rest.skip(token.len() as int) =~= suffix);
    assert(path.take(start) =~= prefix + NOTIFICATION_PATH_MARKER@);
}

/// A path without `/notifications/` is left as it is.
pub proof fn law_other_paths_are_kept(path: Seq<char>)
    requires
        forall|at: int| 0 <= at <= path.len() ==> !text::occurs_at(
            path,
            NOTIFICATION_PATH_MARKER@,
            at,
        ),
    ensures
        masked_path(path) == path,
{
    lemma_last_occurrence(path, NOTIFICATION_PATH_MARKER@, path.len() as int);
}

proof fn lemma_masked_chars(token: Seq<char>)
    requires
        forall|k: int| 0 <= k < token.len() ==> token[k] != '/',
    ensures
        forall|k: int| 0 <= k < masked(token).len() ==> masked(token)[k] != '/',
{
    text::lemma_trimmed_part(token);
}

/// Masking a path a second time changes nothing.
pub proof fn law_masked_path_twice(path: Seq<char>)
    ensures
        masked_path(masked_path(path)) == masked_path(path),
{
    let marker = NOTIFICATION_PATH_MARKER@;
    reveal_strlit("/notifications/");
    lemma_last_occurrence(path, marker, path.len() as int);
    if let Some(at) = last_occurrence(path, marker) {
        let start = at + marker.len();
        let rest = path.skip(start);
        let n = segment_len(rest) as int;
        lemma_segment_of(rest);
        let token = rest.take(n);
        let suffix = rest.skip(n);
        let mask = masked(token);
        let m = masked_path(path);
        lemma_masked_chars(token);
        law_mask_twice(token);
        assert(path.subrange(at, start) == marker);
        assert(m.subrange(at, start) =~= marker);
        assert forall|j: int| at < j <= m.len() implies !text::occurs_at(m, marker, j) by {
            if text::occurs_at(m, marker, j) {
                assert(m.subrange(j, j + marker.len())[0] == marker[0]);
                assert(m[j] == '/');
                if j < start {
                    assert(m[j] == path[j]);
                    assert(path.subrange(at, start)[j - at] == marker[j - at]);
                    assert(j == start - 1);
                    assert(m.subrange(j, j + marker.len())[1] == marker[1]);
                    assert(m.subrange(j, j + marker.len())[4] == marker[4]);
                    assert(m[start] == mask[0]);
                    assert(mask.len() > 3 ==> m[start + 3] == mask[3]);
                } else if j < start + mask.len() {
                    assert(m[j] == mask[j - start]);
                } else {
                    let k = j - mask.len() + n;
                    assert(m.subrange(j, j + marker.len()) =~= path.subrange(k, k + marker.len()));
                    assert(text::occurs_at(path, marker, k));
                }
            }
        }
        lemma_is_last_occurrence(m, marker, m.len() as int, at);
        assert(m =~= path.take(start) + mask + suffix);
        let m_rest = m.skip(start);
        assert(m_rest =~= mask + suffix);
        assert(suffix.len() > 0 ==> suffix[0] == '/');
        lemma_segment_len(m_rest, mask.len() as int);
        assert(m_rest.take(mask.len() as int) =~= mask);
        assert(m_rest.skip(mask.len() as int) =~= suffix);
        assert(m.take(start) =~= path.take(start));
    }
}

// ---------------------------------------------------------------------------
// Redacting a URL
// ---------------------------------------------------------------------------
/// Whether the values under a name of a query are secret.
pub open spec fn is_sensitive(key: Seq<char>) -> bool {
    let k = text::ascii_lower(key);
    ||| k == text::ascii_lower("key"@)
    ||| k == text::ascii_lower("apikey"@)
    ||| k == text::ascii_lower("token"@)
    ||| k == text::ascii_lower("access_token"@)
}

pub fn is_sensitive_query_key(key: &str) -> (r: bool)
    ensures
        r == is_sensitive(key@),
{
    text::eq_ignore_ascii_case(key, "key") || text::eq_ignore_ascii_case(key, "apikey")
        || text::eq_ignore_ascii_case(key, "token") || text::eq_ignore_ascii_case(
        key,
        "access_token",
    )
}

/// What is logged of the value under a name of a query.
pub open spec fn redacted_value(key: Seq<char>, value: Seq<char>) -> Seq<char> {
    if text::ascii_lower(key) == text::ascii_lower(DEVICE_KEY_QUERY@) {
        masked(value)
    } else if is_sensitive(key) {
        "***"@
    } else {
        value
    }
}

/// A query with its secret values masked; the names, their order and all other values stay.
pub open spec fn redacted_pairs(pairs: Seq<(Seq<char>, Seq<char>)>) -> Seq<
    (Seq<char>, Seq<char>),
> {
    pairs.map_values(
        |pair: (Seq<char>, Seq<char>)| (pair.0, redacted_value(pair.0, pair.1)),
    )
}

/// The pairs of a query with the secret values masked.
pub fn redact_query_pairs(pairs: &Vec<(String, String)>) -> (r: Vec<(String, String)>)
    ensures
        urls::pair_texts(r@) == redacted_pairs(urls::pair_texts(pairs@)),
{
    let mut r: Vec<(String, String)> = Vec::new();
    let mut i: usize = 0;
    while i < pairs.len()
        invariant
            i <= pairs@.len(),
            urls::pair_texts(r@) == redacted_pairs(urls::pair_texts(pairs@)).take(i as int),
        decreases pairs@.len() - i,
    {
        let key = pairs[i].0.as_str();
        let value = pairs[i].1.as_str();
        let shown = if text::eq_ignore_ascii_case(key, DEVICE_KEY_QUERY) {
            mask_middle(value)
        } else if is_sensitive_query_key(key) {
            "***".to_owned()
        } else {
            value.to_owned()
        };
        let ghost before = r@;
        r.push((key.to_owned(), shown));
        proof {
            let all = redacted_pairs(urls::pair_texts(pairs@));
            assert(urls::pair_texts(pairs@)[i as int] == (pairs@[i as int].0@, pairs@[i as int].1@));
            assert(urls::pair_texts(r@) =~= urls::pair_texts(before).push(all[i as int]));
            assert(all.take(i + 1) =~= all.take(i as int).push(all[i as int]));
        }
        i += 1;
    }
    assert(redacted_pairs(urls::pair_texts(pairs@)).take(i as int) =~= redacted_pairs(
        urls::pair_texts(pairs@),
    ));
    r
}

/// Redacting a query a second time changes nothing.
pub proof fn law_redacted_pairs_twice(pairs: Seq<(Seq<char>, Seq<char>)>)
    ensures
        redacted_pairs(redacted_pairs(pairs)) == redacted_pairs(pairs),
{
    assert forall|i: int| 0 <= i < pairs.len() implies redacted_pairs(redacted_pairs(pairs))[i]
        == redacted_pairs(pairs)[i] by {
        law_mask_twice(pairs[i].1);
    }
    assert(redacted_pairs(redacted_pairs(pairs)) =~= redacted_pairs(pairs));
}

/// Two queries that differ only in secret values, and in device keys with the same mask, are
/// logged alike.
pub proof fn law_redacted_pairs_hide_secrets(
    a: Seq<(Seq<char>, Seq<char>)>,
    b: Seq<(Seq<char>, Seq<char>)>,
)
    requires
        a.len() == b.len(),
        forall|i: int|
            0 <= i < a.len() ==> {
                &&& (#[trigger] a[i]).0 == b[i].0
                &&& a[i].1 == b[i].1 || (if text::ascii_lower(a[i].0) == text::ascii_lower(
                    DEVICE_KEY_QUERY@,
                ) {
                    masked(a[i].1) == masked(b[i].1)
                } else {
                    is_sensitive(a[i].0)
                })
            },
    ensures
        redacted_pairs(a) == redacted_pairs(b),
{
    assert forall|i: int| 0 <= i < a.len() implies redacted_pairs(a)[i] == redacted_pairs(b)[i] by {
        assert(a[i].0 == b[i].0);
    }
    assert(redacted_pairs(a) =~= redacted_pairs(b));
}

proof fn lemma_mask_is_no_dot_segment(value: Seq<char>)
    ensures
        !urls::is_dot_segment(masked(value)),
{
    let m = masked(value);
    let s = text::ascii_lower(m);
    reveal_strlit(".");
    reveal_strlit("..");
    reveal_strlit("%2e");
    reveal_strlit(".%2e");
    reveal_strlit("%2e.");
    reveal_strlit("%2e%2e");
    if text::trimmed(value).len() <= 6 {
        assert(s[0] == '*');
    } else {
        assert(m[3] == '*');
        assert(s[3] == '*');
        assert(s.len() == 9);
    }
}

/// The path of a web address is still one when the token in it is masked.
proof fn lemma_masked_path_is_plain(path: Seq<char>)
    requires
        urls::is_plain_path(path),
    ensures
        urls::is_plain_path(masked_path(path)),
{
    let marker = NOTIFICATION_PATH_MARKER@;
    reveal_strlit("/notifications/");
    lemma_last_occurrence(path, marker, path.len() as int);
    if let Some(at) = last_occurrence(path, marker) {
        let start = at + marker.len();
        let rest = path.skip(start);
        let n = segment_len(rest) as int;
        lemma_segment_of(rest);
        let token = rest.take(n);
        let mask = masked(token);
        let m = masked_path(path);
        let end = start + mask.len();
        assert(path.subrange(at, start)[marker.len() - 1] == '/');
        assert(path[start - 1] == '/');
        lemma_masked_chars(token);
        lemma_mask_is_no_dot_segment(token);
        lemma_chars_of_mask(token);
        assert(m =~= path.take(start) + mask + rest.skip(n));
        assert forall|k: int| 0 <= k < m.len() implies urls::is_path_char(#[trigger] m[k]) by {
            if k < start {
                assert(m[k] == path[k]);
            } else if k < end {
                let c = mask[k - start];
                if c != '*' {
                    let j = choose|j: int| 0 <= j < token.len() && token[j] == c;
                    assert(path[start + j] == c);
                }
            } else {
                assert(m[k] == path[k - mask.len() + n]);
            }
        }
        assert forall|i: int, j: int| #[trigger]
            urls::is_segment(m, i, j) implies !urls::is_dot_segment(m.subrange(i, j)) by {
            if i < start {
                assert(m[start - 1] == '/');
                assert(j < start);
                assert forall|k: int| 0 <= k < start implies m[k] == path[k] by {}
                assert forall|k: int| i <= k < j implies path[k] != '/' by {
                    assert(m[k] == path[k]);
                }
                assert(urls::is_segment(path, i, j));
                assert(m.subrange(i, j) =~= path.subrange(i, j));
            } else if i <= end {
                if i > start {
                    assert(m[i - 1] == mask[i - 1 - start]);
                }
                assert(i == start);
                if j < end {
                    assert(m[j] == mask[j - start]);
                } else if j > end {
                    assert(m[end] == rest.skip(n)[0]);
                }
                assert(m.subrange(i, j) =~= mask);
            } else {
                let d = n - mask.len();
                assert forall|k: int| end <= k < m.len() implies m[k] == path[k + d] by {}
                assert forall|k: int| i + d <= k < j + d implies path[k] != '/' by {
                    assert(m[k - d] == path[k]);
                }
                assert(m[i - 1] == path[i - 1 + d]);
                assert(j < m.len() ==> m[j] == path[j + d]);
                assert(urls::is_segment(path, i + d, j + d));
                assert(m.subrange(i, j) =~= path.subrange(i + d, j + d));
            }
        }
    }
}

proof fn lemma_chars_of_mask(value: Seq<char>)
    ensures
        forall|k: int|
            0 <= k < masked(value).len() ==> masked(value)[k] == '*' || value.contains(
                #[trigger] masked(value)[k],
            ),
{
    text::lemma_trimmed_part(value);
}

/// A URL with the secret values of its query and the token in its path masked; `None` where the
/// text is no URL. A web address is otherwise left as it is.
pub open spec fn redacted_url(url: Seq<char>) -> Option<Seq<char>> {
    match (urls::url_pairs(url), urls::url_path(url)) {
        (Some(pairs), Some(path)) => if urls::is_web_address(url) {
            Some(
                urls::assembled(
                    urls::url_start(url)->0,
                    masked_path(path),
                    if pairs.len() == 0 {
                        urls::url_query(url)->0
                    } else {
                        Some(urls::query_text(redacted_pairs(pairs)))
                    },
                    urls::url_fragment(url)->0,
                ),
            )
        } else if pairs.len() == 0 {
            urls::url_with_path(url, masked_path(path))
        } else {
            urls::url_with_pairs_and_path(url, redacted_pairs(pairs), masked_path(path))
        },
        _ => None,
    }
}

/// Whether the `url` crate can write what is logged of a text.
pub open spec fn can_be_redacted(url: Seq<char>) -> bool {
    match (urls::url_pairs(url), urls::url_path(url)) {
        (Some(pairs), Some(path)) => if pairs.len() == 0 {
            urls::has_room_for_path(url, masked_path(path))
        } else {
            urls::has_room_for_pairs_and_path(url, redacted_pairs(pairs), masked_path(path))
        },
        _ => true,
    }
}

/// Whether the `url` crate can write what is logged of a text.
pub fn is_redactable(url: &str) -> (r: bool)
    ensures
        r == can_be_redacted(url@),
{
    match (urls::query_pairs(url), urls::path(url)) {
        (Some(pairs), Some(path)) => {
            let path = mask_notification_path(path.as_str());
            if pairs.len() == 0 {
                urls::fits_with_path(url, path.as_str())
            } else {
                urls::fits_with_pairs_and_path(url, &redact_query_pairs(&pairs), path.as_str())
            }
        },
        _ => true,
    }
}

/// A URL as it may be logged. What is logged of a web address is one that has the names of its
/// query and its values as `redacted_pairs` has them, its path as `masked_path` has it, and
/// everything else unchanged. To redact it once more changes nothing.
pub fn redact_url(url: &str) -> (r: Option<String>)
    requires
        can_be_redacted(url@),
    ensures
        text::optional_text(r) == redacted_url(url@),
        r is Some <==> urls::is_url(url@),
        r matches Some(shown) ==> (urls::is_web_address(url@) ==> {
            &&& urls::has_only_new_path(shown@, url@, masked_path(urls::url_path(url@)->0))
            &&& urls::url_pairs(shown@) == Some(redacted_pairs(urls::url_pairs(url@)->0))
            &&& redacted_url(shown@) == Some(shown@)
        }),
{
    let pairs = match urls::query_pairs(url) {
        Some(pairs) => pairs,
        None => {
            return None;
        },
    };
    let path = match urls::path(url) {
        Some(path) => path,
        None => {
            return None;
        },
    };
    proof {
        if urls::is_web_address(url@) {
            lemma_masked_path_is_plain(path@);
        }
        law_masked_path_twice(path@);
        law_redacted_pairs_twice(urls::pair_texts(pairs@));
    }
    let path = mask_notification_path(path.as_str());
    if pairs.len() == 0 {
        assert(redacted_pairs(urls::pair_texts(pairs@)) =~= urls::pair_texts(pairs@));
        urls::with_path(url, path.as_str())
    } else {
        let pairs = redact_query_pairs(&pairs);
        urls::with_pairs_and_path(url, &pairs, path.as_str())
    }
}

/// Two web addresses that differ only in what is secret are logged as the same text: in values of
/// the query that are masked alike, or in tokens of the path that are.
pub proof fn law_redacted_urls_hide_secrets(a: Seq<char>, b: Seq<char>)
    requires
        urls::is_web_address(a),
        urls::is_web_address(b),
        urls::url_start(a) == urls::url_start(b),
        urls::url_fragment(a) == urls::url_fragment(b),
        urls::url_path(a) matches Some(path_a) && urls::url_path(b) matches Some(path_b)
            && masked_path(path_a) == masked_path(path_b),
        urls::url_pairs(a) matches Some(pairs_a) && urls::url_pairs(b) matches Some(pairs_b)
            && redacted_pairs(pairs_a) == redacted_pairs(pairs_b) && (pairs_a.len() == 0
            ==> urls::url_query(a) == urls::url_query(b)),
    ensures
        redacted_url(a) == redacted_url(b),
        redacted_url(a) is Some,
{
    assert(redacted_pairs(urls::url_pairs(a)->0).len() == redacted_pairs(
        urls::url_pairs(b)->0,
    ).len());
}

/// What is logged of a text that should be a URL.
pub open spec fn redacted_url_text(value: Seq<char>) -> Seq<char> {
    match redacted_url(value) {
        Some(url) => url,
        None => masked_path(value),
    }
}

/// A text that should be a URL, as it may be logged.
pub fn redact_url_str(value: &str) -> (r: String)
    requires
        can_be_redacted(value@),
    ensures
        r@ == redacted_url_text(value@),
{
    match redact_url(value) {
        Some(url) => url,
        None => mask_notification_path(value),
    }
}

/// What is logged of the URI of a request, which may lack an origin.
pub open spec fn redacted_uri(displayed: Seq<char>) -> Seq<char> {
    if urls::is_url(displayed) {
        redacted_url(displayed)->0
    } else if urls::is_url(LOG_ORIGIN@ + displayed) {
        let url = redacted_url(LOG_ORIGIN@ + displayed)->0;
        if text::is_prefix(url, LOG_ORIGIN@) {
            url.skip(LOG_ORIGIN@.len() as int)
        } else {
            displayed
        }
    } else {
        masked_path(displayed)
    }
}

/// Whether the `url` crate can write what is logged of the URI of a request.
pub open spec fn uri_can_be_redacted(displayed: Seq<char>) -> bool {
    if urls::is_url(displayed) {
        can_be_redacted(displayed)
    } else {
        can_be_redacted(LOG_ORIGIN@ + displayed)
    }
}

/// The URI of a request, as it may be logged.
pub fn redact_http_uri(displayed: &str) -> (r: String)
    requires
        uri_can_be_redacted(displayed@),
    ensures
        r@ == redacted_uri(displayed@),
{
    if urls::parse_url(displayed).is_some() {
        if let Some(url) = redact_url(displayed) {
            return url;
        }
    }
    let mut with_origin = LOG_ORIGIN.to_owned();
    with_origin.append(displayed);
    match redact_url(with_origin.as_str()) {
        Some(url) => {
            let chars = text::to_chars(url.as_str());
            let origin = text::to_chars(LOG_ORIGIN);
            if text::occurs_in(&chars, &origin, 0) {
                let r = text::from_chars(&chars, origin.len(), chars.len());
                assert(r@ =~= url@.skip(LOG_ORIGIN@.len() as int));
                r
            } else {
                displayed.to_owned()
            }
        },
        None => mask_notification_path(displayed),
    }
}

/// What is logged of any text that should be a URL: one that the `url` crate cannot write is
/// masked as a whole.
pub open spec fn logged_url_text(value: Seq<char>) -> Seq<char> {
    if can_be_redacted(value) {
        redacted_url_text(value)
    } else {
        masked(value)
    }
}

/// Any text that should be a URL, as it may be logged.
pub fn logged_url(value: &str) -> (r: String)
    ensures
        r@ == logged_url_text(value@),
{
    if is_redactable(value) {
        redact_url_str(value)
    } else {
        mask_middle(value)
    }
}

/// What is logged of the URI of any request: one that the `url` crate cannot write is masked as a
/// whole.
pub open spec fn logged_uri_text(displayed: Seq<char>) -> Seq<char> {
    if uri_can_be_redacted(displayed) {
        redacted_uri(displayed)
    } else {
        masked(displayed)
    }
}

/// The URI of any request, as it may be logged.
pub fn logged_uri(displayed: &str) -> (r: String)
    ensures
        r@ == logged_uri_text(displayed@),
{
    let redactable = if urls::parse_url(displayed).is_some() {
        is_redactable(displayed)
    } else {
        let mut with_origin = LOG_ORIGIN.to_owned();
        with_origin.append(displayed);
        is_redactable(with_origin.as_str())
    };
    if redactable {
        redact_http_uri(displayed)
    } else {
        mask_middle(displayed)
    }
}

// ---------------------------------------------------------------------------
// Bodies
// ---------------------------------------------------------------------------
/// The first characters of a body, with a mark where there are more.
pub open spec fn truncated(body: Seq<char>) -> Seq<char> {
    if body.len() > MAX_LOG_BODY_CHARS {
        body.take(MAX_LOG_BODY_CHARS as int) + "...truncated"@
    } else {
        body
    }
}

/// A body, cut to what may be logged of it.
pub fn truncate_log_body(body: &str) -> (r: String)
    ensures
        r@ == truncated(body@),
        r@.len() <= MAX_LOG_BODY_CHARS + 12,
{
    proof {
        reveal_strlit("...truncated");
    }
    let chars = text::to_chars(body);
    if chars.len() > MAX_LOG_BODY_CHARS {
        let mut r = text::from_chars(&chars, 0, MAX_LOG_BODY_CHARS);
        assert(r@ =~= body@.take(MAX_LOG_BODY_CHARS as int));
        r.append("...truncated");
        r
    } else {
        body.to_owned()
    }
}

/// A JSON value with its device key masked.
pub open spec fn with_masked_key(contents: JsonContents) -> JsonContents {
    match json::text_under(contents, "device_key"@) {
        Some(key) => json::with_text_under(contents, "device_key"@, masked(key)),
        None => contents,
    }
}

/// A JSON value with its URL redacted.
pub open spec fn with_logged_url(contents: JsonContents) -> JsonContents {
    match json::text_under(contents, "url"@) {
        Some(url) => json::with_text_under(contents, "url"@, logged_url_text(url)),
        None => contents,
    }
}

/// A JSON value with its device key masked and its URL redacted.
pub open spec fn masked_json(contents: JsonContents) -> JsonContents {
    with_logged_url(with_masked_key(contents))
}

/// A JSON value with its device key masked and its URL redacted.
pub fn mask_json(value: &Value) -> (r: Value)
    ensures
        json::json_contents(r) == masked_json(json::json_contents(*value)),
{
    let mut shown = json::copy(value);
    if let Some(key) = json::read_text(&shown, "device_key") {
        json::write_text(&mut shown, "device_key", mask_middle(key.as_str()).as_str());
    }
    if let Some(url) = json::read_text(&shown, "url") {
        json::write_text(&mut shown, "url", logged_url(url.as_str()).as_str());
    }
    shown
}

/// Masking a JSON object changes its device key and its URL, where they are texts, and nothing
/// else.
pub proof fn law_masked_json_keeps_the_rest(members: Map<Seq<char>, JsonMember>)
    ensures
        masked_json(JsonContents::Object(members)) matches JsonContents::Object(shown) && {
            &&& shown.dom() == members.dom()
            &&& forall|name: Seq<char>|
                members.contains_key(name) ==> #[trigger] shown[name] == (match members[name] {
                    JsonMember::Text(value) => if name == "device_key"@ {
                        JsonMember::Text(masked(value))
                    } else if name == "url"@ {
                        JsonMember::Text(logged_url_text(value))
                    } else {
                        JsonMember::Text(value)
                    },
                    JsonMember::Other(written) => JsonMember::Other(written),
                })
        },
{
    reveal_strlit("device_key");
    reveal_strlit("url");
    assert("device_key"@.len() != "url"@.len());
    let keyed = with_masked_key(JsonContents::Object(members))->Object_0;
    assert(keyed.dom() =~= members.dom());
    let shown = with_logged_url(JsonContents::Object(keyed))->Object_0;
    assert(shown.dom() =~= members.dom());
}

/// The body of a request, as it may be logged.
pub fn mask_json_for_log(value: &Value) -> (r: String)
    ensures
        r@ == truncated(json::json_text(masked_json(json::json_contents(*value)))),
{
    truncate_log_body(json::to_text(&mask_json(value)).as_str())
}

// ---------------------------------------------------------------------------
// Requests
// ---------------------------------------------------------------------------
/// What kind of failure kept a request from being answered.
pub fn transport_error_kind(timeout: bool, connect: bool, request: bool) -> (r: &'static str)
    ensures
        r@ == (if timeout {
            "timeout"@
        } else if connect {
            "connect"@
        } else if request {
            "request"@
        } else {
            "transport"@
        }),
{
    if timeout {
        "timeout"
    } else if connect {
        "connect"
    } else if request {
        "request"
    } else {
        "transport"
    }
}

#[derive(Debug, Clone, Copy, PartialEq, Eq)]
pub enum LogLevel {
    Debug,
    Info,
}

/// One line of the log of requests.
#[derive(Debug)]
pub struct OutboundHttpLog<'a> {
    pub target: &'static str,
    pub method: &'static str,
    pub url: &'a str,
    pub status: Option<u16>,
    pub elapsed_ms: u64,
    pub request_body: Option<&'a str>,
    pub response_body: Option<String>,
    pub error: Option<String>,
    pub level: LogLevel,
}

/// A request that was sent and is not answered yet.
#[derive(Debug)]
pub struct PendingOutboundRequest<'a> {
    pub target: &'static str,
    pub method: &'static str,
    pub log_url: &'a str,
    pub request_body: Option<&'a str>,
    pub level: LogLevel,
}

/// The text of bytes that should be UTF-8, with a mark in the place of what is not.
pub uninterp spec fn lossy_text(bytes: Seq<u8>) -> Seq<char>;

/// `String::from_utf8_lossy`: the text of the bytes, which is named. Valid UTF-8 is decoded as it
/// is.
#[verifier::external_body]
fn decode_lossy(bytes: &[u8]) -> (r: String)
    ensures
        r@ == lossy_text(bytes@),
        vstd::utf8::valid_utf8(bytes@) ==> r@ == vstd::utf8::decode_utf8(bytes@),
{
    String::from_utf8_lossy(bytes).into_owned()
}

impl<'a> PendingOutboundRequest<'a> {
    /// Whether a line speaks of this request.
    pub open spec fn logged_as(self, line: OutboundHttpLog<'a>, elapsed_ms: u64) -> bool {
        &&& line.target == self.target
        &&& line.method == self.method
        &&& line.url == self.log_url
        &&& line.elapsed_ms == elapsed_ms
        &&& line.request_body == self.request_body
        &&& line.level == self.level
    }

    /// The line for a request that was not answered.
    pub fn emit_transport_error(self, kind: &'static str, elapsed_ms: u64) -> (line:
        OutboundHttpLog<'a>)
        ensures
            self.logged_as(line, elapsed_ms),
            line.status is None,
            line.response_body is None,
            line.error matches Some(error) && error@ == kind@,
    {
        OutboundHttpLog {
            target: self.target,
            method: self.method,
            url: self.log_url,
            status: None,
            elapsed_ms,
            request_body: self.request_body,
            response_body: None,
            error: Some(kind.to_owned()),
            level: self.level,
        }
    }

    /// The line for a request whose answer was read.
    pub fn finish(self, status: u16, elapsed_ms: u64, body: &Vec<u8>) -> (line: OutboundHttpLog<
        'a,
    >)
        ensures
            self.logged_as(line, elapsed_ms),
            line.status == Some(status),
            line.response_body matches Some(shown) && shown@ == truncated(lossy_text(body@)),
            line.error is None,
    {
        let shown = decode_lossy(body.as_slice());
        OutboundHttpLog {
            target: self.target,
            method: self.method,
            url: self.log_url,
            status: Some(status),
            elapsed_ms,
            request_body: self.request_body,
            response_body: Some(truncate_log_body(shown.as_str())),
            error: None,
            level: self.level,
        }
    }

    /// The line for a request whose answer could not be read.
    pub fn finish_unread(self, status: u16, elapsed_ms: u64, message: &str) -> (line:
        OutboundHttpLog<'a>)
        ensures
            self.logged_as(line, elapsed_ms),
            line.status == Some(status),
            line.response_body is None,
            line.error matches Some(error) && error@ == message@,
    {
        OutboundHttpLog {
            target: self.target,
            method: self.method,
            url: self.log_url,
            status: Some(status),
            elapsed_ms,
            request_body: self.request_body,
            response_body: None,
            error: Some(message.to_owned()),
            level: self.level,
        }
    }
}

/// The error of a request that was not answered.
pub fn request_failed_message(target: &str, kind: &str) -> (r: String)
    ensures
        r@ == target@ + " request failed ("@ + kind@ + ")"@,
{
    let mut r = target.to_owned();
    r.append(" request failed (");
    r.append(kind);
    r.append(")");
    r
}

/// The error of an answer that is larger than allowed.
pub fn size_limit_message(context: &str) -> (r: String)
    ensures
        r@ == context@ + " exceeded size limit"@,
{
    let mut r = context.to_owned();
    r.append(" exceeded size limit");
    r
}

// ---------------------------------------------------------------------------
// What the log shows
// ---------------------------------------------------------------------------
/// A long text shows its first three and its last three characters around three stars, and a short
/// one nothing of itself.
pub proof fn law_what_a_mask_shows(value: &str, plain: &str, r: String)
    requires
        call_ensures(mask_middle, (value,), r),
        call_ensures(text::trim, (value,), plain),
    ensures
        plain@.len() <= 6 ==> r@ == seq!['*', '*', '*'],
        plain@.len() > 6 ==> r@.len() == 9 && r@[3] == '*' && r@[4] == '*' && r@[5] == '*',
        plain@.len() > 6 ==> forall|k: int|
            0 <= k < 3 ==> #[trigger] r@[k] == plain@[k] && r@[6 + k] == plain@[plain@.len() - 3
                + k],
{
    if plain@.len() > 6 {
        assert forall|k: int| 0 <= k < 3 implies #[trigger] r@[k] == plain@[k] && r@[6 + k]
            == plain@[plain@.len() - 3 + k] by {}
    }
}

/// The values under `key`, `apikey`, `token` and `access_token` are secret, in whatever case they
/// are written, and no others.
pub proof fn law_which_names_are_secret(
    key: &str,
    r: bool,
    as_key: bool,
    as_api_key: bool,
    as_token: bool,
    as_access_token: bool,
)
    requires
        call_ensures(is_sensitive_query_key, (key,), r),
        call_ensures(text::eq_ignore_ascii_case, (key, "key"), as_key),
        call_ensures(text::eq_ignore_ascii_case, (key, "apikey"), as_api_key),
        call_ensures(text::eq_ignore_ascii_case, (key, "token"), as_token),
        call_ensures(text::eq_ignore_ascii_case, (key, "access_token"), as_access_token),
    ensures
        r <==> as_key || as_api_key || as_token || as_access_token,
{
}

/// Every name of a query is logged as it is and in its place. A device key is masked, a secret is
/// not shown at all, and every other value is logged as it is.
pub proof fn law_what_is_shown_of_a_query(
    pairs: &Vec<(String, String)>,
    r: Vec<(String, String)>,
    k: int,
    name: &str,
    value: &str,
    is_device_key: bool,
    is_secret: bool,
    mask: String,
)
    requires
        call_ensures(redact_query_pairs, (pairs,), r),
        0 <= k < pairs@.len(),
        name@ == pairs@[k].0@,
        value@ == pairs@[k].1@,
        call_ensures(text::eq_ignore_ascii_case, (name, "device_key"), is_device_key),
        call_ensures(is_sensitive_query_key, (name,), is_secret),
        call_ensures(mask_middle, (value,), mask),
    ensures
        r@.len() == pairs@.len(),
        r@[k].0@ == pairs@[k].0@,
        is_device_key ==> r@[k].1@ == mask@,
        !is_device_key && is_secret ==> r@[k].1@ == seq!['*', '*', '*'],
        !is_device_key && !is_secret ==> r@[k].1@ == pairs@[k].1@,
{
    reveal_strlit("***");
    assert(urls::pair_texts(r@).len() == urls::pair_texts(pairs@).len());
    assert(urls::pair_texts(r@)[k] == redacted_pairs(urls::pair_texts(pairs@))[k]);
    assert("***"@ =~= seq!['*', '*', '*']);
}

/// A path without a notification is logged as it is. The token of a notification is masked, and what
/// stands before and behind it is logged as it is.
pub proof fn law_what_is_shown_of_a_path(
    path: &str,
    r: String,
    before: Seq<char>,
    token: &str,
    behind: Seq<char>,
    mask: String,
)
    requires
        call_ensures(mask_notification_path, (path,), r),
        call_ensures(mask_middle, (token,), mask),
        forall|k: int| 0 <= k < token@.len() ==> token@[k] != '/',
        behind.len() > 0 ==> behind[0] == '/',
    ensures
        (forall|at: int|
            0 <= at <= path@.len() ==> !text::occurs_at(path@, "/notifications/"@, at)) ==> r@
            == path@,
        path@ == before + "/notifications/"@ + token@ + behind && (forall|at: int|
            before.len() < at <= path@.len() ==> !text::occurs_at(
                path@,
                "/notifications/"@,
                at,
            )) ==> r@ == before + "/notifications/"@ + mask@ + behind,
{
    let marker = "/notifications/"@;
    if forall|at: int| 0 <= at <= path@.len() ==> !text::occurs_at(path@, marker, at) {
        law_other_paths_are_kept(path@);
    }
    if path@ == before + marker + token@ + behind && (forall|at: int|
        before.len() < at <= path@.len() ==> !text::occurs_at(path@, marker, at)) {
        let at = before.len() as int;
        assert(path@.subrange(at, at + marker.len()) =~= marker);
        assert(text::occurs_at(path@, marker, at));
        lemma_is_last_occurrence(path@, marker, path@.len() as int, at);
        law_masked_path_hides_the_token(before, token@, behind);
    }
}

/// A text that is no URL is logged with the token of its path masked. What is logged of a web address
/// keeps its start and its fragment, and has its path and its query as they are logged by
/// themselves.
pub proof fn law_what_is_shown_of_a_url(
    url: &str,
    r: Option<String>,
    in_words: String,
    path: &str,
    masked_path: String,
    pairs: &Vec<(String, String)>,
    shown_pairs: Vec<(String, String)>,
)
    requires
        call_ensures(redact_url, (url,), r),
        call_ensures(redact_url_str, (url,), in_words),
        call_ensures(mask_notification_path, (path,), masked_path),
        call_ensures(redact_query_pairs, (pairs,), shown_pairs),
    ensures
        r is Some <==> urls::is_url(url@),
        r matches Some(shown) ==> in_words@ == shown@,
        !urls::is_url(url@) && path@ == url@ ==> in_words@ == masked_path@,
        r matches Some(shown) ==> (urls::is_web_address(url@) && urls::url_path(url@) == Some(path@)
            ==> urls::url_path(shown@) == Some(masked_path@) && urls::url_start(shown@)
            == urls::url_start(url@) && urls::url_fragment(shown@) == urls::url_fragment(url@)),
        r matches Some(shown) ==> (urls::is_web_address(url@) && urls::url_pairs(url@) == Some(
            urls::pair_texts(pairs@),
        ) ==> urls::url_pairs(shown@) == Some(urls::pair_texts(shown_pairs@))),
{
}

/// A text that can be written as a URL is logged as one, and any other is masked as a whole.
pub proof fn law_what_is_shown_of_any_url(
    value: &str,
    fits: bool,
    as_url: String,
    mask: String,
    r: String,
)
    requires
        call_ensures(is_redactable, (value,), fits),
        fits ==> call_ensures(redact_url_str, (value,), as_url),
        call_ensures(mask_middle, (value,), mask),
        call_ensures(logged_url, (value,), r),
    ensures
        fits ==> r@ == as_url@,
        !fits ==> r@ == mask@,
{
}

/// The URI of a request that is a URL is logged as one. One that lacks an origin is read under
/// another one, which is not logged.
pub proof fn law_what_is_shown_of_a_uri(
    displayed: &str,
    as_url: Option<String>,
    with_origin: &str,
    as_url_with_origin: Option<String>,
    r: String,
)
    requires
        with_origin@ == "http://log.invalid"@ + displayed@,
        urls::is_url(displayed@) ==> call_ensures(redact_url, (displayed,), as_url),
        !urls::is_url(displayed@) ==> call_ensures(redact_url, (with_origin,), as_url_with_origin),
        call_ensures(redact_http_uri, (displayed,), r),
    ensures
        urls::is_url(displayed@) ==> (as_url matches Some(shown) && r@ == shown@),
        !urls::is_url(displayed@) && urls::is_url(with_origin@) ==> (
        as_url_with_origin matches Some(shown) && (r@ == displayed@ || shown@
            == "http://log.invalid"@ + r@)),
{
    let origin = "http://log.invalid"@;
    if !urls::is_url(displayed@) && urls::is_url(with_origin@) {
        let shown = as_url_with_origin->0@;
        if text::is_prefix(shown, origin) {
            assert(shown =~= origin + shown.skip(origin.len() as int)) by {
                assert(shown.subrange(0, origin.len() as int) == origin);
                assert(shown.take(origin.len() as int) =~= shown.subrange(0, origin.len() as int));
            }
        }
    }
}

/// A body of up to 2048 characters is logged as it is. Of a longer one the first 2048 are, with a mark
/// behind them.
pub proof fn law_what_is_shown_of_a_body(body: &str, r: String)
    requires
        call_ensures(truncate_log_body, (body,), r),
    ensures
        body@.len() <= 2048 ==> r@ == body@,
        body@.len() > 2048 ==> r@ == body@.take(2048) + "...truncated"@,
{
}

/// Of a JSON object the text under `device_key` is masked and the one under `url` logged as a URL,
/// and everything else stays.
pub proof fn law_what_is_shown_of_json(
    value: &Value,
    r: Value,
    members: Map<Seq<char>, JsonMember>,
    name: Seq<char>,
    member: &str,
    mask: String,
    url: String,
)
    requires
        call_ensures(mask_json, (value,), r),
        json::json_contents(*value) == JsonContents::Object(members),
        members.contains_key(name),
        members[name] matches JsonMember::Text(t) ==> member@ == t,
        call_ensures(mask_middle, (member,), mask),
        call_ensures(logged_url, (member,), url),
    ensures
        json::json_contents(r) matches JsonContents::Object(shown) && {
            &&& shown.dom() == members.dom()
            &&& members[name] is Text && name == "device_key"@ ==> shown[name] == JsonMember::Text(
                mask@,
            )
            &&& members[name] is Text && name == "url"@ ==> shown[name] == JsonMember::Text(url@)
            &&& !(members[name] is Text) || (name != "device_key"@ && name != "url"@)
                ==> shown[name] == members[name]
        },
{
    law_masked_json_keeps_the_rest(members);
    let shown = masked_json(JsonContents::Object(members))->Object_0;
    reveal_strlit("device_key");
    reveal_strlit("url");
    assert("device_key"@.len() != "url"@.len());
    assert(shown[name] == shown[name]);
}

/// A request that ran out of time failed for that, whatever else is known of it; else one that found
/// no connection failed for that, and else one that could not be sent.
pub proof fn law_kinds_of_failures(timeout: bool, connect: bool, request: bool, r: &'static str)
    requires
        call_ensures(transport_error_kind, (timeout, connect, request), r),
    ensures
        timeout <==> r@ == "timeout"@,
        !timeout && connect <==> r@ == "connect"@,
        !timeout && !connect && request <==> r@ == "request"@,
        !timeout && !connect && !request <==> r@ == "transport"@,
{
    reveal_strlit("timeout");
    reveal_strlit("connect");
    reveal_strlit("request");
    reveal_strlit("transport");
    assert("timeout"@[0] == 't' && "connect"@[0] == 'c' && "request"@[0] == 'r');
    assert("timeout"@.len() == 7 && "transport"@.len() == 9);
}

/// A line says of its request where it went, how, with what and how long it took; whether it was
/// answered, and with what status; and what came back of it, or why nothing did.
pub proof fn law_lines_say_what_happened(
    request: PendingOutboundRequest,
    kind: &'static str,
    status: u16,
    elapsed_ms: u64,
    body: &Vec<u8>,
    message: &str,
    unanswered: OutboundHttpLog,
    answered: OutboundHttpLog,
    unread: OutboundHttpLog,
)
    requires
        call_ensures(
            PendingOutboundRequest::emit_transport_error,
            (request, kind, elapsed_ms),
            unanswered,
        ),
        call_ensures(PendingOutboundRequest::finish, (request, status, elapsed_ms, body), answered),
        call_ensures(
            PendingOutboundRequest::finish_unread,
            (request, status, elapsed_ms, message),
            unread,
        ),
    ensures
        unanswered.target == request.target && answered.target == request.target && unread.target
            == request.target,
        unanswered.method == request.method && answered.method == request.method && unread.method
            == request.method,
        unanswered.url == request.log_url && answered.url == request.log_url && unread.url
            == request.log_url,
        unanswered.request_body == request.request_body && answered.request_body
            == request.request_body && unread.request_body == request.request_body,
        unanswered.level == request.level && answered.level == request.level && unread.level
            == request.level,
        unanswered.elapsed_ms == elapsed_ms && answered.elapsed_ms == elapsed_ms
            && unread.elapsed_ms == elapsed_ms,
        unanswered.status is None && answered.status == Some(status) && unread.status == Some(
            status,
        ),
        unanswered.error matches Some(error) && error@ == kind@,
        unread.error matches Some(error) && error@ == message@,
        answered.error is None,
        unanswered.response_body is None && unread.response_body is None,
        answered.response_body is Some,
        vstd::utf8::valid_utf8(body@) && vstd::utf8::decode_utf8(body@).len() <= 2048 ==> (
        answered.response_body matches Some(shown) && (lossy_text(body@)
            == vstd::utf8::decode_utf8(body@) ==> shown@ == vstd::utf8::decode_utf8(body@))),
        (answered.response_body->0)@.len() <= 2048 + 12,
{
    reveal_strlit("...truncated");
}

/// The messages name what failed, and how.
pub proof fn law_messages_name_what_failed(
    target: &str,
    kind: &str,
    failed: String,
    context: &str,
    too_large: String,
)
    requires
        call_ensures(request_failed_message, (target, kind), failed),
        call_ensures(size_limit_message, (context,), too_large),
    ensures
        failed@.take(target@.len() as int) == target@,
        failed@ == target@ + (" request failed ("@ + kind@ + ")"@),
        too_large@ == context@ + " exceeded size limit"@,
{
    assert(failed@ =~= target@ + (" request failed ("@ + kind@ + ")"@));
    assert(failed@.take(target@.len() as int) =~= target@);
}

/// The URI of a request that can be written is logged as it is redacted, and any other is masked as
/// a whole.
pub proof fn law_what_is_shown_of_any_uri(
    displayed: &str,
    with_origin: &str,
    fits: bool,
    fits_with_origin: bool,
    redacted: String,
    mask: String,
    r: String,
)
    requires
        with_origin@ == "http://log.invalid"@ + displayed@,
        call_ensures(is_redactable, (displayed,), fits),
        call_ensures(is_redactable, (with_origin,), fits_with_origin),
        call_ensures(redact_http_uri, (displayed,), redacted),
        call_ensures(mask_middle, (displayed,), mask),
        call_ensures(logged_uri, (displayed,), r),
    ensures
        urls::is_url(displayed@) && fits ==> r@ == redacted@,
        urls::is_url(displayed@) && !fits ==> r@ == mask@,
        !urls::is_url(displayed@) && fits_with_origin ==> r@ == redacted@,
        !urls::is_url(displayed@) && !fits_with_origin ==> r@ == mask@,
{
}

/// What is logged of a body in JSON is the masked value as it is written, cut as any body is.
pub proof fn law_what_is_shown_of_a_json_body(
    value: &Value,
    masked: Value,
    written: &str,
    cut: String,
    r: String,
)
    requires
        call_ensures(mask_json, (value,), masked),
        written@ == json::json_text(json::json_contents(masked)),
        call_ensures(truncate_log_body, (written,), cut),
        call_ensures(mask_json_for_log, (value,), r),
    ensures
        r@ == cut@,
{
}

} // verus!
