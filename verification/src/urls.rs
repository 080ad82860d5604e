//! What the `url` crate reads from a URL and writes into one, on texts.
use crate::text;
use vstd::prelude::*;

verus! {

/// The greatest position in a URL: the `url` crate keeps positions in 32 bits, and panics where it
/// would write behind the last of them.
pub const MAX_URL_SIZE: u64 = 4_294_967_295;

/// The names and values of a query, as texts.
pub open spec fn pair_texts(pairs: Seq<(String, String)>) -> Seq<(Seq<char>, Seq<char>)> {
    pairs.map_values(|pair: (String, String)| (pair.0@, pair.1@))
}

// ---------------------------------------------------------------------------
// What a URL consists of
// ---------------------------------------------------------------------------
/// The normalised text of the URL that a text is; `None` where it is no URL.
pub uninterp spec fn url_text(text: Seq<char>) -> Option<Seq<char>>;

/// What stands before the path of a URL: its scheme, host and what belongs to them.
pub uninterp spec fn url_start(text: Seq<char>) -> Option<Seq<char>>;

/// The path of a URL.
pub uninterp spec fn url_path(text: Seq<char>) -> Option<Seq<char>>;

/// The query of a URL as it is written, if it has one.
pub uninterp spec fn url_query(text: Seq<char>) -> Option<Option<Seq<char>>>;

/// The decoded names and values of the query of a URL.
pub uninterp spec fn url_pairs(text: Seq<char>) -> Option<Seq<(Seq<char>, Seq<char>)>>;

/// The fragment of a URL, if it has one.
pub uninterp spec fn url_fragment(text: Seq<char>) -> Option<Option<Seq<char>>>;

/// A URL with another path.
pub uninterp spec fn url_with_path(text: Seq<char>, path: Seq<char>) -> Option<Seq<char>>;

/// A URL with another query and another path.
pub uninterp spec fn url_with_pairs_and_path(
    text: Seq<char>,
    pairs: Seq<(Seq<char>, Seq<char>)>,
    path: Seq<char>,
) -> Option<Seq<char>>;

/// A URL with more names and values behind those of its query.
pub uninterp spec fn url_with_more_pairs(
    text: Seq<char>,
    pairs: Seq<(Seq<char>, Seq<char>)>,
) -> Option<Seq<char>>;

/// How names and values are written as a query.
pub uninterp spec fn query_text(pairs: Seq<(Seq<char>, Seq<char>)>) -> Seq<char>;

/// Whether a text is a URL.
pub open spec fn is_url(text: Seq<char>) -> bool {
    url_text(text) is Some
}

/// Whether a text is a web address.
pub open spec fn is_web_address(text: Seq<char>) -> bool {
    url_start(text) matches Some(start) && (text::is_prefix(start, "http://"@) || text::is_prefix(
        start,
        "https://"@,
    ))
}

/// A part of a URL with what it begins with, if it is there.
pub open spec fn led_by(lead: char, part: Option<Seq<char>>) -> Seq<char> {
    match part {
        Some(part) => seq![lead] + part,
        None => Seq::empty(),
    }
}

/// The text of the URL with these parts.
pub open spec fn assembled(
    start: Seq<char>,
    path: Seq<char>,
    query: Option<Seq<char>>,
    fragment: Option<Seq<char>>,
) -> Seq<char> {
    start + path + led_by('?', query) + led_by('#', fragment)
}

/// Whether a character stands in the path of a web address as itself.
pub open spec fn is_path_char(c: char) -> bool {
    '!' <= c <= '~' && c != '"' && c != '#' && c != '<' && c != '>' && c != '?' && c != '\\' && c
        != '`' && c != '{' && c != '}'
}

/// Whether a segment of a path stands for the same place or the one above.
pub open spec fn is_dot_segment(segment: Seq<char>) -> bool {
    let s = text::ascii_lower(segment);
    ||| s == "."@
    ||| s == ".."@
    ||| s == "%2e"@
    ||| s == ".%2e"@
    ||| s == "%2e."@
    ||| s == "%2e%2e"@
}

/// Whether a segment of a path reaches from `i` to `j`.
pub open spec fn is_segment(path: Seq<char>, i: int, j: int) -> bool {
    &&& 1 <= i <= j <= path.len()
    &&& path[i - 1] == '/'
    &&& j < path.len() ==> path[j] == '/'
    &&& forall|k: int| i <= k < j ==> path[k] != '/'
}

/// Whether a text is the path of a web address, in which nothing remains to be normalised.
pub open spec fn is_plain_path(path: Seq<char>) -> bool {
    &&& path.len() > 0
    &&& path[0] == '/'
    &&& forall|k: int| 0 <= k < path.len() ==> is_path_char(#[trigger] path[k])
    &&& forall|i: int, j: int| #[trigger]
        is_segment(path, i, j) ==> !is_dot_segment(path.subrange(i, j))
}

// ---------------------------------------------------------------------------
// How much room a URL takes
// ---------------------------------------------------------------------------
/// The bytes of a character that is percent-encoded.
pub open spec fn encoded_size(c: char) -> nat {
    let code = c as u32;
    if code < 0x80 {
        3
    } else if code < 0x800 {
        6
    } else if code < 0x1_0000 {
        9
    } else {
        12
    }
}

/// The bytes of a text in which some characters stand for themselves and the others are
/// percent-encoded.
pub open spec fn size_of(text: Seq<char>, kept: spec_fn(char) -> bool) -> nat
    decreases text.len(),
{
    if text.len() == 0 {
        0
    } else {
        size_of(text.drop_last(), kept) + (if kept(text.last()) {
            1
        } else {
            encoded_size(text.last())
        })
    }
}

/// Whether a character of a path takes one byte.
pub open spec fn kept_in_path() -> spec_fn(char) -> bool {
    |c: char| is_path_char(c)
}

/// Whether a character of a name or value takes one byte in a query.
pub open spec fn kept_in_query() -> spec_fn(char) -> bool {
    |c: char|
        'a' <= c <= 'z' || 'A' <= c <= 'Z' || '0' <= c <= '9' || c == '*' || c == '-' || c == '.'
            || c == '_' || c == ' '
}

/// The bytes of names and values in a query, with what stands between them.
pub open spec fn pairs_size(pairs: Seq<(Seq<char>, Seq<char>)>) -> nat
    decreases pairs.len(),
{
    if pairs.len() == 0 {
        0
    } else {
        pairs_size(pairs.drop_last()) + size_of(pairs.last().0, kept_in_query()) + size_of(
            pairs.last().1,
            kept_in_query(),
        ) + 2
    }
}

/// The bytes of a part of a URL with what it begins with.
pub open spec fn part_size(part: Option<Seq<char>>) -> nat {
    match part {
        Some(part) => part.len() + 1,
        None => 0,
    }
}

/// The bytes of a URL while its path is replaced, but for its query. A path that is no path of a
/// web address may get eight more.
pub open spec fn size_with_path(text: Seq<char>, path: Seq<char>) -> nat {
    let old_size = url_path(text)->0.len();
    let new_size = size_of(path, kept_in_path());
    url_start(text)->0.len() + (if old_size < new_size {
        new_size
    } else {
        old_size
    }) + part_size(url_fragment(text)->0) + 8
}

/// Whether a URL with another path has no position that is too great.
pub open spec fn has_room_for_path(text: Seq<char>, path: Seq<char>) -> bool {
    is_url(text) ==> size_with_path(text, path) + part_size(url_query(text)->0) <= MAX_URL_SIZE
}

/// Whether a URL with another query and path has no position that is too great.
pub open spec fn has_room_for_pairs_and_path(
    text: Seq<char>,
    pairs: Seq<(Seq<char>, Seq<char>)>,
    path: Seq<char>,
) -> bool {
    is_url(text) ==> size_with_path(text, path) + pairs_size(pairs) + 1 <= MAX_URL_SIZE
}

/// Whether a URL with more names and values has no position that is too great.
pub open spec fn has_room_for_more_pairs(
    text: Seq<char>,
    pairs: Seq<(Seq<char>, Seq<char>)>,
) -> bool {
    is_url(text) ==> url_text(text)->0.len() + pairs_size(pairs) + 1 <= MAX_URL_SIZE
}

proof fn lemma_size_of_part(text: Seq<char>, kept: spec_fn(char) -> bool, n: int)
    requires
        0 <= n <= text.len(),
    ensures
        size_of(text.take(n), kept) <= size_of(text, kept),
    decreases text.len(),
{
    if n < text.len() {
        lemma_size_of_part(text.drop_last(), kept, n);
        assert(text.drop_last().take(n) =~= text.take(n));
    } else {
        assert(text.take(n) =~= text);
    }
}

proof fn lemma_pairs_size_of_part(pairs: Seq<(Seq<char>, Seq<char>)>, n: int)
    requires
        0 <= n <= pairs.len(),
    ensures
        pairs_size(pairs.take(n)) <= pairs_size(pairs),
    decreases pairs.len(),
{
    if n < pairs.len() {
        lemma_pairs_size_of_part(pairs.drop_last(), n);
        assert(pairs.drop_last().take(n) =~= pairs.take(n));
    } else {
        assert(pairs.take(n) =~= pairs);
    }
}

/// What is left of some room when so much of it is taken.
fn room_behind(room: u64, size: usize) -> (r: Option<u64>)
    ensures
        match r {
            Some(left) => left + size == room,
            None => size > room,
        },
{
    if size as u64 <= room {
        Some(room - size as u64)
    } else {
        None
    }
}

/// What is left of some room behind a text in which some characters stand for themselves.
fn room_behind_text<F: Fn(char) -> bool>(
    room: u64,
    text: &str,
    keeps: F,
    Ghost(kept): Ghost<spec_fn(char) -> bool>,
) -> (r: Option<u64>)
    requires
        forall|c: char| #[trigger] keeps.requires((c,)),
        forall|c: char, b: bool| #[trigger] keeps.ensures((c,), b) ==> b == kept(c),
    ensures
        match r {
            Some(left) => left + size_of(text@, kept) == room,
            None => size_of(text@, kept) > room,
        },
{
    let chars = text::to_chars(text);
    let mut left: u64 = room;
    let mut i: usize = 0;
    while i < chars.len()
        invariant
            chars@ == text@,
            i <= chars@.len(),
            left + size_of(chars@.take(i as int), kept) == room,
            forall|c: char| #[trigger] keeps.requires((c,)),
            forall|c: char, b: bool| #[trigger] keeps.ensures((c,), b) ==> b == kept(c),
        decreases chars@.len() - i,
    {
        let c: char = chars[i];
        let code: u32 = c as u32;
        let size: u64 = if keeps(c) {
            1
        } else if code < 0x80 {
            3
        } else if code < 0x800 {
            6
        } else if code < 0x1_0000 {
            9
        } else {
            12
        };
        proof {
            let next = chars@.take(i + 1);
            assert(next.drop_last() =~= chars@.take(i as int));
            assert(next.last() == c);
            lemma_size_of_part(chars@, kept, i + 1);
        }
        if size > left {
            return None;
        }
        left -= size;
        i += 1;
    }
    assert(chars@.take(i as int) =~= text@);
    Some(left)
}

/// What is left of some room behind a path.
pub fn room_behind_path(room: u64, path: &str) -> (r: Option<u64>)
    ensures
        match r {
            Some(left) => left + size_of(path@, kept_in_path()) == room,
            None => size_of(path@, kept_in_path()) > room,
        },
{
    let keeps = |c: char| -> (b: bool)
        ensures
            b == is_path_char(c),
        {
            '!' <= c && c <= '~' && c != '"' && c != '#' && c != '<' && c != '>' && c != '?' && c
                != '\\' && c != '`' && c != '{' && c != '}'
        };
    room_behind_text(room, path, keeps, Ghost(kept_in_path()))
}

/// What is left of some room behind the names and values of a query.
pub fn room_behind_pairs(room: u64, pairs: &Vec<(String, String)>) -> (r: Option<u64>)
    ensures
        match r {
            Some(left) => left + pairs_size(pair_texts(pairs@)) == room,
            None => pairs_size(pair_texts(pairs@)) > room,
        },
{
    let ghost texts = pair_texts(pairs@);
    let keeps = |c: char| -> (b: bool)
        ensures
            b == kept_in_query()(c),
        {
            ('a' <= c && c <= 'z') || ('A' <= c && c <= 'Z') || ('0' <= c && c <= '9') || c == '*'
                || c == '-' || c == '.' || c == '_' || c == ' '
        };
    let mut left: u64 = room;
    let mut i: usize = 0;
    while i < pairs.len()
        invariant
            i <= pairs@.len(),
            texts == pair_texts(pairs@),
            left + pairs_size(texts.take(i as int)) == room,
            forall|c: char| #[trigger] keeps.requires((c,)),
            forall|c: char, b: bool| #[trigger]
                keeps.ensures((c,), b) ==> b == kept_in_query()(c),
        decreases pairs@.len() - i,
    {
        proof {
            let next = texts.take(i + 1);
            assert(next.drop_last() =~= texts.take(i as int));
            assert(next.last() == (pairs@[i as int].0@, pairs@[i as int].1@));
            lemma_pairs_size_of_part(texts, i + 1);
        }
        let name = pairs[i].0.as_str();
        let value = pairs[i].1.as_str();
        left = match room_behind_text(left, name, keeps, Ghost(kept_in_query())) {
            Some(left) => left,
            None => {
                return None;
            },
        };
        left = match room_behind_text(left, value, keeps, Ghost(kept_in_query())) {
            Some(left) => left,
            None => {
                return None;
            },
        };
        if left < 2 {
            return None;
        }
        left -= 2;
        i += 1;
    }
    assert(texts.take(i as int) =~= texts);
    Some(left)
}

/// What is left of some room behind a part of a URL.
fn room_behind_part(room: u64, part: &Option<String>) -> (r: Option<u64>)
    ensures
        match r {
            Some(left) => left + part_size(text::optional_text(*part)) == room,
            None => part_size(text::optional_text(*part)) > room,
        },
{
    match part {
        Some(part) => match room_behind(room, part.as_str().unicode_len()) {
            Some(left) => if left > 0 {
                Some(left - 1)
            } else {
                None
            },
            None => None,
        },
        None => Some(room),
    }
}

/// What is left of the room of a URL while its path is replaced, but for its query.
fn room_with_path(text: &str, path: &str) -> (r: Option<u64>)
    requires
        is_url(text@),
    ensures
        match r {
            Some(left) => left + size_with_path(text@, path@) == MAX_URL_SIZE,
            None => size_with_path(text@, path@) > MAX_URL_SIZE,
        },
{
    let (start, old_path, fragment) = match (
        self::start(text),
        self::path(text),
        self::fragment(text),
    ) {
        (Some(start), Some(old_path), Some(fragment)) => (start, old_path, fragment),
        _ => {
            return None;
        },
    };
    let room = match room_behind(MAX_URL_SIZE - 8, start.as_str().unicode_len()) {
        Some(room) => room,
        None => {
            return None;
        },
    };
    let behind_old = match room_behind(room, old_path.as_str().unicode_len()) {
        Some(room) => room,
        None => {
            return None;
        },
    };
    let behind_new = match room_behind_path(room, path) {
        Some(room) => room,
        None => {
            return None;
        },
    };
    room_behind_part(
        if behind_old < behind_new {
            behind_old
        } else {
            behind_new
        },
        &fragment,
    )
}

/// Whether a URL with another path has no position that is too great.
pub fn fits_with_path(text: &str, path: &str) -> (r: bool)
    ensures
        r == has_room_for_path(text@, path@),
{
    match query(text) {
        Some(query) => match room_with_path(text, path) {
            Some(room) => room_behind_part(room, &query).is_some(),
            None => false,
        },
        None => true,
    }
}

/// Whether a URL with another query and path has no position that is too great.
pub fn fits_with_pairs_and_path(text: &str, pairs: &Vec<(String, String)>, path: &str) -> (r: bool)
    ensures
        r == has_room_for_pairs_and_path(text@, pair_texts(pairs@), path@),
{
    match parse_url(text) {
        Some(_) => match room_with_path(text, path) {
            Some(room) => match room_behind_pairs(room, pairs) {
                Some(left) => left > 0,
                None => false,
            },
            None => false,
        },
        None => true,
    }
}

/// Whether a URL with more names and values has no position that is too great.
pub fn fits_with_more_pairs(text: &str, pairs: &Vec<(String, String)>) -> (r: bool)
    ensures
        r == has_room_for_more_pairs(text@, pair_texts(pairs@)),
{
    match parse_url(text) {
        Some(url) => match room_behind(MAX_URL_SIZE, url.as_str().unicode_len()) {
            Some(room) => match room_behind_pairs(room, pairs) {
                Some(left) => left > 0,
                None => false,
            },
            None => false,
        },
        None => true,
    }
}

// ---------------------------------------------------------------------------
// The crate's functions
// ---------------------------------------------------------------------------
/// `url::Url::parse` and `Url::to_string`: the normalised text of a URL, which is named.
#[verifier::external_body]
pub(crate) fn parse_url(text: &str) -> (r: Option<String>)
    ensures
        text::optional_text(r) == url_text(text@),
{
    url::Url::parse(text).ok().map(|url| url.to_string())
}

/// `url::Url`, indexed by `..Position::BeforePath`: what stands before the path, which is named.
/// There is something for every URL and for nothing else.
#[verifier::external_body]
pub(crate) fn start(text: &str) -> (r: Option<String>)
    ensures
        r is Some <==> is_url(text@),
        text::optional_text(r) == url_start(text@),
{
    let url = url::Url::parse(text).ok()?;
    Some(url[..url::Position::BeforePath].to_string())
}

/// `url::Url::path`: the path, which is named.
///
/// There is one for every URL and for nothing else. That of a web address is normalised.
#[verifier::external_body]
pub(crate) fn path(text: &str) -> (r: Option<String>)
    ensures
        r is Some <==> is_url(text@),
        text::optional_text(r) == url_path(text@),
        r matches Some(path) ==> (is_web_address(text@) ==> is_plain_path(path@)),
{
    let url = url::Url::parse(text).ok()?;
    Some(url.path().to_string())
}

/// `url::Url::query`: the query as it is written, which is named. A URL may be without one.
#[verifier::external_body]
pub(crate) fn query(text: &str) -> (r: Option<Option<String>>)
    ensures
        r is Some <==> is_url(text@),
        match r {
            Some(query) => url_query(text@) == Some(text::optional_text(query)),
            None => url_query(text@) is None,
        },
{
    let url = url::Url::parse(text).ok()?;
    Some(url.query().map(str::to_owned))
}

/// `url::Url::query_pairs`: the decoded names and values of the query, which are named.
///
/// There are some for every URL, though perhaps none of them, and for nothing else.
#[verifier::external_body]
pub(crate) fn query_pairs(text: &str) -> (r: Option<Vec<(String, String)>>)
    ensures
        r is Some <==> is_url(text@),
        match r {
            Some(pairs) => url_pairs(text@) == Some(pair_texts(pairs@)),
            None => url_pairs(text@) is None,
        },
{
    let url = url::Url::parse(text).ok()?;
    Some(url.query_pairs().into_owned().collect())
}

/// `url::Url::fragment`: the fragment, which is named. A URL may be without one.
#[verifier::external_body]
pub(crate) fn fragment(text: &str) -> (r: Option<Option<String>>)
    ensures
        r is Some <==> is_url(text@),
        match r {
            Some(fragment) => url_fragment(text@) == Some(text::optional_text(fragment)),
            None => url_fragment(text@) is None,
        },
{
    let url = url::Url::parse(text).ok()?;
    Some(url.fragment().map(str::to_owned))
}

/// Whether the URL that was written into another has this path, and before it and as a fragment
/// what the other has.
pub open spec fn has_only_new_path(written: Seq<char>, text: Seq<char>, path: Seq<char>) -> bool {
    &&& url_start(written) == url_start(text)
    &&& url_path(written) == Some(path)
    &&& url_fragment(written) == url_fragment(text)
}

/// `url::Url::set_path`: the URL with another path, which is named.
///
/// Every URL can be given a path. A web address that is given a normalised path is written with
/// it between the other parts that it had, and has these parts when it is read again. Of other
/// URLs and paths this is not said: a path may be read as a host, for one.
#[verifier::external_body]
pub(crate) fn with_path(text: &str, path: &str) -> (r: Option<String>)
    requires
        has_room_for_path(text@, path@),
    ensures
        r is Some <==> is_url(text@),
        text::optional_text(r) == url_with_path(text@, path@),
        r matches Some(written) ==> (is_web_address(text@) && is_plain_path(path@) ==> {
            &&& written@ == assembled(
                url_start(text@)->0,
                path@,
                url_query(text@)->0,
                url_fragment(text@)->0,
            )
            &&& has_only_new_path(written@, text@, path@)
            &&& url_query(written@) == url_query(text@)
            &&& url_pairs(written@) == url_pairs(text@)
        }),
{
    let mut url = url::Url::parse(text).ok()?;
    url.set_path(path);
    Some(url.to_string())
}

/// `url::Url::query_pairs_mut` with `clear` and `extend_pairs`, and `Url::set_path`: the URL with
/// another query and path, which is named, as is how names and values are written.
///
/// Every URL can be given them. A web address that is given a normalised path is written with
/// them between the other parts that it had, and has these parts, and the names and values, when
/// it is read again. Of other URLs and paths this is not said: a path may be read as a host, for
/// one.
#[verifier::external_body]
pub(crate) fn with_pairs_and_path(text: &str, pairs: &Vec<(String, String)>, path: &str) -> (r:
    Option<String>)
    requires
        has_room_for_pairs_and_path(text@, pair_texts(pairs@), path@),
    ensures
        r is Some <==> is_url(text@),
        text::optional_text(r) == url_with_pairs_and_path(text@, pair_texts(pairs@), path@),
        r matches Some(written) ==> (is_web_address(text@) && is_plain_path(path@) ==> {
            &&& written@ == assembled(
                url_start(text@)->0,
                path@,
                Some(query_text(pair_texts(pairs@))),
                url_fragment(text@)->0,
            )
            &&& has_only_new_path(written@, text@, path@)
            &&& url_pairs(written@) == Some(pair_texts(pairs@))
        }),
{
    let mut url = url::Url::parse(text).ok()?;
    url.query_pairs_mut().clear();
    url.query_pairs_mut().extend_pairs(pairs);
    url.set_path(path);
    Some(url.to_string())
}

/// `url::Url::query_pairs_mut` with `extend_pairs`: the URL with more names and values, which is
/// named.
///
/// Every URL can be given them. A web address then has them behind those that it had, and
/// otherwise what it had. Of other URLs it is not said what is read again.
#[verifier::external_body]
pub(crate) fn with_more_pairs(text: &str, pairs: &Vec<(String, String)>) -> (r: Option<String>)
    requires
        has_room_for_more_pairs(text@, pair_texts(pairs@)),
    ensures
        r is Some <==> is_url(text@),
        text::optional_text(r) == url_with_more_pairs(text@, pair_texts(pairs@)),
        r matches Some(written) ==> (is_web_address(text@) ==> {
            &&& has_only_new_path(written@, text@, url_path(text@)->0)
            &&& url_pairs(written@) == Some(url_pairs(text@)->0 + pair_texts(pairs@))
        }),
{
    let mut url = url::Url::parse(text).ok()?;
    url.query_pairs_mut().extend_pairs(pairs);
    Some(url.to_string())
}

// ---------------------------------------------------------------------------
// How room is taken
// ---------------------------------------------------------------------------
/// A path takes the room that its parts take one behind the other. One character takes one byte
/// where it stands for itself, and else three for each of its bytes in UTF-8.
pub proof fn law_room_is_taken_by_the_parts_of_a_path(
    room: u64,
    first: &str,
    second: &str,
    both: &str,
    behind_first: Option<u64>,
    behind_second: Option<u64>,
    behind_both: Option<u64>,
)
    requires
        both@ == first@ + second@,
        call_ensures(room_behind_path, (room, first), behind_first),
        behind_first is Some,
        call_ensures(room_behind_path, (behind_first->0, second), behind_second),
        call_ensures(room_behind_path, (room, both), behind_both),
    ensures
        behind_both == behind_second,
        first@.len() == 0 ==> behind_first == Some(room),
        first@.len() == 1 ==> {
            let c = first@[0] as int;
            let kept = 33 <= c <= 126 && c != '"' as int && c != '#' as int && c != '<' as int && c
                != '>' as int && c != '?' as int && c != '\\' as int && c != '`' as int && c
                != '{' as int && c != '}' as int;
            room - behind_first->0 == (if kept {
                1int
            } else if c < 0x80 {
                3
            } else if c < 0x800 {
                6
            } else if c < 0x1_0000 {
                9
            } else {
                12
            })
        },
{
    lemma_size_of_both(first@, second@, kept_in_path());
    if first@.len() == 1 {
        reveal_with_fuel(size_of, 2);
        assert(first@.drop_last() =~= Seq::empty());
        assert(first@.last() == first@[0]);
        assert(kept_in_path()(first@[0]) == is_path_char(first@[0]));
        lemma_code(first@[0]);
    }
}

/// The number of a character is the same however it is kept.
proof fn lemma_code(c: char)
    ensures
        c as u32 == c as int,
{
}

proof fn lemma_size_of_both(a: Seq<char>, b: Seq<char>, kept: spec_fn(char) -> bool)
    ensures
        size_of(a + b, kept) == size_of(a, kept) + size_of(b, kept),
    decreases b.len(),
{
    if b.len() == 0 {
        assert(a + b =~= a);
    } else {
        assert((a + b).drop_last() =~= a + b.drop_last());
        lemma_size_of_both(a, b.drop_last(), kept);
    }
}

/// One more name and value take two bytes more than their texts, and a query without any takes
/// nothing.
pub proof fn law_room_is_taken_by_names_and_values(
    room: u64,
    pairs: &Vec<(String, String)>,
    behind: Option<u64>,
    more: &Vec<(String, String)>,
    behind_more: Option<u64>,
)
    requires
        call_ensures(room_behind_pairs, (room, pairs), behind),
        call_ensures(room_behind_pairs, (room, more), behind_more),
        more@.len() == pairs@.len() + 1,
        forall|k: int| 0 <= k < pairs@.len() ==> #[trigger] more@[k] == pairs@[k],
        forall|k: int|
            0 <= k < more@.last().0@.len() ==> 'a' <= #[trigger] more@.last().0@[k] <= 'z',
        forall|k: int|
            0 <= k < more@.last().1@.len() ==> '0' <= #[trigger] more@.last().1@[k] <= '9',
    ensures
        pairs@.len() == 0 ==> behind == Some(room),
        behind is None ==> behind_more is None,
        behind matches Some(left) ==> (behind_more is Some <==> left >= more@.last().0@.len()
            + more@.last().1@.len() + 2),
        behind_more matches Some(left) ==> (behind matches Some(before) && before - left
            == more@.last().0@.len() + more@.last().1@.len() + 2),
{
    let texts = pair_texts(more@);
    assert(texts.drop_last() =~= pair_texts(pairs@));
    assert(texts.last() == (more@.last().0@, more@.last().1@));
    lemma_size_of_kept(more@.last().0@, kept_in_query());
    lemma_size_of_kept(more@.last().1@, kept_in_query());
}

proof fn lemma_size_of_kept(text: Seq<char>, kept: spec_fn(char) -> bool)
    requires
        forall|k: int| 0 <= k < text.len() ==> kept(#[trigger] text[k]),
    ensures
        size_of(text, kept) == text.len(),
    decreases text.len(),
{
    if text.len() > 0 {
        let rest = text.drop_last();
        assert forall|k: int| 0 <= k < rest.len() implies kept(#[trigger] rest[k]) by {
            assert(rest[k] == text[k]);
        }
        assert(text.last() == text[text.len() - 1]);
        lemma_size_of_kept(rest, kept);
    }
}

/// A text that is no URL fits however it is changed. A URL fits only where all its parts end before
/// the greatest position.
pub proof fn law_what_fits(
    text: &str,
    path: &str,
    pairs: &Vec<(String, String)>,
    with_path: bool,
    with_pairs: bool,
    with_more: bool,
)
    requires
        call_ensures(fits_with_path, (text, path), with_path),
        call_ensures(fits_with_pairs_and_path, (text, pairs, path), with_pairs),
        call_ensures(fits_with_more_pairs, (text, pairs), with_more),
    ensures
        !is_url(text@) ==> with_path && with_pairs && with_more,
        is_url(text@) && with_path ==> url_start(text@)->0.len() + url_path(text@)->0.len()
            < 4_294_967_295 && (url_query(text@)->0 matches Some(query) ==> query.len()
            < 4_294_967_295),
        is_url(text@) && with_more ==> url_text(text@)->0.len() < 4_294_967_295,
        is_url(text@) && with_pairs && pairs@.len() == 0 && url_query(text@)->0 is None
            ==> with_path,
{
}

} // verus!
