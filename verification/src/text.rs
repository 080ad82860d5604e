//! Text operations on characters, each with a mathematical description.

use vstd::prelude::*;

verus! {

/// `String::push` appends the given character to the end of the string.
pub assume_specification[ String::push ](s: &mut String, c: char)
    ensures
        final(s)@ == old(s)@.push(c),
;

/// The characters with the Unicode property `White_Space`.
pub open spec fn is_space(c: char) -> bool {
    let u = c as u32;
    ||| 0x9 <= u <= 0xd
    ||| u == 0x20
    ||| u == 0x85
    ||| u == 0xa0
    ||| u == 0x1680
    ||| 0x2000 <= u <= 0x200a
    ||| u == 0x2028
    ||| u == 0x2029
    ||| u == 0x202f
    ||| u == 0x205f
    ||| u == 0x3000
}

/// The text without the white space at its start.
pub open spec fn trimmed_start(s: Seq<char>) -> Seq<char>
    decreases s.len(),
{
    if s.len() > 0 && is_space(s[0]) {
        trimmed_start(s.drop_first())
    } else {
        s
    }
}

/// The text without the white space at its end.
pub open spec fn trimmed_end(s: Seq<char>) -> Seq<char>
    decreases s.len(),
{
    if s.len() > 0 && is_space(s.last()) {
        trimmed_end(s.drop_last())
    } else {
        s
    }
}

/// The text without the white space at either end.
pub open spec fn trimmed(s: Seq<char>) -> Seq<char> {
    trimmed_end(trimmed_start(s))
}

/// An ASCII capital as its small letter, any other character as it is.
pub open spec fn ascii_lower_char(c: char) -> char {
    if 'A' <= c <= 'Z' {
        ((c as u8) + 32) as char
    } else {
        c
    }
}

/// An ASCII small letter as its capital, any other character as it is.
pub open spec fn ascii_upper_char(c: char) -> char {
    if 'a' <= c <= 'z' {
        ((c as u8) - 32) as char
    } else {
        c
    }
}

pub open spec fn ascii_lower(s: Seq<char>) -> Seq<char> {
    s.map_values(|c: char| ascii_lower_char(c))
}

pub open spec fn ascii_upper(s: Seq<char>) -> Seq<char> {
    s.map_values(|c: char| ascii_upper_char(c))
}

/// What stands before and after the first `separator`, if there is one.
pub open spec fn split_at_first(s: Seq<char>, separator: char) -> Option<(Seq<char>, Seq<char>)>
    decreases s.len(),
{
    if s.len() == 0 {
        None
    } else if s[0] == separator {
        Some((Seq::empty(), s.drop_first()))
    } else {
        match split_at_first(s.drop_first(), separator) {
            Some((before, after)) => Some((seq![s[0]] + before, after)),
            None => None,
        }
    }
}

/// `part` stands in `s` from position `at` on.
pub open spec fn occurs_at(s: Seq<char>, part: Seq<char>, at: int) -> bool {
    &&& 0 <= at
    &&& at + part.len() <= s.len()
    &&& s.subrange(at, at + part.len()) == part
}

pub open spec fn is_suffix(s: Seq<char>, part: Seq<char>) -> bool {
    occurs_at(s, part, s.len() - part.len())
}

pub open spec fn is_prefix(s: Seq<char>, part: Seq<char>) -> bool {
    occurs_at(s, part, 0)
}

pub open spec fn is_alphanumeric(c: char) -> bool {
    ||| '0' <= c <= '9'
    ||| 'A' <= c <= 'Z'
    ||| 'a' <= c <= 'z'
}

pub open spec fn all_alphanumeric(s: Seq<char>) -> bool {
    forall|i: int| 0 <= i < s.len() ==> is_alphanumeric(#[trigger] s[i])
}

/// The views of a list of strings.
pub open spec fn texts(v: Seq<String>) -> Seq<Seq<char>> {
    v.map_values(|s: String| s@)
}

/// An optional slice as an optional text.
pub open spec fn optional_str(s: Option<&str>) -> Option<Seq<char>> {
    match s {
        Some(s) => Some(s@),
        None => None,
    }
}

/// An optional string as an optional text.
pub open spec fn optional_text(s: Option<String>) -> Option<Seq<char>> {
    match s {
        Some(s) => Some(s@),
        None => None,
    }
}

/// The characters of a text.
pub fn to_chars(s: &str) -> (chars: Vec<char>)
    ensures
        chars@ == s@,
{
    let mut chars: Vec<char> = Vec::new();
    for c in it: s.chars()
        invariant
            chars@ == it.seq().take(it.index()),
            it.seq() == s@,
    {
        chars.push(c);
    }
    chars
}

/// The text made of the given characters.
pub fn from_chars(chars: &Vec<char>, from: usize, to: usize) -> (s: String)
    requires
        from <= to <= chars@.len(),
    ensures
        s@ == chars@.subrange(from as int, to as int),
{
    let mut s = String::new();
    let mut i: usize = from;
    while i < to
        invariant
            from <= i <= to <= chars@.len(),
            s@ == chars@.subrange(from as int, i as int),
        decreases to - i,
    {
        s.push(chars[i]);
        i += 1;
    }
    s
}

/// Whether two texts are the same.
pub fn same(a: &str, b: &str) -> (r: bool)
    ensures
        r == (a@ == b@),
{
    let x = a.to_owned();
    let y = b.to_owned();
    x == y
}

pub fn is_space_char(c: char) -> (r: bool)
    ensures
        r == is_space(c),
{
    let u = c as u32;
    (0x9 <= u && u <= 0xd) || u == 0x20 || u == 0x85 || u == 0xa0 || u == 0x1680 || (0x2000 <= u
        && u <= 0x200a) || u == 0x2028 || u == 0x2029 || u == 0x202f || u == 0x205f || u == 0x3000
}

/// The text without the white space at either end.
pub fn trim<'a>(s: &'a str) -> (r: &'a str)
    ensures
        r@ == trimmed(s@),
{
    let chars = to_chars(s);
    let n = chars.len();
    let mut from: usize = 0;
    assert(s@.subrange(0, n as int) == s@);
    while from < n && is_space_char(chars[from])
        invariant
            n == chars@.len(),
            chars@ == s@,
            from <= n,
            trimmed_start(s@) == trimmed_start(s@.subrange(from as int, n as int)),
        decreases n - from,
    {
        assert(s@.subrange(from as int, n as int).drop_first() == s@.subrange(
            from + 1,
            n as int,
        ));
        from += 1;
    }
    let mut to: usize = n;
    assert(trimmed_start(s@) == s@.subrange(from as int, n as int));
    while from < to && is_space_char(chars[to - 1])
        invariant
            n == chars@.len(),
            chars@ == s@,
            from <= to <= n,
            trimmed(s@) == trimmed_end(s@.subrange(from as int, to as int)),
        decreases to - from,
    {
        assert(s@.subrange(from as int, to as int).drop_last() == s@.subrange(
            from as int,
            to - 1,
        ));
        to -= 1;
    }
    s.substring_char(from, to)
}

pub fn to_ascii_lower_char(c: char) -> (r: char)
    ensures
        r == ascii_lower_char(c),
{
    if 'A' <= c && c <= 'Z' {
        ((c as u8) + 32) as char
    } else {
        c
    }
}

pub fn to_ascii_lowercase(s: &str) -> (r: String)
    ensures
        r@ == ascii_lower(s@),
{
    let mut r = String::new();
    for c in it: s.chars()
        invariant
            it.seq() == s@,
            r@ == ascii_lower(s@.take(it.index())),
    {
        r.push(to_ascii_lower_char(c));
        assert(ascii_lower(s@.take(it.index() + 1)) == ascii_lower(s@.take(it.index())).push(
            ascii_lower_char(c),
        ));
    }
    assert(s@.take(s@.len() as int) == s@);
    r
}

pub fn to_ascii_upper_char(c: char) -> (r: char)
    ensures
        r == ascii_upper_char(c),
{
    if 'a' <= c && c <= 'z' {
        ((c as u8) - 32) as char
    } else {
        c
    }
}

pub fn to_ascii_uppercase(s: &str) -> (r: String)
    ensures
        r@ == ascii_upper(s@),
{
    let mut r = String::new();
    for c in it: s.chars()
        invariant
            it.seq() == s@,
            r@ == ascii_upper(s@.take(it.index())),
    {
        r.push(to_ascii_upper_char(c));
        assert(ascii_upper(s@.take(it.index() + 1)) == ascii_upper(s@.take(it.index())).push(
            ascii_upper_char(c),
        ));
    }
    assert(s@.take(s@.len() as int) == s@);
    r
}

/// Whether two texts are the same but for the case of ASCII letters.
pub fn eq_ignore_ascii_case(a: &str, b: &str) -> (r: bool)
    ensures
        r == (ascii_lower(a@) == ascii_lower(b@)),
{
    let x = to_ascii_lowercase(a);
    let y = to_ascii_lowercase(b);
    x == y
}

/// What stands before and after the first `separator`.
pub fn split_once<'a>(s: &'a str, separator: char) -> (r: Option<(&'a str, &'a str)>)
    ensures
        match r {
            Some((before, after)) => split_at_first(s@, separator) == Some((before@, after@)),
            None => split_at_first(s@, separator) is None,
        },
{
    let chars = to_chars(s);
    let n = chars.len();
    let mut i: usize = 0;
    while i < n && chars[i] != separator
        invariant
            n == chars@.len(),
            chars@ == s@,
            i <= n,
            forall|k: int| 0 <= k < i ==> s@[k] != separator,
        decreases n - i,
    {
        i += 1;
    }
    if i < n {
        proof {
            lemma_split_at_first(s@, separator, i as int);
        }
        Some((s.substring_char(0, i), s.substring_char(i + 1, n)))
    } else {
        proof {
            lemma_no_split(s@, separator);
        }
        None
    }
}

/// A text splits at a separator before which there is no other.
pub proof fn lemma_split_at_first(s: Seq<char>, separator: char, at: int)
    requires
        0 <= at < s.len(),
        s[at] == separator,
        forall|k: int| 0 <= k < at ==> s[k] != separator,
    ensures
        split_at_first(s, separator) == Some(
            (s.subrange(0, at), s.subrange(at + 1, s.len() as int)),
        ),
    decreases s.len(),
{
    if at == 0 {
        assert(s.subrange(0, 0) =~= Seq::empty());
        assert(s.subrange(1, s.len() as int) =~= s.drop_first());
    } else {
        let rest = s.drop_first();
        assert forall|k: int| 0 <= k < at - 1 implies rest[k] != separator by {
            assert(rest[k] == s[k + 1]);
        }
        lemma_split_at_first(rest, separator, at - 1);
        assert(seq![s[0]] + rest.subrange(0, at - 1) =~= s.subrange(0, at));
        assert(rest.subrange(at, rest.len() as int) =~= s.subrange(at + 1, s.len() as int));
    }
}

/// A text without the separator does not split.
pub proof fn lemma_no_split(s: Seq<char>, separator: char)
    requires
        forall|k: int| 0 <= k < s.len() ==> s[k] != separator,
    ensures
        split_at_first(s, separator) is None,
    decreases s.len(),
{
    if s.len() > 0 {
        assert forall|k: int| 0 <= k < s.len() - 1 implies s.drop_first()[k] != separator by {
            assert(s.drop_first()[k] == s[k + 1]);
        }
        lemma_no_split(s.drop_first(), separator);
    }
}

/// Whether `part` stands in the characters from position `at` on.
pub fn occurs_in(chars: &Vec<char>, part: &Vec<char>, at: usize) -> (r: bool)
    ensures
        r == occurs_at(chars@, part@, at as int),
{
    if part.len() > chars.len() || at > chars.len() - part.len() {
        return false;
    }
    let n = chars.len();
    let mut i: usize = 0;
    while i < part.len()
        invariant
            n == chars@.len(),
            at + part@.len() <= n,
            i <= part@.len(),
            forall|k: int| 0 <= k < i ==> chars@[at + k] == part@[k],
        decreases part@.len() - i,
    {
        if chars[at + i] != part[i] {
            assert(chars@.subrange(at as int, at + part@.len())[i as int] != part@[i as int]);
            return false;
        }
        i += 1;
    }
    assert(chars@.subrange(at as int, at + part@.len()) =~= part@);
    true
}

pub fn ends_with(s: &str, part: &str) -> (r: bool)
    ensures
        r == is_suffix(s@, part@),
{
    let chars = to_chars(s);
    let wanted = to_chars(part);
    if wanted.len() > chars.len() {
        return false;
    }
    occurs_in(&chars, &wanted, chars.len() - wanted.len())
}

/// Whether a text ends in the given character.
pub fn ends_with_char(s: &str, c: char) -> (r: bool)
    ensures
        r == (s@.len() > 0 && s@.last() == c),
{
    let chars = to_chars(s);
    chars.len() > 0 && chars[chars.len() - 1] == c
}

/// Whether a text consists of ASCII letters and digits.
pub fn is_all_alphanumeric(s: &str) -> (r: bool)
    ensures
        r == all_alphanumeric(s@),
{
    let chars = to_chars(s);
    let mut i: usize = 0;
    while i < chars.len()
        invariant
            chars@ == s@,
            i <= chars@.len(),
            forall|k: int| 0 <= k < i ==> is_alphanumeric(#[trigger] s@[k]),
        decreases chars@.len() - i,
    {
        let c = chars[i];
        if !(('0' <= c && c <= '9') || ('A' <= c && c <= 'Z') || ('a' <= c && c <= 'z')) {
            assert(!is_alphanumeric(s@[i as int]));
            return false;
        }
        i += 1;
    }
    true
}

/// Whether a list holds a text.
pub fn contains_text(list: &Vec<String>, wanted: &str) -> (r: bool)
    ensures
        r == texts(list@).contains(wanted@),
{
    let mut i: usize = 0;
    while i < list.len()
        invariant
            i <= list@.len(),
            forall|k: int| 0 <= k < i ==> texts(list@)[k] != wanted@,
        decreases list@.len() - i,
    {
        if same(list[i].as_str(), wanted) {
            assert(texts(list@)[i as int] == wanted@);
            return true;
        }
        i += 1;
    }
    assert(!texts(list@).contains(wanted@));
    false
}

/// A copy of a list of strings.
pub fn clone_texts(list: &Vec<String>) -> (r: Vec<String>)
    ensures
        r@ == list@,
{
    let r = list.clone();
    assert(r@ =~= list@);
    r
}

// ---------------------------------------------------------------------------
// Order
// ---------------------------------------------------------------------------
/// Whether a text sorts before another: at the first place where they differ it has the lesser
/// character, or nothing any more. Strings are ordered so.
pub open spec fn sorts_before(a: Seq<char>, b: Seq<char>) -> bool
    decreases a.len(),
{
    if b.len() == 0 {
        false
    } else if a.len() == 0 {
        true
    } else if a[0] != b[0] {
        a[0] < b[0]
    } else {
        sorts_before(a.drop_first(), b.drop_first())
    }
}

/// Where the beginnings of two texts are equally long, they decide unless they are equal.
pub proof fn lemma_sorts_by_parts(a: Seq<char>, x: Seq<char>, b: Seq<char>, y: Seq<char>)
    requires
        a.len() == b.len(),
    ensures
        sorts_before(a + x, b + y) <==> sorts_before(a, b) || (a == b && sorts_before(x, y)),
    decreases a.len(),
{
    if a.len() == 0 {
        assert(a + x =~= x);
        assert(b + y =~= y);
        assert(a =~= b);
    } else {
        assert((a + x).drop_first() =~= a.drop_first() + x);
        assert((b + y).drop_first() =~= b.drop_first() + y);
        assert((a + x)[0] == a[0] && (b + y)[0] == b[0]);
        lemma_sorts_by_parts(a.drop_first(), x, b.drop_first(), y);
        if a[0] == b[0] && a.drop_first() == b.drop_first() {
            assert(a =~= seq![a[0]] + a.drop_first());
            assert(b =~= seq![b[0]] + b.drop_first());
        }
    }
}

/// No text sorts before itself.
pub proof fn lemma_sorts_not_before_itself(a: Seq<char>)
    ensures
        !sorts_before(a, a),
    decreases a.len(),
{
    if a.len() > 0 {
        lemma_sorts_not_before_itself(a.drop_first());
    }
}

// ---------------------------------------------------------------------------
// Trimming
// ---------------------------------------------------------------------------
/// A trimmed text has no white space at its ends, and stands in the text that it came from.
pub proof fn lemma_trimmed_ends(s: Seq<char>)
    ensures
        trimmed(s).len() <= s.len(),
        trimmed(s).len() > 0 ==> !is_space(trimmed(s)[0]) && !is_space(trimmed(s).last()),
{
    lemma_trimmed_start(s);
    lemma_trimmed_end(trimmed_start(s));
}

/// Every character of a trimmed text stands in the text that it came from.
pub proof fn lemma_trimmed_part(s: Seq<char>)
    ensures
        exists|from: int, to: int|
            0 <= from <= to <= s.len() && trimmed(s) == #[trigger] s.subrange(from, to),
{
    lemma_trimmed_start_part(s);
    let from = choose|from: int|
        0 <= from <= s.len() && trimmed_start(s) == #[trigger] s.subrange(from, s.len() as int);
    let t = trimmed_start(s);
    lemma_trimmed_end_part(t);
    let to = choose|to: int| 0 <= to <= t.len() && trimmed_end(t) == #[trigger] t.subrange(0, to);
    assert(t.subrange(0, to) =~= s.subrange(from, from + to));
}

proof fn lemma_trimmed_start_part(s: Seq<char>)
    ensures
        exists|from: int|
            0 <= from <= s.len() && trimmed_start(s) == #[trigger] s.subrange(from, s.len() as int),
    decreases s.len(),
{
    if s.len() > 0 && is_space(s[0]) {
        let rest = s.drop_first();
        lemma_trimmed_start_part(rest);
        let from = choose|from: int|
            0 <= from <= rest.len() && trimmed_start(rest) == #[trigger] rest.subrange(
                from,
                rest.len() as int,
            );
        assert(rest.subrange(from, rest.len() as int) =~= s.subrange(from + 1, s.len() as int));
    } else {
        assert(s.subrange(0, s.len() as int) =~= s);
    }
}

proof fn lemma_trimmed_end_part(s: Seq<char>)
    ensures
        exists|to: int| 0 <= to <= s.len() && trimmed_end(s) == #[trigger] s.subrange(0, to),
    decreases s.len(),
{
    if s.len() > 0 && is_space(s.last()) {
        let rest = s.drop_last();
        lemma_trimmed_end_part(rest);
        let to = choose|to: int|
            0 <= to <= rest.len() && trimmed_end(rest) == #[trigger] rest.subrange(0, to);
        assert(rest.subrange(0, to) =~= s.subrange(0, to));
    } else {
        assert(s.subrange(0, s.len() as int) =~= s);
    }
}

proof fn lemma_trimmed_start(s: Seq<char>)
    ensures
        trimmed_start(s).len() <= s.len(),
        trimmed_start(s).len() > 0 ==> !is_space(trimmed_start(s)[0]),
    decreases s.len(),
{
    if s.len() > 0 && is_space(s[0]) {
        lemma_trimmed_start(s.drop_first());
    }
}

proof fn lemma_trimmed_end(s: Seq<char>)
    ensures
        trimmed_end(s).len() <= s.len(),
        trimmed_end(s).len() > 0 ==> !is_space(trimmed_end(s).last()) && trimmed_end(s)[0] == s[0],
    decreases s.len(),
{
    if s.len() > 0 && is_space(s.last()) {
        lemma_trimmed_end(s.drop_last());
    }
}

/// A text without white space at its ends is left as it is.
pub proof fn lemma_trimmed_fixed(s: Seq<char>)
    requires
        s.len() > 0 ==> !is_space(s[0]) && !is_space(s.last()),
    ensures
        trimmed(s) == s,
{
}

/// A text of which trimming leaves nothing is white space.
pub proof fn lemma_trimmed_empty(s: Seq<char>)
    requires
        trimmed(s).len() == 0,
    ensures
        forall|k: int| 0 <= k < s.len() ==> is_space(#[trigger] s[k]),
    decreases s.len(),
{
    if s.len() > 0 {
        if is_space(s[0]) {
            lemma_trimmed_empty(s.drop_first());
            assert forall|k: int| 0 <= k < s.len() implies is_space(#[trigger] s[k]) by {
                if k > 0 {
                    assert(s.drop_first()[k - 1] == s[k]);
                }
            }
        } else {
            lemma_trimmed_end_keeps_start(s);
        }
    }
}

proof fn lemma_trimmed_end_keeps_start(s: Seq<char>)
    requires
        s.len() > 0,
        !is_space(s[0]),
    ensures
        trimmed_end(s).len() > 0,
    decreases s.len(),
{
    if s.len() > 1 && is_space(s.last()) {
        lemma_trimmed_end_keeps_start(s.drop_last());
    }
}

/// Trimming leaves nothing of white space.
pub proof fn lemma_all_spaces(s: Seq<char>)
    requires
        forall|k: int| 0 <= k < s.len() ==> is_space(#[trigger] s[k]),
    ensures
        trimmed(s).len() == 0,
    decreases s.len(),
{
    if s.len() > 0 {
        assert forall|k: int| 0 <= k < s.len() - 1 implies is_space(
            #[trigger] s.drop_first()[k],
        ) by {
            assert(s.drop_first()[k] == s[k + 1]);
        }
        lemma_all_spaces(s.drop_first());
    }
}

/// Trimming a second time changes nothing.
pub proof fn lemma_trimmed_twice(s: Seq<char>)
    ensures
        trimmed(trimmed(s)) == trimmed(s),
{
    lemma_trimmed_ends(s);
    lemma_trimmed_fixed(trimmed(s));
}

// ---------------------------------------------------------------------------
// Decimal numbers
// ---------------------------------------------------------------------------
/// The character of one decimal digit.
pub open spec fn digit(d: int) -> char {
    (48 + d) as char
}

pub open spec fn is_digit(c: char) -> bool {
    '0' <= c <= '9'
}

pub open spec fn digit_value(c: char) -> int {
    c as int - 48
}

/// The decimal digits of a number, without leading zeros.
pub open spec fn decimal(n: nat) -> Seq<char>
    decreases n,
{
    if n < 10 {
        seq![digit(n as int)]
    } else {
        decimal(n / 10).push(digit((n % 10) as int))
    }
}

/// A number in decimal, with a minus sign where it is negative.
pub open spec fn signed_decimal(i: int) -> Seq<char> {
    if i < 0 {
        seq!['-'] + decimal((-i) as nat)
    } else {
        decimal(i as nat)
    }
}

/// So many zeros.
pub open spec fn zeros(n: nat) -> Seq<char> {
    Seq::new(n, |i: int| '0')
}

/// A number in decimal that fills at least `width` characters, with zeros behind the sign.
pub open spec fn zero_padded(i: int, width: nat) -> Seq<char> {
    let plain = signed_decimal(i);
    let missing = if plain.len() < width {
        (width - plain.len()) as nat
    } else {
        0
    };
    if i < 0 {
        seq!['-'] + zeros(missing) + decimal((-i) as nat)
    } else {
        zeros(missing) + decimal(i as nat)
    }
}

/// The number that a text of decimal digits stands for.
pub open spec fn digits_value(s: Seq<char>) -> Option<nat>
    decreases s.len(),
{
    if s.len() == 0 || !is_digit(s.last()) {
        None
    } else if s.len() == 1 {
        Some(digit_value(s[0]) as nat)
    } else {
        match digits_value(s.drop_last()) {
            Some(v) => Some((v * 10 + digit_value(s.last())) as nat),
            None => None,
        }
    }
}

/// The 64 bit number that a text stands for: decimal digits behind an optional sign.
pub open spec fn i64_value(s: Seq<char>) -> Option<i64> {
    if s.len() == 0 {
        None
    } else if s[0] == '-' {
        match digits_value(s.drop_first()) {
            Some(v) if -v >= i64::MIN => Some((-v) as i64),
            _ => None,
        }
    } else if s[0] == '+' {
        match digits_value(s.drop_first()) {
            Some(v) if v <= i64::MAX => Some(v as i64),
            _ => None,
        }
    } else {
        match digits_value(s) {
            Some(v) if v <= i64::MAX => Some(v as i64),
            _ => None,
        }
    }
}

/// The decimal digits of a number.
pub fn decimal_text(n: u64) -> (r: String)
    ensures
        r@ == decimal(n as nat),
    decreases n,
{
    let d: u8 = (n % 10) as u8;
    let c = (48u8 + d) as char;
    if n < 10 {
        let mut r = String::new();
        r.push(c);
        assert(r@ =~= seq![digit(n as int)]);
        r
    } else {
        let mut r = decimal_text(n / 10);
        r.push(c);
        r
    }
}

/// How far a number is from zero.
fn magnitude(i: i64) -> (m: u64)
    ensures
        m == if i < 0 { -i } else { i as int },
{
    if i >= 0 {
        i as u64
    } else if i == i64::MIN {
        9223372036854775808u64
    } else {
        (-i) as u64
    }
}

/// A number in decimal.
pub fn signed_decimal_text(i: i64) -> (r: String)
    ensures
        r@ == signed_decimal(i as int),
{
    let digits = decimal_text(magnitude(i));
    if i < 0 {
        let mut r = String::new();
        r.push('-');
        r.append(digits.as_str());
        assert(r@ =~= seq!['-'] + decimal((-i) as nat));
        r
    } else {
        digits
    }
}

/// A number in decimal that fills at least `width` characters.
pub fn zero_padded_text(i: i64, width: usize) -> (r: String)
    ensures
        r@ == zero_padded(i as int, width as nat),
{
    let digits = decimal_text(magnitude(i));
    proof {
        lemma_decimal_len(magnitude_of(i as int));
    }
    let mut used = digits.as_str().unicode_len();
    let mut r = String::new();
    if i < 0 {
        r.push('-');
        used += 1;
    }
    let ghost head = r@;
    assert(used == signed_decimal(i as int).len());
    let mut missing: usize = 0;
    while used < width
        invariant
            used == signed_decimal(i as int).len() + missing,
            used <= width || missing == 0,
            r@ == head + zeros(missing as nat),
        decreases width - used,
    {
        r.push('0');
        used += 1;
        missing += 1;
        assert(zeros(missing as nat) =~= zeros((missing - 1) as nat).push('0'));
    }
    r.append(digits.as_str());
    assert(r@ =~= zero_padded(i as int, width as nat));
    r
}

pub open spec fn magnitude_of(i: int) -> nat {
    if i < 0 {
        (-i) as nat
    } else {
        i as nat
    }
}

/// A number of at most 64 bits has at most twenty decimal digits.
proof fn lemma_decimal_len(n: nat)
    requires
        n <= u64::MAX,
    ensures
        1 <= decimal(n).len() <= 20,
{
    reveal_with_fuel(decimal, 21);
}

/// The number that the digits from `from` on stand for, where it is at most `limit`.
fn parse_digits(chars: &Vec<char>, from: usize, limit: u64) -> (r: Option<u64>)
    requires
        from <= chars@.len(),
        limit <= 9223372036854775808u64,
    ensures
        match r {
            Some(v) => v <= limit && digits_value(chars@.subrange(from as int, chars@.len() as int))
                == Some(v as nat),
            None => match digits_value(chars@.subrange(from as int, chars@.len() as int)) {
                Some(v) => v > limit,
                None => true,
            },
        },
{
    let ghost all = chars@.subrange(from as int, chars@.len() as int);
    if from == chars.len() {
        return None;
    }
    let mut value: u64 = 0;
    let mut over = false;
    let mut i: usize = from;
    while i < chars.len()
        invariant
            from <= i <= chars@.len(),
            limit <= 9223372036854775808u64,
            all == chars@.subrange(from as int, chars@.len() as int),
            i == from ==> value == 0 && !over,
            i > from ==> match digits_value(chars@.subrange(from as int, i as int)) {
                Some(v) => if over {
                    v > limit
                } else {
                    v == value && value <= limit
                },
                None => false,
            },
            value <= limit,
        decreases chars@.len() - i,
    {
        let c = chars[i];
        let ghost now = chars@.subrange(from as int, i + 1);
        assert(now.last() == c);
        if !('0' <= c && c <= '9') {
            proof {
                lemma_digits_prefix(all, i - from);
                assert(all[i - from] == c);
            }
            return None;
        }
        let d: u64 = (c as u64) - 48;
        assert(now.drop_last() =~= chars@.subrange(from as int, i as int));
        let next: u128 = (value as u128) * 10 + (d as u128);
        if over || next > limit as u128 {
            over = true;
        } else {
            value = next as u64;
        }
        i += 1;
    }
    assert(chars@.subrange(from as int, i as int) =~= all);
    if over {
        None
    } else {
        Some(value)
    }
}

/// A text with a character that is no digit stands for no number.
proof fn lemma_digits_prefix(s: Seq<char>, at: int)
    requires
        0 <= at < s.len(),
    ensures
        !is_digit(s[at]) ==> digits_value(s) is None,
    decreases s.len(),
{
    if at < s.len() - 1 {
        assert(s.drop_last()[at] == s[at]);
        lemma_digits_prefix(s.drop_last(), at);
    }
}

/// The 64 bit number that a text stands for.
pub fn parse_i64(s: &str) -> (r: Option<i64>)
    ensures
        r == i64_value(s@),
{
    let chars = to_chars(s);
    let n = chars.len();
    if n == 0 {
        return None;
    }
    if chars[0] == '-' {
        assert(chars@.subrange(1, n as int) =~= s@.drop_first());
        match parse_digits(&chars, 1, 9223372036854775808) {
            Some(v) => if v == 9223372036854775808 {
                Some(i64::MIN)
            } else {
                Some(-(v as i64))
            },
            None => None,
        }
    } else if chars[0] == '+' {
        assert(chars@.subrange(1, n as int) =~= s@.drop_first());
        match parse_digits(&chars, 1, 9223372036854775807) {
            Some(v) => Some(v as i64),
            None => None,
        }
    } else {
        assert(chars@.subrange(0, n as int) =~= s@);
        match parse_digits(&chars, 0, 9223372036854775807) {
            Some(v) => Some(v as i64),
            None => None,
        }
    }
}

/// Reading a number back from its digits gives the number.
pub proof fn lemma_digits_of_decimal(n: nat)
    ensures
        digits_value(decimal(n)) == Some(n),
        decimal(n).len() > 0,
        forall|k: int| 0 <= k < decimal(n).len() ==> is_digit(#[trigger] decimal(n)[k]),
    decreases n,
{
    if n >= 10 {
        lemma_digits_of_decimal(n / 10);
        assert(decimal(n).drop_last() =~= decimal(n / 10));
        assert(is_digit(digit((n % 10) as int)));
    } else {
        assert(is_digit(digit(n as int)));
    }
}

/// Reading a number back from its decimal form gives the number.
pub proof fn lemma_i64_of_signed_decimal(i: i64)
    ensures
        i64_value(signed_decimal(i as int)) == Some(i),
        forall|k: int|
            0 <= k < signed_decimal(i as int).len() ==> #[trigger] signed_decimal(i as int)[k] != '_',
{
    lemma_digits_of_decimal(magnitude_of(i as int));
    if i < 0 {
        assert(signed_decimal(i as int).drop_first() =~= decimal((-i) as nat));
    } else {
        assert(is_digit(decimal(i as nat)[0]));
    }
}

// ---------------------------------------------------------------------------
// What holds of the functions on texts
// ---------------------------------------------------------------------------
/// White space is what Unicode counts as such.
pub proof fn law_white_space(c: char, r: bool)
    requires
        call_ensures(is_space_char, (c,), r),
    ensures
        c == ' ' || c == '\t' || c == '\n' || c == '\r' || c as int == 0x3000 || c as int == 0xa0
            ==> r,
        0x9 <= c as int <= 0xd || 0x2000 <= c as int <= 0x200a ==> r,
        c as int == 0x85 || c as int == 0x1680 || c as int == 0x2028 || c as int == 0x2029
            || c as int == 0x202f || c as int == 0x205f ==> r,
        r ==> c as int <= 0x20 || c as int == 0x85 || c as int == 0xa0 || c as int == 0x1680
            || 0x2000 <= c as int <= 0x200a || 0x2028 <= c as int <= 0x2029 || c as int == 0x202f
            || c as int == 0x205f || c as int == 0x3000,
        r && c as int <= 0x20 ==> c == ' ' || 0x9 <= c as int <= 0xd,
{
}

/// What trimming takes away is white space, at the ends; it takes all of it, and leaves everything
/// between as it is.
pub proof fn law_trimming_takes_the_white_space_around(s: &str, r: &str)
    requires
        call_ensures(trim, (s,), r),
    ensures
        exists|from: int, to: int|
            {
                &&& 0 <= from <= to <= s@.len()
                &&& r@ == #[trigger] s@.subrange(from, to)
                &&& forall|k: int| 0 <= k < from ==> is_space(#[trigger] s@[k])
                &&& forall|k: int| to <= k < s@.len() ==> is_space(#[trigger] s@[k])
            },
        r@.len() > 0 ==> !is_space(r@[0]) && !is_space(r@[r@.len() - 1]),
{
    let t = trimmed_start(s@);
    lemma_trimmed_start_takes(s@);
    let from = choose|from: int|
        {
            &&& 0 <= from <= s@.len()
            &&& t == #[trigger] s@.subrange(from, s@.len() as int)
            &&& forall|k: int| 0 <= k < from ==> is_space(#[trigger] s@[k])
        };
    lemma_trimmed_end_takes(t);
    let to = choose|to: int|
        {
            &&& 0 <= to <= t.len()
            &&& trimmed_end(t) == #[trigger] t.subrange(0, to)
            &&& forall|k: int| to <= k < t.len() ==> is_space(#[trigger] t[k])
        };
    assert(t.subrange(0, to) =~= s@.subrange(from, from + to));
    assert forall|k: int| from + to <= k < s@.len() implies is_space(#[trigger] s@[k]) by {
        assert(t[k - from] == s@[k]);
    }
    lemma_trimmed_ends(s@);
}

proof fn lemma_trimmed_start_takes(s: Seq<char>)
    ensures
        exists|from: int|
            {
                &&& 0 <= from <= s.len()
                &&& trimmed_start(s) == #[trigger] s.subrange(from, s.len() as int)
                &&& forall|k: int| 0 <= k < from ==> is_space(#[trigger] s[k])
            },
    decreases s.len(),
{
    if s.len() > 0 && is_space(s[0]) {
        let rest = s.drop_first();
        lemma_trimmed_start_takes(rest);
        let from = choose|from: int|
            {
                &&& 0 <= from <= rest.len()
                &&& trimmed_start(rest) == #[trigger] rest.subrange(from, rest.len() as int)
                &&& forall|k: int| 0 <= k < from ==> is_space(#[trigger] rest[k])
            };
        assert(rest.subrange(from, rest.len() as int) =~= s.subrange(from + 1, s.len() as int));
        assert forall|k: int| 0 <= k < from + 1 implies is_space(#[trigger] s[k]) by {
            if k > 0 {
                assert(rest[k - 1] == s[k]);
            }
        }
    } else {
        assert(s.subrange(0, s.len() as int) =~= s);
    }
}

proof fn lemma_trimmed_end_takes(s: Seq<char>)
    ensures
        exists|to: int|
            {
                &&& 0 <= to <= s.len()
                &&& trimmed_end(s) == #[trigger] s.subrange(0, to)
                &&& forall|k: int| to <= k < s.len() ==> is_space(#[trigger] s[k])
            },
    decreases s.len(),
{
    if s.len() > 0 && is_space(s.last()) {
        let rest = s.drop_last();
        lemma_trimmed_end_takes(rest);
        let to = choose|to: int|
            {
                &&& 0 <= to <= rest.len()
                &&& trimmed_end(rest) == #[trigger] rest.subrange(0, to)
                &&& forall|k: int| to <= k < rest.len() ==> is_space(#[trigger] rest[k])
            };
        assert(rest.subrange(0, to) =~= s.subrange(0, to));
        assert forall|k: int| to <= k < s.len() implies is_space(#[trigger] s[k]) by {
            if k < rest.len() {
                assert(rest[k] == s[k]);
            }
        }
    } else {
        assert(s.subrange(0, s.len() as int) =~= s);
    }
}

/// Small letters and capitals: only the letters from A to Z change, each into its own, and every
/// character keeps its place.
pub proof fn law_letters_keep_their_places(s: &str, small: String, large: String)
    requires
        call_ensures(to_ascii_lowercase, (s,), small),
        call_ensures(to_ascii_uppercase, (s,), large),
    ensures
        small@.len() == s@.len(),
        large@.len() == s@.len(),
        forall|k: int|
            0 <= k < s@.len() ==> {
                let c = s@[k] as int;
                &&& 65 <= c <= 90 ==> #[trigger] small@[k] as int == c + 32
                &&& !(65 <= c <= 90) ==> small@[k] == s@[k]
            },
        forall|k: int|
            0 <= k < s@.len() ==> {
                let c = s@[k] as int;
                &&& 97 <= c <= 122 ==> #[trigger] large@[k] as int == c - 32
                &&& !(97 <= c <= 122) ==> large@[k] == s@[k]
            },
{
}

/// Two texts are the same but for case exactly where they are equally long and every character is
/// the same as the one in its place, or the same letter.
pub proof fn law_same_but_for_case(a: &str, b: &str, r: bool)
    requires
        call_ensures(eq_ignore_ascii_case, (a, b), r),
    ensures
        r <==> a@.len() == b@.len() && forall|k: int|
            0 <= k < a@.len() ==> {
                let x = #[trigger] a@[k] as int;
                let y = b@[k] as int;
                x == y || (65 <= x <= 90 && y == x + 32) || (97 <= x <= 122 && y == x - 32)
            },
{
    let x = ascii_lower(a@);
    let y = ascii_lower(b@);
    if r {
        assert(x.len() == y.len());
        assert forall|k: int| 0 <= k < a@.len() implies ({
            let p = #[trigger] a@[k] as int;
            let q = b@[k] as int;
            p == q || (65 <= p <= 90 && q == p + 32) || (97 <= p <= 122 && q == p - 32)
        }) by {
            assert(x[k] == y[k]);
        }
    }
    if a@.len() == b@.len() && forall|k: int|
        0 <= k < a@.len() ==> {
            let p = #[trigger] a@[k] as int;
            let q = b@[k] as int;
            p == q || (65 <= p <= 90 && q == p + 32) || (97 <= p <= 122 && q == p - 32)
        } {
        assert forall|k: int| 0 <= k < x.len() implies x[k] == y[k] by {
            let p = a@[k] as int;
            assert(x[k] == ascii_lower_char(a@[k]) && y[k] == ascii_lower_char(b@[k]));
        }
        assert(x =~= y);
    }
}

/// A text splits at its first separator, which stands in neither part of the beginning, and does
/// not split where it has none.
pub proof fn law_split_is_at_the_first_separator(
    s: &str,
    separator: char,
    r: Option<(&str, &str)>,
)
    requires
        call_ensures(split_once, (s, separator), r),
    ensures
        r is Some <==> exists|k: int| 0 <= k < s@.len() && #[trigger] s@[k] == separator,
        r matches Some(parts) ==> {
            &&& s@ == parts.0@ + seq![separator] + parts.1@
            &&& forall|k: int| 0 <= k < parts.0@.len() ==> #[trigger] parts.0@[k] != separator
        },
{
    lemma_split_parts(s@, separator);
    if let Some(parts) = r {
        assert((parts.0@ + seq![separator] + parts.1@)[parts.0@.len() as int] == separator);
    }
}

/// What a text splits into.
pub proof fn lemma_split_parts(s: Seq<char>, separator: char)
    ensures
        match split_at_first(s, separator) {
            Some((before, after)) => s == before + seq![separator] + after && forall|k: int|
                0 <= k < before.len() ==> #[trigger] before[k] != separator,
            None => forall|k: int| 0 <= k < s.len() ==> #[trigger] s[k] != separator,
        },
    decreases s.len(),
{
    if s.len() > 0 {
        let rest = s.drop_first();
        if s[0] == separator {
            assert(Seq::<char>::empty() + seq![separator] + rest =~= s);
        } else {
            lemma_split_parts(rest, separator);
            assert(seq![s[0]] + rest =~= s);
            match split_at_first(rest, separator) {
                Some((before, after)) => {
                    assert(seq![s[0]] + before + seq![separator] + after =~= seq![s[0]] + (before
                        + seq![separator] + after));
                },
                None => {
                    assert forall|k: int| 0 <= k < s.len() implies #[trigger] s[k] != separator by {
                        if k > 0 {
                            assert(rest[k - 1] == s[k]);
                        }
                    }
                },
            }
        }
    }
}

/// A text ends with another exactly where it is something and then the other.
pub proof fn law_endings(s: &str, part: &str, r: bool, c: char, of_char: bool)
    requires
        call_ensures(ends_with, (s, part), r),
        call_ensures(ends_with_char, (s, c), of_char),
    ensures
        r <==> exists|before: Seq<char>| s@ == #[trigger] (before + part@),
        of_char <==> s@.len() > 0 && s@[s@.len() - 1] == c,
{
    if r {
        let n = s@.len() - part@.len();
        assert(s@ =~= s@.take(n) + part@) by {
            assert(s@.skip(n) =~= s@.subrange(n, n + part@.len()));
        }
    }
    if exists|before: Seq<char>| s@ == #[trigger] (before + part@) {
        let before = choose|before: Seq<char>| s@ == #[trigger] (before + part@);
        assert(s@.subrange(before.len() as int, (before.len() + part@.len()) as int) =~= part@);
    }
}

/// A text of letters and digits has nothing else.
pub proof fn law_letters_and_digits(s: &str, r: bool)
    requires
        call_ensures(is_all_alphanumeric, (s,), r),
    ensures
        r <==> forall|k: int|
            0 <= k < s@.len() ==> {
                let c = #[trigger] s@[k] as int;
                48 <= c <= 57 || 65 <= c <= 90 || 97 <= c <= 122
            },
{
    if !r {
        let k = choose|k: int| 0 <= k < s@.len() && !is_alphanumeric(#[trigger] s@[k]);
        assert(!(48 <= s@[k] as int <= 57));
    }
}

/// A list holds a text exactly where it has it at some place, and a copy has every text in its
/// place.
pub proof fn law_lists_of_texts(list: &Vec<String>, wanted: &str, r: bool, copy: Vec<String>)
    requires
        call_ensures(contains_text, (list, wanted), r),
        call_ensures(clone_texts, (list,), copy),
    ensures
        r <==> exists|k: int| 0 <= k < list@.len() && #[trigger] list@[k]@ == wanted@,
        copy@.len() == list@.len(),
        forall|k: int| 0 <= k < list@.len() ==> #[trigger] copy@[k]@ == list@[k]@,
{
    assert(texts(copy@).len() == texts(list@).len());
    assert forall|k: int| 0 <= k < list@.len() implies #[trigger] copy@[k]@ == list@[k]@ by {
        assert(texts(copy@)[k] == texts(list@)[k]);
    }
    if r {
        let k = choose|k: int| 0 <= k < texts(list@).len() && texts(list@)[k] == wanted@;
        assert(list@[k]@ == wanted@);
    }
    if exists|k: int| 0 <= k < list@.len() && #[trigger] list@[k]@ == wanted@ {
        let k = choose|k: int| 0 <= k < list@.len() && #[trigger] list@[k]@ == wanted@;
        assert(texts(list@)[k] == wanted@);
    }
}

/// The last digit of a number is what is left of it over the tens, and stands behind the digits of
/// the tens, if there are any. A negative number has a minus sign before its digits.
pub proof fn law_digits_of_a_number(n: u64, r: String, tens: String, i: i64, of_i: String)
    requires
        call_ensures(decimal_text, (n,), r),
        call_ensures(decimal_text, ((n / 10) as u64,), tens),
        call_ensures(signed_decimal_text, (i,), of_i),
        (if i < 0 {
            -(i as int)
        } else {
            i as int
        }) == n,
    ensures
        r@.len() > 0,
        r@[r@.len() - 1] as int == '0' as int + n % 10,
        n < 10 ==> r@.len() == 1,
        n >= 10 ==> r@.drop_last() == tens@,
        i >= 0 ==> of_i@ == r@,
        i < 0 ==> of_i@ == seq!['-'] + r@,
{
    if n >= 10 {
        assert(r@.drop_last() =~= decimal((n / 10) as nat));
    }
}

/// A number that is written and read again is the number.
pub proof fn law_numbers_are_read_back(i: i64, written: String, s: &str, r: Option<i64>)
    requires
        call_ensures(signed_decimal_text, (i,), written),
        call_ensures(parse_i64, (s,), r),
        s@ == written@,
    ensures
        r == Some(i),
{
    lemma_i64_of_signed_decimal(i);
}

/// Padding puts as many zeros before the digits as are missing, behind the sign.
pub proof fn law_padding(i: i64, width: usize, padded: String, plain: String)
    requires
        call_ensures(zero_padded_text, (i, width), padded),
        call_ensures(signed_decimal_text, (i,), plain),
    ensures
        plain@.len() >= width ==> padded@ == plain@,
        plain@.len() < width ==> padded@.len() == width,
        i >= 0 && plain@.len() < width ==> padded@.skip(width - plain@.len()) == plain@ && forall|
            k: int,
        |
            0 <= k < width - plain@.len() ==> #[trigger] padded@[k] == '0',
        i < 0 ==> padded@[0] == '-',
        i < 0 && plain@.len() < width ==> padded@.skip(1 + width - plain@.len())
            == plain@.drop_first() && forall|k: int|
            1 <= k < 1 + width - plain@.len() ==> #[trigger] padded@[k] == '0',
{
    let digits = decimal(magnitude_of(i as int));
    if i < 0 {
        assert(plain@.drop_first() =~= digits);
        if plain@.len() < width {
            assert(padded@.skip(1 + width - plain@.len()) =~= digits);
        } else {
            assert(padded@ =~= plain@);
        }
    } else {
        if plain@.len() < width {
            assert(padded@.skip(width - plain@.len()) =~= plain@);
        } else {
            assert(padded@ =~= plain@);
        }
    }
}

/// A text has its characters in their order, and what is made of some of them has those from the
/// first to before the last. Two texts are the same where they have the same characters.
pub proof fn law_texts_are_their_characters(
    s: &str,
    chars: Vec<char>,
    from: usize,
    to: usize,
    part: String,
    other: &str,
    equal: bool,
)
    requires
        call_ensures(to_chars, (s,), chars),
        from <= to <= s@.len(),
        call_ensures(from_chars, (&chars, from, to), part),
        call_ensures(same, (s, other), equal),
    ensures
        chars@.len() == s@.len(),
        forall|k: int| 0 <= k < s@.len() ==> #[trigger] chars@[k] == s@[k],
        part@.len() == to - from,
        forall|k: int| 0 <= k < to - from ==> #[trigger] part@[k] == s@[from + k],
        equal <==> s@.len() == other@.len() && forall|k: int|
            0 <= k < s@.len() ==> #[trigger] s@[k] == other@[k],
{
    if s@.len() == other@.len() && forall|k: int|
        0 <= k < s@.len() ==> #[trigger] s@[k] == other@[k] {
        assert(s@ =~= other@);
    }
}

/// Characters stand in others from a position on where each of them is the one in its place.
pub proof fn law_occurrences(chars: &Vec<char>, part: &Vec<char>, at: usize, r: bool)
    requires
        call_ensures(occurs_in, (chars, part, at), r),
    ensures
        r <==> at + part@.len() <= chars@.len() && forall|k: int|
            0 <= k < part@.len() ==> #[trigger] part@[k] == chars@[at + k],
{
    if at + part@.len() <= chars@.len() {
        let found = chars@.subrange(at as int, at + part@.len());
        if r {
            assert forall|k: int| 0 <= k < part@.len() implies #[trigger] part@[k] == chars@[at
                + k] by {
                assert(found[k] == part@[k]);
            }
        } else if forall|k: int| 0 <= k < part@.len() ==> #[trigger] part@[k] == chars@[at + k] {
            assert(found =~= part@);
        }
    }
}

/// One letter changes into its own small letter or capital, and any other character stays.
pub proof fn law_one_letter(c: char, small: char, large: char)
    requires
        call_ensures(to_ascii_lower_char, (c,), small),
        call_ensures(to_ascii_upper_char, (c,), large),
    ensures
        65 <= c as int <= 90 ==> small as int == c as int + 32 && large == c,
        97 <= c as int <= 122 ==> large as int == c as int - 32 && small == c,
        !(65 <= c as int <= 90) && !(97 <= c as int <= 122) ==> small == c && large == c,
{
}

/// A digit is its number, and one more digit behind others counts as the last of ten times as many,
/// as far as the numbers reach. A minus sign before digits makes the number negative, a plus sign
/// changes nothing, and any other text is no number.
pub proof fn law_which_texts_are_numbers(s: &str, r: Option<i64>, other: &str, of_other: Option<i64>)
    requires
        call_ensures(parse_i64, (s,), r),
        call_ensures(parse_i64, (other,), of_other),
    ensures
        s@.len() == 0 ==> r is None,
        s@.len() == 1 ==> (r is Some <==> 48 <= s@[0] as int <= 57) && (r matches Some(v) ==> v
            == s@[0] as int - 48),
        s@.len() > 1 && !(48 <= s@.last() as int <= 57) ==> r is None,
        s@.len() > 1 && s@.drop_last() == other@ && 48 <= s@.last() as int <= 57 && '0'
            <= other@[0] <= '9' ==> (match of_other {
            Some(v) => if v * 10 + (s@.last() as int - 48) <= i64::MAX {
                r matches Some(n) && n == v * 10 + (s@.last() as int - 48)
            } else {
                r is None
            },
            None => r is None,
        }),
        s@.len() > 1 && s@ == seq!['+'] + other@ && '0' <= other@[0] <= '9' ==> r == of_other,
        s@.len() > 1 && s@ == seq!['-'] + other@ && '0' <= other@[0] <= '9' && of_other is Some
            ==> (r matches Some(n) && n == -of_other->0),
        s@.len() > 1 && !('0' <= s@[0] <= '9') && s@[0] != '+' && s@[0] != '-' ==> r is None,
{
    if s@.len() > 1 {
        if s@ == seq!['+'] + other@ || s@ == seq!['-'] + other@ {
            assert(s@.drop_first() =~= other@);
        }
        if !(48 <= s@.last() as int <= 57) {
            assert(s@.drop_first().last() == s@.last());
        }
        if !('0' <= s@[0] <= '9') && s@[0] != '+' && s@[0] != '-' {
            lemma_digits_prefix(s@, 0);
        }
        if s@.drop_last() == other@ {
            assert(other@[0] == s@[0]);
        }
    }
}

} // verus!
