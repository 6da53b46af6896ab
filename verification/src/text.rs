//! Text rules: trimming, length limits, identifier alphabets and decimal
//! numerals. Strings are modelled as sequences of characters.

use vstd::prelude::*;

verus! {

/// `String::push` appends one character.
pub assume_specification[ String::push ](s: &mut String, c: char)
    ensures
        final(s)@ == old(s)@.push(c),
;

/// `std::str::from_utf8`: the text is returned exactly when the bytes are well
/// formed UTF-8, and it is the text that the bytes encode.
#[verifier::external_body]
fn std_from_utf8(bytes: &[u8]) -> (text: Option<&str>)
    ensures
        text is Some <==> vstd::utf8::valid_utf8(bytes@),
        text matches Some(t) ==> t@ == vstd::utf8::decode_utf8(bytes@),
{
    std::str::from_utf8(bytes).ok()
}

/// The text that a frame holds, where the frame is well formed UTF-8.
pub fn decode_text(bytes: &[u8]) -> (text: Option<String>)
    ensures
        text is Some <==> vstd::utf8::valid_utf8(bytes@),
        text matches Some(t) ==> t@ == vstd::utf8::decode_utf8(bytes@),
{
    match std_from_utf8(bytes) {
        Some(t) => Some(t.to_owned()),
        None => None,
    }
}

/// The characters of `value`.
pub fn chars_of(value: &str) -> (chars: Vec<char>)
    ensures
        chars@ == value@,
{
    let mut chars: Vec<char> = Vec::new();
    for c in it: value.chars()
        invariant
            it.seq() == value@,
            chars@ == value@.take(it.index() as int),
    {
        chars.push(c);
    }
    chars
}

/// The string that `chars` spell.
pub fn string_of(chars: &Vec<char>) -> (text: String)
    ensures
        text@ == chars@,
{
    let mut text = String::new();
    for i in 0..chars.len()
        invariant
            text@ == chars@.take(i as int),
    {
        text.push(chars[i]);
        assert(chars@.take(i as int + 1) == chars@.take(i as int).push(chars@[i as int]));
    }
    assert(chars@.take(chars@.len() as int) == chars@);
    text
}

/// Whether two strings hold the same characters.
pub fn same_text(a: &str, b: &str) -> (same: bool)
    ensures
        same == (a@ == b@),
{
    let x = chars_of(a);
    let y = chars_of(b);
    if x.len() != y.len() {
        return false;
    }
    for i in 0..x.len()
        invariant
            x@ == a@,
            y@ == b@,
            x@.len() == y@.len(),
            forall|j: int| 0 <= j < i ==> x@[j] == y@[j],
    {
        if x[i] != y[i] {
            return false;
        }
    }
    assert(x@ =~= y@);
    true
}

/// Lexicographic order by code point.
pub open spec fn text_before(a: Seq<char>, b: Seq<char>) -> bool
    decreases a.len(),
{
    if b.len() == 0 {
        false
    } else if a.len() == 0 {
        true
    } else if a[0] != b[0] {
        a[0] < b[0]
    } else {
        text_before(a.skip(1), b.skip(1))
    }
}

/// Whether `a` stands before `b` in lexicographic order.
pub fn is_text_before(a: &str, b: &str) -> (before: bool)
    ensures
        before == text_before(a@, b@),
{
    let x = chars_of(a);
    let y = chars_of(b);
    let mut i: usize = 0;
    assert(x@.skip(0) == a@);
    assert(y@.skip(0) == b@);
    while i < x.len() && i < y.len()
        invariant
            i <= x@.len(),
            i <= y@.len(),
            text_before(a@, b@) == text_before(x@.skip(i as int), y@.skip(i as int)),
        decreases x@.len() - i,
    {
        if x[i] != y[i] {
            return x[i] < y[i];
        }
        assert(x@.skip(i as int).skip(1) == x@.skip(i as int + 1));
        assert(y@.skip(i as int).skip(1) == y@.skip(i as int + 1));
        i = i + 1;
    }
    i < y.len()
}

/// Lexicographic order is a strict total order.
pub proof fn law_text_order(a: Seq<char>, b: Seq<char>, c: Seq<char>)
    ensures
        !text_before(a, a),
        text_before(a, b) && text_before(b, c) ==> text_before(a, c),
        a == b || text_before(a, b) || text_before(b, a),
    decreases a.len(),
{
    if a.len() > 0 && b.len() > 0 && a[0] == b[0] {
        if c.len() > 0 {
            law_text_order(a.skip(1), b.skip(1), c.skip(1));
        } else {
            law_text_order(a.skip(1), b.skip(1), c);
        }
        if a.skip(1) == b.skip(1) {
            assert(a == seq![a[0]] + a.skip(1));
            assert(b == seq![b[0]] + b.skip(1));
        }
    } else if a.len() > 0 {
        law_text_order(a.skip(1), a.skip(1), Seq::empty());
    }
    if a.len() == 0 && b.len() == 0 {
        assert(a == b);
    }
}

/// The Unicode `White_Space` property.
pub open spec fn white_space(c: char) -> bool {
    let n = c as u32;
    ||| 0x9 <= n <= 0xd
    ||| n == 0x20
    ||| n == 0x85
    ||| n == 0xa0
    ||| n == 0x1680
    ||| 0x2000 <= n <= 0x200a
    ||| n == 0x2028
    ||| n == 0x2029
    ||| n == 0x202f
    ||| n == 0x205f
    ||| n == 0x3000
}

/// Whether `c` has the Unicode `White_Space` property.
pub fn is_white_space(c: char) -> (r: bool)
    ensures
        r == white_space(c),
{
    let n: u32 = c as u32;
    (0x9 <= n && n <= 0xd) || n == 0x20 || n == 0x85 || n == 0xa0 || n == 0x1680 || (0x2000 <= n
        && n <= 0x200a) || n == 0x2028 || n == 0x2029 || n == 0x202f || n == 0x205f || n == 0x3000
}

/// `s` without its leading white space.
pub open spec fn trim_start(s: Seq<char>) -> Seq<char>
    decreases s.len(),
{
    if s.len() > 0 && white_space(s[0]) {
        trim_start(s.skip(1))
    } else {
        s
    }
}

/// `s` without its trailing white space.
pub open spec fn trim_end(s: Seq<char>) -> Seq<char>
    decreases s.len(),
{
    if s.len() > 0 && white_space(s.last()) {
        trim_end(s.drop_last())
    } else {
        s
    }
}

/// `s` without leading and trailing white space.
pub open spec fn trim(s: Seq<char>) -> Seq<char> {
    trim_end(trim_start(s))
}

/// Nothing but white space.
pub open spec fn blank(s: Seq<char>) -> bool {
    trim(s).len() == 0
}

/// The characters of `value` without leading and trailing white space.
pub fn trimmed_chars(value: &str) -> (r: Vec<char>)
    ensures
        r@ == trim(value@),
{
    let chars = chars_of(value);
    let mut start: usize = 0;
    assert(chars@.skip(0) == value@);
    while start < chars.len() && is_white_space(chars[start])
        invariant
            start <= chars@.len(),
            trim_start(value@) == trim_start(chars@.skip(start as int)),
        decreases chars@.len() - start,
    {
        assert(chars@.skip(start as int).skip(1) == chars@.skip(start as int + 1));
        start = start + 1;
    }
    let mut end: usize = chars.len();
    assert(chars@.subrange(start as int, end as int) == chars@.skip(start as int));
    while end > start && is_white_space(chars[end - 1])
        invariant
            start <= end <= chars@.len(),
            trim(value@) == trim_end(chars@.subrange(start as int, end as int)),
        decreases end,
    {
        assert(chars@.subrange(start as int, end as int).drop_last() == chars@.subrange(
            start as int,
            end - 1,
        ));
        end = end - 1;
    }
    let mut r: Vec<char> = Vec::new();
    for i in start..end
        invariant
            start <= end <= chars@.len(),
            r@ == chars@.subrange(start as int, i as int),
    {
        r.push(chars[i]);
    }
    r
}

/// Whether `value` is nothing but white space.
pub fn is_blank(value: &str) -> (r: bool)
    ensures
        r == blank(value@),
{
    trimmed_chars(value).len() == 0
}

/// At most the first `max` elements.
pub open spec fn limit<T>(s: Seq<T>, max: nat) -> Seq<T> {
    if s.len() <= max {
        s
    } else {
        s.take(max as int)
    }
}

/// At most the first `max_chars` characters of `value`.
pub fn limit_chars(value: &str, max_chars: usize) -> (r: String)
    ensures
        r@ == limit(value@, max_chars as nat),
{
    let mut chars = chars_of(value);
    if chars.len() > max_chars {
        chars.truncate(max_chars);
    }
    string_of(&chars)
}

/// An ASCII letter or digit.
pub open spec fn ascii_alphanumeric(c: char) -> bool {
    'a' <= c <= 'z' || 'A' <= c <= 'Z' || '0' <= c <= '9'
}

/// The characters that identifiers keep: ASCII letters and digits and `-`,
/// `_`, `:` and `.`.
pub open spec fn identifier_char(c: char) -> bool {
    ascii_alphanumeric(c) || c == '-' || c == '_' || c == ':' || c == '.'
}

/// Whether identifiers keep `c`.
pub fn is_identifier_char(c: char) -> (r: bool)
    ensures
        r == identifier_char(c),
{
    ('a' <= c && c <= 'z') || ('A' <= c && c <= 'Z') || ('0' <= c && c <= '9') || c == '-' || c
        == '_' || c == ':' || c == '.'
}

/// Every character is one that identifiers keep.
pub open spec fn identifier_text(s: Seq<char>) -> bool {
    forall|i: int| 0 <= i < s.len() ==> identifier_char(#[trigger] s[i])
}

/// How many characters of an event identifier are kept.
pub const EVENT_ID_CHARS: usize = 128;

/// The identifier characters of the trimmed text, at most 128 of them.
pub open spec fn sanitized(s: Seq<char>) -> Seq<char> {
    limit(trim(s).filter(|c: char| identifier_char(c)), EVENT_ID_CHARS as nat)
}

/// The event identifier that a sender's text stands for: nothing where no
/// identifier character is in it.
pub open spec fn sanitized_id(value: Option<Seq<char>>) -> Option<Seq<char>> {
    match value {
        Some(s) => if sanitized(s).len() == 0 {
            None
        } else {
            Some(sanitized(s))
        },
        None => None,
    }
}

/// What the strings of a list say.
pub open spec fn texts(list: Seq<String>) -> Seq<Seq<char>> {
    list.map_values(|s: String| s@)
}

/// The view of an optional string.
pub open spec fn option_text(value: Option<String>) -> Option<Seq<char>> {
    match value {
        Some(s) => Some(s@),
        None => None,
    }
}

/// The view of an optional string slice.
pub open spec fn option_str(value: Option<&str>) -> Option<Seq<char>> {
    match value {
        Some(s) => Some(s@),
        None => None,
    }
}

/// Keeps the identifier characters of a sender's event identifier.
pub fn sanitize_event_id(value: Option<&str>) -> (r: Option<String>)
    ensures
        option_text(r) == sanitized_id(option_str(value)),
{
    let value = match value {
        Some(v) => v,
        None => {
            return None;
        },
    };
    let chars = trimmed_chars(value);
    let ghost keep = |c: char| identifier_char(c);
    let mut kept: Vec<char> = Vec::new();
    for i in 0..chars.len()
        invariant
            keep == |c: char| identifier_char(c),
            kept@ == chars@.take(i as int).filter(keep),
    {
        proof {
            assert(chars@.take(i as int + 1) == chars@.take(i as int).push(chars@[i as int]));
            chars@.take(i as int).lemma_filter_push(chars@[i as int], keep);
        }
        if is_identifier_char(chars[i]) {
            kept.push(chars[i]);
        }
    }
    assert(chars@.take(chars@.len() as int) == chars@);
    if kept.len() > EVENT_ID_CHARS {
        kept.truncate(EVENT_ID_CHARS);
    }
    if kept.len() == 0 {
        None
    } else {
        Some(string_of(&kept))
    }
}

/// `c` where identifiers keep it, `_` where they do not.
pub open spec fn identifier_or_underscore(c: char) -> char {
    if identifier_char(c) {
        c
    } else {
        '_'
    }
}

/// The trimmed text with `_` for each character that identifiers do not keep,
/// cut to `max` characters; `fallback` where nothing is left.
pub open spec fn normalized_identifier(s: Seq<char>, max: nat, fallback: Seq<char>) -> Seq<char> {
    let kept = limit(trim(s).map_values(|c: char| identifier_or_underscore(c)), max);
    if kept.len() == 0 {
        fallback
    } else {
        kept
    }
}

/// Turns `value` into an identifier of at most `max_chars` characters.
pub fn normalize_identifier(value: &str, max_chars: usize, fallback: &str) -> (r: String)
    ensures
        r@ == normalized_identifier(value@, max_chars as nat, fallback@),
{
    let chars = trimmed_chars(value);
    let mut kept: Vec<char> = Vec::new();
    for i in 0..chars.len()
        invariant
            kept@.len() == i,
            forall|j: int|
                0 <= j < i ==> kept@[j] == identifier_or_underscore(#[trigger] chars@[j]),
    {
        kept.push(
            if is_identifier_char(chars[i]) {
                chars[i]
            } else {
                '_'
            },
        );
    }
    assert(kept@ == chars@.map_values(|c: char| identifier_or_underscore(c)));
    if kept.len() > max_chars {
        kept.truncate(max_chars);
    }
    if kept.len() == 0 {
        fallback.to_owned()
    } else {
        string_of(&kept)
    }
}

/// `table` without the suffix `_statistics_events`, where it has it.
pub open spec fn legacy_source(table: Seq<char>) -> Seq<char> {
    let suffix = "_statistics_events"@;
    if suffix.is_suffix_of(table) {
        table.take(table.len() - suffix.len())
    } else {
        table
    }
}

/// The plugin name that a legacy table name stands for.
pub fn legacy_source_name(table: &str) -> (r: &str)
    ensures
        r@ == legacy_source(table@),
{
    let suffix = "_statistics_events";
    let n: usize = table.unicode_len();
    let k: usize = suffix.unicode_len();
    if k <= n && same_text(table.substring_char(n - k, n), suffix) {
        table.substring_char(0, n - k)
    } else {
        table
    }
}

/// The decimal digit of `d`.
pub open spec fn digit(d: nat) -> char {
    (('0' as u32) + d) as char
}

/// The decimal numeral of `n`, without leading zeros.
pub open spec fn decimal(n: nat) -> Seq<char>
    decreases n,
{
    if n < 10 {
        seq![digit(n)]
    } else {
        decimal(n / 10).push(digit(n % 10))
    }
}

/// The decimal numeral of `n`, with `-` before it where `n` is negative.
pub open spec fn signed_decimal(n: int) -> Seq<char> {
    if n < 0 {
        seq!['-'] + decimal((-n) as nat)
    } else {
        decimal(n as nat)
    }
}

/// Appends the decimal numeral of `n`.
pub fn push_decimal(text: &mut String, n: u64)
    ensures
        final(text)@ == old(text)@ + decimal(n as nat),
    decreases n,
{
    if n >= 10 {
        push_decimal(text, n / 10);
    }
    let d: u8 = (n % 10) as u8;
    let c: char = (48u8 + d) as char;
    text.push(c);
    proof {
        assert(c == digit((n % 10) as nat));
        if n >= 10 {
            assert(final(text)@ == old(text)@ + decimal((n / 10) as nat).push(c));
        } else {
            assert(final(text)@ == old(text)@ + seq![c]);
        }
    }
}

/// Appends the decimal numeral of `n` with its sign.
pub fn push_signed(text: &mut String, n: i64)
    ensures
        final(text)@ == old(text)@ + signed_decimal(n as int),
{
    if n < 0 {
        text.push('-');
        let m: u64 = if n == i64::MIN {
            0x8000_0000_0000_0000u64
        } else {
            (-n) as u64
        };
        push_decimal(text, m);
        assert(final(text)@ == old(text)@ + (seq!['-'] + decimal(m as nat)));
    } else {
        push_decimal(text, n as u64);
    }
}

proof fn lemma_identifier_text_is_trimmed(s: Seq<char>)
    requires
        identifier_text(s),
    ensures
        trim(s) == s,
{
    if s.len() > 0 {
        assert(identifier_char(s[0]));
        assert(identifier_char(s[s.len() - 1]));
    }
}

proof fn lemma_identifier_text_is_kept(s: Seq<char>)
    requires
        identifier_text(s),
    ensures
        s.filter(|c: char| identifier_char(c)) == s,
    decreases s.len(),
{
    reveal(Seq::filter);
    if s.len() > 0 {
        assert(identifier_char(s[s.len() - 1]));
        assert forall|i: int| 0 <= i < s.drop_last().len() implies identifier_char(
            #[trigger] s.drop_last()[i],
        ) by {
            assert(s.drop_last()[i] == s[i]);
        }
        lemma_identifier_text_is_kept(s.drop_last());
        assert(s == s.drop_last().push(s.last()));
    }
}

proof fn lemma_filter_gives_identifier_text(s: Seq<char>)
    ensures
        identifier_text(s.filter(|c: char| identifier_char(c))),
{
    let keep = |c: char| identifier_char(c);
    let kept = s.filter(keep);
    assert forall|i: int| 0 <= i < kept.len() implies identifier_char(#[trigger] kept[i]) by {
        s.lemma_filter_pred(keep, i);
    }
}

/// An event identifier has between one and 128 characters, all of them
/// identifier characters.
pub proof fn law_event_id_shape(value: Option<Seq<char>>)
    ensures
        sanitized_id(value) matches Some(id) ==> 1 <= id.len() <= 128 && identifier_text(id),
{
    match value {
        Some(s) => {
            lemma_filter_gives_identifier_text(trim(s));
        },
        None => {},
    }
}

/// An event identifier that has been cleaned stays as it is.
pub proof fn law_sanitize_twice(value: Option<Seq<char>>)
    ensures
        sanitized_id(sanitized_id(value)) == sanitized_id(value),
{
    law_event_id_shape(value);
    match sanitized_id(value) {
        Some(id) => {
            lemma_identifier_text_is_trimmed(id);
            lemma_identifier_text_is_kept(id);
        },
        None => {},
    }
}

/// A normalised identifier is the fallback, or has between one and `max`
/// characters, all of them identifier characters.
pub proof fn law_identifier_shape(s: Seq<char>, max: nat, fallback: Seq<char>)
    ensures
        ({
            let r = normalized_identifier(s, max, fallback);
            r == fallback || (1 <= r.len() <= max && identifier_text(r))
        }),
{
}

/// A normalised identifier stays as it is.
pub proof fn law_normalize_identifier_twice(s: Seq<char>, max: nat, fallback: Seq<char>)
    requires
        identifier_text(fallback),
        fallback.len() <= max,
    ensures
        ({
            let r = normalized_identifier(s, max, fallback);
            normalized_identifier(r, max, fallback) == r
        }),
{
    law_identifier_shape(s, max, fallback);
    let r = normalized_identifier(s, max, fallback);
    lemma_identifier_text_is_trimmed(r);
    assert(r.map_values(|c: char| identifier_or_underscore(c)) =~= r);
}

/// Cutting a text twice to the same length is cutting it once.
pub proof fn law_limit_twice(s: Seq<char>, max: nat)
    ensures
        limit(s, max).len() <= max,
        limit(limit(s, max), max) == limit(s, max),
{
}

proof fn lemma_decimal_is_identifier_text(n: nat)
    ensures
        identifier_text(decimal(n)),
        decimal(n).len() >= 1,
    decreases n,
{
    if n >= 10 {
        lemma_decimal_is_identifier_text(n / 10);
    }
}

/// A numeral with its sign is made of identifier characters.
pub proof fn lemma_signed_decimal_is_identifier_text(n: int)
    ensures
        identifier_text(signed_decimal(n)),
        signed_decimal(n).len() >= 1,
{
    if n < 0 {
        lemma_decimal_is_identifier_text((-n) as nat);
    } else {
        lemma_decimal_is_identifier_text(n as nat);
    }
}

/// A text within the limit is kept as it is, and of a longer one the first
/// characters.
pub proof fn law_limit_keeps_the_beginning(s: Seq<char>, max: nat)
    ensures
        s.len() <= max ==> limit(s, max) == s,
        s.len() > max ==> limit(s, max) == s.take(max as int),
{
}

/// Identifiers keep exactly the ASCII letters and digits and four signs.
pub proof fn law_identifier_characters(c: char)
    ensures
        identifier_char(c) <==> ({
            ||| 'a' <= c <= 'z'
            ||| 'A' <= c <= 'Z'
            ||| '0' <= c <= '9'
            ||| c == '-'
            ||| c == '_'
            ||| c == ':'
            ||| c == '.'
        }),
        white_space(c) ==> !identifier_char(c),
{
}

/// `part` is what lies between `a` and `b` of `s`, with nothing but white space
/// round it and none at its ends.
pub open spec fn trimmed_between(s: Seq<char>, part: Seq<char>, a: int, b: int) -> bool {
    &&& 0 <= a <= b <= s.len()
    &&& part == s.subrange(a, b)
    &&& forall|i: int| 0 <= i < a ==> white_space(#[trigger] s[i])
    &&& forall|i: int| b <= i < s.len() ==> white_space(#[trigger] s[i])
    &&& a < b ==> !white_space(s[a]) && !white_space(s[b - 1])
}

proof fn lemma_trim_start_at(s: Seq<char>) -> (a: int)
    ensures
        0 <= a <= s.len(),
        trim_start(s) == s.skip(a),
        forall|i: int| 0 <= i < a ==> white_space(#[trigger] s[i]),
        a < s.len() ==> !white_space(s[a]),
    decreases s.len(),
{
    if s.len() > 0 && white_space(s[0]) {
        let rest = s.skip(1);
        let a = lemma_trim_start_at(rest);
        assert(rest.skip(a) =~= s.skip(a + 1));
        assert forall|i: int| 0 <= i < a + 1 implies white_space(#[trigger] s[i]) by {
            if i > 0 {
                assert(s[i] == rest[i - 1]);
            }
        }
        a + 1
    } else {
        assert(s.skip(0) =~= s);
        0
    }
}

proof fn lemma_trim_end_at(s: Seq<char>) -> (b: int)
    ensures
        0 <= b <= s.len(),
        trim_end(s) == s.take(b),
        forall|i: int| b <= i < s.len() ==> white_space(#[trigger] s[i]),
        b > 0 ==> !white_space(s[b - 1]),
    decreases s.len(),
{
    if s.len() > 0 && white_space(s.last()) {
        let rest = s.drop_last();
        let b = lemma_trim_end_at(rest);
        assert(rest.take(b) =~= s.take(b));
        assert forall|i: int| b <= i < s.len() implies white_space(#[trigger] s[i]) by {
            if i < rest.len() {
                assert(s[i] == rest[i]);
            }
        }
        b
    } else {
        assert(s.take(s.len() as int) =~= s);
        s.len() as int
    }
}

/// Trimming takes off the white space at both ends, and nothing else.
pub proof fn law_trim_takes_off_white_space(s: Seq<char>)
    ensures
        exists|a: int, b: int| trimmed_between(s, trim(s), a, b),
        blank(s) <==> forall|i: int| 0 <= i < s.len() ==> white_space(#[trigger] s[i]),
{
    let a = lemma_trim_start_at(s);
    let rest = s.skip(a);
    let n = lemma_trim_end_at(rest);
    let b = a + n;
    assert(rest.take(n) =~= s.subrange(a, b));
    assert forall|i: int| b <= i < s.len() implies white_space(#[trigger] s[i]) by {
        assert(s[i] == rest[i - a]);
    }
    if a < b {
        assert(s[b - 1] == rest[n - 1]);
    }
    assert(trimmed_between(s, trim(s), a, b));
}

/// The identifier of an event is made of the identifier characters of the text
/// that its sender gave, in their order, the first 128 of them; there is none
/// exactly where the text holds no such character.
pub proof fn law_event_id_keeps_identifier_characters(s: Seq<char>)
    ensures
        ({
            let kept = s.filter(|c: char| identifier_char(c));
            &&& kept.len() == 0 ==> sanitized_id(Some(s)) is None
            &&& 0 < kept.len() <= 128 ==> sanitized_id(Some(s)) == Some(kept)
            &&& kept.len() > 128 ==> sanitized_id(Some(s)) == Some(kept.take(128))
        }),
        sanitized_id(None) is None,
{
    let keep = |c: char| identifier_char(c);
    law_trim_takes_off_white_space(s);
    let (a, b) = choose|a: int, b: int| trimmed_between(s, trim(s), a, b);
    let lead = s.take(a);
    let tail = s.skip(b);
    assert(s =~= lead + trim(s) + tail);
    Seq::filter_distributes_over_add(lead + trim(s), tail, keep);
    Seq::filter_distributes_over_add(lead, trim(s), keep);
    lemma_white_space_is_dropped(lead);
    lemma_white_space_is_dropped(tail);
    assert(s.filter(keep) =~= trim(s).filter(keep));
}

proof fn lemma_white_space_is_dropped(s: Seq<char>)
    requires
        forall|i: int| 0 <= i < s.len() ==> white_space(#[trigger] s[i]),
    ensures
        s.filter(|c: char| identifier_char(c)).len() == 0,
    decreases s.len(),
{
    reveal(Seq::filter);
    if s.len() > 0 {
        assert(white_space(s[s.len() - 1]));
        assert forall|i: int| 0 <= i < s.drop_last().len() implies white_space(
            #[trigger] s.drop_last()[i],
        ) by {
            assert(s.drop_last()[i] == s[i]);
        }
        lemma_white_space_is_dropped(s.drop_last());
    }
}

/// An identifier of an event that is one already is kept as it is.
pub proof fn law_event_ids_are_kept(s: Seq<char>)
    requires
        1 <= s.len() <= 128,
        identifier_text(s),
    ensures
        sanitized_id(Some(s)) == Some(s),
{
    lemma_identifier_text_is_trimmed(s);
    lemma_identifier_text_is_kept(s);
}

/// A normalised identifier has the characters of the trimmed text one for one, up
/// to the limit, with an underscore for each that identifiers do not keep; the
/// fallback stands for a text of which nothing is left.
pub proof fn law_identifier_follows_its_text(s: Seq<char>, max: nat, fallback: Seq<char>)
    ensures
        ({
            let t = trim(s);
            let r = normalized_identifier(s, max, fallback);
            &&& t.len() == 0 || max == 0 ==> r == fallback
            &&& t.len() > 0 && max > 0 ==> {
                &&& r.len() == if t.len() <= max {
                    t.len()
                } else {
                    max
                }
                &&& forall|i: int|
                    0 <= i < r.len() ==> #[trigger] r[i] == if identifier_char(t[i]) {
                        t[i]
                    } else {
                        '_'
                    }
            }
        }),
{
}

/// An identifier that is one already, and within its limit, is kept as it is.
pub proof fn law_identifiers_are_kept(s: Seq<char>, max: nat, fallback: Seq<char>)
    requires
        1 <= s.len() <= max,
        identifier_text(s),
    ensures
        normalized_identifier(s, max, fallback) == s,
{
    lemma_identifier_text_is_trimmed(s);
    assert(s.map_values(|c: char| identifier_or_underscore(c)) =~= s);
}

/// A legacy table is that of the plugin whose name stands before the ending; a
/// table with another ending names the plugin itself.
pub proof fn law_legacy_table_names_its_plugin(plugin: Seq<char>)
    ensures
        legacy_source(plugin + "_statistics_events"@) == plugin,
        legacy_source(plugin) == plugin || legacy_source(plugin) + "_statistics_events"@ == plugin,
{
    let suffix = "_statistics_events"@;
    let table = plugin + suffix;
    assert(table.subrange(table.len() - suffix.len(), table.len() as int) =~= suffix);
    assert(suffix.is_suffix_of(table));
    assert(table.take(plugin.len() as int) =~= plugin);
    if suffix.is_suffix_of(plugin) {
        assert(legacy_source(plugin) + suffix =~= plugin);
    }
}

/// The order of texts is that of their first differing characters; where there is
/// none the shorter text comes first.
pub proof fn law_text_order_is_lexicographic(
    start: Seq<char>,
    x: char,
    y: char,
    a: Seq<char>,
    b: Seq<char>,
)
    ensures
        x < y ==> text_before(start + seq![x] + a, start + seq![y] + b),
        x > y ==> !text_before(start + seq![x] + a, start + seq![y] + b),
        text_before(start, start + seq![x] + a),
        !text_before(start + seq![x] + a, start),
        !text_before(start, start),
    decreases start.len(),
{
    let p = start + seq![x] + a;
    let q = start + seq![y] + b;
    if start.len() == 0 {
        assert(p[0] == x && q[0] == y);
    } else {
        let rest = start.skip(1);
        law_text_order_is_lexicographic(rest, x, y, a, b);
        assert(p.skip(1) =~= rest + seq![x] + a);
        assert(q.skip(1) =~= rest + seq![y] + b);
        assert(p[0] == start[0] && q[0] == start[0]);
    }
}

/// The views of optional texts and of lists of texts are those of the texts
/// themselves.
pub proof fn law_text_views(value: String, slice: &str, list: Seq<String>, i: int)
    requires
        0 <= i < list.len(),
    ensures
        option_str(Some(slice)) == Some(slice@),
        option_text(Some(value)) == Some(value@),
        option_text(None) is None,
        option_str(None) is None,
        texts(list).len() == list.len(),
        texts(list)[i] == list[i]@,
{
}

/// White space are these characters and no others: the tab and the line and page
/// breaks, the spaces of every width, and the line and paragraph separators.
pub proof fn law_white_space_characters(c: char)
    ensures
        white_space(c) <==> ({
            ||| '\u{9}' <= c <= '\u{d}'
            ||| c == ' '
            ||| c == '\u{85}'
            ||| c == '\u{a0}'
            ||| c == '\u{1680}'
            ||| '\u{2000}' <= c <= '\u{200a}'
            ||| c == '\u{2028}'
            ||| c == '\u{2029}'
            ||| c == '\u{202f}'
            ||| c == '\u{205f}'
            ||| c == '\u{3000}'
        }),
{
}

/// A numeral below ten is its digit, a longer one that of its tens with the digit
/// of its ones behind; and a negative number has a `-` before it.
pub proof fn law_numerals_are_decimal(n: nat)
    ensures
        n < 10 ==> decimal(n).len() == 1 && decimal(n)[0] as int == '0' as int + n,
        n >= 10 ==> decimal(n).drop_last() == decimal(n / 10) && decimal(n).last() as int
            == '0' as int + n % 10,
        signed_decimal(n as int) == decimal(n),
        n > 0 ==> signed_decimal(-n) == seq!['-'] + decimal(n),
{
    if n >= 10 {
        assert(decimal(n).drop_last() =~= decimal(n / 10));
    }
}

} // verus!
