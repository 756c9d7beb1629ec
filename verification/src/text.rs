//! Text helpers over the characters of a string.

use vstd::prelude::*;

verus! {

/// `String::push` appends one character at the end.
pub assume_specification[ String::push ](string: &mut String, ch: char)
    ensures
        final(string)@ == old(string)@.push(ch),
;

/// What `str::to_lowercase` makes of a text.
pub uninterp spec fn lowercase(text: Seq<char>) -> Seq<char>;

/// A character, with ASCII letters in lower case.
pub open spec fn ascii_lower(c: char) -> char {
    if 'A' <= c && c <= 'Z' {
        (c as int + 32) as char
    } else {
        c
    }
}

/// A character, with ASCII letters in upper case.
pub open spec fn ascii_upper(c: char) -> char {
    if 'a' <= c && c <= 'z' {
        (c as int - 32) as char
    } else {
        c
    }
}

/// A text, with its ASCII letters in lower case.
pub open spec fn ascii_lowered(text: Seq<char>) -> Seq<char> {
    Seq::new(text.len(), |i: int| ascii_lower(text[i]))
}

/// A text, with its ASCII letters in upper case.
pub open spec fn ascii_uppered(text: Seq<char>) -> Seq<char> {
    Seq::new(text.len(), |i: int| ascii_upper(text[i]))
}

/// A text differs from itself in upper or in lower case only in the case of its ASCII letters.
pub proof fn ascii_case_is_folded(text: Seq<char>)
    ensures
        ascii_lowered(ascii_uppered(text)) == ascii_lowered(text),
        ascii_lowered(ascii_lowered(text)) == ascii_lowered(text),
{
    assert(ascii_lowered(ascii_uppered(text)) =~= ascii_lowered(text));
    assert(ascii_lowered(ascii_lowered(text)) =~= ascii_lowered(text));
}

/// A text has at least as many bytes as characters.
pub proof fn bytes_cover_characters(text: Seq<char>)
    ensures
        vstd::utf8::encode_utf8(text).len() >= text.len(),
    decreases text.len(),
{
    if text.len() > 0 {
        bytes_cover_characters(text.drop_first());
    }
}

/// Calls `str::to_lowercase`; the result is the text's lowercase equivalent, which the text
/// alone decides. Texts that differ only in the case of ASCII letters have the same one.
#[verifier::external_body]
pub(crate) fn to_lowercase(text: &str) -> (lowered: String)
    ensures
        lowered@ == lowercase(text@),
        forall|other: Seq<char>|
            ascii_lowered(other) == ascii_lowered(text@) ==> lowered@ == #[trigger] lowercase(
                other,
            ),
{
    text.to_lowercase()
}

/// The characters of a text, one by one.
pub fn characters(text: &str) -> (out: Vec<char>)
    ensures
        out@ == text@,
{
    let mut out: Vec<char> = Vec::new();
    for ch in iter: text.chars()
        invariant
            out@ == text@.take(iter.index() as int),
            iter.seq() == text@,
    {
        out.push(ch);
        assert(out@ == text@.take(iter.index() as int + 1));
    }
    assert(text@.take(text@.len() as int) == text@);
    out
}

/// The string made of the characters `from..to`.
pub fn slice(chars: &[char], from: usize, to: usize) -> (out: String)
    requires
        from <= to <= chars@.len(),
    ensures
        out@ == chars@.subrange(from as int, to as int),
{
    let mut out = String::new();
    let mut i: usize = from;
    while i < to
        invariant
            from <= i <= to <= chars@.len(),
            out@ == chars@.subrange(from as int, i as int),
        decreases to - i,
    {
        out.push(chars[i]);
        assert(chars@.subrange(from as int, i + 1) == chars@.subrange(from as int, i as int).push(
            chars@[i as int],
        ));
        i += 1;
    }
    out
}

/// The texts that a list of strings holds.
pub open spec fn views(list: Seq<String>) -> Seq<Seq<char>> {
    Seq::new(list.len(), |i: int| list[i]@)
}

/// The text that an optional string holds.
pub open spec fn opt(value: Option<String>) -> Option<Seq<char>> {
    match value {
        Some(held) => Some(held@),
        None => None,
    }
}

/// The text that an optional string slice holds.
pub open spec fn opt_str(value: Option<&str>) -> Option<Seq<char>> {
    match value {
        Some(held) => Some(held@),
        None => None,
    }
}

/// The text that is there, or else another.
pub open spec fn or_text(value: Option<Seq<char>>, fallback: Seq<char>) -> Seq<char> {
    match value {
        Some(held) => held,
        None => fallback,
    }
}

/// The characters with Unicode's `White_Space` property.
pub open spec fn is_space(c: char) -> bool {
    let code = c as u32;
    ||| 9 <= code <= 13
    ||| code == 32
    ||| code == 0x85
    ||| code == 0xA0
    ||| code == 0x1680
    ||| 0x2000 <= code <= 0x200A
    ||| code == 0x2028
    ||| code == 0x2029
    ||| code == 0x202F
    ||| code == 0x205F
    ||| code == 0x3000
}

/// A text without its leading white space.
pub open spec fn trimmed_front(s: Seq<char>) -> Seq<char>
    decreases s.len(),
{
    if s.len() > 0 && is_space(s[0]) {
        trimmed_front(s.skip(1))
    } else {
        s
    }
}

/// A text without its trailing white space.
pub open spec fn trimmed_back(s: Seq<char>) -> Seq<char>
    decreases s.len(),
{
    if s.len() > 0 && is_space(s.last()) {
        trimmed_back(s.drop_last())
    } else {
        s
    }
}

/// A text without the white space around it.
pub open spec fn trimmed(s: Seq<char>) -> Seq<char> {
    trimmed_back(trimmed_front(s))
}

/// A text without the characters `c` at its end.
pub open spec fn trimmed_end(s: Seq<char>, c: char) -> Seq<char>
    decreases s.len(),
{
    if s.len() > 0 && s.last() == c {
        trimmed_end(s.drop_last(), c)
    } else {
        s
    }
}

/// The parts of a text between the separators `c`; one part where there is none.
pub open spec fn split_on(s: Seq<char>, c: char) -> Seq<Seq<char>>
    decreases s.len(),
{
    if s.len() == 0 {
        seq![Seq::<char>::empty()]
    } else {
        let before = split_on(s.drop_last(), c);
        if s.last() == c {
            before.push(Seq::<char>::empty())
        } else {
            before.drop_last().push(before.last().push(s.last()))
        }
    }
}

/// What stands before and after the first `c` of a text.
pub open spec fn cut_at(s: Seq<char>, c: char) -> Option<(Seq<char>, Seq<char>)> {
    match s.index_of_first(c) {
        Some(i) => Some((s.take(i), s.skip(i + 1))),
        None => None,
    }
}

/// Whether `part` stands in `s` at position `i`.
pub open spec fn occurs_at(s: Seq<char>, part: Seq<char>, i: int) -> bool {
    0 <= i && i + part.len() <= s.len() && s.subrange(i, i + part.len()) == part
}

/// Whether `part` stands somewhere in `s`.
pub open spec fn occurs(s: Seq<char>, part: Seq<char>) -> bool {
    exists|i: int| occurs_at(s, part, i)
}

/// The texts one after the other, with the separator between them.
pub open spec fn joined(parts: Seq<Seq<char>>, separator: Seq<char>) -> Seq<char>
    decreases parts.len(),
{
    if parts.len() == 0 {
        Seq::empty()
    } else if parts.len() == 1 {
        parts[0]
    } else {
        joined(parts.drop_last(), separator) + separator + parts.last()
    }
}

/// The first `count` characters of a text, or the whole of a shorter one.
pub open spec fn shortened(s: Seq<char>, count: int) -> Seq<char> {
    if s.len() <= count {
        s
    } else {
        s.take(count)
    }
}

/// The character of a decimal digit.
pub open spec fn digit(d: nat) -> char {
    if d == 0 {
        '0'
    } else if d == 1 {
        '1'
    } else if d == 2 {
        '2'
    } else if d == 3 {
        '3'
    } else if d == 4 {
        '4'
    } else if d == 5 {
        '5'
    } else if d == 6 {
        '6'
    } else if d == 7 {
        '7'
    } else if d == 8 {
        '8'
    } else {
        '9'
    }
}

/// The decimal digits of a number, without leading zeros.
pub open spec fn digits(n: nat) -> Seq<char>
    decreases n,
{
    if n < 10 {
        seq![digit(n)]
    } else {
        digits(n / 10).push(digit(n % 10))
    }
}

/// The decimal text of an integer, with a minus sign before a negative one.
pub open spec fn signed_digits(n: int) -> Seq<char> {
    if n < 0 {
        seq!['-'] + digits((-n) as nat)
    } else {
        digits(n as nat)
    }
}

/// Whether a character is one of `0` to `9`.
pub open spec fn is_digit(c: char) -> bool {
    '0' <= c && c <= '9'
}

/// The number that a run of decimal digits stands for.
pub open spec fn digits_value(s: Seq<char>) -> nat
    decreases s.len(),
{
    if s.len() == 0 {
        0
    } else {
        digits_value(s.drop_last()) * 10 + (s.last() as nat - '0' as nat) as nat
    }
}

/// A text without one leading plus sign.
pub open spec fn unsigned_part(s: Seq<char>) -> Seq<char> {
    if s.len() > 0 && s[0] == '+' {
        s.skip(1)
    } else {
        s
    }
}

/// The number that a text stands for: digits, after at most one plus sign.
pub open spec fn parsed(s: Seq<char>) -> Option<nat> {
    let body = unsigned_part(s);
    if body.len() > 0 && (forall|i: int| 0 <= i < body.len() ==> is_digit(#[trigger] body[i])) {
        Some(digits_value(body))
    } else {
        None
    }
}

/// As `parsed`, for the numbers up to `max`.
pub open spec fn parsed_within(s: Seq<char>, max: nat) -> Option<nat> {
    match parsed(s) {
        Some(v) => if v <= max {
            Some(v)
        } else {
            None
        },
        None => None,
    }
}

/// Whether two texts are the same.
pub fn same(left: &str, right: &str) -> (r: bool)
    ensures
        r == (left@ == right@),
{
    let a = characters(left);
    let b = characters(right);
    if a.len() != b.len() {
        return false;
    }
    let mut i: usize = 0;
    while i < a.len()
        invariant
            a@ == left@,
            b@ == right@,
            a@.len() == b@.len(),
            i <= a@.len(),
            forall|j: int| 0 <= j < i ==> a@[j] == b@[j],
        decreases a@.len() - i,
    {
        if a[i] != b[i] {
            return false;
        }
        i += 1;
    }
    assert(left@ == right@);
    true
}

/// Two texts, one after the other.
pub fn concat(first: &str, second: &str) -> (r: String)
    ensures
        r@ == first@ + second@,
{
    let mut r = first.to_owned();
    r.append(second);
    r
}

/// Three texts, one after the other.
pub fn concat3(first: &str, second: &str, third: &str) -> (r: String)
    ensures
        r@ == first@ + second@ + third@,
{
    let mut r = first.to_owned();
    r.append(second);
    r.append(third);
    r
}

/// An optional string of its own.
pub fn owned(value: Option<&str>) -> (r: Option<String>)
    ensures
        opt(r) == opt_str(value),
{
    match value {
        Some(held) => Some(held.to_owned()),
        None => None,
    }
}

/// The slice of an optional string.
pub fn as_slice<'a>(value: &'a Option<String>) -> (r: Option<&'a str>)
    ensures
        opt_str(r) == opt(*value),
{
    match value {
        Some(held) => Some(held.as_str()),
        None => None,
    }
}

/// A copy of an optional string.
pub fn copied(value: &Option<String>) -> (r: Option<String>)
    ensures
        r == *value,
{
    match value {
        Some(held) => Some(held.clone()),
        None => None,
    }
}

/// A copy of a list of strings.
pub fn copies(list: &[String]) -> (r: Vec<String>)
    ensures
        r@ == list@,
{
    let mut out: Vec<String> = Vec::new();
    let mut i: usize = 0;
    while i < list.len()
        invariant
            i <= list@.len(),
            out@ == list@.take(i as int),
        decreases list@.len() - i,
    {
        out.push(list[i].clone());
        assert(out@ == list@.take(i + 1));
        i += 1;
    }
    assert(list@.take(list@.len() as int) == list@);
    out
}

/// Whether a character is white space.
pub fn whitespace(c: char) -> (r: bool)
    ensures
        r == is_space(c),
{
    let code: u32 = c as u32;
    (9 <= code && code <= 13) || code == 32 || code == 0x85 || code == 0xA0 || code == 0x1680 || (
    0x2000 <= code && code <= 0x200A) || code == 0x2028 || code == 0x2029 || code == 0x202F || code
        == 0x205F || code == 0x3000
}

/// The text without the white space around it.
pub fn trim<'a>(text: &'a str) -> (r: &'a str)
    ensures
        r@ == trimmed(text@),
{
    let chars = characters(text);
    let mut from: usize = 0;
    assert(text@.skip(0) == text@);
    while from < chars.len() && whitespace(chars[from])
        invariant
            chars@ == text@,
            from <= chars@.len(),
            trimmed_front(text@) == trimmed_front(text@.skip(from as int)),
        decreases chars@.len() - from,
    {
        assert(text@.skip(from as int).skip(1) == text@.skip(from + 1));
        from += 1;
    }
    let ghost front = text@.skip(from as int);
    assert(trimmed_front(text@) == front);
    let mut to: usize = chars.len();
    assert(front.take(front.len() as int) == front);
    while to > from && whitespace(chars[to - 1])
        invariant
            chars@ == text@,
            front == text@.skip(from as int),
            from <= to <= chars@.len(),
            trimmed_back(front) == trimmed_back(front.take(to - from)),
        decreases to,
    {
        assert(front.take(to - from).drop_last() == front.take(to - from - 1));
        assert(front.take(to - from).last() == chars@[to - 1]);
        to -= 1;
    }
    assert(trimmed_back(front) == front.take(to - from));
    assert(front.take(to - from) == text@.subrange(from as int, to as int));
    text.substring_char(from, to)
}

/// The text without the characters `c` at its end.
pub fn trim_end_matches<'a>(text: &'a str, c: char) -> (r: &'a str)
    ensures
        r@ == trimmed_end(text@, c),
{
    let chars = characters(text);
    let mut to: usize = chars.len();
    assert(text@.take(text@.len() as int) == text@);
    while to > 0 && chars[to - 1] == c
        invariant
            chars@ == text@,
            to <= chars@.len(),
            trimmed_end(text@, c) == trimmed_end(text@.take(to as int), c),
        decreases to,
    {
        assert(text@.take(to as int).drop_last() == text@.take(to - 1));
        assert(text@.take(to as int).last() == chars@[to - 1]);
        to -= 1;
    }
    assert(text@.take(to as int) == text@.subrange(0, to as int));
    text.substring_char(0, to)
}

/// Whether `part` stands in `chars` at position `at`.
pub fn matches_at(chars: &[char], part: &[char], at: usize) -> (r: bool)
    ensures
        r == occurs_at(chars@, part@, at as int),
{
    if at > chars.len() || part.len() > chars.len() - at {
        return false;
    }
    let count: usize = chars.len();
    let mut i: usize = 0;
    while i < part.len()
        invariant
            i <= part@.len(),
            at + part@.len() <= chars@.len(),
            count == chars@.len(),
            forall|j: int| 0 <= j < i ==> chars@[at + j] == part@[j],
        decreases part@.len() - i,
    {
        if chars[at + i] != part[i] {
            assert(chars@.subrange(at as int, at + part@.len())[i as int] != part@[i as int]);
            return false;
        }
        i += 1;
    }
    assert(chars@.subrange(at as int, at + part@.len()) == part@);
    true
}

/// Whether the text begins with `prefix`.
pub fn starts_with(text: &str, prefix: &str) -> (r: bool)
    ensures
        r == prefix@.is_prefix_of(text@),
{
    let chars = characters(text);
    let part = characters(prefix);
    let r = matches_at(&chars, &part, 0);
    proof {
        if r {
            assert(text@.subrange(0, prefix@.len() as int) == prefix@);
        }
        if prefix@.is_prefix_of(text@) {
            assert(text@.subrange(0, prefix@.len() as int) == prefix@);
        }
    }
    r
}

/// What follows `prefix`, where the text begins with it.
pub fn strip_prefix<'a>(text: &'a str, prefix: &str) -> (r: Option<&'a str>)
    ensures
        r is Some == prefix@.is_prefix_of(text@),
        r is Some ==> r->0@ == text@.skip(prefix@.len() as int),
{
    if starts_with(text, prefix) {
        let from: usize = characters(prefix).len();
        let to: usize = characters(text).len();
        assert(text@.subrange(from as int, to as int) == text@.skip(from as int));
        Some(text.substring_char(from, to))
    } else {
        None
    }
}

/// What stands before `suffix`, where the text ends with it.
pub fn strip_suffix<'a>(text: &'a str, suffix: &str) -> (r: Option<&'a str>)
    ensures
        r is Some == suffix@.is_suffix_of(text@),
        r is Some ==> r->0@ == text@.take(text@.len() - suffix@.len()),
{
    let chars = characters(text);
    let part = characters(suffix);
    if part.len() > chars.len() {
        return None;
    }
    let at: usize = chars.len() - part.len();
    let ghost tail = text@.subrange(at as int, text@.len() as int);
    assert(suffix@.is_suffix_of(text@) == (tail == suffix@));
    if matches_at(&chars, &part, at) {
        assert(text@.subrange(0, at as int) == text@.take(at as int));
        Some(text.substring_char(0, at))
    } else {
        None
    }
}

/// Whether the text ends with `suffix`.
pub fn ends_with(text: &str, suffix: &str) -> (r: bool)
    ensures
        r == suffix@.is_suffix_of(text@),
{
    strip_suffix(text, suffix).is_some()
}

/// Whether `part` stands somewhere in the text.
pub fn contains(text: &str, part: &str) -> (r: bool)
    ensures
        r == occurs(text@, part@),
{
    let chars = characters(text);
    let wanted = characters(part);
    let mut at: usize = 0;
    while at <= chars.len()
        invariant
            chars@ == text@,
            wanted@ == part@,
            at <= chars@.len() + 1,
            forall|j: int| 0 <= j < at ==> !occurs_at(text@, part@, j),
        decreases chars@.len() + 1 - at,
    {
        if matches_at(&chars, &wanted, at) {
            assert(occurs_at(text@, part@, at as int));
            return true;
        }
        if at == chars.len() {
            assert(forall|j: int| occurs_at(text@, part@, j) ==> j <= text@.len());
            return false;
        }
        at += 1;
    }
    false
}

/// The parts of the text between the separators `c`.
pub fn split(text: &str, c: char) -> (parts: Vec<String>)
    ensures
        views(parts@) == split_on(text@, c),
{
    let chars = characters(text);
    let mut parts: Vec<String> = Vec::new();
    let mut current = String::new();
    let mut i: usize = 0;
    assert(views(parts@).push(current@) == split_on(text@.take(0), c));
    while i < chars.len()
        invariant
            chars@ == text@,
            i <= chars@.len(),
            views(parts@).push(current@) == split_on(text@.take(i as int), c),
        decreases chars@.len() - i,
    {
        let ghost before = views(parts@).push(current@);
        assert(text@.take(i + 1).drop_last() == text@.take(i as int));
        assert(text@.take(i + 1).last() == chars@[i as int]);
        if chars[i] == c {
            parts.push(current);
            current = String::new();
            assert(views(parts@) == before);
        } else {
            assert(before.drop_last() == views(parts@));
            assert(before.last() == current@);
            current.push(chars[i]);
        }
        i += 1;
    }
    assert(text@.take(text@.len() as int) == text@);
    let ghost before = views(parts@).push(current@);
    parts.push(current);
    assert(views(parts@) == before);
    parts
}

/// Every text has at least one part.
pub proof fn split_is_never_empty(s: Seq<char>, c: char)
    ensures
        split_on(s, c).len() > 0,
    decreases s.len(),
{
    if s.len() > 0 {
        split_is_never_empty(s.drop_last(), c);
    }
}

/// What stands before and after the first `c` of the text.
pub fn split_once(text: &str, c: char) -> (r: Option<(String, String)>)
    ensures
        match r {
            Some((head, tail)) => cut_at(text@, c) == Some((head@, tail@)),
            None => cut_at(text@, c) is None,
        },
{
    let chars = characters(text);
    let mut i: usize = 0;
    while i < chars.len()
        invariant
            chars@ == text@,
            i <= chars@.len(),
            forall|j: int| 0 <= j < i ==> text@[j] != c,
        decreases chars@.len() - i,
    {
        if chars[i] == c {
            proof {
                text@.index_of_first_ensures(c);
                assert(text@.contains(c));
                assert(text@.index_of_first(c) == Some(i as int));
                assert(text@.take(i as int) == text@.subrange(0, i as int));
                assert(text@.skip(i + 1) == text@.subrange(i + 1, text@.len() as int));
            }
            return Some((slice(&chars, 0, i), slice(&chars, i + 1, chars.len())));
        }
        i += 1;
    }
    proof {
        text@.index_of_first_ensures(c);
        assert(!text@.contains(c));
    }
    None
}

/// The first `count` characters of the text.
pub fn take(text: &str, count: usize) -> (r: String)
    ensures
        r@ == shortened(text@, count as int),
{
    let chars = characters(text);
    if chars.len() <= count {
        text.to_owned()
    } else {
        assert(text@.subrange(0, count as int) == text@.take(count as int));
        slice(&chars, 0, count)
    }
}

/// The texts one after the other, with the separator between them.
pub fn join(parts: &[String], separator: &str) -> (r: String)
    ensures
        r@ == joined(views(parts@), separator@),
{
    let mut out = String::new();
    let mut i: usize = 0;
    while i < parts.len()
        invariant
            i <= parts@.len(),
            out@ == joined(views(parts@).take(i as int), separator@),
        decreases parts@.len() - i,
    {
        let ghost next = views(parts@).take(i + 1);
        assert(next.drop_last() == views(parts@).take(i as int));
        if i > 0 {
            out.append(separator);
        } else {
            assert(out@ + parts@[0]@ == parts@[0]@);
        }
        out.append(parts[i].as_str());
        i += 1;
    }
    assert(views(parts@).take(parts@.len() as int) == views(parts@));
    out
}

/// The character of a decimal digit.
fn digit_character(d: u128) -> (c: char)
    requires
        d < 10,
    ensures
        c == digit(d as nat),
{
    if d == 0 {
        '0'
    } else if d == 1 {
        '1'
    } else if d == 2 {
        '2'
    } else if d == 3 {
        '3'
    } else if d == 4 {
        '4'
    } else if d == 5 {
        '5'
    } else if d == 6 {
        '6'
    } else if d == 7 {
        '7'
    } else if d == 8 {
        '8'
    } else {
        '9'
    }
}

/// The decimal text of a number.
pub fn decimal(n: u128) -> (r: String)
    ensures
        r@ == digits(n as nat),
    decreases n,
{
    if n < 10 {
        let mut out = String::new();
        out.push(digit_character(n));
        out
    } else {
        let mut out = decimal(n / 10);
        out.push(digit_character(n % 10));
        out
    }
}

/// The decimal text of an integer.
pub fn signed_decimal(n: i64) -> (r: String)
    ensures
        r@ == signed_digits(n as int),
{
    if n < 0 {
        let number = decimal((-(n as i128)) as u128);
        assert(seq!['-'] == "-"@) by {
            reveal_strlit("-");
        }
        concat("-", number.as_str())
    } else {
        decimal(n as u128)
    }
}

/// The value of a digit string is at least that of each of its prefixes.
proof fn lemma_prefix_value(s: Seq<char>, i: int)
    requires
        0 <= i <= s.len(),
    ensures
        digits_value(s.take(i)) <= digits_value(s),
    decreases s.len() - i,
{
    if i == s.len() {
        assert(s.take(i) == s);
    } else {
        lemma_prefix_value(s, i + 1);
        assert(s.take(i + 1).drop_last() == s.take(i));
        assert(digits_value(s.take(i + 1)) >= digits_value(s.take(i)));
    }
}

/// The number that the text stands for, where it is one and does not exceed `max`.
pub fn parse_within(text: &str, max: u64) -> (r: Option<u64>)
    ensures
        match r {
            Some(v) => parsed_within(text@, max as nat) == Some(v as nat),
            None => parsed_within(text@, max as nat) is None,
        },
{
    let chars = characters(text);
    let start: usize = if chars.len() > 0 && chars[0] == '+' {
        1
    } else {
        0
    };
    let ghost body = unsigned_part(text@);
    assert(body == text@.skip(start as int));
    if start == chars.len() {
        return None;
    }
    let mut value: u128 = 0;
    let mut i: usize = start;
    assert(body.take(0) == Seq::<char>::empty());
    while i < chars.len()
        invariant
            chars@ == text@,
            body == text@.skip(start as int),
            body == unsigned_part(text@),
            start <= i <= chars@.len(),
            value == digits_value(body.take(i - start)),
            value <= max,
            forall|j: int| 0 <= j < i - start ==> is_digit(#[trigger] body[j]),
        decreases chars@.len() - i,
    {
        let c = chars[i];
        assert(body[i - start] == c);
        if c < '0' || c > '9' {
            return None;
        }
        let d: u32 = (c as u32) - ('0' as u32);
        proof {
            assert(body.take(i - start + 1).drop_last() == body.take(i - start));
            assert(body.take(i - start + 1).last() == c);
        }
        value = value * 10 + d as u128;
        assert(value == digits_value(body.take(i - start + 1)));
        if value > max as u128 {
            proof {
                lemma_prefix_value(body, i - start + 1);
            }
            return None;
        }
        i += 1;
    }
    assert(body.take(body.len() as int) == body);
    Some(value as u64)
}

/// The length of the text in bytes of UTF-8.
pub fn byte_len(text: &str) -> (r: usize)
    ensures
        r == vstd::utf8::encode_utf8(text@).len(),
{
    text.as_bytes().len()
}

/// Whether one text stands before another in the order of their characters.
pub open spec fn precedes(a: Seq<char>, b: Seq<char>) -> bool
    decreases a.len(),
{
    if b.len() == 0 {
        false
    } else if a.len() == 0 {
        true
    } else {
        a[0] < b[0] || (a[0] == b[0] && precedes(a.skip(1), b.skip(1)))
    }
}

/// Whether one text stands before another in the order of their characters.
pub fn before(left: &str, right: &str) -> (r: bool)
    ensures
        r == precedes(left@, right@),
{
    let a = characters(left);
    let b = characters(right);
    let mut i: usize = 0;
    assert(left@.skip(0) == left@);
    assert(right@.skip(0) == right@);
    while i < a.len() && i < b.len()
        invariant
            a@ == left@,
            b@ == right@,
            i <= a@.len(),
            i <= b@.len(),
            precedes(left@, right@) == precedes(left@.skip(i as int), right@.skip(i as int)),
        decreases a@.len() - i,
    {
        assert(left@.skip(i as int).skip(1) == left@.skip(i + 1));
        assert(right@.skip(i as int).skip(1) == right@.skip(i + 1));
        if a[i] < b[i] {
            return true;
        }
        if a[i] > b[i] {
            return false;
        }
        i += 1;
    }
    i < b.len()
}

/// No text stands before itself.
pub proof fn order_is_irreflexive(a: Seq<char>)
    ensures
        !precedes(a, a),
    decreases a.len(),
{
    if a.len() > 0 {
        order_is_irreflexive(a.skip(1));
    }
}

/// The order of texts is transitive.
pub proof fn order_is_transitive(a: Seq<char>, b: Seq<char>, c: Seq<char>)
    requires
        precedes(a, b),
        precedes(b, c),
    ensures
        precedes(a, c),
    decreases a.len(),
{
    if a.len() > 0 && b.len() > 0 && c.len() > 0 {
        if a[0] == b[0] && b[0] == c[0] {
            order_is_transitive(a.skip(1), b.skip(1), c.skip(1));
        }
    }
}

/// Of two different texts, one stands before the other.
pub proof fn order_is_total(a: Seq<char>, b: Seq<char>)
    requires
        a != b,
    ensures
        precedes(a, b) || precedes(b, a),
    decreases a.len(),
{
    if a.len() == 0 || b.len() == 0 {
        assert(a =~= b || a.len() > 0 || b.len() > 0);
    } else if a[0] == b[0] {
        if a.skip(1) == b.skip(1) {
            assert(a =~= seq![a[0]] + a.skip(1));
            assert(b =~= seq![b[0]] + b.skip(1));
        }
        order_is_total(a.skip(1), b.skip(1));
    }
}

/// Whether texts stand in order, each once.
pub open spec fn is_ordered(list: Seq<Seq<char>>) -> bool {
    forall|i: int, j: int|
        0 <= i < j < list.len() ==> precedes(#[trigger] list[i], #[trigger] list[j])
}

/// Puts a text into its place among ordered ones, unless it is there already.
fn insert_ordered(list: &mut Vec<String>, item: String)
    requires
        is_ordered(views(old(list)@)),
    ensures
        is_ordered(views(final(list)@)),
        forall|t: Seq<char>| #[trigger]
            views(final(list)@).contains(t) <==> views(old(list)@).contains(t) || t == item@,
{
    let ghost before_views = views(list@);
    let mut i: usize = 0;
    while i < list.len() && before(list[i].as_str(), item.as_str())
        invariant
            views(list@) == before_views,
            i <= list@.len(),
            forall|j: int| 0 <= j < i ==> precedes(#[trigger] before_views[j], item@),
        decreases list@.len() - i,
    {
        i += 1;
    }
    let ghost n = before_views.len() as int;
    if i < list.len() && same(list[i].as_str(), item.as_str()) {
        assert(before_views[i as int] == item@);
        return;
    }
    list.insert(i, item);
    proof {
        let after = views(list@);
        assert(after == before_views.insert(i as int, item@));
        assert forall|j: int| i <= j < n implies precedes(item@, #[trigger] before_views[j]) by {
            assert(before_views[i as int] != item@);
            order_is_total(before_views[i as int], item@);
            if j > i {
                assert(precedes(before_views[i as int], before_views[j]));
                order_is_transitive(item@, before_views[i as int], before_views[j]);
            }
        }
        assert forall|a: int, b: int| 0 <= a < b < after.len() implies precedes(
            #[trigger] after[a],
            #[trigger] after[b],
        ) by {
            let x = if a < i { a } else { a - 1 };
            let y = if b < i { b } else { b - 1 };
            if a == i {
                assert(after[b] == before_views[y]);
            } else if b == i {
                assert(after[a] == before_views[x]);
            } else {
                assert(after[a] == before_views[x]);
                assert(after[b] == before_views[y]);
            }
        }
        assert forall|t: Seq<char>| #[trigger] after.contains(t) <==> before_views.contains(t) || t
            == item@ by {
            if before_views.contains(t) {
                let j = choose|j: int| 0 <= j < n && before_views[j] == t;
                let k = if j < i { j } else { j + 1 };
                assert(after[k] == t);
            }
            if t == item@ {
                assert(after[i as int] == t);
            }
            if after.contains(t) {
                let k = choose|k: int| 0 <= k < after.len() && after[k] == t;
                if k != i {
                    let j = if k < i { k } else { k - 1 };
                    assert(before_views[j] == t);
                }
            }
        }
    }
}

/// The texts of a list, trimmed, in order, and each once.
pub fn ordered_trimmed(list: &[String]) -> (r: Vec<String>)
    ensures
        is_ordered(views(r@)),
        forall|t: Seq<char>| #[trigger]
            views(r@).contains(t) <==> exists|i: int|
                0 <= i < list@.len() && trimmed((#[trigger] list@[i])@) == t,
        list@.len() > 0 ==> r@.len() > 0,
{
    let mut out: Vec<String> = Vec::new();
    let mut i: usize = 0;
    while i < list.len()
        invariant
            i <= list@.len(),
            is_ordered(views(out@)),
            forall|t: Seq<char>| #[trigger]
                views(out@).contains(t) <==> exists|j: int|
                    0 <= j < i && trimmed((#[trigger] list@[j])@) == t,
        decreases list@.len() - i,
    {
        let ghost earlier = views(out@);
        let item = trim(list[i].as_str()).to_owned();
        insert_ordered(&mut out, item);
        proof {
            assert forall|t: Seq<char>| #[trigger]
                views(out@).contains(t) <==> exists|j: int|
                    0 <= j < i + 1 && trimmed((#[trigger] list@[j])@) == t by {
                if earlier.contains(t) {
                    let j = choose|j: int| 0 <= j < i && trimmed((#[trigger] list@[j])@) == t;
                    assert(trimmed(list@[j]@) == t);
                }
                if t == item@ {
                    assert(trimmed(list@[i as int]@) == t);
                }
                if exists|j: int| 0 <= j < i + 1 && trimmed((#[trigger] list@[j])@) == t {
                    let j = choose|j: int| 0 <= j < i + 1 && trimmed((#[trigger] list@[j])@) == t;
                    if j < i {
                        assert(earlier.contains(t));
                    }
                }
            }
        }
        i += 1;
    }
    proof {
        if list@.len() > 0 {
            assert(trimmed(list@[0]@) == trimmed(list@[0]@));
            assert(views(out@).contains(trimmed(list@[0]@)));
        }
    }
    out
}

/// Where the white space in front of a text ends.
proof fn lemma_trimmed_front(s: Seq<char>) -> (from: int)
    ensures
        0 <= from <= s.len(),
        trimmed_front(s) == s.skip(from),
        forall|i: int| 0 <= i < from ==> is_space(#[trigger] s[i]),
        from < s.len() ==> !is_space(s[from]),
    decreases s.len(),
{
    if s.len() > 0 && is_space(s[0]) {
        let rest = lemma_trimmed_front(s.skip(1));
        assert(s.skip(1).skip(rest) == s.skip(rest + 1));
        assert forall|i: int| 0 <= i < rest + 1 implies is_space(#[trigger] s[i]) by {
            if i > 0 {
                assert(s.skip(1)[i - 1] == s[i]);
            }
        }
        rest + 1
    } else {
        assert(s.skip(0) == s);
        0
    }
}

/// Where the white space at the end of a text begins.
proof fn lemma_trimmed_back(s: Seq<char>) -> (to: int)
    ensures
        0 <= to <= s.len(),
        trimmed_back(s) == s.take(to),
        forall|i: int| to <= i < s.len() ==> is_space(#[trigger] s[i]),
        to > 0 ==> !is_space(s[to - 1]),
    decreases s.len(),
{
    if s.len() > 0 && is_space(s.last()) {
        let to = lemma_trimmed_back(s.drop_last());
        assert(s.drop_last().take(to) == s.take(to));
        assert forall|i: int| to <= i < s.len() implies is_space(#[trigger] s[i]) by {
            if i < s.len() - 1 {
                assert(s.drop_last()[i] == s[i]);
            }
        }
        to
    } else {
        assert(s.take(s.len() as int) == s);
        s.len() as int
    }
}

/// The trimmed text is the part of a text between the white space around it: nothing else is cut,
/// and it neither begins nor ends with white space.
pub proof fn trimmed_is_what_lies_between(s: Seq<char>) -> (bounds: (int, int))
    ensures
        0 <= bounds.0 <= bounds.1 <= s.len(),
        trimmed(s) == s.subrange(bounds.0, bounds.1),
        forall|i: int| 0 <= i < bounds.0 ==> is_space(#[trigger] s[i]),
        forall|i: int| bounds.1 <= i < s.len() ==> is_space(#[trigger] s[i]),
        bounds.0 < bounds.1 ==> !is_space(s[bounds.0]) && !is_space(s[bounds.1 - 1]),
{
    let from = lemma_trimmed_front(s);
    let front = s.skip(from);
    let to = lemma_trimmed_back(front);
    assert(front.take(to) == s.subrange(from, from + to));
    assert forall|i: int| from + to <= i < s.len() implies is_space(#[trigger] s[i]) by {
        assert(front[i - from] == s[i]);
    }
    (from, from + to)
}

/// Trimming cuts white space only, and all of it, from both ends.
pub proof fn trimming_cuts_white_space_only(text: &str, r: &str) -> (bounds: (int, int))
    requires
        call_ensures(trim, (text,), r),
    ensures
        0 <= bounds.0 <= bounds.1 <= text@.len(),
        r@ == text@.subrange(bounds.0, bounds.1),
        forall|i: int| 0 <= i < bounds.0 ==> is_space(#[trigger] text@[i]),
        forall|i: int| bounds.1 <= i < text@.len() ==> is_space(#[trigger] text@[i]),
        r@.len() > 0 ==> !is_space(r@[0]) && !is_space(r@.last()),
{
    trimmed_is_what_lies_between(text@)
}

/// White space is what Unicode calls so.
pub proof fn white_space_is_unicodes(c: char, r: bool)
    requires
        call_ensures(whitespace, (c,), r),
    ensures
        r == is_space(c),
        is_space(c) <==> {
            let code = c as u32;
            9 <= code <= 13 || code == 0x20 || code == 0x85 || code == 0xA0 || code == 0x1680
                || 0x2000 <= code <= 0x200A || code == 0x2028 || code == 0x2029 || code == 0x202F
                || code == 0x205F || code == 0x3000
        },
{
}

/// Where the run of a character at the end of a text begins.
pub proof fn trimmed_end_is_what_lies_before(s: Seq<char>, c: char) -> (to: int)
    ensures
        0 <= to <= s.len(),
        trimmed_end(s, c) == s.take(to),
        forall|i: int| to <= i < s.len() ==> #[trigger] s[i] == c,
        to > 0 ==> s[to - 1] != c,
    decreases s.len(),
{
    if s.len() > 0 && s.last() == c {
        let to = trimmed_end_is_what_lies_before(s.drop_last(), c);
        assert(s.drop_last().take(to) == s.take(to));
        assert forall|i: int| to <= i < s.len() implies #[trigger] s[i] == c by {
            if i < s.len() - 1 {
                assert(s.drop_last()[i] == s[i]);
            }
        }
        to
    } else {
        assert(s.take(s.len() as int) == s);
        s.len() as int
    }
}

/// Trimming a character from the end of a text cuts that character only, and all of its run.
pub proof fn trimming_the_end_cuts_one_run(text: &str, c: char, r: &str) -> (to: int)
    requires
        call_ensures(trim_end_matches, (text, c), r),
    ensures
        0 <= to <= text@.len(),
        r@ == text@.take(to),
        forall|i: int| to <= i < text@.len() ==> #[trigger] text@[i] == c,
        to > 0 ==> text@[to - 1] != c,
{
    trimmed_end_is_what_lies_before(text@, c)
}

/// The parts of a text, put together again with the separator between them, are the text, and no
/// part holds the separator.
pub proof fn parts_make_up_the_whole(s: Seq<char>, c: char)
    ensures
        split_on(s, c).len() > 0,
        joined(split_on(s, c), seq![c]) == s,
        forall|i: int| 0 <= i < split_on(s, c).len() ==> !(#[trigger] split_on(s, c)[i]).contains(c),
    decreases s.len(),
{
    if s.len() > 0 {
        let shorter = s.drop_last();
        parts_make_up_the_whole(shorter, c);
        let before = split_on(shorter, c);
        let after = split_on(s, c);
        if s.last() == c {
            assert(after.drop_last() == before);
            assert(joined(after, seq![c]) == joined(before, seq![c]) + seq![c] + Seq::<
                char,
            >::empty());
            assert(joined(after, seq![c]) =~= s);
        } else {
            assert(after.drop_last() == before.drop_last());
            assert(after.last() == before.last().push(s.last()));
            if before.len() > 1 {
                assert(joined(after, seq![c]) =~= joined(before, seq![c]).push(s.last()));
            } else {
                assert(joined(after, seq![c]) =~= joined(before, seq![c]).push(s.last()));
            }
            assert(joined(after, seq![c]) =~= s);
            assert forall|i: int| 0 <= i < after.len() implies !(#[trigger] after[i]).contains(
                c,
            ) by {
                if i < after.len() - 1 {
                    assert(after[i] == before[i]);
                } else {
                    assert(!before.last().contains(c));
                    if after[i].contains(c) {
                        let k = choose|k: int| 0 <= k < after[i].len() && after[i][k] == c;
                        if k < before.last().len() {
                            assert(before.last()[k] == c);
                        }
                    }
                }
            }
        }
    } else {
        assert(joined(split_on(s, c), seq![c]) =~= s);
    }
}

/// Splitting loses nothing but the separators, and leaves none.
pub proof fn splitting_loses_only_separators(text: &str, c: char, r: Vec<String>)
    requires
        call_ensures(split, (text, c), r),
    ensures
        r@.len() > 0,
        joined(views(r@), seq![c]) == text@,
        forall|i: int| 0 <= i < r@.len() ==> !(#[trigger] r@[i])@.contains(c),
{
    parts_make_up_the_whole(text@, c);
    assert forall|i: int| 0 <= i < r@.len() implies !(#[trigger] r@[i])@.contains(c) by {
        assert(views(r@)[i] == r@[i]@);
    }
}

/// A text is cut at its first separator, and only there; without one it is not cut.
pub proof fn cutting_is_at_the_first_separator(
    text: &str,
    c: char,
    r: Option<(String, String)>,
)
    requires
        call_ensures(split_once, (text, c), r),
    ensures
        r is Some <==> text@.contains(c),
        r matches Some(parts) ==> parts.0@ + seq![c] + parts.1@ == text@ && !parts.0@.contains(c),
{
    text@.index_of_first_ensures(c);
    if r is Some {
        let i = text@.index_of_first(c)->0;
        let parts = r->0;
        assert(parts.0@ + seq![c] + parts.1@ =~= text@);
        assert forall|k: int| 0 <= k < parts.0@.len() implies parts.0@[k] != c by {
            assert(parts.0@[k] == text@[k]);
        }
    }
}

/// A text is shortened from its end, and only as far as needed.
pub proof fn shortening_keeps_the_start(text: &str, count: usize, r: String)
    requires
        call_ensures(take, (text, count), r),
    ensures
        r@.is_prefix_of(text@),
        r@.len() == if text@.len() < count { text@.len() as int } else { count as int },
{
}

/// Joined texts stand one after the other, with the separator between every two of them.
pub proof fn joining_separates_every_two(
    parts: &[String],
    more: &[String],
    separator: &str,
    last: String,
    r: String,
    s: String,
)
    requires
        call_ensures(join, (parts, separator), r),
        call_ensures(join, (more, separator), s),
        more@ == parts@.push(last),
    ensures
        parts@.len() == 0 ==> r@.len() == 0 && s@ == last@,
        parts@.len() > 0 ==> s@ == r@ + separator@ + last@,
{
    assert(views(more@).drop_last() == views(parts@));
    assert(views(more@).last() == last@);
}

/// The digits of a number stand for it, without leading zeros.
pub proof fn digits_stand_for_their_number(n: nat)
    ensures
        digits(n).len() > 0,
        digits_value(digits(n)) == n,
        forall|i: int| 0 <= i < digits(n).len() ==> is_digit(#[trigger] digits(n)[i]),
        n > 0 ==> digits(n)[0] != '0',
    decreases n,
{
    reveal_with_fuel(digits_value, 2);
    if n < 10 {
        assert(digits(n).drop_last() == Seq::<char>::empty());
    } else {
        digits_stand_for_their_number(n / 10);
        assert(digits(n).drop_last() == digits(n / 10));
        assert forall|i: int| 0 <= i < digits(n).len() implies is_digit(
            #[trigger] digits(n)[i],
        ) by {
            if i < digits(n).len() - 1 {
                assert(digits(n)[i] == digits(n / 10)[i]);
            }
        }
        assert(digits(n)[0] == digits(n / 10)[0]);
    }
}

/// What is written as a number is read as the same number.
pub proof fn numbers_are_read_as_written(
    n: u128,
    max: u64,
    written: String,
    text: &str,
    read: Option<u64>,
)
    requires
        call_ensures(decimal, (n,), written),
        text@ == written@,
        call_ensures(parse_within, (text, max), read),
    ensures
        n <= max ==> read == Some(n as u64),
        n > max ==> read is None,
{
    digits_stand_for_their_number(n as nat);
    assert(digits(n as nat)[0] != '+');
    assert(unsigned_part(text@) == text@);
}

/// A number is written with decimal digits only, and none more than needed.
pub proof fn numbers_are_written_in_digits(n: u128, r: String)
    requires
        call_ensures(decimal, (n,), r),
    ensures
        r@.len() > 0,
        forall|i: int| 0 <= i < r@.len() ==> '0' <= #[trigger] r@[i] && r@[i] <= '9',
        r@.len() > 1 ==> r@[0] != '0',
        digits_value(r@) == n,
{
    digits_stand_for_their_number(n as nat);
    if n == 0 {
        assert(r@.len() == 1);
    }
}

/// Negative numbers have a minus sign before the digits, others none.
pub proof fn signs_stand_before_the_digits(n: i64, r: String)
    requires
        call_ensures(signed_decimal, (n,), r),
    ensures
        n < 0 ==> r@[0] == '-' && digits_value(r@.skip(1)) == -n,
        n >= 0 ==> r@[0] != '-' && digits_value(r@) == n,
{
    if n < 0 {
        digits_stand_for_their_number((-n) as nat);
        assert(r@.skip(1) == digits((-n) as nat));
    } else {
        digits_stand_for_their_number(n as nat);
        assert(is_digit(digits(n as nat)[0]));
    }
}

/// A text that is read as a number holds digits only, after at most one plus sign, and is read as
/// what they stand for.
pub proof fn only_digits_are_read_as_numbers(text: &str, max: u64, r: Option<u64>)
    requires
        call_ensures(parse_within, (text, max), r),
    ensures
        r matches Some(value) ==> value <= max && ({
            let digits = if text@.len() > 0 && text@[0] == '+' { text@.skip(1) } else { text@ };
            &&& digits.len() > 0
            &&& digits_value(digits) == value
            &&& forall|i: int|
                0 <= i < digits.len() ==> '0' <= #[trigger] digits[i] && digits[i] <= '9'
        }),
{
}

/// The first character in which two texts differ decides which stands before the other; a text
/// stands before those that it begins.
pub proof fn the_first_difference_decides(left: &str, right: &str, r: bool, i: int)
    requires
        call_ensures(before, (left, right), r),
        0 <= i <= left@.len(),
        i <= right@.len(),
        left@.take(i) == right@.take(i),
    ensures
        i < left@.len() && i < right@.len() && left@[i] < right@[i] ==> r,
        i < left@.len() && i < right@.len() && left@[i] > right@[i] ==> !r,
        i == left@.len() && i < right@.len() ==> r,
        i == right@.len() ==> !r,
{
    lemma_precedes_behind(left@, right@, i);
}

/// Texts that begin alike stand in the order of what follows.
proof fn lemma_precedes_behind(a: Seq<char>, b: Seq<char>, i: int)
    requires
        0 <= i <= a.len(),
        i <= b.len(),
        a.take(i) == b.take(i),
    ensures
        precedes(a, b) == precedes(a.skip(i), b.skip(i)),
    decreases i,
{
    if i == 0 {
        assert(a.skip(0) == a);
        assert(b.skip(0) == b);
    } else {
        assert(a[0] == a.take(i)[0]);
        assert(b[0] == b.take(i)[0]);
        assert(a.skip(1).take(i - 1) =~= a.take(i).skip(1));
        assert(b.skip(1).take(i - 1) =~= b.take(i).skip(1));
        lemma_precedes_behind(a.skip(1), b.skip(1), i - 1);
        assert(a.skip(1).skip(i - 1) == a.skip(i));
        assert(b.skip(1).skip(i - 1) == b.skip(i));
    }
}

/// What is stripped from a text and what is left make up the text.
pub proof fn stripping_takes_nothing_else(
    text: &str,
    affix: &str,
    front: Option<&str>,
    back: Option<&str>,
)
    requires
        call_ensures(strip_prefix, (text, affix), front),
        call_ensures(strip_suffix, (text, affix), back),
    ensures
        front matches Some(rest) ==> affix@ + rest@ == text@,
        back matches Some(rest) ==> rest@ + affix@ == text@,
        (exists|rest: Seq<char>| #[trigger] (affix@ + rest) == text@) ==> front is Some,
        (exists|rest: Seq<char>| #[trigger] (rest + affix@) == text@) ==> back is Some,
{
    if front is Some {
        assert(affix@ + front->0@ =~= text@);
    }
    if back is Some {
        assert(back->0@ + affix@ =~= text@);
    }
    if exists|rest: Seq<char>| #[trigger] (affix@ + rest) == text@ {
        let rest = choose|rest: Seq<char>| #[trigger] (affix@ + rest) == text@;
        assert(text@.subrange(0, affix@.len() as int) =~= affix@);
    }
    if exists|rest: Seq<char>| #[trigger] (rest + affix@) == text@ {
        let rest = choose|rest: Seq<char>| #[trigger] (rest + affix@) == text@;
        assert(text@.subrange(text@.len() - affix@.len(), text@.len() as int) =~= affix@);
    }
}

/// A part is found in a text exactly where the text can be cut around it.
pub proof fn parts_are_found_where_they_stand(text: &str, part: &str, r: bool)
    requires
        call_ensures(contains, (text, part), r),
    ensures
        r <==> exists|i: int|
            0 <= i <= text@.len() - part@.len() && #[trigger] text@.subrange(i, i + part@.len())
                == part@,
{
    if r {
        let i = choose|i: int| occurs_at(text@, part@, i);
        assert(text@.subrange(i, i + part@.len()) == part@);
    }
    if exists|i: int|
        0 <= i <= text@.len() - part@.len() && #[trigger] text@.subrange(i, i + part@.len())
            == part@ {
        let i = choose|i: int|
            0 <= i <= text@.len() - part@.len() && #[trigger] text@.subrange(i, i + part@.len())
                == part@;
        assert(occurs_at(text@, part@, i));
    }
}

/// The first part of a text ends at its first separator.
pub proof fn the_first_part_ends_at_the_first_separator(s: Seq<char>, c: char, i: int)
    requires
        0 <= i <= s.len(),
        !s.take(i).contains(c),
        i == s.len() || s[i] == c,
    ensures
        split_on(s, c)[0] == s.take(i),
        split_on(s, c).len() == 1 <==> i == s.len(),
        split_on(s, c).len() > 0,
    decreases s.len(),
{
    split_is_never_empty(s, c);
    if s.len() == 0 {
        assert(s.take(i) =~= Seq::<char>::empty());
    } else {
        let shorter = s.drop_last();
        split_is_never_empty(shorter, c);
        let before = split_on(shorter, c);
        if i == s.len() {
            assert(s.take(i)[i - 1] == s.last());
            assert(s.take(i).contains(s.take(i)[i - 1]));
            assert(shorter.take(i - 1) =~= s.take(i - 1));
            if shorter.take(i - 1).contains(c) {
                let head = shorter.take(i - 1);
                let k = choose|k: int| 0 <= k < head.len() && head[k] == c;
                assert(s.take(i)[k] == c);
            }
            the_first_part_ends_at_the_first_separator(shorter, c, i - 1);
            assert(before.len() == 1);
            assert(shorter.take(i - 1).push(s.last()) =~= s.take(i));
        } else {
            assert(shorter.take(i) =~= s.take(i));
            the_first_part_ends_at_the_first_separator(shorter, c, i);
            if i < s.len() - 1 {
                assert(shorter[i] == s[i]);
                assert(before.len() > 1);
                assert(before.drop_last()[0] == before[0]);
            }
        }
    }
}

/// One more digit makes a number ten times as large and adds itself.
pub proof fn digits_count_tenfold(
    text: &str,
    longer: &str,
    d: nat,
    max: u64,
    r: Option<u64>,
    s: Option<u64>,
)
    requires
        call_ensures(parse_within, (text, max), r),
        call_ensures(parse_within, (longer, max), s),
        d < 10,
        longer@ == text@.push(digit(d)),
        r is Some,
    ensures
        r->0 * 10 + d <= max ==> s is Some && s->0 == r->0 * 10 + d,
        r->0 * 10 + d > max ==> s is None,
{
    let short = unsigned_part(text@);
    let long = unsigned_part(longer@);
    assert(longer@[0] == text@[0]);
    assert(long =~= short.push(digit(d)));
    assert(long.drop_last() =~= short);
    assert forall|i: int| 0 <= i < long.len() implies is_digit(#[trigger] long[i]) by {
        if i < short.len() {
            assert(long[i] == short[i]);
        }
    }
}

/// Digits are written in their order.
pub proof fn digits_are_written_in_order(d: nat)
    requires
        d < 10,
    ensures
        digit(d) as int == 48 + d,
{
}

/// A list is put in order with every text once, without the white space around it, and no other.
pub proof fn ordered_lists_hold_every_text_once(list: &[String], r: Vec<String>, i: int, k: int)
    requires
        call_ensures(ordered_trimmed, (list,), r),
    ensures
        0 <= i < list@.len() ==> views(r@).contains(trimmed(list@[i]@)),
        0 <= k < r@.len() ==> exists|j: int|
            0 <= j < list@.len() && trimmed((#[trigger] list@[j])@) == r@[k]@,
        0 <= k < r@.len() - 1 ==> precedes(r@[k]@, r@[k + 1]@),
{
    let names = views(r@);
    if 0 <= i < list@.len() {
        assert(trimmed(list@[i]@) == trimmed(list@[i]@));
        assert(names.contains(trimmed(list@[i]@)));
    }
    if 0 <= k < r@.len() {
        assert(names[k] == r@[k]@);
        assert(names.contains(names[k]));
        if k < r@.len() - 1 {
            assert(names[k + 1] == r@[k + 1]@);
        }
    }
}

/// Two texts are the same exactly where they agree in every character.
pub proof fn same_texts_agree_in_every_character(left: &str, right: &str, r: bool)
    requires
        call_ensures(same, (left, right), r),
    ensures
        r <==> left@.len() == right@.len() && forall|i: int|
            0 <= i < left@.len() ==> #[trigger] left@[i] == right@[i],
{
    if left@.len() == right@.len() && forall|i: int|
        0 <= i < left@.len() ==> #[trigger] left@[i] == right@[i] {
        assert(left@ =~= right@);
    }
}

/// Joined texts stand one behind the other.
pub proof fn texts_are_put_together_in_order(
    first: &str,
    second: &str,
    third: &str,
    r: String,
    s: String,
)
    requires
        call_ensures(concat, (first, second), r),
        call_ensures(concat3, (first, second, third), s),
    ensures
        r@.len() == first@.len() + second@.len(),
        r@.take(first@.len() as int) == first@,
        r@.skip(first@.len() as int) == second@,
        s@ == r@ + third@,
{
    assert(r@.take(first@.len() as int) =~= first@);
    assert(r@.skip(first@.len() as int) =~= second@);
}

/// A plus sign before a number makes no difference; a second one does.
pub proof fn one_plus_sign_makes_no_difference(
    text: &str,
    signed: &str,
    max: u64,
    r: Option<u64>,
    s: Option<u64>,
)
    requires
        call_ensures(parse_within, (text, max), r),
        call_ensures(parse_within, (signed, max), s),
        signed@ == seq!['+'] + text@,
    ensures
        text@.len() > 0 && text@[0] != '+' ==> s == r,
        text@.len() == 0 || text@[0] == '+' ==> s is None,
{
    assert(unsigned_part(signed@) =~= text@);
    if text@.len() > 0 && text@[0] == '+' {
        assert(!is_digit(unsigned_part(signed@)[0]));
    }
}

/// A text is read as a number exactly where it holds digits and nothing else, after at most one
/// plus sign, and the number is not too large.
pub proof fn all_digits_are_read(text: &str, max: u64, r: Option<u64>)
    requires
        call_ensures(parse_within, (text, max), r),
        text@.len() > 0,
        forall|i: int| 0 <= i < text@.len() ==> '0' <= #[trigger] text@[i] && text@[i] <= '9',
    ensures
        r is Some <==> digits_value(text@) <= max,
        r is Some ==> r->0 == digits_value(text@),
{
    assert('0' <= text@[0]);
    assert(unsigned_part(text@) == text@);
    assert forall|i: int| 0 <= i < text@.len() implies is_digit(#[trigger] text@[i]) by {}
}

/// A text begins and ends with a part exactly where it can be cut behind and before it.
pub proof fn texts_begin_and_end_with_parts(text: &str, part: &str, front: bool, back: bool)
    requires
        call_ensures(starts_with, (text, part), front),
        call_ensures(ends_with, (text, part), back),
    ensures
        front <==> part@.len() <= text@.len() && text@.take(part@.len() as int) == part@,
        back <==> part@.len() <= text@.len() && text@.skip(text@.len() - part@.len()) == part@,
{
    if part@.len() <= text@.len() {
        let n = part@.len() as int;
        assert(text@.take(n) =~= text@.subrange(0, n));
        assert(text@.skip(text@.len() - n) =~= text@.subrange(text@.len() - n, text@.len() as int));
    }
}

/// The characters of a text, cut out again in part, are that part of the text.
pub proof fn characters_make_up_the_text(
    text: &str,
    chars: Vec<char>,
    slice_of: &[char],
    from: usize,
    to: usize,
    r: String,
)
    requires
        call_ensures(characters, (text,), chars),
        slice_of@ == chars@,
        from <= to <= chars@.len(),
        call_ensures(slice, (slice_of, from, to), r),
    ensures
        chars@.len() == text@.len(),
        r@.len() == to - from,
        forall|i: int| 0 <= i < to - from ==> #[trigger] r@[i] == text@[from + i],
        from == 0 && to == text@.len() ==> r@ == text@,
{
    if from == 0 && to == text@.len() {
        assert(r@ =~= text@);
    }
}

/// Copies hold what they were made of.
pub proof fn copies_hold_the_same(
    list: &[String],
    value: &Option<String>,
    given: Option<&str>,
    many: Vec<String>,
    one: Option<String>,
    own: Option<String>,
    borrowed: Option<&str>,
)
    requires
        call_ensures(copies, (list,), many),
        call_ensures(copied, (value,), one),
        call_ensures(owned, (given,), own),
        call_ensures(as_slice, (value,), borrowed),
    ensures
        many@.len() == list@.len(),
        forall|i: int| 0 <= i < list@.len() ==> (#[trigger] many@[i])@ == list@[i]@,
        one == *value,
        own is Some <==> given is Some,
        own is Some ==> own->0@ == given->0@,
        borrowed is Some <==> *value is Some,
        borrowed is Some ==> borrowed->0@ == (*value)->0@,
{
}

/// A text's length in bytes is that of its UTF-8 form.
pub proof fn lengths_are_in_bytes(text: &str, r: usize)
    requires
        call_ensures(byte_len, (text,), r),
    ensures
        r == vstd::utf8::encode_utf8(text@).len(),
        r >= text@.len(),
{
    bytes_cover_characters(text@);
}

} // verus!
