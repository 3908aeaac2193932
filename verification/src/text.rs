//! Text primitives: comparison, decimal rendering, joining, trimming and
//! splitting of strings, each against a statement over sequences of characters.

use vstd::prelude::*;
use vstd::string::*;
use vstd::utf8::*;

verus! {

/// The characters of an optional string slice.
pub open spec fn str_view(text: Option<&str>) -> Option<Seq<char>> {
    match text {
        Some(s) => Some(s@),
        None => None,
    }
}

/// The characters of an optional string.
pub open spec fn string_view(text: Option<String>) -> Option<Seq<char>> {
    match text {
        Some(s) => Some(s@),
        None => None,
    }
}

/// The characters of each string of a list.
pub open spec fn strings_view(list: Seq<String>) -> Seq<Seq<char>> {
    Seq::new(list.len(), |i: int| list[i]@)
}

/// Whether two strings hold the same characters.
pub fn same_text(a: &str, b: &str) -> (same: bool)
    ensures
        same == (a@ == b@),
{
    broadcast use {encode_utf8_decode_utf8, encode_utf8_valid_utf8};

    let x = a.as_bytes();
    let y = b.as_bytes();
    if x.len() != y.len() {
        return false;
    }
    let mut i: usize = 0;
    while i < x.len()
        invariant
            i <= x@.len(),
            x@.len() == y@.len(),
            x@ == encode_utf8(a@),
            y@ == encode_utf8(b@),
            forall|j: int| 0 <= j < i ==> x@[j] == y@[j],
        decreases x@.len() - i,
    {
        if x[i] != y[i] {
            return false;
        }
        i = i + 1;
    }
    proof {
        assert(x@ =~= y@);
        assert(decode_utf8(encode_utf8(a@)) == a@);
        assert(decode_utf8(encode_utf8(b@)) == b@);
    }
    true
}

/// The number of bytes that a text takes.
pub open spec fn byte_len(s: Seq<char>) -> nat {
    encode_utf8(s).len()
}

/// The number of bytes of a string.
pub fn text_bytes(s: &str) -> (n: usize)
    ensures
        n == byte_len(s@),
{
    s.as_bytes().len()
}

/// The character of a decimal digit.
pub open spec fn digit_char(d: nat) -> char {
    if d == 0 {
        '0'
    } else if d == 1 {
        '1'
    } else if d == 2 {
        '2'
    } else if d == 3 {
        '3'
    } else if d == 4 {
        '4'
    } else if d == 5 {
        '5'
    } else if d == 6 {
        '6'
    } else if d == 7 {
        '7'
    } else if d == 8 {
        '8'
    } else {
        '9'
    }
}

/// The decimal numeral of a number, without leading zeros.
pub open spec fn decimal(n: nat) -> Seq<char>
    decreases n,
{
    if n < 10 {
        seq![digit_char(n)]
    } else {
        decimal(n / 10).push(digit_char(n % 10))
    }
}

/// `String::push` appends the character.
pub assume_specification[ String::push ](s: &mut String, c: char)
    ensures
        final(s)@ == old(s)@.push(c),
;

fn push_digit(s: &mut String, d: u64)
    requires
        d < 10,
    ensures
        final(s)@ == old(s)@.push(digit_char(d as nat)),
{
    if d == 0 {
        s.push('0');
    } else if d == 1 {
        s.push('1');
    } else if d == 2 {
        s.push('2');
    } else if d == 3 {
        s.push('3');
    } else if d == 4 {
        s.push('4');
    } else if d == 5 {
        s.push('5');
    } else if d == 6 {
        s.push('6');
    } else if d == 7 {
        s.push('7');
    } else if d == 8 {
        s.push('8');
    } else {
        s.push('9');
    }
}

/// Appends the decimal numeral of `n`.
pub fn push_decimal(s: &mut String, n: u64)
    ensures
        final(s)@ == old(s)@ + decimal(n as nat),
    decreases n,
{
    if n >= 10 {
        push_decimal(s, n / 10);
    }
    let ghost before = s@;
    push_digit(s, n % 10);
    proof {
        if n >= 10 {
            assert(s@ =~= old(s)@ + decimal(n as nat));
        } else {
            assert(s@ =~= old(s)@ + decimal(n as nat));
        }
    }
}

/// The texts of a list, with a separator between neighbours.
pub open spec fn joined(list: Seq<Seq<char>>, separator: Seq<char>) -> Seq<char>
    decreases list.len(),
{
    if list.len() == 0 {
        Seq::empty()
    } else if list.len() == 1 {
        list[0]
    } else {
        joined(list.drop_last(), separator) + separator + list.last()
    }
}

/// Joins strings with a separator between neighbours.
pub fn join_texts(list: &Vec<String>, separator: &str) -> (s: String)
    ensures
        s@ == joined(strings_view(list@), separator@),
{
    let mut s = String::new();
    let mut i: usize = 0;
    while i < list.len()
        invariant
            i <= list@.len(),
            s@ == joined(strings_view(list@.take(i as int)), separator@),
        decreases list@.len() - i,
    {
        proof {
            let now = strings_view(list@.take(i as int));
            let next = strings_view(list@.take(i + 1));
            assert(next.drop_last() =~= now);
            assert(next.last() == list@[i as int]@);
            if i == 0 {
                assert(now =~= Seq::empty());
                assert(Seq::<char>::empty() + list@[0]@ =~= list@[0]@);
            }
        }
        if i > 0 {
            s.append(separator);
        }
        s.append(list[i].as_str());
        i = i + 1;
    }
    proof {
        assert(list@.take(i as int) =~= list@);
    }
    s
}

/// Whether a character has Unicode's `White_Space` property.
pub open spec fn white_space(c: char) -> bool {
    '\u{9}' <= c <= '\u{d}' || c == ' ' || c == '\u{85}' || c == '\u{a0}' || c == '\u{1680}'
        || '\u{2000}' <= c <= '\u{200a}' || c == '\u{2028}' || c == '\u{2029}' || c == '\u{202f}'
        || c == '\u{205f}' || c == '\u{3000}'
}

fn is_white_space(c: char) -> (yes: bool)
    ensures
        yes == white_space(c),
{
    ('\u{9}' <= c && c <= '\u{d}') || c == ' ' || c == '\u{85}' || c == '\u{a0}' || c
        == '\u{1680}' || ('\u{2000}' <= c && c <= '\u{200a}') || c == '\u{2028}' || c
        == '\u{2029}' || c == '\u{202f}' || c == '\u{205f}' || c == '\u{3000}'
}

/// A text without the white space at its start.
pub open spec fn trimmed_start(s: Seq<char>) -> Seq<char>
    decreases s.len(),
{
    if s.len() > 0 && white_space(s[0]) {
        trimmed_start(s.drop_first())
    } else {
        s
    }
}

/// A text without the white space at its end.
pub open spec fn trimmed_end(s: Seq<char>) -> Seq<char>
    decreases s.len(),
{
    if s.len() > 0 && white_space(s.last()) {
        trimmed_end(s.drop_last())
    } else {
        s
    }
}

/// A text without the white space at its ends.
pub open spec fn trimmed(s: Seq<char>) -> Seq<char> {
    trimmed_end(trimmed_start(s))
}

/// The characters of a string.
pub fn to_chars(s: &str) -> (chars: Vec<char>)
    ensures
        chars@ == s@,
{
    let mut chars: Vec<char> = Vec::new();
    for c in it: s.chars()
        invariant
            chars@ == it.seq().take(it.index()),
    {
        chars.push(c);
    }
    chars
}

/// The string of the characters from `start` up to `end`.
pub fn from_chars(chars: &Vec<char>, start: usize, end: usize) -> (s: String)
    requires
        start <= end <= chars@.len(),
    ensures
        s@ == chars@.subrange(start as int, end as int),
{
    let mut s = String::new();
    let mut i: usize = start;
    while i < end
        invariant
            start <= i <= end <= chars@.len(),
            s@ == chars@.subrange(start as int, i as int),
        decreases end - i,
    {
        s.push(chars[i]);
        i = i + 1;
        proof {
            assert(chars@.subrange(start as int, i as int) =~= chars@.subrange(
                start as int,
                i - 1,
            ).push(chars@[i - 1]));
        }
    }
    s
}

/// A string without the white space at its ends.
pub fn trim(s: &str) -> (t: String)
    ensures
        t@ == trimmed(s@),
{
    let chars = to_chars(s);
    let mut start: usize = 0;
    proof {
        assert(chars@.skip(0) =~= chars@);
    }
    while start < chars.len() && is_white_space(chars[start])
        invariant
            start <= chars@.len(),
            trimmed_start(chars@) == trimmed_start(chars@.skip(start as int)),
        decreases chars@.len() - start,
    {
        proof {
            assert(chars@.skip(start as int).drop_first() =~= chars@.skip(start + 1));
        }
        start = start + 1;
    }
    let mut end: usize = chars.len();
    proof {
        assert(trimmed_start(chars@) == chars@.skip(start as int));
        assert(chars@.subrange(start as int, end as int) =~= chars@.skip(start as int));
    }
    while end > start && is_white_space(chars[end - 1])
        invariant
            start <= end <= chars@.len(),
            trimmed_end(chars@.skip(start as int)) == trimmed_end(
                chars@.subrange(start as int, end as int),
            ),
        decreases end,
    {
        proof {
            assert(chars@.subrange(start as int, end as int).drop_last() =~= chars@.subrange(
                start as int,
                end - 1,
            ));
        }
        end = end - 1;
    }
    from_chars(&chars, start, end)
}

/// Appends copies of the strings of a list.
pub fn append_texts(list: &mut Vec<String>, more: &Vec<String>)
    ensures
        strings_view(final(list)@) == strings_view(old(list)@) + strings_view(more@),
{
    let ghost start = strings_view(list@);
    let mut i: usize = 0;
    proof {
        assert(start + strings_view(more@.take(0)) =~= start);
    }
    while i < more.len()
        invariant
            i <= more@.len(),
            strings_view(list@) == start + strings_view(more@.take(i as int)),
        decreases more@.len() - i,
    {
        let ghost before = list@;
        list.push(more[i].clone());
        proof {
            let next = more@[i as int]@;
            assert(strings_view(list@) =~= strings_view(before).push(next));
            assert(strings_view(more@.take(i + 1)) =~= strings_view(more@.take(i as int)).push(
                next,
            ));
            assert(strings_view(list@) =~= start + strings_view(more@.take(i + 1)));
        }
        i = i + 1;
    }
    proof {
        assert(more@.take(i as int) =~= more@);
    }
}

/// Whether a pattern stands at a place of a text.
pub open spec fn occurs_at(s: Seq<char>, pattern: Seq<char>, at: int) -> bool {
    0 <= at && at + pattern.len() <= s.len() && s.subrange(at, at + pattern.len()) == pattern
}

/// The last place at or before `upto` where a pattern stands.
pub open spec fn last_place(s: Seq<char>, pattern: Seq<char>, upto: int) -> Option<int>
    decreases upto + 1,
{
    if upto < 0 {
        None
    } else if occurs_at(s, pattern, upto) {
        Some(upto)
    } else {
        last_place(s, pattern, upto - 1)
    }
}

/// The part of a text after the last place where a separator stands; the whole
/// text, where it stands nowhere.
pub open spec fn after_last(s: Seq<char>, separator: Seq<char>) -> Seq<char> {
    match last_place(s, separator, s.len() as int) {
        Some(at) => s.skip(at + separator.len()),
        None => s,
    }
}

fn stands_at(chars: &Vec<char>, pattern: &Vec<char>, at: usize) -> (yes: bool)
    requires
        at <= chars@.len(),
    ensures
        yes == occurs_at(chars@, pattern@, at as int),
{
    let total: usize = chars.len();
    if pattern.len() > total - at {
        return false;
    }
    let mut i: usize = 0;
    while i < pattern.len()
        invariant
            i <= pattern@.len(),
            total == chars@.len(),
            at + pattern@.len() <= total,
            forall|j: int| 0 <= j < i ==> chars@[at + j] == pattern@[j],
        decreases pattern@.len() - i,
    {
        if chars[at + i] != pattern[i] {
            proof {
                assert(chars@.subrange(at as int, at + pattern@.len())[i as int]
                    != pattern@[i as int]);
            }
            return false;
        }
        i = i + 1;
    }
    proof {
        assert(chars@.subrange(at as int, at + pattern@.len()) =~= pattern@);
    }
    true
}

/// The part of a string after the last place where a separator stands.
pub fn text_after_last(s: &str, separator: &str) -> (part: String)
    ensures
        part@ == after_last(s@, separator@),
{
    let chars = to_chars(s);
    let pattern = to_chars(separator);
    let total: usize = chars.len();
    let mut left: usize = total;
    loop
        invariant
            left <= total,
            total == chars@.len(),
            chars@ == s@,
            pattern@ == separator@,
            last_place(s@, separator@, s@.len() as int) == last_place(s@, separator@, left as int),
        decreases left,
    {
        if stands_at(&chars, &pattern, left) {
            proof {
                assert(chars@.subrange(left + pattern@.len(), chars@.len() as int) =~= chars@.skip(
                    left + pattern@.len(),
                ));
            }
            return from_chars(&chars, left + pattern.len(), total);
        }
        if left == 0 {
            proof {
                assert(last_place(s@, separator@, -1) is None);
                assert(chars@.subrange(0, chars@.len() as int) =~= chars@);
            }
            return from_chars(&chars, 0, total);
        }
        left = left - 1;
    }
}

/// Whether a text holds a pattern.
pub open spec fn holds_text(s: Seq<char>, pattern: Seq<char>) -> bool {
    exists|at: int| #[trigger] occurs_at(s, pattern, at)
}

/// Whether a string holds a pattern.
pub fn contains_text(s: &str, pattern: &str) -> (yes: bool)
    ensures
        yes == holds_text(s@, pattern@),
{
    let chars = to_chars(s);
    let wanted = to_chars(pattern);
    let mut at: usize = 0;
    while at <= chars.len()
        invariant
            at <= chars@.len() + 1,
            chars@ == s@,
            wanted@ == pattern@,
            forall|j: int| 0 <= j < at ==> !#[trigger] occurs_at(s@, pattern@, j),
        decreases chars@.len() + 1 - at,
    {
        if stands_at(&chars, &wanted, at) {
            return true;
        }
        if at == chars.len() {
            return false;
        }
        at = at + 1;
    }
    false
}

/// Whether one text comes before another in the order of dictionaries.
pub open spec fn text_before(a: Seq<char>, b: Seq<char>) -> bool
    decreases a.len(),
{
    if b.len() == 0 {
        false
    } else if a.len() == 0 {
        true
    } else if a[0] != b[0] {
        a[0] < b[0]
    } else {
        text_before(a.drop_first(), b.drop_first())
    }
}

/// Whether one string comes before another in the order of dictionaries.
pub fn comes_before(a: &str, b: &str) -> (yes: bool)
    ensures
        yes == text_before(a@, b@),
{
    let x = to_chars(a);
    let y = to_chars(b);
    let mut i: usize = 0;
    proof {
        assert(x@.skip(0) =~= x@);
        assert(y@.skip(0) =~= y@);
    }
    while i < x.len() && i < y.len() && x[i] == y[i]
        invariant
            i <= x@.len(),
            i <= y@.len(),
            text_before(x@, y@) == text_before(x@.skip(i as int), y@.skip(i as int)),
        decreases x@.len() - i,
    {
        proof {
            assert(x@.skip(i as int).drop_first() =~= x@.skip(i + 1));
            assert(y@.skip(i as int).drop_first() =~= y@.skip(i + 1));
        }
        i = i + 1;
    }
    if i >= y.len() {
        return false;
    }
    if i >= x.len() {
        return true;
    }
    x[i] < y[i]
}

/// Of two texts one comes before the other, unless they are the same.
pub proof fn lemma_text_before_is_total(a: Seq<char>, b: Seq<char>)
    ensures
        text_before(a, b) ==> !text_before(b, a),
        a == b ==> !text_before(a, b),
        !text_before(a, b) && !text_before(b, a) ==> a == b,
    decreases a.len(),
{
    if a.len() > 0 && b.len() > 0 && a[0] == b[0] {
        lemma_text_before_is_total(a.drop_first(), b.drop_first());
        assert(a =~= seq![a[0]] + a.drop_first());
        assert(b =~= seq![b[0]] + b.drop_first());
    } else if a.len() == 0 && b.len() == 0 {
        assert(a =~= b);
    }
}

/// Where one text comes before another, every text comes after the one or before
/// the other.
pub proof fn lemma_text_before_is_dense(a: Seq<char>, b: Seq<char>, c: Seq<char>)
    ensures
        text_before(a, c) ==> text_before(a, b) || text_before(b, c),
    decreases a.len(),
{
    if a.len() > 0 && b.len() > 0 && c.len() > 0 {
        lemma_text_before_is_dense(a.drop_first(), b.drop_first(), c.drop_first());
    }
}

/// The lower-case form of a text, by Unicode's `Lowercase` mapping.
pub uninterp spec fn lowercase(s: Seq<char>) -> Seq<char>;

/// `str::to_lowercase`, whose result follows from the text alone.
#[verifier::external_body]
pub(crate) fn to_lower(s: &str) -> (lower: String)
    ensures
        lower@ == lowercase(s@),
{
    s.to_lowercase()
}

/// The first place at or after `from` where a line ends.
pub open spec fn line_end(s: Seq<char>, from: int) -> Option<int>
    decreases s.len() - from,
{
    if from < 0 || from >= s.len() {
        None
    } else if s[from] == '\n' {
        Some(from)
    } else {
        line_end(s, from + 1)
    }
}

/// A line without the carriage return at its end.
pub open spec fn without_return(line: Seq<char>) -> Seq<char> {
    if line.len() > 0 && line.last() == '\r' {
        line.drop_last()
    } else {
        line
    }
}

/// The lines of a text from a place on. A line ends with a line feed, which may
/// have a carriage return before it; the last line need not end.
pub open spec fn lines_from(s: Seq<char>, from: int) -> Seq<Seq<char>>
    decreases s.len() - from,
{
    if from < 0 || from >= s.len() {
        Seq::empty()
    } else {
        match line_end(s, from) {
            Some(end) => if from <= end < s.len() {
                seq![without_return(s.subrange(from, end))] + lines_from(s, end + 1)
            } else {
                Seq::empty()
            },
            None => seq![s.skip(from)],
        }
    }
}

fn find_line_end(chars: &Vec<char>, from: usize) -> (end: usize)
    requires
        from <= chars@.len(),
    ensures
        from <= end <= chars@.len(),
        match line_end(chars@, from as int) {
            Some(e) => end == e && end < chars@.len(),
            None => end == chars@.len(),
        },
{
    let mut end: usize = from;
    while end < chars.len() && chars[end] != '\n'
        invariant
            from <= end <= chars@.len(),
            line_end(chars@, from as int) == line_end(chars@, end as int),
        decreases chars@.len() - end,
    {
        end = end + 1;
    }
    end
}

/// The lines of a string.
pub fn split_lines(s: &str) -> (lines: Vec<String>)
    ensures
        strings_view(lines@) == lines_from(s@, 0),
{
    let chars = to_chars(s);
    let total: usize = chars.len();
    let mut lines: Vec<String> = Vec::new();
    let mut from: usize = 0;
    proof {
        assert(strings_view(lines@) + lines_from(s@, 0) =~= lines_from(s@, 0));
    }
    while from < total
        invariant
            chars@ == s@,
            total == chars@.len(),
            from <= total,
            strings_view(lines@) + lines_from(s@, from as int) == lines_from(s@, 0),
        decreases total - from,
    {
        let end: usize = find_line_end(&chars, from);
        let ghost before = lines@;
        let ghost rest = lines_from(s@, from as int);
        if end < total {
            let cut: usize = if end > from && chars[end - 1] == '\r' {
                end - 1
            } else {
                end
            };
            lines.push(from_chars(&chars, from, cut));
            proof {
                let line = s@.subrange(from as int, end as int);
                assert(without_return(line) =~= s@.subrange(from as int, cut as int));
                assert(strings_view(lines@) =~= strings_view(before).push(without_return(line)));
                assert(strings_view(before) + rest =~= strings_view(lines@) + lines_from(
                    s@,
                    end + 1,
                ));
            }
            from = end + 1;
        } else {
            lines.push(from_chars(&chars, from, total));
            proof {
                assert(s@.subrange(from as int, total as int) =~= s@.skip(from as int));
                assert(strings_view(lines@) =~= strings_view(before).push(s@.skip(from as int)));
                assert(strings_view(before) + rest =~= strings_view(lines@) + lines_from(
                    s@,
                    total as int,
                ));
            }
            from = total;
        }
    }
    proof {
        assert(strings_view(lines@) + Seq::<Seq<char>>::empty() =~= strings_view(lines@));
    }
    lines
}

/// Appends the decimal numeral of a large `n`.
pub fn push_decimal_wide(s: &mut String, n: u128)
    ensures
        final(s)@ == old(s)@ + decimal(n as nat),
    decreases n,
{
    if n >= 10 {
        push_decimal_wide(s, n / 10);
    }
    push_digit(s, (n % 10) as u64);
    proof {
        assert(s@ =~= old(s)@ + decimal(n as nat));
    }
}

/// The numeral of a number denotes it: it is made of digits, starts with a zero only where
/// it is zero, and is read back as the number.
pub proof fn law_decimal_is_read_back(n: nat)
    ensures
        decimal(n).len() > 0,
        forall|i: int|
            0 <= i < decimal(n).len() ==> crate::protocol_version::is_digit(
                #[trigger] decimal(n)[i],
            ),
        decimal(n)[0] == '0' ==> n == 0,
        crate::protocol_version::digits_value(decimal(n)) == n,
    decreases n,
{
    if n >= 10 {
        law_decimal_is_read_back(n / 10);
        let before = decimal(n / 10);
        assert(decimal(n).drop_last() =~= before);
        assert(decimal(n)[0] == before[0]);
        assert forall|i: int| 0 <= i < decimal(n).len() implies crate::protocol_version::is_digit(
            #[trigger] decimal(n)[i],
        ) by {
            if i < before.len() {
                assert(decimal(n)[i] == before[i]);
            }
        }
    } else {
        assert(decimal(n).drop_last().len() == 0);
        assert(crate::protocol_version::digits_value(decimal(n).drop_last()) == 0);
    }
}

/// A list is joined by joining what comes before any place and what comes from there on,
/// with the separator between the two; a list of one text is that text.
pub proof fn law_joined_lists_can_be_parted(
    list: Seq<Seq<char>>,
    separator: Seq<char>,
    at: int,
)
    requires
        0 < at < list.len(),
    ensures
        joined(list, separator) == joined(list.take(at), separator) + separator + joined(
            list.skip(at),
            separator,
        ),
        joined(seq![list[at]], separator) == list[at],
    decreases list.len(),
{
    let rest = list.drop_last();
    if at == list.len() - 1 {
        assert(list.take(at) =~= rest);
        assert(list.skip(at) =~= seq![list.last()]);
    } else {
        law_joined_lists_can_be_parted(rest, separator, at);
        assert(rest.take(at) =~= list.take(at));
        assert(list.skip(at).drop_last() =~= rest.skip(at));
        assert(list.skip(at).last() == list.last());
        let a = joined(list.take(at), separator);
        let b = joined(rest.skip(at), separator);
        assert((a + separator + b) + separator + list.last() =~= a + separator + (b + separator
            + list.last()));
    }
}

proof fn lemma_trimmed_start(s: Seq<char>)
    ensures
        trimmed_start(s).len() <= s.len(),
        trimmed_start(s) == s.skip(s.len() - trimmed_start(s).len()),
        forall|i: int|
            0 <= i < s.len() - trimmed_start(s).len() ==> white_space(#[trigger] s[i]),
        trimmed_start(s).len() > 0 ==> !white_space(trimmed_start(s)[0]),
    decreases s.len(),
{
    if s.len() > 0 && white_space(s[0]) {
        let rest = s.drop_first();
        lemma_trimmed_start(rest);
        let n = trimmed_start(s).len();
        assert(rest.skip(rest.len() - n) =~= s.skip(s.len() - n));
        assert forall|i: int| 0 <= i < s.len() - n implies white_space(#[trigger] s[i]) by {
            if i > 0 {
                assert(rest[i - 1] == s[i]);
            }
        }
    } else {
        assert(s.skip(0) =~= s);
    }
}

proof fn lemma_trimmed_end(s: Seq<char>)
    ensures
        trimmed_end(s).len() <= s.len(),
        trimmed_end(s) == s.take(trimmed_end(s).len() as int),
        forall|i: int| trimmed_end(s).len() <= i < s.len() ==> white_space(#[trigger] s[i]),
        trimmed_end(s).len() > 0 ==> !white_space(trimmed_end(s).last()),
    decreases s.len(),
{
    if s.len() > 0 && white_space(s.last()) {
        let rest = s.drop_last();
        lemma_trimmed_end(rest);
        let n = trimmed_end(s).len();
        assert(rest.take(n as int) =~= s.take(n as int));
        assert forall|i: int| n <= i < s.len() implies white_space(#[trigger] s[i]) by {
            if i < rest.len() {
                assert(rest[i] == s[i]);
            }
        }
    } else {
        assert(s.take(s.len() as int) =~= s);
    }
}

/// A trimmed text is a stretch of the text, with white space around it and none at its
/// ends.
pub proof fn law_only_white_space_is_trimmed(s: Seq<char>)
    ensures
        exists|start: int|
            #![trigger s.skip(start)]
            0 <= start && start + trimmed(s).len() <= s.len() && trimmed(s) == s.subrange(
                start,
                start + trimmed(s).len(),
            ) && (forall|i: int|
                0 <= i < start || start + trimmed(s).len() <= i < s.len() ==> white_space(
                    #[trigger] s[i],
                )),
        trimmed(s).len() > 0 ==> !white_space(trimmed(s)[0]) && !white_space(trimmed(s).last()),
{
    let middle = trimmed_start(s);
    lemma_trimmed_start(s);
    lemma_trimmed_end(middle);
    let start = s.len() - middle.len();
    let end = trimmed(s);
    assert(end =~= s.subrange(start, start + end.len()));
    assert forall|i: int| 0 <= i < start || start + end.len() <= i < s.len() implies white_space(
        #[trigger] s[i],
    ) by {
        if i >= start {
            assert(middle[i - start] == s[i]);
        }
    }
    let _rest = s.skip(start);
}

proof fn lemma_last_place(s: Seq<char>, pattern: Seq<char>, upto: int)
    ensures
        match last_place(s, pattern, upto) {
            Some(at) => at <= upto && occurs_at(s, pattern, at) && forall|later: int|
                at < later <= upto ==> !#[trigger] occurs_at(s, pattern, later),
            None => forall|later: int| later <= upto ==> !#[trigger] occurs_at(s, pattern, later),
        },
    decreases upto + 1,
{
    if upto >= 0 && !occurs_at(s, pattern, upto) {
        lemma_last_place(s, pattern, upto - 1);
    }
}

/// A text that holds a separator is what comes before its last occurrence, the separator,
/// and the part after it; a text that does not is that part itself.
pub proof fn law_part_after_the_last_separator(s: Seq<char>, separator: Seq<char>)
    ensures
        !holds_text(s, separator) ==> after_last(s, separator) == s,
        holds_text(s, separator) ==> exists|at: int| #[trigger]
            occurs_at(s, separator, at) && s == s.take(at) + separator + after_last(s, separator)
                && forall|later: int| at < later ==> !#[trigger] occurs_at(s, separator, later),
{
    lemma_last_place(s, separator, s.len() as int);
    match last_place(s, separator, s.len() as int) {
        Some(at) => {
            assert(s.subrange(at, at + separator.len()) == separator);
            assert(s =~= s.take(at) + s.subrange(at, at + separator.len()) + s.skip(
                at + separator.len(),
            ));
            assert forall|later: int| at < later implies !#[trigger] occurs_at(
                s,
                separator,
                later,
            ) by {}
        },
        None => {
            assert forall|at: int| !#[trigger] occurs_at(s, separator, at) by {}
        },
    }
}

/// The order of dictionaries is decided at the first place where two texts differ; where
/// there is none, the shorter comes first.
pub proof fn law_first_difference_decides(a: Seq<char>, b: Seq<char>, at: int)
    requires
        0 <= at <= a.len(),
        at <= b.len(),
        a.take(at) == b.take(at),
        at == a.len() || at == b.len() || a[at] != b[at],
    ensures
        text_before(a, b) <==> if at == b.len() {
            false
        } else {
            at == a.len() || a[at] < b[at]
        },
    decreases at,
{
    if at > 0 {
        assert(a[0] == a.take(at)[0] && b[0] == b.take(at)[0]);
        let (c, d) = (a.drop_first(), b.drop_first());
        assert(c.take(at - 1) =~= d.take(at - 1)) by {
            assert forall|i: int| 0 <= i < at - 1 implies c[i] == d[i] by {
                assert(a.take(at)[i + 1] == a[i + 1] && b.take(at)[i + 1] == b[i + 1]);
            }
        }
        law_first_difference_decides(c, d, at - 1);
    }
}

proof fn lemma_line_end(s: Seq<char>, from: int)
    requires
        0 <= from <= s.len(),
    ensures
        match line_end(s, from) {
            Some(end) => from <= end < s.len() && s[end] == '\n' && forall|i: int|
                from <= i < end ==> #[trigger] s[i] != '\n',
            None => forall|i: int| from <= i < s.len() ==> #[trigger] s[i] != '\n',
        },
    decreases s.len() - from,
{
    if from < s.len() && s[from] != '\n' {
        lemma_line_end(s, from + 1);
    }
}

/// A line is what comes before the first line feed, less a carriage return at its end, and
/// the other lines are those of what comes after it; a text without a line feed is one
/// line, and an empty one none.
pub proof fn law_lines_end_at_line_feeds(s: Seq<char>, end: int)
    requires
        0 <= end <= s.len(),
        forall|i: int| 0 <= i < end ==> #[trigger] s[i] != '\n',
        end == s.len() || s[end] == '\n',
    ensures
        s.len() == 0 ==> lines_from(s, 0).len() == 0,
        end == s.len() && s.len() > 0 ==> lines_from(s, 0) == seq![s],
        end < s.len() ==> lines_from(s, 0) == seq![
            if end > 0 && s[end - 1] == '\r' {
                s.take(end - 1)
            } else {
                s.take(end)
            },
        ] + lines_from(s.skip(end + 1), 0),
{
    lemma_line_end(s, 0);
    if s.len() > 0 {
        if end == s.len() {
            if let Some(e) = line_end(s, 0) {
                assert(s[e] == '\n');
            }
            assert(s.skip(0) =~= s);
        } else {
            assert(line_end(s, 0) == Some(end)) by {
                if let Some(e) = line_end(s, 0) {
                    if e < end {
                        assert(s[e] != '\n');
                    }
                }
            }
            let line = s.subrange(0, end);
            assert(line =~= s.take(end));
            if end > 0 {
                assert(line.last() == s[end - 1]);
                assert(line.drop_last() =~= s.take(end - 1));
            }
            lemma_lines_of_the_rest(s, end + 1, 0);
        }
    }
}

proof fn lemma_lines_of_the_rest(s: Seq<char>, at: int, from: int)
    requires
        0 <= at <= s.len(),
        0 <= from <= s.len() - at,
    ensures
        lines_from(s, at + from) == lines_from(s.skip(at), from),
    decreases s.len() - at - from,
{
    let rest = s.skip(at);
    if from < rest.len() {
        lemma_line_end_of_the_rest(s, at, from);
        lemma_line_end(rest, from);
        match line_end(rest, from) {
            Some(end) => {
                assert(rest.subrange(from, end) =~= s.subrange(at + from, at + end));
                lemma_lines_of_the_rest(s, at, end + 1);
            },
            None => {
                assert(rest.skip(from) =~= s.skip(at + from));
            },
        }
    }
}

proof fn lemma_line_end_of_the_rest(s: Seq<char>, at: int, from: int)
    requires
        0 <= at <= s.len(),
        0 <= from <= s.len() - at,
    ensures
        line_end(s, at + from) == match line_end(s.skip(at), from) {
            Some(end) => Some(at + end),
            None => None,
        },
    decreases s.len() - at - from,
{
    if from < s.len() - at && s[at + from] != '\n' {
        lemma_line_end_of_the_rest(s, at, from + 1);
    }
}

/// A text that is put together from parts holds each of them.
pub proof fn law_text_holds_its_parts(before: Seq<char>, part: Seq<char>, after: Seq<char>)
    ensures
        holds_text(before + part + after, part),
{
    let whole = before + part + after;
    let at = before.len() as int;
    assert(whole.subrange(at, at + part.len()) =~= part);
    assert(occurs_at(whole, part, at));
}

/// Within ASCII the tab, the line feed, the vertical tab, the form feed, the carriage return
/// and the space are white space, and nothing else; beyond it the next line, the no-break
/// space and the spaces of other scripts are.
pub proof fn law_white_space_is_unicode_white_space(c: char)
    ensures
        (c as int) < 128 ==> (white_space(c) <==> c == '\t' || c == '\n' || c as int == 11
            || c as int == 12 || c == '\r' || c == ' '),
        c as int >= 128 ==> (white_space(c) <==> c as int == 0x85 || c as int == 0xa0 || c as int
            == 0x1680 || 0x2000 <= c as int <= 0x200a || c as int == 0x2028 || c as int == 0x2029
            || c as int == 0x202f || c as int == 0x205f || c as int == 0x3000),
{
}

} // verus!
