//! Which protocol revisions carry server-requested input and tasks.

use vstd::prelude::*;

use crate::text::{str_view, to_chars};

verus! {

/// The Gregorian leap-year rule.
pub open spec fn is_leap_year(year: nat) -> bool {
    year % 4 == 0 && (year % 100 != 0 || year % 400 == 0)
}

/// The number of days of a month; none where there is no such month.
pub open spec fn month_days(year: nat, month: nat) -> nat {
    if month == 4 || month == 6 || month == 9 || month == 11 {
        30
    } else if month == 2 {
        if is_leap_year(year) {
            29
        } else {
            28
        }
    } else if 1 <= month <= 12 {
        31
    } else {
        0
    }
}

/// Whether there is such a day in the Gregorian calendar from year 1 on.
pub open spec fn gregorian_date(year: nat, month: nat, day: nat) -> bool {
    year >= 1 && 1 <= day <= month_days(year, month)
}

/// Whether there is such a day in the Gregorian calendar.
pub fn is_valid_gregorian_date(year: u16, month: u8, day: u8) -> (valid: bool)
    ensures
        valid == gregorian_date(year as nat, month as nat, day as nat),
{
    if year == 0 {
        return false;
    }
    let leap_year = year % 4 == 0 && (year % 100 != 0 || year % 400 == 0);
    let days: u8 = if month == 4 || month == 6 || month == 9 || month == 11 {
        30
    } else if month == 2 {
        if leap_year {
            29
        } else {
            28
        }
    } else if 1 <= month && month <= 12 {
        31
    } else {
        return false;
    };
    1 <= day && day <= days
}

/// Whether a character is an ASCII digit.
pub open spec fn is_digit(c: char) -> bool {
    '0' <= c && c <= '9'
}

/// The number that a run of digits denotes.
pub open spec fn digits_value(digits: Seq<char>) -> nat
    decreases digits.len(),
{
    if digits.len() == 0 {
        0
    } else {
        digits_value(digits.drop_last()) * 10 + (digits.last() as nat - '0' as nat) as nat
    }
}

/// Whether a text has the shape `YYYY-MM-DD`.
pub open spec fn date_shaped(text: Seq<char>) -> bool {
    &&& text.len() == 10
    &&& text[4] == '-'
    &&& text[7] == '-'
    &&& forall|i: int| 0 <= i < 10 && i != 4 && i != 7 ==> is_digit(#[trigger] text[i])
}

/// Whether a text is a date of the Gregorian calendar in the shape `YYYY-MM-DD`.
pub open spec fn is_date(text: Seq<char>) -> bool {
    date_shaped(text) && gregorian_date(
        digits_value(text.subrange(0, 4)),
        digits_value(text.subrange(5, 7)),
        digits_value(text.subrange(8, 10)),
    )
}

/// Whether one date is the same as another or comes after it.
pub open spec fn not_before(later: Seq<char>, earlier: Seq<char>) -> bool {
    let (y, m, d) = (
        digits_value(later.subrange(0, 4)),
        digits_value(later.subrange(5, 7)),
        digits_value(later.subrange(8, 10)),
    );
    let (year, month, day) = (
        digits_value(earlier.subrange(0, 4)),
        digits_value(earlier.subrange(5, 7)),
        digits_value(earlier.subrange(8, 10)),
    );
    y > year || (y == year && (m > month || (m == month && d >= day)))
}

/// Whether a date is 28 July 2026 or later.
pub open spec fn from_july_2026(year: nat, month: nat, day: nat) -> bool {
    year > 2026 || (year == 2026 && (month > 7 || (month == 7 && day >= 28)))
}

/// Whether a protocol version is a calendar date from 28 July 2026 on.
pub open spec fn supports_requested_input(version: Option<Seq<char>>) -> bool {
    match version {
        Some(text) => {
            let year = digits_value(text.subrange(0, 4));
            let month = digits_value(text.subrange(5, 7));
            let day = digits_value(text.subrange(8, 10));
            is_date(text) && from_july_2026(year, month, day)
        },
        None => false,
    }
}

fn digit(c: char) -> (d: Option<u16>)
    ensures
        match d {
            Some(v) => is_digit(c) && v == c as nat - '0' as nat && v < 10,
            None => !is_digit(c),
        },
{
    if '0' <= c && c <= '9' {
        Some((c as u32 - '0' as u32) as u16)
    } else {
        None
    }
}

fn read_digits(chars: &Vec<char>, start: usize, end: usize) -> (value: Option<u16>)
    requires
        start <= end <= chars@.len(),
        end - start <= 4,
    ensures
        match value {
            Some(v) => (forall|i: int| start <= i < end ==> is_digit(#[trigger] chars@[i])) && v
                == digits_value(chars@.subrange(start as int, end as int)) && (end - start <= 2
                ==> v < 100),
            None => exists|i: int| start <= i < end && !is_digit(#[trigger] chars@[i]),
        },
{
    let mut v: u16 = 0;
    let mut i: usize = start;
    while i < end
        invariant
            start <= i <= end <= chars@.len(),
            end - start <= 4,
            forall|j: int| start <= j < i ==> is_digit(#[trigger] chars@[j]),
            v == digits_value(chars@.subrange(start as int, i as int)),
            i - start == 0 ==> v == 0,
            i - start == 1 ==> v < 10,
            i - start == 2 ==> v < 100,
            i - start == 3 ==> v < 1000,
            i - start == 4 ==> v < 10000,
        decreases end - i,
    {
        match digit(chars[i]) {
            Some(d) => {
                proof {
                    let next = chars@.subrange(start as int, i + 1);
                    assert(next.drop_last() =~= chars@.subrange(start as int, i as int));
                }
                v = v * 10 + d;
            },
            None => {
                return None;
            },
        }
        i = i + 1;
    }
    Some(v)
}

/// Whether the negotiated protocol version supports server-requested input: a
/// well-formed calendar date, not before 2026-07-28.
pub fn protocol_supports_sep_2322(protocol_version: Option<&str>) -> (supported: bool)
    ensures
        supported == supports_requested_input(str_view(protocol_version)),
{
    let version = match protocol_version {
        Some(v) => v,
        None => {
            return false;
        },
    };
    let chars = to_chars(version);
    if chars.len() != 10 || chars[4] != '-' || chars[7] != '-' {
        return false;
    }
    let year: u16 = match read_digits(&chars, 0, 4) {
        Some(v) => v,
        None => {
            return false;
        },
    };
    let month: u16 = match read_digits(&chars, 5, 7) {
        Some(v) => v,
        None => {
            return false;
        },
    };
    let day: u16 = match read_digits(&chars, 8, 10) {
        Some(v) => v,
        None => {
            return false;
        },
    };
    is_valid_gregorian_date(year, month as u8, day as u8) && (year > 2026 || (year == 2026 && (month
        > 7 || (month == 7 && day >= 28))))
}

/// Every revision after a supported one is supported, and every revision before one
/// that is not supported is not either.
pub proof fn law_newer_revisions_are_supported(newer: Seq<char>, older: Seq<char>)
    requires
        is_date(newer),
        is_date(older),
        not_before(newer, older),
    ensures
        supports_requested_input(Some(older)) ==> supports_requested_input(Some(newer)),
{
}

/// The months have thirty or thirty-one days in turn, starting over in August, and February
/// has twenty-eight, or twenty-nine in a leap year; a year has 365 days or 366.
pub proof fn law_calendar_is_gregorian(year: nat, month: nat)
    ensures
        1 <= month <= 12 && month != 2 ==> month_days(year, month) == 30 + (month + month / 8) % 2,
        month == 0 || month > 12 ==> month_days(year, month) == 0,
        is_leap_year(year) <==> month_days(year, 2) == 29,
        is_leap_year(year) <==> year % 4 == 0 && (year % 25 != 0 || year % 16 == 0),
        month_days(year, 1) + month_days(year, 2) + month_days(year, 3) + month_days(year, 4)
            + month_days(year, 5) + month_days(year, 6) + month_days(year, 7) + month_days(year, 8)
            + month_days(year, 9) + month_days(year, 10) + month_days(year, 11) + month_days(
            year,
            12,
        ) == if is_leap_year(year) {
            366int
        } else {
            365
        },
{
}

proof fn lemma_two_digits(text: Seq<char>, start: int)
    requires
        0 <= start <= text.len() - 2,
        is_digit(text[start]),
        is_digit(text[start + 1]),
    ensures
        digits_value(text.subrange(start, start + 2)) == (text[start] as int - '0' as int) * 10
            + (text[start + 1] as int - '0' as int),
{
    let two = text.subrange(start, start + 2);
    let one = two.drop_last();
    assert(one.drop_last().len() == 0);
    assert(digits_value(one.drop_last()) == 0);
    assert(one.last() == text[start] && two.last() == text[start + 1]);
    assert(digits_value(one) == text[start] as int - '0' as int);
    assert(digits_value(two) == digits_value(one) * 10 + (text[start + 1] as int - '0' as int));
}

proof fn lemma_four_digits(text: Seq<char>)
    requires
        text.len() >= 4,
        is_digit(text[0]),
        is_digit(text[1]),
        is_digit(text[2]),
        is_digit(text[3]),
    ensures
        digits_value(text.subrange(0, 4)) == (text[0] as int - '0' as int) * 1000 + (text[1] as int
            - '0' as int) * 100 + (text[2] as int - '0' as int) * 10 + (text[3] as int
            - '0' as int),
{
    let four = text.subrange(0, 4);
    let three = four.drop_last();
    assert(three.drop_last() =~= text.subrange(0, 2));
    lemma_two_digits(text, 0);
    assert(four.last() == text[3] && three.last() == text[2]);
    assert(digits_value(three) == digits_value(text.subrange(0, 2)) * 10 + (text[2] as int
        - '0' as int));
    assert(digits_value(four) == digits_value(three) * 10 + (text[3] as int - '0' as int));
}

proof fn lemma_dates_in_order(a: Seq<char>, b: Seq<char>, at: int)
    requires
        date_shaped(a),
        date_shaped(b),
        0 <= at < 10,
        a.take(at) == b.take(at),
        a[at] != b[at],
    ensures
        not_before(a, b) <==> a[at] > b[at],
{
    assert forall|i: int| 0 <= i < at implies #[trigger] a[i] == b[i] by {
        assert(a.take(at)[i] == a[i] && b.take(at)[i] == b[i]);
    }
    lemma_four_digits(a);
    lemma_four_digits(b);
    lemma_two_digits(a, 5);
    lemma_two_digits(b, 5);
    lemma_two_digits(a, 8);
    lemma_two_digits(b, 8);
    assert(is_digit(a[0]) && is_digit(b[0]) && is_digit(a[1]) && is_digit(b[1]));
    assert(is_digit(a[2]) && is_digit(b[2]) && is_digit(a[3]) && is_digit(b[3]));
    assert(is_digit(a[5]) && is_digit(b[5]) && is_digit(a[6]) && is_digit(b[6]));
    assert(is_digit(a[8]) && is_digit(b[8]) && is_digit(a[9]) && is_digit(b[9]));
}

/// The order of dates is the order of their texts, and a revision is supported exactly where
/// its text is a date that does not come before `2026-07-28`.
pub proof fn law_supported_revisions_are_dates_from_the_first_on(text: Seq<char>)
    ensures
        supports_requested_input(Some(text)) <==> is_date(text) && !crate::text::text_before(
            text,
            "2026-07-28"@,
        ),
        !supports_requested_input(None),
{
    reveal_strlit("2026-07-28");
    let first = "2026-07-28"@;
    if is_date(text) {
        assert(date_shaped(first));
        lemma_four_digits(first);
        lemma_two_digits(first, 5);
        lemma_two_digits(first, 8);
        if text == first {
            crate::text::law_first_difference_decides(text, first, 10);
        } else {
            assert(text.take(0) =~= first.take(0));
            let at = lemma_first_difference(text, first, 0);
            lemma_dates_in_order(text, first, at);
            crate::text::law_first_difference_decides(text, first, at);
        }
    }
}

proof fn lemma_first_difference(a: Seq<char>, b: Seq<char>, from: int) -> (at: int)
    requires
        a.len() == b.len(),
        a != b,
        0 <= from <= a.len(),
        a.take(from) == b.take(from),
    ensures
        from <= at < a.len(),
        a.take(at) == b.take(at),
        a[at] != b[at],
    decreases a.len() - from,
{
    if from == a.len() {
        assert(a.take(from) =~= a && b.take(from) =~= b);
        from
    } else if a[from] != b[from] {
        from
    } else {
        assert(a.take(from + 1) =~= a.take(from).push(a[from]));
        assert(b.take(from + 1) =~= b.take(from).push(b[from]));
        lemma_first_difference(a, b, from + 1)
    }
}

/// A date is a day of a month of a year: every month from the first to the twelfth has a
/// first day and at least twenty-eight of them, and no other month has any.
pub proof fn law_dates_are_days_of_months(year: nat, month: nat, day: nat)
    ensures
        gregorian_date(year, month, day) ==> year > 0 && 0 < month < 13 && 0 < day < 32,
        year > 0 && 0 < month < 13 && 0 < day < 29 ==> gregorian_date(year, month, day),
        gregorian_date(year, month, day) && day > 1 ==> gregorian_date(
            year,
            month,
            (day - 1) as nat,
        ),
        year > 0 ==> (gregorian_date(year, month, day) <==> 0 < day <= month_days(year, month)),
{
}

/// A date is written with four digits, two and two, and a hyphen between them.
pub proof fn law_dates_are_written_in_ten_characters(text: Seq<char>)
    ensures
        date_shaped(text) <==> text.len() == 10 && is_digit(text[0]) && is_digit(text[1])
            && is_digit(text[2]) && is_digit(text[3]) && text[4] == '-' && is_digit(text[5])
            && is_digit(text[6]) && text[7] == '-' && is_digit(text[8]) && is_digit(text[9]),
{
    if text.len() == 10 && is_digit(text[0]) && is_digit(text[1]) && is_digit(text[2]) && is_digit(
        text[3],
    ) && is_digit(text[5]) && is_digit(text[6]) && is_digit(text[8]) && is_digit(text[9]) {
        assert forall|i: int| 0 <= i < 10 && i != 4 && i != 7 implies is_digit(
            #[trigger] text[i],
        ) by {
            assert(i == 0 || i == 1 || i == 2 || i == 3 || i == 5 || i == 6 || i == 8 || i == 9);
        }
    }
}

} // verus!
