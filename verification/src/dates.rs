//! The date normalizer: "Month Day" labels anchored to a fixed reference
//! leap year, so that every calendar day — February 29 included — parses,
//! renders and has a well-defined successor.

use vstd::prelude::*;
use crate::errors::PipelineError;
use crate::text::first_occurrence;
use crate::text::lemma_first_occurrence_at;

verus! {

/// Days in each month of the reference leap year.
pub open spec fn days_in_month(m: int) -> int {
    if m == 1 {
        31
    } else if m == 2 {
        29
    } else if m == 3 {
        31
    } else if m == 4 {
        30
    } else if m == 5 {
        31
    } else if m == 6 {
        30
    } else if m == 7 {
        31
    } else if m == 8 {
        31
    } else if m == 9 {
        30
    } else if m == 10 {
        31
    } else if m == 11 {
        30
    } else if m == 12 {
        31
    } else {
        0
    }
}

/// Whether month `m`, day `d` is a day of the reference leap year.
pub open spec fn valid_date(m: int, d: int) -> bool {
    1 <= m <= 12 && 1 <= d <= days_in_month(m)
}

/// The full English name of month `m`.
pub open spec fn month_name(m: int) -> Seq<char> {
    if m == 1 {
        "January"@
    } else if m == 2 {
        "February"@
    } else if m == 3 {
        "March"@
    } else if m == 4 {
        "April"@
    } else if m == 5 {
        "May"@
    } else if m == 6 {
        "June"@
    } else if m == 7 {
        "July"@
    } else if m == 8 {
        "August"@
    } else if m == 9 {
        "September"@
    } else if m == 10 {
        "October"@
    } else if m == 11 {
        "November"@
    } else if m == 12 {
        "December"@
    } else {
        Seq::empty()
    }
}

/// The month whose name is `name`, or 0 when no month has that name.
pub open spec fn month_number(name: Seq<char>) -> int {
    if name == month_name(1) {
        1
    } else if name == month_name(2) {
        2
    } else if name == month_name(3) {
        3
    } else if name == month_name(4) {
        4
    } else if name == month_name(5) {
        5
    } else if name == month_name(6) {
        6
    } else if name == month_name(7) {
        7
    } else if name == month_name(8) {
        8
    } else if name == month_name(9) {
        9
    } else if name == month_name(10) {
        10
    } else if name == month_name(11) {
        11
    } else if name == month_name(12) {
        12
    } else {
        0
    }
}

/// Whether `c` is a decimal digit.
pub open spec fn is_digit(c: char) -> bool {
    48 <= c as int <= 57
}

/// The value of the digit `c`.
pub open spec fn digit_val(c: char) -> int {
    c as int - 48
}

/// The digit character for a value below ten.
pub open spec fn digit_char(v: int) -> char {
    if v == 0 {
        '0'
    } else if v == 1 {
        '1'
    } else if v == 2 {
        '2'
    } else if v == 3 {
        '3'
    } else if v == 4 {
        '4'
    } else if v == 5 {
        '5'
    } else if v == 6 {
        '6'
    } else if v == 7 {
        '7'
    } else if v == 8 {
        '8'
    } else {
        '9'
    }
}

/// A day of month written in decimal: one digit below ten, else two.
pub open spec fn day_digits(d: int) -> Seq<char> {
    if d < 10 {
        seq![digit_char(d)]
    } else {
        seq![digit_char(d / 10), digit_char(d % 10)]
    }
}

/// Whether `s` is one or two decimal digits.
pub open spec fn is_day_digits(s: Seq<char>) -> bool {
    (s.len() == 1 || s.len() == 2) && (forall|i: int| 0 <= i < s.len() ==> is_digit(s[i]))
}

/// The value of a one- or two-digit day.
pub open spec fn day_value(s: Seq<char>) -> int {
    if s.len() == 1 {
        digit_val(s[0])
    } else {
        10 * digit_val(s[0]) + digit_val(s[1])
    }
}

/// The canonical rendering of a label: full month name, one space, and the
/// day without a leading zero.
pub open spec fn render_label(m: int, d: int) -> Seq<char> {
    month_name(m) + seq![' '] + day_digits(d)
}

/// The month and day that the text `s` denotes, or `None` when `s` is not
/// a month name, one space, and a one- or two-digit day that falls inside
/// that month of the reference leap year.
pub open spec fn parse_label(s: Seq<char>) -> Option<(int, int)> {
    let i = first_occurrence(s, ' ');
    if i < 0 || i >= s.len() {
        None
    } else {
        let m = month_number(s.subrange(0, i));
        let rest = s.subrange(i + 1, s.len() as int);
        if m == 0 || !is_day_digits(rest) {
            None
        } else {
            let d = day_value(rest);
            if valid_date(m, d) {
                Some((m, d))
            } else {
                None
            }
        }
    }
}

/// The day after `(m, d)` in the reference leap year, wrapping from the
/// last day of the year to the first.
pub open spec fn succ_date(m: int, d: int) -> (int, int) {
    if d < days_in_month(m) {
        (m, d + 1)
    } else if m < 12 {
        (m + 1, 1)
    } else {
        (1, 1)
    }
}

/// A calendar day-of-year label, anchored to the reference leap year.
#[derive(Clone, Copy, PartialEq, Eq, Structural, Debug)]
pub struct DateLabel {
    pub month: u8,
    pub day: u8,
}

impl DateLabel {
    /// Well-formedness: the fields are a day of the reference leap year.
    pub open spec fn wf(&self) -> bool {
        valid_date(self.month as int, self.day as int)
    }
}

/// The length of month `m`.
pub fn month_length(m: u8) -> (r: u8)
    requires
        1 <= m <= 12,
    ensures
        r as int == days_in_month(m as int),
{
    if m == 2 {
        29
    } else if m == 4 || m == 6 || m == 9 || m == 11 {
        30
    } else {
        31
    }
}

/// The full English name of month `m`.
pub fn month_name_str(m: u8) -> (r: &'static str)
    requires
        1 <= m <= 12,
    ensures
        r@ == month_name(m as int),
{
    if m == 1 {
        "January"
    } else if m == 2 {
        "February"
    } else if m == 3 {
        "March"
    } else if m == 4 {
        "April"
    } else if m == 5 {
        "May"
    } else if m == 6 {
        "June"
    } else if m == 7 {
        "July"
    } else if m == 8 {
        "August"
    } else if m == 9 {
        "September"
    } else if m == 10 {
        "October"
    } else if m == 11 {
        "November"
    } else {
        "December"
    }
}

fn digit_str(v: u8) -> (r: &'static str)
    requires
        v <= 9,
    ensures
        r@ == seq![digit_char(v as int)],
{
    if v == 0 {
        proof {
            reveal_strlit("0");
            assert("0"@ =~= seq!['0']);
        }
        "0"
    } else if v == 1 {
        proof {
            reveal_strlit("1");
            assert("1"@ =~= seq!['1']);
        }
        "1"
    } else if v == 2 {
        proof {
            reveal_strlit("2");
            assert("2"@ =~= seq!['2']);
        }
        "2"
    } else if v == 3 {
        proof {
            reveal_strlit("3");
            assert("3"@ =~= seq!['3']);
        }
        "3"
    } else if v == 4 {
        proof {
            reveal_strlit("4");
            assert("4"@ =~= seq!['4']);
        }
        "4"
    } else if v == 5 {
        proof {
            reveal_strlit("5");
            assert("5"@ =~= seq!['5']);
        }
        "5"
    } else if v == 6 {
        proof {
            reveal_strlit("6");
            assert("6"@ =~= seq!['6']);
        }
        "6"
    } else if v == 7 {
        proof {
            reveal_strlit("7");
            assert("7"@ =~= seq!['7']);
        }
        "7"
    } else if v == 8 {
        proof {
            reveal_strlit("8");
            assert("8"@ =~= seq!['8']);
        }
        "8"
    } else {
        proof {
            reveal_strlit("9");
            assert("9"@ =~= seq!['9']);
        }
        "9"
    }
}

impl DateLabel {
    /// Render the label in its canonical form: full month name, one space,
    /// the day without a leading zero.
    pub fn render(&self) -> (r: String)
        requires
            self.wf(),
        ensures
            r@ == render_label(self.month as int, self.day as int),
    {
        let mut r = String::from_str(month_name_str(self.month));
        proof {
            reveal_strlit(" ");
            assert(" "@ =~= seq![' ']);
        }
        r.append(" ");
        if self.day < 10 {
            r.append(digit_str(self.day));
        } else {
            r.append(digit_str(self.day / 10));
            r.append(digit_str(self.day % 10));
            proof {
                assert((month_name(self.month as int) + seq![' ']) + (seq![digit_char(
                    self.day as int / 10,
                )] + seq![digit_char(self.day as int % 10)]) =~= ((month_name(self.month as int)
                    + seq![' ']) + seq![digit_char(self.day as int / 10)]) + seq![digit_char(
                    self.day as int % 10,
                )]);
            }
        }
        r
    }

    /// The label of the next calendar day, wrapping from December 31 to
    /// January 1.
    pub fn successor(&self) -> (r: DateLabel)
        requires
            self.wf(),
        ensures
            r.wf(),
            (r.month as int, r.day as int) == succ_date(self.month as int, self.day as int),
    {
        if self.day < month_length(self.month) {
            DateLabel { month: self.month, day: self.day + 1 }
        } else if self.month < 12 {
            DateLabel { month: self.month + 1, day: 1 }
        } else {
            DateLabel { month: 1, day: 1 }
        }
    }

    /// The boundary label the locator should search for: the next day's
    /// label, or `None` on the final day of the cycle (December 31), whose
    /// entry runs to the end of the document.
    pub fn successor_boundary(&self) -> (r: Option<DateLabel>)
        requires
            self.wf(),
        ensures
            self.month == 12 && self.day == 31 ==> r is None,
            !(self.month == 12 && self.day == 31) ==> r == Some(
                DateLabel {
                    month: succ_date(self.month as int, self.day as int).0 as u8,
                    day: succ_date(self.month as int, self.day as int).1 as u8,
                },
            ),
    {
        if self.month == 12 && self.day == 31 {
            None
        } else {
            Some(self.successor())
        }
    }
}

fn month_from_name(part: &str) -> (m: u8)
    ensures
        m as int == month_number(part@),
{
    if crate::text::str_eq(part, "January") {
        1
    } else if crate::text::str_eq(part, "February") {
        2
    } else if crate::text::str_eq(part, "March") {
        3
    } else if crate::text::str_eq(part, "April") {
        4
    } else if crate::text::str_eq(part, "May") {
        5
    } else if crate::text::str_eq(part, "June") {
        6
    } else if crate::text::str_eq(part, "July") {
        7
    } else if crate::text::str_eq(part, "August") {
        8
    } else if crate::text::str_eq(part, "September") {
        9
    } else if crate::text::str_eq(part, "October") {
        10
    } else if crate::text::str_eq(part, "November") {
        11
    } else if crate::text::str_eq(part, "December") {
        12
    } else {
        0
    }
}

impl DateLabel {
    /// Parse a "Month Day" label: accepted exactly when the text is a full
    /// month name, one space, and a one- or two-digit day that is a day of
    /// that month in the reference leap year.
    pub fn parse(s: &str) -> (r: Result<DateLabel, PipelineError>)
        ensures
            match r {
                Ok(l) => l.wf() && parse_label(s@) == Some((l.month as int, l.day as int)),
                Err(e) => parse_label(s@) is None && e == PipelineError::InvalidDate,
            },
    {
        let len = s.unicode_len();
        let mut i: usize = 0;
        while i < len && s.get_char(i) != ' '
            invariant
                len == s@.len(),
                0 <= i <= len,
                forall|k: int| 0 <= k < i ==> s@[k] != ' ',
            decreases len - i,
        {
            i += 1;
        }
        proof {
            lemma_first_occurrence_at(s@, ' ', i as int);
        }
        if i == len {
            return Err(PipelineError::InvalidDate);
        }
        let month_part = s.substring_char(0, i);
        let day_part = s.substring_char(i + 1, len);
        let m = month_from_name(month_part);
        if m == 0 {
            return Err(PipelineError::InvalidDate);
        }
        let dlen = day_part.unicode_len();
        if dlen == 0 || dlen > 2 {
            proof {
                assert(!is_day_digits(day_part@));
            }
            return Err(PipelineError::InvalidDate);
        }
        let c0 = day_part.get_char(0);
        let v0 = c0 as u32;
        if v0 < 48 || v0 > 57 {
            proof {
                assert(!is_digit(day_part@[0]));
                assert(!is_day_digits(day_part@));
            }
            return Err(PipelineError::InvalidDate);
        }
        let mut d: u8 = (v0 - 48) as u8;
        if dlen == 2 {
            let c1 = day_part.get_char(1);
            let v1 = c1 as u32;
            if v1 < 48 || v1 > 57 {
                proof {
                    assert(!is_digit(day_part@[1]));
                    assert(!is_day_digits(day_part@));
                }
                return Err(PipelineError::InvalidDate);
            }
            d = 10 * d + (v1 - 48) as u8;
        }
        proof {
            assert(is_day_digits(day_part@));
            assert(d as int == day_value(day_part@));
        }
        if d == 0 || d > month_length(m) {
            return Err(PipelineError::InvalidDate);
        }
        Ok(DateLabel { month: m, day: d })
    }
}

/// Relies on chrono: `Local::now().date_naive()` is a real calendar date,
/// and `Datelike::month` and `Datelike::day` on it return the month number
/// (1 to 12) and the day of that month (1 up to the month's length). Every
/// real month/day pair is a day of the reference leap year, whose February
/// is the long one.
#[verifier::external_body]
fn current_month_day() -> (r: (u8, u8))
    ensures
        valid_date(r.0 as int, r.1 as int),
{
    let today = chrono::Local::now().date_naive();
    let m = chrono::Datelike::month(&today) as u8;
    let d = chrono::Datelike::day(&today) as u8;
    (m, d)
}

/// Today's calendar day, re-anchored to the reference leap year.
pub fn today_as_label() -> (r: DateLabel)
    ensures
        r.wf(),
{
    let (m, d) = current_month_day();
    DateLabel { month: m, day: d }
}

/// Month names hold no space, and each maps back to its own month number.
proof fn lemma_month_table()
    ensures
        forall|m: int| 1 <= m <= 12 ==> #[trigger] month_number(month_name(m)) == m,
        forall|m: int, i: int|
            1 <= m <= 12 && 0 <= i < month_name(m).len() ==> #[trigger] month_name(m)[i] != ' ',
        forall|m: int| 1 <= m <= 12 ==> 3 <= #[trigger] month_name(m).len() <= 9,
{
    reveal_strlit("January");
    reveal_strlit("February");
    reveal_strlit("March");
    reveal_strlit("April");
    reveal_strlit("May");
    reveal_strlit("June");
    reveal_strlit("July");
    reveal_strlit("August");
    reveal_strlit("September");
    reveal_strlit("October");
    reveal_strlit("November");
    reveal_strlit("December");
    assert("January"@.len() == 7);
    assert("February"@.len() == 8);
    assert("March"@.len() == 5);
    assert("April"@.len() == 5);
    assert("May"@.len() == 3);
    assert("June"@.len() == 4);
    assert("July"@.len() == 4);
    assert("August"@.len() == 6);
    assert("September"@.len() == 9);
    assert("October"@.len() == 7);
    assert("November"@.len() == 8);
    assert("December"@.len() == 8);
    assert("October"@[0] == 'O' && "January"@[0] == 'J');
    assert("November"@[0] == 'N' && "February"@[0] == 'F');
    assert("December"@[0] == 'D');
    assert("April"@[0] == 'A' && "March"@[0] == 'M');
    assert("July"@[2] == 'l' && "June"@[2] == 'n');
    assert(month_number(month_name(1)) == 1);
    assert(month_number(month_name(2)) == 2);
    assert(month_number(month_name(3)) == 3);
    assert(month_number(month_name(4)) == 4);
    assert(month_number(month_name(5)) == 5);
    assert(month_number(month_name(6)) == 6);
    assert(month_number(month_name(7)) == 7);
    assert(month_number(month_name(8)) == 8);
    assert(month_number(month_name(9)) == 9);
    assert(month_number(month_name(10)) == 10);
    assert(month_number(month_name(11)) == 11);
    assert(month_number(month_name(12)) == 12);
    assert(forall|i: int| 0 <= i < "January"@.len() ==> "January"@[i] != ' ');
    assert(forall|i: int| 0 <= i < "February"@.len() ==> "February"@[i] != ' ');
    assert(forall|i: int| 0 <= i < "March"@.len() ==> "March"@[i] != ' ');
    assert(forall|i: int| 0 <= i < "April"@.len() ==> "April"@[i] != ' ');
    assert(forall|i: int| 0 <= i < "May"@.len() ==> "May"@[i] != ' ');
    assert(forall|i: int| 0 <= i < "June"@.len() ==> "June"@[i] != ' ');
    assert(forall|i: int| 0 <= i < "July"@.len() ==> "July"@[i] != ' ');
    assert(forall|i: int| 0 <= i < "August"@.len() ==> "August"@[i] != ' ');
    assert(forall|i: int| 0 <= i < "September"@.len() ==> "September"@[i] != ' ');
    assert(forall|i: int| 0 <= i < "October"@.len() ==> "October"@[i] != ' ');
    assert(forall|i: int| 0 <= i < "November"@.len() ==> "November"@[i] != ' ');
    assert(forall|i: int| 0 <= i < "December"@.len() ==> "December"@[i] != ' ');
}

/// Rendering a valid label in its canonical form and parsing that text
/// back yields the same month and day: labels round-trip through text.
pub proof fn lemma_render_parse_round_trip(m: int, d: int)
    requires
        valid_date(m, d),
    ensures
        parse_label(render_label(m, d)) == Some((m, d)),
{
    lemma_month_table();
    let name = month_name(m);
    let dd = day_digits(d);
    let s = render_label(m, d);
    assert(forall|v: int| 0 <= v <= 9 ==> digit_val(#[trigger] digit_char(v)) == v);
    if d < 10 {
        assert(is_digit(dd[0]));
        assert(is_day_digits(dd));
        assert(day_value(dd) == d);
    } else {
        assert(1 <= d / 10 <= 3 && 0 <= d % 10 <= 9);
        assert(is_digit(dd[0]) && is_digit(dd[1]));
        assert(is_day_digits(dd));
        assert(day_value(dd) == 10 * (d / 10) + (d % 10));
        assert(10 * (d / 10) + (d % 10) == d);
    }
    assert(name.len() >= 3);
    assert(s.len() == name.len() + 1 + dd.len());
    assert(forall|k: int| 0 <= k < name.len() ==> s[k] == name[k]);
    assert(s[name.len() as int] == ' ');
    lemma_first_occurrence_at(s, ' ', name.len() as int);
    assert(s.subrange(0, name.len() as int) =~= name);
    assert(s.subrange(name.len() as int + 1, s.len() as int) =~= dd);
    assert(month_number(s.subrange(0, name.len() as int)) == m);
}

/// The calendar successor of a valid day is itself a valid day.
pub proof fn lemma_succ_valid(m: int, d: int)
    requires
        valid_date(m, d),
    ensures
        valid_date(succ_date(m, d).0, succ_date(m, d).1),
{
}

/// Taking the successor of any day of the reference leap year, rendering
/// it, and parsing the rendered text recovers exactly that successor:
/// successor labels are stable under a round trip through text.
pub proof fn lemma_successor_round_trip(m: int, d: int)
    requires
        valid_date(m, d),
    ensures
        ({
            let (m2, d2) = succ_date(m, d);
            &&& valid_date(m2, d2)
            &&& parse_label(render_label(m2, d2)) == Some((m2, d2))
        }),
{
    let (m2, d2) = succ_date(m, d);
    lemma_succ_valid(m, d);
    lemma_render_parse_round_trip(m2, d2);
}

} // verus!
