//! Type inference and self-contained string-to-typed coercion.
//!
//! Numbers follow the numeral grammar; dates parse via our own ISO parser returning epoch
//! seconds, with no system locale. Inference sniffs a whole column: all-numeric =>
//! quantitative, all-date => temporal, else nominal. Ordinal is only ever declared, never
//! inferred.

use crate::calendar;
use crate::dsl::DataType;
use crate::numeral;
use crate::numeral::Number;
use crate::text;
use crate::views;
use vstd::prelude::*;

verus! {

/// A typed scalar after coercion. Temporal is epoch seconds (UTC). An unparseable
/// or empty cell becomes `Missing`, which the resolver drops with a diagnostic.
#[derive(Debug, PartialEq, Eq)]
pub enum Value {
    Number(Number),
    Time(i64),
    Category(String),
    Missing,
}

/// What a [`Value`] is.
#[verifier::ext_equal]
pub enum ValueModel {
    Number(Seq<char>),
    Time(int),
    Category(Seq<char>),
    Missing,
}

impl View for Value {
    type V = ValueModel;

    open spec fn view(&self) -> ValueModel {
        match self {
            Value::Number(n) => ValueModel::Number(n@),
            Value::Time(t) => ValueModel::Time(*t as int),
            Value::Category(s) => ValueModel::Category(s@),
            Value::Missing => ValueModel::Missing,
        }
    }
}

impl Clone for Value {
    fn clone(&self) -> (r: Self)
        ensures
            r == *self,
    {
        match self {
            Value::Number(n) => Value::Number(n.clone()),
            Value::Time(t) => Value::Time(*t),
            Value::Category(s) => Value::Category(s.clone()),
            Value::Missing => Value::Missing,
        }
    }
}

// --- Dates ------------------------------------------------------------------------

/// A calendar year: exactly four digits.
pub open spec fn is_year(s: Seq<char>) -> bool {
    s.len() == 4 && text::all_digits(s)
}

/// A month, day, hour, minute or second: one or two digits.
pub open spec fn is_field(s: Seq<char>) -> bool {
    1 <= s.len() <= 2 && text::all_digits(s)
}

/// The year, month and day of a date written as three fields between separators. Every month
/// may have a day up to the 31st.
pub open spec fn ymd(s: Seq<char>, sep: char) -> Option<(int, int, int)> {
    let parts = text::split(s, sep);
    if parts.len() == 3 && is_year(parts[0]) && is_field(parts[1]) && is_field(parts[2]) && 1
        <= text::digits_value(parts[1]) <= 12 && 1 <= text::digits_value(parts[2]) <= 31 {
        Some(
            (
                text::digits_value(parts[0]),
                text::digits_value(parts[1]),
                text::digits_value(parts[2]),
            ),
        )
    } else {
        None
    }
}

/// The second of the day of a time written `HH:MM:SS`.
pub open spec fn hms(s: Seq<char>) -> Option<int> {
    let parts = text::split(s, ':');
    if parts.len() == 3 && is_field(parts[0]) && is_field(parts[1]) && is_field(parts[2])
        && text::digits_value(parts[0]) < 24 && text::digits_value(parts[1]) < 60
        && text::digits_value(parts[2]) < 60 {
        Some(
            text::digits_value(parts[0]) * 3600 + text::digits_value(parts[1]) * 60
                + text::digits_value(parts[2]),
        )
    } else {
        None
    }
}

/// The start of a day in seconds since 1970-01-01T00:00:00.
pub open spec fn day_seconds(date: (int, int, int)) -> int {
    calendar::day_number(date.0, date.1, date.2) * 86_400
}

/// The epoch seconds a text without white space around it denotes as a date: a date and a time
/// of day around a `T`, a date with slashes, a month, or a date with dashes.
pub open spec fn date_of(s: Seq<char>) -> Option<int> {
    match text::find(s, 'T') {
        Some(i) => match (ymd(s.take(i), '-'), hms(s.skip(i + 1))) {
            (Some(date), Some(secs)) => Some(day_seconds(date) + secs),
            _ => None,
        },
        None => if text::find(s, '/') is Some {
            match ymd(s, '/') {
                Some(date) => Some(day_seconds(date)),
                None => None,
            }
        } else if text::split(s, '-').len() == 2 {
            let parts = text::split(s, '-');
            if is_year(parts[0]) && is_field(parts[1]) && 1 <= text::digits_value(parts[1]) <= 12 {
                Some(day_seconds((text::digits_value(parts[0]), text::digits_value(parts[1]), 1)))
            } else {
                None
            }
        } else {
            match ymd(s, '-') {
                Some(date) => Some(day_seconds(date)),
                None => None,
            }
        },
    }
}

/// The value of a year field, or nothing when it is not exactly four digits.
fn parse_year(chars: &Vec<char>, from: usize, to: usize) -> (r: Option<i64>)
    requires
        from <= to <= chars.len(),
    ensures
        r == (if is_year(chars@.subrange(from as int, to as int)) {
            Some(text::digits_value(chars@.subrange(from as int, to as int)) as i64)
        } else {
            None
        }),
        r matches Some(v) ==> 0 <= v < 10000 && v == text::digits_value(
            chars@.subrange(from as int, to as int),
        ),
{
    if to - from != 4 || !text::digits_only(chars, from, to) {
        return None;
    }
    Some(text::short_value(chars, from, to) as i64)
}

/// The value of a one- or two-digit field, or nothing when it is not one.
fn parse_int(chars: &Vec<char>, from: usize, to: usize) -> (r: Option<u32>)
    requires
        from <= to <= chars.len(),
    ensures
        r is Some == is_field(chars@.subrange(from as int, to as int)),
        r matches Some(v) ==> v < 10000 && v == text::digits_value(
            chars@.subrange(from as int, to as int),
        ),
{
    if from == to || to - from > 2 || !text::digits_only(chars, from, to) {
        return None;
    }
    Some(text::short_value(chars, from, to))
}

/// The year, month and day that `chars[from..to]` denotes with the given separator.
fn parse_ymd(chars: &Vec<char>, from: usize, to: usize, sep: char) -> (r: Option<(i64, u32, u32)>)
    requires
        from <= to <= chars.len(),
    ensures
        match r {
            Some(d) => {
                &&& ymd(chars@.subrange(from as int, to as int), sep) == Some(
                    (d.0 as int, d.1 as int, d.2 as int),
                )
                &&& 0 <= d.0 < 10000
                &&& 1 <= d.1 <= 12
                &&& 1 <= d.2 <= 31
            },
            None => ymd(chars@.subrange(from as int, to as int), sep) is None,
        },
{
    let parts = text::split_bounds(chars, sep, from, to);
    if parts.len() != 3 {
        return None;
    }
    let y = parts[0];
    let m = parts[1];
    let d = parts[2];
    match (
        parse_year(chars, y.0, y.1),
        parse_int(chars, m.0, m.1),
        parse_int(chars, d.0, d.1),
    ) {
        (Some(year), Some(month), Some(day)) => {
            if 1 <= month && month <= 12 && 1 <= day && day <= 31 {
                Some((year, month, day))
            } else {
                None
            }
        },
        _ => None,
    }
}

/// The second of the day that `chars[from..to]` denotes.
fn parse_hms(chars: &Vec<char>, from: usize, to: usize) -> (r: Option<i64>)
    requires
        from <= to <= chars.len(),
    ensures
        match r {
            Some(t) => hms(chars@.subrange(from as int, to as int)) == Some(t as int) && 0 <= t
                < 86_400,
            None => hms(chars@.subrange(from as int, to as int)) is None,
        },
{
    let parts = text::split_bounds(chars, ':', from, to);
    if parts.len() != 3 {
        return None;
    }
    let h = parts[0];
    let m = parts[1];
    let s = parts[2];
    match (parse_int(chars, h.0, h.1), parse_int(chars, m.0, m.1), parse_int(chars, s.0, s.1)) {
        (Some(hour), Some(minute), Some(second)) => {
            if hour < 24 && minute < 60 && second < 60 {
                Some(hour as i64 * 3600 + minute as i64 * 60 + second as i64)
            } else {
                None
            }
        },
        _ => None,
    }
}

/// The start of a day with a four-digit year is within a few hundred billion seconds of the
/// epoch.
proof fn lemma_day_seconds_bound(y: int, m: int, d: int)
    requires
        0 <= y < 10000,
        1 <= m <= 12,
        1 <= d <= 31,
    ensures
        -63_000_000_000 < day_seconds((y, m, d)) < 254_000_000_000,
{
    reveal_with_fuel(calendar::days_before_month, 13);
    assert(calendar::days_before_year(1970) == 719_162);
}

/// The epoch seconds of the start of a valid day.
fn start_of_day(y: i64, m: u32, d: u32) -> (r: i64)
    requires
        0 <= y < 10000,
        1 <= m <= 12,
        1 <= d <= 31,
    ensures
        r == day_seconds((y as int, m as int, d as int)),
        -63_000_000_000 < r < 254_000_000_000,
{
    proof {
        lemma_day_seconds_bound(y as int, m as int, d as int);
    }
    calendar::days_from_civil(y, m, d) * 86_400
}

/// Parse a supported ISO date into epoch seconds (UTC, no timezone handling).
/// Accepts `YYYY-MM-DD`, `YYYY-MM`, `YYYY/MM/DD`, and `YYYY-MM-DDTHH:MM:SS`.
/// Returns `None` for any other shape or an out-of-range field.
pub fn parse_date(s: &str) -> (r: Option<i64>)
    ensures
        match r {
            Some(t) => date_of(text::trimmed(s@)) == Some(t as int),
            None => date_of(text::trimmed(s@)) is None,
        },
{
    let chars = text::chars_of(s);
    let (from, to) = text::trim_bounds(&chars);
    let ghost whole = chars@.subrange(from as int, to as int);
    let t = text::seek(&chars, 'T', from, to);
    if t < to {
        assert(whole.take(t - from) =~= chars@.subrange(from as int, t as int));
        assert(whole.skip(t - from + 1) =~= chars@.subrange(t + 1, to as int));
        return match (parse_ymd(&chars, from, t, '-'), parse_hms(&chars, t + 1, to)) {
            (Some((y, m, d)), Some(secs)) => Some(start_of_day(y, m, d) + secs),
            _ => None,
        };
    }
    let slash = text::seek(&chars, '/', from, to);
    if slash < to {
        return match parse_ymd(&chars, from, to, '/') {
            Some((y, m, d)) => Some(start_of_day(y, m, d)),
            None => None,
        };
    }
    let parts = text::split_bounds(&chars, '-', from, to);
    if parts.len() == 2 {
        let y = parts[0];
        let m = parts[1];
        return match (parse_year(&chars, y.0, y.1), parse_int(&chars, m.0, m.1)) {
            (Some(year), Some(month)) => if 1 <= month && month <= 12 {
                Some(start_of_day(year, month, 1))
            } else {
                None
            },
            _ => None,
        };
    }
    match parse_ymd(&chars, from, to, '-') {
        Some((y, m, d)) => Some(start_of_day(y, m, d)),
        None => None,
    }
}

// --- Inference and coercion -------------------------------------------------------

/// Whether a cell holds anything but white space.
pub open spec fn is_filled(cell: Seq<char>) -> bool {
    text::trimmed(cell).len() > 0
}

/// Whether every filled cell is a number.
pub open spec fn all_numbers(cells: Seq<Seq<char>>) -> bool {
    forall|i: int|
        0 <= i < cells.len() && is_filled(#[trigger] cells[i]) ==> numeral::is_numeral(
            text::trimmed(cells[i]),
        )
}

/// Whether every filled cell is a date.
pub open spec fn all_dates(cells: Seq<Seq<char>>) -> bool {
    forall|i: int|
        0 <= i < cells.len() && is_filled(#[trigger] cells[i]) ==> date_of(text::trimmed(cells[i]))
            is Some
}

/// The type a column's filled cells have in common. A column without any is nominal.
pub open spec fn inferred(cells: Seq<Seq<char>>) -> DataType {
    if forall|i: int| 0 <= i < cells.len() ==> !is_filled(#[trigger] cells[i]) {
        DataType::Nominal
    } else if all_numbers(cells) {
        DataType::Quantitative
    } else if all_dates(cells) {
        DataType::Temporal
    } else {
        DataType::Nominal
    }
}

/// A cell read as a value of the given type.
pub open spec fn coerced(cell: Seq<char>, ty: DataType) -> ValueModel {
    let t = text::trimmed(cell);
    if t.len() == 0 {
        ValueModel::Missing
    } else {
        match ty {
            DataType::Quantitative => if numeral::is_numeral(t) {
                ValueModel::Number(t)
            } else {
                ValueModel::Missing
            },
            DataType::Temporal => match date_of(t) {
                Some(secs) => ValueModel::Time(secs),
                None => ValueModel::Missing,
            },
            DataType::Ordinal | DataType::Nominal => ValueModel::Category(t),
        }
    }
}

/// Infer a column's type by sniffing all non-empty cells. Returns `Quantitative`
/// if every non-empty cell parses as a number, `Temporal` if every one parses as
/// a supported date, otherwise `Nominal`. An all-empty column is `Nominal`.
pub fn infer_type(cells: &[String]) -> (r: DataType)
    ensures
        r == inferred(views::views(cells@)),
{
    let ghost all = views::views(cells@);
    let mut any = false;
    let mut numbers = true;
    let mut dates = true;
    let mut i: usize = 0;
    while i < cells.len()
        invariant
            i <= cells.len(),
            all == views::views(cells@),
            any == exists|k: int| 0 <= k < i && is_filled(#[trigger] all[k]),
            numbers == forall|k: int|
                0 <= k < i && is_filled(#[trigger] all[k]) ==> numeral::is_numeral(
                    text::trimmed(all[k]),
                ),
            dates == forall|k: int|
                0 <= k < i && is_filled(#[trigger] all[k]) ==> date_of(text::trimmed(all[k]))
                    is Some,
        decreases cells.len() - i,
    {
        let cell = text::trim(cells[i].as_str());
        assert(all[i as int] == cells@[i as int]@);
        if cell.unicode_len() > 0 {
            proof {
                text::law_trim_idempotent(all[i as int]);
            }
            assert(is_filled(all[i as int]));
            any = true;
            numbers = numbers && numeral::denotes_number(cell);
            dates = dates && parse_date(cell).is_some();
        }
        i = i + 1;
    }
    if !any {
        return DataType::Nominal;
    }
    if numbers {
        return DataType::Quantitative;
    }
    if dates {
        return DataType::Temporal;
    }
    DataType::Nominal
}

/// Coerce one cell to the declared/inferred type. An empty or unparseable cell
/// yields `Value::Missing`; the caller records a diagnostic. Ordinal and Nominal
/// both coerce to `Category` (ordinal ordering is the resolver's concern).
pub fn coerce(cell: &str, ty: DataType) -> (r: Value)
    ensures
        r@ == coerced(cell@, ty),
{
    let t = text::trim(cell);
    if t.unicode_len() == 0 {
        return Value::Missing;
    }
    match ty {
        DataType::Quantitative => match Number::parse(t) {
            Some(n) => Value::Number(n),
            None => Value::Missing,
        },
        DataType::Temporal => {
            proof {
                text::law_trim_idempotent(cell@);
            }
            match parse_date(t) {
                Some(secs) => Value::Time(secs),
                None => Value::Missing,
            }
        },
        DataType::Ordinal | DataType::Nominal => Value::Category(t.to_owned()),
    }
}

// --- Laws -------------------------------------------------------------------------

/// Three fields behind each other, with a separator between them.
pub open spec fn three_fields(a: Seq<char>, b: Seq<char>, c: Seq<char>, sep: char) -> Seq<char> {
    a + seq![sep] + (b + seq![sep] + c)
}

/// Three fields without a separator in them are the pieces of their text.
proof fn lemma_three_fields(a: Seq<char>, b: Seq<char>, c: Seq<char>, sep: char)
    requires
        text::lacks(a, sep),
        text::lacks(b, sep),
        text::lacks(c, sep),
    ensures
        text::split(three_fields(a, b, c, sep), sep) == seq![a, b, c],
{
    text::lemma_split_cons(a, sep, b + seq![sep] + c);
    text::lemma_split_cons(b, sep, c);
    text::lemma_split_one(c, sep);
    assert(text::split(three_fields(a, b, c, sep), sep) =~= seq![a, b, c]);
}

/// The digits of three fields hold no character but digits and separators.
proof fn lemma_three_fields_lack(a: Seq<char>, b: Seq<char>, c: Seq<char>, sep: char, other: char)
    requires
        text::all_digits(a),
        text::all_digits(b),
        text::all_digits(c),
        !text::is_digit(other),
        sep != other,
    ensures
        text::lacks(three_fields(a, b, c, sep), other),
{
    text::lemma_digits_lack(a, other);
    text::lemma_digits_lack(b, other);
    text::lemma_digits_lack(c, other);
    text::lemma_joined_lack(b, sep, c, other);
    text::lemma_joined_lack(a, sep, b + seq![sep] + c, other);
}

/// A date written `YYYY-MM-DD` or `YYYY/MM/DD`, with one or two digits for the month and the day,
/// reads as the start of its day; one whose month is not from 1 to 12, or whose day is not from 1
/// to 31, does not read.
pub proof fn law_reading_a_date(y: Seq<char>, m: Seq<char>, d: Seq<char>, sep: char)
    requires
        sep == '-' || sep == '/',
        y.len() == 4 && text::all_digits(y),
        1 <= m.len() <= 2 && text::all_digits(m),
        1 <= d.len() <= 2 && text::all_digits(d),
    ensures
        ({
            let (month, day) = (text::digits_value(m), text::digits_value(d));
            date_of(three_fields(y, m, d, sep)) == (if 1 <= month <= 12 && 1 <= day <= 31 {
                Some(86_400 * calendar::day_number(text::digits_value(y), month, day))
            } else {
                None
            })
        }),
{
    let s = three_fields(y, m, d, sep);
    lemma_three_fields_lack(y, m, d, sep, 'T');
    text::lemma_find_lacking(s, 'T');
    text::lemma_digits_lack(y, sep);
    text::lemma_digits_lack(m, sep);
    text::lemma_digits_lack(d, sep);
    lemma_three_fields(y, m, d, sep);
    if sep == '-' {
        lemma_three_fields_lack(y, m, d, sep, '/');
        text::lemma_find_lacking(s, '/');
    } else {
        text::lemma_find_lacking(s, '/');
        assert(s[4] == '/');
    }
}

/// A month written `YYYY-MM` reads as the start of its first day.
pub proof fn law_reading_a_month(y: Seq<char>, m: Seq<char>)
    requires
        y.len() == 4 && text::all_digits(y),
        1 <= m.len() <= 2 && text::all_digits(m),
    ensures
        date_of(y + seq!['-'] + m) == (if 1 <= text::digits_value(m) <= 12 {
            Some(86_400 * calendar::day_number(text::digits_value(y), text::digits_value(m), 1))
        } else {
            None
        }),
{
    let s = y + seq!['-'] + m;
    text::lemma_digits_lack(y, 'T');
    text::lemma_digits_lack(m, 'T');
    text::lemma_digits_lack(y, '/');
    text::lemma_digits_lack(m, '/');
    text::lemma_digits_lack(y, '-');
    text::lemma_digits_lack(m, '-');
    text::lemma_joined_lack(y, '-', m, 'T');
    text::lemma_joined_lack(y, '-', m, '/');
    text::lemma_find_lacking(s, 'T');
    text::lemma_find_lacking(s, '/');
    text::lemma_split_cons(y, '-', m);
    text::lemma_split_one(m, '-');
    assert(text::split(s, '-') =~= seq![y, m]);
}

/// A date and a time of day written `YYYY-MM-DDTHH:MM:SS` read as the start of the day, plus 3600
/// seconds for each hour, 60 for each minute and one for each second; a time past 23:59:59 does
/// not read, nor does one behind a date that does not.
pub proof fn law_reading_a_moment(
    y: Seq<char>,
    m: Seq<char>,
    d: Seq<char>,
    hour: Seq<char>,
    minute: Seq<char>,
    second: Seq<char>,
)
    requires
        y.len() == 4 && text::all_digits(y),
        1 <= m.len() <= 2 && text::all_digits(m),
        1 <= d.len() <= 2 && text::all_digits(d),
        1 <= hour.len() <= 2 && text::all_digits(hour),
        1 <= minute.len() <= 2 && text::all_digits(minute),
        1 <= second.len() <= 2 && text::all_digits(second),
    ensures
        ({
            let (hh, mm, ss) = (
                text::digits_value(hour),
                text::digits_value(minute),
                text::digits_value(second),
            );
            let date = three_fields(y, m, d, '-');
            date_of(date + seq!['T'] + three_fields(hour, minute, second, ':')) == (
            match date_of(date) {
                Some(day) => if hh < 24 && mm < 60 && ss < 60 {
                    Some(day + 3600 * hh + 60 * mm + ss)
                } else {
                    None
                },
                None => None,
            })
        }),
{
    let date = three_fields(y, m, d, '-');
    let time = three_fields(hour, minute, second, ':');
    law_reading_a_date(y, m, d, '-');
    lemma_three_fields_lack(y, m, d, '-', 'T');
    text::lemma_find_behind(date, 'T', time);
    text::lemma_digits_lack(y, '-');
    text::lemma_digits_lack(m, '-');
    text::lemma_digits_lack(d, '-');
    lemma_three_fields(y, m, d, '-');
    text::lemma_digits_lack(hour, ':');
    text::lemma_digits_lack(minute, ':');
    text::lemma_digits_lack(second, ':');
    lemma_three_fields(hour, minute, second, ':');
}

/// Three pieces with the separator between them are the text they were split from.
proof fn lemma_three_pieces(s: Seq<char>, sep: char)
    requires
        text::split(s, sep).len() == 3,
    ensures
        s == three_fields(
            text::split(s, sep)[0],
            text::split(s, sep)[1],
            text::split(s, sep)[2],
            sep,
        ),
{
    let parts = text::split(s, sep);
    text::law_splitting_cuts_at_every_separator(s, sep);
    reveal_with_fuel(text::rejoined, 4);
    assert(parts.skip(1).skip(1) =~= seq![parts[2]]);
}

/// Whether a text is a date in one of the forms that are read: `YYYY-MM-DD`, `YYYY/MM/DD`,
/// `YYYY-MM` or `YYYY-MM-DDTHH:MM:SS`, written with the given fields.
pub open spec fn is_written_date(s: Seq<char>, f: Seq<Seq<char>>) -> bool {
    &&& f.len() == 2 || f.len() == 3 || f.len() == 6
    &&& forall|k: int| 0 <= k < f.len() ==> text::all_digits(#[trigger] f[k])
    &&& f[0].len() == 4
    &&& forall|k: int| 0 < k < f.len() ==> 1 <= (#[trigger] f[k]).len() <= 2
    &&& f.len() == 2 ==> s == f[0] + seq!['-'] + f[1]
    &&& f.len() == 3 ==> s == three_fields(f[0], f[1], f[2], '-') || s == three_fields(
        f[0],
        f[1],
        f[2],
        '/',
    )
    &&& f.len() == 6 ==> s == three_fields(f[0], f[1], f[2], '-') + seq!['T'] + three_fields(
        f[3],
        f[4],
        f[5],
        ':',
    )
}

/// Nothing else reads as a date: what does is written in one of the forms.
pub proof fn law_only_dates_are_read(s: Seq<char>) -> (f: Seq<Seq<char>>)
    ensures
        date_of(s) is Some ==> is_written_date(s, f),
{
    if date_of(s) is None {
        return seq![];
    }
    text::lemma_find_parts(s, 'T');
    if let Some(i) = text::find(s, 'T') {
        let (a, b) = (text::split(s.take(i), '-'), text::split(s.skip(i + 1), ':'));
        lemma_three_pieces(s.take(i), '-');
        lemma_three_pieces(s.skip(i + 1), ':');
        seq![a[0], a[1], a[2], b[0], b[1], b[2]]
    } else if text::find(s, '/') is Some {
        lemma_three_pieces(s, '/');
        text::split(s, '/')
    } else if text::split(s, '-').len() == 2 {
        let parts = text::split(s, '-');
        text::law_splitting_cuts_at_every_separator(s, '-');
        reveal_with_fuel(text::rejoined, 3);
        assert(parts.skip(1) =~= seq![parts[1]]);
        parts
    } else {
        lemma_three_pieces(s, '-');
        text::split(s, '-')
    }
}

/// White space around a cell has no say in what the cell reads as.
pub proof fn law_white_space_around_a_cell_is_ignored(cell: Seq<char>, ty: DataType)
    ensures
        coerced(cell, ty) == coerced(text::trimmed(cell), ty),
{
    text::law_trim_idempotent(cell);
}

/// The empty text is neither a number nor a date.
proof fn lemma_nothing_is_no_value(s: Seq<char>)
    requires
        s.len() == 0,
    ensures
        !numeral::is_numeral(s),
        date_of(s) is None,
{
    text::lemma_find_lacking(s, 'T');
    text::lemma_find_lacking(s, '/');
    text::lemma_split_one(s, '-');
}

/// A cell reads as the number its trimmed text is, as the epoch seconds its trimmed text denotes,
/// or as its trimmed text, and as nothing only where there is no such value.
pub proof fn law_cells_read_as_what_they_say(cell: Seq<char>, ty: DataType)
    ensures
        match coerced(cell, ty) {
            ValueModel::Number(n) => ty is Quantitative && n == text::trimmed(cell)
                && numeral::is_numeral(n),
            ValueModel::Time(t) => ty is Temporal && date_of(text::trimmed(cell)) == Some(t),
            ValueModel::Category(c) => (ty is Ordinal || ty is Nominal) && c == text::trimmed(cell)
                && c.len() > 0,
            ValueModel::Missing => {
                &&& ty is Quantitative ==> !numeral::is_numeral(text::trimmed(cell))
                &&& ty is Temporal ==> date_of(text::trimmed(cell)) is None
                &&& ty is Ordinal || ty is Nominal ==> text::trimmed(cell).len() == 0
            },
        },
{
    if text::trimmed(cell).len() == 0 {
        lemma_nothing_is_no_value(text::trimmed(cell));
    }
}

/// A value is described by the number, the epoch seconds or the text it is.
pub proof fn law_values_are_described_by_what_they_are(number: Number, secs: i64, label: String)
    ensures
        Value::Number(number)@ == ValueModel::Number(number@),
        Value::Time(secs)@ == ValueModel::Time(secs as int),
        Value::Category(label)@ == ValueModel::Category(label@),
        Value::Missing@ == ValueModel::Missing,
{
}

/// Whether a cell holds a number.
pub open spec fn holds_number(cell: Seq<char>) -> bool {
    numeral::is_numeral(text::trimmed(cell))
}

/// Whether a cell holds a date.
pub open spec fn holds_date(cell: Seq<char>) -> bool {
    date_of(text::trimmed(cell)) is Some
}

/// A column with something in it is quantitative exactly where each cell holds a number or
/// nothing, and temporal exactly where each holds a date or nothing and some hold no number.
/// Every other column is nominal.
pub proof fn law_types_are_inferred_from_every_cell(cells: Seq<Seq<char>>)
    ensures
        ({
            let some = exists|i: int|
                0 <= i < cells.len() && text::trimmed(#[trigger] cells[i]).len() > 0;
            let numbers = forall|i: int|
                0 <= i < cells.len() ==> text::trimmed(#[trigger] cells[i]).len() == 0
                    || holds_number(cells[i]);
            let dates = forall|i: int|
                0 <= i < cells.len() ==> text::trimmed(#[trigger] cells[i]).len() == 0
                    || holds_date(cells[i]);
            &&& inferred(cells) is Quantitative <==> some && numbers
            &&& inferred(cells) is Temporal <==> some && dates && !numbers
            &&& inferred(cells) is Nominal <==> !some || (!numbers && !dates)
        }),
{
    assert(forall|i: int|
        0 <= i < cells.len() ==> is_filled(#[trigger] cells[i]) == (text::trimmed(cells[i]).len()
            > 0));
}

/// The order of a column's cells has no say in its type.
pub proof fn law_types_do_not_depend_on_order(cells: Seq<Seq<char>>, others: Seq<Seq<char>>)
    requires
        forall|cell: Seq<char>| cells.contains(cell) <==> others.contains(cell),
    ensures
        inferred(cells) == inferred(others),
{
    assert forall|i: int| 0 <= i < cells.len() implies exists|k: int|
        0 <= k < others.len() && others[k] == #[trigger] cells[i] by {
        assert(cells.contains(cells[i]));
    }
    assert forall|i: int| 0 <= i < others.len() implies exists|k: int|
        0 <= k < cells.len() && cells[k] == #[trigger] others[i] by {
        assert(others.contains(others[i]));
    }
}

/// A cell of a column whose inferred type is quantitative, temporal or nominal is missing only
/// when it is empty: inference never picks a type that loses a filled cell.
pub proof fn law_inference_loses_nothing(cells: Seq<Seq<char>>, i: int)
    requires
        0 <= i < cells.len(),
    ensures
        coerced(cells[i], inferred(cells)) is Missing <==> !is_filled(cells[i]),
{
    assert(is_filled(cells[i]) || !is_filled(cells[i]));
}

/// Ordinal is only ever declared, never inferred.
pub proof fn law_ordinal_is_never_inferred(cells: Seq<Seq<char>>)
    ensures
        inferred(cells) != DataType::Ordinal,
{
}

/// Empty cells have no say in the type of a column.
pub proof fn law_empty_cells_are_ignored(cells: Seq<Seq<char>>, blank: Seq<char>)
    requires
        !is_filled(blank),
    ensures
        inferred(cells.push(blank)) == inferred(cells),
{
    let more = cells.push(blank);
    assert(forall|i: int| 0 <= i < cells.len() ==> #[trigger] cells[i] == more[i]);
    assert(more[cells.len() as int] == blank);
}

} // verus!
