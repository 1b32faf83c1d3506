//! Self-contained date and value formatting, shared by the backend's axis ticks and the
//! parsed-data view.
//!
//! The single source of truth for how a value renders: a column's cells are coerced via
//! `typing::coerce` and then rendered with [`format_value`].

use crate::calendar;
use crate::text;
use crate::typing;
use crate::typing::Value;
use crate::typing::ValueModel;
use vstd::prelude::*;

verus! {

/// A year in at least four characters: its decimal digits with zeros in front, after the sign
/// of a year before the year 0.
pub open spec fn year_text(y: int) -> Seq<char> {
    if y >= 0 {
        text::zero_padded(text::decimal(y as nat), 4)
    } else {
        seq!['-'] + text::zero_padded(text::decimal((-y) as nat), 3)
    }
}

/// A month or a day in at least two digits.
pub open spec fn field_text(n: int) -> Seq<char> {
    text::zero_padded(text::decimal(n as nat), 2)
}

/// A date as `YYYY-MM-DD`.
pub open spec fn iso_date(date: (int, int, int)) -> Seq<char> {
    year_text(date.0) + seq!['-'] + (field_text(date.1) + seq!['-'] + field_text(date.2))
}

/// The date at an epoch second (UTC), as `YYYY-MM-DD`.
pub open spec fn epoch_date(secs: int) -> Seq<char> {
    iso_date(calendar::date_on(secs / 86_400))
}

/// Format epoch seconds (UTC) back to an ISO date string `YYYY-MM-DD`, the inverse of
/// `typing::parse_date`. Self-contained civil-date math; negative/pre-epoch
/// inputs floor toward the past so the conversion stays total.
#[must_use]
pub fn format_epoch(secs: i64) -> (r: String)
    ensures
        r@ == epoch_date(secs as int),
{
    let days: i64 = if secs >= 0 {
        secs / 86_400
    } else {
        -((-(secs + 1)) / 86_400) - 1
    };
    assert(days == (secs as int) / 86_400);
    let (y, m, d) = calendar::civil_from_days(days);
    proof {
        calendar::law_date_on(days as int);
        calendar::lemma_year_bound(days as int, y as int, m as int, d as int);
    }
    let year = if y >= 0 {
        text::pad_zeros(text::decimal_text(y as u64), 4)
    } else {
        let digits = text::pad_zeros(text::decimal_text((-y) as u64), 3);
        let mut signed = String::new();
        signed.push('-');
        signed.append(digits.as_str());
        assert(signed@ =~= seq!['-'] + digits@);
        signed
    };
    let month = text::pad_zeros(text::decimal_text(m as u64), 2);
    let day = text::pad_zeros(text::decimal_text(d as u64), 2);
    let mut out = year;
    out.push('-');
    out.append(month.as_str());
    out.push('-');
    out.append(day.as_str());
    assert(out@ =~= iso_date((y as int, m as int, d as int)));
    out
}

/// How a value is displayed, given how its number is displayed where it is one: a date as
/// `YYYY-MM-DD`, a category verbatim, and a missing value as an em dash.
pub open spec fn shown(value: ValueModel, number: Seq<char>) -> Seq<char> {
    match value {
        ValueModel::Number(_) => number,
        ValueModel::Time(secs) => epoch_date(secs),
        ValueModel::Category(s) => s,
        ValueModel::Missing => "—"@,
    }
}

/// Render a coerced [`Value`] for display: a number as the rendering `number` of it, a date via
/// [`format_epoch`], categories verbatim, and a missing/unparseable cell as an em dash.
#[must_use]
pub fn format_value(value: &Value, number: &str) -> (r: String)
    ensures
        r@ == shown(value@, number@),
{
    match value {
        Value::Number(_) => number.to_owned(),
        Value::Time(t) => format_epoch(*t),
        Value::Category(s) => s.clone(),
        Value::Missing => "—".to_owned(),
    }
}

/// Reading a formatted date gives back the start of its day.
pub proof fn law_parsing_inverts_formatting(y: int, m: int, d: int)
    requires
        0 <= y < 10_000,
        calendar::is_date(y, m, d),
    ensures
        typing::date_of(text::trimmed(iso_date((y, m, d)))) == Some(typing::day_seconds((y, m, d))),
{
    let ys = year_text(y);
    let ms = field_text(m);
    let ds = field_text(d);
    let s = iso_date((y, m, d));
    text::lemma_decimal(y as nat);
    text::lemma_decimal(m as nat);
    text::lemma_decimal(d as nat);
    text::lemma_zero_padded(text::decimal(y as nat), 4);
    text::lemma_zero_padded(text::decimal(m as nat), 2);
    text::lemma_zero_padded(text::decimal(d as nat), 2);
    assert(ys.len() == 4 && ms.len() == 2 && ds.len() == 2);
    assert forall|i: int| 0 <= i < s.len() implies s[i] == '-' || text::is_digit(#[trigger] s[i]) by {
        if i < 4 {
            assert(s[i] == ys[i]);
        } else if 5 <= i < 7 {
            assert(s[i] == ms[i - 5]);
        } else if i >= 8 {
            assert(s[i] == ds[i - 8]);
        }
    }
    assert(s[0] == ys[0] && s[9] == ds[1]);
    assert(text::is_digit(ys[0]) && text::is_digit(ds[1]));
    text::lemma_trimmed_stays(s);
    text::lemma_find(s, 'T');
    text::lemma_find(s, '/');
    match text::find(s, 'T') {
        Some(i) => {
            assert(s[i] == '-' || text::is_digit(s[i]));
        },
        None => {},
    }
    match text::find(s, '/') {
        Some(i) => {
            assert(s[i] == '-' || text::is_digit(s[i]));
        },
        None => {},
    }
    assert(forall|i: int| 0 <= i < ys.len() ==> text::is_digit(#[trigger] ys[i]));
    assert(forall|i: int| 0 <= i < ms.len() ==> text::is_digit(#[trigger] ms[i]));
    assert(forall|i: int| 0 <= i < ds.len() ==> text::is_digit(#[trigger] ds[i]));
    text::lemma_split_cons(ys, '-', ms + seq!['-'] + ds);
    text::lemma_split_cons(ms, '-', ds);
    text::lemma_split_one(ds, '-');
    assert(text::split(s, '-') =~= seq![ys, ms, ds]);
}

/// Formatting an epoch second and reading it back gives the start of its day, for every day of
/// the years that have four digits.
pub proof fn law_formatting_then_parsing(secs: int)
    requires
        0 <= calendar::date_on(secs / 86_400).0 < 10_000,
    ensures
        typing::date_of(text::trimmed(epoch_date(secs))) == Some((secs / 86_400) * 86_400),
{
    calendar::law_date_on(secs / 86_400);
    let date = calendar::date_on(secs / 86_400);
    law_parsing_inverts_formatting(date.0, date.1, date.2);
}

/// Reading a date written `YYYY-MM-DD` and formatting it gives the text back, for every text
/// that names a day of the calendar.
pub proof fn law_parsing_then_formatting(y: int, m: int, d: int)
    requires
        0 <= y < 10_000,
        calendar::is_date(y, m, d),
    ensures
        typing::date_of(text::trimmed(iso_date((y, m, d)))) matches Some(secs) && epoch_date(secs)
            == iso_date((y, m, d)),
{
    law_parsing_inverts_formatting(y, m, d);
    let day = calendar::day_number(y, m, d);
    assert((day * 86_400) / 86_400 == day);
    calendar::law_date_on(day);
}

/// Reading a date and a time of day written `YYYY-MM-DDTHH:MM:SS`, with two digits for each field,
/// gives the start of the day, plus 3600 seconds for each hour, 60 for each minute and one for each
/// second.
pub proof fn law_a_moment_written_out_reads_back(
    y: int,
    m: int,
    d: int,
    hour: int,
    minute: int,
    second: int,
)
    requires
        0 <= y < 10_000,
        calendar::is_date(y, m, d),
        0 <= hour < 24,
        0 <= minute < 60,
        0 <= second < 60,
    ensures
        typing::date_of(
            iso_date((y, m, d)) + seq!['T'] + typing::three_fields(
                field_text(hour),
                field_text(minute),
                field_text(second),
                ':',
            ),
        ) == Some(
            86_400 * calendar::day_number(y, m, d) + 3600 * hour + 60 * minute + second,
        ),
{
    lemma_field(m);
    lemma_field(d);
    lemma_field(hour);
    lemma_field(minute);
    lemma_field(second);
    text::lemma_decimal(y as nat);
    text::lemma_zero_padded(text::decimal(y as nat), 4);
    typing::law_reading_a_date(year_text(y), field_text(m), field_text(d), '-');
    typing::law_reading_a_moment(
        year_text(y),
        field_text(m),
        field_text(d),
        field_text(hour),
        field_text(minute),
        field_text(second),
    );
    assert(iso_date((y, m, d)) == typing::three_fields(
        year_text(y),
        field_text(m),
        field_text(d),
        '-',
    ));
}

/// A field below a hundred has two digits, which denote it.
proof fn lemma_field(n: int)
    requires
        0 <= n < 100,
    ensures
        field_text(n).len() == 2,
        text::all_digits(field_text(n)),
        text::digits_value(field_text(n)) == n,
{
    text::lemma_decimal(n as nat);
    text::lemma_zero_padded(text::decimal(n as nat), 2);
}

/// A date is shown in ten characters or more: the year, the month and the day, from the largest to
/// the smallest, so that dates of years with four digits sort as they are written.
pub proof fn law_dates_are_shown_in_fields(secs: int)
    requires
        0 <= calendar::date_on(secs / 86_400).0 < 10_000,
    ensures
        ({
            let (y, m, d) = calendar::date_on(secs / 86_400);
            let s = epoch_date(secs);
            &&& s.len() == 10
            &&& s[4] == '-' && s[7] == '-'
            &&& text::digits_value(s.subrange(0, 4)) == y
            &&& text::digits_value(s.subrange(5, 7)) == m
            &&& text::digits_value(s.subrange(8, 10)) == d
            &&& 86_400 * calendar::day_number(y, m, d) <= secs < 86_400 * calendar::day_number(
                y,
                m,
                d,
            ) + 86_400
        }),
{
    let (y, m, d) = calendar::date_on(secs / 86_400);
    let s = epoch_date(secs);
    calendar::law_date_on(secs / 86_400);
    text::lemma_decimal(y as nat);
    text::lemma_zero_padded(text::decimal(y as nat), 4);
    lemma_field(m);
    lemma_field(d);
    assert(s.subrange(0, 4) =~= year_text(y));
    assert(s.subrange(5, 7) =~= field_text(m));
    assert(s.subrange(8, 10) =~= field_text(d));
}

/// A year has at least four characters: digits that denote it, or, before the year zero, a minus
/// sign and digits that denote how far before.
pub proof fn law_years_have_four_characters(y: int)
    ensures
        year_text(y).len() >= 4,
        -1000 < y < 10_000 ==> year_text(y).len() == 4,
        y >= 0 ==> text::all_digits(year_text(y)) && text::digits_value(year_text(y)) == y,
        y < 0 ==> year_text(y)[0] == '-' && text::all_digits(year_text(y).skip(1))
            && text::digits_value(year_text(y).skip(1)) == -y,
{
    let n = if y >= 0 {
        y as nat
    } else {
        (-y) as nat
    };
    let digits = text::decimal(n);
    text::lemma_decimal(n);
    text::lemma_zero_padded(digits, 4);
    text::lemma_zero_padded(digits, 3);
    if y < 0 {
        assert(year_text(y).skip(1) =~= text::zero_padded(digits, 3));
    }
}

} // verus!
