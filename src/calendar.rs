//! Calendar dates, and the month table that is added to a monthly note.
use chrono::Datelike;
use vstd::prelude::*;

use crate::error::Error;
use crate::text::{decimal, decimal_of, push_all, push_str, string_of, two_digits, two_digits_of};

verus! {

/// The year is a leap year of the Gregorian calendar.
pub open spec fn is_leap(y: int) -> bool {
    (y % 4 == 0 && y % 100 != 0) || y % 400 == 0
}

/// The number of days of a month of a year.
pub open spec fn month_days(y: int, m: int) -> int {
    if m == 2 {
        if is_leap(y) {
            29
        } else {
            28
        }
    } else if m == 4 || m == 6 || m == 9 || m == 11 {
        30
    } else {
        31
    }
}

/// The number of days of the month `m` of the year `y`.
fn days_in_month(y: i32, m: u32) -> (r: u32)
    requires
        1 <= y,
    ensures
        r == month_days(y as int, m as int),
{
    let u = y as u32;
    if m == 2 {
        if (u % 4 == 0 && u % 100 != 0) || u % 400 == 0 {
            29
        } else {
            28
        }
    } else if m == 4 || m == 6 || m == 9 || m == 11 {
        30
    } else {
        31
    }
}

/// The last year that the calendar handles.
pub const MAX_YEAR: i32 = 262142;

/// The days of the years before the year `y`, from the first year on.
pub open spec fn days_before_year(y: int) -> int {
    let p = y - 1;
    365 * p + p / 4 - p / 100 + p / 400
}

/// The days of the months before the month `m` of the year `y`.
pub open spec fn days_before_month(y: int, m: int) -> int
    decreases m,
{
    if m <= 1 {
        0
    } else {
        days_before_month(y, m - 1) + month_days(y, m - 1)
    }
}

/// The day of the week of a date of the Gregorian calendar, counted from Monday (0)
/// to Sunday (6): the first day of the first year was a Monday.
pub open spec fn weekday_of(y: int, m: int, d: int) -> int {
    (days_before_year(y) + days_before_month(y, m) + d - 1) % 7
}

/// Relies on `NaiveDate::from_ymd_opt`, which gives the date of the proleptic Gregorian
/// calendar for every day of a month of the years up to 262142, and
/// `Weekday::num_days_from_monday`, which counts from Monday (0) to Sunday (6).
#[verifier::external_body]
fn weekday(y: i32, m: u32, d: u32) -> (r: u32)
    requires
        1 <= y <= MAX_YEAR,
        1 <= m <= 12,
        1 <= d <= month_days(y as int, m as int),
    ensures
        r == weekday_of(y as int, m as int, d as int),
        r < 7,
{
    chrono::NaiveDate::from_ymd_opt(y, m, d).unwrap().weekday().num_days_from_monday()
}

/// The decimal form of a year, with leading zeros to four digits; a year past
/// 9999 is written with a `+` before it.
pub open spec fn four_digits(y: nat) -> Seq<char> {
    if y > 9999 {
        seq!['+'] + decimal(y)
    } else if y < 10 {
        seq!['0', '0', '0'] + decimal(y)
    } else if y < 100 {
        seq!['0', '0'] + decimal(y)
    } else if y < 1000 {
        seq!['0'] + decimal(y)
    } else {
        decimal(y)
    }
}

/// A date written `YYYY-MM-DD`.
pub open spec fn iso_date(y: nat, m: nat, d: nat) -> Seq<char> {
    four_digits(y) + seq!['-'] + two_digits(m) + seq!['-'] + two_digits(d)
}

/// A date written `YYYY-MM-DD`.
pub fn iso_date_of(y: u32, m: u32, d: u32) -> (r: Vec<char>)
    ensures
        r@ == iso_date(y as nat, m as nat, d as nat),
{
    let mut v: Vec<char> = Vec::new();
    if y > 9999 {
        v.push('+');
    } else if y < 10 {
        push_str(&mut v, "000");
    } else if y < 100 {
        push_str(&mut v, "00");
    } else if y < 1000 {
        push_str(&mut v, "0");
    }
    proof {
        reveal_strlit("000");
        reveal_strlit("00");
        reveal_strlit("0");
    }
    let yd = decimal_of(y as u64);
    push_all(&mut v, &yd);
    v.push('-');
    let md = two_digits_of(m as u64);
    push_all(&mut v, &md);
    v.push('-');
    let dd = two_digits_of(d as u64);
    push_all(&mut v, &dd);
    assert(v@ =~= iso_date(y as nat, m as nat, d as nat));
    v
}

/// A date written `YYYY-MM-DD`, as a string.
pub fn iso_date_string(y: u32, m: u32, d: u32) -> (r: String)
    ensures
        r@ == iso_date(y as nat, m as nat, d as nat),
{
    let v = iso_date_of(y, m, d);
    string_of(v.as_slice())
}

/// The header of a month table: the days of the week, Monday first.
pub open spec fn table_header() -> Seq<Seq<char>> {
    seq!["| Пн | Вт | Ср | Чт | Пт | Сб | Вс |"@, "|:--:|:--:|:--:|:--:|:--:|:--:|:--:|"@]
}

/// An empty cell.
pub open spec fn blank_cell() -> Seq<char> {
    seq![' ', ' ', ' ', ' ', '|']
}

/// `n` empty cells.
pub open spec fn blank_cells(n: nat) -> Seq<char>
    decreases n,
{
    if n == 0 {
        Seq::empty()
    } else {
        blank_cells((n - 1) as nat) + blank_cell()
    }
}

/// The cell of a day: a link to its daily note, shown as the day number.
pub open spec fn day_cell(y: nat, m: nat, d: nat) -> Seq<char> {
    seq![' ', '[', '['] + iso_date(y, m, d) + seq!['\\', '|'] + decimal(d) + seq![
        ']',
        ']',
        ' ',
        '|',
    ]
}

/// The cells of the days `1..=d` of a month, after `lead` empty cells.
pub open spec fn cells_upto(y: nat, m: nat, lead: nat, d: nat) -> Seq<Seq<char>>
    decreases d,
{
    if d == 0 {
        Seq::new(lead, |i: int| blank_cell())
    } else {
        cells_upto(y, m, lead, (d - 1) as nat).push(day_cell(y, m, d))
    }
}

/// The row of a week: its cells after a leading `|`.
pub open spec fn row_of(cells: Seq<Seq<char>>) -> Seq<char>
    decreases cells.len(),
{
    if cells.len() == 0 {
        seq!['|']
    } else {
        row_of(cells.drop_last()) + cells.last()
    }
}

/// The rows of weeks of seven cells; the last row is filled with empty cells.
pub open spec fn rows_of(cells: Seq<Seq<char>>) -> Seq<Seq<char>>
    decreases cells.len(),
{
    if cells.len() == 0 {
        Seq::empty()
    } else if cells.len() <= 7 {
        seq![row_of(cells) + blank_cells((7 - cells.len()) as nat)]
    } else {
        seq![row_of(cells.take(7))] + rows_of(cells.skip(7))
    }
}

/// The month table of the month `m` of the year `y` whose first day is the day
/// `lead` of its week (0 for Monday), one line per element.
pub open spec fn month_table_from(y: nat, m: nat, lead: nat) -> Seq<Seq<char>> {
    table_header() + rows_of(cells_upto(y, m, lead, month_days(y as int, m as int) as nat))
}

/// The month table of the month `m` of the year `y`, one line per element.
pub open spec fn month_table(y: nat, m: nat) -> Seq<Seq<char>> {
    month_table_from(y, m, weekday_of(y as int, m as int, 1) as nat)
}

/// The row of the cells `cells[a..b]`.
fn row_from(cells: &Vec<Vec<char>>, a: usize, b: usize) -> (r: Vec<char>)
    requires
        a <= b <= cells.len(),
    ensures
        r@ == row_of(cells@.subrange(a as int, b as int).map_values(|c: Vec<char>| c@)),
{
    let mut row: Vec<char> = vec!['|'];
    let mut i = a;
    while i < b
        invariant
            a <= i <= b <= cells.len(),
            row@ == row_of(cells@.subrange(a as int, i as int).map_values(|c: Vec<char>| c@)),
        decreases b - i,
    {
        let ghost before = cells@.subrange(a as int, i as int).map_values(|c: Vec<char>| c@);
        push_all(&mut row, &cells[i]);
        let ghost after = cells@.subrange(a as int, i + 1).map_values(|c: Vec<char>| c@);
        assert(after.drop_last() =~= before);
        i = i + 1;
    }
    row
}

/// The month table of the month `month` of the year `year`, one line per element.
///
/// Fails with `IllegalYearNumber` for a year below 1, then with `IllegalMonthNumber`
/// for a month outside 1 to 12, then with `IllegalYearNumber` for a year past
/// [`MAX_YEAR`].
pub fn calendar_table(year: i32, month: u32) -> (r: Result<Vec<String>, Error>)
    ensures
        year <= 0 ==> r is Err && r->Err_0 == Error::IllegalYearNumber(year),
        year > 0 && !(1 <= month <= 12) ==> r is Err && r->Err_0 == Error::IllegalMonthNumber(
            month,
        ),
        year > MAX_YEAR && 1 <= month <= 12 ==> r is Err && r->Err_0 == Error::IllegalYearNumber(
            year,
        ),
        1 <= year <= MAX_YEAR && 1 <= month <= 12 ==> r is Ok && r->Ok_0@.map_values(
            |s: String| s@,
        ) == month_table(year as nat, month as nat),
{
    if year <= 0 {
        return Err(Error::IllegalYearNumber(year));
    }
    if month < 1 || month > 12 {
        return Err(Error::IllegalMonthNumber(month));
    }
    if year > MAX_YEAR {
        return Err(Error::IllegalYearNumber(year));
    }
    let lead = weekday(year, month, 1);
    Ok(month_table_of(year, month, lead))
}

/// The month table of the month `month` of the year `year` whose first day is the
/// day `lead` of its week (0 for Monday), one line per element.
#[verifier::spinoff_prover]
#[verifier::rlimit(40)]
pub fn month_table_of(year: i32, month: u32, lead: u32) -> (r: Vec<String>)
    requires
        1 <= year <= MAX_YEAR,
        1 <= month <= 12,
        lead < 7,
    ensures
        r@.map_values(|s: String| s@) == month_table_from(year as nat, month as nat, lead as nat),
{
    let y = year as u32;
    let last = days_in_month(year, month);
    let ghost lead_n = lead as nat;
    let mut cells: Vec<Vec<char>> = Vec::new();
    let mut k: u32 = 0;
    while k < lead
        invariant
            k <= lead < 7,
            cells.len() == k,
            cells@.map_values(|c: Vec<char>| c@) == Seq::new(k as nat, |i: int| blank_cell()),
        decreases lead - k,
    {
        let blank = vec![' ', ' ', ' ', ' ', '|'];
        assert(blank@ =~= blank_cell());
        let ghost prev = cells@;
        cells.push(blank);
        assert forall|j: int| 0 <= j < k implies cells@[j]@ == blank_cell() by {
            assert(cells@[j] == prev[j]);
            assert(prev.map_values(|c: Vec<char>| c@)[j] == blank_cell());
        }
        assert(cells@.map_values(|c: Vec<char>| c@) =~= Seq::new((k + 1) as nat, |i: int| blank_cell()));
        k = k + 1;
    }
    let mut d: u32 = 1;
    assert(cells@.map_values(|c: Vec<char>| c@) == cells_upto(y as nat, month as nat, lead_n, 0));
    while d <= last
        invariant
            1 <= d <= last + 1,
            last <= 31,
            last == month_days(year as int, month as int),
            cells@.map_values(|c: Vec<char>| c@) == cells_upto(
                y as nat,
                month as nat,
                lead_n,
                (d - 1) as nat,
            ),
        decreases last + 1 - d,
    {
        let mut cell: Vec<char> = vec![' ', '[', '['];
        let date = iso_date_of(y, month, d);
        push_all(&mut cell, &date);
        cell.push('\\');
        cell.push('|');
        let dd = decimal_of(d as u64);
        push_all(&mut cell, &dd);
        cell.push(']');
        cell.push(']');
        cell.push(' ');
        cell.push('|');
        assert(cell@ =~= day_cell(y as nat, month as nat, d as nat));
        cells.push(cell);
        assert(cells@.map_values(|c: Vec<char>| c@) =~= cells_upto(
            y as nat,
            month as nat,
            lead_n,
            d as nat,
        ));
        d = d + 1;
    }
    let ghost all = cells@.map_values(|c: Vec<char>| c@);
    let mut lines: Vec<String> = Vec::new();
    lines.push(String::from_str("| Пн | Вт | Ср | Чт | Пт | Сб | Вс |"));
    lines.push(String::from_str("|:--:|:--:|:--:|:--:|:--:|:--:|:--:|"));
    assert(lines@.map_values(|s: String| s@) =~= table_header());
    let mut i: usize = 0;
    assert(all.skip(0) == all);
    while cells.len() - i > 7
        invariant
            i <= cells.len(),
            all == cells@.map_values(|c: Vec<char>| c@),
            lines@.map_values(|s: String| s@) + rows_of(all.skip(i as int)) == table_header()
                + rows_of(all),
        decreases cells.len() - i,
    {
        let row = row_from(&cells, i, i + 7);
        let ghost rest = all.skip(i as int);
        assert(rest.take(7) =~= cells@.subrange(i as int, i + 7).map_values(|c: Vec<char>| c@));
        assert(rest.skip(7) =~= all.skip(i + 7));
        lines.push(string_of(row.as_slice()));
        i = i + 7;
        assert(lines@.map_values(|s: String| s@) + rows_of(all.skip(i as int)) =~= table_header()
            + rows_of(all));
    }
    if i < cells.len() {
        let mut row = row_from(&cells, i, cells.len());
        let mut b: usize = cells.len() - i;
        let ghost rest = all.skip(i as int);
        assert(rest =~= cells@.subrange(i as int, cells.len() as int).map_values(|c: Vec<char>| c@));
        while b < 7
            invariant
                cells.len() - i <= b <= 7,
                row@ == row_of(rest) + blank_cells((b - (cells.len() - i)) as nat),
            decreases 7 - b,
        {
            push_str(&mut row, "    |");
            proof {
                reveal_strlit("    |");
            }
            b = b + 1;
        }
        lines.push(string_of(row.as_slice()));
        assert(rows_of(rest.skip(rest.len() as int)) == Seq::<Seq<char>>::empty());
    }
    assert(lines@.map_values(|s: String| s@) =~= table_header() + rows_of(all));
    lines
}

/// The lines joined with line breaks between them.
pub open spec fn joined(lines: Seq<Seq<char>>) -> Seq<char>
    decreases lines.len(),
{
    if lines.len() == 0 {
        Seq::empty()
    } else if lines.len() == 1 {
        lines[0]
    } else {
        joined(lines.drop_last()) + seq!['\n'] + lines.last()
    }
}

/// The text added to the note of the month `month` of the year `year`: its month
/// table after an empty line, with a line break after it.
pub fn calendar_appendix(year: i32, month: u32) -> (r: Result<String, Error>)
    ensures
        year <= 0 ==> r is Err && r->Err_0 == Error::IllegalYearNumber(year),
        year > 0 && !(1 <= month <= 12) ==> r is Err && r->Err_0 == Error::IllegalMonthNumber(
            month,
        ),
        year > MAX_YEAR && 1 <= month <= 12 ==> r is Err && r->Err_0 == Error::IllegalYearNumber(
            year,
        ),
        1 <= year <= MAX_YEAR && 1 <= month <= 12 ==> r is Ok && r->Ok_0@ == seq!['\n', '\n']
            + joined(month_table(year as nat, month as nat)) + seq!['\n'],
{
    let lines = calendar_table(year, month)?;
    let ghost all = lines@.map_values(|s: String| s@);
    let mut out: Vec<char> = vec!['\n', '\n'];
    let mut i: usize = 0;
    while i < lines.len()
        invariant
            i <= lines.len(),
            all == lines@.map_values(|s: String| s@),
            out@ == seq!['\n', '\n'] + joined(all.take(i as int)),
        decreases lines.len() - i,
    {
        if i > 0 {
            out.push('\n');
        }
        let ghost before = out@;
        push_str(&mut out, lines[i].as_str());
        assert(all.take(i + 1).drop_last() =~= all.take(i as int));
        assert(i == 0 ==> all.take(1) =~= seq![all[0]]);
        i = i + 1;
    }
    assert(all.take(lines.len() as int) =~= all);
    out.push('\n');
    Ok(string_of(out.as_slice()))
}

} // verus!
