//! What the calendar prints: one month, or a whole year as four bands of
//! three months under the year's number.

use vstd::prelude::*;
use crate::args::Config;
use crate::date::CalendarDate;
use crate::grid::{format_month, month_rows};
use crate::text::{decimal, push_decimal, push_spaces, spaces};

verus! {

/// `s` right-aligned in `width` columns.
pub open spec fn right_aligned(s: Seq<char>, width: int) -> Seq<char> {
    if s.len() >= width {
        s
    } else {
        spaces(width - s.len()) + s
    }
}

pub open spec fn year_title(y: int) -> Seq<char> {
    right_aligned(decimal(y as nat), 32)
}

/// Row `i` of band `b`: row `i` of the three months of that band, side by side.
pub open spec fn band_row(y: int, today: CalendarDate, b: int, i: int) -> Seq<char> {
    month_rows(y, 3 * b + 1, false, today)[i] + month_rows(y, 3 * b + 2, false, today)[i]
        + month_rows(y, 3 * b + 3, false, today)[i]
}

/// The year view: the title, then four bands of eight rows with an empty
/// row between two bands.
pub open spec fn year_rows(y: int, today: CalendarDate) -> Seq<Seq<char>> {
    Seq::new(
        36,
        |k: int|
            if k == 0 {
                year_title(y)
            } else if (k - 1) % 9 == 8 {
                seq![]
            } else {
                band_row(y, today, (k - 1) / 9, (k - 1) % 9)
            },
    )
}

/// What is printed for a configuration.
pub open spec fn calendar_rows(c: Config) -> Seq<Seq<char>> {
    match c.month {
        Some(m) => month_rows(c.year as int, m as int, true, c.today),
        None => year_rows(c.year as int, c.today),
    }
}

fn format_year_title(year: i32) -> (r: String)
    requires
        1 <= year <= 9999,
    ensures
        r@ == year_title(year as int),
{
    let mut digits = String::new();
    push_decimal(&mut digits, year as u32);
    assert(digits@ =~= decimal(year as nat));
    let len = digits.as_str().unicode_len();
    let mut s = String::new();
    if len < 32 {
        push_spaces(&mut s, 32 - len);
    }
    s.append(digits.as_str());
    assert(s@ =~= year_title(year as int));
    s
}

/// The whole of `year`: its number right-aligned over 32 columns, then the
/// months three by three, each band of eight rows apart from the next by an
/// empty row.
pub fn format_year(year: i32, today: CalendarDate) -> (rows: Vec<String>)
    requires
        1 <= year <= 9999,
    ensures
        rows.len() == 36,
        forall|k: int| 0 <= k < 36 ==> #[trigger] rows[k]@ == year_rows(year as int, today)[k],
{
    let ghost want = year_rows(year as int, today);
    let mut months: Vec<Vec<String>> = Vec::new();
    let mut m: u32 = 1;
    while m <= 12
        invariant
            1 <= year <= 9999,
            1 <= m <= 13,
            months.len() == m - 1,
            forall|j: int|
                0 <= j < months.len() ==> (#[trigger] months[j]).len() == 8 && forall|i: int|
                    0 <= i < 8 ==> #[trigger] months[j][i]@ == month_rows(
                        year as int,
                        j + 1,
                        false,
                        today,
                    )[i],
        decreases 13 - m,
    {
        months.push(format_month(year, m, false, today));
        m += 1;
    }
    let mut rows: Vec<String> = Vec::new();
    rows.push(format_year_title(year));
    let mut k: usize = 1;
    while k < 36
        invariant
            1 <= k <= 36,
            rows.len() == k,
            months.len() == 12,
            want == year_rows(year as int, today),
            forall|j: int|
                0 <= j < 12 ==> (#[trigger] months[j]).len() == 8 && forall|i: int|
                    0 <= i < 8 ==> #[trigger] months[j][i]@ == month_rows(
                        year as int,
                        j + 1,
                        false,
                        today,
                    )[i],
            forall|r: int| 0 <= r < k ==> #[trigger] rows[r]@ == want[r],
        decreases 36 - k,
    {
        let j = k - 1;
        if j % 9 == 8 {
            rows.push(String::new());
            assert(rows[k as int]@ =~= want[k as int]);
        } else {
            let b = j / 9;
            let i = j % 9;
            let mut s = months[3 * b][i].clone();
            s.append(months[3 * b + 1][i].as_str());
            s.append(months[3 * b + 2][i].as_str());
            rows.push(s);
            assert(rows[k as int]@ == want[k as int]);
        }
        k += 1;
    }
    rows
}

/// The rows printed for `config`: the month with the year in its header when
/// a month is chosen, else the whole year.
pub fn render(config: &Config) -> (rows: Vec<String>)
    requires
        1 <= config.year <= 9999,
        config.month matches Some(m) ==> 1 <= m <= 12,
    ensures
        rows.len() == calendar_rows(*config).len(),
        forall|k: int| 0 <= k < rows.len() ==> #[trigger] rows[k]@ == calendar_rows(*config)[k],
{
    match config.month {
        Some(m) => format_month(config.year, m, true, config.today),
        None => format_year(config.year, config.today),
    }
}

} // verus!
