//! Month grids: eight rows of 22 columns, a header, the weekday names and six
//! week rows, with today's day shown in reverse video.

use vstd::prelude::*;
use crate::date::{
    CalendarDate, days_in_month, first_weekday, last_day_in_month, weekday,
};
use crate::text::{decimal, digit, digit_str, push_decimal, push_spaces, spaces};

verus! {

/// Full English name of month `m`.
pub open spec fn month_name(m: int) -> Seq<char> {
    if m == 1 {
        "January"@
    } else if m == 2 {
        "February"@
    } else if m == 3 {
        "March"@
    } else if m == 4 {
        "April"@
    } else if m == 5 {
        "May"@
    } else if m == 6 {
        "June"@
    } else if m == 7 {
        "July"@
    } else if m == 8 {
        "August"@
    } else if m == 9 {
        "September"@
    } else if m == 10 {
        "October"@
    } else if m == 11 {
        "November"@
    } else {
        "December"@
    }
}

/// The text of the header: the month's name, with the year if asked for.
pub open spec fn title(y: int, m: int, print_year: bool) -> Seq<char> {
    if print_year {
        month_name(m) + seq![' '] + decimal(y as nat)
    } else {
        month_name(m)
    }
}

/// `s` centred in `width` columns, the odd space going to the right.
pub open spec fn centered(s: Seq<char>, width: int) -> Seq<char> {
    if s.len() >= width {
        s
    } else {
        let pad = width - s.len();
        spaces(pad / 2) + s + spaces(pad - pad / 2)
    }
}

pub open spec fn header_row(y: int, m: int, print_year: bool) -> Seq<char> {
    centered(title(y, m, print_year), 20) + spaces(2)
}

pub open spec fn weekday_row() -> Seq<char> {
    "Su Mo Tu We Th Fr Sa  "@
}

/// Day `d` right-aligned in two columns.
pub open spec fn day_digits(d: int) -> Seq<char> {
    if d < 10 {
        seq![' ', digit(d)]
    } else {
        seq![digit(d / 10), digit(d % 10)]
    }
}

/// Terminal sequence that starts reverse video.
pub open spec fn reverse_on() -> Seq<char> {
    seq!['\x1b', '[', '7', 'm']
}

/// Terminal sequence that resets the text attributes.
pub open spec fn reverse_off() -> Seq<char> {
    seq!['\x1b', '[', '0', 'm']
}

/// The cell for day number `d` of a month of `last` days: blank when `d` is
/// no day of the month, in reverse video when it is `mark`.
pub open spec fn cell(d: int, last: int, mark: int) -> Seq<char> {
    if 1 <= d <= last {
        if d == mark {
            reverse_on() + day_digits(d) + reverse_off() + seq![' ']
        } else {
            day_digits(d) + seq![' ']
        }
    } else {
        spaces(3)
    }
}

/// Day number shown in column `c` of week row `w` when the month starts on weekday `first`.
pub open spec fn day_at(first: int, w: int, c: int) -> int {
    7 * w + c + 1 - first
}

/// The first `n` cells of week row `w`.
pub open spec fn cells(first: int, last: int, mark: int, w: int, n: int) -> Seq<char>
    decreases n,
{
    if n <= 0 {
        seq![]
    } else {
        cells(first, last, mark, w, n - 1) + cell(day_at(first, w, n - 1), last, mark)
    }
}

pub open spec fn week_row(first: int, last: int, mark: int, w: int) -> Seq<char> {
    cells(first, last, mark, w, 7) + seq![' ']
}

/// The eight rows of month `m` of year `y`, with day `mark` highlighted
/// (no day is when `mark` is not a day of the month).
pub open spec fn month_grid(y: int, m: int, print_year: bool, mark: int) -> Seq<Seq<char>> {
    let first = weekday(y, m, 1);
    let last = days_in_month(y, m);
    seq![
        header_row(y, m, print_year),
        weekday_row(),
        week_row(first, last, mark, 0),
        week_row(first, last, mark, 1),
        week_row(first, last, mark, 2),
        week_row(first, last, mark, 3),
        week_row(first, last, mark, 4),
        week_row(first, last, mark, 5),
    ]
}

/// The day to highlight: today's day when today falls in the shown month, else none.
pub open spec fn highlight_day(y: int, m: int, today: CalendarDate) -> int {
    if today.year == y && today.month == m {
        today.day as int
    } else {
        0
    }
}

pub open spec fn month_rows(y: int, m: int, print_year: bool, today: CalendarDate) -> Seq<Seq<char>> {
    month_grid(y, m, print_year, highlight_day(y, m, today))
}

/// The full name of `month`.
pub fn month_name_str(month: u32) -> (r: &'static str)
    requires
        1 <= month <= 12,
    ensures
        r@ == month_name(month as int),
{
    match month {
        1 => "January",
        2 => "February",
        3 => "March",
        4 => "April",
        5 => "May",
        6 => "June",
        7 => "July",
        8 => "August",
        9 => "September",
        10 => "October",
        11 => "November",
        _ => "December",
    }
}

fn format_header(year: i32, month: u32, print_year: bool) -> (r: String)
    requires
        1 <= year <= 9999,
        1 <= month <= 12,
    ensures
        r@ == header_row(year as int, month as int, print_year),
{
    let mut text = String::from_str(month_name_str(month));
    if print_year {
        proof {
            reveal_strlit(" ");
        }
        text.append(" ");
        push_decimal(&mut text, year as u32);
    }
    assert(text@ =~= title(year as int, month as int, print_year));
    let len = text.as_str().unicode_len();
    let mut s = String::new();
    if len >= 20 {
        s.append(text.as_str());
    } else {
        let pad = 20 - len;
        push_spaces(&mut s, pad / 2);
        s.append(text.as_str());
        push_spaces(&mut s, pad - pad / 2);
    }
    push_spaces(&mut s, 2);
    assert(s@ =~= header_row(year as int, month as int, print_year));
    s
}

/// Appends the cell of day number `d` to `s`.
fn push_cell(s: &mut String, d: i64, last: u32, mark: u32)
    requires
        last <= 31,
    ensures
        final(s)@ == old(s)@ + cell(d as int, last as int, mark as int),
{
    let ghost start = s@;
    proof {
        reveal_strlit(" ");
        reveal_strlit("\x1b[7m");
        reveal_strlit("\x1b[0m");
    }
    if 1 <= d && d <= last as i64 {
        let day = d as u32;
        if day == mark {
            s.append("\x1b[7m");
        }
        if day < 10 {
            s.append(" ");
            s.append(digit_str(day));
        } else {
            s.append(digit_str(day / 10));
            s.append(digit_str(day % 10));
        }
        if day == mark {
            s.append("\x1b[0m");
        }
        s.append(" ");
    } else {
        push_spaces(s, 3);
    }
    assert(s@ =~= start + cell(d as int, last as int, mark as int));
}

fn format_week(first: u32, last: u32, mark: u32, w: u32) -> (r: String)
    requires
        first < 7,
        last <= 31,
        w < 6,
    ensures
        r@ == week_row(first as int, last as int, mark as int, w as int),
{
    let mut s = String::new();
    let mut c: u32 = 0;
    assert(s@ =~= cells(first as int, last as int, mark as int, w as int, 0));
    while c < 7
        invariant
            c <= 7,
            first < 7,
            last <= 31,
            w < 6,
            s@ == cells(first as int, last as int, mark as int, w as int, c as int),
        decreases 7 - c,
    {
        let d: i64 = (7 * w + c + 1) as i64 - first as i64;
        push_cell(&mut s, d, last, mark);
        c += 1;
    }
    proof {
        reveal_strlit(" ");
    }
    s.append(" ");
    s
}

/// The eight rows of `month` of `year`: a centred header holding the month's
/// name (and the year when `print_year`), the weekday names, then six week
/// rows; today's day is shown in reverse video when today falls in that month.
pub fn format_month(year: i32, month: u32, print_year: bool, today: CalendarDate) -> (rows: Vec<
    String,
>)
    requires
        1 <= year <= 9999,
        1 <= month <= 12,
    ensures
        rows.len() == 8,
        forall|i: int|
            0 <= i < 8 ==> #[trigger] rows[i]@ == month_rows(
                year as int,
                month as int,
                print_year,
                today,
            )[i],
{
    let first = first_weekday(year, month);
    let last = last_day_in_month(year, month).day;
    let mark: u32 = if today.year == year && today.month == month {
        today.day
    } else {
        0
    };
    let ghost grid = month_rows(year as int, month as int, print_year, today);
    assert(grid.len() == 8);
    assert(forall|k: int|
        0 <= k < 6 ==> #[trigger] grid[2 + k] == week_row(first as int, last as int, mark as int, k));
    let mut rows: Vec<String> = Vec::new();
    rows.push(format_header(year, month, print_year));
    rows.push(String::from_str("Su Mo Tu We Th Fr Sa  "));
    let mut w: u32 = 0;
    while w < 6
        invariant
            w <= 6,
            rows.len() == 2 + w,
            first < 7,
            last <= 31,
            grid.len() == 8,
            forall|k: int|
                0 <= k < 6 ==> #[trigger] grid[2 + k] == week_row(
                    first as int,
                    last as int,
                    mark as int,
                    k,
                ),
            forall|i: int| 0 <= i < 2 + w ==> #[trigger] rows[i]@ == grid[i],
        decreases 6 - w,
    {
        rows.push(format_week(first, last, mark, w));
        w += 1;
    }
    rows
}

/// The week row holding day `mark`, when `mark` is a day of the month.
pub open spec fn marked_row(y: int, m: int, mark: int, i: int) -> bool {
    &&& 1 <= mark <= days_in_month(y, m)
    &&& i == 2 + (weekday(y, m, 1) + mark - 1) / 7
}

proof fn lemma_decimal_small(n: nat)
    requires
        n < 10000,
    ensures
        decimal(n).len() == (if n < 10 {
            1int
        } else if n < 100 {
            2int
        } else if n < 1000 {
            3int
        } else {
            4int
        }),
        forall|j: int| 0 <= j < decimal(n).len() ==> '0' <= #[trigger] decimal(n)[j] <= '9',
    decreases n,
{
    if n >= 10 {
        lemma_decimal_small(n / 10);
    }
}

proof fn lemma_month_name(m: int)
    requires
        1 <= m <= 12,
    ensures
        1 <= month_name(m).len() <= 9,
        forall|j: int| 0 <= j < month_name(m).len() ==> #[trigger] month_name(m)[j] != '\x1b',
{
    reveal_strlit("January");
    reveal_strlit("February");
    reveal_strlit("March");
    reveal_strlit("April");
    reveal_strlit("May");
    reveal_strlit("June");
    reveal_strlit("July");
    reveal_strlit("August");
    reveal_strlit("September");
    reveal_strlit("October");
    reveal_strlit("November");
    reveal_strlit("December");
}

proof fn lemma_header(y: int, m: int, print_year: bool)
    requires
        1 <= y <= 9999,
        1 <= m <= 12,
    ensures
        header_row(y, m, print_year).len() == 22,
        forall|j: int|
            0 <= j < 22 ==> #[trigger] header_row(y, m, print_year)[j] != '\x1b',
{
    lemma_month_name(m);
    lemma_decimal_small(y as nat);
    let t = title(y, m, print_year);
    assert forall|j: int| 0 <= j < t.len() implies #[trigger] t[j] != '\x1b' by {
        if print_year && j >= month_name(m).len() + 1 {
            assert(t[j] == decimal(y as nat)[j - month_name(m).len() - 1]);
        }
    }
}

proof fn lemma_weekday_row()
    ensures
        weekday_row().len() == 22,
        forall|j: int| 0 <= j < 22 ==> #[trigger] weekday_row()[j] != '\x1b',
{
    reveal_strlit("Su Mo Tu We Th Fr Sa  ");
}

/// Width of the first `n` cells of a week row: three columns each, plus the
/// escape sequences around the marked day when it is among them.
proof fn lemma_cells_len(first: int, last: int, mark: int, w: int, n: int)
    requires
        0 <= n <= 7,
    ensures
        cells(first, last, mark, w, n).len() == 3 * n + (if 1 <= mark <= last && 0 <= mark
            - day_at(first, w, 0) < n {
            8int
        } else {
            0int
        }),
    decreases n,
{
    if n > 0 {
        lemma_cells_len(first, last, mark, w, n - 1);
    }
}

/// No cell holds an escape character when no day is marked.
proof fn lemma_cells_plain(first: int, last: int, w: int, n: int)
    requires
        0 <= n <= 7,
        last <= 31,
    ensures
        forall|j: int|
            0 <= j < cells(first, last, 0, w, n).len() ==> #[trigger] cells(first, last, 0, w, n)[j]
                != '\x1b',
    decreases n,
{
    if n > 0 {
        lemma_cells_plain(first, last, w, n - 1);
        let prev = cells(first, last, 0, w, n - 1);
        let d = day_at(first, w, n - 1);
        let c = cell(d, last, 0);
        assert forall|j: int| 0 <= j < c.len() implies #[trigger] c[j] != '\x1b' by {
            if 1 <= d <= last {
                assert(c == day_digits(d) + seq![' ']);
            }
        }
        assert forall|j: int|
            0 <= j < cells(first, last, 0, w, n).len() implies #[trigger] cells(
            first,
            last,
            0,
            w,
            n,
        )[j] != '\x1b' by {
            if j >= prev.len() {
                assert(cells(first, last, 0, w, n)[j] == c[j - prev.len()]);
            } else {
                assert(cells(first, last, 0, w, n)[j] == prev[j]);
            }
        }
    }
}

/// The marked day's cell, in column `c`, starts with an escape character.
proof fn lemma_cells_escape(first: int, last: int, mark: int, w: int, c: int, n: int)
    requires
        0 <= c < n <= 7,
        1 <= mark <= last,
        day_at(first, w, c) == mark,
    ensures
        3 * c < cells(first, last, mark, w, n).len(),
        cells(first, last, mark, w, n)[3 * c] == '\x1b',
    decreases n,
{
    lemma_cells_len(first, last, mark, w, n - 1);
    if n - 1 > c {
        lemma_cells_escape(first, last, mark, w, c, n - 1);
    } else {
        let prev = cells(first, last, mark, w, n - 1);
        assert(prev.len() == 3 * c);
        assert(cells(first, last, mark, w, n) == prev + cell(mark, last, mark));
    }
}

/// Without a highlight every row is 22 columns wide; a highlight adds the 8
/// bytes of its two escape sequences to the one row that holds the marked day.
pub proof fn lemma_row_widths(y: int, m: int, print_year: bool, mark: int)
    requires
        1 <= y <= 9999,
        1 <= m <= 12,
    ensures
        month_grid(y, m, print_year, mark).len() == 8,
        forall|i: int|
            0 <= i < 8 ==> #[trigger] month_grid(y, m, print_year, mark)[i].len() == 22 + (if marked_row(
                y,
                m,
                mark,
                i,
            ) {
                8int
            } else {
                0int
            }),
{
    lemma_header(y, m, print_year);
    lemma_weekday_row();
    let first = weekday(y, m, 1);
    let last = days_in_month(y, m);
    let g = month_grid(y, m, print_year, mark);
    assert forall|i: int| 0 <= i < 8 implies #[trigger] g[i].len() == 22 + (if marked_row(
        y,
        m,
        mark,
        i,
    ) {
        8int
    } else {
        0int
    }) by {
        if i >= 2 {
            lemma_cells_len(first, last, mark, i - 2, 7);
            assert(g[i] == week_row(first, last, mark, i - 2));
        }
    }
}

/// Rows that contain an escape character.
pub open spec fn has_escape(rows: Seq<Seq<char>>) -> bool {
    exists|i: int, j: int|
        0 <= i < rows.len() && 0 <= j < rows[i].len() && #[trigger] rows[i][j] == '\x1b'
}

/// For a real date as today, a month's rows hold escape sequences exactly
/// when today lies in that month of that year.
pub proof fn lemma_highlight_iff(y: int, m: int, print_year: bool, today: CalendarDate)
    requires
        1 <= y <= 9999,
        1 <= m <= 12,
        today.wf(),
    ensures
        has_escape(month_rows(y, m, print_year, today)) <==> (today.year == y && today.month
            == m),
{
    let first = weekday(y, m, 1);
    let last = days_in_month(y, m);
    let mark = highlight_day(y, m, today);
    let g = month_rows(y, m, print_year, today);
    assert(0 <= first < 7);
    if today.year == y && today.month == m {
        let w = (first + mark - 1) / 7;
        let c = (first + mark - 1) % 7;
        assert(0 <= w < 6);
        lemma_cells_escape(first, last, mark, w, c, 7);
        assert(g[2 + w] == week_row(first, last, mark, w));
        assert(g[2 + w][3 * c] == '\x1b');
    } else {
        lemma_header(y, m, print_year);
        lemma_weekday_row();
        assert forall|i: int, j: int| 0 <= i < 8 && 0 <= j < g[i].len() implies #[trigger] g[i][j]
            != '\x1b' by {
            if i >= 2 {
                lemma_cells_plain(first, last, i - 2, 7);
                let row = week_row(first, last, 0, i - 2);
                assert(g[i] == row);
                if j < row.len() - 1 {
                    assert(row[j] == cells(first, last, 0, i - 2, 7)[j]);
                }
            }
        }
    }
}

/// Rendering depends on its inputs alone: two results of `format_month` on
/// the same inputs are the same rows.
pub proof fn lemma_format_month_repeatable(
    a: Seq<String>,
    b: Seq<String>,
    y: int,
    m: int,
    print_year: bool,
    today: CalendarDate,
)
    requires
        a.len() == 8,
        b.len() == 8,
        forall|i: int| 0 <= i < 8 ==> #[trigger] a[i]@ == month_rows(y, m, print_year, today)[i],
        forall|i: int| 0 <= i < 8 ==> #[trigger] b[i]@ == month_rows(y, m, print_year, today)[i],
    ensures
        forall|i: int| 0 <= i < 8 ==> #[trigger] a[i]@ == b[i]@,
{
}

} // verus!
