//! Command-line values: month and year parsing, and the configuration that
//! decides what to show.

use vstd::prelude::*;
use crate::date::CalendarDate;

verus! {

/// Why a command-line value was refused; each carries the offending text.
#[derive(Debug)]
pub enum CalError {
    InvalidInteger(String),
    MonthOutOfRange(String),
    YearOutOfRange(String),
    InvalidMonth(String),
}

impl CalError {
    /// The message shown for the error.
    pub open spec fn message(self) -> Seq<char> {
        match self {
            CalError::InvalidInteger(s) => "Invalid integer \""@ + s@ + "\""@,
            CalError::MonthOutOfRange(s) => "month \""@ + s@ + "\" not in the range 1 through 12"@,
            CalError::YearOutOfRange(s) => "year \""@ + s@ + "\" not in the range 1 through 9999"@,
            CalError::InvalidMonth(s) => "Invalid month \""@ + s@ + "\""@,
        }
    }

    /// The message shown for the error.
    pub fn to_string(&self) -> (r: String)
        ensures
            r@ == self.message(),
    {
        let (head, text, tail) = match self {
            CalError::InvalidInteger(s) => ("Invalid integer \"", s, "\""),
            CalError::MonthOutOfRange(s) => ("month \"", s, "\" not in the range 1 through 12"),
            CalError::YearOutOfRange(s) => ("year \"", s, "\" not in the range 1 through 9999"),
            CalError::InvalidMonth(s) => ("Invalid month \"", s, "\""),
        };
        let mut r = String::from_str(head);
        r.append(text.as_str());
        r.append(tail);
        r
    }
}

pub open spec fn is_digit(c: char) -> bool {
    '0' <= c <= '9'
}

/// Value of a run of decimal digits.
pub open spec fn digits_value(s: Seq<char>) -> int
    decreases s.len(),
{
    if s.len() == 0 {
        0
    } else {
        digits_value(s.drop_last()) * 10 + (s.last() as int - '0' as int)
    }
}

pub open spec fn has_sign(s: Seq<char>) -> bool {
    s.len() > 0 && (s[0] == '+' || s[0] == '-')
}

/// `s` without its leading sign, if any.
pub open spec fn magnitude(s: Seq<char>) -> Seq<char> {
    if has_sign(s) {
        s.drop_first()
    } else {
        s
    }
}

/// An optional `+` or `-` followed by one or more decimal digits.
pub open spec fn is_int_literal(s: Seq<char>) -> bool {
    &&& magnitude(s).len() > 0
    &&& forall|i: int| 0 <= i < magnitude(s).len() ==> is_digit(#[trigger] magnitude(s)[i])
}

/// The value an integer literal denotes.
pub open spec fn literal_value(s: Seq<char>) -> int {
    if s.len() > 0 && s[0] == '-' {
        -digits_value(magnitude(s))
    } else {
        digits_value(magnitude(s))
    }
}

/// `s` reads as an `i64`.
pub open spec fn fits_i64(s: Seq<char>) -> bool {
    is_int_literal(s) && i64::MIN <= literal_value(s) <= i64::MAX
}

/// Relies on `str::parse::<i64>`: it accepts exactly an optional sign and
/// one or more decimal digits whose value fits in an `i64`, and returns that value.
#[verifier::external_body]
fn parse_i64(s: &str) -> (r: Option<i64>)
    ensures
        r == (if fits_i64(s@) {
            Some(literal_value(s@) as i64)
        } else {
            None
        }),
{
    s.parse::<i64>().ok()
}

/// Parses a decimal integer with an optional sign.
pub fn parse_int(val: &str) -> (r: Result<i64, CalError>)
    ensures
        fits_i64(val@) ==> r == Ok::<
            i64,
            CalError,
        >(literal_value(val@) as i64),
        !fits_i64(val@) ==> (r matches Err(CalError::InvalidInteger(s)) && s@ == val@),
{
    match parse_i64(val) {
        Some(v) => Ok(v),
        None => Err(CalError::InvalidInteger(String::from_str(val))),
    }
}

/// `s` reads as an `i32`.
pub open spec fn is_i32_literal(s: Seq<char>) -> bool {
    is_int_literal(s) && i32::MIN <= literal_value(s) <= i32::MAX
}

/// Parses a year, which must lie in 1 through 9999.
pub fn parse_year(year: &str) -> (r: Result<i32, CalError>)
    ensures
        !is_i32_literal(year@) ==> (r matches Err(CalError::InvalidInteger(s)) && s@ == year@),
        is_i32_literal(year@) && 1 <= literal_value(year@) <= 9999 ==> r == Ok::<i32, CalError>(
            literal_value(year@) as i32,
        ),
        is_i32_literal(year@) && !(1 <= literal_value(year@) <= 9999) ==> (r matches Err(
            CalError::YearOutOfRange(s),
        ) && s@ == year@),
{
    match parse_int(year) {
        Ok(v) => {
            if v < i32::MIN as i64 || v > i32::MAX as i64 {
                Err(CalError::InvalidInteger(String::from_str(year)))
            } else if 1 <= v && v <= 9999 {
                Ok(v as i32)
            } else {
                Err(CalError::YearOutOfRange(String::from_str(year)))
            }
        },
        Err(e) => Err(e),
    }
}

/// `s` reads as a `u32`: a literal without a minus sign whose value fits.
pub open spec fn is_u32_literal(s: Seq<char>) -> bool {
    is_int_literal(s) && s[0] != '-' && 0 <= literal_value(s) <= u32::MAX
}

/// What `str::to_lowercase` makes of a string.
pub uninterp spec fn lower_of(s: Seq<char>) -> Seq<char>;

/// Relies on `str::to_lowercase`: the result depends on the characters of `s` alone.
#[verifier::external_body]
fn lowercase(s: &str) -> (r: String)
    ensures
        r@ == lower_of(s@),
{
    s.to_lowercase()
}

/// Lower-case name of month `m`.
pub open spec fn lower_month_name(m: int) -> Seq<char> {
    if m == 1 {
        "january"@
    } else if m == 2 {
        "february"@
    } else if m == 3 {
        "march"@
    } else if m == 4 {
        "april"@
    } else if m == 5 {
        "may"@
    } else if m == 6 {
        "june"@
    } else if m == 7 {
        "july"@
    } else if m == 8 {
        "august"@
    } else if m == 9 {
        "september"@
    } else if m == 10 {
        "october"@
    } else if m == 11 {
        "november"@
    } else {
        "december"@
    }
}

/// The first month from `m` on whose lower-case name starts with `p`.
pub open spec fn month_with_prefix_from(p: Seq<char>, m: int) -> Option<u32>
    decreases 13 - m,
{
    if m > 12 || m < 1 {
        None
    } else if p.is_prefix_of(lower_month_name(m)) {
        Some(m as u32)
    } else {
        month_with_prefix_from(p, m + 1)
    }
}

/// The first month whose lower-case name starts with `p`.
pub open spec fn month_with_prefix(p: Seq<char>) -> Option<u32> {
    month_with_prefix_from(p, 1)
}

fn lower_month_name_str(m: u32) -> (r: &'static str)
    requires
        1 <= m <= 12,
    ensures
        r@ == lower_month_name(m as int),
{
    match m {
        1 => "january",
        2 => "february",
        3 => "march",
        4 => "april",
        5 => "may",
        6 => "june",
        7 => "july",
        8 => "august",
        9 => "september",
        10 => "october",
        11 => "november",
        _ => "december",
    }
}

/// Whether `p` is a prefix of `s`.
pub fn starts_with(s: &str, p: &str) -> (r: bool)
    ensures
        r == p@.is_prefix_of(s@),
{
    let pl = p.unicode_len();
    let sl = s.unicode_len();
    if pl > sl {
        return false;
    }
    let mut i: usize = 0;
    while i < pl
        invariant
            i <= pl <= sl,
            pl == p@.len(),
            sl == s@.len(),
            forall|j: int| 0 <= j < i ==> p@[j] == s@[j],
        decreases pl - i,
    {
        if p.get_char(i) != s.get_char(i) {
            return false;
        }
        i += 1;
    }
    assert(p@ =~= s@.subrange(0, pl as int));
    true
}

/// The first month whose lower-case name starts with `lower`.
pub fn month_from_lower(lower: &str) -> (r: Option<u32>)
    ensures
        r == month_with_prefix(lower@),
{
    let mut m: u32 = 1;
    while m <= 12
        invariant
            1 <= m <= 13,
            month_with_prefix(lower@) == month_with_prefix_from(lower@, m as int),
        decreases 13 - m,
    {
        if starts_with(lower_month_name_str(m), lower) {
            return Some(m);
        }
        m += 1;
    }
    None
}

/// Parses a month given as a number in 1 through 12, or as the start of a
/// month's name in any case.
pub fn parse_month(month: &str) -> (r: Result<u32, CalError>)
    ensures
        is_u32_literal(month@) && 1 <= literal_value(month@) <= 12 ==> r == Ok::<u32, CalError>(
            literal_value(month@) as u32,
        ),
        is_u32_literal(month@) && !(1 <= literal_value(month@) <= 12) ==> (r matches Err(
            CalError::MonthOutOfRange(s),
        ) && s@ == month@),
        !is_u32_literal(month@) ==> match month_with_prefix(lower_of(month@)) {
            Some(m) => r == Ok::<u32, CalError>(m),
            None => (r matches Err(CalError::InvalidMonth(s)) && s@ == month@),
        },
{
    let numeric: Option<u32> = match parse_int(month) {
        Ok(v) => {
            if month.get_char(0) != '-' && 0 <= v && v <= u32::MAX as i64 {
                Some(v as u32)
            } else {
                None
            }
        },
        Err(_) => None,
    };
    match numeric {
        Some(n) => {
            if 1 <= n && n <= 12 {
                Ok(n)
            } else {
                Err(CalError::MonthOutOfRange(String::from_str(month)))
            }
        },
        None => {
            let lower = lowercase(month);
            match month_from_lower(lower.as_str()) {
                Some(m) => Ok(m),
                None => Err(CalError::InvalidMonth(String::from_str(month))),
            }
        },
    }
}

/// The values given on the command line.
#[derive(Debug)]
pub struct Args {
    /// Month number, 1 through 12.
    pub month: Option<u32>,
    /// Show the whole current year.
    pub show_current_year: bool,
    /// Year, 1 through 9999.
    pub year: Option<i32>,
}

/// What to show: one month of a year, or the whole year, and which day is today.
#[derive(Debug)]
pub struct Config {
    pub month: Option<u32>,
    pub year: i32,
    pub today: CalendarDate,
}

impl Config {
    /// Fills in what the arguments leave open from today's date: the current
    /// year when the whole current year is asked for, the current month and
    /// year when neither is given, and the current year when only a month is.
    pub fn new(args: Args, today: CalendarDate) -> (c: Config)
        ensures
            c.today == today,
            args.show_current_year ==> c.month is None && c.year == today.year,
            !args.show_current_year && args.month is None && args.year is None ==> c.month
                == Some(today.month) && c.year == today.year,
            !args.show_current_year && !(args.month is None && args.year is None) ==> c.month
                == args.month && c.year == (match args.year {
                Some(y) => y,
                None => today.year,
            }),
    {
        if args.show_current_year {
            Config { month: None, year: today.year, today }
        } else if args.month.is_none() && args.year.is_none() {
            Config { month: Some(today.month), year: today.year, today }
        } else {
            let year = match args.year {
                Some(y) => y,
                None => today.year,
            };
            Config { month: args.month, year, today }
        }
    }
}

} // verus!
