//! A terminal calendar: Gregorian date arithmetic, fixed-width month grids
//! with today's date highlighted, year views, and command-line value parsing.

pub mod date;
pub mod text;
pub mod grid;
pub mod args;
pub mod calendar;

pub use args::{parse_int, parse_month, parse_year, month_from_lower, Args, CalError, Config};
pub use calendar::{format_year, render};
pub use date::{first_weekday, is_leap_year, last_day_in_month, CalendarDate};
pub use grid::format_month;
