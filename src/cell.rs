use vstd::prelude::*;
use vstd::string::*;

use chrono::NaiveDate;

verus! {

/// A calendar date: proleptic Gregorian year, month (1..=12) and day of month.
#[derive(Clone, Copy, Debug, PartialEq, Eq, Structural)]
pub struct Date {
    pub year: i32,
    pub month: u32,
    pub day: u32,
}

/// A date with a time of day, as a spreadsheet date/time cell holds it.
#[derive(Clone, Copy, Debug, PartialEq, Eq, Structural)]
pub struct Moment {
    pub date: Date,
    pub hour: u32,
    pub minute: u32,
    pub second: u32,
}

/// What the engine reads of a floating-point cell: its decimal rendering and
/// its value truncated toward zero. No float renders as empty text; a cell
/// holding such a value is `well_formed`.
#[derive(Clone, Debug, PartialEq, Eq)]
pub struct Real {
    pub text: String,
    pub whole: i64,
}

/// One spreadsheet cell.
#[derive(Clone, Debug, PartialEq, Eq)]
pub enum Cell {
    Bool(bool),
    Int(i64),
    Float(Real),
    DateTime(Moment),
    Text(String),
    Empty,
    Error(String),
}

/// The variant of a cell, without its value.
#[derive(Clone, Copy, Debug, PartialEq, Eq, Structural)]
pub enum Kind {
    Bool,
    Int,
    Float,
    DateTime,
    Text,
    Empty,
    Error,
}

pub open spec fn is_leap_year(y: int) -> bool {
    y % 4 == 0 && (y % 100 != 0 || y % 400 == 0)
}

pub open spec fn days_in_month(y: int, m: int) -> int {
    if m == 2 {
        if is_leap_year(y) { 29 } else { 28 }
    } else if m == 4 || m == 6 || m == 9 || m == 11 {
        30
    } else {
        31
    }
}

/// The years that chrono's `NaiveDate` can represent.
pub open spec fn year_in_range(y: int) -> bool {
    -262143 <= y <= 262142
}

/// `(y, m, d)` names an existing day that chrono can represent.
pub open spec fn is_calendar_date(y: int, m: int, d: int) -> bool {
    &&& year_in_range(y)
    &&& 1 <= m <= 12
    &&& 1 <= d <= days_in_month(y, m)
}

pub open spec fn valid_date(d: Date) -> bool {
    is_calendar_date(d.year as int, d.month as int, d.day as int)
}

/// Relies on chrono's `NaiveDate::from_ymd_opt`, which returns `None` exactly
/// when the day does not exist, the month or day is invalid, or the year is
/// outside chrono's range.
#[verifier::external_body]
fn chrono_accepts(year: i32, month: u32, day: u32) -> (r: bool)
    ensures
        r == is_calendar_date(year as int, month as int, day as int),
{
    NaiveDate::from_ymd_opt(year, month, day).is_some()
}

/// The date `(year, month, day)` when it exists, from integers of any size.
pub fn calendar_date(year: i64, month: i64, day: i64) -> (r: Option<Date>)
    ensures
        r is Some <==> is_calendar_date(year as int, month as int, day as int),
        r matches Some(d) ==> d.year == year && d.month == month && d.day == day,
{
    if year < i32::MIN as i64 || year > i32::MAX as i64 || month < 0 || month > u32::MAX as i64
        || day < 0 || day > u32::MAX as i64 {
        return None;
    }
    let (y, m, d) = (year as i32, month as u32, day as u32);
    if chrono_accepts(y, m, d) {
        Some(Date { year: y, month: m, day: d })
    } else {
        None
    }
}

pub open spec fn digit_char(d: int) -> char {
    seq!['0', '1', '2', '3', '4', '5', '6', '7', '8', '9'][d]
}

/// The decimal digits of a natural number, most significant first.
pub open spec fn digits(n: nat) -> Seq<char>
    decreases n,
{
    if n < 10 {
        seq![digit_char(n as int)]
    } else {
        digits(n / 10) + seq![digit_char((n % 10) as int)]
    }
}

pub open spec fn abs(n: int) -> nat {
    if n < 0 { (-n) as nat } else { n as nat }
}

pub open spec fn sign(n: int) -> Seq<char> {
    if n < 0 { seq!['-'] } else { Seq::empty() }
}

/// An integer in decimal, with a leading `-` when negative.
pub open spec fn decimal(n: int) -> Seq<char> {
    sign(n) + digits(abs(n))
}

/// An integer in decimal, filled with zeros after the sign up to `width`
/// characters.
pub open spec fn zero_padded(n: int, width: nat) -> Seq<char> {
    let fill = width - sign(n).len() - digits(abs(n)).len();
    sign(n) + Seq::new(if fill > 0 { fill as nat } else { 0 }, |i: int| '0') + digits(abs(n))
}

/// The canonical rendering of a date and time: `YYYY-MM-DD HH:MM:SS`.
pub open spec fn moment_text(m: Moment) -> Seq<char> {
    zero_padded(m.date.year as int, 4) + seq!['-'] + zero_padded(m.date.month as int, 2) + seq![
        '-',
    ] + zero_padded(m.date.day as int, 2) + seq![' '] + zero_padded(m.hour as int, 2) + seq![':']
        + zero_padded(m.minute as int, 2) + seq![':'] + zero_padded(m.second as int, 2)
}

/// Relies on the standard library's `Display` for `i64`: plain decimal with a
/// leading `-` for negative values.
#[verifier::external_body]
fn int_text(x: i64) -> (r: String)
    ensures
        r@ == decimal(x as int),
{
    x.to_string()
}

/// `n` in decimal, filled with zeros after the sign up to `width` characters.
fn zero_padded_text(n: i64, width: usize) -> (r: String)
    requires
        n > i64::MIN,
    ensures
        r@ == zero_padded(n as int, width as nat),
{
    proof {
        reveal_strlit("-");
    }
    let magnitude: i64 = if n < 0 { -n } else { n };
    let body = int_text(magnitude);
    assert(body@ =~= digits(abs(n as int)));
    let sign_len: usize = if n < 0 { 1 } else { 0 };
    let body_len = body.as_str().unicode_len();
    let fill: usize = if width > sign_len && width - sign_len > body_len {
        width - sign_len - body_len
    } else {
        0
    };
    let mut r = if n < 0 { String::from_str("-") } else { String::new() };
    assert(r@ =~= sign(n as int) + Seq::new(0, |k: int| '0'));
    let mut i: usize = 0;
    while i < fill
        invariant
            i <= fill,
            r@ =~= sign(n as int) + Seq::new(i as nat, |k: int| '0'),
        decreases fill - i,
    {
        r.append("0");
        proof {
            reveal_strlit("0");
        }
        assert("0"@ =~= seq!['0']);
        i = i + 1;
        assert(r@ =~= sign(n as int) + Seq::new(i as nat, |k: int| '0'));
    }
    r.append(body.as_str());
    r
}

/// A date and time in the canonical layout of [`moment_text`].
fn render_moment(m: &Moment) -> (r: String)
    ensures
        r@ == moment_text(*m),
{
    proof {
        reveal_strlit("-");
        reveal_strlit(" ");
        reveal_strlit(":");
    }
    let mut r = zero_padded_text(m.date.year as i64, 4);
    r.append("-");
    r.append(zero_padded_text(m.date.month as i64, 2).as_str());
    r.append("-");
    r.append(zero_padded_text(m.date.day as i64, 2).as_str());
    r.append(" ");
    r.append(zero_padded_text(m.hour as i64, 2).as_str());
    r.append(":");
    r.append(zero_padded_text(m.minute as i64, 2).as_str());
    r.append(":");
    r.append(zero_padded_text(m.second as i64, 2).as_str());
    assert(r@ =~= moment_text(*m));
    r
}

impl Cell {
    /// A floating-point cell's rendering is never empty, as no float renders
    /// as empty text.
    pub open spec fn well_formed(&self) -> bool {
        match self {
            Cell::Float(r) => r.text@.len() > 0,
            _ => true,
        }
    }

    /// The cell reads as empty text in any case: an empty cell or empty text.
    pub open spec fn is_blank(&self) -> bool {
        match self {
            Cell::Empty => true,
            Cell::Text(s) => s@.len() == 0,
            _ => false,
        }
    }

    pub open spec fn spec_kind(&self) -> Kind {
        match self {
            Cell::Bool(_) => Kind::Bool,
            Cell::Int(_) => Kind::Int,
            Cell::Float(_) => Kind::Float,
            Cell::DateTime(_) => Kind::DateTime,
            Cell::Text(_) => Kind::Text,
            Cell::Empty => Kind::Empty,
            Cell::Error(_) => Kind::Error,
        }
    }

    /// The text that any cell reads as.
    pub open spec fn display(&self) -> Seq<char> {
        match self {
            Cell::Bool(b) => if *b { "true"@ } else { "false"@ },
            Cell::Int(i) => decimal(*i as int),
            Cell::Float(r) => r.text@,
            Cell::DateTime(m) => moment_text(*m),
            Cell::Text(s) => s@,
            Cell::Empty => Seq::empty(),
            Cell::Error(msg) => "#ERROR: "@ + msg@,
        }
    }

    /// The integer a numeric cell stands for; otherwise the cell's kind.
    pub open spec fn integer(&self) -> Result<i64, Kind> {
        match self {
            Cell::Int(i) => Ok(*i),
            Cell::Float(r) => Ok(r.whole),
            _ => Err(self.spec_kind()),
        }
    }

    /// The calendar date a date/time cell stands for; otherwise the cell's kind.
    pub open spec fn date(&self) -> Result<Date, Kind> {
        match self {
            Cell::DateTime(m) => if valid_date(m.date) {
                Ok(m.date)
            } else {
                Err(Kind::DateTime)
            },
            _ => Err(self.spec_kind()),
        }
    }

    pub fn kind(&self) -> (r: Kind)
        ensures
            r == self.spec_kind(),
    {
        match self {
            Cell::Bool(_) => Kind::Bool,
            Cell::Int(_) => Kind::Int,
            Cell::Float(_) => Kind::Float,
            Cell::DateTime(_) => Kind::DateTime,
            Cell::Text(_) => Kind::Text,
            Cell::Empty => Kind::Empty,
            Cell::Error(_) => Kind::Error,
        }
    }

    /// The text of a text cell; any other cell is refused with its kind.
    pub fn as_text(&self) -> (r: Result<String, Kind>)
        ensures
            match (self, r) {
                (Cell::Text(s), Ok(t)) => t@ == s@,
                (Cell::Text(_), Err(_)) => false,
                (_, Ok(_)) => false,
                (c, Err(k)) => k == c.spec_kind(),
            },
    {
        match self {
            Cell::Text(s) => Ok(s.clone()),
            _ => Err(self.kind()),
        }
    }

    /// Every cell as text; this never fails.
    pub fn as_display_string(&self) -> (r: String)
        ensures
            r@ == self.display(),
            self.well_formed() ==> (r@.len() == 0 <==> self.is_blank()),
    {
        proof {
            if self.well_formed() {
                lemma_display_empty_iff(*self);
            }
        }
        match self {
            Cell::Bool(b) => if *b {
                String::from_str("true")
            } else {
                String::from_str("false")
            },
            Cell::Int(i) => int_text(*i),
            Cell::Float(r) => r.text.clone(),
            Cell::DateTime(m) => render_moment(m),
            Cell::Text(s) => s.clone(),
            Cell::Empty => String::new(),
            Cell::Error(msg) => String::from_str("#ERROR: ").concat(msg.as_str()),
        }
    }

    /// An integer cell as is, a floating-point cell truncated toward zero.
    pub fn as_integer(&self) -> (r: Result<i64, Kind>)
        ensures
            r == self.integer(),
    {
        match self {
            Cell::Int(i) => Ok(*i),
            Cell::Float(r) => Ok(r.whole),
            _ => Err(self.kind()),
        }
    }

    /// The calendar date of a date/time cell whose date exists.
    pub fn as_date(&self) -> (r: Result<Date, Kind>)
        ensures
            r == self.date(),
            r matches Ok(d) ==> valid_date(d),
    {
        match self {
            Cell::DateTime(m) => {
                match calendar_date(m.date.year as i64, m.date.month as i64, m.date.day as i64) {
                    Some(d) => Ok(d),
                    None => Err(Kind::DateTime),
                }
            },
            _ => Err(self.kind()),
        }
    }
}

/// A well-formed cell displays as empty text exactly when it is blank: every
/// other cell shows something.
pub proof fn lemma_display_empty_iff(c: Cell)
    requires
        c.well_formed(),
    ensures
        c.display().len() == 0 <==> c.is_blank(),
{
    reveal_strlit("true");
    reveal_strlit("false");
    reveal_strlit("#ERROR: ");
    match c {
        Cell::Int(i) => {
            let n = abs(i as int);
            if n >= 10 {
                assert(digits(n).len() == digits(n / 10).len() + 1);
            }
        },
        _ => {},
    }
}

} // verus!
