//! Calendar dates: read through chrono with a strftime-style pattern, written
//! in ISO 8601 form.
use chrono::Datelike;
use vstd::prelude::*;
use vstd::string::StrSliceExecFns;
use vstd::string::StringExecFns;

verus! {

/// A calendar date, as chrono hands it out.
#[derive(Clone, Copy, Debug, PartialEq, Eq, Structural)]
pub struct Date {
    pub year: i32,
    pub month: u32,
    pub day: u32,
}

pub open spec fn date_model(d: Option<Date>) -> Option<(i32, u32, u32)> {
    match d {
        Some(x) => Some((x.year, x.month, x.day)),
        None => None,
    }
}

/// The date that chrono reads from `text` under the pattern `format`, if any.
pub uninterp spec fn date_in_text(text: Seq<char>, format: Seq<char>) -> Option<(i32, u32, u32)>;

/// Relies on chrono's `NaiveDate::parse_from_str`: the date is a function of
/// the text and the pattern, and a `NaiveDate` always has a month in 1..=12
/// and a day in 1..=31.
#[verifier::external_body]
fn read_date(text: &str, format: &str) -> (r: Option<Date>)
    ensures
        date_model(r) == date_in_text(text@, format@),
        r matches Some(d) ==> 1 <= d.month <= 12 && 1 <= d.day <= 31,
{
    chrono::NaiveDate::parse_from_str(text, format).ok().map(
        |d| Date { year: d.year(), month: d.month(), day: d.day() },
    )
}

/// Reads a date from `text` under the pattern `format` (`%m/%d/%Y`, ...).
pub fn parse_date(text: &str, format: &str) -> (r: Option<Date>)
    ensures
        date_model(r) == date_in_text(text@, format@),
        r matches Some(d) ==> 1 <= d.month <= 12 && 1 <= d.day <= 31,
{
    read_date(text, format)
}

pub open spec fn digit_char(d: nat) -> char {
    if d == 0 {
        '0'
    } else if d == 1 {
        '1'
    } else if d == 2 {
        '2'
    } else if d == 3 {
        '3'
    } else if d == 4 {
        '4'
    } else if d == 5 {
        '5'
    } else if d == 6 {
        '6'
    } else if d == 7 {
        '7'
    } else if d == 8 {
        '8'
    } else {
        '9'
    }
}

/// Decimal digits of a natural number, without leading zeros.
pub open spec fn nat_text(n: nat) -> Seq<char>
    decreases n,
{
    if n < 10 {
        seq![digit_char(n)]
    } else {
        nat_text(n / 10) + seq![digit_char(n % 10)]
    }
}

/// `s` with '0' in front, up to `width` characters.
pub open spec fn zero_padded(s: Seq<char>, width: nat) -> Seq<char> {
    if s.len() < width {
        Seq::new((width - s.len()) as nat, |i: int| '0') + s
    } else {
        s
    }
}

/// The year as chrono writes it: four digits within 0..=9999, else a sign
/// and at least four digits.
pub open spec fn year_text(y: int) -> Seq<char> {
    if 0 <= y <= 9999 {
        zero_padded(nat_text(y as nat), 4)
    } else if y < 0 {
        seq!['-'] + zero_padded(nat_text((-y) as nat), 4)
    } else {
        seq!['+'] + zero_padded(nat_text(y as nat), 4)
    }
}

/// `YYYY-MM-DD`.
pub open spec fn iso_text(d: Date) -> Seq<char> {
    year_text(d.year as int) + seq!['-'] + zero_padded(nat_text(d.month as nat), 2) + seq!['-']
        + zero_padded(nat_text(d.day as nat), 2)
}

fn digit_str(d: u32) -> (r: &'static str)
    requires
        d < 10,
    ensures
        r@ == seq![digit_char(d as nat)],
{
    proof {
        reveal_strlit("0");
        reveal_strlit("1");
        reveal_strlit("2");
        reveal_strlit("3");
        reveal_strlit("4");
        reveal_strlit("5");
        reveal_strlit("6");
        reveal_strlit("7");
        reveal_strlit("8");
        reveal_strlit("9");
    }
    if d == 0 {
        "0"
    } else if d == 1 {
        "1"
    } else if d == 2 {
        "2"
    } else if d == 3 {
        "3"
    } else if d == 4 {
        "4"
    } else if d == 5 {
        "5"
    } else if d == 6 {
        "6"
    } else if d == 7 {
        "7"
    } else if d == 8 {
        "8"
    } else {
        "9"
    }
}

fn push_digits(out: &mut String, n: u32)
    ensures
        final(out)@ == old(out)@ + nat_text(n as nat),
    decreases n,
{
    if n < 10 {
        out.append(digit_str(n));
    } else {
        push_digits(out, n / 10);
        out.append(digit_str(n % 10));
        proof {
            assert(old(out)@ + nat_text(n as nat) == old(out)@ + nat_text((n / 10) as nat) + seq![
                digit_char((n % 10) as nat),
            ]);
        }
    }
}

fn push_padded(out: &mut String, n: u32, width: usize)
    ensures
        final(out)@ == old(out)@ + zero_padded(nat_text(n as nat), width as nat),
{
    let mut digits = String::new();
    push_digits(&mut digits, n);
    assert(digits@ == nat_text(n as nat));
    let len = digits.as_str().unicode_len();
    let mut k: usize = len;
    proof {
        reveal_strlit("0");
        assert(Seq::new(0nat, |i: int| '0') == Seq::<char>::empty());
        assert(out@ + Seq::<char>::empty() == out@);
    }
    while k < width
        invariant
            len == nat_text(n as nat).len(),
            len <= k <= if len < width { width } else { len },
            out@ == old(out)@ + Seq::new((k - len) as nat, |i: int| '0'),
        decreases width - k,
    {
        proof {
            reveal_strlit("0");
            assert(Seq::new((k + 1 - len) as nat, |i: int| '0') == Seq::new(
                (k - len) as nat,
                |i: int| '0',
            ) + seq!['0']);
            assert(old(out)@ + Seq::new((k - len) as nat, |i: int| '0') + seq!['0'] == old(out)@ + (
            Seq::new((k - len) as nat, |i: int| '0') + seq!['0']));
        }
        out.append("0");
        k = k + 1;
    }
    out.append(digits.as_str());
    proof {
        if len < width {
            assert(k == width);
            assert(old(out)@ + Seq::new((k - len) as nat, |i: int| '0') + digits@ == old(out)@ + (
            Seq::new((k - len) as nat, |i: int| '0') + digits@));
        } else {
            assert(Seq::new((k - len) as nat, |i: int| '0') == Seq::<char>::empty());
            assert(old(out)@ + Seq::<char>::empty() == old(out)@);
        }
    }
}

impl Date {
    /// The date in ISO 8601 form, `2023-03-15`.
    pub fn to_iso(&self) -> (r: String)
        ensures
            r@ == iso_text(*self),
    {
        proof {
            reveal_strlit("-");
            reveal_strlit("+");
        }
        let mut r = String::new();
        let y = self.year;
        if 0 <= y && y <= 9999 {
            push_padded(&mut r, y as u32, 4);
        } else if y < 0 {
            r.append("-");
            push_padded(&mut r, (-(y as i64)) as u32, 4);
        } else {
            r.append("+");
            push_padded(&mut r, y as u32, 4);
        }
        r.append("-");
        push_padded(&mut r, self.month, 2);
        r.append("-");
        push_padded(&mut r, self.day, 2);
        r
    }
}

} // verus!
