//! Calendar dates and the decimal numbers they are written with.
use vstd::prelude::*;
use vstd::string::*;

verus! {

/// A calendar date of the proleptic Gregorian calendar.
#[derive(Clone, Copy, PartialEq, Eq, Structural, Debug)]
pub struct Date {
    pub year: i32,
    pub month: u32,
    pub day: u32,
}

pub open spec fn is_leap(y: int) -> bool {
    (y % 4 == 0 && y % 100 != 0) || y % 400 == 0
}

pub open spec fn days_in_month(y: int, m: int) -> int {
    if m == 2 {
        if is_leap(y) {
            29
        } else {
            28
        }
    } else if m == 4 || m == 6 || m == 9 || m == 11 {
        30
    } else {
        31
    }
}

/// A month of the year and a day of that month.
pub open spec fn valid_date(y: int, m: int, d: int) -> bool {
    1 <= m <= 12 && 1 <= d <= days_in_month(y, m)
}

impl Date {
    pub open spec fn wf(&self) -> bool {
        valid_date(self.year as int, self.month as int, self.day as int)
    }
}

pub open spec fn digit_char(d: nat) -> char {
    if d == 0 {
        '0'
    } else if d == 1 {
        '1'
    } else if d == 2 {
        '2'
    } else if d == 3 {
        '3'
    } else if d == 4 {
        '4'
    } else if d == 5 {
        '5'
    } else if d == 6 {
        '6'
    } else if d == 7 {
        '7'
    } else if d == 8 {
        '8'
    } else {
        '9'
    }
}

/// The decimal digits of `n`, without leading zeros.
pub open spec fn digits(n: nat) -> Seq<char>
    decreases n,
{
    if n < 10 {
        seq![digit_char(n)]
    } else {
        digits(n / 10).push(digit_char(n % 10))
    }
}

/// `n` in decimal, with zeros in front up to `w` digits.
pub open spec fn padded(n: nat, w: nat) -> Seq<char> {
    let ds = digits(n);
    if ds.len() < w {
        Seq::new((w - ds.len()) as nat, |i: int| '0') + ds
    } else {
        ds
    }
}

/// A date written `YYYY-MM-DD`; a year outside 0 to 9999 carries its sign.
pub open spec fn date_text(d: Date) -> Seq<char> {
    let y = d.year as int;
    let year = if 0 <= y <= 9999 {
        padded(y as nat, 4)
    } else if y < 0 {
        seq!['-'] + padded((-y) as nat, 4)
    } else {
        seq!['+'] + padded(y as nat, 4)
    };
    year + seq!['-'] + padded(d.month as nat, 2) + seq!['-'] + padded(d.day as nat, 2)
}

/// What chrono reads from a text as a date, as year, month and day.
pub uninterp spec fn parsed_date(s: Seq<char>) -> Option<(i32, u32, u32)>;

/// Relies on chrono's `FromStr` for `NaiveDate`: the result depends on the
/// text alone; only valid dates come out; and, as its documentation says,
/// it reads the `%Y-%m-%d` form that `Display` writes.
#[verifier::external_body]
fn parse_naive_date(s: &str) -> (r: Option<(i32, u32, u32)>)
    ensures
        r == parsed_date(s@),
        r matches Some(t) ==> valid_date(t.0 as int, t.1 as int, t.2 as int),
        forall|d: Date|
            #![trigger date_text(d)]
            d.wf() && 0 <= d.year <= 9999 && s@ == date_text(d) ==> r == Some(
                (d.year, d.month, d.day),
            ),
{
    s.parse::<chrono::NaiveDate>().ok().map(
        |d| (chrono::Datelike::year(&d), chrono::Datelike::month(&d), chrono::Datelike::day(&d)),
    )
}

/// The date chrono reads from a text.
pub open spec fn date_of(s: Seq<char>) -> Option<Date> {
    match parsed_date(s) {
        Some(t) => Some(Date { year: t.0, month: t.1, day: t.2 }),
        None => None,
    }
}

impl Date {
    /// Reads a date written `YYYY-MM-DD`.
    pub fn parse(s: &str) -> (r: Option<Date>)
        ensures
            r == date_of(s@),
            r matches Some(d) ==> d.wf(),
            forall|d: Date|
                #![trigger date_text(d)]
                d.wf() && 0 <= d.year <= 9999 && s@ == date_text(d) ==> r == Some(d),
    {
        match parse_naive_date(s) {
            Some(t) => Some(Date { year: t.0, month: t.1, day: t.2 }),
            None => None,
        }
    }

    /// The date written `YYYY-MM-DD`.
    pub fn to_string(&self) -> (r: String)
        ensures
            r@ == date_text(*self),
    {
        let y = self.year;
        let year = if 0 <= y && y <= 9999 {
            padded_of(y as u64, 4)
        } else if y < 0 {
            proof {
                reveal_strlit("-");
                assert("-"@ =~= seq!['-']);
            }
            let a: u64 = if y == i32::MIN {
                2147483648u64
            } else {
                (-y) as u64
            };
            String::from_str("-").concat(padded_of(a, 4).as_str())
        } else {
            proof {
                reveal_strlit("+");
                assert("+"@ =~= seq!['+']);
            }
            String::from_str("+").concat(padded_of(y as u64, 4).as_str())
        };
        proof {
            reveal_strlit("-");
            assert("-"@ =~= seq!['-']);
        }
        year.concat("-").concat(padded_of(self.month as u64, 2).as_str()).concat("-").concat(
            padded_of(self.day as u64, 2).as_str(),
        )
    }
}

fn digit_str(d: u64) -> (r: &'static str)
    requires
        d < 10,
    ensures
        r@ == seq![digit_char(d as nat)],
{
    proof {
        reveal_strlit("0");
        reveal_strlit("1");
        reveal_strlit("2");
        reveal_strlit("3");
        reveal_strlit("4");
        reveal_strlit("5");
        reveal_strlit("6");
        reveal_strlit("7");
        reveal_strlit("8");
        reveal_strlit("9");
    }
    let r = if d == 0 {
        "0"
    } else if d == 1 {
        "1"
    } else if d == 2 {
        "2"
    } else if d == 3 {
        "3"
    } else if d == 4 {
        "4"
    } else if d == 5 {
        "5"
    } else if d == 6 {
        "6"
    } else if d == 7 {
        "7"
    } else if d == 8 {
        "8"
    } else {
        "9"
    };
    assert(r@ =~= seq![digit_char(d as nat)]);
    r
}

/// `n` in decimal.
pub fn digits_of(n: u64) -> (r: String)
    ensures
        r@ == digits(n as nat),
{
    let mut m = n;
    let mut out = String::from_str(digit_str(m % 10));
    while m >= 10
        invariant
            digits(n as nat) == (if m < 10 {
                Seq::<char>::empty()
            } else {
                digits(m as nat / 10)
            }) + out@,
        decreases m,
    {
        let ghost before = out@;
        m = m / 10;
        let d = String::from_str(digit_str(m % 10));
        out = d.concat(out.as_str());
        proof {
            if m < 10 {
                assert(digits(m as nat) =~= seq![digit_char(m as nat % 10)]);
                assert(Seq::<char>::empty() + out@ =~= digits(m as nat) + before);
            } else {
                assert(digits(m as nat) == digits(m as nat / 10).push(digit_char(m as nat % 10)));
                assert(digits(m as nat / 10) + out@ =~= digits(m as nat) + before);
            }
        }
    }
    assert(Seq::<char>::empty() + out@ =~= out@);
    out
}

/// `n` in decimal, with zeros in front up to `w` digits.
pub fn padded_of(n: u64, w: usize) -> (r: String)
    ensures
        r@ == padded(n as nat, w as nat),
{
    let ds = digits_of(n);
    let len = ds.as_str().unicode_len();
    if len < w {
        let mut zeros = String::new();
        let mut i: usize = 0;
        proof {
            reveal_strlit("0");
            assert("0"@ =~= seq!['0']);
        }
        while i < w - len
            invariant
                i <= w - len,
                "0"@ == seq!['0'],
                zeros@ =~= Seq::new(i as nat, |k: int| '0'),
            decreases w - len - i,
        {
            zeros.append("0");
            i = i + 1;
            assert(zeros@ =~= Seq::new(i as nat, |k: int| '0'));
        }
        zeros.concat(ds.as_str())
    } else {
        ds
    }
}

} // verus!
